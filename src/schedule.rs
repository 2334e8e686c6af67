//! Scheduled arrivals taken from schedule-deviation records, indexed under
//! both the raw stop identifier of the feed and its extracted form.
use vstd::prelude::*;

use crate::ids::stop_id_of;
use crate::model::{copy_string_option, NVTModels, ScheduleDeviation, StopTimeUpdate};

verus! {

/// One scheduled passage of a trip at a stop.
#[derive(Clone, Debug)]
pub struct ScheduledArrival {
    pub trip_id: String,
    pub route_id: Option<String>,
    pub direction_id: Option<u32>,
    pub delay: Option<i32>,
    pub time: i64,
}

pub struct ArrivalModel {
    pub trip_id: Seq<char>,
    pub route_id: Option<Seq<char>>,
    pub direction_id: Option<u32>,
    pub delay: Option<i32>,
    pub time: i64,
}

impl View for ScheduledArrival {
    type V = ArrivalModel;

    open spec fn view(&self) -> ArrivalModel {
        ArrivalModel {
            trip_id: self.trip_id@,
            route_id: self.route_id.deep_view(),
            direction_id: self.direction_id,
            delay: self.delay,
            time: self.time,
        }
    }
}

/// Time of an update: that of its arrival, else that of its departure.
pub open spec fn event_time(u: StopTimeUpdate) -> Option<i64> {
    let from_arrival = match u.arrival {
        Some(a) => a.time,
        None => None,
    };
    if from_arrival is Some {
        from_arrival
    } else {
        match u.departure {
            Some(d) => d.time,
            None => None,
        }
    }
}

/// Delay of an update: that of its arrival, else that of its departure.
pub open spec fn event_delay(u: StopTimeUpdate) -> Option<i32> {
    let from_arrival = match u.arrival {
        Some(a) => a.delay,
        None => None,
    };
    if from_arrival is Some {
        from_arrival
    } else {
        match u.departure {
            Some(d) => d.delay,
            None => None,
        }
    }
}

pub open spec fn arrival_of(d: ScheduleDeviation, u: StopTimeUpdate, t: i64) -> ArrivalModel {
    ArrivalModel {
        trip_id: match d.trip_id {
            Some(x) => x@,
            None => "Unknown"@,
        },
        route_id: d.route_id.deep_view(),
        direction_id: d.direction_id,
        delay: event_delay(u),
        time: t,
    }
}

/// The (raw stop identifier, arrival) pairs of the updates `us` of `d` that
/// name a stop and have a time not before `cutoff`, in order.
pub open spec fn update_entries(d: ScheduleDeviation, us: Seq<StopTimeUpdate>, cutoff: int) -> Seq<
    (Seq<char>, ArrivalModel),
>
    decreases us.len(),
{
    if us.len() == 0 {
        seq![]
    } else {
        let r = update_entries(d, us.drop_last(), cutoff);
        let u = us.last();
        match u.stop_id {
            Some(sid) => match event_time(u) {
                Some(t) => if t >= cutoff {
                    r.push((sid@, arrival_of(d, u, t)))
                } else {
                    r
                },
                None => r,
            },
            None => r,
        }
    }
}

/// The (raw stop identifier, arrival) pairs of all records, in order.
pub open spec fn deviation_entries(ds: Seq<ScheduleDeviation>, cutoff: int) -> Seq<
    (Seq<char>, ArrivalModel),
>
    decreases ds.len(),
{
    if ds.len() == 0 {
        seq![]
    } else {
        deviation_entries(ds.drop_last(), cutoff) + update_entries(
            ds.last(),
            ds.last().stop_time_updates@,
            cutoff,
        )
    }
}

/// Each pair under its raw key, followed, where the extracted stop identifier
/// differs from the raw one, by the same arrival under the extracted key.
pub open spec fn dual_keyed(entries: Seq<(Seq<char>, ArrivalModel)>) -> Seq<
    (Seq<char>, ArrivalModel),
>
    decreases entries.len(),
{
    if entries.len() == 0 {
        seq![]
    } else {
        let r = dual_keyed(entries.drop_last()).push(entries.last());
        let raw = entries.last().0;
        if stop_id_of(raw) != raw {
            r.push((stop_id_of(raw), entries.last().1))
        } else {
            r
        }
    }
}

/// The arrivals stored under `key`, in order of insertion.
pub open spec fn arrivals_for(pairs: Seq<(Seq<char>, ArrivalModel)>, key: Seq<char>) -> Seq<
    ArrivalModel,
>
    decreases pairs.len(),
{
    if pairs.len() == 0 {
        seq![]
    } else {
        let r = arrivals_for(pairs.drop_last(), key);
        if pairs.last().0 == key {
            r.push(pairs.last().1)
        } else {
            r
        }
    }
}

pub open spec fn arrival_views(s: Seq<ScheduledArrival>) -> Seq<ArrivalModel> {
    s.map_values(|a: ScheduledArrival| a@)
}

/// Scheduled arrivals keyed by stop identifier: one mapping from identifier to
/// arrivals, each arrival inserted under the raw and under the extracted key.
pub struct ScheduleIndex {
    pub entries: Vec<(String, ScheduledArrival)>,
}

impl ScheduleIndex {
    pub open spec fn pairs(&self) -> Seq<(Seq<char>, ArrivalModel)> {
        self.entries@.map_values(|p: (String, ScheduledArrival)| (p.0@, p.1@))
    }

    fn copy_arrival(a: &ScheduledArrival) -> (r: ScheduledArrival)
        ensures
            r@ == a@,
    {
        ScheduledArrival {
            trip_id: a.trip_id.clone(),
            route_id: copy_string_option(&a.route_id),
            direction_id: a.direction_id,
            delay: a.delay,
            time: a.time,
        }
    }

    fn update_time(u: &StopTimeUpdate) -> (r: Option<i64>)
        ensures
            r == event_time(*u),
    {
        let from_arrival = match u.arrival {
            Some(a) => a.time,
            None => None,
        };
        if from_arrival.is_some() {
            from_arrival
        } else {
            match u.departure {
                Some(d) => d.time,
                None => None,
            }
        }
    }

    fn update_delay(u: &StopTimeUpdate) -> (r: Option<i32>)
        ensures
            r == event_delay(*u),
    {
        let from_arrival = match u.arrival {
            Some(a) => a.delay,
            None => None,
        };
        if from_arrival.is_some() {
            from_arrival
        } else {
            match u.departure {
                Some(d) => d.delay,
                None => None,
            }
        }
    }

    /// Inserts `a` under `raw`, and under its extracted form where that differs.
    fn insert_dual(&mut self, raw: &String, a: ScheduledArrival)
        ensures
            final(self).pairs() == ({
                let r = old(self).pairs().push((raw@, a@));
                if stop_id_of(raw@) != raw@ {
                    r.push((stop_id_of(raw@), a@))
                } else {
                    r
                }
            }),
    {
        let ghost p0 = self.pairs();
        let copy = Self::copy_arrival(&a);
        self.entries.push((raw.clone(), a));
        assert(self.pairs() =~= p0.push((raw@, copy@)));
        let extracted = NVTModels::extract_stop_id(raw.as_str());
        match extracted {
            Some(x) => {
                if !(x == *raw) {
                    let ghost p1 = self.pairs();
                    self.entries.push((x, copy));
                    assert(self.pairs() =~= p1.push((stop_id_of(raw@), copy@)));
                }
            },
            None => {},
        }
    }

    /// Index of the scheduled arrivals of `deviations` whose time is not before `cutoff`.
    pub fn build(deviations: &Vec<ScheduleDeviation>, cutoff: i64) -> (r: ScheduleIndex)
        ensures
            r.pairs() == dual_keyed(deviation_entries(deviations@, cutoff as int)),
    {
        let mut index = ScheduleIndex { entries: Vec::new() };
        assert(index.pairs() =~= seq![]);
        let ghost ds = deviations@;
        let mut i: usize = 0;
        while i < deviations.len()
            invariant
                i <= deviations.len(),
                ds == deviations@,
                index.pairs() == dual_keyed(deviation_entries(ds.take(i as int), cutoff as int)),
            decreases deviations.len() - i,
        {
            let d = &deviations[i];
            let ghost before = deviation_entries(ds.take(i as int), cutoff as int);
            let ghost us = d.stop_time_updates@;
            let trip_id = match &d.trip_id {
                Some(t) => t.clone(),
                None => "Unknown".to_owned(),
            };
            let mut j: usize = 0;
            while j < d.stop_time_updates.len()
                invariant
                    j <= us.len(),
                    us == d.stop_time_updates@,
                    d == deviations@[i as int],
                    trip_id@ == arrival_of(*d, us[0], 0).trip_id,
                    index.pairs() == dual_keyed(
                        before + update_entries(*d, us.take(j as int), cutoff as int),
                    ),
                decreases us.len() - j,
            {
                let u = &d.stop_time_updates[j];
                let ghost prev = before + update_entries(*d, us.take(j as int), cutoff as int);
                assert(us.take(j as int + 1).drop_last() =~= us.take(j as int));
                match &u.stop_id {
                    Some(sid) => match Self::update_time(u) {
                        Some(t) => {
                            if t >= cutoff {
                                let a = ScheduledArrival {
                                    trip_id: trip_id.clone(),
                                    route_id: copy_string_option(&d.route_id),
                                    direction_id: d.direction_id,
                                    delay: Self::update_delay(u),
                                    time: t,
                                };
                                assert(a@ == arrival_of(*d, *u, t));
                                let ghost e = (sid@, a@);
                                assert(prev.push(e).drop_last() =~= prev);
                                assert(before + update_entries(*d, us.take(j as int + 1), cutoff as int)
                                    =~= prev.push(e));
                                index.insert_dual(sid, a);
                            } else {
                                assert(before + update_entries(*d, us.take(j as int + 1), cutoff as int)
                                    =~= prev);
                            }
                        },
                        None => {
                            assert(before + update_entries(*d, us.take(j as int + 1), cutoff as int)
                                =~= prev);
                        },
                    },
                    None => {
                        assert(before + update_entries(*d, us.take(j as int + 1), cutoff as int)
                            =~= prev);
                    },
                }
                j += 1;
            }
            assert(us.take(us.len() as int) =~= us);
            assert(ds.take(i as int + 1).drop_last() =~= ds.take(i as int));
            i += 1;
        }
        assert(ds.take(ds.len() as int) =~= ds);
        index
    }

    /// The arrivals stored under `key`, in order of insertion.
    pub fn lookup(&self, key: &String) -> (r: Vec<ScheduledArrival>)
        ensures
            arrival_views(r@) == arrivals_for(self.pairs(), key@),
    {
        let ghost ps = self.pairs();
        let mut r: Vec<ScheduledArrival> = Vec::new();
        let mut i: usize = 0;
        while i < self.entries.len()
            invariant
                i <= self.entries.len(),
                ps == self.pairs(),
                arrival_views(r@) == arrivals_for(ps.take(i as int), key@),
            decreases self.entries.len() - i,
        {
            assert(ps.take(i as int + 1).drop_last() =~= ps.take(i as int));
            if self.entries[i].0 == *key {
                let ghost before = arrival_views(r@);
                r.push(Self::copy_arrival(&self.entries[i].1));
                assert(arrival_views(r@) =~= before.push(ps[i as int].1));
            } else {
                assert(ps[i as int].0 != key@);
            }
            i += 1;
        }
        assert(ps.take(ps.len() as int) =~= ps);
        r
    }
}


proof fn lemma_arrivals_for_push(
    pairs: Seq<(Seq<char>, ArrivalModel)>,
    e: (Seq<char>, ArrivalModel),
    key: Seq<char>,
)
    ensures
        arrivals_for(pairs.push(e), key) == if e.0 == key {
            arrivals_for(pairs, key).push(e.1)
        } else {
            arrivals_for(pairs, key)
        },
{
    assert(pairs.push(e).drop_last() =~= pairs);
}

proof fn lemma_arrivals_for_grows(
    pairs: Seq<(Seq<char>, ArrivalModel)>,
    e: (Seq<char>, ArrivalModel),
    key: Seq<char>,
    a: ArrivalModel,
)
    requires
        arrivals_for(pairs, key).contains(a),
    ensures
        arrivals_for(pairs.push(e), key).contains(a),
{
    lemma_arrivals_for_push(pairs, e, key);
    let s = arrivals_for(pairs, key);
    if e.0 == key {
        let i = choose|i: int| 0 <= i < s.len() && s[i] == a;
        assert(s.push(e.1)[i] == a);
    }
}

/// An arrival is found both under the raw stop identifier it came with and
/// under the extracted form of that identifier.
pub proof fn lemma_dual_keyed_lookup(entries: Seq<(Seq<char>, ArrivalModel)>, k: int)
    requires
        0 <= k < entries.len(),
    ensures
        arrivals_for(dual_keyed(entries), entries[k].0).contains(entries[k].1),
        arrivals_for(dual_keyed(entries), stop_id_of(entries[k].0)).contains(entries[k].1),
    decreases entries.len(),
{
    let d = dual_keyed(entries.drop_last());
    let last = entries.last();
    let raw = last.0;
    let with_raw = d.push(last);
    let second = (stop_id_of(raw), last.1);
    if k == entries.len() - 1 {
        lemma_arrivals_for_push(d, last, raw);
        assert(arrivals_for(with_raw, raw).last() == last.1);
        assert(arrivals_for(with_raw, raw).contains(last.1));
        if stop_id_of(raw) != raw {
            lemma_arrivals_for_grows(with_raw, second, raw, last.1);
            lemma_arrivals_for_push(with_raw, second, stop_id_of(raw));
            assert(arrivals_for(with_raw.push(second), stop_id_of(raw)).last() == last.1);
        }
    } else {
        lemma_dual_keyed_lookup(entries.drop_last(), k);
        let e = entries[k];
        assert(entries.drop_last()[k] == e);
        lemma_arrivals_for_grows(d, last, e.0, e.1);
        lemma_arrivals_for_grows(d, last, stop_id_of(e.0), e.1);
        if stop_id_of(raw) != raw {
            lemma_arrivals_for_grows(with_raw, second, e.0, e.1);
            lemma_arrivals_for_grows(with_raw, second, stop_id_of(e.0), e.1);
        }
    }
}


/// An update that names a stop and has a time not before `cutoff` gives an
/// entry under its raw stop identifier.
pub proof fn lemma_update_entry_present(
    d: ScheduleDeviation,
    us: Seq<StopTimeUpdate>,
    j: int,
    cutoff: int,
)
    requires
        0 <= j < us.len(),
        us[j].stop_id is Some,
        event_time(us[j]) is Some,
        event_time(us[j])->0 >= cutoff,
    ensures
        update_entries(d, us, cutoff).contains(
            (us[j].stop_id->0@, arrival_of(d, us[j], event_time(us[j])->0)),
        ),
    decreases us.len(),
{
    let e = (us[j].stop_id->0@, arrival_of(d, us[j], event_time(us[j])->0));
    let r = update_entries(d, us.drop_last(), cutoff);
    if j == us.len() - 1 {
        assert(update_entries(d, us, cutoff) == r.push(e));
        assert(r.push(e)[r.len() as int] == e);
    } else {
        assert(us.drop_last()[j] == us[j]);
        lemma_update_entry_present(d, us.drop_last(), j, cutoff);
        let k = choose|k: int| 0 <= k < r.len() && r[k] == e;
        let full = update_entries(d, us, cutoff);
        assert(full == r || (full.len() == r.len() + 1 && full.take(r.len() as int) =~= r));
        assert(full[k] == e);
    }
}

/// The same for the updates of a record among `ds`.
pub proof fn lemma_deviation_entry_present(
    ds: Seq<ScheduleDeviation>,
    di: int,
    ui: int,
    cutoff: int,
)
    requires
        0 <= di < ds.len(),
        0 <= ui < ds[di].stop_time_updates@.len(),
        ds[di].stop_time_updates@[ui].stop_id is Some,
        event_time(ds[di].stop_time_updates@[ui]) is Some,
        event_time(ds[di].stop_time_updates@[ui])->0 >= cutoff,
    ensures
        deviation_entries(ds, cutoff).contains(
            (
                ds[di].stop_time_updates@[ui].stop_id->0@,
                arrival_of(
                    ds[di],
                    ds[di].stop_time_updates@[ui],
                    event_time(ds[di].stop_time_updates@[ui])->0,
                ),
            ),
        ),
    decreases ds.len(),
{
    let u = ds[di].stop_time_updates@[ui];
    let e = (u.stop_id->0@, arrival_of(ds[di], u, event_time(u)->0));
    let front = deviation_entries(ds.drop_last(), cutoff);
    let back = update_entries(ds.last(), ds.last().stop_time_updates@, cutoff);
    assert(deviation_entries(ds, cutoff) == front + back);
    if di == ds.len() - 1 {
        lemma_update_entry_present(ds[di], ds[di].stop_time_updates@, ui, cutoff);
        let k = choose|k: int| 0 <= k < back.len() && back[k] == e;
        assert((front + back)[front.len() + k] == e);
    } else {
        assert(ds.drop_last()[di] == ds[di]);
        lemma_deviation_entry_present(ds.drop_last(), di, ui, cutoff);
        let k = choose|k: int| 0 <= k < front.len() && front[k] == e;
        assert((front + back)[k] == e);
    }
}

} // verus!
