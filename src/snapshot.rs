//! The snapshot builder: joins the static topology with the real-time records
//! into resolved stops and lines.
use vstd::prelude::*;

use crate::colors::{color_for, lookup_color};
use crate::ids::line_id_of;
use crate::model::{
    alert_views, copy_pairs, copy_strings, obs_views, AlertInfo, AlertModel, Line, LineRecord,
    NVTModels, NetworkData, ObsModel, RealTimeInfo, ScheduleDeviation, Stop, StopRecord,
};
use crate::schedule::{
    arrival_of, arrival_views, arrivals_for, deviation_entries, dual_keyed, event_time,
    lemma_deviation_entry_present, lemma_dual_keyed_lookup, ArrivalModel, ScheduleIndex,
    ScheduledArrival,
};
use crate::ids::stop_id_of;
use crate::text::{decimal_digits, push_decimal, same_chars};
use crate::ids::chars_of;
use crate::model::Coordinates;

verus! {

broadcast use vstd::seq_lib::group_seq_properties;

/// Look-back, in seconds, during which a past arrival is still shown.
pub const GRACE_PERIOD: i64 = 120;

/// Most observations that a resolved stop lists.
pub const MAX_ARRIVALS_PER_STOP: usize = 10;

/// Sort key of an observation: its timestamp, with a missing one after every
/// timestamp.
pub open spec fn obs_key(o: ObsModel) -> int {
    match o.timestamp {
        Some(t) => t as int,
        None => i64::MAX as int + 1,
    }
}

/// The observation is not older than `cutoff`; one without timestamp always is.
pub open spec fn in_window(o: ObsModel, cutoff: int) -> bool {
    match o.timestamp {
        Some(t) => t >= cutoff,
        None => true,
    }
}

pub open spec fn window_pred(cutoff: int) -> spec_fn(ObsModel) -> bool {
    |o: ObsModel| in_window(o, cutoff)
}

/// Where a stable insertion puts `x` into the time-ordered `s`: after every
/// element whose key is not greater.
pub open spec fn insert_pos(x: ObsModel, s: Seq<ObsModel>) -> int
    decreases s.len(),
{
    if s.len() == 0 {
        0
    } else if obs_key(s.last()) <= obs_key(x) {
        s.len() as int
    } else {
        insert_pos(x, s.drop_last())
    }
}

pub open spec fn insert_by_time(x: ObsModel, s: Seq<ObsModel>) -> Seq<ObsModel> {
    s.insert(insert_pos(x, s), x)
}

/// Stable sort by [`obs_key`].
pub open spec fn sort_by_time(s: Seq<ObsModel>) -> Seq<ObsModel>
    decreases s.len(),
{
    if s.len() == 0 {
        s
    } else {
        insert_by_time(s.last(), sort_by_time(s.drop_last()))
    }
}

pub open spec fn is_time_ordered(s: Seq<ObsModel>) -> bool {
    forall|i: int, j: int| 0 <= i < j < s.len() ==> obs_key(s[i]) <= obs_key(s[j])
}

proof fn lemma_insert_pos(x: ObsModel, s: Seq<ObsModel>)
    requires
        is_time_ordered(s),
    ensures
        0 <= insert_pos(x, s) <= s.len(),
        forall|j: int| 0 <= j < insert_pos(x, s) ==> obs_key(s[j]) <= obs_key(x),
        forall|j: int| insert_pos(x, s) <= j < s.len() ==> obs_key(s[j]) > obs_key(x),
    decreases s.len(),
{
    if s.len() > 0 {
        let d = s.drop_last();
        if obs_key(s.last()) > obs_key(x) {
            assert(is_time_ordered(d)) by {
                assert forall|i: int, j: int| 0 <= i < j < d.len() implies obs_key(d[i]) <= obs_key(
                    d[j],
                ) by {
                    assert(d[i] == s[i] && d[j] == s[j]);
                }
            }
            lemma_insert_pos(x, d);
            assert forall|j: int| insert_pos(x, s) <= j < s.len() implies obs_key(s[j]) > obs_key(
                x,
            ) by {
                if j < s.len() - 1 {
                    assert(d[j] == s[j]);
                }
            }
            assert forall|j: int| 0 <= j < insert_pos(x, s) implies obs_key(s[j]) <= obs_key(x) by {
                assert(d[j] == s[j]);
            }
        } else {
            assert forall|j: int| 0 <= j < insert_pos(x, s) implies obs_key(s[j]) <= obs_key(x) by {
                if j < s.len() - 1 {
                    assert(obs_key(s[j]) <= obs_key(s[s.len() - 1]));
                }
            }
        }
    }
}

/// The stable sort orders by key and keeps exactly the elements it was given.
pub proof fn lemma_sort_by_time(s: Seq<ObsModel>)
    ensures
        is_time_ordered(sort_by_time(s)),
        sort_by_time(s).to_multiset() == s.to_multiset(),
        sort_by_time(s).len() == s.len(),
    decreases s.len(),
{
    if s.len() > 0 {
        let t = sort_by_time(s.drop_last());
        lemma_sort_by_time(s.drop_last());
        lemma_insert_pos(s.last(), t);
        let p = insert_pos(s.last(), t);
        let r = t.insert(p, s.last());
        assert forall|i: int, j: int| 0 <= i < j < r.len() implies obs_key(r[i]) <= obs_key(r[j]) by {
            if j < p {
            } else if j == p {
            } else if i < p {
            } else if i == p {
            } else {
            }
        }
        t.insert_ensures(p, s.last());
        t.to_multiset_ensures();
        r.to_multiset_ensures();
        assert(s =~= s.drop_last().push(s.last()));
        s.drop_last().to_multiset_ensures();
        vstd::seq_lib::lemma_multiset_commutative(t.take(p), seq![s.last()] + t.skip(p));
        assert(r =~= t.take(p) + (seq![s.last()] + t.skip(p)));
        assert(t =~= t.take(p) + t.skip(p));
        vstd::seq_lib::lemma_multiset_commutative(t.take(p), t.skip(p));
        vstd::seq_lib::lemma_multiset_commutative(seq![s.last()], t.skip(p));
    }
}

/// Sort key of an observation, executable.
pub fn time_key(o: &RealTimeInfo) -> (r: i128)
    ensures
        r == obs_key(o@),
{
    match o.timestamp {
        Some(t) => t as i128,
        None => i64::MAX as i128 + 1,
    }
}

fn insert_in_time_order(v: &mut Vec<RealTimeInfo>, x: RealTimeInfo)
    ensures
        obs_views(final(v)@) == insert_by_time(x@, obs_views(old(v)@)),
{
    let ghost s = obs_views(v@);
    let k = time_key(&x);
    let mut p: usize = v.len();
    while p > 0 && time_key(&v[p - 1]) > k
        invariant
            p <= v.len(),
            s == obs_views(v@),
            k == obs_key(x@),
            insert_pos(x@, s) == insert_pos(x@, s.take(p as int)),
        decreases p,
    {
        assert(s.take(p as int).drop_last() =~= s.take(p as int - 1));
        p -= 1;
    }
    assert(s.take(v.len() as int) =~= s);
    v.insert(p, x);
    assert(obs_views(v@) =~= s.insert(p as int, x@));
}

/// Stable sort of observations by timestamp, missing timestamps last.
pub fn sort_observations(v: &Vec<RealTimeInfo>) -> (r: Vec<RealTimeInfo>)
    ensures
        obs_views(r@) == sort_by_time(obs_views(v@)),
{
    let ghost s = obs_views(v@);
    let mut r: Vec<RealTimeInfo> = Vec::new();
    let mut i: usize = 0;
    while i < v.len()
        invariant
            i <= v.len(),
            s == obs_views(v@),
            obs_views(r@) == sort_by_time(s.take(i as int)),
        decreases v.len() - i,
    {
        assert(s.take(i as int + 1).drop_last() =~= s.take(i as int));
        insert_in_time_order(&mut r, v[i].duplicate());
        i += 1;
    }
    assert(s.take(v.len() as int) =~= s);
    r
}

/// The observations of `v` that are in the window starting at `cutoff`, in order.
pub fn keep_in_window(v: &Vec<RealTimeInfo>, cutoff: i64) -> (r: Vec<RealTimeInfo>)
    ensures
        obs_views(r@) == obs_views(v@).filter(window_pred(cutoff as int)),
{
    let ghost s = obs_views(v@);
    let mut r: Vec<RealTimeInfo> = Vec::new();
    let mut i: usize = 0;
    while i < v.len()
        invariant
            i <= v.len(),
            s == obs_views(v@),
            obs_views(r@) == s.take(i as int).filter(window_pred(cutoff as int)),
        decreases v.len() - i,
    {
        assert(s.take(i as int + 1) =~= s.take(i as int).push(s[i as int]));
        proof {
            s.take(i as int).lemma_filter_push(s[i as int], window_pred(cutoff as int));
        }
        let keep = match v[i].timestamp {
            Some(t) => t >= cutoff,
            None => true,
        };
        if keep {
            let ghost before = obs_views(r@);
            r.push(v[i].duplicate());
            assert(obs_views(r@) =~= before.push(s[i as int]));
        }
        i += 1;
    }
    assert(s.take(v.len() as int) =~= s);
    r
}


pub struct StopModel {
    pub stop_id: Seq<char>,
    pub stop_name: Seq<char>,
    pub position: Coordinates,
    pub lines: Seq<Seq<char>>,
    pub alerts: Seq<AlertModel>,
    pub real_time: Seq<ObsModel>,
}

impl View for Stop {
    type V = StopModel;

    open spec fn view(&self) -> StopModel {
        StopModel {
            stop_id: self.stop_id@,
            stop_name: self.stop_name@,
            position: self.position,
            lines: self.lines.deep_view(),
            alerts: alert_views(self.alerts@),
            real_time: obs_views(self.real_time@),
        }
    }
}

pub struct LineModel {
    pub line_ref: Seq<char>,
    pub line_name: Seq<char>,
    pub line_code: Seq<char>,
    pub destinations: Seq<(Seq<char>, Seq<char>)>,
    pub alerts: Seq<AlertModel>,
    pub real_time: Seq<ObsModel>,
    pub color: Seq<char>,
}

impl View for Line {
    type V = LineModel;

    open spec fn view(&self) -> LineModel {
        LineModel {
            line_ref: self.line_ref@,
            line_name: self.line_name@,
            line_code: self.line_code@,
            destinations: self.destinations.deep_view(),
            alerts: alert_views(self.alerts@),
            real_time: obs_views(self.real_time@),
            color: self.color@,
        }
    }
}

pub struct NetworkModel {
    pub stops: Seq<StopModel>,
    pub lines: Seq<LineModel>,
}

impl View for NetworkData {
    type V = NetworkModel;

    open spec fn view(&self) -> NetworkModel {
        NetworkModel {
            stops: self.stops@.map_values(|x: Stop| x@),
            lines: self.lines@.map_values(|x: Line| x@),
        }
    }
}

/// Destinations of the last line whose route identifier is `rid`.
pub open spec fn route_destinations(lines: Seq<LineRecord>, rid: Seq<char>) -> Option<
    Seq<(Seq<char>, Seq<char>)>,
>
    decreases lines.len(),
{
    if lines.len() == 0 {
        None
    } else if line_id_of(lines.last().line_ref@) == Some(rid) {
        Some(lines.last().destinations.deep_view())
    } else {
        route_destinations(lines.drop_last(), rid)
    }
}

/// Destination name of the first pair whose direction is `dir`.
pub open spec fn place_for_direction(ds: Seq<(Seq<char>, Seq<char>)>, dir: Seq<char>) -> Option<
    Seq<char>,
>
    decreases ds.len(),
{
    if ds.len() == 0 {
        None
    } else if ds[0].0 == dir {
        Some(ds[0].1)
    } else {
        place_for_direction(ds.drop_first(), dir)
    }
}

/// Destination of a scheduled arrival, from its route and direction.
pub open spec fn scheduled_destination(
    lines: Seq<LineRecord>,
    route: Option<Seq<char>>,
    dir: Option<u32>,
) -> Option<Seq<char>> {
    match route {
        Some(r) => match route_destinations(lines, r) {
            Some(ds) => match dir {
                Some(d) => place_for_direction(ds, decimal_digits(d as nat)),
                None => None,
            },
            None => None,
        },
        None => None,
    }
}

/// Vehicle identifier of every scheduled observation.
pub open spec fn scheduled_vehicle() -> Seq<char> {
    "scheduled"@
}

/// The observation synthesized from a scheduled arrival at `stop`.
pub open spec fn synthesized(a: ArrivalModel, stop: StopRecord, lines: Seq<LineRecord>) -> ObsModel {
    ObsModel {
        vehicle_id: scheduled_vehicle(),
        trip_id: a.trip_id,
        route_id: a.route_id,
        direction_id: a.direction_id,
        destination: scheduled_destination(lines, a.route_id, a.direction_id),
        position: stop.position,
        stop_id: Some(stop.stop_id@),
        timestamp: Some(a.time),
        delay: a.delay,
    }
}

pub open spec fn at_stop(id: Seq<char>) -> spec_fn(ObsModel) -> bool {
    |o: ObsModel| o.stop_id == Some(id)
}

/// Live observations at the stop, followed by its scheduled ones.
pub open spec fn stop_candidates(
    stop: StopRecord,
    live: Seq<ObsModel>,
    pairs: Seq<(Seq<char>, ArrivalModel)>,
    lines: Seq<LineRecord>,
) -> Seq<ObsModel> {
    live.filter(at_stop(stop.stop_id@)) + arrivals_for(pairs, stop.stop_id@).map_values(
        synthesizer(stop, lines),
    )
}

pub open spec fn capped(s: Seq<ObsModel>, n: int) -> Seq<ObsModel> {
    if s.len() > n {
        s.take(n)
    } else {
        s
    }
}

/// Observations of a resolved stop: its candidates in the window, in time
/// order, at most [`MAX_ARRIVALS_PER_STOP`] of them.
pub open spec fn stop_observations(
    stop: StopRecord,
    live: Seq<ObsModel>,
    pairs: Seq<(Seq<char>, ArrivalModel)>,
    lines: Seq<LineRecord>,
    cutoff: int,
) -> Seq<ObsModel> {
    capped(
        sort_by_time(stop_candidates(stop, live, pairs, lines).filter(window_pred(cutoff))),
        MAX_ARRIVALS_PER_STOP as int,
    )
}

pub open spec fn alert_at_stop(id: Seq<char>) -> spec_fn(AlertModel) -> bool {
    |a: AlertModel| a.stop_ids.contains(id)
}

pub open spec fn resolved_stop(
    stop: StopRecord,
    live: Seq<ObsModel>,
    pairs: Seq<(Seq<char>, ArrivalModel)>,
    lines: Seq<LineRecord>,
    alerts: Seq<AlertModel>,
    cutoff: int,
) -> StopModel {
    StopModel {
        stop_id: stop.stop_id@,
        stop_name: stop.stop_name@,
        position: stop.position,
        lines: stop.lines.deep_view(),
        alerts: alerts.filter(alert_at_stop(stop.stop_id@)),
        real_time: stop_observations(stop, live, pairs, lines, cutoff),
    }
}

/// Route identifier of a line, if its reference has one.
pub open spec fn route_of(l: LineRecord) -> Option<Seq<char>> {
    line_id_of(l.line_ref@)
}

pub open spec fn on_route(route: Seq<char>) -> spec_fn(ObsModel) -> bool {
    |o: ObsModel| o.route_id == Some(route)
}

/// Observations of a resolved line: live ones on its route, in the window, in
/// time order; none for a line without route identifier.
pub open spec fn line_observations(l: LineRecord, live: Seq<ObsModel>, cutoff: int) -> Seq<
    ObsModel,
> {
    match route_of(l) {
        Some(route) => sort_by_time(live.filter(on_route(route)).filter(window_pred(cutoff))),
        None => seq![],
    }
}

/// The alert names the line's short code, or its route identifier when it has one.
pub open spec fn alert_on_line(code: Seq<char>, route: Option<Seq<char>>) -> spec_fn(
    AlertModel,
) -> bool {
    |a: AlertModel|
        a.route_ids.contains(code) || (route matches Some(r) && a.route_ids.contains(r))
}

/// Color shown for a route without one in the table.
pub open spec fn default_color() -> Seq<char> {
    "808080"@
}

pub open spec fn resolved_line(
    l: LineRecord,
    live: Seq<ObsModel>,
    alerts: Seq<AlertModel>,
    colors: Seq<(Seq<char>, Seq<char>)>,
    cutoff: int,
) -> LineModel {
    LineModel {
        line_ref: l.line_ref@,
        line_name: l.line_name@,
        line_code: l.line_code@,
        destinations: l.destinations.deep_view(),
        alerts: alerts.filter(alert_on_line(l.line_code@, route_of(l))),
        real_time: line_observations(l, live, cutoff),
        color: match route_of(l) {
            Some(route) => match color_for(colors, route) {
                Some(c) => c,
                None => default_color(),
            },
            None => default_color(),
        },
    }
}

pub open spec fn stop_resolver(
    live: Seq<ObsModel>,
    pairs: Seq<(Seq<char>, ArrivalModel)>,
    lines: Seq<LineRecord>,
    alerts: Seq<AlertModel>,
    cutoff: int,
) -> spec_fn(StopRecord) -> StopModel {
    |s: StopRecord| resolved_stop(s, live, pairs, lines, alerts, cutoff)
}

pub open spec fn line_resolver(
    live: Seq<ObsModel>,
    alerts: Seq<AlertModel>,
    colors: Seq<(Seq<char>, Seq<char>)>,
    cutoff: int,
) -> spec_fn(LineRecord) -> LineModel {
    |l: LineRecord| resolved_line(l, live, alerts, colors, cutoff)
}

pub open spec fn synthesizer(stop: StopRecord, lines: Seq<LineRecord>) -> spec_fn(ArrivalModel) -> ObsModel {
    |a: ArrivalModel| synthesized(a, stop, lines)
}

/// The snapshot of the network at instant `now`.
pub open spec fn snapshot_of(
    stops: Seq<StopRecord>,
    lines: Seq<LineRecord>,
    alerts: Seq<AlertModel>,
    live: Seq<ObsModel>,
    deviations: Seq<ScheduleDeviation>,
    colors: Seq<(Seq<char>, Seq<char>)>,
    now: int,
) -> NetworkModel {
    let cutoff = now - GRACE_PERIOD;
    let pairs = dual_keyed(deviation_entries(deviations, cutoff));
    NetworkModel {
        stops: stops.map_values(stop_resolver(live, pairs, lines, alerts, cutoff)),
        lines: lines.map_values(line_resolver(live, alerts, colors, cutoff)),
    }
}

/// `v` holds `s`.
pub fn contains_string(v: &Vec<String>, s: &String) -> (r: bool)
    ensures
        r == v.deep_view().contains(s@),
{
    let mut i: usize = 0;
    while i < v.len()
        invariant
            i <= v.len(),
            forall|j: int| 0 <= j < i ==> v.deep_view()[j] != s@,
        decreases v.len() - i,
    {
        if v[i] == *s {
            assert(v.deep_view()[i as int] == s@);
            return true;
        }
        i += 1;
    }
    false
}

/// Index of the last line whose route identifier is `rid`.
fn find_route_line(lines: &Vec<LineRecord>, rid: &String) -> (r: Option<usize>)
    ensures
        match r {
            Some(k) => k < lines@.len() && route_destinations(lines@, rid@) == Some(
                lines@[k as int].destinations.deep_view(),
            ),
            None => route_destinations(lines@, rid@) is None,
        },
{
    let mut i: usize = lines.len();
    assert(lines@.take(i as int) =~= lines@);
    while i > 0
        invariant
            i <= lines.len(),
            route_destinations(lines@, rid@) == route_destinations(lines@.take(i as int), rid@),
        decreases i,
    {
        assert(lines@.take(i as int).drop_last() =~= lines@.take(i as int - 1));
        let same = match NVTModels::extract_line_id(lines[i - 1].line_ref.as_str()) {
            Some(x) => x.to_owned() == *rid,
            None => false,
        };
        if same {
            return Some(i - 1);
        }
        i -= 1;
    }
    None
}

/// Destination name of the first pair whose direction is the decimal `dir`.
fn find_place(ds: &Vec<(String, String)>, dir: u32) -> (r: Option<String>)
    ensures
        r.deep_view() == place_for_direction(ds.deep_view(), decimal_digits(dir as nat)),
{
    let mut digits: Vec<char> = Vec::new();
    push_decimal(dir as u64, &mut digits);
    assert(digits@ =~= decimal_digits(dir as nat));
    let ghost t = ds.deep_view();
    let mut i: usize = 0;
    assert(t.skip(0) =~= t);
    while i < ds.len()
        invariant
            i <= ds.len(),
            t == ds.deep_view(),
            digits@ == decimal_digits(dir as nat),
            place_for_direction(t, digits@) == place_for_direction(t.skip(i as int), digits@),
        decreases ds.len() - i,
    {
        assert(t.skip(i as int).drop_first() =~= t.skip(i as int + 1));
        let d = chars_of(ds[i].0.as_str());
        if same_chars(&d, &digits) {
            return Some(ds[i].1.clone());
        }
        i += 1;
    }
    None
}

fn destination_for(lines: &Vec<LineRecord>, route: &Option<String>, dir: Option<u32>) -> (r: Option<
    String,
>)
    ensures
        r.deep_view() == scheduled_destination(lines@, route.deep_view(), dir),
{
    match route {
        Some(rid) => match find_route_line(lines, rid) {
            Some(k) => match dir {
                Some(d) => find_place(&lines[k].destinations, d),
                None => None,
            },
            None => None,
        },
        None => None,
    }
}

fn synthesize(a: &ScheduledArrival, stop: &StopRecord, lines: &Vec<LineRecord>) -> (r: RealTimeInfo)
    ensures
        r@ == synthesized(a@, *stop, lines@),
{
    RealTimeInfo {
        vehicle_id: "scheduled".to_owned(),
        trip_id: a.trip_id.clone(),
        route_id: crate::model::copy_string_option(&a.route_id),
        direction_id: a.direction_id,
        destination: destination_for(lines, &a.route_id, a.direction_id),
        position: stop.position,
        stop_id: Some(stop.stop_id.clone()),
        timestamp: Some(a.time),
        delay: a.delay,
    }
}

/// The observations of `live` at the stop `id`, in order.
pub fn live_at_stop(live: &Vec<RealTimeInfo>, id: &String) -> (r: Vec<RealTimeInfo>)
    ensures
        obs_views(r@) == obs_views(live@).filter(at_stop(id@)),
{
    let ghost s = obs_views(live@);
    let mut r: Vec<RealTimeInfo> = Vec::new();
    let mut i: usize = 0;
    while i < live.len()
        invariant
            i <= live.len(),
            s == obs_views(live@),
            obs_views(r@) == s.take(i as int).filter(at_stop(id@)),
        decreases live.len() - i,
    {
        assert(s.take(i as int + 1) =~= s.take(i as int).push(s[i as int]));
        proof {
            s.take(i as int).lemma_filter_push(s[i as int], at_stop(id@));
        }
        let keep = match &live[i].stop_id {
            Some(x) => *x == *id,
            None => false,
        };
        if keep {
            let ghost before = obs_views(r@);
            r.push(live[i].duplicate());
            assert(obs_views(r@) =~= before.push(s[i as int]));
        }
        i += 1;
    }
    assert(s.take(live.len() as int) =~= s);
    r
}

/// The observations of `live` on the route `route`, in order.
pub fn live_on_route(live: &Vec<RealTimeInfo>, route: &String) -> (r: Vec<RealTimeInfo>)
    ensures
        obs_views(r@) == obs_views(live@).filter(on_route(route@)),
{
    let ghost s = obs_views(live@);
    let mut r: Vec<RealTimeInfo> = Vec::new();
    let mut i: usize = 0;
    while i < live.len()
        invariant
            i <= live.len(),
            s == obs_views(live@),
            obs_views(r@) == s.take(i as int).filter(on_route(route@)),
        decreases live.len() - i,
    {
        assert(s.take(i as int + 1) =~= s.take(i as int).push(s[i as int]));
        proof {
            s.take(i as int).lemma_filter_push(s[i as int], on_route(route@));
        }
        let keep = match &live[i].route_id {
            Some(x) => *x == *route,
            None => false,
        };
        if keep {
            let ghost before = obs_views(r@);
            r.push(live[i].duplicate());
            assert(obs_views(r@) =~= before.push(s[i as int]));
        }
        i += 1;
    }
    assert(s.take(live.len() as int) =~= s);
    r
}

fn alerts_at_stop(alerts: &Vec<AlertInfo>, id: &String) -> (r: Vec<AlertInfo>)
    ensures
        alert_views(r@) == alert_views(alerts@).filter(alert_at_stop(id@)),
{
    let ghost s = alert_views(alerts@);
    let mut r: Vec<AlertInfo> = Vec::new();
    let mut i: usize = 0;
    while i < alerts.len()
        invariant
            i <= alerts.len(),
            s == alert_views(alerts@),
            alert_views(r@) == s.take(i as int).filter(alert_at_stop(id@)),
        decreases alerts.len() - i,
    {
        assert(s.take(i as int + 1) =~= s.take(i as int).push(s[i as int]));
        proof {
            s.take(i as int).lemma_filter_push(s[i as int], alert_at_stop(id@));
        }
        if contains_string(&alerts[i].stop_ids, id) {
            let ghost before = alert_views(r@);
            r.push(alerts[i].duplicate());
            assert(alert_views(r@) =~= before.push(s[i as int]));
        }
        i += 1;
    }
    assert(s.take(alerts.len() as int) =~= s);
    r
}

fn alerts_on_line(alerts: &Vec<AlertInfo>, code: &String, route: &Option<String>) -> (r: Vec<
    AlertInfo,
>)
    ensures
        alert_views(r@) == alert_views(alerts@).filter(alert_on_line(code@, route.deep_view())),
{
    let ghost s = alert_views(alerts@);
    let mut r: Vec<AlertInfo> = Vec::new();
    let mut i: usize = 0;
    while i < alerts.len()
        invariant
            i <= alerts.len(),
            s == alert_views(alerts@),
            alert_views(r@) == s.take(i as int).filter(alert_on_line(code@, route.deep_view())),
        decreases alerts.len() - i,
    {
        assert(s.take(i as int + 1) =~= s.take(i as int).push(s[i as int]));
        proof {
            s.take(i as int).lemma_filter_push(s[i as int], alert_on_line(code@, route.deep_view()));
        }
        let on_route = match route {
            Some(x) => contains_string(&alerts[i].route_ids, x),
            None => false,
        };
        if contains_string(&alerts[i].route_ids, code) || on_route {
            let ghost before = alert_views(r@);
            r.push(alerts[i].duplicate());
            assert(alert_views(r@) =~= before.push(s[i as int]));
        }
        i += 1;
    }
    assert(s.take(alerts.len() as int) =~= s);
    r
}

/// Observations of the stop, resolved as [`stop_observations`] states.
fn stop_real_time(
    stop: &StopRecord,
    live: &Vec<RealTimeInfo>,
    index: &ScheduleIndex,
    lines: &Vec<LineRecord>,
    cutoff: i64,
) -> (r: Vec<RealTimeInfo>)
    ensures
        obs_views(r@) == stop_observations(*stop, obs_views(live@), index.pairs(), lines@, cutoff as int),
{
    let mut candidates = live_at_stop(live, &stop.stop_id);
    let scheduled = index.lookup(&stop.stop_id);
    let ghost first = obs_views(candidates@);
    let ghost arr = arrival_views(scheduled@);
    let mut i: usize = 0;
    while i < scheduled.len()
        invariant
            i <= scheduled.len(),
            arr == arrival_views(scheduled@),
            obs_views(candidates@) == first + arr.take(i as int).map_values(
                synthesizer(*stop, lines@),
            ),
        decreases scheduled.len() - i,
    {
        let ghost before = obs_views(candidates@);
        let obs = synthesize(&scheduled[i], stop, lines);
        assert(obs@ == synthesizer(*stop, lines@)(arr[i as int]));
        candidates.push(obs);
        assert(obs_views(candidates@) =~= before.push(obs@));
        assert(arr.take(i as int + 1).map_values(synthesizer(*stop, lines@)) =~= arr.take(
            i as int,
        ).map_values(synthesizer(*stop, lines@)).push(obs@));
        i += 1;
    }
    assert(arr.take(scheduled.len() as int) =~= arr);
    let in_window = keep_in_window(&candidates, cutoff);
    let mut sorted = sort_observations(&in_window);
    let ghost full = obs_views(sorted@);
    if sorted.len() > MAX_ARRIVALS_PER_STOP {
        sorted.truncate(MAX_ARRIVALS_PER_STOP);
        assert(obs_views(sorted@) =~= full.take(MAX_ARRIVALS_PER_STOP as int));
    }
    sorted
}

fn resolve_stop(
    stop: &StopRecord,
    live: &Vec<RealTimeInfo>,
    index: &ScheduleIndex,
    lines: &Vec<LineRecord>,
    alerts: &Vec<AlertInfo>,
    cutoff: i64,
) -> (r: Stop)
    ensures
        r@ == resolved_stop(
            *stop,
            obs_views(live@),
            index.pairs(),
            lines@,
            alert_views(alerts@),
            cutoff as int,
        ),
{
    Stop {
        stop_id: stop.stop_id.clone(),
        stop_name: stop.stop_name.clone(),
        position: stop.position,
        lines: copy_strings(&stop.lines),
        alerts: alerts_at_stop(alerts, &stop.stop_id),
        real_time: stop_real_time(stop, live, index, lines, cutoff),
    }
}

/// Route identifier of a line, if its reference has one.
pub fn line_route(l: &LineRecord) -> (r: Option<String>)
    ensures
        r.deep_view() == route_of(*l),
{
    match NVTModels::extract_line_id(l.line_ref.as_str()) {
        Some(x) => Some(x.to_owned()),
        None => None,
    }
}

fn resolve_line(
    l: &LineRecord,
    live: &Vec<RealTimeInfo>,
    alerts: &Vec<AlertInfo>,
    colors: &Vec<(String, String)>,
    cutoff: i64,
) -> (r: Line)
    ensures
        r@ == resolved_line(*l, obs_views(live@), alert_views(alerts@), colors.deep_view(), cutoff as int),
{
    let route = line_route(l);
    let (color, real_time) = match &route {
        Some(r) => {
            let color = match lookup_color(colors, r) {
                Some(c) => c,
                None => "808080".to_owned(),
            };
            let on_line = live_on_route(live, r);
            let in_window = keep_in_window(&on_line, cutoff);
            (color, sort_observations(&in_window))
        },
        None => {
            let none: Vec<RealTimeInfo> = Vec::new();
            assert(obs_views(none@) =~= seq![]);
            ("808080".to_owned(), none)
        },
    };
    Line {
        line_ref: l.line_ref.clone(),
        line_name: l.line_name.clone(),
        line_code: l.line_code.clone(),
        destinations: copy_pairs(&l.destinations),
        alerts: alerts_on_line(alerts, &l.line_code, &route),
        real_time,
        color,
    }
}

impl NVTModels {
    /// The snapshot of the network at instant `now` (unix seconds).
    pub fn build_network_data(
        stops_data: &Vec<StopRecord>,
        lines_data: &Vec<LineRecord>,
        alerts: &Vec<AlertInfo>,
        real_time: &Vec<RealTimeInfo>,
        trip_updates: &Vec<ScheduleDeviation>,
        line_color_map: &Vec<(String, String)>,
        now: i64,
    ) -> (r: NetworkData)
        requires
            now >= i64::MIN + GRACE_PERIOD,
        ensures
            r@ == snapshot_of(
                stops_data@,
                lines_data@,
                alert_views(alerts@),
                obs_views(real_time@),
                trip_updates@,
                line_color_map.deep_view(),
                now as int,
            ),
            forall|i: int|
                0 <= i < r@.stops.len() ==> {
                    &&& is_time_ordered(#[trigger] r@.stops[i].real_time)
                    &&& missing_last(r@.stops[i].real_time)
                    &&& all_in_window(r@.stops[i].real_time, now - GRACE_PERIOD)
                    &&& r@.stops[i].real_time.len() <= MAX_ARRIVALS_PER_STOP
                },
            forall|i: int|
                0 <= i < r@.lines.len() ==> {
                    &&& is_time_ordered(#[trigger] r@.lines[i].real_time)
                    &&& missing_last(r@.lines[i].real_time)
                    &&& all_in_window(r@.lines[i].real_time, now - GRACE_PERIOD)
                },
    {
        let cutoff = now - GRACE_PERIOD;
        let index = ScheduleIndex::build(trip_updates, cutoff);
        let ghost pairs = index.pairs();
        let ghost live = obs_views(real_time@);
        let ghost av = alert_views(alerts@);
        let mut stops: Vec<Stop> = Vec::new();
        let mut i: usize = 0;
        while i < stops_data.len()
            invariant
                i <= stops_data.len(),
                pairs == index.pairs(),
                live == obs_views(real_time@),
                av == alert_views(alerts@),
                stops@.map_values(|x: Stop| x@) =~= stops_data@.take(i as int).map_values(
                    stop_resolver(live, pairs, lines_data@, av, cutoff as int),
                ),
            decreases stops_data.len() - i,
        {
            let ghost f = stop_resolver(live, pairs, lines_data@, av, cutoff as int);
            let ghost before = stops@.map_values(|x: Stop| x@);
            let st = resolve_stop(&stops_data[i], real_time, &index, lines_data, alerts, cutoff);
            assert(st@ == f(stops_data@[i as int]));
            stops.push(st);
            assert(stops@.map_values(|x: Stop| x@) =~= before.push(st@));
            assert(stops_data@.take(i as int + 1).map_values(f) =~= stops_data@.take(i as int).map_values(f).push(st@));
            i += 1;
        }
        let mut lines: Vec<Line> = Vec::new();
        let mut j: usize = 0;
        while j < lines_data.len()
            invariant
                j <= lines_data.len(),
                live == obs_views(real_time@),
                av == alert_views(alerts@),
                lines@.map_values(|x: Line| x@) =~= lines_data@.take(j as int).map_values(
                    line_resolver(live, av, line_color_map.deep_view(), cutoff as int),
                ),
            decreases lines_data.len() - j,
        {
            let ghost f = line_resolver(live, av, line_color_map.deep_view(), cutoff as int);
            let ghost before = lines@.map_values(|x: Line| x@);
            let ln = resolve_line(&lines_data[j], real_time, alerts, line_color_map, cutoff);
            assert(ln@ == f(lines_data@[j as int]));
            lines.push(ln);
            assert(lines@.map_values(|x: Line| x@) =~= before.push(ln@));
            assert(lines_data@.take(j as int + 1).map_values(f) =~= lines_data@.take(j as int).map_values(f).push(ln@));
            j += 1;
        }
        assert(stops_data@.take(stops_data.len() as int) =~= stops_data@);
        assert(lines_data@.take(lines_data.len() as int) =~= lines_data@);
        let r = NetworkData { stops, lines };
        assert forall|i: int| 0 <= i < r@.stops.len() implies {
            &&& is_time_ordered(#[trigger] r@.stops[i].real_time)
            &&& missing_last(r@.stops[i].real_time)
            &&& all_in_window(r@.stops[i].real_time, now - GRACE_PERIOD)
            &&& r@.stops[i].real_time.len() <= MAX_ARRIVALS_PER_STOP
        } by {
            lemma_stop_observations(stops_data@[i], live, pairs, lines_data@, cutoff as int);
        }
        assert forall|i: int| 0 <= i < r@.lines.len() implies {
            &&& is_time_ordered(#[trigger] r@.lines[i].real_time)
            &&& missing_last(r@.lines[i].real_time)
            &&& all_in_window(r@.lines[i].real_time, now - GRACE_PERIOD)
        } by {
            lemma_line_observations(lines_data@[i], live, cutoff as int);
        }
        r
    }
}


/// Entries without timestamp come after every entry with one.
pub open spec fn missing_last(s: Seq<ObsModel>) -> bool {
    forall|i: int, j: int| 0 <= i < j < s.len() && s[i].timestamp is None ==> s[j].timestamp is None
}

pub open spec fn all_in_window(s: Seq<ObsModel>, cutoff: int) -> bool {
    forall|k: int| 0 <= k < s.len() ==> in_window(#[trigger] s[k], cutoff)
}

proof fn lemma_ordered_missing_last(s: Seq<ObsModel>)
    requires
        is_time_ordered(s),
    ensures
        missing_last(s),
{
    assert forall|i: int, j: int|
        0 <= i < j < s.len() && s[i].timestamp is None implies s[j].timestamp is None by {
        assert(obs_key(s[i]) <= obs_key(s[j]));
    }
}

/// Sorting what the window keeps gives observations in time order, all in the window.
pub proof fn lemma_sorted_window(s: Seq<ObsModel>, cutoff: int)
    ensures
        is_time_ordered(sort_by_time(s.filter(window_pred(cutoff)))),
        missing_last(sort_by_time(s.filter(window_pred(cutoff)))),
        all_in_window(sort_by_time(s.filter(window_pred(cutoff))), cutoff),
{
    let f = s.filter(window_pred(cutoff));
    lemma_sort_by_time(f);
    let t = sort_by_time(f);
    lemma_ordered_missing_last(t);
    assert forall|k: int| 0 <= k < t.len() implies in_window(#[trigger] t[k], cutoff) by {
        t.to_multiset_ensures();
        f.to_multiset_ensures();
        assert(t.contains(t[k]));
        assert(t.to_multiset().count(t[k]) > 0);
        assert(f.to_multiset().count(t[k]) > 0);
        assert(f.contains(t[k]));
        let i = choose|i: int| 0 <= i < f.len() && f[i] == t[k];
        s.lemma_filter_pred(window_pred(cutoff), i);
    }
}

/// The observations of a resolved stop are in time order, none older than
/// the cutoff, at most [`MAX_ARRIVALS_PER_STOP`] of them.
pub proof fn lemma_stop_observations(
    stop: StopRecord,
    live: Seq<ObsModel>,
    pairs: Seq<(Seq<char>, ArrivalModel)>,
    lines: Seq<LineRecord>,
    cutoff: int,
)
    ensures
        is_time_ordered(stop_observations(stop, live, pairs, lines, cutoff)),
        missing_last(stop_observations(stop, live, pairs, lines, cutoff)),
        all_in_window(stop_observations(stop, live, pairs, lines, cutoff), cutoff),
        stop_observations(stop, live, pairs, lines, cutoff).len() <= MAX_ARRIVALS_PER_STOP,
{
    let c = stop_candidates(stop, live, pairs, lines);
    lemma_sorted_window(c, cutoff);
    let t = sort_by_time(c.filter(window_pred(cutoff)));
    let r = stop_observations(stop, live, pairs, lines, cutoff);
    assert forall|k: int| 0 <= k < r.len() implies r[k] == t[k] by {}
}

/// The observations of a resolved line are in time order, none older than the cutoff.
pub proof fn lemma_line_observations(l: LineRecord, live: Seq<ObsModel>, cutoff: int)
    ensures
        is_time_ordered(line_observations(l, live, cutoff)),
        missing_last(line_observations(l, live, cutoff)),
        all_in_window(line_observations(l, live, cutoff), cutoff),
{
    match route_of(l) {
        Some(route) => lemma_sorted_window(live.filter(on_route(route)), cutoff),
        None => {},
    }
}


/// Every stop of a snapshot lists its observations in time order, missing
/// timestamps last, none older than `now` less the grace period, at most
/// [`MAX_ARRIVALS_PER_STOP`] of them; every line lists its own in time order,
/// missing timestamps last, none older than that either.
pub proof fn lemma_snapshot_observations(
    stops: Seq<StopRecord>,
    lines: Seq<LineRecord>,
    alerts: Seq<AlertModel>,
    live: Seq<ObsModel>,
    deviations: Seq<ScheduleDeviation>,
    colors: Seq<(Seq<char>, Seq<char>)>,
    now: int,
)
    ensures
        forall|i: int|
            0 <= i < snapshot_of(stops, lines, alerts, live, deviations, colors, now).stops.len()
                ==> {
                let obs = #[trigger] snapshot_of(
                    stops,
                    lines,
                    alerts,
                    live,
                    deviations,
                    colors,
                    now,
                ).stops[i].real_time;
                &&& is_time_ordered(obs)
                &&& missing_last(obs)
                &&& all_in_window(obs, now - GRACE_PERIOD)
                &&& obs.len() <= MAX_ARRIVALS_PER_STOP
            },
        forall|j: int|
            0 <= j < snapshot_of(stops, lines, alerts, live, deviations, colors, now).lines.len()
                ==> {
                let obs = #[trigger] snapshot_of(
                    stops,
                    lines,
                    alerts,
                    live,
                    deviations,
                    colors,
                    now,
                ).lines[j].real_time;
                &&& is_time_ordered(obs)
                &&& missing_last(obs)
                &&& all_in_window(obs, now - GRACE_PERIOD)
            },
{
    let cutoff = now - GRACE_PERIOD;
    let pairs = dual_keyed(deviation_entries(deviations, cutoff));
    let snap = snapshot_of(stops, lines, alerts, live, deviations, colors, now);
    assert forall|i: int| 0 <= i < snap.stops.len() implies {
        let obs = #[trigger] snap.stops[i].real_time;
        &&& is_time_ordered(obs)
        &&& missing_last(obs)
        &&& all_in_window(obs, cutoff)
        &&& obs.len() <= MAX_ARRIVALS_PER_STOP
    } by {
        lemma_stop_observations(stops[i], live, pairs, lines, cutoff);
    }
    assert forall|j: int| 0 <= j < snap.lines.len() implies {
        let obs = #[trigger] snap.lines[j].real_time;
        &&& is_time_ordered(obs)
        &&& missing_last(obs)
        &&& all_in_window(obs, cutoff)
    } by {
        lemma_line_observations(lines[j], live, cutoff);
    }
}

/// An update of a schedule-deviation record that names the stop `raw` and has
/// a time not before `now` less the grace period reaches every stop whose
/// identifier is `raw` or the stop identifier extracted from `raw`: the
/// scheduled observation synthesized from it is among the stop's time-ordered
/// observations in the window, and is listed by the stop whenever those are
/// no more than [`MAX_ARRIVALS_PER_STOP`].
pub proof fn lemma_scheduled_arrival_reaches_stop(
    stops: Seq<StopRecord>,
    lines: Seq<LineRecord>,
    alerts: Seq<AlertModel>,
    live: Seq<ObsModel>,
    deviations: Seq<ScheduleDeviation>,
    colors: Seq<(Seq<char>, Seq<char>)>,
    now: int,
    i: int,
    di: int,
    ui: int,
)
    requires
        0 <= i < stops.len(),
        0 <= di < deviations.len(),
        0 <= ui < deviations[di].stop_time_updates@.len(),
        deviations[di].stop_time_updates@[ui].stop_id is Some,
        event_time(deviations[di].stop_time_updates@[ui]) is Some,
        event_time(deviations[di].stop_time_updates@[ui])->0 >= now - GRACE_PERIOD,
        stops[i].stop_id@ == deviations[di].stop_time_updates@[ui].stop_id->0@ || stops[i].stop_id@
            == stop_id_of(deviations[di].stop_time_updates@[ui].stop_id->0@),
    ensures
        ({
            let u = deviations[di].stop_time_updates@[ui];
            let o = synthesized(
                arrival_of(deviations[di], u, event_time(u)->0),
                stops[i],
                lines,
            );
            let pairs = dual_keyed(deviation_entries(deviations, now - GRACE_PERIOD));
            let in_order = sort_by_time(
                stop_candidates(stops[i], live, pairs, lines).filter(
                    window_pred(now - GRACE_PERIOD),
                ),
            );
            &&& in_order.contains(o)
            &&& in_order.len() <= MAX_ARRIVALS_PER_STOP ==> snapshot_of(
                stops,
                lines,
                alerts,
                live,
                deviations,
                colors,
                now,
            ).stops[i].real_time.contains(o)
        }),
{
    let cutoff = now - GRACE_PERIOD;
    let u = deviations[di].stop_time_updates@[ui];
    let a = arrival_of(deviations[di], u, event_time(u)->0);
    let raw = u.stop_id->0@;
    let entries = deviation_entries(deviations, cutoff);
    let pairs = dual_keyed(entries);
    let st = stops[i];
    let o = synthesized(a, st, lines);
    lemma_deviation_entry_present(deviations, di, ui, cutoff);
    let k = choose|k: int| 0 <= k < entries.len() && entries[k] == (raw, a);
    lemma_dual_keyed_lookup(entries, k);
    let found = arrivals_for(pairs, st.stop_id@);
    assert(found.contains(a));
    let m = choose|m: int| 0 <= m < found.len() && found[m] == a;
    let first = live.filter(at_stop(st.stop_id@));
    let synth = found.map_values(synthesizer(st, lines));
    let c = stop_candidates(st, live, pairs, lines);
    assert(c == first + synth);
    assert(c[first.len() + m] == o);
    c.lemma_filter_contains(window_pred(cutoff), first.len() + m);
    let f = c.filter(window_pred(cutoff));
    assert(f.contains(o));
    lemma_sort_by_time(f);
    let t = sort_by_time(f);
    f.to_multiset_ensures();
    t.to_multiset_ensures();
    assert(f.to_multiset().count(o) > 0);
    assert(t.to_multiset().count(o) > 0);
    assert(t.contains(o));
    if t.len() <= MAX_ARRIVALS_PER_STOP {
        let snap = snapshot_of(stops, lines, alerts, live, deviations, colors, now);
        assert(snap.stops[i].real_time == stop_observations(st, live, pairs, lines, cutoff));
        assert(stop_observations(st, live, pairs, lines, cutoff) == t);
    }
}

} // verus!
