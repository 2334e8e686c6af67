//! Records of the fetch layer: feed entities and discovery entries as read
//! from upstream, and the rules that turn them into alerts, observations,
//! schedule deviations, stops and lines.
use vstd::prelude::*;

use crate::model::{
    copy_string_option, AlertInfo, AlertModel, Coordinates, LineRecord, LineRecordModel, NVTError,
    NVTModels, RealTimeInfo, ObsModel, ScheduleDeviation, StopRecord, StopRecordModel, alert_views,
    obs_views,
};
use crate::ids::stop_id_of;

verus! {

/// An entity of a feed that an alert names: a route, a stop, or both.
#[derive(Clone, Debug)]
pub struct InformedEntity {
    pub route_id: Option<String>,
    pub stop_id: Option<String>,
}

/// An active period of an alert, in unix seconds.
#[derive(Clone, Copy, Debug, PartialEq, Eq, Structural)]
pub struct ActivePeriod {
    pub start: Option<u64>,
    pub end: Option<u64>,
}

/// An alert as a feed carries it; each text comes in one version per language.
#[derive(Clone, Debug)]
pub struct FeedAlert {
    pub header_text: Vec<String>,
    pub description_text: Vec<String>,
    pub url: Vec<String>,
    pub informed_entity: Vec<InformedEntity>,
    pub active_period: Vec<ActivePeriod>,
    pub severity_level: Option<i32>,
}

/// A vehicle position as a feed carries it.
#[derive(Clone, Debug)]
pub struct FeedVehicle {
    pub vehicle_id: Option<String>,
    pub vehicle_label: Option<String>,
    pub trip_id: Option<String>,
    pub route_id: Option<String>,
    pub direction_id: Option<u32>,
    pub position: Option<Coordinates>,
    pub stop_id: Option<String>,
    pub timestamp: Option<u64>,
}

/// An entity of a feed message.
#[derive(Clone, Debug)]
pub struct FeedEntity {
    pub id: String,
    pub alert: Option<FeedAlert>,
    pub vehicle: Option<FeedVehicle>,
    pub trip_update: Option<ScheduleDeviation>,
}

/// A stop point of the discovery endpoint; each field is absent where the
/// entry lacks it.
#[derive(Clone, Debug)]
pub struct DiscoveredStop {
    pub stop_point_ref: Option<String>,
    pub stop_name: Option<String>,
    pub latitude: Option<i64>,
    pub longitude: Option<i64>,
    pub lines: Vec<Option<String>>,
}

/// A line of the discovery endpoint; each field is absent where the entry lacks it.
#[derive(Clone, Debug)]
pub struct DiscoveredLine {
    pub line_ref: Option<String>,
    pub line_name: Option<String>,
    pub line_code: Option<String>,
    pub destinations: Vec<(Option<String>, Option<String>)>,
}

pub open spec fn first_or(ts: Seq<Seq<char>>, fallback: Seq<char>) -> Seq<char> {
    if ts.len() > 0 {
        ts[0]
    } else {
        fallback
    }
}

/// `s` read as a two's-complement signed number.
pub open spec fn signed_of(s: u64) -> i64 {
    if s <= i64::MAX {
        s as i64
    } else {
        (s - 0x1_0000_0000_0000_0000int) as i64
    }
}

/// `s` read as an unsigned number modulo 2^32.
pub open spec fn unsigned_of(s: i32) -> u32 {
    if s >= 0 {
        s as u32
    } else {
        (s + 0x1_0000_0000int) as u32
    }
}

pub open spec fn informed_routes(s: Seq<InformedEntity>) -> Seq<Seq<char>>
    decreases s.len(),
{
    if s.len() == 0 {
        seq![]
    } else {
        match s.last().route_id {
            Some(r) => informed_routes(s.drop_last()).push(r@),
            None => informed_routes(s.drop_last()),
        }
    }
}

pub open spec fn informed_stops(s: Seq<InformedEntity>) -> Seq<Seq<char>>
    decreases s.len(),
{
    if s.len() == 0 {
        seq![]
    } else {
        match s.last().stop_id {
            Some(r) => informed_stops(s.drop_last()).push(r@),
            None => informed_stops(s.drop_last()),
        }
    }
}

/// The alert record of a feed alert carried by the entity `id`: the first
/// language version of each text (with fallbacks for header and description), the
/// routes and stops it names, its first active period, its severity.
pub open spec fn alert_of(id: Seq<char>, a: FeedAlert) -> AlertModel {
    AlertModel {
        id: id,
        text: first_or(a.header_text.deep_view(), "No title"@),
        description: first_or(a.description_text.deep_view(), "No description available"@),
        url: if a.url@.len() > 0 {
            Some(a.url@[0]@)
        } else {
            None
        },
        route_ids: informed_routes(a.informed_entity@),
        stop_ids: informed_stops(a.informed_entity@),
        active_period_start: if a.active_period@.len() > 0 {
            match a.active_period@[0].start {
                Some(t) => Some(signed_of(t)),
                None => None,
            }
        } else {
            None
        },
        active_period_end: if a.active_period@.len() > 0 {
            match a.active_period@[0].end {
                Some(t) => Some(signed_of(t)),
                None => None,
            }
        } else {
            None
        },
        severity: match a.severity_level {
            Some(s) => unsigned_of(s),
            None => 0,
        },
    }
}

/// The observation of a feed vehicle position; unknown identifiers read
/// "Unknown" and an unknown position is zero.
pub open spec fn vehicle_of(v: FeedVehicle) -> ObsModel {
    ObsModel {
        vehicle_id: match v.vehicle_id {
            Some(x) => x@,
            None => "Unknown"@,
        },
        trip_id: match v.trip_id {
            Some(x) => x@,
            None => "Unknown"@,
        },
        route_id: v.route_id.deep_view(),
        direction_id: v.direction_id,
        destination: v.vehicle_label.deep_view(),
        position: match v.position {
            Some(p) => p,
            None => Coordinates { lat_e7: 0, lon_e7: 0 },
        },
        stop_id: v.stop_id.deep_view(),
        timestamp: match v.timestamp {
            Some(t) => Some(signed_of(t)),
            None => None,
        },
        delay: None,
    }
}

/// Alerts of the entities that carry one, in order.
pub open spec fn alerts_of(es: Seq<FeedEntity>) -> Seq<AlertModel>
    decreases es.len(),
{
    if es.len() == 0 {
        seq![]
    } else {
        match es.last().alert {
            Some(a) => alerts_of(es.drop_last()).push(alert_of(es.last().id@, a)),
            None => alerts_of(es.drop_last()),
        }
    }
}

/// Observations of the entities that carry a vehicle position, in order.
pub open spec fn vehicles_of(es: Seq<FeedEntity>) -> Seq<ObsModel>
    decreases es.len(),
{
    if es.len() == 0 {
        seq![]
    } else {
        match es.last().vehicle {
            Some(v) => vehicles_of(es.drop_last()).push(vehicle_of(v)),
            None => vehicles_of(es.drop_last()),
        }
    }
}

/// Schedule deviations of the entities that carry one, in order.
pub open spec fn deviations_of(es: Seq<FeedEntity>) -> Seq<ScheduleDeviation>
    decreases es.len(),
{
    if es.len() == 0 {
        seq![]
    } else {
        match es.last().trip_update {
            Some(d) => deviations_of(es.drop_last()).push(d),
            None => deviations_of(es.drop_last()),
        }
    }
}

fn to_signed(s: u64) -> (r: i64)
    ensures
        r == signed_of(s),
{
    if s <= i64::MAX as u64 {
        s as i64
    } else {
        (s - 0x8000_0000_0000_0000u64) as i64 + i64::MIN
    }
}

fn to_unsigned(s: i32) -> (r: u32)
    ensures
        r == unsigned_of(s),
{
    if s >= 0 {
        s as u32
    } else {
        (s as i64 + 0x1_0000_0000i64) as u32
    }
}

fn first_or_else(ts: &Vec<String>, fallback: &str) -> (r: String)
    ensures
        r@ == first_or(ts.deep_view(), fallback@),
{
    if ts.len() > 0 {
        ts[0].clone()
    } else {
        fallback.to_owned()
    }
}

fn routes_and_stops(s: &Vec<InformedEntity>) -> (r: (Vec<String>, Vec<String>))
    ensures
        r.0.deep_view() == informed_routes(s@),
        r.1.deep_view() == informed_stops(s@),
{
    let mut routes: Vec<String> = Vec::new();
    let mut stops: Vec<String> = Vec::new();
    let mut i: usize = 0;
    while i < s.len()
        invariant
            i <= s.len(),
            routes.deep_view() == informed_routes(s@.take(i as int)),
            stops.deep_view() == informed_stops(s@.take(i as int)),
        decreases s.len() - i,
    {
        assert(s@.take(i as int + 1).drop_last() =~= s@.take(i as int));
        if let Some(r) = &s[i].route_id {
            let ghost before = routes.deep_view();
            routes.push(r.clone());
            assert(routes.deep_view() =~= before.push(r@));
        }
        if let Some(t) = &s[i].stop_id {
            let ghost before = stops.deep_view();
            stops.push(t.clone());
            assert(stops.deep_view() =~= before.push(t@));
        }
        i += 1;
    }
    assert(s@.take(s.len() as int) =~= s@);
    (routes, stops)
}

fn alert_from_feed(id: &String, a: &FeedAlert) -> (r: AlertInfo)
    ensures
        r@ == alert_of(id@, *a),
{
    let (route_ids, stop_ids) = routes_and_stops(&a.informed_entity);
    let (start, end) = if a.active_period.len() > 0 {
        (
            match a.active_period[0].start {
                Some(t) => Some(to_signed(t)),
                None => None,
            },
            match a.active_period[0].end {
                Some(t) => Some(to_signed(t)),
                None => None,
            },
        )
    } else {
        (None, None)
    };
    AlertInfo {
        id: id.clone(),
        text: first_or_else(&a.header_text, "No title"),
        description: first_or_else(&a.description_text, "No description available"),
        url: if a.url.len() > 0 {
            Some(a.url[0].clone())
        } else {
            None
        },
        route_ids,
        stop_ids,
        active_period_start: start,
        active_period_end: end,
        severity: match a.severity_level {
            Some(s) => to_unsigned(s),
            None => 0,
        },
    }
}

fn vehicle_from_feed(v: &FeedVehicle) -> (r: RealTimeInfo)
    ensures
        r@ == vehicle_of(*v),
{
    RealTimeInfo {
        vehicle_id: match &v.vehicle_id {
            Some(x) => x.clone(),
            None => "Unknown".to_owned(),
        },
        trip_id: match &v.trip_id {
            Some(x) => x.clone(),
            None => "Unknown".to_owned(),
        },
        route_id: copy_string_option(&v.route_id),
        direction_id: v.direction_id,
        destination: copy_string_option(&v.vehicle_label),
        position: match v.position {
            Some(p) => p,
            None => Coordinates { lat_e7: 0, lon_e7: 0 },
        },
        stop_id: copy_string_option(&v.stop_id),
        timestamp: match v.timestamp {
            Some(t) => Some(to_signed(t)),
            None => None,
        },
        delay: None,
    }
}

impl NVTModels {
    /// The alerts of a decoded alerts feed.
    pub fn alerts_from_feed(entities: &Vec<FeedEntity>) -> (r: Vec<AlertInfo>)
        ensures
            alert_views(r@) == alerts_of(entities@),
    {
        let mut r: Vec<AlertInfo> = Vec::new();
        let mut i: usize = 0;
        while i < entities.len()
            invariant
                i <= entities.len(),
                alert_views(r@) == alerts_of(entities@.take(i as int)),
            decreases entities.len() - i,
        {
            assert(entities@.take(i as int + 1).drop_last() =~= entities@.take(i as int));
            if let Some(a) = &entities[i].alert {
                let ghost before = alert_views(r@);
                let x = alert_from_feed(&entities[i].id, a);
                r.push(x);
                assert(alert_views(r@) =~= before.push(x@));
            }
            i += 1;
        }
        assert(entities@.take(entities.len() as int) =~= entities@);
        r
    }

    /// The live observations of a decoded vehicle-positions feed.
    pub fn vehicles_from_feed(entities: &Vec<FeedEntity>) -> (r: Vec<RealTimeInfo>)
        ensures
            obs_views(r@) == vehicles_of(entities@),
    {
        let mut r: Vec<RealTimeInfo> = Vec::new();
        let mut i: usize = 0;
        while i < entities.len()
            invariant
                i <= entities.len(),
                obs_views(r@) == vehicles_of(entities@.take(i as int)),
            decreases entities.len() - i,
        {
            assert(entities@.take(i as int + 1).drop_last() =~= entities@.take(i as int));
            if let Some(v) = &entities[i].vehicle {
                let ghost before = obs_views(r@);
                let x = vehicle_from_feed(v);
                r.push(x);
                assert(obs_views(r@) =~= before.push(x@));
            }
            i += 1;
        }
        assert(entities@.take(entities.len() as int) =~= entities@);
        r
    }

    /// The schedule-deviation records of a decoded trip-updates feed.
    pub fn deviations_from_feed(entities: Vec<FeedEntity>) -> (r: Vec<ScheduleDeviation>)
        ensures
            r@ == deviations_of(entities@),
    {
        let ghost es = entities@;
        let mut rest = entities;
        let mut tail: Vec<ScheduleDeviation> = Vec::new();
        // Taken from the back, so that each record moves out without a copy.
        while rest.len() > 0
            invariant
                rest@ == es.take(rest@.len() as int),
                rest@.len() <= es.len(),
                deviations_of(es) == deviations_of(rest@) + tail@.reverse(),
            decreases rest@.len(),
        {
            let ghost before = rest@;
            let e = rest.pop().unwrap();
            assert(before.drop_last() =~= rest@);
            assert(rest@ =~= es.take(rest@.len() as int));
            let ghost t0 = tail@;
            if let Some(d) = e.trip_update {
                tail.push(d);
                assert(tail@.reverse() =~= seq![d] + t0.reverse());
            }
        }
        assert(deviations_of(rest@) =~= seq![]);
        let mut r: Vec<ScheduleDeviation> = Vec::new();
        let ghost total = tail@.reverse();
        while tail.len() > 0
            invariant
                r@ + tail@.reverse() == total,
            decreases tail@.len(),
        {
            let ghost t0 = tail@;
            let d = tail.pop().unwrap();
            let ghost r0 = r@;
            r.push(d);
            assert(t0.reverse() =~= seq![d] + tail@.reverse());
            assert(r@ + tail@.reverse() =~= r0 + t0.reverse());
        }
        assert(tail@.reverse() =~= seq![]);
        assert(r@ =~= total);
        r
    }
}


pub open spec fn present_strings(s: Seq<Option<String>>) -> Seq<Seq<char>>
    decreases s.len(),
{
    if s.len() == 0 {
        seq![]
    } else {
        match s.last() {
            Some(x) => present_strings(s.drop_last()).push(x@),
            None => present_strings(s.drop_last()),
        }
    }
}

pub open spec fn present_pairs(s: Seq<(Option<String>, Option<String>)>) -> Seq<
    (Seq<char>, Seq<char>),
>
    decreases s.len(),
{
    if s.len() == 0 {
        seq![]
    } else {
        match s.last() {
            (Some(d), Some(p)) => present_pairs(s.drop_last()).push((d@, p@)),
            _ => present_pairs(s.drop_last()),
        }
    }
}

/// The stop of a discovery entry, when it has an identifier, a name and both
/// coordinates; its identifier is the extracted one.
pub open spec fn stop_of(d: DiscoveredStop) -> Option<StopRecordModel> {
    match (d.stop_point_ref, d.stop_name, d.latitude, d.longitude) {
        (Some(id), Some(name), Some(lat), Some(lon)) => Some(
            StopRecordModel {
                stop_id: stop_id_of(id@),
                stop_name: name@,
                position: Coordinates { lat_e7: lat, lon_e7: lon },
                lines: present_strings(d.lines@),
            },
        ),
        _ => None,
    }
}

/// The line of a discovery entry, when it has a reference, a name and a code;
/// it keeps the destinations that have both a direction and a name.
pub open spec fn line_of(d: DiscoveredLine) -> Option<LineRecordModel> {
    match (d.line_ref, d.line_name, d.line_code) {
        (Some(r), Some(n), Some(c)) => Some(
            LineRecordModel {
                line_ref: r@,
                line_name: n@,
                line_code: c@,
                destinations: present_pairs(d.destinations@),
            },
        ),
        _ => None,
    }
}

pub open spec fn stops_of(ds: Seq<DiscoveredStop>) -> Seq<StopRecordModel>
    decreases ds.len(),
{
    if ds.len() == 0 {
        seq![]
    } else {
        match stop_of(ds.last()) {
            Some(s) => stops_of(ds.drop_last()).push(s),
            None => stops_of(ds.drop_last()),
        }
    }
}

pub open spec fn lines_of(ds: Seq<DiscoveredLine>) -> Seq<LineRecordModel>
    decreases ds.len(),
{
    if ds.len() == 0 {
        seq![]
    } else {
        match line_of(ds.last()) {
            Some(l) => lines_of(ds.drop_last()).push(l),
            None => lines_of(ds.drop_last()),
        }
    }
}

pub open spec fn stop_record_views(s: Seq<StopRecord>) -> Seq<StopRecordModel> {
    s.map_values(|x: StopRecord| x@)
}

pub open spec fn line_record_views(s: Seq<LineRecord>) -> Seq<LineRecordModel> {
    s.map_values(|x: LineRecord| x@)
}

fn present_string_list(s: &Vec<Option<String>>) -> (r: Vec<String>)
    ensures
        r.deep_view() == present_strings(s@),
{
    let mut r: Vec<String> = Vec::new();
    let mut i: usize = 0;
    while i < s.len()
        invariant
            i <= s.len(),
            r.deep_view() == present_strings(s@.take(i as int)),
        decreases s.len() - i,
    {
        assert(s@.take(i as int + 1).drop_last() =~= s@.take(i as int));
        if let Some(x) = &s[i] {
            let ghost before = r.deep_view();
            r.push(x.clone());
            assert(r.deep_view() =~= before.push(x@));
        }
        i += 1;
    }
    assert(s@.take(s.len() as int) =~= s@);
    r
}

fn present_pair_list(s: &Vec<(Option<String>, Option<String>)>) -> (r: Vec<(String, String)>)
    ensures
        r.deep_view() == present_pairs(s@),
{
    let mut r: Vec<(String, String)> = Vec::new();
    let mut i: usize = 0;
    while i < s.len()
        invariant
            i <= s.len(),
            r.deep_view() == present_pairs(s@.take(i as int)),
        decreases s.len() - i,
    {
        assert(s@.take(i as int + 1).drop_last() =~= s@.take(i as int));
        if let (Some(d), Some(p)) = &s[i] {
            let ghost before = r.deep_view();
            r.push((d.clone(), p.clone()));
            assert(r.deep_view() =~= before.push((d@, p@)));
        }
        i += 1;
    }
    assert(s@.take(s.len() as int) =~= s@);
    r
}

fn stop_from_discovery(d: &DiscoveredStop) -> (r: Option<StopRecord>)
    ensures
        match r {
            Some(s) => stop_of(*d) == Some(s@),
            None => stop_of(*d) is None,
        },
{
    match (&d.stop_point_ref, &d.stop_name, d.latitude, d.longitude) {
        (Some(id), Some(name), Some(lat), Some(lon)) => {
            let stop_id = match NVTModels::extract_stop_id(id.as_str()) {
                Some(x) => x,
                None => {
                    return None;
                },
            };
            Some(
                StopRecord {
                    stop_id,
                    stop_name: name.clone(),
                    position: Coordinates { lat_e7: lat, lon_e7: lon },
                    lines: present_string_list(&d.lines),
                },
            )
        },
        _ => None,
    }
}

fn line_from_discovery(d: &DiscoveredLine) -> (r: Option<LineRecord>)
    ensures
        match r {
            Some(l) => line_of(*d) == Some(l@),
            None => line_of(*d) is None,
        },
{
    match (&d.line_ref, &d.line_name, &d.line_code) {
        (Some(r), Some(n), Some(c)) => Some(
            LineRecord {
                line_ref: r.clone(),
                line_name: n.clone(),
                line_code: c.clone(),
                destinations: present_pair_list(&d.destinations),
            },
        ),
        _ => None,
    }
}

impl NVTModels {
    /// The stops of the stop-discovery response, given as its list of stop
    /// points (absent when the response has none). Entries that lack a field
    /// are skipped; a missing list, or one without a usable entry, is a parse
    /// error.
    pub fn stops_from_discovery(points: Option<Vec<DiscoveredStop>>) -> (r: Result<
        Vec<StopRecord>,
        NVTError,
    >)
        ensures
            points is None ==> r matches Err(NVTError::ParseError(_)),
            points is Some && stops_of(points->Some_0@).len() == 0 ==> r matches Err(
                NVTError::ParseError(_),
            ),
            points is Some && stops_of(points->Some_0@).len() > 0 ==> (r matches Ok(v)
                && stop_record_views(v@) == stops_of(points->Some_0@)),
    {
        let points = match points {
            Some(p) => p,
            None => {
                return Err(
                    NVTError::ParseError(
                        "Missing or invalid stop points data in API response".to_owned(),
                    ),
                );
            },
        };
        let mut r: Vec<StopRecord> = Vec::new();
        let mut i: usize = 0;
        while i < points.len()
            invariant
                i <= points.len(),
                stop_record_views(r@) == stops_of(points@.take(i as int)),
            decreases points.len() - i,
        {
            assert(points@.take(i as int + 1).drop_last() =~= points@.take(i as int));
            if let Some(s) = stop_from_discovery(&points[i]) {
                let ghost before = stop_record_views(r@);
                let ghost sv = s@;
                r.push(s);
                assert(stop_record_views(r@) =~= before.push(sv));
            }
            i += 1;
        }
        assert(points@.take(points.len() as int) =~= points@);
        if r.len() == 0 {
            return Err(NVTError::ParseError("No valid stops found in API response".to_owned()));
        }
        Ok(r)
    }

    /// The lines of the line-discovery response, given as its list of lines
    /// (absent when the response has none). Entries that lack a field are
    /// skipped; a missing list, or one without a usable entry, is a parse error.
    pub fn lines_from_discovery(refs: Option<Vec<DiscoveredLine>>) -> (r: Result<
        Vec<LineRecord>,
        NVTError,
    >)
        ensures
            refs is None ==> r matches Err(NVTError::ParseError(_)),
            refs is Some && lines_of(refs->Some_0@).len() == 0 ==> r matches Err(
                NVTError::ParseError(_),
            ),
            refs is Some && lines_of(refs->Some_0@).len() > 0 ==> (r matches Ok(v)
                && line_record_views(v@) == lines_of(refs->Some_0@)),
    {
        let refs = match refs {
            Some(p) => p,
            None => {
                return Err(
                    NVTError::ParseError("Missing or invalid lines data in API response".to_owned()),
                );
            },
        };
        let mut r: Vec<LineRecord> = Vec::new();
        let mut i: usize = 0;
        while i < refs.len()
            invariant
                i <= refs.len(),
                line_record_views(r@) == lines_of(refs@.take(i as int)),
            decreases refs.len() - i,
        {
            assert(refs@.take(i as int + 1).drop_last() =~= refs@.take(i as int));
            if let Some(l) = line_from_discovery(&refs[i]) {
                let ghost before = line_record_views(r@);
                let ghost lv = l@;
                r.push(l);
                assert(line_record_views(r@) =~= before.push(lv));
            }
            i += 1;
        }
        assert(refs@.take(refs.len() as int) =~= refs@);
        if r.len() == 0 {
            return Err(NVTError::ParseError("No valid lines found in API response".to_owned()));
        }
        Ok(r)
    }
}

} // verus!
