//! Records of the transit network and of its real-time feeds, with their
//! mathematical views.
use vstd::prelude::*;
use vstd::string::*;

verus! {

/// Entry point of the network operations; it holds no state.
pub struct NVTModels;

/// A position in units of 1e-7 degree; zero on both axes when unknown.
#[derive(Clone, Copy, Debug, PartialEq, Eq, Structural)]
pub struct Coordinates {
    pub lat_e7: i64,
    pub lon_e7: i64,
}

/// The failures that network operations report.
#[derive(Debug)]
pub enum NVTError {
    /// Transport failure, non-success status or timeout.
    NetworkError(String),
    /// Malformed payload, or an empty result where one is required.
    ParseError(String),
    /// Persisted cache or archive member that cannot be read or written.
    FileError(String),
}

/// The text of an error, as shown to a user.
pub open spec fn error_text(e: NVTError) -> Seq<char> {
    match e {
        NVTError::NetworkError(m) => "Network error: "@ + m@,
        NVTError::ParseError(m) => "Parse error: "@ + m@,
        NVTError::FileError(m) => "File error: "@ + m@,
    }
}

impl NVTError {
    /// The text of the error, as shown to a user.
    pub fn describe(&self) -> (r: String)
        ensures
            r@ == error_text(*self),
    {
        match self {
            NVTError::NetworkError(m) => "Network error: ".to_owned().concat(m.as_str()),
            NVTError::ParseError(m) => "Parse error: ".to_owned().concat(m.as_str()),
            NVTError::FileError(m) => "File error: ".to_owned().concat(m.as_str()),
        }
    }
}

/// A service alert.
#[derive(Clone, Debug)]
pub struct AlertInfo {
    pub id: String,
    pub text: String,
    pub description: String,
    pub url: Option<String>,
    pub route_ids: Vec<String>,
    pub stop_ids: Vec<String>,
    pub active_period_start: Option<i64>,
    pub active_period_end: Option<i64>,
    pub severity: u32,
}

pub struct AlertModel {
    pub id: Seq<char>,
    pub text: Seq<char>,
    pub description: Seq<char>,
    pub url: Option<Seq<char>>,
    pub route_ids: Seq<Seq<char>>,
    pub stop_ids: Seq<Seq<char>>,
    pub active_period_start: Option<i64>,
    pub active_period_end: Option<i64>,
    pub severity: u32,
}

impl View for AlertInfo {
    type V = AlertModel;

    open spec fn view(&self) -> AlertModel {
        AlertModel {
            id: self.id@,
            text: self.text@,
            description: self.description@,
            url: self.url.deep_view(),
            route_ids: self.route_ids.deep_view(),
            stop_ids: self.stop_ids.deep_view(),
            active_period_start: self.active_period_start,
            active_period_end: self.active_period_end,
            severity: self.severity,
        }
    }
}

/// One observation of a vehicle: live from the vehicle-position feed, or
/// scheduled, synthesized from a schedule-deviation record.
#[derive(Clone, Debug)]
pub struct RealTimeInfo {
    pub vehicle_id: String,
    pub trip_id: String,
    pub route_id: Option<String>,
    pub direction_id: Option<u32>,
    pub destination: Option<String>,
    pub position: Coordinates,
    pub stop_id: Option<String>,
    pub timestamp: Option<i64>,
    pub delay: Option<i32>,
}

pub struct ObsModel {
    pub vehicle_id: Seq<char>,
    pub trip_id: Seq<char>,
    pub route_id: Option<Seq<char>>,
    pub direction_id: Option<u32>,
    pub destination: Option<Seq<char>>,
    pub position: Coordinates,
    pub stop_id: Option<Seq<char>>,
    pub timestamp: Option<i64>,
    pub delay: Option<i32>,
}

impl View for RealTimeInfo {
    type V = ObsModel;

    open spec fn view(&self) -> ObsModel {
        ObsModel {
            vehicle_id: self.vehicle_id@,
            trip_id: self.trip_id@,
            route_id: self.route_id.deep_view(),
            direction_id: self.direction_id,
            destination: self.destination.deep_view(),
            position: self.position,
            stop_id: self.stop_id.deep_view(),
            timestamp: self.timestamp,
            delay: self.delay,
        }
    }
}

/// A stop of the static topology.
#[derive(Clone, Debug)]
pub struct StopRecord {
    pub stop_id: String,
    pub stop_name: String,
    pub position: Coordinates,
    pub lines: Vec<String>,
}

pub struct StopRecordModel {
    pub stop_id: Seq<char>,
    pub stop_name: Seq<char>,
    pub position: Coordinates,
    pub lines: Seq<Seq<char>>,
}

impl View for StopRecord {
    type V = StopRecordModel;

    open spec fn view(&self) -> StopRecordModel {
        StopRecordModel {
            stop_id: self.stop_id@,
            stop_name: self.stop_name@,
            position: self.position,
            lines: self.lines.deep_view(),
        }
    }
}

pub struct LineRecordModel {
    pub line_ref: Seq<char>,
    pub line_name: Seq<char>,
    pub line_code: Seq<char>,
    pub destinations: Seq<(Seq<char>, Seq<char>)>,
}

impl View for LineRecord {
    type V = LineRecordModel;

    open spec fn view(&self) -> LineRecordModel {
        LineRecordModel {
            line_ref: self.line_ref@,
            line_name: self.line_name@,
            line_code: self.line_code@,
            destinations: self.destinations.deep_view(),
        }
    }
}

/// A line of the static topology: reference, name, short code and the
/// (direction, destination) pairs it serves.
#[derive(Clone, Debug)]
pub struct LineRecord {
    pub line_ref: String,
    pub line_name: String,
    pub line_code: String,
    pub destinations: Vec<(String, String)>,
}

/// Arrival or departure estimate of a schedule-deviation update.
#[derive(Clone, Copy, Debug, PartialEq, Eq, Structural)]
pub struct StopTimeEvent {
    pub delay: Option<i32>,
    pub time: Option<i64>,
}

/// The per-stop part of a schedule-deviation record.
#[derive(Clone, Debug)]
pub struct StopTimeUpdate {
    pub stop_id: Option<String>,
    pub arrival: Option<StopTimeEvent>,
    pub departure: Option<StopTimeEvent>,
}

/// A schedule-deviation record of one trip.
#[derive(Clone, Debug)]
pub struct ScheduleDeviation {
    pub trip_id: Option<String>,
    pub route_id: Option<String>,
    pub direction_id: Option<u32>,
    pub stop_time_updates: Vec<StopTimeUpdate>,
}

/// A stop of the snapshot, with its observations and alerts.
#[derive(Clone, Debug)]
pub struct Stop {
    pub stop_id: String,
    pub stop_name: String,
    pub position: Coordinates,
    pub lines: Vec<String>,
    pub alerts: Vec<AlertInfo>,
    pub real_time: Vec<RealTimeInfo>,
}

/// A line of the snapshot, with its color, observations and alerts.
#[derive(Clone, Debug)]
pub struct Line {
    pub line_ref: String,
    pub line_name: String,
    pub line_code: String,
    pub destinations: Vec<(String, String)>,
    pub alerts: Vec<AlertInfo>,
    pub real_time: Vec<RealTimeInfo>,
    pub color: String,
}

/// The resolved snapshot of the network.
#[derive(Clone, Debug)]
pub struct NetworkData {
    pub stops: Vec<Stop>,
    pub lines: Vec<Line>,
}

pub open spec fn alert_views(s: Seq<AlertInfo>) -> Seq<AlertModel> {
    s.map_values(|a: AlertInfo| a@)
}

pub open spec fn obs_views(s: Seq<RealTimeInfo>) -> Seq<ObsModel> {
    s.map_values(|o: RealTimeInfo| o@)
}

pub fn copy_string_option(o: &Option<String>) -> (r: Option<String>)
    ensures
        r.deep_view() == o.deep_view(),
{
    match o {
        Some(s) => Some(s.clone()),
        None => None,
    }
}

pub fn copy_strings(v: &Vec<String>) -> (r: Vec<String>)
    ensures
        r.deep_view() == v.deep_view(),
{
    let mut r: Vec<String> = Vec::new();
    let mut i: usize = 0;
    while i < v.len()
        invariant
            i <= v.len(),
            r.len() == i,
            forall|j: int| 0 <= j < i ==> #[trigger] r[j]@ == v[j]@,
        decreases v.len() - i,
    {
        r.push(v[i].clone());
        i += 1;
    }
    assert(r.deep_view() =~= v.deep_view());
    r
}

pub fn copy_pairs(v: &Vec<(String, String)>) -> (r: Vec<(String, String)>)
    ensures
        r.deep_view() == v.deep_view(),
{
    let mut r: Vec<(String, String)> = Vec::new();
    let mut i: usize = 0;
    while i < v.len()
        invariant
            i <= v.len(),
            r.len() == i,
            forall|j: int| 0 <= j < i ==> #[trigger] r[j].0@ == v[j].0@ && r[j].1@ == v[j].1@,
        decreases v.len() - i,
    {
        r.push((v[i].0.clone(), v[i].1.clone()));
        i += 1;
    }
    assert(r.deep_view() =~= v.deep_view());
    r
}

impl AlertInfo {
    /// A copy with the same view.
    pub fn duplicate(&self) -> (r: AlertInfo)
        ensures
            r@ == self@,
    {
        AlertInfo {
            id: self.id.clone(),
            text: self.text.clone(),
            description: self.description.clone(),
            url: copy_string_option(&self.url),
            route_ids: copy_strings(&self.route_ids),
            stop_ids: copy_strings(&self.stop_ids),
            active_period_start: self.active_period_start,
            active_period_end: self.active_period_end,
            severity: self.severity,
        }
    }
}

impl RealTimeInfo {
    /// A copy with the same view.
    pub fn duplicate(&self) -> (r: RealTimeInfo)
        ensures
            r@ == self@,
    {
        RealTimeInfo {
            vehicle_id: self.vehicle_id.clone(),
            trip_id: self.trip_id.clone(),
            route_id: copy_string_option(&self.route_id),
            direction_id: self.direction_id,
            destination: copy_string_option(&self.destination),
            position: self.position,
            stop_id: copy_string_option(&self.stop_id),
            timestamp: self.timestamp,
            delay: self.delay,
        }
    }
}

} // verus!
