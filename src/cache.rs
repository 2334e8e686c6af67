//! The cache envelope, the persisted color cache, and the refresh policy that
//! decides what to refresh and how failures of single streams degrade.
use vstd::prelude::*;
use vstd::string::*;

use crate::model::{
    error_text, AlertInfo, LineRecord, NVTError, NVTModels, NetworkData, RealTimeInfo,
    ScheduleDeviation, StopRecord,
};
use crate::snapshot::GRACE_PERIOD;

verus! {

/// Age, in seconds, past which static data is refreshed.
pub const STATIC_DATA_MAX_AGE: u64 = 3600;

/// Age, in seconds, past which dynamic data is refreshed.
pub const DYNAMIC_DATA_MAX_AGE: u64 = 30;

/// Seconds in a day.
pub const SECONDS_PER_DAY: u64 = 86400;

/// Whole days after which the persisted cache is expired.
pub const PERSISTED_CACHE_DAYS: u64 = 15;

/// `now - then`, or zero when `then` is later.
pub open spec fn age(now: u64, then: u64) -> int {
    if now >= then {
        now - then
    } else {
        0
    }
}

/// A stop of the bulk static archive: identifier, name and position.
#[derive(Clone, Debug)]
pub struct CachedStop {
    pub stop_id: String,
    pub stop_name: String,
    pub position: crate::model::Coordinates,
}

/// The persisted route colors and secondary stop list, with the instant they
/// were computed.
#[derive(Clone, Debug)]
pub struct GTFSCache {
    pub routes: Vec<(String, String)>,
    pub stops: Vec<CachedStop>,
    pub cached_at: u64,
}

impl GTFSCache {
    pub open spec fn expired_at(&self, now: u64) -> bool {
        age(now, self.cached_at) / (SECONDS_PER_DAY as int) >= PERSISTED_CACHE_DAYS
    }

    /// At instant `now`, at least fifteen whole days have passed since `cached_at`.
    pub fn is_expired(&self, now: u64) -> (r: bool)
        ensures
            r == self.expired_at(now),
    {
        let age_days = now.saturating_sub(self.cached_at) / SECONDS_PER_DAY;
        age_days >= PERSISTED_CACHE_DAYS
    }

    /// The cache that was read, if any, unless it is expired at `now`.
    pub fn load(read: Option<GTFSCache>, now: u64) -> (r: Option<GTFSCache>)
        ensures
            r == (match read {
                Some(c) => if c.expired_at(now) {
                    None
                } else {
                    Some(c)
                },
                None => None,
            }),
    {
        match read {
            Some(c) => if c.is_expired(now) {
                None
            } else {
                Some(c)
            },
            None => None,
        }
    }
}

/// The cache envelope: the latest static metadata and dynamic records, with
/// the instants each part was last refreshed.
#[derive(Clone, Debug)]
pub struct CachedNetworkData {
    pub stops_metadata: Vec<StopRecord>,
    pub lines_metadata: Vec<LineRecord>,
    pub line_colors: Vec<(String, String)>,
    pub last_static_update: u64,
    pub alerts: Vec<AlertInfo>,
    pub real_time: Vec<RealTimeInfo>,
    pub trip_updates: Vec<ScheduleDeviation>,
    pub last_dynamic_update: u64,
}

/// Counts and ages of the envelope's contents.
#[derive(Clone, Copy, Debug, PartialEq, Eq, Structural)]
pub struct CacheStats {
    pub stops: usize,
    pub lines: usize,
    pub colors: usize,
    pub vehicles: usize,
    pub alerts: usize,
    pub static_age: u64,
    pub dynamic_age: u64,
    pub last_update: u64,
}

impl CachedNetworkData {
    /// An envelope with nothing in it, never refreshed.
    pub fn new() -> (r: CachedNetworkData)
        ensures
            r.stops_metadata@.len() == 0,
            r.lines_metadata@.len() == 0,
            r.line_colors@.len() == 0,
            r.alerts@.len() == 0,
            r.real_time@.len() == 0,
            r.trip_updates@.len() == 0,
            r.last_static_update == 0,
            r.last_dynamic_update == 0,
    {
        CachedNetworkData {
            stops_metadata: Vec::new(),
            lines_metadata: Vec::new(),
            line_colors: Vec::new(),
            last_static_update: 0,
            alerts: Vec::new(),
            real_time: Vec::new(),
            trip_updates: Vec::new(),
            last_dynamic_update: 0,
        }
    }

    /// At instant `now`, static data is older than `max_age_seconds`.
    pub fn needs_static_refresh(&self, now: u64, max_age_seconds: u64) -> (r: bool)
        ensures
            r == (age(now, self.last_static_update) > max_age_seconds),
            r == (now - self.last_static_update > max_age_seconds),
    {
        now.saturating_sub(self.last_static_update) > max_age_seconds
    }

    /// At instant `now`, dynamic data is older than `max_age_seconds`.
    pub fn needs_dynamic_refresh(&self, now: u64, max_age_seconds: u64) -> (r: bool)
        ensures
            r == (age(now, self.last_dynamic_update) > max_age_seconds),
            r == (now - self.last_dynamic_update > max_age_seconds),
    {
        now.saturating_sub(self.last_dynamic_update) > max_age_seconds
    }

    /// The snapshot of the envelope's contents at instant `now`.
    pub fn to_network_data(&self, now: i64) -> (r: NetworkData)
        requires
            now >= i64::MIN + GRACE_PERIOD,
        ensures
            r@ == crate::snapshot::snapshot_of(
                self.stops_metadata@,
                self.lines_metadata@,
                crate::model::alert_views(self.alerts@),
                crate::model::obs_views(self.real_time@),
                self.trip_updates@,
                self.line_colors.deep_view(),
                now as int,
            ),
    {
        NVTModels::build_network_data(
            &self.stops_metadata,
            &self.lines_metadata,
            &self.alerts,
            &self.real_time,
            &self.trip_updates,
            &self.line_colors,
            now,
        )
    }
}

/// `e` prefixed with what failed, as a network error.
fn wrap_failure(prefix: &str, e: &NVTError) -> (r: NVTError)
    ensures
        r matches NVTError::NetworkError(m) && m@ == prefix@ + error_text(*e),
{
    NVTError::NetworkError(prefix.to_owned().concat(e.describe().as_str()))
}

impl NVTModels {
    /// The envelope built from the outcomes of the initial fetches at instant
    /// `now`. Stops and lines are required: the failure of either aborts, as a
    /// network error naming it. The failure of any other stream leaves it empty.
    pub fn initialize_cache(
        stops: Result<Vec<StopRecord>, NVTError>,
        lines: Result<Vec<LineRecord>, NVTError>,
        colors: Result<Vec<(String, String)>, NVTError>,
        alerts: Result<Vec<AlertInfo>, NVTError>,
        vehicles: Result<Vec<RealTimeInfo>, NVTError>,
        deviations: Result<Vec<ScheduleDeviation>, NVTError>,
        now: u64,
    ) -> (r: Result<CachedNetworkData, NVTError>)
        ensures
            stops is Err ==> (r matches Err(NVTError::NetworkError(m)) && m@
                == "Failed to fetch stops: "@ + error_text(stops->Err_0)),
            stops is Ok && lines is Err ==> (r matches Err(NVTError::NetworkError(m)) && m@
                == "Failed to fetch lines: "@ + error_text(lines->Err_0)),
            stops is Ok && lines is Ok ==> (r matches Ok(c) && {
                &&& c.stops_metadata == stops->Ok_0
                &&& c.lines_metadata == lines->Ok_0
                &&& (colors is Ok ==> c.line_colors == colors->Ok_0)
                &&& (colors is Err ==> c.line_colors@.len() == 0)
                &&& (alerts is Ok ==> c.alerts == alerts->Ok_0)
                &&& (alerts is Err ==> c.alerts@.len() == 0)
                &&& (vehicles is Ok ==> c.real_time == vehicles->Ok_0)
                &&& (vehicles is Err ==> c.real_time@.len() == 0)
                &&& (deviations is Ok ==> c.trip_updates == deviations->Ok_0)
                &&& (deviations is Err ==> c.trip_updates@.len() == 0)
                &&& c.last_static_update == now
                &&& c.last_dynamic_update == now
            }),
    {
        let stops = match stops {
            Ok(s) => s,
            Err(e) => {
                return Err(wrap_failure("Failed to fetch stops: ", &e));
            },
        };
        let lines = match lines {
            Ok(l) => l,
            Err(e) => {
                return Err(wrap_failure("Failed to fetch lines: ", &e));
            },
        };
        Ok(CachedNetworkData {
            stops_metadata: stops,
            lines_metadata: lines,
            line_colors: match colors {
                Ok(c) => c,
                Err(_) => Vec::new(),
            },
            last_static_update: now,
            alerts: match alerts {
                Ok(a) => a,
                Err(_) => Vec::new(),
            },
            real_time: match vehicles {
                Ok(v) => v,
                Err(_) => Vec::new(),
            },
            trip_updates: match deviations {
                Ok(d) => d,
                Err(_) => Vec::new(),
            },
            last_dynamic_update: now,
        })
    }

    /// Applies the outcomes of the dynamic fetches made at instant `now`: each
    /// stream that succeeded replaces its records, each that failed keeps its
    /// previous ones, and the dynamic watermark moves to `now` in any case.
    pub fn refresh_dynamic_data(
        cache: &mut CachedNetworkData,
        alerts: Result<Vec<AlertInfo>, NVTError>,
        vehicles: Result<Vec<RealTimeInfo>, NVTError>,
        deviations: Result<Vec<ScheduleDeviation>, NVTError>,
        now: u64,
    ) -> (r: Result<(), NVTError>)
        ensures
            r is Ok,
            final(cache).alerts == (match alerts {
                Ok(a) => a,
                Err(_) => old(cache).alerts,
            }),
            final(cache).real_time == (match vehicles {
                Ok(v) => v,
                Err(_) => old(cache).real_time,
            }),
            final(cache).trip_updates == (match deviations {
                Ok(d) => d,
                Err(_) => old(cache).trip_updates,
            }),
            final(cache).last_dynamic_update == now,
            final(cache).stops_metadata == old(cache).stops_metadata,
            final(cache).lines_metadata == old(cache).lines_metadata,
            final(cache).line_colors == old(cache).line_colors,
            final(cache).last_static_update == old(cache).last_static_update,
    {
        if let Ok(a) = alerts {
            cache.alerts = a;
        }
        if let Ok(v) = vehicles {
            cache.real_time = v;
        }
        if let Ok(d) = deviations {
            cache.trip_updates = d;
        }
        cache.last_dynamic_update = now;
        Ok(())
    }

    /// Applies the outcomes of the static fetches made at instant `now`. A
    /// failure of the stops returns it and changes nothing; a failure of the
    /// lines returns it after the stops were replaced; otherwise stops and
    /// lines are replaced, the colors too where they were had, and the static
    /// watermark moves to `now`.
    pub fn refresh_static_data(
        cache: &mut CachedNetworkData,
        stops: Result<Vec<StopRecord>, NVTError>,
        lines: Result<Vec<LineRecord>, NVTError>,
        colors: Result<Vec<(String, String)>, NVTError>,
        now: u64,
    ) -> (r: Result<(), NVTError>)
        ensures
            stops is Err ==> r == Err::<(), NVTError>(stops->Err_0) && *final(cache) == *old(cache),
            stops is Ok && lines is Err ==> {
                &&& r == Err::<(), NVTError>(lines->Err_0)
                &&& final(cache).stops_metadata == stops->Ok_0
                &&& final(cache).lines_metadata == old(cache).lines_metadata
                &&& final(cache).line_colors == old(cache).line_colors
                &&& final(cache).last_static_update == old(cache).last_static_update
            },
            stops is Ok && lines is Ok ==> {
                &&& r is Ok
                &&& final(cache).stops_metadata == stops->Ok_0
                &&& final(cache).lines_metadata == lines->Ok_0
                &&& final(cache).line_colors == (match colors {
                    Ok(c) => c,
                    Err(_) => old(cache).line_colors,
                })
                &&& final(cache).last_static_update == now
            },
            final(cache).alerts == old(cache).alerts,
            final(cache).real_time == old(cache).real_time,
            final(cache).trip_updates == old(cache).trip_updates,
            final(cache).last_dynamic_update == old(cache).last_dynamic_update,
    {
        match stops {
            Ok(s) => {
                cache.stops_metadata = s;
            },
            Err(e) => {
                return Err(e);
            },
        }
        match lines {
            Ok(l) => {
                cache.lines_metadata = l;
            },
            Err(e) => {
                return Err(e);
            },
        }
        if let Ok(c) = colors {
            cache.line_colors = c;
        }
        cache.last_static_update = now;
        Ok(())
    }

    /// Applies a dynamic refresh made at instant `now` (see
    /// [`NVTModels::refresh_dynamic_data`]), and tells whether static data is
    /// then due for a refresh as well.
    pub fn smart_refresh(
        cache: &mut CachedNetworkData,
        alerts: Result<Vec<AlertInfo>, NVTError>,
        vehicles: Result<Vec<RealTimeInfo>, NVTError>,
        deviations: Result<Vec<ScheduleDeviation>, NVTError>,
        now: u64,
    ) -> (static_due: bool)
        ensures
            final(cache).alerts == (match alerts {
                Ok(a) => a,
                Err(_) => old(cache).alerts,
            }),
            final(cache).real_time == (match vehicles {
                Ok(v) => v,
                Err(_) => old(cache).real_time,
            }),
            final(cache).trip_updates == (match deviations {
                Ok(d) => d,
                Err(_) => old(cache).trip_updates,
            }),
            final(cache).last_dynamic_update == now,
            final(cache).stops_metadata == old(cache).stops_metadata,
            final(cache).lines_metadata == old(cache).lines_metadata,
            final(cache).line_colors == old(cache).line_colors,
            final(cache).last_static_update == old(cache).last_static_update,
            static_due == (age(now, old(cache).last_static_update) > STATIC_DATA_MAX_AGE),
    {
        let _ = Self::refresh_dynamic_data(cache, alerts, vehicles, deviations, now);
        cache.needs_static_refresh(now, STATIC_DATA_MAX_AGE)
    }

    /// Counts and ages of the envelope's contents at instant `now`.
    pub fn get_cache_stats(cache: &CachedNetworkData, now: u64) -> (r: CacheStats)
        ensures
            r.stops == cache.stops_metadata@.len(),
            r.lines == cache.lines_metadata@.len(),
            r.colors == cache.line_colors@.len(),
            r.vehicles == cache.real_time@.len(),
            r.alerts == cache.alerts@.len(),
            r.static_age == age(now, cache.last_static_update),
            r.dynamic_age == age(now, cache.last_dynamic_update),
            r.last_update == cache.last_dynamic_update,
    {
        CacheStats {
            stops: cache.stops_metadata.len(),
            lines: cache.lines_metadata.len(),
            colors: cache.line_colors.len(),
            vehicles: cache.real_time.len(),
            alerts: cache.alerts.len(),
            static_age: now.saturating_sub(cache.last_static_update),
            dynamic_age: now.saturating_sub(cache.last_dynamic_update),
            last_update: cache.last_dynamic_update,
        }
    }
}

} // verus!
