use tbm_nvt::cache::{CachedNetworkData, GTFSCache};
use tbm_nvt::model::{AlertInfo, Coordinates, LineRecord, NVTError, NVTModels, RealTimeInfo, StopRecord};

const NOW: u64 = 1_700_000_000;
const DAY: u64 = 86_400;

fn persisted(cached_at: u64) -> GTFSCache {
    GTFSCache { routes: vec![("42".to_string(), "ff0000".to_string())], stops: vec![], cached_at }
}

fn stops() -> Vec<StopRecord> {
    vec![StopRecord {
        stop_id: "S1".to_string(),
        stop_name: "Quinconces".to_string(),
        position: Coordinates { lat_e7: 0, lon_e7: 0 },
        lines: vec![],
    }]
}

fn lines() -> Vec<LineRecord> {
    vec![LineRecord {
        line_ref: "1:2:42:x".to_string(),
        line_name: "Ligne 42".to_string(),
        line_code: "42".to_string(),
        destinations: vec![],
    }]
}

fn one_alert(id: &str) -> Vec<AlertInfo> {
    vec![AlertInfo {
        id: id.to_string(),
        text: String::new(),
        description: String::new(),
        url: None,
        route_ids: vec![],
        stop_ids: vec![],
        active_period_start: None,
        active_period_end: None,
        severity: 0,
    }]
}

fn one_vehicle(id: &str) -> Vec<RealTimeInfo> {
    vec![RealTimeInfo {
        vehicle_id: id.to_string(),
        trip_id: String::new(),
        route_id: None,
        direction_id: None,
        destination: None,
        position: Coordinates { lat_e7: 0, lon_e7: 0 },
        stop_id: None,
        timestamp: None,
        delay: None,
    }]
}

fn network_error(m: &str) -> NVTError {
    NVTError::NetworkError(m.to_string())
}

#[test]
fn persisted_cache_expiry() {
    assert!(persisted(NOW - 16 * DAY).is_expired(NOW));
    assert!(!persisted(NOW - 14 * DAY).is_expired(NOW));
    assert!(persisted(NOW - 15 * DAY).is_expired(NOW));
    assert!(!persisted(NOW - 15 * DAY + 1).is_expired(NOW));
    assert!(!persisted(NOW + DAY).is_expired(NOW));
}

#[test]
fn expired_persisted_cache_is_not_loaded() {
    assert!(GTFSCache::load(Some(persisted(NOW - 16 * DAY)), NOW).is_none());
    assert!(GTFSCache::load(None, NOW).is_none());
    let fresh = GTFSCache::load(Some(persisted(NOW - DAY)), NOW).unwrap();
    assert_eq!(fresh.cached_at, NOW - DAY);
    assert_eq!(NVTModels::load_line_colors(Some(persisted(NOW - DAY)), NOW).unwrap().len(), 1);
    assert!(NVTModels::load_line_colors(Some(persisted(NOW - 20 * DAY)), NOW).is_none());
}

#[test]
fn dynamic_refresh_due_after_max_age() {
    let mut cache = CachedNetworkData::new();
    cache.last_dynamic_update = NOW - 31;
    assert!(cache.needs_dynamic_refresh(NOW, 30));
    cache.last_dynamic_update = NOW - 30;
    assert!(!cache.needs_dynamic_refresh(NOW, 30));
    cache.last_dynamic_update = NOW + 100;
    assert!(!cache.needs_dynamic_refresh(NOW, 30));
    cache.last_static_update = NOW - 3601;
    assert!(cache.needs_static_refresh(NOW, 3600));
    cache.last_static_update = NOW - 3600;
    assert!(!cache.needs_static_refresh(NOW, 3600));
}

#[test]
fn construction_fails_when_stops_fail() {
    let r = NVTModels::initialize_cache(
        Err(network_error("timeout")),
        Ok(lines()),
        Ok(vec![]),
        Ok(vec![]),
        Ok(vec![]),
        Ok(vec![]),
        NOW,
    );
    match r {
        Err(NVTError::NetworkError(m)) => assert_eq!(m, "Failed to fetch stops: Network error: timeout"),
        _ => panic!("expected a network error"),
    }
}

#[test]
fn construction_fails_when_lines_fail() {
    let r = NVTModels::initialize_cache(
        Ok(stops()),
        Err(NVTError::ParseError("No valid lines found in API response".to_string())),
        Ok(vec![]),
        Ok(vec![]),
        Ok(vec![]),
        Ok(vec![]),
        NOW,
    );
    match r {
        Err(NVTError::NetworkError(m)) => {
            assert_eq!(m, "Failed to fetch lines: Parse error: No valid lines found in API response")
        }
        _ => panic!("expected a network error"),
    }
}

#[test]
fn construction_degrades_optional_streams() {
    let cache = NVTModels::initialize_cache(
        Ok(stops()),
        Ok(lines()),
        Err(NVTError::FileError("x".to_string())),
        Err(network_error("alerts down")),
        Ok(one_vehicle("bus")),
        Err(network_error("updates down")),
        NOW,
    )
    .unwrap();
    assert_eq!(cache.stops_metadata.len(), 1);
    assert_eq!(cache.lines_metadata.len(), 1);
    assert!(cache.line_colors.is_empty());
    assert!(cache.alerts.is_empty());
    assert_eq!(cache.real_time.len(), 1);
    assert!(cache.trip_updates.is_empty());
    assert_eq!(cache.last_static_update, NOW);
    assert_eq!(cache.last_dynamic_update, NOW);
}

#[test]
fn partial_dynamic_refresh_keeps_failed_stream() {
    let mut cache = CachedNetworkData::new();
    cache.alerts = one_alert("old");
    cache.real_time = one_vehicle("old");
    cache.last_dynamic_update = NOW - 100;
    let r = NVTModels::refresh_dynamic_data(&mut cache, Err(network_error("down")), Ok(one_vehicle("new")), Ok(vec![]), NOW);
    assert!(r.is_ok());
    assert_eq!(cache.alerts[0].id, "old");
    assert_eq!(cache.real_time[0].vehicle_id, "new");
    assert!(cache.trip_updates.is_empty());
    assert_eq!(cache.last_dynamic_update, NOW);
}

#[test]
fn smart_refresh_reports_static_due() {
    let mut cache = CachedNetworkData::new();
    cache.last_static_update = NOW - 4000;
    assert!(NVTModels::smart_refresh(&mut cache, Ok(one_alert("a")), Ok(vec![]), Ok(vec![]), NOW));
    assert_eq!(cache.alerts.len(), 1);
    assert_eq!(cache.last_dynamic_update, NOW);
    cache.last_static_update = NOW - 10;
    assert!(!NVTModels::smart_refresh(&mut cache, Err(network_error("x")), Ok(vec![]), Ok(vec![]), NOW));
    assert_eq!(cache.alerts.len(), 1);
}

#[test]
fn static_refresh_outcomes() {
    let mut cache = CachedNetworkData::new();
    cache.line_colors = vec![("42".to_string(), "ff0000".to_string())];
    let r = NVTModels::refresh_static_data(&mut cache, Err(network_error("x")), Ok(lines()), Ok(vec![]), NOW);
    assert!(matches!(r, Err(NVTError::NetworkError(_))));
    assert!(cache.stops_metadata.is_empty());
    assert_eq!(cache.last_static_update, 0);

    let r = NVTModels::refresh_static_data(&mut cache, Ok(stops()), Err(network_error("y")), Ok(vec![]), NOW);
    assert!(matches!(r, Err(NVTError::NetworkError(_))));
    assert_eq!(cache.stops_metadata.len(), 1);
    assert!(cache.lines_metadata.is_empty());
    assert_eq!(cache.last_static_update, 0);

    let r = NVTModels::refresh_static_data(&mut cache, Ok(stops()), Ok(lines()), Err(network_error("z")), NOW);
    assert!(r.is_ok());
    assert_eq!(cache.lines_metadata.len(), 1);
    assert_eq!(cache.line_colors.len(), 1);
    assert_eq!(cache.last_static_update, NOW);
}

#[test]
fn cache_stats_counts_and_ages() {
    let mut cache = NVTModels::initialize_cache(Ok(stops()), Ok(lines()), Ok(vec![]), Ok(one_alert("a")), Ok(vec![]), Ok(vec![]), NOW - 50).unwrap();
    let _ = NVTModels::refresh_dynamic_data(&mut cache, Ok(vec![]), Ok(one_vehicle("v")), Ok(vec![]), NOW - 5);
    let stats = NVTModels::get_cache_stats(&cache, NOW);
    assert_eq!((stats.stops, stats.lines, stats.colors, stats.vehicles, stats.alerts), (1, 1, 0, 1, 0));
    assert_eq!((stats.static_age, stats.dynamic_age, stats.last_update), (50, 5, NOW - 5));
}

#[test]
fn envelope_snapshot_uses_its_records() {
    let cache = NVTModels::initialize_cache(Ok(stops()), Ok(lines()), Ok(vec![("42".to_string(), "00ff00".to_string())]), Ok(vec![]), Ok(vec![]), Ok(vec![]), NOW).unwrap();
    let net = cache.to_network_data(NOW as i64);
    assert_eq!(net.stops.len(), 1);
    assert_eq!(net.lines[0].color, "00ff00");
}

#[test]
fn error_descriptions() {
    assert_eq!(NVTError::NetworkError("a".to_string()).describe(), "Network error: a");
    assert_eq!(NVTError::ParseError("b".to_string()).describe(), "Parse error: b");
    assert_eq!(NVTError::FileError("c".to_string()).describe(), "File error: c");
}
