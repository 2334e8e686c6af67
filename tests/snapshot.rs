use tbm_nvt::model::{
    AlertInfo, Coordinates, LineRecord, NVTModels, NetworkData, RealTimeInfo, ScheduleDeviation,
    StopRecord, StopTimeEvent, StopTimeUpdate,
};
use tbm_nvt::schedule::ScheduleIndex;

const NOW: i64 = 1_700_000_000;

fn stop(id: &str, lines: &[&str]) -> StopRecord {
    StopRecord {
        stop_id: id.to_string(),
        stop_name: format!("Stop {}", id),
        position: Coordinates { lat_e7: 448_412_000, lon_e7: -5_745_000 },
        lines: lines.iter().map(|s| s.to_string()).collect(),
    }
}

fn line(line_ref: &str, code: &str, destinations: &[(&str, &str)]) -> LineRecord {
    LineRecord {
        line_ref: line_ref.to_string(),
        line_name: format!("Line {}", code),
        line_code: code.to_string(),
        destinations: destinations.iter().map(|(d, p)| (d.to_string(), p.to_string())).collect(),
    }
}

fn live(vehicle: &str, route: Option<&str>, stop_id: Option<&str>, ts: Option<i64>) -> RealTimeInfo {
    RealTimeInfo {
        vehicle_id: vehicle.to_string(),
        trip_id: format!("trip-{}", vehicle),
        route_id: route.map(|s| s.to_string()),
        direction_id: None,
        destination: None,
        position: Coordinates { lat_e7: 1, lon_e7: 2 },
        stop_id: stop_id.map(|s| s.to_string()),
        timestamp: ts,
        delay: None,
    }
}

fn update(stop_id: &str, time: i64, delay: Option<i32>) -> StopTimeUpdate {
    StopTimeUpdate {
        stop_id: Some(stop_id.to_string()),
        arrival: Some(StopTimeEvent { delay, time: Some(time) }),
        departure: None,
    }
}

fn deviation(trip: &str, route: Option<&str>, dir: Option<u32>, updates: Vec<StopTimeUpdate>) -> ScheduleDeviation {
    ScheduleDeviation {
        trip_id: Some(trip.to_string()),
        route_id: route.map(|s| s.to_string()),
        direction_id: dir,
        stop_time_updates: updates,
    }
}

fn alert(id: &str, routes: &[&str], stops: &[&str]) -> AlertInfo {
    AlertInfo {
        id: id.to_string(),
        text: format!("alert {}", id),
        description: String::new(),
        url: None,
        route_ids: routes.iter().map(|s| s.to_string()).collect(),
        stop_ids: stops.iter().map(|s| s.to_string()).collect(),
        active_period_start: None,
        active_period_end: None,
        severity: 0,
    }
}

fn build(
    stops: Vec<StopRecord>,
    lines: Vec<LineRecord>,
    alerts: Vec<AlertInfo>,
    real_time: Vec<RealTimeInfo>,
    deviations: Vec<ScheduleDeviation>,
    colors: Vec<(String, String)>,
) -> NetworkData {
    NVTModels::build_network_data(&stops, &lines, &alerts, &real_time, &deviations, &colors, NOW)
}

#[test]
fn stop_observations_sorted_with_missing_timestamps_last() {
    let rt = vec![
        live("a", None, Some("S1"), Some(NOW + 300)),
        live("b", None, Some("S1"), None),
        live("c", None, Some("S1"), Some(NOW + 60)),
        live("d", None, Some("S1"), Some(NOW - 60)),
        live("e", None, Some("S1"), Some(NOW - 200)),
        live("f", None, Some("S2"), Some(NOW)),
    ];
    let net = build(vec![stop("S1", &[])], vec![], vec![], rt, vec![], vec![]);
    let ids: Vec<&str> = net.stops[0].real_time.iter().map(|o| o.vehicle_id.as_str()).collect();
    assert_eq!(ids, vec!["d", "c", "a", "b"]);
}

#[test]
fn stop_observations_windowed_and_capped() {
    let mut rt = Vec::new();
    for k in 0..15i64 {
        rt.push(live(&format!("v{}", k), None, Some("S1"), Some(NOW - 300 + 30 * k)));
    }
    for k in 0..3 {
        rt.push(live(&format!("n{}", k), None, Some("S1"), None));
    }
    let net = build(vec![stop("S1", &[])], vec![], vec![], rt, vec![], vec![]);
    let obs = &net.stops[0].real_time;
    assert_eq!(obs.len(), 10);
    assert_eq!(obs[0].timestamp, Some(NOW - 120));
    for o in obs.iter() {
        if let Some(t) = o.timestamp {
            assert!(t >= NOW - 120);
        }
    }
    assert_eq!(obs[8].timestamp, Some(NOW + 120));
    assert_eq!(obs[9].vehicle_id, "n0");
}

#[test]
fn equal_timestamps_keep_their_order() {
    let rt = vec![
        live("first", None, Some("S1"), Some(NOW)),
        live("second", None, Some("S1"), Some(NOW)),
        live("third", None, Some("S1"), Some(NOW - 10)),
    ];
    let net = build(vec![stop("S1", &[])], vec![], vec![], rt, vec![], vec![]);
    let ids: Vec<&str> = net.stops[0].real_time.iter().map(|o| o.vehicle_id.as_str()).collect();
    assert_eq!(ids, vec!["third", "first", "second"]);
}

#[test]
fn scheduled_arrival_reachable_under_raw_and_extracted_keys() {
    let deviations = vec![deviation("T1", Some("42"), Some(0), vec![update("BP:123:X", NOW + 600, Some(30))])];
    let index = ScheduleIndex::build(&deviations, NOW - 120);
    let by_extracted = index.lookup(&"123".to_string());
    let by_raw = index.lookup(&"BP:123:X".to_string());
    assert_eq!(by_extracted.len(), 1);
    assert_eq!(by_raw.len(), 1);
    assert_eq!(by_extracted[0].time, NOW + 600);
    assert_eq!(by_raw[0].trip_id, "T1");
    assert_eq!(index.lookup(&"X".to_string()).len(), 0);
}

#[test]
fn raw_key_equal_to_extracted_is_indexed_once() {
    let deviations = vec![deviation("T1", None, None, vec![update("5220", NOW, None)])];
    let index = ScheduleIndex::build(&deviations, NOW - 120);
    assert_eq!(index.entries.len(), 1);
    assert_eq!(index.lookup(&"5220".to_string()).len(), 1);
}

#[test]
fn past_scheduled_arrivals_are_not_indexed() {
    let deviations = vec![deviation(
        "T1",
        None,
        None,
        vec![update("S1", NOW - 121, None), update("S1", NOW - 120, None)],
    )];
    let index = ScheduleIndex::build(&deviations, NOW - 120);
    let found = index.lookup(&"S1".to_string());
    assert_eq!(found.len(), 1);
    assert_eq!(found[0].time, NOW - 120);
}

#[test]
fn departure_time_used_when_arrival_has_none() {
    let u = StopTimeUpdate {
        stop_id: Some("S1".to_string()),
        arrival: Some(StopTimeEvent { delay: None, time: None }),
        departure: Some(StopTimeEvent { delay: Some(-20), time: Some(NOW + 5) }),
    };
    let deviations = vec![ScheduleDeviation { trip_id: None, route_id: None, direction_id: None, stop_time_updates: vec![u] }];
    let index = ScheduleIndex::build(&deviations, NOW - 120);
    let found = index.lookup(&"S1".to_string());
    assert_eq!(found.len(), 1);
    assert_eq!(found[0].time, NOW + 5);
    assert_eq!(found[0].delay, Some(-20));
    assert_eq!(found[0].trip_id, "Unknown");
}

#[test]
fn scheduled_observation_synthesized_at_stop() {
    let lines = vec![line("1:2:42:x", "42", &[("0", "Quinconces"), ("1", "Gare")])];
    let deviations = vec![deviation("T1", Some("42"), Some(1), vec![update("BP:123:X", NOW + 600, Some(30))])];
    let stops = vec![stop("123", &["1:2:42:x"]), stop("BP:123:X", &[])];
    let net = build(stops, lines, vec![], vec![], deviations, vec![]);
    for s in net.stops.iter() {
        assert_eq!(s.real_time.len(), 1);
        let o = &s.real_time[0];
        assert_eq!(o.vehicle_id, "scheduled");
        assert_eq!(o.trip_id, "T1");
        assert_eq!(o.destination.as_deref(), Some("Gare"));
        assert_eq!(o.stop_id.as_deref(), Some(s.stop_id.as_str()));
        assert_eq!(o.timestamp, Some(NOW + 600));
        assert_eq!(o.delay, Some(30));
        assert_eq!(o.position, s.position);
    }
}

#[test]
fn scheduled_destination_absent_without_direction() {
    let lines = vec![line("1:2:42:x", "42", &[("0", "Quinconces")])];
    let deviations = vec![deviation("T1", Some("42"), None, vec![update("S1", NOW, None)])];
    let net = build(vec![stop("S1", &[])], lines, vec![], vec![], deviations, vec![]);
    assert_eq!(net.stops[0].real_time[0].destination, None);
}

#[test]
fn live_and_scheduled_merged_in_time_order() {
    let deviations = vec![deviation("T1", None, None, vec![update("S1", NOW + 100, None)])];
    let rt = vec![live("bus", None, Some("S1"), Some(NOW + 200)), live("tram", None, Some("S1"), Some(NOW + 50))];
    let net = build(vec![stop("S1", &[])], vec![], vec![], rt, deviations, vec![]);
    let ids: Vec<&str> = net.stops[0].real_time.iter().map(|o| o.vehicle_id.as_str()).collect();
    assert_eq!(ids, vec!["tram", "scheduled", "bus"]);
}

#[test]
fn route_color_table_resolves_line_color() {
    let table = "route_id,agency_id,route_short_name,route_long_name,route_type,route_color\n\
                 42,TBM,42,Ligne 42,3,ff0000\n\
                 7,TBM,7,Ligne 7,3,zz0000\n";
    let colors = NVTModels::route_colors_from_table(table);
    assert_eq!(colors, vec![("42".to_string(), "ff0000".to_string())]);
    let lines = vec![line("1:2:42:x", "42", &[]), line("1:2:7:x", "7", &[]), line("A", "A", &[])];
    let net = build(vec![], lines, vec![], vec![], vec![], colors);
    assert_eq!(net.lines[0].color, "ff0000");
    assert_eq!(NVTModels::parse_hex_color(&net.lines[0].color), (255, 0, 0));
    assert_eq!(net.lines[1].color, "808080");
    assert_eq!(net.lines[2].color, "808080");
}

#[test]
fn later_color_rows_overwrite_earlier_ones() {
    let colors = vec![
        ("42".to_string(), "111111".to_string()),
        ("42".to_string(), "222222".to_string()),
    ];
    let net = build(vec![], vec![line("1:2:42:x", "42", &[])], vec![], vec![], vec![], colors);
    assert_eq!(net.lines[0].color, "222222");
}

#[test]
fn line_observations_on_route_sorted_and_uncapped() {
    let mut rt = Vec::new();
    for k in (0..12i64).rev() {
        rt.push(live(&format!("v{}", k), Some("42"), None, Some(NOW + k)));
    }
    rt.push(live("old", Some("42"), None, Some(NOW - 500)));
    rt.push(live("other", Some("7"), None, Some(NOW)));
    let net = build(vec![], vec![line("1:2:42:x", "42", &[])], vec![], rt, vec![], vec![]);
    let obs = &net.lines[0].real_time;
    assert_eq!(obs.len(), 12);
    assert_eq!(obs[0].vehicle_id, "v0");
    assert_eq!(obs[11].vehicle_id, "v11");
}

#[test]
fn alerts_attach_to_stops_and_lines() {
    let alerts = vec![
        alert("a1", &["42"], &[]),
        alert("a2", &[], &["S1"]),
        alert("a3", &["L42"], &["S2"]),
    ];
    let net = build(
        vec![stop("S1", &[]), stop("S2", &[])],
        vec![line("1:2:42:x", "L42", &[]), line("1:2:9:x", "9", &[])],
        alerts,
        vec![],
        vec![],
        vec![],
    );
    let ids = |v: &Vec<AlertInfo>| v.iter().map(|a| a.id.clone()).collect::<Vec<_>>();
    assert_eq!(ids(&net.stops[0].alerts), vec!["a2"]);
    assert_eq!(ids(&net.stops[1].alerts), vec!["a3"]);
    assert_eq!(ids(&net.lines[0].alerts), vec!["a1", "a3"]);
    assert!(net.lines[1].alerts.is_empty());
}

#[test]
fn empty_inputs_give_empty_snapshot() {
    let net = build(vec![], vec![], vec![], vec![], vec![], vec![]);
    assert!(net.stops.is_empty());
    assert!(net.lines.is_empty());
}

#[test]
fn line_without_route_id_matches_nothing_by_route() {
    let rt = vec![live("empty-route", Some(""), None, None), live("on-x", Some("x"), None, Some(NOW))];
    let alerts = vec![alert("empty", &[""], &[]), alert("by-code", &["X1"], &[])];
    let colors = vec![("".to_string(), "00ff00".to_string())];
    let net = build(vec![], vec![line("x", "X1", &[])], alerts, rt, vec![], colors);
    assert!(net.lines[0].real_time.is_empty());
    let ids: Vec<String> = net.lines[0].alerts.iter().map(|a| a.id.clone()).collect();
    assert_eq!(ids, vec!["by-code".to_string()]);
    assert_eq!(net.lines[0].color, "808080");
}

#[test]
fn missing_timestamp_after_largest_timestamp() {
    let rt = vec![
        live("none", None, Some("S1"), None),
        live("max", None, Some("S1"), Some(i64::MAX)),
        live("now", None, Some("S1"), Some(NOW)),
    ];
    let net = build(vec![stop("S1", &[])], vec![], vec![], rt, vec![], vec![]);
    let ids: Vec<&str> = net.stops[0].real_time.iter().map(|o| o.vehicle_id.as_str()).collect();
    assert_eq!(ids, vec!["now", "max", "none"]);
}
