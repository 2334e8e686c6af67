use tbm_nvt::feeds::{
    ActivePeriod, DiscoveredLine, DiscoveredStop, FeedAlert, FeedEntity, FeedVehicle, InformedEntity,
};
use tbm_nvt::model::{Coordinates, NVTError, NVTModels, ScheduleDeviation};

fn entity(id: &str) -> FeedEntity {
    FeedEntity { id: id.to_string(), alert: None, vehicle: None, trip_update: None }
}

fn s(x: &str) -> String {
    x.to_string()
}

#[test]
fn alerts_take_first_language_and_defaults() {
    let mut with_alert = entity("e1");
    with_alert.alert = Some(FeedAlert {
        header_text: vec![],
        description_text: vec![s("Travaux"), s("Works")],
        url: vec![s("https://example.org/a")],
        informed_entity: vec![
            InformedEntity { route_id: Some(s("42")), stop_id: None },
            InformedEntity { route_id: None, stop_id: Some(s("BP:123:X")) },
            InformedEntity { route_id: Some(s("7")), stop_id: Some(s("5220")) },
        ],
        active_period: vec![ActivePeriod { start: Some(10), end: None }, ActivePeriod { start: Some(99), end: Some(100) }],
        severity_level: Some(3),
    });
    let entities = vec![entity("skip"), with_alert];
    let alerts = NVTModels::alerts_from_feed(&entities);
    assert_eq!(alerts.len(), 1);
    let a = &alerts[0];
    assert_eq!(a.id, "e1");
    assert_eq!(a.text, "No title");
    assert_eq!(a.description, "Travaux");
    assert_eq!(a.url.as_deref(), Some("https://example.org/a"));
    assert_eq!(a.route_ids, vec![s("42"), s("7")]);
    assert_eq!(a.stop_ids, vec![s("BP:123:X"), s("5220")]);
    assert_eq!(a.active_period_start, Some(10));
    assert_eq!(a.active_period_end, None);
    assert_eq!(a.severity, 3);
}

#[test]
fn alert_without_texts_or_periods() {
    let mut e = entity("e2");
    e.alert = Some(FeedAlert {
        header_text: vec![s("Grève")],
        description_text: vec![],
        url: vec![],
        informed_entity: vec![],
        active_period: vec![],
        severity_level: None,
    });
    let a = &NVTModels::alerts_from_feed(&vec![e])[0];
    assert_eq!(a.text, "Grève");
    assert_eq!(a.description, "No description available");
    assert_eq!(a.url, None);
    assert_eq!(a.active_period_start, None);
    assert_eq!(a.severity, 0);
}

#[test]
fn vehicles_with_defaults() {
    let mut e = entity("v");
    e.vehicle = Some(FeedVehicle {
        vehicle_id: None,
        vehicle_label: Some(s("Gare")),
        trip_id: None,
        route_id: Some(s("42")),
        direction_id: Some(1),
        position: None,
        stop_id: Some(s("5220")),
        timestamp: Some(1_700_000_000),
    });
    let mut e2 = entity("w");
    e2.vehicle = Some(FeedVehicle {
        vehicle_id: Some(s("bus-9")),
        vehicle_label: None,
        trip_id: Some(s("T9")),
        route_id: None,
        direction_id: None,
        position: Some(Coordinates { lat_e7: 448_000_000, lon_e7: -5_000_000 }),
        stop_id: None,
        timestamp: Some(u64::MAX),
    });
    let v = NVTModels::vehicles_from_feed(&vec![e, entity("none"), e2]);
    assert_eq!(v.len(), 2);
    assert_eq!(v[0].vehicle_id, "Unknown");
    assert_eq!(v[0].trip_id, "Unknown");
    assert_eq!(v[0].destination.as_deref(), Some("Gare"));
    assert_eq!(v[0].position, Coordinates { lat_e7: 0, lon_e7: 0 });
    assert_eq!(v[0].timestamp, Some(1_700_000_000));
    assert_eq!(v[0].delay, None);
    assert_eq!(v[1].vehicle_id, "bus-9");
    assert_eq!(v[1].position.lat_e7, 448_000_000);
    assert_eq!(v[1].timestamp, Some(-1));
}

#[test]
fn deviations_kept_in_order() {
    let dev = |t: &str| ScheduleDeviation { trip_id: Some(s(t)), route_id: None, direction_id: None, stop_time_updates: vec![] };
    let mut a = entity("a");
    a.trip_update = Some(dev("T1"));
    let mut c = entity("c");
    c.trip_update = Some(dev("T2"));
    let out = NVTModels::deviations_from_feed(vec![a, entity("b"), c]);
    let trips: Vec<String> = out.into_iter().map(|d| d.trip_id.unwrap()).collect();
    assert_eq!(trips, vec![s("T1"), s("T2")]);
}

fn discovered(id: Option<&str>, name: Option<&str>) -> DiscoveredStop {
    DiscoveredStop {
        stop_point_ref: id.map(s),
        stop_name: name.map(s),
        latitude: Some(448_412_000),
        longitude: Some(-5_745_000),
        lines: vec![Some(s("1:2:42:x")), None, Some(s("1:2:7:x"))],
    }
}

#[test]
fn discovered_stops() {
    let points = vec![
        discovered(Some("bordeaux:StopPoint:BP:3001:LOC"), Some("Quinconces")),
        discovered(None, Some("No id")),
        discovered(Some("5220"), None),
    ];
    let stops = NVTModels::stops_from_discovery(Some(points)).unwrap();
    assert_eq!(stops.len(), 1);
    assert_eq!(stops[0].stop_id, "3001");
    assert_eq!(stops[0].stop_name, "Quinconces");
    assert_eq!(stops[0].lines, vec![s("1:2:42:x"), s("1:2:7:x")]);
    assert_eq!(stops[0].position, Coordinates { lat_e7: 448_412_000, lon_e7: -5_745_000 });
}

#[test]
fn discovered_stops_errors() {
    assert!(matches!(NVTModels::stops_from_discovery(None), Err(NVTError::ParseError(_))));
    assert!(matches!(NVTModels::stops_from_discovery(Some(vec![])), Err(NVTError::ParseError(_))));
    let mut no_lat = discovered(Some("1"), Some("x"));
    no_lat.latitude = None;
    assert!(matches!(NVTModels::stops_from_discovery(Some(vec![no_lat])), Err(NVTError::ParseError(_))));
}

#[test]
fn discovered_lines() {
    let refs = vec![
        DiscoveredLine {
            line_ref: Some(s("1:2:42:x")),
            line_name: Some(s("Tram A")),
            line_code: Some(s("A")),
            destinations: vec![(Some(s("0")), Some(s("Quinconces"))), (Some(s("1")), None), (None, Some(s("Gare")))],
        },
        DiscoveredLine { line_ref: Some(s("1:2:7:x")), line_name: None, line_code: Some(s("7")), destinations: vec![] },
    ];
    let lines = NVTModels::lines_from_discovery(Some(refs)).unwrap();
    assert_eq!(lines.len(), 1);
    assert_eq!(lines[0].line_code, "A");
    assert_eq!(lines[0].destinations, vec![(s("0"), s("Quinconces"))]);
    assert!(matches!(NVTModels::lines_from_discovery(None), Err(NVTError::ParseError(_))));
    assert!(matches!(NVTModels::lines_from_discovery(Some(vec![])), Err(NVTError::ParseError(_))));
}
