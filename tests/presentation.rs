use tbm_nvt::display::{NVTControllers, NVTViews};
use tbm_nvt::model::{Coordinates, LineRecord, NVTModels, NetworkData, RealTimeInfo, StopRecord};

fn observation(vehicle: &str, stop_id: &str, ts: Option<i64>) -> RealTimeInfo {
    RealTimeInfo {
        vehicle_id: vehicle.to_string(),
        trip_id: "t".to_string(),
        route_id: None,
        direction_id: None,
        destination: None,
        position: Coordinates { lat_e7: 0, lon_e7: 0 },
        stop_id: Some(stop_id.to_string()),
        timestamp: ts,
        delay: None,
    }
}

fn network() -> NetworkData {
    let stops = vec![
        StopRecord { stop_id: "S1".to_string(), stop_name: "Quinconces".to_string(), position: Coordinates { lat_e7: 0, lon_e7: 0 }, lines: vec!["1:2:42:x".to_string()] },
        StopRecord { stop_id: "S2".to_string(), stop_name: "Victoire".to_string(), position: Coordinates { lat_e7: 0, lon_e7: 0 }, lines: vec![] },
        StopRecord { stop_id: "S3".to_string(), stop_name: "quinconces".to_string(), position: Coordinates { lat_e7: 0, lon_e7: 0 }, lines: vec!["1:2:42:x".to_string()] },
    ];
    let lines = vec![
        LineRecord { line_ref: "1:2:42:x".to_string(), line_name: "Tram A".to_string(), line_code: "A".to_string(), destinations: vec![] },
        LineRecord { line_ref: "1:2:7:x".to_string(), line_name: "Bus 7".to_string(), line_code: "7".to_string(), destinations: vec![] },
    ];
    let colors = vec![("42".to_string(), "80c0ff".to_string())];
    let rt = vec![observation("late", "S1", Some(1_000_500)), observation("soon", "S1", Some(1_000_100))];
    NVTModels::build_network_data(&stops, &lines, &vec![], &rt, &vec![], &colors, 1_000_000)
}

#[test]
fn delay_texts() {
    assert_eq!(NVTControllers::format_delay(0), "On time");
    assert_eq!(NVTControllers::format_delay(30), "On time");
    assert_eq!(NVTControllers::format_delay(-30), "On time");
    assert_eq!(NVTControllers::format_delay(45), "+45s");
    assert_eq!(NVTControllers::format_delay(-45), "-45s");
    assert_eq!(NVTControllers::format_delay(120), "+2 min");
    assert_eq!(NVTControllers::format_delay(-120), "-2 min");
    assert_eq!(NVTControllers::format_delay(125), "+2 min 5s");
    assert_eq!(NVTControllers::format_delay(-125), "-2 min 5s");
    assert_eq!(NVTControllers::format_delay(i32::MIN), "-35791394 min 8s");
}

#[test]
fn minutes_until_arrival_rounds_toward_zero() {
    assert_eq!(NVTControllers::minutes_until_arrival(1_000_125, 1_000_000), 2);
    assert_eq!(NVTControllers::minutes_until_arrival(1_000_000 - 61, 1_000_000), -1);
    assert_eq!(NVTControllers::minutes_until_arrival(1_000_059, 1_000_000), 0);
}

#[test]
fn scheduled_observations_recognized() {
    assert!(NVTControllers::is_scheduled(&observation("scheduled", "S1", None)));
    assert!(NVTControllers::is_scheduled(&observation("fallback_trip_update", "S1", None)));
    assert!(!NVTControllers::is_scheduled(&observation("bus-12", "S1", None)));
}

#[test]
fn hex_colors_parsed() {
    assert_eq!(NVTModels::parse_hex_color("ff0000"), (255, 0, 0));
    assert_eq!(NVTModels::parse_hex_color("00A0fF"), (0, 160, 255));
    assert_eq!(NVTModels::parse_hex_color("zz0000"), (128, 0, 0));
    assert_eq!(NVTModels::parse_hex_color("+f0000"), (15, 0, 0));
    assert_eq!(NVTModels::parse_hex_color("fff"), (128, 128, 128));
    assert_eq!(NVTModels::parse_hex_color(""), (128, 128, 128));
}

#[test]
fn hex_color_length_counts_bytes() {
    assert_eq!(NVTModels::parse_hex_color("\u{e9}1234"), (128, 0x12, 0x34));
    assert_eq!(NVTModels::parse_hex_color("\u{e9}\u{e9}\u{e9}"), (128, 128, 128));
    assert_eq!(NVTModels::parse_hex_color("12345\u{e9}"), (128, 128, 128));
    assert_eq!(NVTModels::parse_hex_color("1\u{e9}\u{e9}4"), (128, 128, 128));
    assert_eq!(NVTModels::parse_hex_color("1234\u{e9}"), (0x12, 0x34, 128));
}

#[test]
fn colorized_line_codes() {
    assert_eq!(NVTViews::colorize_line("A", "ff0000"), "\x1b[48;2;255;0;0m\x1b[97m A \x1b[0m");
    assert_eq!(NVTViews::colorize_line("B", "ffffff"), "\x1b[48;2;255;255;255m\x1b[30m B \x1b[0m");
    assert_eq!(NVTViews::colorize_line("C", "nope"), "\x1b[48;2;128;128;128m\x1b[30m C \x1b[0m");
}

#[test]
fn paris_clock_texts() {
    assert_eq!(NVTModels::format_timestamp(0), "01:00:00");
    assert_eq!(NVTModels::format_timestamp(1_700_000_000), "23:13:20");
    assert_eq!(NVTModels::format_timestamp(1_690_000_000), "06:26:40");
    assert_eq!(NVTModels::format_timestamp_full(0), "1970-01-01 01:00:00");
    assert_eq!(NVTModels::format_timestamp(i64::MAX), "??:??:??");
    assert_eq!(NVTModels::format_timestamp_full(i64::MAX), "Invalid timestamp: 9223372036854775807");
    assert_eq!(NVTModels::format_timestamp_full(i64::MIN), "Invalid timestamp: -9223372036854775808");
}

#[test]
fn selections_validated() {
    let net = network();
    assert!(NVTControllers::validate_stop_id("S2", &net));
    assert!(!NVTControllers::validate_stop_id("S9", &net));
    assert!(NVTControllers::validate_line_ref("1:2:7:x", &net));
    assert!(!NVTControllers::validate_line_ref("7", &net));
}

#[test]
fn lookups_on_snapshot() {
    let net = network();
    assert_eq!(NVTModels::get_line_color("a", &net), "80c0ff");
    assert_eq!(NVTModels::get_line_color("7", &net), "808080");
    assert_eq!(NVTModels::get_line_color("Z", &net), "808080");
    assert_eq!(NVTModels::get_line_color_rgb("A", &net), (128, 192, 255));
    assert_eq!(NVTModels::get_stop_by_name("QUINCONCES", &net).unwrap().stop_id, "S1");
    assert!(NVTModels::get_stop_by_name("Quincon", &net).is_none());
    assert_eq!(NVTModels::get_line_by_name("bus 7", &net).unwrap().line_code, "7");
    assert_eq!(NVTModels::get_line_by_route_id("42", &net).unwrap().line_code, "A");
    assert!(NVTModels::get_line_by_route_id("A", &net).is_none());
    let serving: Vec<&str> = NVTModels::get_stops_for_line("1:2:42:x", &net).iter().map(|s| s.stop_id.as_str()).collect();
    assert_eq!(serving, vec!["S1", "S3"]);
    let next: Vec<String> = NVTModels::get_next_vehicles_for_stop("S1", &net).into_iter().map(|o| o.vehicle_id).collect();
    assert_eq!(next, vec!["soon".to_string(), "late".to_string()]);
    assert!(NVTModels::get_next_vehicles_for_stop("S9", &net).is_empty());
}

#[test]
fn line_found_by_code_or_name() {
    let net = network();
    assert_eq!(NVTControllers::find_line("a", &net).unwrap().line_ref, "1:2:42:x");
    assert_eq!(NVTControllers::find_line("BUS 7", &net).unwrap().line_ref, "1:2:7:x");
    assert!(NVTControllers::find_line("Tram", &net).is_none());
}

#[test]
fn vehicles_filtered_by_line_route() {
    let net = network();
    let mut on_42 = observation("x", "S1", Some(5));
    on_42.route_id = Some("42".to_string());
    let mut on_7 = observation("y", "S1", Some(6));
    on_7.route_id = Some("7".to_string());
    let vehicles = vec![on_42, on_7, observation("z", "S1", None)];
    let kept = NVTControllers::vehicles_on_line(&vehicles, &net.lines[0]);
    assert_eq!(kept.len(), 1);
    assert_eq!(kept[0].vehicle_id, "x");
    let no_route = tbm_nvt::model::Line {
        line_ref: "x".to_string(),
        line_name: "X".to_string(),
        line_code: "X".to_string(),
        destinations: vec![],
        alerts: vec![],
        real_time: vec![],
        color: "808080".to_string(),
    };
    let mut empty_route = observation("e", "S1", None);
    empty_route.route_id = Some(String::new());
    assert!(NVTControllers::vehicles_on_line(&vec![empty_route], &no_route).is_empty());
}
