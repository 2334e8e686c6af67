use tbm_nvt::model::NVTModels;

#[test]
fn stop_id_after_marker() {
    assert_eq!(NVTModels::extract_stop_id("BP:123:X"), Some("123".to_string()));
    assert_eq!(NVTModels::extract_stop_id("bordeaux:StopPoint:BP:4521:LOC"), Some("4521".to_string()));
}

#[test]
fn stop_id_second_to_last_segment() {
    assert_eq!(NVTModels::extract_stop_id("a:b:c"), Some("b".to_string()));
    assert_eq!(NVTModels::extract_stop_id("a:b"), Some("a".to_string()));
    assert_eq!(NVTModels::extract_stop_id(":"), Some("".to_string()));
}

#[test]
fn stop_id_without_colon_is_unchanged() {
    assert_eq!(NVTModels::extract_stop_id("5220"), Some("5220".to_string()));
    assert_eq!(NVTModels::extract_stop_id(""), Some("".to_string()));
}

#[test]
fn stop_id_marker_segment_ends_at_next_colon() {
    assert_eq!(NVTModels::extract_stop_id("BP:12BP:3"), Some("12BP".to_string()));
    assert_eq!(NVTModels::extract_stop_id("xBP:77"), Some("77".to_string()));
}

#[test]
fn stop_id_extraction_is_idempotent() {
    for raw in ["BP:123:X", "a:b:c", "5220", "BP:", "::", "x:BP:9:y:z", "é:ü:ö"] {
        let once = NVTModels::extract_stop_id(raw).unwrap();
        let twice = NVTModels::extract_stop_id(&once).unwrap();
        assert_eq!(once, twice);
    }
}

#[test]
fn line_id_is_third_segment() {
    assert_eq!(NVTModels::extract_line_id("1:2:42:x"), Some("42"));
    assert_eq!(NVTModels::extract_line_id("TBM:Line:59"), Some("59"));
    assert_eq!(NVTModels::extract_line_id("a:b:"), Some(""));
}

#[test]
fn line_id_absent_without_third_segment() {
    assert_eq!(NVTModels::extract_line_id("1:2"), None);
    assert_eq!(NVTModels::extract_line_id("A"), None);
}
