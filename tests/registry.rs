use timeular_tracker::registry::{TimeularConfig, TrackerError};
use timeular_tracker::store::{
    create_config, get_timeular_config, update_config, update_timeular_config, ConfigStore,
};
use timeular_tracker::timetagger::TimetaggerConfig;

#[test]
fn default_registry_reserves_face_nine() {
    let mut reg = TimeularConfig::default();
    assert_eq!(reg.sides.len(), 14);
    let nine = reg.get_side(&9).unwrap();
    assert!(!nine.configurable);
    assert!(!reg.is_trackable(&9));
    assert!(reg.get_side(&1).unwrap().configurable);
    assert!(!reg.get_side(&0).unwrap().configurable);
    reg.set_side(1, "coding".to_string());
    assert!(reg.is_trackable(&1));
}

#[test]
fn set_side_then_get_side_returns_label() {
    let mut reg = TimeularConfig::default();
    reg.set_side(4, "reading".to_string());
    assert_eq!(reg.get_side(&4).unwrap().label, "reading");
    assert!(reg.get_side(&4).unwrap().configurable);
    assert_eq!(reg.sides.len(), 14);
}

#[test]
fn set_side_unknown_face_appends_configurable_side() {
    let mut reg = TimeularConfig::default();
    reg.set_side(20, "gym".to_string());
    assert_eq!(reg.sides.len(), 15);
    let s = reg.get_side(&20).unwrap();
    assert_eq!(s.label, "gym");
    assert!(s.configurable);
    assert!(reg.is_trackable(&20));
}

#[test]
fn set_side_twice_equals_once() {
    let mut once = TimeularConfig::default();
    once.set_side(2, "meeting".to_string());
    once.set_side(30, "extra".to_string());
    let mut twice = TimeularConfig::default();
    twice.set_side(2, "meeting".to_string());
    twice.set_side(2, "meeting".to_string());
    twice.set_side(30, "extra".to_string());
    twice.set_side(30, "extra".to_string());
    assert_eq!(once.sides.len(), twice.sides.len());
    for (a, b) in once.sides.iter().zip(twice.sides.iter()) {
        assert_eq!(a.side_num, b.side_num);
        assert_eq!(a.label, b.label);
        assert_eq!(a.configurable, b.configurable);
    }
}

#[test]
fn empty_label_makes_side_untrackable() {
    let mut reg = TimeularConfig::default();
    reg.set_side(3, "x".to_string());
    assert!(reg.is_trackable(&3));
    reg.set_side(3, String::new());
    assert!(!reg.is_trackable(&3));
    assert!(reg.get_side(&3).is_ok());
}

#[test]
fn reserved_side_can_be_labelled() {
    let mut reg = TimeularConfig::default();
    reg.set_side(9, "rest".to_string());
    assert!(reg.is_trackable(&9));
    assert!(!reg.get_side(&9).unwrap().configurable);
}

#[test]
fn unknown_side_is_an_error() {
    let reg = TimeularConfig::default();
    assert_eq!(reg.get_side(&42).unwrap_err(), TrackerError::UnknownSide(42));
    assert!(reg.find_side(&42).is_none());
    assert!(!reg.is_trackable(&42));
}

#[test]
fn store_missing_records_read_as_defaults() {
    let store = ConfigStore::new();
    let reg = get_timeular_config(&store);
    assert_eq!(reg.sides.len(), 14);
    assert_eq!(reg.handler, "");
    let cfg = create_config(&store);
    assert_eq!(cfg.timetagger_url, "");
    assert_eq!(cfg.api_key, "");
}

#[test]
fn store_put_then_get_returns_value() {
    let mut store = ConfigStore::new();
    let mut reg = TimeularConfig::default();
    reg.set_side(1, "coding".to_string());
    reg.handler = "timetagger".to_string();
    update_timeular_config(&mut store, &reg);
    let cfg = TimetaggerConfig {
        timetagger_url: "https://t.example/api/v2/records".to_string(),
        api_key: "K".to_string(),
    };
    update_config(&mut store, &cfg);
    let back = get_timeular_config(&store);
    assert_eq!(back.handler, "timetagger");
    assert_eq!(back.sides.len(), reg.sides.len());
    assert_eq!(back.get_side(&1).unwrap().label, "coding");
    let back_cfg = create_config(&store);
    assert_eq!(back_cfg.timetagger_url, "https://t.example/api/v2/records");
    assert_eq!(back_cfg.api_key, "K");
}
