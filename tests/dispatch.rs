use timeular_tracker::dispatch::{
    assemble_record, create_dispatcher, frame_record, generate_key, trim_trailing_slashes, Dispatcher, Timetagger,
};
use timeular_tracker::registry::Side;
use timeular_tracker::timetagger::{Setting, TimetaggerConfig};
use timeular_tracker::tracker::Interval;

fn coding_interval() -> Interval {
    Interval {
        side: Side { side_num: 1, label: "coding".to_string(), configurable: true },
        start: 1_700_000_000,
        end: 1_700_000_060,
    }
}

fn config() -> TimetaggerConfig {
    TimetaggerConfig {
        timetagger_url: "https://t.example/api/v2/records/".to_string(),
        api_key: "K".to_string(),
    }
}

fn is_key(k: &str) -> bool {
    k.chars().count() == 8 && k.chars().all(|c| c.is_ascii_alphanumeric())
}

#[test]
fn generated_keys_are_eight_alphanumerics() {
    for _ in 0..50 {
        let k = generate_key();
        assert!(is_key(&k), "bad key {k}");
    }
}

#[test]
fn remote_dispatch_builds_record_request() {
    let d = create_dispatcher("timetagger", config());
    assert!(matches!(d, Dispatcher::Remote(_)));
    let req = d.dispatch(&coding_interval(), 1_700_000_100).unwrap();
    assert_eq!(req.url, "https://t.example/api/v2/records");
    assert_eq!(req.auth_token, "K");
    let v: serde_json::Value = serde_json::from_str(&req.body).unwrap();
    let arr = v.as_array().unwrap();
    assert_eq!(arr.len(), 1);
    let rec = &arr[0];
    assert_eq!(rec["t1"].as_i64(), Some(1_700_000_000));
    assert_eq!(rec["t2"].as_i64(), Some(1_700_000_060));
    assert_eq!(rec["mt"].as_i64(), Some(1_700_000_100));
    assert_eq!(rec["ds"].as_str(), Some("coding"));
    assert_eq!(rec["st"].as_f64(), Some(0.0));
    assert!(is_key(rec["key"].as_str().unwrap()));
}

#[test]
fn request_for_uses_given_key() {
    let t = Timetagger { config: config() };
    let req = t.request_for(&coding_interval(), "abcD1234", 5);
    assert_eq!(
        req.body,
        "[{\"key\":\"abcD1234\",\"mt\":5,\"t1\":1700000000,\"t2\":1700000060,\"ds\":\"coding\",\"st\":0.0}]"
    );
}

#[test]
fn frame_record_escapes_label_and_writes_negatives() {
    let body = frame_record("k", -12, 0, 7, "a \"b\"\n");
    assert_eq!(
        body,
        "[{\"key\":\"k\",\"mt\":-12,\"t1\":0,\"t2\":7,\"ds\":\"a \\\"b\\\"\\n\",\"st\":0.0}]"
    );
}

#[test]
fn zero_duration_interval_is_dispatched() {
    let d = create_dispatcher("timetagger", config());
    let mut iv = coding_interval();
    iv.end = iv.start;
    let req = d.dispatch(&iv, 1).unwrap();
    let v: serde_json::Value = serde_json::from_str(&req.body).unwrap();
    assert_eq!(v[0]["t1"], v[0]["t2"]);
}

#[test]
fn trailing_slashes_are_trimmed() {
    assert_eq!(trim_trailing_slashes("https://a/b//"), "https://a/b");
    assert_eq!(trim_trailing_slashes("https://a/b"), "https://a/b");
    assert_eq!(trim_trailing_slashes("///"), "");
    assert_eq!(trim_trailing_slashes(""), "");
}

#[test]
fn debug_dispatcher_when_unconfigured_or_not_selected() {
    let empty_key = TimetaggerConfig { timetagger_url: "https://x".to_string(), api_key: String::new() };
    assert!(matches!(create_dispatcher("timetagger", empty_key), Dispatcher::Debug));
    let empty_url = TimetaggerConfig { timetagger_url: String::new(), api_key: "K".to_string() };
    assert!(matches!(create_dispatcher("timetagger", empty_url), Dispatcher::Debug));
    assert!(matches!(create_dispatcher("", config()), Dispatcher::Debug));
    let d = create_dispatcher("", config());
    assert!(d.dispatch(&coding_interval(), 0).is_none());
}

#[test]
fn setup_prompts_and_answers() {
    let mut cfg = TimetaggerConfig::default();
    assert!(cfg.should_prompt(Setting::ApiKey, false));
    assert_eq!(cfg.prompt_message(Setting::ApiKey), "Provide your Timetagger api_key\n leave blank to skip");
    assert!(!cfg.apply_answer(Setting::ApiKey, "   \n"));
    assert_eq!(cfg.api_key, "");
    assert!(cfg.apply_answer(Setting::ApiKey, "  secret \n"));
    assert_eq!(cfg.api_key, "secret");
    assert!(!cfg.should_prompt(Setting::ApiKey, false));
    assert!(cfg.should_prompt(Setting::ApiKey, true));
    assert_eq!(cfg.prompt_message(Setting::ApiKey), "Provide your Timetagger api_key");
    assert_eq!(cfg.prompt_message(Setting::Url), "Provide your Timetagger URL\n leave blank to skip");
    assert!(cfg.apply_answer(Setting::Url, "https://t.example/\n"));
    assert_eq!(cfg.timetagger_url, "https://t.example/");
    assert_eq!(cfg.api_key, "secret");
    assert!(cfg.is_configured());
}

#[test]
fn assemble_record_takes_json_texts_verbatim() {
    let body = assemble_record("\"Ab3\"", 1730093369, -1, 9223372036854775807, "\"x\"");
    assert_eq!(
        body,
        "[{\"key\":\"Ab3\",\"mt\":1730093369,\"t1\":-1,\"t2\":9223372036854775807,\"ds\":\"x\",\"st\":0.0}]"
    );
    let min = assemble_record("k", i64::MIN, 0, 0, "d");
    assert!(min.contains("\"mt\":-9223372036854775808,"));
}

#[test]
fn apply_trimmed_keeps_value_as_given() {
    let mut cfg = TimetaggerConfig::default();
    assert!(!cfg.apply_trimmed(Setting::Url, String::new()));
    assert_eq!(cfg.timetagger_url, "");
    assert!(cfg.apply_trimmed(Setting::Url, " u ".to_string()));
    assert_eq!(cfg.timetagger_url, " u ");
    assert_eq!(cfg.api_key, "");
}
