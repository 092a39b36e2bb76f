use catlog::detect::detect_status;
use catlog::dispatch::classify_line;
use catlog::filter::FilterConfig;

fn defaults() -> FilterConfig {
    FilterConfig::errors_only_default()
}

#[test]
fn no_digit_run_gives_no_code() {
    assert_eq!(detect_status(b"plain text line"), None);
    assert_eq!(detect_status(b""), None);
    assert_eq!(detect_status(b"12 and 3456 and 78"), None);
    assert_eq!(detect_status(b"abc404 x404y 404_"), None);
}

#[test]
fn bounded_404_is_detected() {
    assert_eq!(detect_status(b"GET /x 404 Not Found"), Some(404));
    assert_eq!(detect_status(b"404"), Some(404));
    assert_eq!(detect_status(b"[404]"), Some(404));
    assert_eq!(detect_status(b"status=404;"), Some(404));
}

#[test]
fn four_digit_runs_are_not_codes() {
    assert_eq!(detect_status(b"port 5000 up"), None);
    assert_eq!(detect_status(b"id 14044"), None);
}

#[test]
fn first_status_run_wins() {
    assert_eq!(detect_status(b"500 then 404"), Some(500));
    assert_eq!(detect_status(b"999 then 404"), Some(404));
    assert_eq!(detect_status(b"050 then 201"), Some(201));
}

#[test]
fn success_codes_are_detected() {
    assert_eq!(detect_status(b"ok 200"), Some(200));
    assert_eq!(detect_status(b"moved 301"), Some(301));
    assert_eq!(detect_status(b"range 100 599"), Some(100));
    assert_eq!(detect_status(b"x 600 y"), None);
}

#[test]
fn non_ascii_neighbours_bound_a_run() {
    assert_eq!(detect_status("é503é".as_bytes()), Some(503));
}

#[test]
fn default_policy_errors_only() {
    let c = defaults();
    assert!(c.should_notify(404));
    assert!(c.should_notify(500));
    assert!(c.should_notify(599));
    assert!(c.should_notify(400));
    assert!(!c.should_notify(200));
    assert!(!c.should_notify(399));
    assert!(!c.should_notify(600));
}

#[test]
fn explicit_list_wins_over_match_all() {
    let c = FilterConfig::new(Some(vec![200]), true, true);
    assert!(!c.should_notify(404));
    assert!(c.should_notify(200));
}

#[test]
fn match_all_notifies_every_code() {
    let c = FilterConfig::new(None, true, true);
    assert!(c.should_notify(200));
    assert!(c.should_notify(301));
    assert!(c.should_notify(503));
}

#[test]
fn empty_explicit_list_falls_back() {
    let c = FilterConfig::new(Some(vec![]), false, true);
    assert!(c.should_notify(404));
    assert!(!c.should_notify(200));
    let d = FilterConfig::new(Some(vec![]), true, true);
    assert!(d.should_notify(200));
}

#[test]
fn classify_applies_detector_and_filter() {
    let c = defaults();
    assert_eq!(classify_line(b"GET / 404", &c), Some(404));
    assert_eq!(classify_line(b"ok 200", &c), None);
    assert_eq!(classify_line(b"start", &c), None);
    let e = FilterConfig::new(Some(vec![503]), false, true);
    assert_eq!(classify_line(b"500 here", &e), None);
    assert_eq!(classify_line(b"503 here", &e), Some(503));
}
