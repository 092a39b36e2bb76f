use catlog::dispatch::{Dispatcher, Notification, Phase};
use catlog::filter::FilterConfig;

fn run(d: &mut Dispatcher, lines: &[&str]) -> (Vec<String>, Vec<u16>) {
    let mut echoed = Vec::new();
    let mut codes = Vec::new();
    for l in lines {
        if let Some(a) = d.on_line(l.as_bytes().to_vec()) {
            echoed.push(String::from_utf8(a.echo).unwrap());
            if let Some(n) = a.notify {
                codes.push(n.code);
            }
        }
    }
    (echoed, codes)
}

#[test]
fn default_config_end_to_end() {
    let mut d = Dispatcher::new(FilterConfig::errors_only_default(), true);
    d.start();
    let (echoed, codes) = run(&mut d, &["start", "error 500 occurred", "ok 200"]);
    assert_eq!(echoed, vec!["start", "error 500 occurred", "ok 200"]);
    assert_eq!(codes, vec![500]);
}

#[test]
fn explicit_code_end_to_end() {
    let mut d = Dispatcher::new(FilterConfig::new(Some(vec![503]), false, true), true);
    let (echoed, codes) = run(&mut d, &["500 here", "503 here"]);
    assert_eq!(echoed, vec!["500 here", "503 here"]);
    assert_eq!(codes, vec![503]);
}

#[test]
fn failed_notification_does_not_stop_next_line() {
    let mut d = Dispatcher::new(FilterConfig::errors_only_default(), false);
    d.start();
    let a = d.on_line(b"fail 502".to_vec()).unwrap();
    assert_eq!(a.notify, Some(Notification { code: 502, fetch_image: false }));
    d.on_notification(false);
    assert_eq!(d.failed_notifications(), 1);
    assert_eq!(d.phase(), Phase::Reading);
    let b = d.on_line(b"next 404".to_vec()).unwrap();
    assert_eq!(b.echo, b"next 404".to_vec());
    assert_eq!(b.notify, Some(Notification { code: 404, fetch_image: false }));
    d.on_notification(true);
    assert_eq!(d.failed_notifications(), 1);
}

#[test]
fn phases_run_idle_reading_closed() {
    let mut d = Dispatcher::new(FilterConfig::errors_only_default(), true);
    assert_eq!(d.phase(), Phase::Idle);
    d.start();
    assert_eq!(d.phase(), Phase::Reading);
    d.close();
    assert_eq!(d.phase(), Phase::Closed);
    assert!(d.on_line(b"404".to_vec()).is_none());
    d.start();
    assert_eq!(d.phase(), Phase::Closed);
}

#[test]
fn line_before_start_begins_reading() {
    let mut d = Dispatcher::new(FilterConfig::new(None, true, true), true);
    let a = d.on_line(b"ok 200".to_vec()).unwrap();
    assert_eq!(a.notify, Some(Notification { code: 200, fetch_image: true }));
    assert_eq!(d.phase(), Phase::Reading);
}
