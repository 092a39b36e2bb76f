use catlog::codes::parse_status_list;

#[test]
fn list_with_spaces() {
    assert_eq!(parse_status_list(b"404, 500,503"), vec![404, 500, 503]);
    assert_eq!(parse_status_list(b" 404 \t"), vec![404]);
}

#[test]
fn unreadable_fields_are_skipped() {
    assert_eq!(parse_status_list(b"abc,200"), vec![200]);
    assert_eq!(parse_status_list(b"4 04,,x1,1x"), Vec::<u16>::new());
    assert_eq!(parse_status_list(b""), Vec::<u16>::new());
    assert_eq!(parse_status_list(b"+"), Vec::<u16>::new());
    assert_eq!(parse_status_list(b"-5,7"), vec![7]);
}

#[test]
fn plus_sign_and_u16_bounds() {
    assert_eq!(parse_status_list(b"+301"), vec![301]);
    assert_eq!(parse_status_list(b"65535,65536,0,007"), vec![65535, 0, 7]);
    assert_eq!(parse_status_list(b"99999999999"), Vec::<u16>::new());
}
