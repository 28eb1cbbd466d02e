use launchd_core::get_service_pid;
use launchd_core::is_service_loaded;
use launchd_core::parse_i32;

#[test]
fn pid_read_from_matching_line() {
    let listing = b"1234  0  com.example.foo";
    assert_eq!(get_service_pid(listing, b"com.example.foo"), Some(1234));
}

#[test]
fn pid_searched_across_lines() {
    let listing = b"PID\tStatus\tLabel\n77\t0\tcom.other\n1234\t0\tcom.example.foo\n-\t0\tcom.idle\n";
    assert_eq!(get_service_pid(listing, b"com.example.foo"), Some(1234));
    assert_eq!(get_service_pid(listing, b"com.absent"), None);
}

#[test]
fn first_matching_line_decides() {
    // The first line whose third column is the label decides, even when
    // its pid column does not parse.
    let listing = b"-\t0\tcom.example.foo\n99\t0\tcom.example.foo\n";
    assert_eq!(get_service_pid(listing, b"com.example.foo"), None);
}

#[test]
fn short_lines_do_not_match() {
    let listing = b"1234  com.example.foo\n";
    assert_eq!(get_service_pid(listing, b"com.example.foo"), None);
}

#[test]
fn empty_listing_has_no_pid() {
    assert_eq!(get_service_pid(b"", b"com.example.foo"), None);
}

#[test]
fn crlf_line_endings_are_stripped() {
    let listing = b"1234\t0\tcom.example.foo\r\n";
    assert_eq!(get_service_pid(listing, b"com.example.foo"), Some(1234));
}

#[test]
fn parse_i32_reads_decimals() {
    assert_eq!(parse_i32(b"1234"), Some(1234));
    assert_eq!(parse_i32(b"0"), Some(0));
    assert_eq!(parse_i32(b"+7"), Some(7));
    assert_eq!(parse_i32(b"-5"), Some(-5));
    assert_eq!(parse_i32(b"2147483647"), Some(2147483647));
    assert_eq!(parse_i32(b"-2147483648"), Some(-2147483648));
}

#[test]
fn parse_i32_rejects_malformed_and_overflowing() {
    assert_eq!(parse_i32(b""), None);
    assert_eq!(parse_i32(b"-"), None);
    assert_eq!(parse_i32(b"+"), None);
    assert_eq!(parse_i32(b"12a"), None);
    assert_eq!(parse_i32(b" 12"), None);
    assert_eq!(parse_i32(b"2147483648"), None);
    assert_eq!(parse_i32(b"-2147483649"), None);
    assert_eq!(parse_i32(b"99999999999999999999"), None);
}

#[test]
fn failed_queries_read_as_not_loaded() {
    assert!(is_service_loaded(&Some(true)));
    assert!(!is_service_loaded(&Some(false)));
    assert!(!is_service_loaded(&None));
}
