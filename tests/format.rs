use avance::format as fmt;

#[test]
fn format_time() {
    assert_eq!(fmt::format_time(45), "00:45");
    assert_eq!(fmt::format_time(30 * 60), "30:00");
    assert_eq!(fmt::format_time(12 * 60 * 60), "12:00:00");
}

#[test]
fn format_sizeof() {
    assert_eq!(fmt::format_sizeof(10), "10.0");
    assert_eq!(fmt::format_sizeof(1_234), "1.23k");
    assert_eq!(fmt::format_sizeof(12_345), "12.3k");
    assert_eq!(fmt::format_sizeof(1_234_000), "1.23M");
    assert_eq!(fmt::format_sizeof(999_000_000), "999M");
    assert_eq!(fmt::format_sizeof(999_999_000), "1.00G");
}

#[test]
fn format_time_edges() {
    assert_eq!(fmt::format_time(0), "00:00");
    assert_eq!(fmt::format_time(59), "00:59");
    assert_eq!(fmt::format_time(3599), "59:59");
    assert_eq!(fmt::format_time(3600), "01:00:00");
    assert_eq!(fmt::format_time(3661), "01:01:01");
    assert_eq!(fmt::format_time(360_000), "100:00:00");
}

#[test]
fn format_sizeof_thresholds() {
    assert_eq!(fmt::format_sizeof(0), "0.00");
    assert_eq!(fmt::format_sizeof(7), "7.00");
    assert_eq!(fmt::format_sizeof(999), "999");
    assert_eq!(fmt::format_sizeof(1000), "1.00k");
    assert_eq!(fmt::format_sizeof(9_994), "9.99k");
    assert_eq!(fmt::format_sizeof(9_995), "10.0k");
    assert_eq!(fmt::format_sizeof(99_949), "99.9k");
    assert_eq!(fmt::format_sizeof(99_950), "100k");
    assert_eq!(fmt::format_sizeof(999_499), "999k");
    assert_eq!(fmt::format_sizeof(999_500), "1.00M");
    assert_eq!(fmt::format_sizeof(u64::MAX), "18.4E");
}
