use pump_decode::time::format_timestamp_human;

#[test]
fn timestamps_render_in_utc() {
    assert_eq!(format_timestamp_human(0), "1970-01-01 00:00:00");
    assert_eq!(format_timestamp_human(1431648000), "2015-05-15 00:00:00");
    assert_eq!(format_timestamp_human(1700000000), "2023-11-14 22:13:20");
    assert_eq!(format_timestamp_human(-1), "1969-12-31 23:59:59");
}

#[test]
fn the_range_chrono_represents_is_the_stated_one() {
    let min: i64 = -8334601228800;
    let max: i64 = 8210266876799;
    assert!(chrono::DateTime::from_timestamp(min, 0).is_some());
    assert!(chrono::DateTime::from_timestamp(max, 0).is_some());
    assert!(chrono::DateTime::from_timestamp(min - 1, 0).is_none());
    assert!(chrono::DateTime::from_timestamp(max + 1, 0).is_none());
    assert_eq!(format_timestamp_human(min), "-262143-01-01 00:00:00");
    assert_eq!(format_timestamp_human(max), "+262142-12-31 23:59:59");
}
