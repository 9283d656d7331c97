//! FAT datetime conversion tests.

use libfat::datetime::FatDateTime;

#[test]
fn epoch_of_century_start() {
    let dt = FatDateTime::new(2000, 1, 1, 0, 0, 0, 0);
    assert_eq!(dt.to_unix_time(), 946_684_800);
}

#[test]
fn leap_year_date() {
    // 2020-03-01T12:30:45Z, the day after the leap day.
    let dt = FatDateTime::new(2020, 3, 1, 12, 30, 45, 0);
    assert_eq!(dt.to_unix_time(), 1_583_065_845);
}

#[test]
fn non_leap_year_date() {
    // 2001-03-01T00:00:00Z.
    let dt = FatDateTime::new(2001, 3, 1, 0, 0, 0, 0);
    assert_eq!(dt.to_unix_time(), 983_404_800);
}

#[test]
fn leap_day_itself() {
    // 2004-02-29T23:59:59Z.
    let dt = FatDateTime::new(2004, 2, 29, 23, 59, 59, 0);
    assert_eq!(dt.to_unix_time(), 1_078_099_199);
}

#[test]
fn end_of_supported_range() {
    // 2099-12-31T23:59:59Z.
    let dt = FatDateTime::new(2099, 12, 31, 23, 59, 59, 0);
    assert_eq!(dt.to_unix_time(), 4_102_444_799);
}

#[test]
fn out_of_range_years_yield_epoch() {
    assert_eq!(FatDateTime::new(1999, 12, 31, 23, 59, 59, 0).to_unix_time(), 0);
    assert_eq!(FatDateTime::new(2100, 1, 1, 0, 0, 0, 0).to_unix_time(), 0);
}
