use audion::clock::{format_stamp, LocalTime};

fn at(year: i32, month: u32, day: u32, hour: u32, minute: u32, second: u32) -> LocalTime {
    LocalTime { year, month, day, hour, minute, second }
}

#[test]
fn stamp_pads_every_field() {
    assert_eq!(format_stamp(&at(2024, 3, 5, 7, 8, 9)), "[2024-03-05 07:08:09]");
}

#[test]
fn stamp_of_last_second_of_year() {
    assert_eq!(format_stamp(&at(1999, 12, 31, 23, 59, 59)), "[1999-12-31 23:59:59]");
}

#[test]
fn stamp_pads_small_years() {
    assert_eq!(format_stamp(&at(5, 1, 1, 0, 0, 0)), "[0005-01-01 00:00:00]");
}

#[test]
fn stamp_signs_years_outside_four_digits() {
    assert_eq!(format_stamp(&at(12345, 6, 7, 1, 2, 3)), "[+12345-06-07 01:02:03]");
    assert_eq!(format_stamp(&at(-1, 6, 7, 1, 2, 3)), "[-0001-06-07 01:02:03]");
    assert_eq!(format_stamp(&at(-20000, 6, 7, 1, 2, 3)), "[-20000-06-07 01:02:03]");
}
