use winfetch::clock::{boot_time, elapsed_minutes, minutes_since_boot};
use winfetch::facts::CollectError;

/// 2024-01-15 08:30:45 in seconds since 1970.
const BOOT: i64 = 1705307445;

#[test]
fn boot_time_in_seconds_since_1970() {
    assert_eq!(boot_time("20240115083045.500000+060"), Ok(BOOT));
    assert_eq!(boot_time("20200101000000.000000+000"), Ok(1577836800));
    assert_eq!(boot_time("19700101000000.000000+000"), Ok(0));
    assert_eq!(boot_time("19691231235900.000000+000"), Ok(-60));
    assert_eq!(boot_time("99990101000000.000000+000"), Ok(253370764800));
}

#[test]
fn fraction_of_a_second_is_left_out() {
    assert_eq!(boot_time("20240115083045.999999+060"), Ok(BOOT));
    assert_eq!(boot_time("20240115083045.000000+060"), Ok(BOOT));
    assert_eq!(boot_time("20240115083045+060"), Ok(BOOT));
}

#[test]
fn offset_suffix_is_not_read() {
    assert_eq!(boot_time("20240115083045.500000-720"), Ok(BOOT));
    assert_eq!(boot_time("20240115083045.500000abcd"), Ok(BOOT));
}

#[test]
fn suffix_of_one_wide_character_is_cut_off() {
    assert_eq!(boot_time("20240115083045.500000\u{1f600}"), Ok(BOOT));
}

#[test]
fn stamp_that_is_no_time_is_malformed() {
    for stamp in [
        "garbage",
        "20200101000000.000000",
        "20201301000000.000000+000",
        "20200101250000.000000+000",
        "2020-01-01 00:00:00+000",
        "+000",
    ] {
        assert_eq!(boot_time(stamp), Err(CollectError::MalformedValue), "{:?}", stamp);
        assert_eq!(
            minutes_since_boot(stamp, BOOT),
            Err(CollectError::MalformedValue),
            "{:?}",
            stamp
        );
    }
}

#[test]
fn stamp_too_short_for_its_suffix_is_malformed() {
    for stamp in ["", "1", "123"] {
        assert_eq!(boot_time(stamp), Err(CollectError::MalformedValue));
    }
}

#[test]
fn stamp_cut_inside_a_character_is_malformed() {
    assert_eq!(
        boot_time("20200101000000.00000\u{20ac}bcd"),
        Err(CollectError::MalformedValue)
    );
}

#[test]
fn minutes_are_whole_and_round_towards_zero() {
    assert_eq!(elapsed_minutes(0, 0), 0);
    assert_eq!(elapsed_minutes(0, 59), 0);
    assert_eq!(elapsed_minutes(0, 60), 1);
    assert_eq!(elapsed_minutes(0, 119), 1);
    assert_eq!(elapsed_minutes(100, 100 + 97440), 1624);
    assert_eq!(elapsed_minutes(0, -59), 0);
    assert_eq!(elapsed_minutes(0, -60), -1);
    assert_eq!(elapsed_minutes(60, 0), -1);
    assert_eq!(elapsed_minutes(119, 0), -1);
}

#[test]
fn minutes_between_the_farthest_readings() {
    assert_eq!(elapsed_minutes(i64::MIN, i64::MAX), 307445734561825860);
    assert_eq!(elapsed_minutes(i64::MAX, i64::MIN), -307445734561825860);
    assert_eq!(elapsed_minutes(i64::MIN, i64::MIN), 0);
    assert_eq!(elapsed_minutes(0, i64::MAX), i64::MAX / 60);
    assert_eq!(elapsed_minutes(0, i64::MIN), i64::MIN / 60);
}

#[test]
fn minutes_since_the_boot() {
    let stamp = "20240115083045.500000+060";
    assert_eq!(minutes_since_boot(stamp, BOOT), Ok(0));
    assert_eq!(minutes_since_boot(stamp, BOOT + 59), Ok(0));
    assert_eq!(minutes_since_boot(stamp, BOOT + 60), Ok(1));
    assert_eq!(minutes_since_boot(stamp, BOOT + 27 * 3600 + 4 * 60), Ok(1624));
    assert_eq!(minutes_since_boot(stamp, BOOT + 86400 * 365), Ok(525600));
}

#[test]
fn minutes_to_a_boot_yet_to_come_are_negative() {
    let stamp = "20240115083045.500000+060";
    assert_eq!(minutes_since_boot(stamp, BOOT - 1), Ok(0));
    assert_eq!(minutes_since_boot(stamp, BOOT - 60), Ok(-1));
    assert_eq!(minutes_since_boot(stamp, 0), Ok(-28421790));
}
