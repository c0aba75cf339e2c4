use diydetect::model::{build_process_snapshot, snapshot_at};
use diydetect::sensors::SensorConfig;
use diydetect::time::{current_time, stamp_of, Timestamp};

fn at(secs: i64, nanos: u32) -> Timestamp {
    Timestamp { secs, nanos }
}

#[test]
fn stamps_of_known_times() {
    assert_eq!(stamp_of(at(0, 0)), "19700101-000000");
    assert_eq!(stamp_of(at(1_700_000_000, 5)), "20231114-221320");
    assert_eq!(stamp_of(at(951_782_400, 0)), "20000229-000000");
    assert_eq!(stamp_of(at(-1, 999_999_999)), "19691231-235959");
}

#[test]
fn stamps_at_the_edges_of_four_digit_years() {
    assert_eq!(stamp_of(at(-62_167_219_200, 0)), "00000101-000000");
    assert_eq!(stamp_of(at(-62_167_219_201, 0)), "-00011231-235959");
    assert_eq!(stamp_of(at(253_402_300_799, 0)), "99991231-235959");
    assert_eq!(stamp_of(at(253_402_300_800, 0)), "+100000101-000000");
}

#[test]
fn stamps_at_the_edges_of_the_calendar() {
    assert_eq!(stamp_of(at(-8_334_601_228_800, 0)), "-2621430101-000000");
    assert_eq!(stamp_of(at(8_210_266_876_799, 0)), "+2621421231-235959");
}

#[test]
fn leap_seconds_are_the_sixtieth() {
    assert_eq!(stamp_of(at(1_483_228_799, 1_500_000_000)), "20161231-235960");
    assert_eq!(stamp_of(at(1_483_228_799, 500_000_000)), "20161231-235959");
    assert_eq!(stamp_of(at(1_483_228_800, 0)), "20170101-000000");
}

#[test]
fn times_beyond_the_calendar_are_told() {
    assert!(at(0, 0).is_valid());
    assert!(at(-8_334_601_228_800, 0).is_valid());
    assert!(!at(-8_334_601_228_801, 0).is_valid());
    assert!(at(8_210_266_876_799, 0).is_valid());
    assert!(!at(8_210_266_876_800, 0).is_valid());
    assert!(at(59, 1_999_999_999).is_valid());
    assert!(!at(59, 2_000_000_000).is_valid());
    assert!(!at(58, 1_000_000_000).is_valid());
    assert!(at(-1, 1_000_000_000).is_valid());
}

#[test]
fn the_clock_is_past_the_first_release() {
    let t = current_time();
    assert!(t.is_valid());
    assert!(t.secs > 1_600_000_000);
    assert!(t.nanos < 1_000_000_000);
}

#[test]
fn snapshots_carry_host_and_time() {
    let s = snapshot_at("lab".to_string(), at(7, 8), vec![]);
    assert_eq!(s.host_id, "lab");
    assert_eq!(s.collected_at, at(7, 8));
    assert!(s.processes.is_empty());
    let now = build_process_snapshot(&SensorConfig { duration_secs: 60 }, "lab".to_string(), vec![]);
    assert_eq!(now.host_id, "lab");
    assert!(now.collected_at.secs > 1_600_000_000);
    assert!(now.processes.is_empty());
}
