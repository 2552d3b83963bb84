use ao_core::activity_log::{
    activity_log_path, check_actionable_state, chrono_like_parse, detect_activity_from_log,
    parse_rfc3339, read_last_activity_entry, tail_offset, ActivityLogEntry, Timestamp,
    ACTIVITY_INPUT_STALENESS_SECS,
};
use ao_core::calendar::{days_from_civil, days_to_ymd};
use ao_core::lines::read_lines;
use ao_core::types::ActivityState;

fn at(secs: u64) -> Timestamp {
    Timestamp { secs, nanos: 0 }
}

fn entry(ts: &str, state: ActivityState, trigger: Option<&str>) -> ActivityLogEntry {
    ActivityLogEntry {
        ts: ts.to_string(),
        state,
        source: "terminal".to_string(),
        trigger: trigger.map(|t| t.to_string()),
    }
}

#[test]
fn actionable_state_respects_staleness() {
    let now = at(1_000_000);
    let fresh = entry(
        &(1_000_000u64 * 1000).to_string(),
        ActivityState::WaitingInput,
        Some("prompt"),
    );
    assert_eq!(check_actionable_state(Some(&fresh), now), Some(ActivityState::WaitingInput));

    let stale = entry(
        &((1_000_000u64 - (ACTIVITY_INPUT_STALENESS_SECS + 1)) * 1000).to_string(),
        ActivityState::Blocked,
        None,
    );
    assert_eq!(check_actionable_state(Some(&stale), now), None);
}

#[test]
fn parse_numeric_ms_still_works() {
    let got = chrono_like_parse("1700000000000").unwrap();
    assert_eq!(got, at(1_700_000_000));
    assert_eq!(got.secs * 1000 + u64::from(got.nanos) / 1_000_000, 1_700_000_000_000);
}

#[test]
fn parse_rfc3339_utc_z() {
    assert_eq!(chrono_like_parse("2024-01-15T10:30:00Z").unwrap(), at(1_705_314_600));
}

#[test]
fn parse_rfc3339_with_milliseconds() {
    assert_eq!(
        chrono_like_parse("2024-01-15T10:30:00.123Z").unwrap(),
        Timestamp { secs: 1_705_314_600, nanos: 123_000_000 }
    );
}

#[test]
fn parse_rfc3339_with_positive_offset() {
    assert_eq!(chrono_like_parse("2024-01-15T10:30:00+02:00").unwrap(), at(1_705_307_400));
}

#[test]
fn parse_rfc3339_with_negative_offset_and_micros() {
    assert_eq!(
        chrono_like_parse("2024-01-15T10:30:00.500000-05:00").unwrap(),
        Timestamp { secs: 1_705_332_600, nanos: 500_000_000 }
    );
}

#[test]
fn parse_rfc3339_lowercase_t_and_z() {
    assert_eq!(chrono_like_parse("2024-01-15t10:30:00z").unwrap(), at(1_705_314_600));
}

#[test]
fn parse_rejects_malformed() {
    assert!(chrono_like_parse("").is_none());
    assert!(chrono_like_parse("not-a-date").is_none());
    assert!(chrono_like_parse("2024-01-15T10:30:00").is_none());
    assert!(chrono_like_parse("2024/01/15T10:30:00Z").is_none());
    assert!(chrono_like_parse("2024-13-15T10:30:00Z").is_none());
    assert!(chrono_like_parse("2024-01-15T10:30:00.abcZ").is_none());
}

#[test]
fn actionable_state_respects_staleness_rfc3339() {
    let now = at(1_705_314_600);
    let fresh = entry("2024-01-15T10:30:00Z", ActivityState::WaitingInput, Some("prompt"));
    assert_eq!(check_actionable_state(Some(&fresh), now), Some(ActivityState::WaitingInput));
    let stale = entry("2024-01-15T10:20:00Z", ActivityState::Blocked, None);
    assert_eq!(check_actionable_state(Some(&stale), now), None);
}

#[test]
fn detect_from_log_missing_returns_none() {
    assert!(detect_activity_from_log(&vec![], at(5)).is_none());
}

#[test]
fn detect_from_log_exited_always_wins() {
    let log = vec![Some(entry("0", ActivityState::Exited, None))];
    assert_eq!(detect_activity_from_log(&log, at(1_700_000_000)), Some(ActivityState::Exited));
}

#[test]
fn detect_from_log_fresh_waiting_input_surfaces() {
    let log = vec![Some(entry("1700000000000", ActivityState::WaitingInput, Some("approve?")))];
    assert_eq!(
        detect_activity_from_log(&log, at(1_700_000_000)),
        Some(ActivityState::WaitingInput)
    );
}

#[test]
fn detect_from_log_fresh_blocked_surfaces() {
    let log = vec![Some(entry("1700000000000", ActivityState::Blocked, Some("error")))];
    assert_eq!(detect_activity_from_log(&log, at(1_700_000_000)), Some(ActivityState::Blocked));
}

#[test]
fn detect_from_log_stale_actionable_falls_through() {
    let now: u64 = 1_700_000_000;
    let stale = (now - (ACTIVITY_INPUT_STALENESS_SECS + 60)) * 1000;
    let log = vec![Some(entry(&stale.to_string(), ActivityState::WaitingInput, None))];
    assert!(detect_activity_from_log(&log, at(now)).is_none());
}

#[test]
fn detect_from_log_ignores_active_and_ready() {
    let log = vec![Some(entry("1700000000000", ActivityState::Active, None))];
    assert!(detect_activity_from_log(&log, at(1_700_000_000)).is_none());
    let log = vec![Some(entry("1700000000000", ActivityState::Ready, None))];
    assert!(detect_activity_from_log(&log, at(1_700_000_000)).is_none());
}

#[test]
fn detect_from_log_uses_last_entry() {
    let log = vec![
        Some(entry("1700000000000", ActivityState::Blocked, None)),
        Some(entry("1700000000000", ActivityState::Active, None)),
    ];
    assert!(detect_activity_from_log(&log, at(1_700_000_000)).is_none());
}

#[test]
fn lines_that_are_no_entries_count_for_nothing() {
    let blocked = entry("1700000000000", ActivityState::Blocked, None);
    let log = vec![None, Some(blocked.clone()), None];
    assert_eq!(read_last_activity_entry(&log), Some(blocked));
    assert_eq!(detect_activity_from_log(&log, at(1_700_000_000)), Some(ActivityState::Blocked));
    assert_eq!(read_last_activity_entry(&vec![None, None]), None);
}

#[test]
fn a_request_is_heard_for_five_minutes_to_the_second() {
    let e = entry("1700000000000", ActivityState::Blocked, None);
    let heard = |secs: u64, nanos: u32| {
        check_actionable_state(Some(&e), Timestamp { secs, nanos })
    };
    assert_eq!(heard(1_700_000_300, 999_999_999), Some(ActivityState::Blocked));
    assert_eq!(heard(1_700_000_301, 0), None);
    assert_eq!(heard(1_699_999_999, 999_999_999), None);
    assert_eq!(check_actionable_state(None, at(0)), None);
}

#[test]
fn dates_are_read_as_they_stand() {
    assert_eq!(
        chrono_like_parse("2024-01-15 10:30:00.000000001+0530").unwrap(),
        Timestamp { secs: 1_705_294_800, nanos: 1 }
    );
    // A leap second, and a day that counts on into the next month.
    assert_eq!(chrono_like_parse("1970-01-01T00:00:60Z").unwrap(), at(60));
    assert_eq!(chrono_like_parse("2023-02-30T00:00:00Z"), chrono_like_parse("2023-03-02T00:00:00Z"));
    assert_eq!(chrono_like_parse("2024-01-15T10:30:00+00:00").unwrap(), at(1_705_314_600));
    assert!(chrono_like_parse("2024-01-15T10:30:00+-0:00").is_none());
    assert!(chrono_like_parse("1969-12-31T23:59:59Z").is_none());
    assert!(chrono_like_parse("-001-01-01T00:00:00Z").is_none());
    assert!(chrono_like_parse("2024-01-15T10:30:00.1234567890Z").is_none());
    assert!(chrono_like_parse("2024-01-15T10:30:00.Z").is_none());
    assert!(chrono_like_parse("2024-01-15T10:30:00+24:00").is_none());
    assert!(chrono_like_parse("2024-01-15T10:30:00+02:0").is_none());
    assert!(chrono_like_parse("2024-01-15T10:30:00 Z").is_none());
    assert!(chrono_like_parse("2024-01-15T10:30:0\u{e9}Z").is_none());
}

#[test]
fn milliseconds_beyond_64_bits_wrap() {
    // 2^64 + 5000.
    assert_eq!(chrono_like_parse("18446744073709556616").unwrap(), at(5));
    assert_eq!(chrono_like_parse("+5000").unwrap(), at(5));
}

#[test]
fn days_and_dates_are_inverse() {
    for days in [0u64, 58, 59, 60, 789, 10_956, 10_957, 11_016, 11_017, 47_540, 146_096, 146_097] {
        let (y, m, d) = days_to_ymd(days);
        assert_eq!(days_from_civil(y as i32, m as u32, d as u32), days as i64);
    }
    assert_eq!(days_to_ymd(11_016), (2000, 2, 29));
    assert_eq!(days_to_ymd(47_540), (2100, 2, 28));
    assert_eq!(days_to_ymd(47_541), (2100, 3, 1));
    assert_eq!(days_from_civil(0, 3, 1), -719_468);
    assert_eq!(days_from_civil(-1, 12, 31), -719_529);
    assert_eq!(days_from_civil(1970, 1, 1), 0);
}

#[test]
fn activity_log_is_in_the_worktree() {
    assert_eq!(activity_log_path("/tmp/ws"), "/tmp/ws/.ao/activity.jsonl");
    assert_eq!(tail_offset(4096), 0);
    assert_eq!(tail_offset(5000), 904);
}

#[test]
fn lines_are_cut_cleaned_and_stop_at_damage() {
    let text = b"half a line\n{\"a\":1}\r\n  \n\nlast".to_vec();
    assert_eq!(read_lines(&text, true), vec!["{\"a\":1}", "last"]);
    assert_eq!(read_lines(&text, false), vec!["half a line", "{\"a\":1}", "last"]);
    let mut damaged = b"one\n".to_vec();
    damaged.push(0xff);
    damaged.extend_from_slice(b"\nthree\n");
    assert_eq!(read_lines(&damaged, false), vec!["one"]);
    // What is left of a line that was cut off does not have to be readable.
    let mut cut = vec![0x82u8, 0xac];
    cut.extend_from_slice("x\n\u{20ac}\n".as_bytes());
    assert_eq!(read_lines(&cut, true), vec!["\u{20ac}"]);
    assert!(read_lines(&cut, false).is_empty());
    assert!(read_lines(&b"no end".to_vec(), true).is_empty());
    // Only the end of a line is stripped of its carriage return.
    assert_eq!(read_lines(&b"a\r".to_vec(), false), vec!["a\r"]);
}

#[test]
fn fields_are_digits_only() {
    for bad in [
        "2024-+1-15T10:30:00Z",
        "+024-01-15T10:30:00Z",
        "-024-01-15T10:30:00Z",
        "2024-01-+5T10:30:00Z",
        "2024-01-15T+1:30:00Z",
        "2024-01-15T10:+3:00Z",
        "2024-01-15T10:30:+0Z",
        "2024-01-15T10:30:00++1:00",
        "2024-01-15T10:30:00+01:+0",
        "2024-01-15T10:30:00--100",
    ] {
        assert!(parse_rfc3339(bad).is_none(), "{bad}");
    }
}

#[test]
fn zones_shift_times() {
    let at = |zone: &str| parse_rfc3339(&format!("2024-01-15T10:30:00.25{zone}"));
    let utc = at("Z").unwrap();
    assert_eq!(at("z"), Some(utc));
    for zone in ["-01:30", "-0130"] {
        assert_eq!(at(zone), Some(Timestamp { secs: utc.secs + 5400, nanos: utc.nanos }));
    }
    for zone in ["+01:30", "+0130"] {
        assert_eq!(at(zone), Some(Timestamp { secs: utc.secs - 5400, nanos: utc.nanos }));
    }
    assert_eq!(parse_rfc3339("1970-01-01T00:30:00+01:00"), None);
}

#[test]
fn an_added_line_is_read_last() {
    for before in [0usize, 1, 50, 4095, 4096, 5000, 9000] {
        for len in [1usize, 100, 4094] {
            let mut log: Vec<u8> = vec![];
            while log.len() < before {
                log.extend_from_slice("x\u{20ac}y\n".as_bytes());
            }
            let line = "z".repeat(len);
            log.extend_from_slice(format!("{line}\n").as_bytes());
            let from = tail_offset(log.len() as u64) as usize;
            let lines = read_lines(&log[from..].to_vec(), from > 0);
            assert_eq!(lines.last(), Some(&line), "{before} {len}");
        }
    }
}
