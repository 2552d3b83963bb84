use ao_core::calendar::days_to_ymd;
use ao_core::cost_ledger::{
    ledger_dir, ledger_path_for, record_cost, time_from_epoch_secs, CostEntry, CostLedger,
};
use ao_core::cost_log::{parse_usage_jsonl, usage_log_path, UsageLogEntry};
use ao_core::lines::read_lines;
use ao_core::types::CostEstimate;

fn cost(input: u64, output: u64, read: u64, creation: u64, usd: f64) -> CostEstimate {
    CostEstimate {
        input_tokens: input,
        output_tokens: output,
        cache_read_tokens: read,
        cache_creation_tokens: creation,
        cost_usd_bits: Some(usd.to_bits()),
    }
}

#[test]
fn ledger_path_month_rotation() {
    let ts = 1_776_124_800_000u64;
    let p = ledger_path_for("/home/me", ts);
    assert!(p.ends_with("2026-04.yaml"), "got: {p}");
    assert_eq!(p, "/home/me/.ao-rs/cost-ledger/2026-04.yaml");
}

#[test]
fn days_to_ymd_known_dates() {
    assert_eq!(days_to_ymd(0), (1970, 1, 1));
    assert_eq!(days_to_ymd(10957), (2000, 1, 1));
}

#[test]
fn upsert_updates_existing_entry() {
    let mut ledger = CostLedger::default();
    let cost_v1 = cost(100, 50, 0, 0, 0.01);
    ledger.entries.push(CostEntry {
        session_id: "s1".into(),
        project_id: "p1".into(),
        branch: "feat-x".into(),
        cost: cost_v1,
        created_at: 1000,
        updated_at: 1000,
    });
    let cost_v2 = cost(500, 250, 100, 50, 0.05);
    record_cost(&mut ledger, "s1", "p1", "feat-x", &cost_v2, 1000, 2000);

    assert_eq!(ledger.entries.len(), 1);
    assert_eq!(ledger.entries[0].cost, cost_v2);
    assert_eq!(ledger.entries[0].updated_at, 2000);
}

#[test]
fn recording_keeps_the_rest_of_the_ledger() {
    let mut ledger = CostLedger::default();
    record_cost(&mut ledger, "s1", "p1", "b1", &cost(1, 1, 0, 0, 0.1), 10, 11);
    record_cost(&mut ledger, "s2", "p2", "b2", &cost(2, 2, 0, 0, 0.2), 20, 21);
    record_cost(&mut ledger, "s1", "other", "other", &cost(3, 3, 0, 0, 0.3), 99, 31);
    assert_eq!(ledger.entries.len(), 2);
    assert_eq!(ledger.entries[0].session_id, "s1");
    assert_eq!(ledger.entries[0].project_id, "p1");
    assert_eq!(ledger.entries[0].branch, "b1");
    assert_eq!(ledger.entries[0].created_at, 10);
    assert_eq!(ledger.entries[0].updated_at, 31);
    assert_eq!(ledger.entries[0].cost, cost(3, 3, 0, 0, 0.3));
    assert_eq!(ledger.entries[1].session_id, "s2");
    assert_eq!(ledger.entries[1].updated_at, 21);
}

#[test]
fn months_are_written_with_four_and_two_digits() {
    assert_eq!(time_from_epoch_secs(0), "1970-01");
    assert_eq!(time_from_epoch_secs(951_782_399), "2000-02");
    assert_eq!(time_from_epoch_secs(951_868_800), "2000-03");
    assert_eq!(time_from_epoch_secs(253_402_300_800), "10000-01");
    assert_eq!(ledger_dir("/home/me"), "/home/me/.ao-rs/cost-ledger");
}

#[test]
fn usage_log_path_shape() {
    assert_eq!(usage_log_path("/tmp/ao-ws"), "/tmp/ao-ws/.ao/usage.jsonl");
}

fn usage(input: u64, output: u64, read: u64, creation: u64) -> UsageLogEntry {
    UsageLogEntry {
        ts: None,
        input_tokens: input,
        output_tokens: output,
        cache_read_tokens: read,
        cache_creation_tokens: creation,
        cost_usd_bits: 0f64.to_bits(),
    }
}

/// The lines of a log, each read as an entry where it is one.
fn entries(lines: &[&str]) -> Vec<UsageLogEntry> {
    let text = format!("{}\n", lines.join("\n"));
    let mut out = Vec::new();
    for line in read_lines(&text.into_bytes(), false) {
        let parsed: Result<serde_json::Value, serde_json::Error> = serde_json::from_str(&line);
        let value = match parsed {
            Ok(v) if v.is_object() => v,
            _ => continue,
        };
        let field = |name: &str| value.get(name).and_then(|v| v.as_u64()).unwrap_or(0);
        out.push(usage(
            field("input_tokens"),
            field("output_tokens"),
            field("cache_read_tokens"),
            field("cache_creation_tokens"),
        ));
    }
    out
}

#[test]
fn missing_file_returns_none() {
    assert!(parse_usage_jsonl(&vec![], None).is_none());
}

#[test]
fn empty_file_returns_none() {
    assert!(parse_usage_jsonl(&entries(&[]), None).is_none());
}

#[test]
fn zero_tokens_returns_none() {
    let log = entries(&[r#"{"input_tokens":0,"output_tokens":0,"cost_usd":0.0}"#]);
    assert_eq!(log.len(), 1);
    assert!(parse_usage_jsonl(&log, None).is_none());
    assert!(parse_usage_jsonl(&vec![usage(0, 0, 7, 7)], Some(1)).is_none());
}

#[test]
fn single_line_round_trip() {
    let log = entries(&[
        r#"{"input_tokens":100,"output_tokens":50,"cache_read_tokens":10,"cache_creation_tokens":5,"cost_usd":0.0012}"#,
    ]);
    let got = parse_usage_jsonl(&log, Some(0.0012f64.to_bits())).expect("some");
    assert_eq!(got.input_tokens, 100);
    assert_eq!(got.output_tokens, 50);
    assert_eq!(got.cache_read_tokens, 10);
    assert_eq!(got.cache_creation_tokens, 5);
    assert!((f64::from_bits(got.cost_usd_bits.unwrap()) - 0.0012).abs() < 1e-9);
}

#[test]
fn multi_line_sums_all_fields() {
    let log = entries(&[
        r#"{"input_tokens":100,"output_tokens":50,"cost_usd":0.5}"#,
        r#"{"input_tokens":200,"output_tokens":75,"cache_read_tokens":4,"cost_usd":0.25}"#,
        r#"{"input_tokens":50,"output_tokens":25,"cache_creation_tokens":2,"cost_usd":0.125}"#,
    ]);
    let got = parse_usage_jsonl(&log, Some(0.875f64.to_bits())).expect("some");
    assert_eq!(got.input_tokens, 350);
    assert_eq!(got.output_tokens, 150);
    assert_eq!(got.cache_read_tokens, 4);
    assert_eq!(got.cache_creation_tokens, 2);
    assert!((f64::from_bits(got.cost_usd_bits.unwrap()) - 0.875).abs() < 1e-9);
}

#[test]
fn garbage_lines_are_skipped() {
    let log = entries(&[
        "not json",
        r#"{"input_tokens":100,"output_tokens":50}"#,
        "{",
        r#"{"input_tokens":10,"output_tokens":5}"#,
        "",
    ]);
    let got = parse_usage_jsonl(&log, None).expect("some");
    assert_eq!(got.input_tokens, 110);
    assert_eq!(got.output_tokens, 55);
}

#[test]
fn unknown_fields_are_ignored() {
    let log = entries(&[r#"{"input_tokens":10,"output_tokens":5,"model":"opus","unknown":"ok"}"#]);
    let got = parse_usage_jsonl(&log, None).expect("some");
    assert_eq!(got.input_tokens, 10);
    assert_eq!(got.output_tokens, 5);
    assert_eq!(got.cost_usd_bits, None);
}

#[test]
fn token_counts_do_not_overflow() {
    let log = vec![usage(u64::MAX, 1, 0, 0), usage(5, 1, u64::MAX, 0), usage(0, 0, 1, 0)];
    let got = parse_usage_jsonl(&log, None).expect("some");
    assert_eq!(got.input_tokens, u64::MAX);
    assert_eq!(got.output_tokens, 2);
    assert_eq!(got.cache_read_tokens, u64::MAX);
}
