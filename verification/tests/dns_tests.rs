use dnsglobe::dns::{
    classify_failure, classify_lookup, normalize_answer, short_error, AnswerRecord, LookupFailure,
    LookupOutcome, QueryResult,
};

const A: u16 = 1;
const CNAME: u16 = 5;

fn record(record_type: u16, data: Option<&str>, ttl: u32) -> AnswerRecord {
    AnswerRecord { record_type, data: data.map(|d| d.to_string()), ttl }
}

fn records_of(result: &QueryResult) -> (Vec<String>, u32) {
    match result {
        QueryResult::Records { values, min_ttl } => (values.clone(), *min_ttl),
        other => panic!("expected records, got {:?}", other),
    }
}

#[test]
fn short_error_timeout_phrases() {
    assert_eq!(short_error("operation Timed Out after 3s"), "timeout");
    assert_eq!(short_error("request TIMEOUT"), "timeout");
}

#[test]
fn short_error_refused() {
    assert_eq!(short_error("Connection REFUSED by peer"), "refused");
}

#[test]
fn short_error_timeout_wins_over_refused() {
    assert_eq!(short_error("refused, then timed out"), "timeout");
}

#[test]
fn short_error_keeps_short_messages() {
    assert_eq!(short_error("io error: broken pipe"), "io error: broken pipe");
    assert_eq!(short_error(""), "");
}

#[test]
fn short_error_truncates_to_48_chars() {
    let long = "x".repeat(60);
    assert_eq!(short_error(&long), "x".repeat(48));
    let exact = "y".repeat(48);
    assert_eq!(short_error(&exact), exact);
}

#[test]
fn short_error_truncates_by_characters_not_bytes() {
    let long = "é".repeat(60);
    let short = short_error(&long);
    assert_eq!(short.chars().count(), 48);
    assert_eq!(short, "é".repeat(48));
}

#[test]
fn short_error_never_longer_than_limit() {
    for n in [0usize, 1, 47, 48, 49, 200] {
        assert!(short_error(&"ab".repeat(n)).chars().count() <= 48);
    }
}

#[test]
fn failure_refused_is_error() {
    match classify_failure(LookupFailure::NoRecordsFound { response_code: 5 }) {
        QueryResult::Error(m) => assert_eq!(m, "refused"),
        other => panic!("{:?}", other),
    }
}

#[test]
fn failure_servfail_is_error() {
    match classify_failure(LookupFailure::NoRecordsFound { response_code: 2 }) {
        QueryResult::Error(m) => assert_eq!(m, "SERVFAIL"),
        other => panic!("{:?}", other),
    }
}

#[test]
fn failure_nxdomain_is_no_records_with_code_text() {
    match classify_failure(LookupFailure::NoRecordsFound { response_code: 3 }) {
        QueryResult::NoRecords(m) => assert_eq!(m, "Non-Existent Domain"),
        other => panic!("{:?}", other),
    }
}

#[test]
fn failure_noerror_is_no_records() {
    match classify_failure(LookupFailure::NoRecordsFound { response_code: 0 }) {
        QueryResult::NoRecords(m) => assert_eq!(m, "No Error"),
        other => panic!("{:?}", other),
    }
}

#[test]
fn failure_resolver_timeout() {
    match classify_failure(LookupFailure::Timeout) {
        QueryResult::Error(m) => assert_eq!(m, "timeout"),
        other => panic!("{:?}", other),
    }
}

#[test]
fn failure_other_is_shortened() {
    match classify_failure(LookupFailure::Other("proto error: Connection refused (os error 111)".into())) {
        QueryResult::Error(m) => assert_eq!(m, "refused"),
        other => panic!("{:?}", other),
    }
    match classify_failure(LookupFailure::Other("no connections available".into())) {
        QueryResult::Error(m) => assert_eq!(m, "no connections available"),
        other => panic!("{:?}", other),
    }
}

#[test]
fn outer_deadline_is_timeout_error() {
    match classify_lookup(LookupOutcome::TimedOut, A) {
        QueryResult::Error(m) => assert_eq!(m, "timeout"),
        other => panic!("{:?}", other),
    }
}

#[test]
fn answer_values_sorted_and_deduplicated() {
    let outcome = LookupOutcome::Answered(vec![
        record(A, Some("93.184.216.34"), 300),
        record(A, Some("104.20.23.154"), 120),
        record(A, Some("93.184.216.34"), 300),
    ]);
    let (values, min_ttl) = records_of(&classify_lookup(outcome, A));
    assert_eq!(values, vec!["104.20.23.154".to_string(), "93.184.216.34".to_string()]);
    assert_eq!(min_ttl, 120);
}

#[test]
fn other_record_types_are_labelled() {
    let outcome = LookupOutcome::Answered(vec![
        record(CNAME, Some("example.net."), 60),
        record(A, Some("1.2.3.4"), 30),
    ]);
    let (values, min_ttl) = records_of(&classify_lookup(outcome, A));
    assert_eq!(values, vec!["1.2.3.4".to_string(), "CNAME example.net.".to_string()]);
    assert_eq!(min_ttl, 30);
}

#[test]
fn records_without_data_are_skipped() {
    let outcome = LookupOutcome::Answered(vec![record(A, None, 5), record(A, Some("1.1.1.1"), 400)]);
    let (values, min_ttl) = records_of(&classify_lookup(outcome, A));
    assert_eq!(values, vec!["1.1.1.1".to_string()]);
    assert_eq!(min_ttl, 400);
}

#[test]
fn empty_answer_is_no_records() {
    match classify_lookup(LookupOutcome::Answered(vec![]), A) {
        QueryResult::NoRecords(m) => assert_eq!(m, "empty answer"),
        other => panic!("{:?}", other),
    }
    match classify_lookup(LookupOutcome::Answered(vec![record(A, None, 1)]), A) {
        QueryResult::NoRecords(m) => assert_eq!(m, "empty answer"),
        other => panic!("{:?}", other),
    }
}

#[test]
fn answer_order_does_not_matter() {
    let a = vec![record(A, Some("b"), 10), record(A, Some("a"), 20), record(A, Some("c"), 30)];
    let b = vec![record(A, Some("c"), 30), record(A, Some("a"), 20), record(A, Some("b"), 10), record(A, Some("a"), 20)];
    let (va, _) = normalize_answer(&a, A);
    let (vb, _) = normalize_answer(&b, A);
    assert_eq!(va, vb);
    assert_eq!(va, vec!["a".to_string(), "b".to_string(), "c".to_string()]);
}

#[test]
fn values_follow_string_order() {
    let recs = vec![
        record(A, Some("b"), 1),
        record(A, Some("B"), 1),
        record(A, Some("ab"), 1),
        record(A, Some("a"), 1),
        record(A, Some("é"), 1),
    ];
    let (values, _) = normalize_answer(&recs, A);
    let mut expected: Vec<String> = recs.iter().map(|r| r.data.clone().unwrap()).collect();
    expected.sort();
    expected.dedup();
    assert_eq!(values, expected);
}

#[test]
fn unknown_record_type_label() {
    let outcome = LookupOutcome::Answered(vec![record(65000, Some("x"), 1)]);
    let (values, _) = records_of(&classify_lookup(outcome, A));
    assert_eq!(values, vec!["Unknown x".to_string()]);
}
