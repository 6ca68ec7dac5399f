use bucklog::json_log::{Fields, Level, LogEntry, Source};
use bucklog::logs::{LogFileRead, Logs};
use bucklog::timestamp::Timestamp;

fn entry(msg: &str) -> LogEntry {
    LogEntry {
        timestamp: Timestamp { year: 2024, month: 5, day: 1, hour: 12, minute: 0, second: 0, offset_hour: 0 },
        level: Level::INFO,
        message: msg.to_string(),
        fields: {
            let mut f = Fields::new();
            f.insert("k".to_string(), "1".to_string());
            f
        },
        span: None,
        source: Source { target: None, function: None, file: "main.rs".to_string(), line: 7 },
    }
}

#[test]
fn append_keeps_arrival_order() {
    let mut logs = Logs::empty();
    logs.append(entry("a"));
    logs.append(entry("b"));
    logs.append(entry("c"));
    let msgs: Vec<&str> = logs.entries().iter().map(|e| e.message.as_str()).collect();
    assert_eq!(msgs, vec!["a", "b", "c"]);
    assert_eq!(logs.len(), 3);
}

#[test]
fn new_uses_a_parsed_store() {
    let parsed = Logs::from_entries(vec![entry("x")]);
    let (logs, must_store) = Logs::new(LogFileRead::Parsed(parsed)).unwrap();
    assert!(!must_store);
    assert_eq!(logs.entries().len(), 1);
    assert_eq!(logs.entries()[0].message, "x");
}

#[test]
fn new_starts_empty_on_an_empty_file() {
    let (logs, must_store) = Logs::new(LogFileRead::EndOfInput).unwrap();
    assert!(must_store);
    assert!(logs.entries().is_empty());
}

#[test]
fn new_reports_invalid_files() {
    let r = Logs::new(LogFileRead::Invalid("expected value at line 1 column 1".to_string()));
    assert_eq!(r.unwrap_err(), "expected value at line 1 column 1");
}

#[test]
fn into_entries_gives_the_records_back() {
    let logs = Logs::from_entries(vec![entry("x"), entry("y")]);
    let v = logs.into_entries();
    assert_eq!(v.len(), 2);
    assert_eq!(v[1].message, "y");
}
