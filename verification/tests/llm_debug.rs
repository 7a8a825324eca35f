use coraldesk::observability::llm_debug::{
    clear_entries, debug_path_in, framed_entry, get_log_path, is_enabled, load_entries,
    record_request, record_response, request_entry, resolve_debug_path, set_enabled,
    trim_if_needed, written_entries, LlmDebug, LlmDebugEntry, LlmDebugLogger, LlmDebugMessage,
};
use coraldesk::paths::PathParts;
use coraldesk::providers::ChatMessage;
use std::path::PathBuf;

fn parts(base: Option<&str>, parts: &[&str]) -> PathParts {
    PathParts {
        base: base.map(PathBuf::from),
        parts: parts.iter().map(|part| part.to_string()).collect(),
    }
}

fn entry_in(id: &str, session: Option<&str>) -> LlmDebugEntry {
    request_entry(
        id.to_string(),
        "2025-01-01T00:00:00+00:00".to_string(),
        session,
        "openrouter",
        "sonnet",
        0,
        0,
        &[],
        None,
    )
}

fn ids(entries: &[LlmDebugEntry]) -> Vec<&str> {
    entries.iter().map(|entry| entry.id.as_str()).collect()
}

#[test]
fn test_record_and_load() {
    let logger = LlmDebugLogger::new(parts(Some("tmp"), &["test_debug.jsonl"]));
    let mut debug = LlmDebug::with_logger(logger);
    set_enabled(&mut debug, true);

    let messages = vec![
        ChatMessage::system("You are a helpful assistant.".to_string()),
        ChatMessage::user("Hello".to_string()),
    ];

    let entry = record_response(
        &mut debug,
        Some("test-id"),
        Some("session-1"),
        "openrouter",
        "sonnet",
        0.7f64.to_bits(),
        0,
        &messages,
        Some(vec!["file_read".to_string()]),
        "Hello! How can I help?",
        &[],
        Some(100),
        Some(50),
        150,
        true,
        None,
        Some("end_turn"),
    )
    .unwrap();

    let entries = load_entries(vec![Some(entry)], 10, None);
    assert_eq!(entries.len(), 1);
    assert_eq!(entries[0].id, "test-id");
    assert_eq!(entries[0].request_messages.len(), 2);
    assert_eq!(entries[0].request_messages[0].role, "system");
    assert_eq!(
        entries[0].response_text.as_deref(),
        Some("Hello! How can I help?")
    );
    assert_eq!(entries[0].session_id.as_deref(), Some("session-1"));
    assert_eq!(f64::from_bits(entries[0].temperature_bits), 0.7);
    assert_eq!(entries[0].tool_names, Some(vec!["file_read".to_string()]));
    assert!(entries[0].response_tool_calls.is_none());
    assert_eq!(entries[0].input_tokens, Some(100));
    assert_eq!(entries[0].output_tokens, Some(50));
    assert_eq!(entries[0].duration_ms, Some(150));
    assert!(entries[0].success);
    assert!(entries[0].error.is_none());
    assert_eq!(entries[0].stop_reason.as_deref(), Some("end_turn"));
    assert!(entries[0].timestamp.ends_with("+00:00"));
    assert_eq!(
        get_log_path(&mut debug),
        parts(Some("tmp"), &["test_debug.jsonl"])
    );
}

#[test]
fn request_is_recorded_before_the_call() {
    let mut debug = LlmDebug::new();
    assert!(!is_enabled(&debug));
    let messages = vec![ChatMessage::user("héllo".to_string())];
    let none = record_request(
        &mut debug, None, "p", "m", 0, 3, &messages, None,
    );
    assert!(none.is_none());

    set_enabled(&mut debug, true);
    assert!(is_enabled(&debug));
    let first = record_request(
        &mut debug, Some("s"), "p", "m", 1, 3, &messages, None,
    )
    .unwrap();
    let second = record_request(
        &mut debug, None, "p", "m", 1, 4, &messages, None,
    )
    .unwrap();
    assert_eq!(first.id.len(), 36);
    assert_ne!(first.id, second.id);
    assert!(first.timestamp.starts_with("20"));
    assert_eq!(first.session_id.as_deref(), Some("s"));
    assert_eq!((first.provider.as_str(), first.model.as_str()), ("p", "m"));
    assert_eq!((first.temperature_bits, first.iteration), (1, 3));
    assert_eq!(first.request_messages[0].content, "héllo");
    assert_eq!(first.request_messages[0].char_count, 6);
    assert!(first.response_text.is_none() && first.duration_ms.is_none());
    assert!(!first.success);

    set_enabled(&mut debug, false);
    assert!(!is_enabled(&debug));
}

#[test]
fn response_without_request_gets_an_identifier() {
    let mut debug = LlmDebug::new();
    let calls = vec![("shell".to_string(), "{}".to_string())];
    let record = |debug: &mut LlmDebug| {
        record_response(
            debug, None, None, "p", "m", 0, 0, &[], None, "", &calls, None, None, 7, false,
            Some("boom"), None,
        )
    };
    assert!(record(&mut debug).is_none());
    set_enabled(&mut debug, true);
    let entry = record(&mut debug).unwrap();
    assert_eq!(entry.id.len(), 36);
    let logged = entry.response_tool_calls.unwrap();
    assert_eq!(logged.len(), 1);
    assert_eq!(logged[0].name, "shell");
    assert_eq!(logged[0].arguments, "{}");
    assert_eq!(entry.error.as_deref(), Some("boom"));
    assert_eq!(entry.response_text.as_deref(), Some(""));
}

#[test]
fn message_counts_its_bytes() {
    let message = LlmDebugMessage::from_chat_message(&ChatMessage::user("añb".to_string()));
    assert_eq!(message.role, "user");
    assert_eq!(message.content, "añb");
    assert_eq!(message.char_count, 4);
}

#[test]
fn log_is_under_the_home_directory() {
    assert_eq!(
        debug_path_in(Some(PathBuf::from("/home/ada"))),
        parts(Some("/home/ada"), &[".coraldesk/debug", "llm_calls.jsonl"])
    );
    assert_eq!(
        debug_path_in(None),
        parts(None, &[".", ".coraldesk/debug", "llm_calls.jsonl"])
    );
    let path = resolve_debug_path();
    assert!(path.parts.ends_with(&[".coraldesk/debug".to_string(), "llm_calls.jsonl".to_string()]));
    let mut debug = LlmDebug::new();
    assert_eq!(get_log_path(&mut debug), path);
}

#[test]
fn log_is_cleared_where_it_is_there() {
    let path = parts(Some("dir"), &["log"]);
    let mut debug = LlmDebug::with_logger(LlmDebugLogger::new(path.clone()));
    set_enabled(&mut debug, true);
    assert_eq!(clear_entries(&mut debug, false), None);
    assert_eq!(clear_entries(&mut debug, true), Some(path.clone()));
    assert_eq!(clear_entries(&mut debug, false), None);
    assert!(is_enabled(&debug));
    assert_eq!(get_log_path(&mut debug), path);
    assert!(written_entries(None).is_empty());
    assert!(load_entries(Vec::new(), 10, None).is_empty());
    assert!(load_entries(Vec::new(), 10, Some("s")).is_empty());
}

#[test]
fn timestamp_is_a_moment_in_utc() {
    let mut debug = LlmDebug::new();
    set_enabled(&mut debug, true);
    let entry = record_request(&mut debug, None, "p", "m", 0, 0, &[], None).unwrap();
    let stamp = entry.timestamp.as_bytes();
    assert_eq!(stamp[10], b'T');
    for (at, byte) in [(4, b'-'), (7, b'-'), (13, b':'), (16, b':')] {
        assert_eq!(stamp[at], byte);
    }
    assert!([25, 29, 32, 35].contains(&stamp.len()));
    assert!(entry.timestamp.ends_with("+00:00"));
}

#[test]
fn newest_entries_come_first() {
    let parsed = || {
        vec![
            Some(entry_in("1", Some("a"))),
            None,
            Some(entry_in("2", Some("b"))),
            Some(entry_in("3", None)),
            Some(entry_in("4", Some("a"))),
        ]
    };
    assert_eq!(ids(&load_entries(parsed(), 10, None)), vec!["4", "3", "2", "1"]);
    assert_eq!(ids(&load_entries(parsed(), 2, None)), vec!["4", "3"]);
    assert_eq!(ids(&load_entries(parsed(), 2, Some("a"))), vec!["4", "1"]);
    assert_eq!(ids(&load_entries(parsed(), 1, Some("a"))), vec!["4"]);
    assert!(load_entries(parsed(), 0, None).is_empty());
    assert!(load_entries(parsed(), 5, Some("c")).is_empty());
}

#[test]
fn entries_are_read_back_line_by_line() {
    let mut raw = String::new();
    for text in ["{\"id\":1}", "{\"id\":2}"] {
        raw.push_str(&framed_entry(text));
    }
    assert_eq!(raw, "{\"id\":1}\n{\"id\":2}\n");
    assert_eq!(written_entries(Some(&raw)), vec!["{\"id\":1}", "{\"id\":2}"]);
    assert_eq!(written_entries(Some("  a \r\n\n \t\nb")), vec!["a", "b"]);
    assert!(written_entries(Some("")).is_empty());
    assert!(trim_if_needed(&raw).is_none());
}

#[test]
fn log_keeps_its_newest_entries() {
    let mut raw = String::new();
    for i in 0..500 {
        raw.push_str(&framed_entry(&format!("{i}")));
    }
    assert!(trim_if_needed(&raw).is_none());
    raw.push_str(&framed_entry("500"));
    let trimmed = trim_if_needed(&raw).unwrap();
    let kept = written_entries(Some(&trimmed));
    assert_eq!(kept.len(), 500);
    assert_eq!(kept[0], "1");
    assert_eq!(kept[499], "500");
    assert!(trimmed.starts_with("1\n2\n"));
    assert!(trimmed.ends_with("\n500\n"));
    assert!(trim_if_needed(&trimmed).is_none());
}
