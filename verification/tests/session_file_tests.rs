use ferrous::session::SessionSnapshot;
use ferrous::session_file::{format_session_text, parse_session_text, session_snapshot};

fn p(path: &str) -> String {
    path.to_string()
}

#[test]
fn session_roundtrip_text_format() {
    let session = SessionSnapshot {
        queue: vec![p("/a.flac"), p("/b.flac")],
        selected_queue_index: Some(1),
        current_queue_index: Some(0),
        current_path: Some(p("/a.flac")),
    };
    let text = format_session_text(&session);
    let parsed = parse_session_text(&text).expect("parse session text");
    assert_eq!(parsed, session);
}

#[test]
fn session_parse_rejects_missing_queue_array() {
    let parsed = parse_session_text(r#"{"selected_queue_index":1}"#);
    assert!(parsed.is_none());
}

#[test]
fn session_parse_skips_what_is_not_a_string_or_an_index() {
    let parsed = parse_session_text(
        r#"{"queue":["/a.flac",3,null,"/b.flac"],"selected_queue_index":-1,"current_queue_index":"x","current_path":7}"#,
    )
    .expect("queue array present");
    assert_eq!(
        parsed,
        SessionSnapshot {
            queue: vec![p("/a.flac"), p("/b.flac")],
            selected_queue_index: None,
            current_queue_index: None,
            current_path: None,
        }
    );
    assert!(parse_session_text("not json").is_none());
    assert!(parse_session_text(r#"{"queue":{}}"#).is_none());
    assert!(parse_session_text("[]").is_none());
}

#[test]
fn session_text_keeps_nulls_and_round_trips_empty_queue() {
    let session = SessionSnapshot::default();
    let text = format_session_text(&session);
    assert!(text.contains("\"queue\": []"));
    assert!(text.contains("\"current_path\": null"));
    assert_eq!(parse_session_text(&text), Some(session));
}

#[test]
fn saved_session_keeps_only_a_queued_current_path() {
    let queue = vec![p("/m/a.flac"), p("/m/b.flac")];
    let s = session_snapshot(&queue, Some(1), Some(p("/m//b.flac")), None);
    assert_eq!(s.queue, queue);
    assert_eq!(s.selected_queue_index, Some(1));
    assert_eq!(s.current_path, Some(p("/m//b.flac")));
    assert_eq!(s.current_queue_index, Some(1));

    let s = session_snapshot(&queue, None, Some(p("/elsewhere.flac")), Some(5));
    assert_eq!(s.current_path, None);
    assert_eq!(s.current_queue_index, None);

    let s = session_snapshot(&queue, None, Some(p("/m/a.flac")), Some(1));
    assert_eq!(s.current_queue_index, Some(1));
}
