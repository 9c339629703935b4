use chronos::setup::{connect_step, ConnectAction, ConnectOutcome, ConnectStage};
use chronos::text::{names_contain, parse_usize, push_decimal, push_signed_decimal};
use chronos::web::{frontend_path, serve_embed, trim_leading_slashes, EmbedReply};

#[test]
fn trims_leading_slashes() {
    assert_eq!(trim_leading_slashes("///app.js"), "app.js");
    assert_eq!(trim_leading_slashes("/a/b"), "a/b");
    assert_eq!(trim_leading_slashes("plain"), "plain");
    assert_eq!(trim_leading_slashes("//"), "");
    assert_eq!(trim_leading_slashes(""), "");
}

#[test]
fn frontend_falls_back_to_index() {
    assert_eq!(frontend_path("", true), "index.html");
    assert_eq!(frontend_path("missing.js", false), "index.html");
    assert_eq!(frontend_path("app.js", true), "app.js");
}

#[test]
fn served_path_is_never_empty_law() {
    for (p, found) in [("/", true), ("", false), ("/x.css", true), ("/y", false)] {
        let trimmed = trim_leading_slashes(p);
        assert!(!trimmed.starts_with('/'));
        assert!(!frontend_path(trimmed, found).is_empty());
    }
}

#[test]
fn embed_reply_guesses_mime() {
    match serve_embed("index.html", Some(b"<html>".to_vec())) {
        EmbedReply::Found { content_type, body } => {
            assert_eq!(content_type, "text/html");
            assert_eq!(body, b"<html>".to_vec());
        },
        _ => panic!("expected the asset"),
    }
    match serve_embed("blob.unknownext", Some(vec![1, 2])) {
        EmbedReply::Found { content_type, .. } => {
            assert_eq!(content_type, "application/octet-stream")
        },
        _ => panic!("expected the asset"),
    }
    assert_eq!(
        serve_embed("index.html", None),
        EmbedReply::NotFound { text: "404 Not Found".to_string() }
    );
}

#[test]
fn parses_day_counts() {
    assert_eq!(parse_usize("12"), Some(12));
    assert_eq!(parse_usize("+7"), Some(7));
    assert_eq!(parse_usize("007"), Some(7));
    assert_eq!(parse_usize(""), None);
    assert_eq!(parse_usize("+"), None);
    assert_eq!(parse_usize("-1"), None);
    assert_eq!(parse_usize("1a"), None);
    assert_eq!(parse_usize(" 1"), None);
    assert_eq!(parse_usize("18446744073709551615"), Some(usize::MAX));
    assert_eq!(parse_usize("18446744073709551616"), None);
}

#[test]
fn decimal_roundtrip_law() {
    for n in [0usize, 1, 9, 10, 99, 12345, usize::MAX] {
        let mut s = String::new();
        push_decimal(&mut s, n as u64);
        assert_eq!(s, n.to_string());
        assert_eq!(parse_usize(&s), Some(n));
    }
}

#[test]
fn signed_decimal_text() {
    let mut s = String::from("x=");
    push_signed_decimal(&mut s, -120);
    assert_eq!(s, "x=-120");
    let mut s = String::new();
    push_signed_decimal(&mut s, i64::MIN);
    assert_eq!(s, i64::MIN.to_string());
}

#[test]
fn contains_names() {
    let names = vec!["trackers".to_string(), "work".to_string()];
    assert!(names_contain(&names, "trackers"));
    assert!(!names_contain(&names, "play"));
}

#[test]
fn connect_creates_then_connects() {
    let (stage, action) = connect_step(ConnectStage::Checking, ConnectOutcome::Exists(false));
    assert_eq!(action, ConnectAction::Create);
    let (stage, action) = connect_step(stage, ConnectOutcome::Created(false));
    assert_eq!(stage, ConnectStage::Creating { tries: 1 });
    assert_eq!(action, ConnectAction::Create);
    let (stage, action) = connect_step(stage, ConnectOutcome::Created(true));
    assert_eq!(action, ConnectAction::Connect);
    let (stage, action) = connect_step(stage, ConnectOutcome::Connected(true));
    assert_eq!(stage, ConnectStage::Connected);
    assert_eq!(action, ConnectAction::UseConnection);
}

#[test]
fn connect_gives_up_after_three_tries() {
    let (mut stage, _) = connect_step(ConnectStage::Checking, ConnectOutcome::Exists(true));
    let mut actions = vec![];
    for _ in 0..3 {
        let (next, action) = connect_step(stage, ConnectOutcome::Connected(false));
        stage = next;
        actions.push(action);
    }
    assert_eq!(actions, vec![ConnectAction::Connect, ConnectAction::Connect, ConnectAction::GiveUpOnConnect]);
    assert_eq!(stage, ConnectStage::Failed);
    let mut stage = ConnectStage::Creating { tries: 0 };
    for _ in 0..2 {
        stage = connect_step(stage, ConnectOutcome::Created(false)).0;
    }
    assert_eq!(
        connect_step(stage, ConnectOutcome::Created(false)),
        (ConnectStage::Failed, ConnectAction::GiveUpOnCreate)
    );
    assert_eq!(
        connect_step(ConnectStage::Checking, ConnectOutcome::CheckFailed),
        (ConnectStage::Failed, ConnectAction::GiveUpOnCheck)
    );
}
