use chat_pipeline::decode::DeltaEvent;
use chat_pipeline::render::{FlushAction, ResponseRenderer};

fn delta(text: &str, terminal: bool) -> DeltaEvent {
    DeltaEvent { text: String::from(text), terminal }
}

#[test]
fn buffers_below_threshold_and_flushes_at_it() {
    let mut r = ResponseRenderer::new(2000, 100);
    assert!(r.on_event(&delta(&"a".repeat(99), false)).is_none());
    match r.on_event(&delta("b", false)) {
        Some(FlushAction::NewMessage(s)) => {
            assert_eq!(s.chars().count(), 100);
        }
        other => panic!("expected a new message, got {:?}", other),
    }
}

#[test]
fn long_response_splits_at_the_computed_boundary() {
    // 22 deltas of 100 characters and a terminal delta of 50: one
    // new-message send at the boundary flush, edits before and after it,
    // and the full concatenation split at 1900 characters.
    let mut r = ResponseRenderer::new(2000, 100);
    let mut actions: Vec<FlushAction> = Vec::new();
    for _ in 0..22 {
        actions.push(r.on_event(&delta(&"x".repeat(100), false)).expect("flush at threshold"));
    }
    actions.push(r.on_event(&delta(&"x".repeat(50), true)).expect("flush at terminal"));
    assert_eq!(actions.len(), 23);

    // flush 1: from idle, the opening send
    assert!(matches!(&actions[0], FlushAction::NewMessage(s) if s.chars().count() == 100));
    // flushes 2..=19: edits of the first message, growing to 1900
    for (k, action) in actions.iter().enumerate().take(19).skip(1) {
        match action {
            FlushAction::EditMessage(s) => assert_eq!(s.chars().count(), 100 * (k + 1)),
            other => panic!("flush {} should edit, got {:?}", k + 1, other),
        }
    }
    // flush 20: 1900 + 100 reaches 2000, the one boundary send
    assert!(matches!(&actions[19], FlushAction::NewMessage(s) if s.chars().count() == 100));
    // flushes 21, 22 and the terminal flush: edits of the second message
    assert!(matches!(&actions[20], FlushAction::EditMessage(s) if s.chars().count() == 200));
    assert!(matches!(&actions[21], FlushAction::EditMessage(s) if s.chars().count() == 300));
    assert!(matches!(&actions[22], FlushAction::EditMessage(s) if s.chars().count() == 350));

    // the two visible messages together hold the whole 2250 characters
    let first_final = 1900;
    let second_final = 350;
    assert_eq!(first_final + second_final, 22 * 100 + 50);
}

#[test]
fn a_response_of_exactly_the_limit_in_one_flush_sends_one_message() {
    let mut r = ResponseRenderer::new(2000, 100);
    let action = r.on_event(&delta(&"y".repeat(2000), true)).expect("terminal flush");
    match action {
        FlushAction::NewMessage(s) => assert_eq!(s.chars().count(), 2000),
        other => panic!("expected one new message, got {:?}", other),
    }
}

#[test]
fn an_empty_response_is_sent_as_an_empty_message() {
    let mut r = ResponseRenderer::new(2000, 100);
    match r.on_event(&delta("", true)) {
        Some(FlushAction::NewMessage(s)) => assert_eq!(s, ""),
        other => panic!("expected an empty send, got {:?}", other),
    }
}

#[test]
fn terminal_flush_edits_the_live_message_below_the_limit() {
    let mut r = ResponseRenderer::new(2000, 100);
    let first = r.on_event(&delta(&"a".repeat(100), false)).unwrap();
    assert!(matches!(first, FlushAction::NewMessage(_)));
    match r.on_event(&delta("tail", true)) {
        Some(FlushAction::EditMessage(s)) => {
            assert_eq!(s.chars().count(), 104);
            assert!(s.ends_with("tail"));
        }
        other => panic!("expected an edit, got {:?}", other),
    }
}

#[test]
fn lengths_count_characters_not_bytes() {
    let mut r = ResponseRenderer::new(10, 3);
    // three ideographic characters reach the threshold of 3
    match r.on_event(&delta("\u{3042}\u{3044}\u{3046}", false)) {
        Some(FlushAction::NewMessage(s)) => assert_eq!(s, "\u{3042}\u{3044}\u{3046}"),
        other => panic!("expected a send, got {:?}", other),
    }
}
