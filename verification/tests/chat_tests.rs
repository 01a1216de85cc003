use chat_pipeline::chat::{build_chat, Chat, Data, FLUSH_THRESHOLD, MAX_MESSAGE_LENGTH};
use chat_pipeline::context::{assemble_turns, ChatMessage};
use chat_pipeline::decode::WireVariant;
use chat_pipeline::render::FlushAction;

fn chat() -> Chat {
    build_chat(
        9,
        String::from("test-model"),
        String::from("http://backend"),
        String::from("test-token"),
        WireVariant::EventStream,
    )
}

#[test]
fn ignores_messages_that_do_not_mention_the_bot() {
    let c = chat();
    assert!(!c.should_respond(5, false));
}

#[test]
fn ignores_its_own_messages() {
    let c = chat();
    assert!(!c.should_respond(9, true));
}

#[test]
fn responds_to_a_mention_by_someone_else() {
    let c = chat();
    assert!(c.should_respond(5, true));
}

#[test]
fn completion_url_is_under_the_base_url() {
    let c = chat();
    assert_eq!(c.completion_url(), "http://backend/v1/chat/completions");
}

#[test]
fn auth_header_carries_the_bearer_token() {
    let c = chat();
    assert_eq!(c.auth_header_value(), "Bearer test-token");
}

#[test]
fn delete_mention_to_myself_strips_the_own_token() {
    let c = chat();
    assert_eq!(c.delete_mention_to_myself("<@9> ping"), "ping");
    assert_eq!(c.delete_mention_to_myself("no mention"), "no mention");
}

#[test]
fn request_body_is_the_exact_json_frame() {
    let c = chat();
    let msgs = vec![ChatMessage {
        author_id: 5,
        content: String::from("<@9> hi"),
        reply_to: None,
    }];
    let turns = assemble_turns(9, "persona", &msgs);
    assert_eq!(
        c.request_body(&turns),
        "{\"model\":\"test-model\",\"messages\":[{\"role\":\"system\",\"content\":\"persona\"},{\"role\":\"user\",\"content\":\"hi\"}],\"stream\":true}"
    );
}

#[test]
fn request_body_escapes_quotes_backslashes_and_controls() {
    let c = chat();
    let msgs = vec![ChatMessage {
        author_id: 5,
        content: String::from("say \"hi\\\"\nplease"),
        reply_to: None,
    }];
    let turns = assemble_turns(9, "s", &msgs);
    let body = c.request_body(&turns);
    assert!(body.contains("\"content\":\"say \\\"hi\\\\\\\"\\u000aplease\""));
}

#[test]
fn a_mentioning_message_streams_into_rendered_actions() {
    // the pipeline end to end, without the chat surface: trigger check,
    // context, request frame, decode, render
    let c = chat();
    let trigger = ChatMessage {
        author_id: 5,
        content: String::from("<@9> say hello"),
        reply_to: None,
    };
    assert!(c.should_respond(trigger.author_id, true));
    let turns = assemble_turns(9, "persona", &vec![trigger]);
    let body = c.request_body(&turns);
    assert!(body.starts_with("{\"model\":\"test-model\""));
    assert!(body.ends_with("\"stream\":true}"));

    let mut decoder = c.new_decoder();
    let mut renderer = c.new_renderer();
    let stream: &[u8] = b"data: {\"choices\":[{\"delta\":{\"content\":\"hel\"},\"finish_reason\":null}]}\ndata: {\"choices\":[{\"delta\":{\"content\":\"lo\"},\"finish_reason\":\"stop\"}]}\ndata: [DONE]\n";
    let mut actions: Vec<FlushAction> = Vec::new();
    for e in decoder.feed(stream) {
        if let Some(a) = renderer.on_event(&e) {
            actions.push(a);
        }
    }
    for e in decoder.finish().expect("clean end of stream") {
        if let Some(a) = renderer.on_event(&e) {
            actions.push(a);
        }
    }
    assert_eq!(actions.len(), 1);
    match &actions[0] {
        FlushAction::NewMessage(s) => assert_eq!(s, "hello"),
        other => panic!("expected one send, got {:?}", other),
    }
}

#[test]
fn the_surface_limits_are_the_documented_ones() {
    assert_eq!(MAX_MESSAGE_LENGTH, 2000);
    assert_eq!(FLUSH_THRESHOLD, 100);
    let d = Data { chat: chat() };
    assert_eq!(d.chat.bot_id, 9);
}
