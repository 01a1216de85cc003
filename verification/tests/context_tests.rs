use chat_pipeline::context::{
    assemble_turns, ChatMessage, ContextAssembler, ContextError, MessageRef, Role,
};

fn msg(author_id: u64, content: &str, reply_to: Option<MessageRef>) -> ChatMessage {
    ChatMessage { author_id, content: String::from(content), reply_to }
}

#[test]
fn walks_a_chain_of_depth_two_into_four_turns() {
    let bot = 9;
    let root_ref = MessageRef { channel_id: 1, message_id: 100 };
    let mid_ref = MessageRef { channel_id: 1, message_id: 101 };
    let root = msg(5, "<@9> first question", None);
    let mid = msg(9, "first answer", Some(root_ref));
    let trigger = msg(5, "<@9> follow-up", Some(mid_ref));

    let mut walk = ContextAssembler::new(trigger, 50);
    assert_eq!(walk.next_fetch(), Some(mid_ref));
    assert_eq!(walk.accept(mid), Ok(()));
    assert_eq!(walk.next_fetch(), Some(root_ref));
    assert_eq!(walk.accept(root), Ok(()));
    assert_eq!(walk.next_fetch(), None);

    let msgs = walk.into_messages();
    assert_eq!(msgs.len(), 3);
    assert_eq!(msgs[0].content, "<@9> first question");
    assert_eq!(msgs[2].content, "<@9> follow-up");

    // depth n = 2 gives n + 2 = 4 turns, chronological, system first
    let turns = assemble_turns(bot, "persona", &msgs);
    assert_eq!(turns.len(), 4);
    assert_eq!(turns[0].role, Role::System);
    assert_eq!(turns[0].text, "persona");
    assert_eq!(turns[1].role, Role::User);
    assert_eq!(turns[1].text, "first question");
    assert_eq!(turns[2].role, Role::Assistant);
    assert_eq!(turns[2].text, "first answer");
    assert_eq!(turns[3].role, Role::User);
    assert_eq!(turns[3].text, "follow-up");
}

#[test]
fn a_single_message_yields_two_turns() {
    let trigger = msg(5, "<@9> hello", None);
    let walk = ContextAssembler::new(trigger, 50);
    assert_eq!(walk.next_fetch(), None);
    let msgs = walk.into_messages();
    let turns = assemble_turns(9, "sys", &msgs);
    assert_eq!(turns.len(), 2);
    assert_eq!(turns[0].role, Role::System);
    assert_eq!(turns[1].role, Role::User);
    assert_eq!(turns[1].text, "hello");
}

#[test]
fn fails_closed_when_the_chain_is_too_long() {
    let r0 = MessageRef { channel_id: 1, message_id: 1 };
    let r1 = MessageRef { channel_id: 1, message_id: 2 };
    let trigger = msg(5, "c", Some(r1));
    let mid = msg(5, "b", Some(r0));
    let root = msg(5, "a", None);

    let mut walk = ContextAssembler::new(trigger, 2);
    assert_eq!(walk.accept(mid), Ok(()));
    assert_eq!(walk.next_fetch(), Some(r0));
    assert_eq!(walk.accept(root), Err(ContextError::ChainTooLong));
}

#[test]
fn assistant_turns_keep_mentions_verbatim() {
    let bot = 9;
    let msgs = vec![msg(9, "see <@9> above", None)];
    let turns = assemble_turns(bot, "sys", &msgs);
    assert_eq!(turns[1].role, Role::Assistant);
    assert_eq!(turns[1].text, "see <@9> above");
}
