//! Reconstruction of the conversation that is sent to the backend.
//!
//! Starting from the triggering message, the reply chain is walked one
//! referenced message at a time. The walk is an explicit state machine: the
//! caller fetches the message named by [`ContextAssembler::next_fetch`]
//! through the chat surface and hands it back through
//! [`ContextAssembler::accept`]; the walk fails closed with
//! [`ContextError::ChainTooLong`] once the configured depth cap is reached.
//! The collected messages, oldest first, become role-tagged conversational
//! turns with one fixed system turn prepended.

use vstd::prelude::*;
use vstd::string::StringExecFns;

use crate::mention::{spec_mention_token, spec_strip_mentions, MentionFilter};

verus! {

/// The speaker of one conversational turn.
#[derive(Clone, Copy, PartialEq, Eq, Structural, Debug)]
pub enum Role {
    System,
    User,
    Assistant,
}

/// Names one message of the chat surface: a channel and a message id.
#[derive(Clone, Copy, PartialEq, Eq, Structural, Debug)]
pub struct MessageRef {
    pub channel_id: u64,
    pub message_id: u64,
}

/// What the pipeline reads of a resolved chat-surface message.
#[derive(Clone, Debug)]
pub struct ChatMessage {
    pub author_id: u64,
    pub content: String,
    pub reply_to: Option<MessageRef>,
}

/// One role-tagged message of the context sent to the backend.
#[derive(Clone, Debug)]
pub struct Turn {
    pub role: Role,
    pub text: String,
}

/// The mathematical value of a [`Turn`].
pub struct TurnView {
    pub role: Role,
    pub text: Seq<char>,
}

impl View for Turn {
    type V = TurnView;

    open spec fn view(&self) -> TurnView {
        TurnView { role: self.role, text: self.text@ }
    }
}

/// Failure of context assembly.
#[derive(Clone, Copy, PartialEq, Eq, Debug)]
pub enum ContextError {
    /// The reply chain is deeper than the configured cap.
    ChainTooLong,
}

/// The role a resolved message is given: the bot's own messages come back as
/// assistant turns, everything else as user turns.
pub open spec fn spec_role_of(bot_id: u64, m: ChatMessage) -> Role {
    if m.author_id == bot_id {
        Role::Assistant
    } else {
        Role::User
    }
}

/// The text a resolved message contributes: the bot's own messages verbatim,
/// everyone else's with mentions of the bot stripped.
pub open spec fn spec_text_of(bot_id: u64, m: ChatMessage) -> Seq<char> {
    if m.author_id == bot_id {
        m.content@
    } else {
        spec_strip_mentions(spec_mention_token(bot_id), m.content@)
    }
}

/// The full context for a list of resolved messages, oldest first: one
/// system turn, then one turn per message in the same order.
pub open spec fn spec_turns(bot_id: u64, system_text: Seq<char>, msgs: Seq<ChatMessage>) -> Seq<
    TurnView,
> {
    seq![TurnView { role: Role::System, text: system_text }] + msgs.map(
        |i: int, m: ChatMessage| TurnView { role: spec_role_of(bot_id, m), text: spec_text_of(bot_id, m) },
    )
}

/// The values of a list of turns.
pub open spec fn turns_view(ts: Seq<Turn>) -> Seq<TurnView> {
    ts.map_values(|t: Turn| t@)
}

/// A linked reply chain, oldest first: the root answers nothing, every later
/// message answers the one before it.
pub open spec fn is_reply_chain(msgs: Seq<ChatMessage>) -> bool {
    &&& msgs.len() >= 1
    &&& msgs[0].reply_to is None
    &&& forall|i: int| 1 <= i < msgs.len() ==> (#[trigger] msgs[i].reply_to) is Some
}

/// The state of one reply-chain walk: the messages collected so far (newest
/// first), the reference that still has to be fetched, and the depth cap.
pub struct ContextAssembler {
    pub collected: Vec<ChatMessage>,
    pub pending: Option<MessageRef>,
    pub limit: usize,
}

impl ContextAssembler {
    /// The walk never collects more than the cap, and always holds at least
    /// the triggering message.
    pub open spec fn wf(self) -> bool {
        1 <= self.collected@.len() <= self.limit
    }

    /// Starts a walk at the triggering message.
    pub fn new(trigger: ChatMessage, limit: usize) -> (r: Self)
        requires
            1 <= limit,
        ensures
            r.collected@ == seq![trigger],
            r.pending == trigger.reply_to,
            r.limit == limit,
            r.wf(),
    {
        let pending = trigger.reply_to;
        let mut collected: Vec<ChatMessage> = Vec::new();
        collected.push(trigger);
        ContextAssembler { collected, pending, limit }
    }

    /// The message that must be fetched next, if the walk is not done.
    pub fn next_fetch(&self) -> (r: Option<MessageRef>)
        ensures
            r == self.pending,
    {
        self.pending
    }

    /// Hands the walk the message that [`Self::next_fetch`] asked for.
    /// Fails closed once the depth cap is reached; the state is then
    /// unchanged and the whole assembly is abandoned.
    pub fn accept(&mut self, msg: ChatMessage) -> (r: Result<(), ContextError>)
        requires
            old(self).wf(),
            old(self).pending is Some,
        ensures
            final(self).limit == old(self).limit,
            final(self).wf(),
            match r {
                Ok(()) => {
                    &&& old(self).collected@.len() < old(self).limit
                    &&& final(self).collected@ == old(self).collected@.push(msg)
                    &&& final(self).pending == msg.reply_to
                },
                Err(e) => {
                    &&& e == ContextError::ChainTooLong
                    &&& old(self).collected@.len() == old(self).limit
                    &&& *final(self) == *old(self)
                },
            },
    {
        if self.collected.len() == self.limit {
            return Err(ContextError::ChainTooLong);
        }
        let pending = msg.reply_to;
        self.collected.push(msg);
        self.pending = pending;
        Ok(())
    }

    /// The collected messages in chronological order, root first, trigger
    /// last. Only a finished walk may be linearized.
    pub fn into_messages(self) -> (r: Vec<ChatMessage>)
        requires
            self.pending is None,
        ensures
            r@ == self.collected@.reverse(),
    {
        let ghost orig = self.collected@;
        let mut stack = self.collected;
        let mut r: Vec<ChatMessage> = Vec::new();
        while stack.len() > 0
            invariant
                r@.len() + stack@.len() == orig.len(),
                stack@ == orig.take(stack@.len() as int),
                forall|k: int| 0 <= k < r@.len() ==> #[trigger] r@[k] == orig[orig.len() - 1 - k],
            decreases stack@.len(),
        {
            let m = stack.pop().unwrap();
            assert(stack@ =~= orig.take(stack@.len() as int));
            r.push(m);
        }
        assert(r@ =~= orig.reverse());
        r
    }
}

/// Builds the backend context for resolved messages, oldest first: the fixed
/// system turn, then one turn per message, labelled and filtered by
/// authorship.
pub fn assemble_turns(bot_id: u64, system_text: &str, msgs: &Vec<ChatMessage>) -> (r: Vec<Turn>)
    ensures
        turns_view(r@) == spec_turns(bot_id, system_text@, msgs@),
        r@.len() == msgs@.len() + 1,
{
    let filter = MentionFilter::new(bot_id);
    let mut r: Vec<Turn> = Vec::new();
    r.push(Turn { role: Role::System, text: String::from_str(system_text) });
    let mut i: usize = 0;
    while i < msgs.len()
        invariant
            i <= msgs@.len(),
            filter.token@ == spec_mention_token(bot_id),
            r@.len() == i + 1,
            r@[0].role == Role::System && r@[0].text@ == system_text@,
            forall|k: int|
                1 <= k <= i ==> (#[trigger] r@[k]).role == spec_role_of(bot_id, msgs@[k - 1])
                    && r@[k].text@ == spec_text_of(bot_id, msgs@[k - 1]),
        decreases msgs@.len() - i,
    {
        let m = &msgs[i];
        let turn = if m.author_id == bot_id {
            Turn { role: Role::Assistant, text: m.content.clone() }
        } else {
            Turn { role: Role::User, text: filter.strip(m.content.as_str()) }
        };
        r.push(turn);
        i = i + 1;
    }
    assert(turns_view(r@) =~= spec_turns(bot_id, system_text@, msgs@));
    r
}

/// For every acyclic reply chain of depth `n` — `n + 1` linked messages,
/// root first — the assembled context holds exactly `n + 2` turns: the
/// system turn first, then the chain in strictly chronological order, each
/// turn's role and text assigned by the authorship of its message.
pub proof fn lemma_reply_chain_context(bot_id: u64, system_text: Seq<char>, chain: Seq<ChatMessage>)
    requires
        is_reply_chain(chain),
    ensures
        spec_turns(bot_id, system_text, chain).len() == chain.len() + 1,
        spec_turns(bot_id, system_text, chain)[0] == (TurnView {
            role: Role::System,
            text: system_text,
        }),
        forall|i: int|
            0 <= i < chain.len() ==> #[trigger] spec_turns(bot_id, system_text, chain)[i + 1]
                == (TurnView {
                role: spec_role_of(bot_id, chain[i]),
                text: spec_text_of(bot_id, chain[i]),
            }),
{
}

} // verus!
