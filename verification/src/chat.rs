//! The pipeline orchestrator.
//!
//! One [`Chat`] value holds the process-lifetime configuration: the bot's
//! own identity, the backend model, base URL and bearer token, and the wire
//! framing the backend speaks. Per inbound message the caller asks
//! [`Chat::should_respond`] whether to act at all, walks the reply chain
//! with a [`crate::context::ContextAssembler`], frames the request with
//! [`Chat::request_body`], and drives a fresh
//! [`crate::decode::StreamDecoder`] and
//! [`crate::render::ResponseRenderer`] over the transport's bytes. All
//! I/O — the chat surface and the HTTP transport — stays with the caller.

use vstd::prelude::*;
use vstd::string::StringExecFns;

use crate::context::{turns_view, Turn};
use crate::decode::{StreamDecoder, WireVariant};
use crate::mention::{spec_mention_token, spec_strip_mentions, MentionFilter};
use crate::render::{init_render_model, ResponseRenderer};
use crate::request::{build_request_body, spec_request_body};

verus! {

/// The hard per-message size limit of the chat surface, in characters.
pub const MAX_MESSAGE_LENGTH: usize = 2000;

/// The buffered-character count at which a flush fires before the terminal
/// event.
pub const FLUSH_THRESHOLD: usize = 100;

/// Process-lifetime configuration of the chat pipeline, read-only after
/// construction.
pub struct Chat {
    pub bot_id: u64,
    pub model: String,
    pub api_url: String,
    pub token: String,
    pub variant: WireVariant,
}

/// Builds the pipeline configuration for the bot with this identity.
pub fn build_chat(bot_id: u64, model: String, api_url: String, token: String, variant: WireVariant) -> (r:
    Chat)
    ensures
        r.bot_id == bot_id,
        r.model == model,
        r.api_url == api_url,
        r.token == token,
        r.variant == variant,
{
    Chat { bot_id, model, api_url, token, variant }
}

impl Chat {
    /// An inbound message deserves a response exactly when someone other
    /// than the bot itself addresses the bot.
    pub open spec fn spec_should_respond(self, author_id: u64, mentions_bot: bool) -> bool {
        author_id != self.bot_id && mentions_bot
    }

    /// The trigger decision for one inbound message: `mentions_bot` is the
    /// chat surface's word on whether the message addresses the bot.
    pub fn should_respond(&self, author_id: u64, mentions_bot: bool) -> (r: bool)
        ensures
            r == self.spec_should_respond(author_id, mentions_bot),
    {
        author_id != self.bot_id && mentions_bot
    }

    /// The completion endpoint under the configured base URL.
    pub fn completion_url(&self) -> (r: String)
        ensures
            r@ == self.api_url@ + "/v1/chat/completions"@,
    {
        self.api_url.clone().concat("/v1/chat/completions")
    }

    /// The value of the authorization header: the bearer token.
    pub fn auth_header_value(&self) -> (r: String)
        ensures
            r@ == "Bearer "@ + self.token@,
    {
        String::from_str("Bearer ").concat(self.token.as_str())
    }

    /// Message text with every mention of the bot removed.
    pub fn delete_mention_to_myself(&self, content: &str) -> (r: String)
        ensures
            r@ == spec_strip_mentions(spec_mention_token(self.bot_id), content@),
    {
        let filter = MentionFilter::new(self.bot_id);
        filter.strip(content)
    }

    /// The request body for the assembled turns, under the configured
    /// model.
    pub fn request_body(&self, turns: &Vec<Turn>) -> (r: String)
        ensures
            r@ == spec_request_body(self.model@, turns_view(turns@)),
    {
        build_request_body(self.model.as_str(), turns)
    }

    /// A fresh decode session under the configured wire framing.
    pub fn new_decoder(&self) -> (r: StreamDecoder)
        ensures
            r.variant == self.variant,
            r.buf@ == Seq::<u8>::empty(),
            r.done == false,
    {
        StreamDecoder::new(self.variant)
    }

    /// A fresh renderer under the chat surface's message-length limit and
    /// the pipeline's flush threshold.
    pub fn new_renderer(&self) -> (r: ResponseRenderer)
        ensures
            r.model() == init_render_model(MAX_MESSAGE_LENGTH as nat, FLUSH_THRESHOLD as nat),
    {
        ResponseRenderer::new(MAX_MESSAGE_LENGTH, FLUSH_THRESHOLD)
    }
}

/// An inbound message that does not mention the bot — and likewise one the
/// bot wrote itself — is never responded to: the pipeline makes no backend
/// call and no outbound chat-surface call for it.
pub proof fn lemma_ignored_without_mention(c: Chat, author_id: u64)
    ensures
        !c.spec_should_respond(author_id, false),
        !c.spec_should_respond(c.bot_id, true),
{
}

/// The process-lifetime components shared by every invocation.
pub struct Data {
    pub chat: Chat,
}

} // verus!
