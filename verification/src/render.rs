//! Incremental rendering of the decoded reply into chat messages.
//!
//! Delta text accumulates in a pending buffer. A flush happens when the
//! terminal event arrives or the buffer reaches the flush threshold. Each
//! flush either starts a brand-new outbound message — when nothing is live
//! yet, or when extending the live message would reach the per-message
//! length limit — or edits the live message in place with its full
//! accumulated text. The caller performs the returned operation on the chat
//! surface and aborts the remaining flushes if it fails.

use vstd::prelude::*;
use vstd::string::{StrSliceExecFns, StringExecFns};

use crate::decode::{DeltaEvent, EventView};

verus! {

/// One outbound chat-surface operation.
#[derive(Clone, Debug)]
pub enum FlushAction {
    /// Send a brand-new message holding exactly this text; it becomes the
    /// live message.
    NewMessage(String),
    /// Replace the live message's text with this full accumulated text.
    EditMessage(String),
}

/// The mathematical value of a [`FlushAction`].
pub enum ActionView {
    NewMessage(Seq<char>),
    EditMessage(Seq<char>),
}

/// The value of one action.
pub open spec fn action_view(a: FlushAction) -> ActionView {
    match a {
        FlushAction::NewMessage(s) => ActionView::NewMessage(s@),
        FlushAction::EditMessage(s) => ActionView::EditMessage(s@),
    }
}

/// The value of an optional action.
pub open spec fn action_opt_view(r: Option<FlushAction>) -> Option<ActionView> {
    match r {
        Some(a) => Some(action_view(a)),
        None => None,
    }
}

/// The renderer's state: the text of the live outbound message (none while
/// idle), the pending buffer, the per-message length limit and the flush
/// threshold, all lengths in characters.
pub struct RenderModel {
    pub active: Option<Seq<char>>,
    pub pending: Seq<char>,
    pub limit: nat,
    pub threshold: nat,
}

/// The state a fresh renderer starts in.
pub open spec fn init_render_model(limit: nat, threshold: nat) -> RenderModel {
    RenderModel { active: None, pending: Seq::empty(), limit, threshold }
}

/// One flush: from idle, the buffer becomes a new message; from a live
/// message whose length plus the buffer's would reach the limit, the buffer
/// alone becomes a new message; otherwise the live message is edited to its
/// text extended by the buffer. The buffer is cleared either way.
pub open spec fn spec_flush(m: RenderModel) -> (RenderModel, ActionView) {
    let p = m.pending;
    match m.active {
        None => (
            RenderModel { active: Some(p), pending: Seq::empty(), limit: m.limit, threshold: m.threshold },
            ActionView::NewMessage(p),
        ),
        Some(cur) => {
            if cur.len() + p.len() >= m.limit {
                (
                    RenderModel {
                        active: Some(p),
                        pending: Seq::empty(),
                        limit: m.limit,
                        threshold: m.threshold,
                    },
                    ActionView::NewMessage(p),
                )
            } else {
                (
                    RenderModel {
                        active: Some(cur + p),
                        pending: Seq::empty(),
                        limit: m.limit,
                        threshold: m.threshold,
                    },
                    ActionView::EditMessage(cur + p),
                )
            }
        },
    }
}

/// One delta event: its text joins the buffer; the flush fires when the
/// event is terminal or the buffer has reached the threshold.
pub open spec fn spec_on_event(m: RenderModel, text: Seq<char>, terminal: bool) -> (
    RenderModel,
    Option<ActionView>,
) {
    let m1 = RenderModel {
        active: m.active,
        pending: m.pending + text,
        limit: m.limit,
        threshold: m.threshold,
    };
    if terminal || m1.pending.len() >= m.threshold {
        let r = spec_flush(m1);
        (r.0, Some(r.1))
    } else {
        (m1, None)
    }
}

/// A whole delta sequence, and every action it causes, in order.
pub open spec fn spec_run(m: RenderModel, evs: Seq<EventView>) -> (RenderModel, Seq<ActionView>)
    decreases evs.len(),
{
    if evs.len() == 0 {
        (m, Seq::empty())
    } else {
        let first = spec_on_event(m, evs[0].text, evs[0].terminal);
        let rest = spec_run(first.0, evs.drop_first());
        (
            rest.0,
            match first.1 {
                Some(a) => seq![a] + rest.1,
                None => rest.1,
            },
        )
    }
}

/// The concatenation of the delta texts of a sequence of events.
pub open spec fn concat_texts(evs: Seq<EventView>) -> Seq<char>
    decreases evs.len(),
{
    if evs.len() == 0 {
        Seq::empty()
    } else {
        evs[0].text + concat_texts(evs.drop_first())
    }
}

/// The renderer: one per backend request, driving the outbound chat
/// surface through the actions it returns.
pub struct ResponseRenderer {
    pub active: Option<String>,
    pub pending: String,
    pub limit: usize,
    pub threshold: usize,
}

impl ResponseRenderer {
    /// The renderer's mathematical state.
    pub open spec fn model(self) -> RenderModel {
        RenderModel {
            active: match self.active {
                Some(s) => Some(s@),
                None => None,
            },
            pending: self.pending@,
            limit: self.limit as nat,
            threshold: self.threshold as nat,
        }
    }

    /// A fresh renderer with the given per-message length limit and flush
    /// threshold, both in characters.
    pub fn new(limit: usize, threshold: usize) -> (r: Self)
        requires
            1 <= limit,
            1 <= threshold,
        ensures
            r.model() == init_render_model(limit as nat, threshold as nat),
    {
        let r = ResponseRenderer { active: None, pending: String::new(), limit, threshold };
        assert(r.model().pending =~= init_render_model(limit as nat, threshold as nat).pending);
        r
    }

    /// Takes one decoded event and decides the outbound operation, exactly
    /// as [`spec_on_event`] says: `None` while the buffer keeps filling, or
    /// the flush that the caller must perform on the chat surface.
    pub fn on_event(&mut self, ev: &DeltaEvent) -> (r: Option<FlushAction>)
        ensures
            ({
                let step = spec_on_event(old(self).model(), ev.text@, ev.terminal);
                &&& final(self).model() == step.0
                &&& action_opt_view(r) == step.1
            }),
    {
        self.pending.append(ev.text.as_str());
        let plen = self.pending.as_str().unicode_len();
        if !(ev.terminal || plen >= self.threshold) {
            return None;
        }
        let p = self.pending.clone();
        self.pending = String::new();
        assert(self.pending@ =~= Seq::<char>::empty());
        let is_idle = self.active.is_none();
        if is_idle {
            self.active = Some(p.clone());
            Some(FlushAction::NewMessage(p))
        } else {
            let cur_len = match self.active.as_ref() {
                Some(cur) => cur.as_str().unicode_len(),
                None => 0,
            };
            let p_len = p.as_str().unicode_len();
            let boundary = cur_len >= self.limit || p_len >= self.limit - cur_len;
            if boundary {
                self.active = Some(p.clone());
                Some(FlushAction::NewMessage(p))
            } else {
                let mut grown = match self.active.as_ref() {
                    Some(cur) => cur.clone(),
                    None => String::new(),
                };
                grown.append(p.as_str());
                self.active = Some(grown.clone());
                Some(FlushAction::EditMessage(grown))
            }
        }
    }
}

/// The renderer's running invariant: between events the buffer is below
/// the threshold, and the live message is below the per-message limit.
pub open spec fn spec_within_limit(m: RenderModel) -> bool {
    &&& m.pending.len() < m.threshold
    &&& match m.active {
        Some(t) => t.len() < m.limit,
        None => true,
    }
}

/// The live message never outgrows the per-message limit: as long as the
/// threshold is no larger than the limit and no single delta is longer
/// than their difference, every flush hands the chat surface a text
/// shorter than the limit, and the invariant carries from each event to
/// the next.
pub proof fn lemma_flush_respects_limit(m: RenderModel, text: Seq<char>, terminal: bool)
    requires
        1 <= m.threshold <= m.limit,
        spec_within_limit(m),
        text.len() <= m.limit - m.threshold,
    ensures
        ({
            let r = spec_on_event(m, text, terminal);
            &&& spec_within_limit(r.0)
            &&& match r.1 {
                Some(ActionView::NewMessage(s)) => s.len() < m.limit,
                Some(ActionView::EditMessage(s)) => s.len() < m.limit,
                None => true,
            }
        }),
{
}

/// Unfolding of [`concat_texts`] at a nonempty sequence.
proof fn lemma_concat_texts_cons(evs: Seq<EventView>)
    requires
        evs.len() >= 1,
    ensures
        concat_texts(evs) == evs[0].text + concat_texts(evs.drop_first()),
{
}

/// Helper for [`lemma_one_flush_one_message`]: from an idle renderer, a
/// delta sequence whose only flush is the terminal one produces exactly one
/// send of the whole buffered text.
proof fn lemma_run_idle_accumulates(m: RenderModel, evs: Seq<EventView>)
    requires
        m.active is None,
        evs.len() >= 1,
        forall|i: int| 0 <= i < evs.len() - 1 ==> !(#[trigger] evs[i]).terminal,
        evs[evs.len() - 1].terminal,
        forall|i: int|
            1 <= i <= evs.len() - 1 ==> m.pending.len() + (#[trigger] concat_texts(
                evs.take(i),
            )).len() < m.threshold,
    ensures
        ({
            let r = spec_run(m, evs);
            &&& r.1 == seq![ActionView::NewMessage(m.pending + concat_texts(evs))]
            &&& r.0.active == Some(m.pending + concat_texts(evs))
            &&& r.0.pending.len() == 0
        }),
    decreases evs.len(),
{
    let first = spec_on_event(m, evs[0].text, evs[0].terminal);
    if evs.len() == 1 {
        assert(evs.drop_first().len() == 0);
        assert(concat_texts(evs.drop_first()) =~= Seq::<char>::empty());
        assert(concat_texts(evs) =~= evs[0].text);
        assert(first.1 == Some(ActionView::NewMessage(m.pending + evs[0].text)));
        assert(spec_run(first.0, evs.drop_first()).1 =~= Seq::<ActionView>::empty());
        assert(spec_run(m, evs).1 =~= seq![ActionView::NewMessage(m.pending + concat_texts(evs))]);
    } else {
        lemma_concat_texts_cons(evs.take(1));
        assert(evs.take(1)[0] == evs[0]);
        assert(evs.take(1).drop_first() =~= Seq::<EventView>::empty());
        assert(concat_texts(Seq::<EventView>::empty()) =~= Seq::<char>::empty());
        assert(concat_texts(evs.take(1)) =~= evs[0].text);
        assert(m.pending.len() + evs[0].text.len() < m.threshold);
        assert(!evs[0].terminal);
        let m1 = first.0;
        assert(first.1 is None);
        assert(m1.pending == m.pending + evs[0].text);
        let tail = evs.drop_first();
        assert(tail[tail.len() - 1] == evs[evs.len() - 1]);
        assert forall|i: int|
            1 <= i <= tail.len() - 1 implies m1.pending.len() + (#[trigger] concat_texts(
            tail.take(i),
        )).len() < m1.threshold by {
            assert(evs.take(i + 1).len() == i + 1);
            lemma_concat_texts_cons(evs.take(i + 1));
            assert(evs.take(i + 1)[0] == evs[0]);
            assert(evs.take(i + 1).drop_first() =~= tail.take(i));
            assert(concat_texts(evs.take(i + 1)) == evs[0].text + concat_texts(tail.take(i)));
            assert(m.pending.len() + concat_texts(evs.take(i + 1)).len() < m.threshold);
        }
        lemma_run_idle_accumulates(m1, tail);
        assert(concat_texts(evs) == evs[0].text + concat_texts(tail));
        assert(m1.pending + concat_texts(tail) =~= m.pending + concat_texts(evs));
    }
}

/// A response that arrives without an intermediate flush — no event before
/// the terminal one lifts the buffer to the threshold — is rendered as one
/// single new-message send carrying the whole text. In particular, a
/// response whose total length is exactly the per-message limit, delivered
/// this way, never triggers a second message.
pub proof fn lemma_one_flush_one_message(limit: nat, threshold: nat, evs: Seq<EventView>)
    requires
        evs.len() >= 1,
        forall|i: int| 0 <= i < evs.len() - 1 ==> !(#[trigger] evs[i]).terminal,
        evs[evs.len() - 1].terminal,
        forall|i: int|
            1 <= i <= evs.len() - 1 ==> (#[trigger] concat_texts(evs.take(i))).len() < threshold,
    ensures
        ({
            let r = spec_run(init_render_model(limit, threshold), evs);
            &&& r.1 == seq![ActionView::NewMessage(concat_texts(evs))]
            &&& r.0.active == Some(concat_texts(evs))
        }),
{
    let m = init_render_model(limit, threshold);
    lemma_run_idle_accumulates(m, evs);
    assert(m.pending + concat_texts(evs) =~= concat_texts(evs));
}

} // verus!
