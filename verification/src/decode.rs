//! Decoding of the backend's streaming wire protocol.
//!
//! Bytes arrive from the transport in arbitrary chunks. The decoder buffers
//! them until a full newline-terminated line has accumulated, decodes the
//! line under one of two framings, and emits zero or one [`DeltaEvent`] per
//! line. The first terminal event ends the decode session: later lines
//! yield nothing. At end of stream an undecodable residual buffer is a
//! decode error, not silently dropped.
//!
//! The two framings:
//! - [`WireVariant::LineJson`]: every line is one JSON object carrying
//!   `message.content` and `done`.
//! - [`WireVariant::EventStream`]: lines carrying the `data: ` prefix hold a
//!   JSON object with `choices[0].delta.content` and
//!   `choices[0].finish_reason`; the `[DONE]` marker, blank lines and lines
//!   without the prefix are skipped.

use vstd::prelude::*;
use vstd::string::StringExecFns;

verus! {

/// One decoded increment of generated text. `terminal` marks the end of
/// generation and is the last event of a decode session.
#[derive(Clone, Debug)]
pub struct DeltaEvent {
    pub text: String,
    pub terminal: bool,
}

/// The mathematical value of a [`DeltaEvent`].
pub struct EventView {
    pub text: Seq<char>,
    pub terminal: bool,
}

impl View for DeltaEvent {
    type V = EventView;

    open spec fn view(&self) -> EventView {
        EventView { text: self.text@, terminal: self.terminal }
    }
}

/// The values of a list of events.
pub open spec fn events_view(es: Seq<DeltaEvent>) -> Seq<EventView> {
    es.map_values(|e: DeltaEvent| e@)
}

/// The two wire framings, chosen once at construction.
#[derive(Clone, Copy, PartialEq, Eq, Structural, Debug)]
pub enum WireVariant {
    /// Newline-delimited JSON objects with `message.content` and `done`.
    LineJson,
    /// Event-stream lines: `data: ` followed by a JSON object with
    /// `choices[0].delta.content` and `choices[0].finish_reason`.
    EventStream,
}

/// Failure of a decode session.
#[derive(Clone, Copy, PartialEq, Eq, Debug)]
pub enum DecodeError {
    /// The stream ended with an undecodable partial line in the buffer.
    TrailingGarbage,
}

/// What parsing one complete line under [`WireVariant::LineJson`] yields:
/// the `message.content` string (absent means empty) and the `done` flag,
/// or nothing when the bytes are not a well-formed JSON object. A function
/// of the line alone.
pub uninterp spec fn line_json_parse(line: Seq<u8>) -> Option<(Seq<char>, bool)>;

/// What parsing one event payload under [`WireVariant::EventStream`]
/// yields: the `choices[0].delta.content` string (absent means empty) and
/// the `choices[0].finish_reason` string if present, or nothing when the
/// bytes are not a well-formed JSON object. A function of the payload
/// alone.
pub uninterp spec fn event_json_parse(payload: Seq<u8>) -> Option<(Seq<char>, Option<Seq<char>>)>;

/// Relies on `serde_json::from_slice` and `serde_json::Value`'s indexing,
/// `as_str` and `as_bool`: parsing depends on the input bytes alone; a
/// missing `message.content` reads as empty, a missing `done` as false.
#[verifier::external_body]
fn parse_line_json(line: &[u8]) -> (r: Option<(String, bool)>)
    ensures
        line_json_parse(line@) == match r {
            Some(p) => Some((p.0@, p.1)),
            None => None::<(Seq<char>, bool)>,
        },
{
    match serde_json::from_slice::<serde_json::Value>(line) {
        Ok(v) => {
            let text = v["message"]["content"].as_str().unwrap_or("").to_string();
            let done = v["done"].as_bool().unwrap_or(false);
            Some((text, done))
        },
        Err(_) => None,
    }
}

/// Relies on `serde_json::from_slice` and `serde_json::Value`'s indexing and
/// `as_str`: parsing depends on the input bytes alone; a missing
/// `choices[0].delta.content` reads as empty.
#[verifier::external_body]
fn parse_event_json(payload: &[u8]) -> (r: Option<(String, Option<String>)>)
    ensures
        event_json_parse(payload@) == match r {
            Some(p) => Some(
                (
                    p.0@,
                    match p.1 {
                        Some(f) => Some(f@),
                        None => None::<Seq<char>>,
                    },
                ),
            ),
            None => None::<(Seq<char>, Option<Seq<char>>)>,
        },
{
    match serde_json::from_slice::<serde_json::Value>(payload) {
        Ok(v) => {
            let text = v["choices"][0]["delta"]["content"].as_str().unwrap_or("").to_string();
            let finish = v["choices"][0]["finish_reason"].as_str().map(|s| s.to_string());
            Some((text, finish))
        },
        Err(_) => None,
    }
}

/// The `data: ` prefix of event-stream lines.
pub open spec fn data_prefix() -> Seq<u8> {
    seq![100u8, 97u8, 116u8, 97u8, 58u8, 32u8]
}

/// The explicit end-of-stream marker of event-stream payloads.
pub open spec fn done_marker() -> Seq<u8> {
    seq![91u8, 68u8, 79u8, 78u8, 69u8, 93u8]
}

/// The finish reasons that mark the end of generation: a normal stop or the
/// length cutoff.
pub open spec fn spec_is_stop_reason(r: Seq<char>) -> bool {
    r == "stop"@ || r == "length"@
}

/// What one complete line yields.
pub enum SpecLineOutcome {
    /// The line carries one event.
    Emit { text: Seq<char>, terminal: bool },
    /// The line carries nothing and is dropped.
    Skip,
    /// The line should have carried an event but cannot be decoded.
    Bad,
}

/// Decoding of one complete line under either framing.
pub open spec fn spec_decode_line(v: WireVariant, line: Seq<u8>) -> SpecLineOutcome {
    match v {
        WireVariant::LineJson => {
            if line.len() == 0 {
                SpecLineOutcome::Skip
            } else {
                match line_json_parse(line) {
                    Some(p) => SpecLineOutcome::Emit { text: p.0, terminal: p.1 },
                    None => SpecLineOutcome::Bad,
                }
            }
        },
        WireVariant::EventStream => {
            if line.len() < 6 || line.take(6) != data_prefix() {
                SpecLineOutcome::Skip
            } else if line.skip(6) == done_marker() {
                SpecLineOutcome::Skip
            } else {
                match event_json_parse(line.skip(6)) {
                    Some(p) => SpecLineOutcome::Emit {
                        text: p.0,
                        terminal: match p.1 {
                            Some(f) => spec_is_stop_reason(f),
                            None => false,
                        },
                    },
                    None => SpecLineOutcome::Bad,
                }
            }
        },
    }
}

/// The full state of one decode session: the buffered partial line, whether
/// the terminal event has been emitted, and the events emitted so far.
pub struct DecodeStateView {
    pub buf: Seq<u8>,
    pub done: bool,
    pub events: Seq<EventView>,
}

/// A complete line has accumulated: decode it and clear the buffer. After
/// the terminal event the session emits nothing further.
pub open spec fn spec_line_step(v: WireVariant, st: DecodeStateView) -> DecodeStateView {
    if st.done {
        DecodeStateView { buf: Seq::empty(), done: true, events: st.events }
    } else {
        match spec_decode_line(v, st.buf) {
            SpecLineOutcome::Emit { text, terminal } => DecodeStateView {
                buf: Seq::empty(),
                done: terminal,
                events: st.events.push(EventView { text, terminal }),
            },
            _ => DecodeStateView { buf: Seq::empty(), done: false, events: st.events },
        }
    }
}

/// One byte of transport input: a newline completes the buffered line,
/// anything else extends it.
pub open spec fn spec_step_byte(v: WireVariant, st: DecodeStateView, b: u8) -> DecodeStateView {
    if b == 10 {
        spec_line_step(v, st)
    } else {
        DecodeStateView { buf: st.buf.push(b), done: st.done, events: st.events }
    }
}

/// A run of transport bytes, one at a time.
pub open spec fn spec_consume(v: WireVariant, st: DecodeStateView, bytes: Seq<u8>) -> DecodeStateView
    decreases bytes.len(),
{
    if bytes.len() == 0 {
        st
    } else {
        spec_consume(v, spec_step_byte(v, st, bytes[0]), bytes.drop_first())
    }
}

/// Consuming a concatenation equals consuming its parts in order: the
/// decoder has no memory of where one transport read ended and the next
/// began.
pub proof fn lemma_consume_append(v: WireVariant, st: DecodeStateView, a: Seq<u8>, b: Seq<u8>)
    ensures
        spec_consume(v, st, a + b) == spec_consume(v, spec_consume(v, st, a), b),
    decreases a.len(),
{
    if a.len() == 0 {
        assert(a + b =~= b);
    } else {
        assert((a + b)[0] == a[0]);
        assert((a + b).drop_first() =~= a.drop_first() + b);
        lemma_consume_append(v, spec_step_byte(v, st, a[0]), a.drop_first(), b);
    }
}

/// Consuming one more byte applies one more step.
pub proof fn lemma_consume_snoc(v: WireVariant, st: DecodeStateView, a: Seq<u8>, x: u8)
    ensures
        spec_consume(v, st, a.push(x)) == spec_step_byte(v, spec_consume(v, st, a), x),
{
    assert(a.push(x) =~= a + seq![x]);
    lemma_consume_append(v, st, a, seq![x]);
    let st1 = spec_consume(v, st, a);
    assert(seq![x][0] == x);
    assert(seq![x].drop_first() =~= Seq::<u8>::empty());
    assert(spec_consume(v, st1, seq![x]) == spec_consume(
        v,
        spec_step_byte(v, st1, x),
        seq![x].drop_first(),
    ));
    assert(spec_consume(v, spec_step_byte(v, st1, x), Seq::<u8>::empty()) == spec_step_byte(
        v,
        st1,
        x,
    ));
}

/// Consuming a list of chunks in order.
pub open spec fn spec_consume_chunks(
    v: WireVariant,
    st: DecodeStateView,
    chunks: Seq<Seq<u8>>,
) -> DecodeStateView
    decreases chunks.len(),
{
    if chunks.len() == 0 {
        st
    } else {
        spec_consume_chunks(v, spec_consume(v, st, chunks[0]), chunks.drop_first())
    }
}

/// The decoder is agnostic to transport chunk boundaries: any split of a
/// byte stream into chunks — one byte each, one single chunk, or anything
/// between — leaves the final state, and with it the emitted event
/// sequence, identical.
pub proof fn lemma_chunking_agnostic(v: WireVariant, st: DecodeStateView, chunks: Seq<Seq<u8>>)
    ensures
        spec_consume_chunks(v, st, chunks) == spec_consume(v, st, chunks.flatten()),
    decreases chunks.len(),
{
    if chunks.len() == 0 {
        assert(chunks.flatten() =~= Seq::<u8>::empty());
    } else {
        lemma_chunking_agnostic(v, spec_consume(v, st, chunks[0]), chunks.drop_first());
        lemma_consume_append(v, st, chunks[0], chunks.drop_first().flatten());
    }
}

/// The shape every decode session keeps: at most the last event is
/// terminal, and the session is done exactly when a terminal event has been
/// emitted.
pub open spec fn spec_events_wf(st: DecodeStateView) -> bool {
    &&& forall|i: int| 0 <= i < st.events.len() - 1 ==> !(#[trigger] st.events[i]).terminal
    &&& st.done == (st.events.len() > 0 && st.events[st.events.len() - 1].terminal)
}

/// A terminal event is the last event of its decode session: from any state
/// of the emitted sequence's shape — a fresh decoder trivially has it —
/// consuming any bytes preserves it, so no event ever follows the terminal
/// one.
pub proof fn lemma_terminal_event_is_last(v: WireVariant, st: DecodeStateView, bytes: Seq<u8>)
    requires
        spec_events_wf(st),
    ensures
        spec_events_wf(spec_consume(v, st, bytes)),
    decreases bytes.len(),
{
    if bytes.len() > 0 {
        lemma_terminal_event_is_last(v, spec_step_byte(v, st, bytes[0]), bytes.drop_first());
    }
}

/// What the residual buffer yields at end of stream: a decodable residual
/// line contributes its event, an empty or skippable one nothing, an
/// undecodable one fails the session. After the terminal event the residue
/// is ignored.
pub open spec fn spec_finish_events(v: WireVariant, st: DecodeStateView) -> Option<Seq<EventView>> {
    if st.done || st.buf.len() == 0 {
        Some(st.events)
    } else {
        match spec_decode_line(v, st.buf) {
            SpecLineOutcome::Emit { text, terminal } => Some(
                st.events.push(EventView { text, terminal }),
            ),
            SpecLineOutcome::Skip => Some(st.events),
            SpecLineOutcome::Bad => None,
        }
    }
}

/// What one complete line yields, executably.
pub enum LineOutcome {
    Emit(DeltaEvent),
    Skip,
    Bad,
}

/// Decodes one complete line under the given framing.
fn decode_line(variant: WireVariant, line: &Vec<u8>) -> (r: LineOutcome)
    ensures
        match r {
            LineOutcome::Emit(e) => spec_decode_line(variant, line@) == (SpecLineOutcome::Emit {
                text: e.text@,
                terminal: e.terminal,
            }),
            LineOutcome::Skip => spec_decode_line(variant, line@) == SpecLineOutcome::Skip,
            LineOutcome::Bad => spec_decode_line(variant, line@) == SpecLineOutcome::Bad,
        },
{
    match variant {
        WireVariant::LineJson => {
            if line.len() == 0 {
                return LineOutcome::Skip;
            }
            match parse_line_json(line.as_slice()) {
                Some((text, done)) => LineOutcome::Emit(DeltaEvent { text, terminal: done }),
                None => LineOutcome::Bad,
            }
        },
        WireVariant::EventStream => {
            let mut prefix: Vec<u8> = Vec::new();
            prefix.push(100u8);
            prefix.push(97u8);
            prefix.push(116u8);
            prefix.push(97u8);
            prefix.push(58u8);
            prefix.push(32u8);
            assert(prefix@ =~= data_prefix());
            if !starts_with_bytes(line, &prefix) {
                return LineOutcome::Skip;
            }
            let payload = skip_bytes(line, 6);
            let mut marker: Vec<u8> = Vec::new();
            marker.push(91u8);
            marker.push(68u8);
            marker.push(79u8);
            marker.push(78u8);
            marker.push(69u8);
            marker.push(93u8);
            assert(marker@ =~= done_marker());
            if bytes_eq(&payload, &marker) {
                return LineOutcome::Skip;
            }
            match parse_event_json(payload.as_slice()) {
                Some((text, finish)) => {
                    let terminal = match &finish {
                        Some(f) => is_stop_reason(f),
                        None => false,
                    };
                    LineOutcome::Emit(DeltaEvent { text, terminal })
                },
                None => LineOutcome::Bad,
            }
        },
    }
}

/// Is the finish reason one that ends generation?
fn is_stop_reason(f: &String) -> (r: bool)
    ensures
        r == spec_is_stop_reason(f@),
{
    let stop = String::from_str("stop");
    let length = String::from_str("length");
    *f == stop || *f == length
}

/// Does `line` start with `pat`?
fn starts_with_bytes(line: &Vec<u8>, pat: &Vec<u8>) -> (r: bool)
    ensures
        r == (line@.len() >= pat@.len() && line@.take(pat@.len() as int) == pat@),
{
    if line.len() < pat.len() {
        return false;
    }
    let n = pat.len();
    let mut j: usize = 0;
    while j < n
        invariant
            j <= n,
            n == pat@.len(),
            n <= line@.len(),
            forall|k: int| 0 <= k < j ==> line@[k] == pat@[k],
        decreases n - j,
    {
        if line[j] != pat[j] {
            assert(line@.take(pat@.len() as int)[j as int] == line@[j as int]);
            return false;
        }
        j = j + 1;
    }
    assert(line@.take(pat@.len() as int) =~= pat@);
    true
}

/// Are two byte vectors equal?
fn bytes_eq(a: &Vec<u8>, b: &Vec<u8>) -> (r: bool)
    ensures
        r == (a@ == b@),
{
    if a.len() != b.len() {
        return false;
    }
    let n = a.len();
    let mut j: usize = 0;
    while j < n
        invariant
            j <= n,
            n == a@.len(),
            n == b@.len(),
            forall|k: int| 0 <= k < j ==> a@[k] == b@[k],
        decreases n - j,
    {
        if a[j] != b[j] {
            return false;
        }
        j = j + 1;
    }
    assert(a@ =~= b@);
    true
}

/// The suffix of `line` from position `n` on.
fn skip_bytes(line: &Vec<u8>, n: usize) -> (r: Vec<u8>)
    requires
        n <= line@.len(),
    ensures
        r@ == line@.skip(n as int),
{
    let mut r: Vec<u8> = Vec::new();
    let mut i: usize = n;
    let len = line.len();
    while i < len
        invariant
            n <= i <= len,
            len == line@.len(),
            r@ == line@.subrange(n as int, i as int),
        decreases len - i,
    {
        r.push(line[i]);
        assert(line@.subrange(n as int, i + 1) =~= line@.subrange(n as int, i as int).push(
            line@[i as int],
        ));
        i = i + 1;
    }
    assert(line@.subrange(n as int, len as int) =~= line@.skip(n as int));
    r
}

/// The streaming decoder: one per backend request. Feed it the transport's
/// byte chunks as they arrive; close it with [`StreamDecoder::finish`] when
/// the stream ends.
pub struct StreamDecoder {
    pub variant: WireVariant,
    pub buf: Vec<u8>,
    pub done: bool,
}

impl StreamDecoder {
    /// The decoder's state, paired with a given event history.
    pub open spec fn st(self, events: Seq<EventView>) -> DecodeStateView {
        DecodeStateView { buf: self.buf@, done: self.done, events }
    }

    /// A fresh decode session under the given framing.
    pub fn new(variant: WireVariant) -> (r: Self)
        ensures
            r.variant == variant,
            r.buf@ == Seq::<u8>::empty(),
            r.done == false,
    {
        StreamDecoder { variant, buf: Vec::new(), done: false }
    }

    /// Consumes one transport chunk and returns the events its completed
    /// lines yield, in order. The final state and the events are exactly
    /// those of [`spec_consume`] over the chunk's bytes, so any chunking of
    /// the same byte stream decodes alike.
    pub fn feed(&mut self, chunk: &[u8]) -> (events: Vec<DeltaEvent>)
        ensures
            final(self).variant == old(self).variant,
            ({
                let r = spec_consume(
                    old(self).variant,
                    old(self).st(Seq::empty()),
                    chunk@,
                );
                &&& final(self).buf@ == r.buf
                &&& final(self).done == r.done
                &&& events_view(events@) == r.events
            }),
    {
        let ghost v = self.variant;
        let ghost st0 = self.st(Seq::empty());
        let mut events: Vec<DeltaEvent> = Vec::new();
        let n = chunk.len();
        let mut i: usize = 0;
        assert(chunk@.take(0) =~= Seq::<u8>::empty());
        assert(events_view(events@) =~= Seq::<EventView>::empty());
        while i < n
            invariant
                i <= n,
                n == chunk@.len(),
                self.variant == v,
                ({
                    let r = spec_consume(v, st0, chunk@.take(i as int));
                    &&& self.buf@ == r.buf
                    &&& self.done == r.done
                    &&& events_view(events@) == r.events
                }),
            decreases n - i,
        {
            let b = chunk[i];
            proof {
                assert(chunk@.take(i + 1) =~= chunk@.take(i as int).push(chunk@[i as int]));
                lemma_consume_snoc(v, st0, chunk@.take(i as int), chunk@[i as int]);
            }
            if b == 10 {
                if self.done {
                    self.buf.clear();
                } else {
                    let outcome = decode_line(self.variant, &self.buf);
                    self.buf.clear();
                    match outcome {
                        LineOutcome::Emit(e) => {
                            let ghost prev = events@;
                            if e.terminal {
                                self.done = true;
                            }
                            let ghost ev = e@;
                            events.push(e);
                            assert(events_view(events@) =~= events_view(prev).push(ev));
                        },
                        LineOutcome::Skip => {},
                        LineOutcome::Bad => {},
                    }
                }
            } else {
                self.buf.push(b);
            }
            i = i + 1;
        }
        assert(chunk@.take(n as int) =~= chunk@);
        events
    }

    /// Ends the decode session. A decodable residual line still yields its
    /// event; an undecodable residue is a decode error.
    pub fn finish(self) -> (r: Result<Vec<DeltaEvent>, DecodeError>)
        ensures
            match r {
                Ok(events) => spec_finish_events(self.variant, self.st(Seq::empty()))
                    == Some(events_view(events@)),
                Err(e) => {
                    &&& spec_finish_events(self.variant, self.st(Seq::empty())) is None
                    &&& e == DecodeError::TrailingGarbage
                },
            },
    {
        if self.done || self.buf.len() == 0 {
            let events: Vec<DeltaEvent> = Vec::new();
            assert(events_view(events@) =~= Seq::<EventView>::empty());
            return Ok(events);
        }
        match decode_line(self.variant, &self.buf) {
            LineOutcome::Emit(e) => {
                let ghost ev = e@;
                let mut events: Vec<DeltaEvent> = Vec::new();
                events.push(e);
                assert(events_view(events@) =~= Seq::<EventView>::empty().push(ev));
                Ok(events)
            },
            LineOutcome::Skip => {
                let events: Vec<DeltaEvent> = Vec::new();
                assert(events_view(events@) =~= Seq::<EventView>::empty());
                Ok(events)
            },
            LineOutcome::Bad => Err(DecodeError::TrailingGarbage),
        }
    }
}

} // verus!
