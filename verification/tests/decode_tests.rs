use chat_pipeline::decode::{DecodeError, StreamDecoder, WireVariant};

fn events_of(d: &mut StreamDecoder, bytes: &[u8]) -> Vec<(String, bool)> {
    d.feed(bytes).into_iter().map(|e| (e.text, e.terminal)).collect()
}

#[test]
fn line_json_delta_line_yields_one_event() {
    let mut d = StreamDecoder::new(WireVariant::LineJson);
    let evs = events_of(&mut d, b"{\"message\":{\"content\":\"foo\"},\"done\":false}\n");
    assert_eq!(evs, vec![(String::from("foo"), false)]);
}

#[test]
fn line_json_done_line_yields_terminal_event() {
    let mut d = StreamDecoder::new(WireVariant::LineJson);
    let evs = events_of(&mut d, b"{\"message\":{\"content\":\"\"},\"done\":true}\n");
    assert_eq!(evs, vec![(String::new(), true)]);
    assert!(d.finish().unwrap().is_empty());
}

#[test]
fn line_json_missing_content_reads_as_empty() {
    let mut d = StreamDecoder::new(WireVariant::LineJson);
    let evs = events_of(&mut d, b"{\"done\":false}\n");
    assert_eq!(evs, vec![(String::new(), false)]);
}

#[test]
fn event_stream_delta_line_yields_one_event() {
    let mut d = StreamDecoder::new(WireVariant::EventStream);
    let evs = events_of(
        &mut d,
        b"data: {\"choices\":[{\"delta\":{\"content\":\"bar\"},\"finish_reason\":null}]}\n",
    );
    assert_eq!(evs, vec![(String::from("bar"), false)]);
}

#[test]
fn event_stream_stop_reason_is_terminal() {
    let mut d = StreamDecoder::new(WireVariant::EventStream);
    let evs = events_of(
        &mut d,
        b"data: {\"choices\":[{\"delta\":{},\"finish_reason\":\"stop\"}]}\n",
    );
    assert_eq!(evs, vec![(String::new(), true)]);
}

#[test]
fn event_stream_length_reason_is_terminal() {
    let mut d = StreamDecoder::new(WireVariant::EventStream);
    let evs = events_of(
        &mut d,
        b"data: {\"choices\":[{\"delta\":{\"content\":\"x\"},\"finish_reason\":\"length\"}]}\n",
    );
    assert_eq!(evs, vec![(String::from("x"), true)]);
}

#[test]
fn event_stream_done_marker_yields_no_event() {
    let mut d = StreamDecoder::new(WireVariant::EventStream);
    let evs = events_of(&mut d, b"data: [DONE]\n");
    assert!(evs.is_empty());
    assert!(d.finish().unwrap().is_empty());
}

#[test]
fn event_stream_skips_blank_and_unprefixed_lines() {
    let mut d = StreamDecoder::new(WireVariant::EventStream);
    let evs = events_of(&mut d, b"\n\nevent: ping\nid: 7\n");
    assert!(evs.is_empty());
}

#[test]
fn chunk_boundaries_do_not_change_the_event_sequence() {
    let stream: &[u8] = b"data: {\"choices\":[{\"delta\":{\"content\":\"he\"},\"finish_reason\":null}]}\n\ndata: {\"choices\":[{\"delta\":{\"content\":\"llo\"},\"finish_reason\":\"stop\"}]}\ndata: [DONE]\n";

    let mut whole = StreamDecoder::new(WireVariant::EventStream);
    let mut whole_events = events_of(&mut whole, stream);
    whole_events.extend(whole.finish().unwrap().into_iter().map(|e| (e.text, e.terminal)));

    let mut bytewise = StreamDecoder::new(WireVariant::EventStream);
    let mut byte_events: Vec<(String, bool)> = Vec::new();
    for b in stream {
        byte_events.extend(events_of(&mut bytewise, &[*b]));
    }
    byte_events.extend(bytewise.finish().unwrap().into_iter().map(|e| (e.text, e.terminal)));

    assert_eq!(whole_events, byte_events);
    assert_eq!(
        whole_events,
        vec![(String::from("he"), false), (String::from("llo"), true)]
    );
}

#[test]
fn a_line_split_across_reads_is_buffered() {
    let mut d = StreamDecoder::new(WireVariant::LineJson);
    assert!(events_of(&mut d, b"{\"message\":{\"content\":").is_empty());
    let evs = events_of(&mut d, b"\"zip\"},\"done\":false}\n");
    assert_eq!(evs, vec![(String::from("zip"), false)]);
}

#[test]
fn undecodable_residue_at_end_of_stream_is_an_error() {
    let mut d = StreamDecoder::new(WireVariant::LineJson);
    assert!(events_of(&mut d, b"{\"message\":{\"cont").is_empty());
    assert!(matches!(d.finish(), Err(DecodeError::TrailingGarbage)));
}

#[test]
fn undecodable_event_residue_at_end_of_stream_is_an_error() {
    let mut d = StreamDecoder::new(WireVariant::EventStream);
    assert!(events_of(&mut d, b"data: {\"choices\":[").is_empty());
    assert!(matches!(d.finish(), Err(DecodeError::TrailingGarbage)));
}

#[test]
fn decodable_residue_without_newline_still_yields_its_event() {
    let mut d = StreamDecoder::new(WireVariant::LineJson);
    assert!(events_of(&mut d, b"{\"message\":{\"content\":\"end\"},\"done\":true}").is_empty());
    let evs: Vec<(String, bool)> =
        d.finish().unwrap().into_iter().map(|e| (e.text, e.terminal)).collect();
    assert_eq!(evs, vec![(String::from("end"), true)]);
}

#[test]
fn lines_after_the_terminal_event_are_ignored() {
    let mut d = StreamDecoder::new(WireVariant::LineJson);
    let evs = events_of(
        &mut d,
        b"{\"message\":{\"content\":\"a\"},\"done\":true}\n{\"message\":{\"content\":\"b\"},\"done\":false}\nnot json at all\n",
    );
    assert_eq!(evs, vec![(String::from("a"), true)]);
    assert!(d.finish().unwrap().is_empty());
}

#[test]
fn bad_line_mid_stream_is_dropped_and_decoding_goes_on() {
    let mut d = StreamDecoder::new(WireVariant::LineJson);
    let evs = events_of(
        &mut d,
        b"not json\n{\"message\":{\"content\":\"ok\"},\"done\":false}\n",
    );
    assert_eq!(evs, vec![(String::from("ok"), false)]);
}
