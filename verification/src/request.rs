//! Framing of the outbound backend request body.
//!
//! The request is one JSON object: the model identifier, the conversational
//! turns as role/content objects, and the streaming flag. The framing is
//! built character by character and verified against the spec-level shape,
//! with JSON string escaping for quotes, backslashes and control
//! characters.

use vstd::prelude::*;

use crate::context::{turns_view, Role, Turn, TurnView};
use crate::strutil::{chars_of, string_of_chars};

verus! {

/// A hexadecimal digit character, lower case.
pub open spec fn spec_hex_digit(d: int) -> char {
    if d < 10 {
        crate::strutil::spec_digit(d)
    } else if d == 10 {
        'a'
    } else if d == 11 {
        'b'
    } else if d == 12 {
        'c'
    } else if d == 13 {
        'd'
    } else if d == 14 {
        'e'
    } else {
        'f'
    }
}

/// JSON escaping of one character: quote and backslash take a backslash,
/// control characters become a `\u00XX` escape, everything else stands as
/// itself.
pub open spec fn spec_escape_char(c: char) -> Seq<char> {
    if c == '"' {
        seq!['\\', '"']
    } else if c == '\\' {
        seq!['\\', '\\']
    } else if (c as int) < 0x20 {
        seq!['\\', 'u', '0', '0', spec_hex_digit(c as int / 16), spec_hex_digit(c as int % 16)]
    } else {
        seq![c]
    }
}

/// JSON escaping of a whole text.
pub open spec fn spec_escape(s: Seq<char>) -> Seq<char>
    decreases s.len(),
{
    if s.len() == 0 {
        Seq::empty()
    } else {
        spec_escape_char(s[0]) + spec_escape(s.drop_first())
    }
}

/// A JSON string literal: the escaped text between quotes.
pub open spec fn spec_json_string(s: Seq<char>) -> Seq<char> {
    seq!['"'] + spec_escape(s) + seq!['"']
}

/// The wire name of a role.
pub open spec fn spec_role_name(r: Role) -> Seq<char> {
    match r {
        Role::System => "system"@,
        Role::User => "user"@,
        Role::Assistant => "assistant"@,
    }
}

/// One turn as a JSON object.
pub open spec fn spec_turn_json(t: TurnView) -> Seq<char> {
    "{\"role\":\""@ + spec_role_name(t.role) + "\",\"content\":"@ + spec_json_string(t.text)
        + "}"@
}

/// The turns as a comma-separated list.
pub open spec fn spec_turn_list(ts: Seq<TurnView>) -> Seq<char>
    decreases ts.len(),
{
    if ts.len() == 0 {
        Seq::empty()
    } else if ts.len() == 1 {
        spec_turn_json(ts[0])
    } else {
        spec_turn_json(ts[0]) + ","@ + spec_turn_list(ts.drop_first())
    }
}

/// The whole request body.
pub open spec fn spec_request_body(model: Seq<char>, ts: Seq<TurnView>) -> Seq<char> {
    "{\"model\":"@ + spec_json_string(model) + ",\"messages\":["@ + spec_turn_list(ts)
        + "],\"stream\":true}"@
}

/// The character for one hexadecimal digit.
fn hex_digit(d: u32) -> (c: char)
    requires
        d < 16,
    ensures
        c == spec_hex_digit(d as int),
{
    if d == 0 {
        '0'
    } else if d == 1 {
        '1'
    } else if d == 2 {
        '2'
    } else if d == 3 {
        '3'
    } else if d == 4 {
        '4'
    } else if d == 5 {
        '5'
    } else if d == 6 {
        '6'
    } else if d == 7 {
        '7'
    } else if d == 8 {
        '8'
    } else if d == 9 {
        '9'
    } else if d == 10 {
        'a'
    } else if d == 11 {
        'b'
    } else if d == 12 {
        'c'
    } else if d == 13 {
        'd'
    } else if d == 14 {
        'e'
    } else {
        'f'
    }
}

/// Appends the JSON escape of one character.
fn push_escaped_char(out: &mut Vec<char>, c: char)
    ensures
        final(out)@ == old(out)@ + spec_escape_char(c),
{
    if c == '"' {
        out.push('\\');
        out.push('"');
        assert(final(out)@ =~= old(out)@ + spec_escape_char(c));
    } else if c == '\\' {
        out.push('\\');
        out.push('\\');
        assert(final(out)@ =~= old(out)@ + spec_escape_char(c));
    } else {
        let code = c as u32;
        if code < 0x20 {
            out.push('\\');
            out.push('u');
            out.push('0');
            out.push('0');
            out.push(hex_digit(code / 16));
            out.push(hex_digit(code % 16));
            assert(final(out)@ =~= old(out)@ + spec_escape_char(c));
        } else {
            out.push(c);
            assert(final(out)@ =~= old(out)@ + spec_escape_char(c));
        }
    }
}

/// Escaping one more character extends the escaped text.
proof fn lemma_escape_snoc(s: Seq<char>, c: char)
    ensures
        spec_escape(s.push(c)) == spec_escape(s) + spec_escape_char(c),
    decreases s.len(),
{
    if s.len() == 0 {
        assert(s.push(c)[0] == c);
        assert(s.push(c).drop_first() =~= Seq::<char>::empty());
        assert(spec_escape(Seq::<char>::empty()) == Seq::<char>::empty());
        assert(spec_escape(s.push(c)) == spec_escape_char(c) + spec_escape(
            Seq::<char>::empty(),
        ));
        assert(spec_escape(s.push(c)) =~= spec_escape_char(c));
        assert(spec_escape(s) == Seq::<char>::empty());
        assert(spec_escape(s) + spec_escape_char(c) =~= spec_escape_char(c));
    } else {
        assert(s.push(c)[0] == s[0]);
        assert(s.push(c).drop_first() =~= s.drop_first().push(c));
        lemma_escape_snoc(s.drop_first(), c);
        assert(spec_escape_char(s[0]) + (spec_escape(s.drop_first()) + spec_escape_char(c)) =~= (
        spec_escape_char(s[0]) + spec_escape(s.drop_first())) + spec_escape_char(c));
    }
}

/// Appends the JSON string literal for `s`.
fn push_json_string(out: &mut Vec<char>, s: &str)
    ensures
        final(out)@ == old(out)@ + spec_json_string(s@),
{
    let cs = chars_of(s);
    out.push('"');
    let ghost base = out@;
    let mut i: usize = 0;
    assert(cs@.take(0) =~= Seq::<char>::empty());
    assert(base + spec_escape(cs@.take(0)) =~= base);
    while i < cs.len()
        invariant
            i <= cs@.len(),
            cs@ == s@,
            out@ == base + spec_escape(cs@.take(i as int)),
        decreases cs@.len() - i,
    {
        push_escaped_char(out, cs[i]);
        proof {
            lemma_escape_snoc(cs@.take(i as int), cs@[i as int]);
            assert(cs@.take(i + 1) =~= cs@.take(i as int).push(cs@[i as int]));
            assert((base + spec_escape(cs@.take(i as int))) + spec_escape_char(cs@[i as int]) =~= base
                + spec_escape(cs@.take(i + 1)));
        }
        i = i + 1;
    }
    assert(cs@.take(cs@.len() as int) =~= cs@);
    out.push('"');
    assert(final(out)@ =~= old(out)@ + spec_json_string(s@));
}

/// Appends the wire name of a role.
fn push_role_name(out: &mut Vec<char>, role: Role)
    ensures
        final(out)@ == old(out)@ + spec_role_name(role),
{
    let mut name = match role {
        Role::System => chars_of("system"),
        Role::User => chars_of("user"),
        Role::Assistant => chars_of("assistant"),
    };
    out.append(&mut name);
}

/// Appends one turn as a JSON object.
fn push_turn(out: &mut Vec<char>, t: &Turn)
    ensures
        final(out)@ == old(out)@ + spec_turn_json(t@),
{
    let mut head = chars_of("{\"role\":\"");
    out.append(&mut head);
    push_role_name(out, t.role);
    let mut mid = chars_of("\",\"content\":");
    out.append(&mut mid);
    push_json_string(out, t.text.as_str());
    let mut tail = chars_of("}");
    out.append(&mut tail);
    assert(final(out)@ =~= old(out)@ + spec_turn_json(t@));
}

/// Listing one more turn appends a comma and its object.
proof fn lemma_turn_list_snoc(ts: Seq<TurnView>, t: TurnView)
    requires
        ts.len() >= 1,
    ensures
        spec_turn_list(ts.push(t)) == spec_turn_list(ts) + ","@ + spec_turn_json(t),
    decreases ts.len(),
{
    if ts.len() == 1 {
        assert(ts.push(t)[0] == ts[0]);
        assert(ts.push(t).drop_first() =~= seq![t]);
        assert(spec_turn_list(seq![t]) == spec_turn_json(t));
        assert(spec_turn_json(ts[0]) + ","@ + spec_turn_list(seq![t]) =~= (spec_turn_json(ts[0])
            + ","@) + spec_turn_json(t));
        assert(spec_turn_list(ts) + ","@ + spec_turn_json(t) =~= (spec_turn_json(ts[0]) + ","@)
            + spec_turn_json(t));
    } else {
        assert(ts.push(t)[0] == ts[0]);
        assert(ts.push(t).drop_first() =~= ts.drop_first().push(t));
        lemma_turn_list_snoc(ts.drop_first(), t);
        assert(spec_turn_json(ts[0]) + ","@ + ((spec_turn_list(ts.drop_first()) + ","@)
            + spec_turn_json(t)) =~= ((spec_turn_json(ts[0]) + ","@ + spec_turn_list(
            ts.drop_first(),
        )) + ","@) + spec_turn_json(t));
    }
}

/// Builds the backend request body for this model and these turns: the
/// JSON object `{"model":…,"messages":[…],"stream":true}` exactly as
/// [`spec_request_body`] lays it out.
pub fn build_request_body(model: &str, turns: &Vec<Turn>) -> (r: String)
    ensures
        r@ == spec_request_body(model@, turns_view(turns@)),
{
    let ghost tv = turns_view(turns@);
    let mut out: Vec<char> = chars_of("{\"model\":");
    push_json_string(&mut out, model);
    let mut mid = chars_of(",\"messages\":[");
    out.append(&mut mid);
    let ghost base = out@;
    let mut i: usize = 0;
    assert(tv.take(0) =~= Seq::<TurnView>::empty());
    assert(base + spec_turn_list(tv.take(0)) =~= base);
    while i < turns.len()
        invariant
            i <= turns@.len(),
            tv == turns_view(turns@),
            tv.len() == turns@.len(),
            out@ == base + spec_turn_list(tv.take(i as int)),
        decreases turns@.len() - i,
    {
        assert(tv[i as int] == turns@[i as int]@);
        if i > 0 {
            let mut sep = chars_of(",");
            out.append(&mut sep);
            push_turn(&mut out, &turns[i]);
            proof {
                lemma_turn_list_snoc(tv.take(i as int), tv[i as int]);
                assert(tv.take(i as int).push(tv[i as int]) =~= tv.take(i + 1));
                assert(((base + spec_turn_list(tv.take(i as int))) + ","@) + spec_turn_json(
                    tv[i as int],
                ) =~= base + spec_turn_list(tv.take(i + 1)));
            }
        } else {
            push_turn(&mut out, &turns[i]);
            proof {
                assert(tv.take(1).len() == 1);
                assert(tv.take(1)[0] == tv[0]);
                assert(spec_turn_list(tv.take(1)) == spec_turn_json(tv[0]));
                assert(base + spec_turn_json(tv[0]) =~= base + spec_turn_list(tv.take(1)));
            }
        }
        i = i + 1;
    }
    assert(tv.take(tv.len() as int) =~= tv);
    let mut tail = chars_of("],\"stream\":true}");
    out.append(&mut tail);
    assert(out@ =~= spec_request_body(model@, tv));
    string_of_chars(&out)
}

} // verus!
