//! Stripping of bot mentions from message text.
//!
//! A mention token is `<@` followed by the bot's decimal id and `>`. The
//! filter removes every occurrence of the token together with the whitespace
//! run (including the full-width space) that immediately follows it; all
//! other text is kept unchanged, in order.

use vstd::prelude::*;

use crate::strutil::{chars_of, push_decimal, spec_decimal, string_of_chars};

verus! {

/// Whitespace that may trail a mention token: the Unicode `White_Space`
/// characters, which include the full-width (ideographic) space.
pub open spec fn is_mention_ws(c: char) -> bool {
    ||| c == ' '
    ||| c == '\t'
    ||| c == '\n'
    ||| c == '\r'
    ||| c == '\u{000B}'
    ||| c == '\u{000C}'
    ||| c == '\u{0085}'
    ||| c == '\u{00A0}'
    ||| c == '\u{1680}'
    ||| (0x2000 <= c as int && c as int <= 0x200A)
    ||| c == '\u{2028}'
    ||| c == '\u{2029}'
    ||| c == '\u{202F}'
    ||| c == '\u{205F}'
    ||| c == '\u{3000}'
}

/// Executable test for [`is_mention_ws`].
pub fn is_mention_ws_char(c: char) -> (r: bool)
    ensures
        r == is_mention_ws(c),
{
    c == ' ' || c == '\t' || c == '\n' || c == '\r' || c == '\u{000B}' || c == '\u{000C}'
        || c == '\u{0085}' || c == '\u{00A0}' || c == '\u{1680}'
        || (0x2000 <= c as u32 && c as u32 <= 0x200A) || c == '\u{2028}' || c == '\u{2029}'
        || c == '\u{202F}' || c == '\u{205F}' || c == '\u{3000}'
}

/// The mention token addressed to the bot with this id.
pub open spec fn spec_mention_token(bot_id: u64) -> Seq<char> {
    seq!['<', '@'] + spec_decimal(bot_id as int) + seq!['>']
}

/// The suffix that remains after dropping leading mention whitespace.
pub open spec fn spec_skip_ws(s: Seq<char>) -> Seq<char>
    decreases s.len(),
{
    if s.len() > 0 && is_mention_ws(s[0]) {
        spec_skip_ws(s.drop_first())
    } else {
        s
    }
}

/// Dropping whitespace never lengthens the text; the strip below recurses
/// on it and needs this to terminate.
pub proof fn lemma_skip_ws_len(s: Seq<char>)
    ensures
        spec_skip_ws(s).len() <= s.len(),
    decreases s.len(),
{
    if s.len() > 0 && is_mention_ws(s[0]) {
        lemma_skip_ws_len(s.drop_first());
    }
}

/// Does the token stand at the start of `s`?
pub open spec fn spec_token_at(tok: Seq<char>, s: Seq<char>) -> bool {
    tok.len() > 0 && tok.len() <= s.len() && s.take(tok.len() as int) == tok
}

/// Text with every occurrence of the token, and the whitespace run behind
/// each occurrence, removed in one left-to-right pass.
pub open spec fn spec_strip_mentions(tok: Seq<char>, s: Seq<char>) -> Seq<char>
    decreases s.len(),
{
    if s.len() == 0 {
        s
    } else if spec_token_at(tok, s) {
        proof {
            lemma_skip_ws_len(s.skip(tok.len() as int));
        }
        spec_strip_mentions(tok, spec_skip_ws(s.skip(tok.len() as int)))
    } else {
        seq![s[0]] + spec_strip_mentions(tok, s.drop_first())
    }
}

/// Does the token occur anywhere in `s`?
pub open spec fn spec_has_token(tok: Seq<char>, s: Seq<char>) -> bool {
    exists|i: int| 0 <= i <= s.len() && spec_token_at(tok, #[trigger] s.skip(i))
}

/// Text with no occurrence of the token passes through the filter unchanged:
/// the filter never alters a message that does not mention the bot.
pub proof fn lemma_strip_absent_token_identity(tok: Seq<char>, s: Seq<char>)
    requires
        tok.len() > 0,
        !spec_has_token(tok, s),
    ensures
        spec_strip_mentions(tok, s) == s,
    decreases s.len(),
{
    if s.len() > 0 {
        if spec_token_at(tok, s) {
            assert(s.skip(0) =~= s);
            assert(spec_has_token(tok, s));
        }
        assert forall|i: int|
            0 <= i <= s.drop_first().len() implies !spec_token_at(
            tok,
            #[trigger] s.drop_first().skip(i),
        ) by {
            if spec_token_at(tok, s.drop_first().skip(i)) {
                assert(s.skip(i + 1) =~= s.drop_first().skip(i));
                assert(spec_has_token(tok, s));
            }
        }
        lemma_strip_absent_token_identity(tok, s.drop_first());
        assert(seq![s[0]] + s.drop_first() =~= s);
    }
}

/// The filter is idempotent on every input whose filtered form carries no
/// further occurrence of the token. (Removal can splice a new token together
/// out of the surrounding text; on such inputs a second pass removes more.)
pub proof fn lemma_strip_idempotent(tok: Seq<char>, s: Seq<char>)
    requires
        tok.len() > 0,
        !spec_has_token(tok, spec_strip_mentions(tok, s)),
    ensures
        spec_strip_mentions(tok, spec_strip_mentions(tok, s)) == spec_strip_mentions(tok, s),
{
    lemma_strip_absent_token_identity(tok, spec_strip_mentions(tok, s));
}

/// The compiled form of the mention pattern: the token as characters.
/// Built once at startup and read-only afterwards.
pub struct MentionFilter {
    pub token: Vec<char>,
}

impl MentionFilter {
    /// Compiles the mention token for the bot with this id.
    pub fn new(bot_id: u64) -> (r: Self)
        ensures
            r.token@ == spec_mention_token(bot_id),
    {
        let mut token: Vec<char> = Vec::new();
        token.push('<');
        token.push('@');
        assert(token@ =~= seq!['<', '@']);
        push_decimal(&mut token, bot_id);
        token.push('>');
        assert(token@ =~= spec_mention_token(bot_id));
        MentionFilter { token }
    }

    /// Removes every mention of the bot, with trailing whitespace, from the
    /// text; all other characters are kept in order.
    pub fn strip(&self, text: &str) -> (r: String)
        ensures
            r@ == spec_strip_mentions(self.token@, text@),
    {
        let s = chars_of(text);
        let ghost tok = self.token@;
        let mut out: Vec<char> = Vec::new();
        let mut i: usize = 0;
        assert(s@.skip(0) =~= s@);
        while i < s.len()
            invariant
                i <= s@.len(),
                tok == self.token@,
                spec_strip_mentions(tok, s@) == out@ + spec_strip_mentions(tok, s@.skip(i as int)),
            decreases s@.len() - i,
        {
            if token_at(&s, i, &self.token) {
                let ghost start = i as int;
                i = i + self.token.len();
                assert(s@.skip(start).skip(tok.len() as int) =~= s@.skip(i as int));
                i = skip_ws_from(&s, i);
                assert(spec_strip_mentions(tok, s@.skip(start)) == spec_strip_mentions(
                    tok,
                    s@.skip(i as int),
                ));
            } else {
                let c = s[i];
                let ghost prefix = out@;
                out.push(c);
                assert(s@.skip(i as int).drop_first() =~= s@.skip(i + 1));
                assert(spec_strip_mentions(tok, s@.skip(i as int)) == seq![c]
                    + spec_strip_mentions(tok, s@.skip(i + 1)));
                assert(out@ + spec_strip_mentions(tok, s@.skip(i + 1)) =~= prefix + (seq![c]
                    + spec_strip_mentions(tok, s@.skip(i + 1))));
                i = i + 1;
            }
        }
        assert(s@.skip(s@.len() as int) =~= Seq::<char>::empty());
        assert(out@ + Seq::<char>::empty() =~= out@);
        string_of_chars(&out)
    }
}

/// First position at or after `i` whose character is not mention whitespace.
fn skip_ws_from(s: &Vec<char>, i: usize) -> (r: usize)
    requires
        i <= s@.len(),
    ensures
        i <= r <= s@.len(),
        spec_skip_ws(s@.skip(i as int)) == s@.skip(r as int),
    decreases s@.len() - i,
{
    if i < s.len() {
        let c = s[i];
        if is_mention_ws_char(c) {
            assert(s@.skip(i as int).drop_first() =~= s@.skip(i + 1));
            return skip_ws_from(s, i + 1);
        }
    }
    i
}

/// Does the token stand at position `i` of `s`?
fn token_at(s: &Vec<char>, i: usize, tok: &Vec<char>) -> (r: bool)
    requires
        i <= s@.len(),
    ensures
        r == spec_token_at(tok@, s@.skip(i as int)),
{
    if tok.len() == 0 {
        return false;
    }
    let n = s.len();
    if n - i < tok.len() {
        return false;
    }
    let mut j: usize = 0;
    while j < tok.len()
        invariant
            j <= tok@.len(),
            tok@.len() > 0,
            n == s@.len(),
            i + tok@.len() <= n,
            forall|k: int| 0 <= k < j ==> s@[i + k] == tok@[k],
        decreases tok@.len() - j,
    {
        if s[i + j] != tok[j] {
            assert(s@.skip(i as int).take(tok@.len() as int)[j as int] != tok@[j as int]);
            return false;
        }
        j = j + 1;
    }
    assert(s@.skip(i as int).take(tok@.len() as int) =~= tok@);
    true
}

} // verus!
