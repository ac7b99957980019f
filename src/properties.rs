//! Properties of the scanner over all inputs.
use vstd::prelude::*;
use vstd::utf8::{char_is_scalar, encode_scalar, encode_utf8};
use crate::lexer::{
    digits_end, word_end, byte_offset, char_width, is_op_start, is_punct, is_ws, quote_from, skip_ws, step, Step,
};
use crate::token::{decode, unquoted};

verus! {

proof fn lemma_skip_all_ws(s: Seq<char>, i: int)
    requires
        forall|k: int| 0 <= k < s.len() ==> is_ws(#[trigger] s[k]),
    ensures
        skip_ws(s, i) >= s.len() || skip_ws(s, i) < 0,
    decreases s.len() - i,
{
    if 0 <= i < s.len() {
        lemma_skip_all_ws(s, i + 1);
    }
}

/// A source of white space alone holds no token: scanning it from any
/// position finds the end of input at once.
pub proof fn lemma_whitespace_only(s: Seq<char>, i: int)
    requires
        0 <= i,
        forall|k: int| 0 <= k < s.len() ==> is_ws(#[trigger] s[k]),
    ensures
        step(s, i) == Step::End,
{
    lemma_skip_ws_bounds(s, i);
    lemma_skip_all_ws(s, i);
}

/// A single punctuation character is one token of one character, and then
/// the input ends.
pub proof fn lemma_single_punct(c: char)
    requires
        is_punct(c),
    ensures
        step(seq![c], 0) == (Step::Lexeme { start: 0, end: 1 }),
        step(seq![c], 1) == Step::End,
{
}

/// `!`, `=`, `>` and `<`, alone or followed by `=`, are one token each, and
/// then the input ends.
pub proof fn lemma_single_operator(c: char, eq: bool)
    requires
        is_op_start(c),
    ensures
        ({
            let s = if eq { seq![c, '='] } else { seq![c] };
            step(s, 0) == (Step::Lexeme { start: 0, end: s.len() as int }) && step(
                s,
                s.len() as int,
            ) == Step::End
        }),
{
}

/// An operator character not followed by `=` is a token of its own: the
/// character after it is left for the next step.
pub proof fn lemma_operator_stands_alone(s: Seq<char>, i: int)
    requires
        0 <= skip_ws(s, i) < s.len(),
        is_op_start(s[skip_ws(s, i)]),
        !(skip_ws(s, i) + 1 < s.len() && s[skip_ws(s, i) + 1] == '='),
    ensures
        step(s, i) == (Step::Lexeme { start: skip_ws(s, i), end: skip_ws(s, i) + 1 }),
{
}

proof fn lemma_quote_from_none(s: Seq<char>, i: int)
    requires
        0 <= i <= s.len(),
        forall|k: int| i <= k < s.len() ==> #[trigger] s[k] != '"',
    ensures
        quote_from(s, i) == s.len(),
    decreases s.len() - i,
{
    if i < s.len() {
        lemma_quote_from_none(s, i + 1);
    }
}

proof fn lemma_decode_plain(w: Seq<char>)
    requires
        forall|k: int| 0 <= k < w.len() ==> #[trigger] w[k] != '\\',
    ensures
        decode(w) == w,
    decreases w.len(),
{
    if w.len() > 0 {
        lemma_decode_plain(w.drop_first());
        assert(seq![w[0]] + w.drop_first() =~= w);
    }
}

/// A string literal whose interior holds no `"` and no backslash is one
/// token spanning the whole literal, and its value is exactly the interior.
pub proof fn lemma_string_round_trip(w: Seq<char>)
    requires
        forall|k: int| 0 <= k < w.len() ==> #[trigger] w[k] != '"' && w[k] != '\\',
    ensures
        ({
            let s = seq!['"'] + w + seq!['"'];
            &&& step(s, 0) == (Step::Lexeme { start: 0, end: s.len() as int })
            &&& unquoted(s) == w
        }),
{
    let s = seq!['"'] + w + seq!['"'];
    let t = seq!['"'] + w;
    assert forall|k: int| 1 <= k < t.len() implies #[trigger] t[k] != '"' by {
        assert(t[k] == w[k - 1]);
    }
    lemma_quote_from_none(t, 1);
    assert forall|k: int| 1 <= k < s.len() - 1 implies quote_from(s, k) == s.len() - 1 by {
        lemma_quote_prefix(s, k);
    }
    assert(s.subrange(1, s.len() - 1) =~= w);
    lemma_decode_plain(w);
}

proof fn lemma_quote_prefix(s: Seq<char>, k: int)
    requires
        s.len() >= 2,
        1 <= k <= s.len() - 1,
        s[s.len() - 1] == '"',
        forall|j: int| 1 <= j < s.len() - 1 ==> #[trigger] s[j] != '"',
    ensures
        quote_from(s, k) == s.len() - 1,
    decreases s.len() - k,
{
    if k < s.len() - 1 {
        lemma_quote_prefix(s, k + 1);
    }
}

/// A `"` that begins a token with no `"` after it ends the scan with an
/// unterminated string at that quote.
pub proof fn lemma_unterminated(s: Seq<char>, i: int)
    requires
        0 <= skip_ws(s, i) < s.len(),
        s[skip_ws(s, i)] == '"',
        forall|k: int| skip_ws(s, i) < k < s.len() ==> #[trigger] s[k] != '"',
    ensures
        step(s, i) == (Step::Unterminated { at: skip_ws(s, i) }),
{
    lemma_quote_from_none(s, skip_ws(s, i) + 1);
}

proof fn lemma_encode_push(p: Seq<char>, c: char)
    ensures
        encode_utf8(p.push(c)).len() == encode_utf8(p).len() + char_width(c),
    decreases p.len(),
{
    broadcast use char_is_scalar;

    let q = p.push(c);
    assert(encode_utf8(q) == encode_scalar(q[0] as u32) + encode_utf8(q.drop_first()));
    if p.len() == 0 {
        assert(q.drop_first() =~= Seq::<char>::empty());
        assert(encode_utf8(Seq::<char>::empty()).len() == 0);
        assert(encode_scalar(c as u32).len() == char_width(c));
    } else {
        assert(q.drop_first() =~= p.drop_first().push(c));
        lemma_encode_push(p.drop_first(), c);
        assert(encode_utf8(p) == encode_scalar(p[0] as u32) + encode_utf8(p.drop_first()));
    }
}

/// Byte offsets are those of the source's own UTF-8 encoding: the offset of
/// the character at index `i` is the length of the encoding of the
/// characters before it.
pub proof fn lemma_byte_offset_utf8(s: Seq<char>, i: int)
    requires
        0 <= i <= s.len(),
    ensures
        byte_offset(s, i) == encode_utf8(s.subrange(0, i)).len(),
    decreases i,
{
    if i > 0 {
        lemma_byte_offset_utf8(s, i - 1);
        assert(s.subrange(0, i) =~= s.subrange(0, i - 1).push(s[i - 1]));
        lemma_encode_push(s.subrange(0, i - 1), s[i - 1]);
    } else {
        assert(s.subrange(0, 0) =~= Seq::<char>::empty());
    }
}

/// A byte offset is at least the character index, and passes it once a
/// character of more than one byte comes before.
pub proof fn lemma_byte_offset_counts_bytes(s: Seq<char>, i: int)
    requires
        0 <= i <= s.len(),
    ensures
        byte_offset(s, i) >= i,
        (exists|k: int| 0 <= k < i && char_width(#[trigger] s[k]) > 1) ==> byte_offset(s, i) > i,
    decreases i,
{
    if i > 0 {
        lemma_byte_offset_counts_bytes(s, i - 1);
        if exists|k: int| 0 <= k < i && char_width(#[trigger] s[k]) > 1 {
            let k = choose|k: int| 0 <= k < i && char_width(#[trigger] s[k]) > 1;
            if k < i - 1 {
                assert(0 <= k < i - 1 && char_width(s[k]) > 1);
            }
        }
    }
}

/// The range of a diagnostic for an unexpected character is exactly the
/// bytes of that character.
pub proof fn lemma_unexpected_span(s: Seq<char>, i: int)
    requires
        0 <= i,
        step(s, i) is Unexpected,
    ensures
        ({
            let at = step(s, i)->Unexpected_at;
            &&& 0 <= at < s.len()
            &&& byte_offset(s, at + 1) == byte_offset(s, at) + char_width(s[at])
            &&& byte_offset(s, at) == encode_utf8(s.subrange(0, at)).len()
        }),
{
    let at = step(s, i)->Unexpected_at;
    lemma_skip_ws_bounds(s, i);
    lemma_byte_offset_utf8(s, at);
}

proof fn lemma_skip_ws_bounds(s: Seq<char>, i: int)
    ensures
        skip_ws(s, i) >= i,
    decreases s.len() - i,
{
    if 0 <= i < s.len() && is_ws(s[i]) {
        lemma_skip_ws_bounds(s, i + 1);
    }
}

proof fn lemma_run_ends(s: Seq<char>, i: int)
    requires
        0 <= i <= s.len(),
    ensures
        i <= digits_end(s, i) <= s.len(),
        i <= word_end(s, i) <= s.len(),
        i <= quote_from(s, i) <= s.len(),
    decreases s.len() - i,
{
    if i < s.len() {
        lemma_run_ends(s, i + 1);
    }
}

/// Each token's lexeme is a non-empty range of the source that starts at or
/// after the position scanned from, so successive tokens never overlap.
pub proof fn lemma_step_advances(s: Seq<char>, i: int)
    requires
        0 <= i,
    ensures
        step(s, i) matches Step::Lexeme { start, end } ==> i <= start < end <= s.len(),
        step(s, i) matches Step::Unexpected { at } ==> i <= at < s.len(),
        step(s, i) matches Step::Unterminated { at } ==> i <= at < s.len(),
{
    lemma_skip_ws_bounds(s, i);
    let a = skip_ws(s, i);
    if a < s.len() {
        lemma_run_ends(s, a + 1);
        let d = digits_end(s, a);
        lemma_run_ends(s, a);
        if d + 1 < s.len() {
            lemma_run_ends(s, d + 1);
        }
    }
}

} // verus!
