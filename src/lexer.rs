//! The scanner: one pass over the source, one token or diagnostic per step.
use vstd::prelude::*;
use crate::properties::lemma_byte_offset_utf8;
use crate::text::{chars_of, push_char, push_str};
use crate::token::{keyword, keyword_of, spelling, symbol_of, TokenType};

verus! {

/// Unicode white space: the characters with the `White_Space` property.
pub open spec fn is_ws(c: char) -> bool {
    let u = c as u32;
    (0x09 <= u <= 0x0D) || u == 0x20 || u == 0x85 || u == 0xA0 || u == 0x1680 || (0x2000 <= u
        <= 0x200A) || u == 0x2028 || u == 0x2029 || u == 0x202F || u == 0x205F || u == 0x3000
}

pub open spec fn is_punct(c: char) -> bool {
    c == '(' || c == ')' || c == '{' || c == '}' || c == ',' || c == '.' || c == '-' || c == '+'
        || c == ';' || c == '*'
}

/// The first characters of the operators that may be followed by `=`.
pub open spec fn is_op_start(c: char) -> bool {
    c == '!' || c == '=' || c == '>' || c == '<'
}

pub open spec fn is_digit(c: char) -> bool {
    '0' <= c <= '9'
}

pub open spec fn is_word_start(c: char) -> bool {
    ('a' <= c <= 'z') || c == '_'
}

pub open spec fn is_word_char(c: char) -> bool {
    is_word_start(c) || is_digit(c)
}

/// The number of bytes of `c` in UTF-8.
pub open spec fn char_width(c: char) -> nat {
    let u = c as u32;
    if u < 0x80 {
        1
    } else if u < 0x800 {
        2
    } else if u < 0x10000 {
        3
    } else {
        4
    }
}

/// The byte offset of the character at index `i` of `s`.
pub open spec fn byte_offset(s: Seq<char>, i: int) -> nat
    decreases i,
{
    if i <= 0 || s.len() == 0 {
        0
    } else if i > s.len() {
        byte_offset(s, s.len() as int)
    } else {
        byte_offset(s, i - 1) + char_width(s[i - 1])
    }
}

/// The first index from `i` on that holds no white space.
pub open spec fn skip_ws(s: Seq<char>, i: int) -> int
    decreases s.len() - i,
{
    if 0 <= i < s.len() && is_ws(s[i]) {
        skip_ws(s, i + 1)
    } else {
        i
    }
}

/// The end of the run of ASCII digits that starts at `i`.
pub open spec fn digits_end(s: Seq<char>, i: int) -> int
    decreases s.len() - i,
{
    if 0 <= i < s.len() && is_digit(s[i]) {
        digits_end(s, i + 1)
    } else {
        i
    }
}

/// The end of the run of word characters that starts at `i`.
pub open spec fn word_end(s: Seq<char>, i: int) -> int
    decreases s.len() - i,
{
    if 0 <= i < s.len() && is_word_char(s[i]) {
        word_end(s, i + 1)
    } else {
        i
    }
}

/// The index of the first `"` from `i` on, or the length of `s` if none.
pub open spec fn quote_from(s: Seq<char>, i: int) -> int
    decreases s.len() - i,
{
    if 0 <= i < s.len() && s[i] != '"' {
        quote_from(s, i + 1)
    } else {
        i
    }
}

/// The end of a number that starts at `i`: digits, then a `.` and digits
/// only where a digit follows the `.`.
pub open spec fn number_end(s: Seq<char>, i: int) -> int {
    let d = digits_end(s, i);
    if d + 1 < s.len() && s[d] == '.' && is_digit(s[d + 1]) {
        digits_end(s, d + 1)
    } else {
        d
    }
}

/// What one scanning step finds, in character indices.
pub enum Step {
    /// No token is left.
    End,
    /// A token whose lexeme spans `start .. end`.
    Lexeme { start: int, end: int },
    /// The character at `at` begins no token.
    Unexpected { at: int },
    /// The `"` at `at` opens a string that is never closed.
    Unterminated { at: int },
}

/// The step that scanning `s` from index `i` takes: white space is skipped,
/// then one token is read.
///
/// Two choices are deliberate. The search for a closing quote is blind to
/// escapes: the first `"` after the opening one ends the literal, even after
/// a backslash. Words are made of ASCII lower-case letters, digits and `_`
/// only: an upper-case letter begins no token.
pub open spec fn step(s: Seq<char>, i: int) -> Step {
    let a = skip_ws(s, i);
    if a >= s.len() {
        Step::End
    } else {
        let c = s[a];
        if is_punct(c) {
            Step::Lexeme { start: a, end: a + 1 }
        } else if is_op_start(c) {
            if a + 1 < s.len() && s[a + 1] == '=' {
                Step::Lexeme { start: a, end: a + 2 }
            } else {
                Step::Lexeme { start: a, end: a + 1 }
            }
        } else if c == '"' {
            let q = quote_from(s, a + 1);
            if q < s.len() {
                Step::Lexeme { start: a, end: q + 1 }
            } else {
                Step::Unterminated { at: a }
            }
        } else if is_digit(c) {
            Step::Lexeme { start: a, end: number_end(s, a) }
        } else if is_word_start(c) {
            Step::Lexeme { start: a, end: word_end(s, a + 1) }
        } else {
            Step::Unexpected { at: a }
        }
    }
}

/// The token `t` is the one that the lexeme `lex` stands for: a symbol or a
/// reserved word by its spelling, else a string, a number or an identifier
/// by its first character, carrying the lexeme.
pub open spec fn denotes(t: TokenType, lex: Seq<char>) -> bool {
    &&& spelling(t) == lex
    &&& if let Some(k) = symbol_of(lex) {
        t == k
    } else if let Some(k) = keyword_of(lex) {
        t == k
    } else if lex[0] == '"' {
        t is String
    } else if is_digit(lex[0]) {
        t is Number
    } else {
        t is Ident
    }
}

/// Byte offsets grow with the character index.
pub proof fn lemma_byte_offset_mono(s: Seq<char>, i: int, j: int)
    requires
        0 <= i <= j <= s.len(),
    ensures
        byte_offset(s, i) <= byte_offset(s, j),
    decreases j - i,
{
    if i < j {
        lemma_byte_offset_mono(s, i, j - 1);
    }
}

/// Whether `c` is white space; see `is_ws`.
pub fn is_whitespace(c: char) -> (r: bool)
    ensures
        r == is_ws(c),
{
    let u = c as u32;
    (0x09 <= u && u <= 0x0D) || u == 0x20 || u == 0x85 || u == 0xA0 || u == 0x1680 || (0x2000 <= u
        && u <= 0x200A) || u == 0x2028 || u == 0x2029 || u == 0x202F || u == 0x205F || u == 0x3000
}

/// The number of bytes of `c` in UTF-8.
pub fn utf8_width(c: char) -> (r: usize)
    ensures
        r == char_width(c),
{
    let u = c as u32;
    if u < 0x80 {
        1
    } else if u < 0x800 {
        2
    } else if u < 0x10000 {
        3
    } else {
        4
    }
}

fn punct_token(c: char) -> (r: TokenType)
    requires
        is_punct(c),
    ensures
        denotes(r, seq![c]),
{
    if c == '(' {
        proof {
            reveal_strlit("(");
            assert("("@ =~= seq!['(']);
        }
        TokenType::Lparen
    } else if c == ')' {
        proof {
            reveal_strlit(")");
            assert(")"@ =~= seq![')']);
        }
        TokenType::Rparen
    } else if c == '{' {
        proof {
            reveal_strlit("{");
            assert("{"@ =~= seq!['{']);
        }
        TokenType::Lbrace
    } else if c == '}' {
        proof {
            reveal_strlit("}");
            assert("}"@ =~= seq!['}']);
        }
        TokenType::Rbrace
    } else if c == ',' {
        proof {
            reveal_strlit(",");
            assert(","@ =~= seq![',']);
        }
        TokenType::Comma
    } else if c == '.' {
        proof {
            reveal_strlit(".");
            assert("."@ =~= seq!['.']);
        }
        TokenType::Dot
    } else if c == '-' {
        proof {
            reveal_strlit("-");
            assert("-"@ =~= seq!['-']);
        }
        TokenType::Minus
    } else if c == '+' {
        proof {
            reveal_strlit("+");
            assert("+"@ =~= seq!['+']);
        }
        TokenType::Plus
    } else if c == ';' {
        proof {
            reveal_strlit(";");
            assert(";"@ =~= seq![';']);
        }
        TokenType::Semicolon
    } else {
        proof {
            reveal_strlit("*");
            assert("*"@ =~= seq!['*']);
        }
        TokenType::Star
    }
}

fn op_token(c: char, eq: bool) -> (r: TokenType)
    requires
        is_op_start(c),
    ensures
        denotes(r, if eq { seq![c, '='] } else { seq![c] }),
{
    if c == '!' {
        proof {
            reveal_strlit("!");
            reveal_strlit("!=");
            assert("!"@ =~= seq!['!']);
            assert("!="@ =~= seq!['!', '=']);
        }
        if eq {
            TokenType::BangEqual
        } else {
            TokenType::Bang
        }
    } else if c == '=' {
        proof {
            reveal_strlit("=");
            reveal_strlit("==");
            assert("="@ =~= seq!['=']);
            assert("=="@ =~= seq!['=', '=']);
        }
        if eq {
            TokenType::EqualEqual
        } else {
            TokenType::Equal
        }
    } else if c == '>' {
        proof {
            reveal_strlit(">");
            reveal_strlit(">=");
            assert(">"@ =~= seq!['>']);
            assert(">="@ =~= seq!['>', '=']);
        }
        if eq {
            TokenType::GreaterEqual
        } else {
            TokenType::Greater
        }
    } else {
        proof {
            reveal_strlit("<");
            reveal_strlit("<=");
            assert("<"@ =~= seq!['<']);
            assert("<="@ =~= seq!['<', '=']);
        }
        if eq {
            TokenType::LessEqual
        } else {
            TokenType::Less
        }
    }
}

/// The characters `v[a .. e]`.
fn slice_chars(v: &Vec<char>, a: usize, e: usize) -> (r: Vec<char>)
    requires
        a <= e <= v@.len(),
    ensures
        r@ == v@.subrange(a as int, e as int),
{
    let mut out: Vec<char> = Vec::new();
    let mut i: usize = a;
    while i < e
        invariant
            a <= i <= e,
            e <= v@.len(),
            out@ == v@.subrange(a as int, i as int),
        decreases e - i,
    {
        out.push(v[i]);
        i = i + 1;
        assert(out@ =~= v@.subrange(a as int, i as int));
    }
    out
}

/// A `String` holding the characters of `v`.
fn string_of(v: &Vec<char>) -> (r: String)
    ensures
        r@ == v@,
{
    let mut out = String::new();
    let mut i: usize = 0;
    while i < v.len()
        invariant
            0 <= i <= v@.len(),
            out@ == v@.subrange(0, i as int),
        decreases v@.len() - i,
    {
        push_char(&mut out, v[i]);
        i = i + 1;
        assert(out@ =~= v@.subrange(0, i as int));
    }
    assert(out@ =~= v@);
    out
}

fn is_digit_char(c: char) -> (r: bool)
    ensures
        r == is_digit(c),
{
    '0' <= c && c <= '9'
}

fn is_word_start_char(c: char) -> (r: bool)
    ensures
        r == is_word_start(c),
{
    ('a' <= c && c <= 'z') || c == '_'
}

fn is_word_char_exec(c: char) -> (r: bool)
    ensures
        r == is_word_char(c),
{
    is_word_start_char(c) || is_digit_char(c)
}

fn is_punct_char(c: char) -> (r: bool)
    ensures
        r == is_punct(c),
{
    c == '(' || c == ')' || c == '{' || c == '}' || c == ',' || c == '.' || c == '-' || c == '+'
        || c == ';' || c == '*'
}

/// What went wrong in a scan.
#[derive(Debug, Clone, Copy, PartialEq, Eq)]
pub enum DiagnosticKind {
    /// A character that begins no token.
    UnexpectedCharacter(char),
    /// A `"` with no closing `"` after it.
    UnterminatedString,
}

/// A scan failure, bound to a byte range of the source.
#[derive(Debug)]
pub struct Diagnostic {
    pub kind: DiagnosticKind,
    /// Byte offset where the labelled range starts.
    pub start: usize,
    /// Byte offset just past the labelled range.
    pub end: usize,
    /// What the range is.
    pub label: String,
    pub message: String,
    /// The whole source that was scanned.
    pub source: String,
}

/// The message for a character that begins no token.
pub open spec fn unexpected_message(c: char) -> Seq<char> {
    "Unexpected token `"@ + seq![c] + "` in input"@
}

/// The message for a string that is never closed.
pub open spec fn unterminated_message() -> Seq<char> {
    "Missing closing double quote"@
}

/// A scanner over one source text. Each call of `next` yields one token, or
/// the end of input, or a diagnostic; the scan ends at the first diagnostic.
pub struct Lexer {
    whole: String,
    chars: Vec<char>,
    pos: usize,
    offset: usize,
    done: bool,
}

impl Lexer {
    /// The characters of the source.
    pub closed spec fn source(&self) -> Seq<char> {
        self.chars@
    }

    /// The index of the next character to read.
    pub closed spec fn position(&self) -> int {
        self.pos as int
    }

    /// Whether the scan has ended, at the end of input or at a diagnostic.
    pub closed spec fn finished(&self) -> bool {
        self.done
    }

    pub closed spec fn wf(&self) -> bool {
        &&& self.pos <= self.chars@.len()
        &&& self.offset == byte_offset(self.chars@, self.pos as int)
        &&& byte_offset(self.chars@, self.chars@.len() as int) <= usize::MAX
        &&& self.whole@ == self.chars@
    }

    /// A scanner at the start of `input`.
    pub fn new(input: &str) -> (r: Self)
        ensures
            r.wf(),
            r.source() == input@,
            r.position() == 0,
            !r.finished(),
    {
        // The length of the UTF-8 encoding is a usize, and so bounds every
        // byte offset into the source.
        let bytes = input.as_bytes();
        let _total = bytes.len();
        proof {
            lemma_byte_offset_utf8(input@, input@.len() as int);
            assert(input@.subrange(0, input@.len() as int) =~= input@);
        }
        Lexer { whole: input.to_owned(), chars: chars_of(input), pos: 0, offset: 0, done: false }
    }

    /// Moves past one character.
    fn advance(&mut self)
        requires
            old(self).wf(),
            old(self).pos < old(self).chars@.len(),
        ensures
            final(self).wf(),
            final(self).pos == old(self).pos + 1,
            final(self).chars == old(self).chars,
            final(self).whole == old(self).whole,
            final(self).done == old(self).done,
    {
        proof {
            lemma_byte_offset_mono(self.chars@, self.pos + 1, self.chars@.len() as int);
        }
        let _len = self.chars.len();  // bounds the index by usize::MAX
        let w = utf8_width(self.chars[self.pos]);
        self.offset = self.offset + w;
        self.pos = self.pos + 1;
    }

    /// Moves forward to index `e`.
    fn advance_to(&mut self, e: usize)
        requires
            old(self).wf(),
            old(self).pos <= e <= old(self).chars@.len(),
        ensures
            final(self).wf(),
            final(self).pos == e,
            final(self).chars == old(self).chars,
            final(self).whole == old(self).whole,
            final(self).done == old(self).done,
    {
        while self.pos < e
            invariant
                self.wf(),
                self.pos <= e <= self.chars@.len(),
                self.chars == old(self).chars,
                self.whole == old(self).whole,
                self.done == old(self).done,
            decreases e - self.pos,
        {
            self.advance();
        }
    }

    fn digits_end_from(&self, i: usize) -> (r: usize)
        requires
            i <= self.chars@.len(),
        ensures
            r == digits_end(self.chars@, i as int),
            i <= r <= self.chars@.len(),
    {
        let mut j = i;
        while j < self.chars.len() && is_digit_char(self.chars[j])
            invariant
                i <= j <= self.chars@.len(),
                digits_end(self.chars@, j as int) == digits_end(self.chars@, i as int),
            decreases self.chars@.len() - j,
        {
            j = j + 1;
        }
        j
    }

    fn word_end_from(&self, i: usize) -> (r: usize)
        requires
            i <= self.chars@.len(),
        ensures
            r == word_end(self.chars@, i as int),
            i <= r <= self.chars@.len(),
    {
        let mut j = i;
        while j < self.chars.len() && is_word_char_exec(self.chars[j])
            invariant
                i <= j <= self.chars@.len(),
                word_end(self.chars@, j as int) == word_end(self.chars@, i as int),
            decreases self.chars@.len() - j,
        {
            j = j + 1;
        }
        j
    }

    fn quote_from_index(&self, i: usize) -> (r: usize)
        requires
            i <= self.chars@.len(),
        ensures
            r == quote_from(self.chars@, i as int),
            i <= r <= self.chars@.len(),
    {
        let mut j = i;
        while j < self.chars.len() && self.chars[j] != '"'
            invariant
                i <= j <= self.chars@.len(),
                quote_from(self.chars@, j as int) == quote_from(self.chars@, i as int),
            decreases self.chars@.len() - j,
        {
            j = j + 1;
        }
        j
    }
}

/// The result of a call of `next` on a scan of `s` that stood at index `i`,
/// for the scanner `after` that the call left.
pub open spec fn next_outcome(
    s: Seq<char>,
    i: int,
    r: Option<Result<TokenType, Diagnostic>>,
    after: Lexer,
) -> bool {
    match step(s, i) {
        Step::End => r is None && after.finished(),
        Step::Lexeme { start, end } => {
            &&& r matches Some(Ok(t)) && denotes(t, s.subrange(start, end))
            &&& after.position() == end
            &&& !after.finished()
        },
        Step::Unexpected { at } => {
            &&& r matches Some(Err(d)) && d.kind == DiagnosticKind::UnexpectedCharacter(s[at])
                && d.start == byte_offset(s, at) && d.end == byte_offset(s, at + 1) && d.label@
                == "this character"@ && d.message@ == unexpected_message(s[at]) && d.source@ == s
            &&& after.finished()
        },
        Step::Unterminated { at } => {
            &&& r matches Some(Err(d)) && d.kind == DiagnosticKind::UnterminatedString && d.start
                == byte_offset(s, at) && d.end == byte_offset(s, at) + 1 && d.label@
                == "this opening double quote"@ && d.message@ == unterminated_message()
                && d.source@ == s
            &&& after.finished()
        },
    }
}

impl Lexer {
    /// Scans the next token. White space before it is skipped. Returns `None`
    /// at the end of input, and from then on; after a diagnostic, every
    /// further call returns `None` too.
    pub fn next(&mut self) -> (r: Option<Result<TokenType, Diagnostic>>)
        requires
            old(self).wf(),
        ensures
            final(self).wf(),
            final(self).source() == old(self).source(),
            old(self).finished() ==> r is None && *final(self) == *old(self),
            !old(self).finished() ==> next_outcome(
                old(self).source(),
                old(self).position(),
                r,
                *final(self),
            ),
    {
        if self.done {
            return None;
        }
        let ghost s = self.chars@;
        let ghost i0 = self.pos as int;
        while self.pos < self.chars.len() && is_whitespace(self.chars[self.pos])
            invariant
                self.wf(),
                self.chars@ == s,
                !self.done,
                skip_ws(s, self.pos as int) == skip_ws(s, i0),
            decreases s.len() - self.pos,
        {
            self.advance();
        }
        let n = self.chars.len();
        if self.pos == n {
            self.done = true;
            return None;
        }
        let a = self.pos;
        let c = self.chars[a];
        assert(skip_ws(s, i0) == a as int);
        if is_punct_char(c) {
            self.advance();
            let t = punct_token(c);
            assert(s.subrange(a as int, a + 1) =~= seq![c]);
            return Some(Ok(t));
        }
        if c == '!' || c == '=' || c == '>' || c == '<' {
            self.advance();
            if self.pos < n && self.chars[self.pos] == '=' {
                self.advance();
                assert(s.subrange(a as int, a + 2) =~= seq![c, '=']);
                return Some(Ok(op_token(c, true)));
            }
            assert(s.subrange(a as int, a + 1) =~= seq![c]);
            return Some(Ok(op_token(c, false)));
        }
        if c == '"' {
            let q = self.quote_from_index(a + 1);
            if q == n {
                proof {
                    lemma_byte_offset_mono(s, a + 1, n as int);
                }
                self.done = true;
                let message = "Missing closing double quote".to_owned();
                let d = Diagnostic {
                    kind: DiagnosticKind::UnterminatedString,
                    start: self.offset,
                    end: self.offset + 1,
                    label: "this opening double quote".to_owned(),
                    message,
                    source: self.whole.clone(),
                };
                return Some(Err(d));
            }
            let lex = string_of(&slice_chars(&self.chars, a, q + 1));
            self.advance_to(q + 1);
            return Some(Ok(TokenType::String(lex)));
        }
        if is_digit_char(c) {
            let d = self.digits_end_from(a + 1);
            assert(d == digits_end(s, a as int));
            let e = if d < n - 1 && self.chars[d] == '.' && is_digit_char(self.chars[d + 1]) {
                self.digits_end_from(d + 1)
            } else {
                d
            };
            let lex = string_of(&slice_chars(&self.chars, a, e));
            self.advance_to(e);
            return Some(Ok(TokenType::Number(lex)));
        }
        if is_word_start_char(c) {
            let e = self.word_end_from(a + 1);
            let w = slice_chars(&self.chars, a, e);
            self.advance_to(e);
            return match keyword(&w) {
                Some(k) => Some(Ok(k)),
                None => Some(Ok(TokenType::Ident(string_of(&w)))),
            };
        }
        proof {
            lemma_byte_offset_mono(s, a + 1, n as int);
        }
        let start = self.offset;
        let end = self.offset + utf8_width(c);
        self.done = true;
        let mut message = "Unexpected token `".to_owned();
        push_char(&mut message, c);
        push_str(&mut message, "` in input");
        assert(message@ =~= unexpected_message(c));
        let d = Diagnostic {
            kind: DiagnosticKind::UnexpectedCharacter(c),
            start,
            end,
            label: "this character".to_owned(),
            message,
            source: self.whole.clone(),
        };
        Some(Err(d))
    }
}

} // verus!
