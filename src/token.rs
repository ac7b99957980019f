//! Token kinds, their rendering, and the decoding of string literals.
use vstd::prelude::*;
use crate::text::{chars_of, push_char, push_str};

verus! {

/// The kind of a token, with the text it carries where it carries any.
///
/// `String` holds the raw lexeme with both quotes, `Ident` the word and
/// `Number` the numeric lexeme; the other kinds carry nothing.
#[derive(Debug, Clone, PartialEq)]
pub enum TokenType {
    Lparen,
    Rparen,
    Lbrace,
    Rbrace,
    Comma,
    Dot,
    Minus,
    Plus,
    Semicolon,
    Star,
    Bang,
    BangEqual,
    Equal,
    EqualEqual,
    Greater,
    GreaterEqual,
    Less,
    LessEqual,
    String(String),
    Ident(String),
    Number(String),
    And,
    Class,
    Else,
    False,
    For,
    Fun,
    If,
    Nil,
    Or,
    Print,
    Return,
    Super,
    This,
    True,
    Var,
    While,
}

/// The source text of a token.
pub open spec fn spelling(t: TokenType) -> Seq<char> {
    match t {
        TokenType::Lparen => "("@,
        TokenType::Rparen => ")"@,
        TokenType::Lbrace => "{"@,
        TokenType::Rbrace => "}"@,
        TokenType::Comma => ","@,
        TokenType::Dot => "."@,
        TokenType::Minus => "-"@,
        TokenType::Plus => "+"@,
        TokenType::Semicolon => ";"@,
        TokenType::Star => "*"@,
        TokenType::Bang => "!"@,
        TokenType::BangEqual => "!="@,
        TokenType::Equal => "="@,
        TokenType::EqualEqual => "=="@,
        TokenType::Greater => ">"@,
        TokenType::GreaterEqual => ">="@,
        TokenType::Less => "<"@,
        TokenType::LessEqual => "<="@,
        TokenType::And => "and"@,
        TokenType::Class => "class"@,
        TokenType::Else => "else"@,
        TokenType::False => "false"@,
        TokenType::For => "for"@,
        TokenType::Fun => "fun"@,
        TokenType::If => "if"@,
        TokenType::Nil => "nil"@,
        TokenType::Or => "or"@,
        TokenType::Print => "print"@,
        TokenType::Return => "return"@,
        TokenType::Super => "super"@,
        TokenType::This => "this"@,
        TokenType::True => "true"@,
        TokenType::Var => "var"@,
        TokenType::While => "while"@,
        TokenType::String(x) => x@,
        TokenType::Ident(x) => x@,
        TokenType::Number(x) => x@,
    }
}

/// The upper-case name under which a token kind is rendered.
pub open spec fn kind_name(t: TokenType) -> Seq<char> {
    match t {
        TokenType::Lparen => "LEFT_PAREN"@,
        TokenType::Rparen => "RIGHT_PAREN"@,
        TokenType::Lbrace => "LEFT_BRACE"@,
        TokenType::Rbrace => "RIGHT_BRACE"@,
        TokenType::Comma => "COMMA"@,
        TokenType::Dot => "DOT"@,
        TokenType::Minus => "MINUS"@,
        TokenType::Plus => "PLUS"@,
        TokenType::Semicolon => "SEMICOLON"@,
        TokenType::Star => "STAR"@,
        TokenType::Bang => "BANG"@,
        TokenType::BangEqual => "BANG_EQUAL"@,
        TokenType::Equal => "EQUAL"@,
        TokenType::EqualEqual => "EQUAL_EQUAL"@,
        TokenType::Greater => "GREATER"@,
        TokenType::GreaterEqual => "GREATER_EQUAL"@,
        TokenType::Less => "LESS"@,
        TokenType::LessEqual => "LESS_EQUAL"@,
        TokenType::And => "AND"@,
        TokenType::Class => "CLASS"@,
        TokenType::Else => "ELSE"@,
        TokenType::False => "FALSE"@,
        TokenType::For => "FOR"@,
        TokenType::Fun => "FUN"@,
        TokenType::If => "IF"@,
        TokenType::Nil => "NIL"@,
        TokenType::Or => "OR"@,
        TokenType::Print => "PRINT"@,
        TokenType::Return => "RETURN"@,
        TokenType::Super => "SUPER"@,
        TokenType::This => "THIS"@,
        TokenType::True => "TRUE"@,
        TokenType::Var => "VAR"@,
        TokenType::While => "WHILE"@,
        TokenType::String(_) => "STRING"@,
        TokenType::Ident(_) => "IDENTIFIER"@,
        TokenType::Number(_) => "NUMBER"@,
    }
}

/// The reserved word spelled by `w`, if any.
pub open spec fn keyword_of(w: Seq<char>) -> Option<TokenType> {
    if w == seq!['a', 'n', 'd'] {
        Some(TokenType::And)
    } else if w == seq!['c', 'l', 'a', 's', 's'] {
        Some(TokenType::Class)
    } else if w == seq!['e', 'l', 's', 'e'] {
        Some(TokenType::Else)
    } else if w == seq!['f', 'a', 'l', 's', 'e'] {
        Some(TokenType::False)
    } else if w == seq!['f', 'o', 'r'] {
        Some(TokenType::For)
    } else if w == seq!['f', 'u', 'n'] {
        Some(TokenType::Fun)
    } else if w == seq!['i', 'f'] {
        Some(TokenType::If)
    } else if w == seq!['n', 'i', 'l'] {
        Some(TokenType::Nil)
    } else if w == seq!['o', 'r'] {
        Some(TokenType::Or)
    } else if w == seq!['p', 'r', 'i', 'n', 't'] {
        Some(TokenType::Print)
    } else if w == seq!['r', 'e', 't', 'u', 'r', 'n'] {
        Some(TokenType::Return)
    } else if w == seq!['s', 'u', 'p', 'e', 'r'] {
        Some(TokenType::Super)
    } else if w == seq!['t', 'h', 'i', 's'] {
        Some(TokenType::This)
    } else if w == seq!['t', 'r', 'u', 'e'] {
        Some(TokenType::True)
    } else if w == seq!['v', 'a', 'r'] {
        Some(TokenType::Var)
    } else if w == seq!['w', 'h', 'i', 'l', 'e'] {
        Some(TokenType::While)
    } else {
        None
    }
}

/// The punctuation or operator token spelled by `w`, if any.
pub open spec fn symbol_of(w: Seq<char>) -> Option<TokenType> {
    if w.len() == 1 {
        let c = w[0];
        if c == '(' {
            Some(TokenType::Lparen)
        } else if c == ')' {
            Some(TokenType::Rparen)
        } else if c == '{' {
            Some(TokenType::Lbrace)
        } else if c == '}' {
            Some(TokenType::Rbrace)
        } else if c == ',' {
            Some(TokenType::Comma)
        } else if c == '.' {
            Some(TokenType::Dot)
        } else if c == '-' {
            Some(TokenType::Minus)
        } else if c == '+' {
            Some(TokenType::Plus)
        } else if c == ';' {
            Some(TokenType::Semicolon)
        } else if c == '*' {
            Some(TokenType::Star)
        } else if c == '!' {
            Some(TokenType::Bang)
        } else if c == '=' {
            Some(TokenType::Equal)
        } else if c == '>' {
            Some(TokenType::Greater)
        } else if c == '<' {
            Some(TokenType::Less)
        } else {
            None
        }
    } else if w.len() == 2 && w[1] == '=' {
        let c = w[0];
        if c == '!' {
            Some(TokenType::BangEqual)
        } else if c == '=' {
            Some(TokenType::EqualEqual)
        } else if c == '>' {
            Some(TokenType::GreaterEqual)
        } else if c == '<' {
            Some(TokenType::LessEqual)
        } else {
            None
        }
    } else {
        None
    }
}

/// The value of a string lexeme's interior once escapes are decoded.
pub open spec fn escape_of(c: char) -> Seq<char> {
    if c == 'n' {
        seq!['\n']
    } else if c == 'r' {
        seq!['\r']
    } else if c == 't' {
        seq!['\t']
    } else if c == '\\' || c == '"' {
        seq![c]
    } else {
        seq!['\\', c]
    }
}

/// Decodes the escapes of `s`, left to right.
pub open spec fn decode(s: Seq<char>) -> Seq<char>
    decreases s.len(),
{
    if s.len() == 0 {
        seq![]
    } else if s[0] == '\\' {
        if s.len() == 1 {
            seq!['\\']
        } else {
            escape_of(s[1]) + decode(s.subrange(2, s.len() as int))
        }
    } else {
        seq![s[0]] + decode(s.drop_first())
    }
}

/// The value of a quoted lexeme: its interior, decoded.
pub open spec fn unquoted(raw: Seq<char>) -> Seq<char> {
    decode(raw.subrange(1, raw.len() - 1))
}

/// The literal part of a rendered token; `number_text` is how the value of a
/// number is written.
pub open spec fn literal_text(t: TokenType, number_text: Seq<char>) -> Seq<char> {
    match t {
        TokenType::String(x) => unquoted(x@),
        TokenType::Number(_) => number_text,
        _ => "null"@,
    }
}

/// A rendered token: `<NAME> <lexeme> <literal>`.
pub open spec fn rendered(t: TokenType, number_text: Seq<char>) -> Seq<char> {
    kind_name(t) + seq![' '] + spelling(t) + seq![' '] + literal_text(t, number_text)
}

impl TokenType {
    /// The upper-case name of this kind.
    pub fn name(&self) -> (r: &'static str)
        ensures
            r@ == kind_name(*self),
    {
        match self {
            TokenType::Lparen => "LEFT_PAREN",
            TokenType::Rparen => "RIGHT_PAREN",
            TokenType::Lbrace => "LEFT_BRACE",
            TokenType::Rbrace => "RIGHT_BRACE",
            TokenType::Comma => "COMMA",
            TokenType::Dot => "DOT",
            TokenType::Minus => "MINUS",
            TokenType::Plus => "PLUS",
            TokenType::Semicolon => "SEMICOLON",
            TokenType::Star => "STAR",
            TokenType::Bang => "BANG",
            TokenType::BangEqual => "BANG_EQUAL",
            TokenType::Equal => "EQUAL",
            TokenType::EqualEqual => "EQUAL_EQUAL",
            TokenType::Greater => "GREATER",
            TokenType::GreaterEqual => "GREATER_EQUAL",
            TokenType::Less => "LESS",
            TokenType::LessEqual => "LESS_EQUAL",
            TokenType::And => "AND",
            TokenType::Class => "CLASS",
            TokenType::Else => "ELSE",
            TokenType::False => "FALSE",
            TokenType::For => "FOR",
            TokenType::Fun => "FUN",
            TokenType::If => "IF",
            TokenType::Nil => "NIL",
            TokenType::Or => "OR",
            TokenType::Print => "PRINT",
            TokenType::Return => "RETURN",
            TokenType::Super => "SUPER",
            TokenType::This => "THIS",
            TokenType::True => "TRUE",
            TokenType::Var => "VAR",
            TokenType::While => "WHILE",
            TokenType::String(_) => "STRING",
            TokenType::Ident(_) => "IDENTIFIER",
            TokenType::Number(_) => "NUMBER",
        }
    }

    /// The source text of a kind that carries no text of its own.
    fn fixed_spelling(&self) -> (r: &'static str)
        requires
            !(*self is String || *self is Ident || *self is Number),
        ensures
            r@ == spelling(*self),
    {
        match self {
            TokenType::Lparen => "(",
            TokenType::Rparen => ")",
            TokenType::Lbrace => "{",
            TokenType::Rbrace => "}",
            TokenType::Comma => ",",
            TokenType::Dot => ".",
            TokenType::Minus => "-",
            TokenType::Plus => "+",
            TokenType::Semicolon => ";",
            TokenType::Star => "*",
            TokenType::Bang => "!",
            TokenType::BangEqual => "!=",
            TokenType::Equal => "=",
            TokenType::EqualEqual => "==",
            TokenType::Greater => ">",
            TokenType::GreaterEqual => ">=",
            TokenType::Less => "<",
            TokenType::LessEqual => "<=",
            TokenType::And => "and",
            TokenType::Class => "class",
            TokenType::Else => "else",
            TokenType::False => "false",
            TokenType::For => "for",
            TokenType::Fun => "fun",
            TokenType::If => "if",
            TokenType::Nil => "nil",
            TokenType::Or => "or",
            TokenType::Print => "print",
            TokenType::Return => "return",
            TokenType::Super => "super",
            TokenType::This => "this",
            TokenType::True => "true",
            TokenType::Var => "var",
            TokenType::While => "while",
            _ => "",
        }
    }
}

/// Whether `w` holds exactly the characters of `k`.
fn same_text(w: &Vec<char>, k: &str) -> (r: bool)
    ensures
        r == (w@ == k@),
{
    let kc = chars_of(k);
    if w.len() != kc.len() {
        return false;
    }
    let mut i: usize = 0;
    while i < w.len()
        invariant
            w@.len() == kc@.len(),
            kc@ == k@,
            0 <= i <= w@.len(),
            forall|j: int| 0 <= j < i ==> w@[j] == kc@[j],
        decreases w@.len() - i,
    {
        if w[i] != kc[i] {
            return false;
        }
        i = i + 1;
    }
    assert(w@ =~= kc@);
    true
}

/// Looks a word up among the reserved words.
pub fn keyword(w: &Vec<char>) -> (r: Option<TokenType>)
    ensures
        r == keyword_of(w@),
        r matches Some(k) ==> spelling(k) == w@,
{
    proof {
        reveal_strlit("and");
        assert("and"@ =~= seq!['a', 'n', 'd']);
    }
    if same_text(w, "and") {
        return Some(TokenType::And);
    }
    proof {
        reveal_strlit("class");
        assert("class"@ =~= seq!['c', 'l', 'a', 's', 's']);
    }
    if same_text(w, "class") {
        return Some(TokenType::Class);
    }
    proof {
        reveal_strlit("else");
        assert("else"@ =~= seq!['e', 'l', 's', 'e']);
    }
    if same_text(w, "else") {
        return Some(TokenType::Else);
    }
    proof {
        reveal_strlit("false");
        assert("false"@ =~= seq!['f', 'a', 'l', 's', 'e']);
    }
    if same_text(w, "false") {
        return Some(TokenType::False);
    }
    proof {
        reveal_strlit("for");
        assert("for"@ =~= seq!['f', 'o', 'r']);
    }
    if same_text(w, "for") {
        return Some(TokenType::For);
    }
    proof {
        reveal_strlit("fun");
        assert("fun"@ =~= seq!['f', 'u', 'n']);
    }
    if same_text(w, "fun") {
        return Some(TokenType::Fun);
    }
    proof {
        reveal_strlit("if");
        assert("if"@ =~= seq!['i', 'f']);
    }
    if same_text(w, "if") {
        return Some(TokenType::If);
    }
    proof {
        reveal_strlit("nil");
        assert("nil"@ =~= seq!['n', 'i', 'l']);
    }
    if same_text(w, "nil") {
        return Some(TokenType::Nil);
    }
    proof {
        reveal_strlit("or");
        assert("or"@ =~= seq!['o', 'r']);
    }
    if same_text(w, "or") {
        return Some(TokenType::Or);
    }
    proof {
        reveal_strlit("print");
        assert("print"@ =~= seq!['p', 'r', 'i', 'n', 't']);
    }
    if same_text(w, "print") {
        return Some(TokenType::Print);
    }
    proof {
        reveal_strlit("return");
        assert("return"@ =~= seq!['r', 'e', 't', 'u', 'r', 'n']);
    }
    if same_text(w, "return") {
        return Some(TokenType::Return);
    }
    proof {
        reveal_strlit("super");
        assert("super"@ =~= seq!['s', 'u', 'p', 'e', 'r']);
    }
    if same_text(w, "super") {
        return Some(TokenType::Super);
    }
    proof {
        reveal_strlit("this");
        assert("this"@ =~= seq!['t', 'h', 'i', 's']);
    }
    if same_text(w, "this") {
        return Some(TokenType::This);
    }
    proof {
        reveal_strlit("true");
        assert("true"@ =~= seq!['t', 'r', 'u', 'e']);
    }
    if same_text(w, "true") {
        return Some(TokenType::True);
    }
    proof {
        reveal_strlit("var");
        assert("var"@ =~= seq!['v', 'a', 'r']);
    }
    if same_text(w, "var") {
        return Some(TokenType::Var);
    }
    proof {
        reveal_strlit("while");
        assert("while"@ =~= seq!['w', 'h', 'i', 'l', 'e']);
    }
    if same_text(w, "while") {
        return Some(TokenType::While);
    }
    None
}

/// Appends the decoded value of the escape `\e`.
fn push_escape(out: &mut String, e: char)
    ensures
        final(out)@ == old(out)@ + escape_of(e),
{
    if e == 'n' {
        push_char(out, '\n');
    } else if e == 'r' {
        push_char(out, '\r');
    } else if e == 't' {
        push_char(out, '\t');
    } else if e == '\\' || e == '"' {
        push_char(out, e);
    } else {
        push_char(out, '\\');
        push_char(out, e);
    }
    assert(final(out)@ =~= old(out)@ + escape_of(e));
}

impl TokenType {
    /// Decodes a quoted lexeme: drops the first and the last character and
    /// replaces the escapes `\n`, `\r`, `\t`, `\\` and `\"`. Any other
    /// backslash, and one at the very end, stays as it is.
    pub fn unescape(s: &str) -> (r: String)
        requires
            s@.len() >= 2,
        ensures
            r@ == unquoted(s@),
    {
        let cs = chars_of(s);
        let n: usize = cs.len() - 1;
        let mut out = String::new();
        let mut i: usize = 1;
        while i < n
            invariant
                cs@ == s@,
                n == cs@.len() - 1,
                1 <= i <= n,
                out@ + decode(cs@.subrange(i as int, n as int)) == decode(cs@.subrange(1, n as int)),
            decreases n - i,
        {
            let ghost rest = cs@.subrange(i as int, n as int);
            let ghost before = out@;
            let c = cs[i];
            if c == '\\' {
                if i + 1 < n {
                    push_escape(&mut out, cs[i + 1]);
                    proof {
                        assert(rest.subrange(2, rest.len() as int) =~= cs@.subrange(i + 2, n as int));
                        assert(out@ + decode(cs@.subrange(i + 2, n as int)) =~= before + decode(rest));
                    }
                    i = i + 2;
                } else {
                    push_char(&mut out, '\\');
                    proof {
                        assert(cs@.subrange(i + 1, n as int) =~= Seq::<char>::empty());
                        assert(out@ + decode(cs@.subrange(i + 1, n as int)) =~= before + decode(rest));
                    }
                    i = i + 1;
                }
            } else {
                push_char(&mut out, c);
                proof {
                    assert(rest.drop_first() =~= cs@.subrange(i + 1, n as int));
                    assert(out@ + decode(cs@.subrange(i + 1, n as int)) =~= before + decode(rest));
                }
                i = i + 1;
            }
        }
        proof {
            assert(cs@.subrange(i as int, n as int) =~= Seq::<char>::empty());
            assert(out@ =~= decode(cs@.subrange(1, n as int)));
        }
        out
    }

    /// Renders the token as `<NAME> <lexeme> <literal>`: the literal is the
    /// decoded value of a string, `number_text` for a number, `null` otherwise.
    pub fn render(&self, number_text: &str) -> (r: String)
        requires
            *self is String ==> self->String_0@.len() >= 2,
        ensures
            r@ == rendered(*self, number_text@),
    {
        let mut out = self.name().to_owned();
        push_char(&mut out, ' ');
        match self {
            TokenType::String(x) => {
                push_str(&mut out, x.as_str());
                push_char(&mut out, ' ');
                let d = TokenType::unescape(x.as_str());
                push_str(&mut out, d.as_str());
            },
            TokenType::Ident(x) => {
                push_str(&mut out, x.as_str());
                push_str(&mut out, " null");
            },
            TokenType::Number(x) => {
                push_str(&mut out, x.as_str());
                push_char(&mut out, ' ');
                push_str(&mut out, number_text);
            },
            _ => {
                push_str(&mut out, self.fixed_spelling());
                push_str(&mut out, " null");
            },
        }
        proof {
            reveal_strlit(" null");
            reveal_strlit("null");
        }
        assert(out@ =~= rendered(*self, number_text@));
        out
    }
}

} // verus!
