//! Lexing of the core language.
//!
//! Whitespace (space, tab, newline, form feed) separates tokens and is skipped. A token is an
//! identifier, taken as long as it goes, or one of the single characters `(`, `)`, `.`, `:`,
//! `λ`, `Π`, `Σ` and `□`. Token locations are byte offsets into the UTF-8 text.

use crate::err::DecodeErr;
use vstd::prelude::*;
use vstd::utf8::{encode_scalar, encode_utf8};

verus! {

/// Tokens of the core language.
#[derive(Clone, Debug, Eq, Hash, PartialEq)]
pub enum Tok {
    /// Identifier: one lowercase letter, then lowercase letters, decimal digits or underscores.
    Ident(String),
    /// Left parenthesis.
    LParen,
    /// Right parenthesis.
    RParen,
    /// Dot (period).
    Dot,
    /// Colon.
    Colon,
    /// Lowercase Greek letter *lambda*.
    Lambda,
    /// Uppercase Greek letter *pi*.
    Pi,
    /// Uppercase Greek letter *sigma*.
    Sigma,
    /// Box character.
    Box,
}

/// Text of a token: the name of an identifier, or the character of any other token.
pub open spec fn tok_text(t: Tok) -> Seq<char> {
    match t {
        Tok::Ident(x) => x@,
        Tok::LParen => "("@,
        Tok::RParen => ")"@,
        Tok::Dot => "."@,
        Tok::Colon => ":"@,
        Tok::Lambda => "λ"@,
        Tok::Pi => "Π"@,
        Tok::Sigma => "Σ"@,
        Tok::Box => "□"@,
    }
}

impl Tok {
    /// Text of the token: the name of an identifier, or the character of any other token.
    pub fn to_string(&self) -> (r: String)
        ensures
            r@ == tok_text(*self),
    {
        match self {
            Tok::Ident(x) => x.clone(),
            Tok::LParen => String::from_str("("),
            Tok::RParen => String::from_str(")"),
            Tok::Dot => String::from_str("."),
            Tok::Colon => String::from_str(":"),
            Tok::Lambda => String::from_str("λ"),
            Tok::Pi => String::from_str("Π"),
            Tok::Sigma => String::from_str("Σ"),
            Tok::Box => String::from_str("□"),
        }
    }
}

/// A token with the byte offsets where it starts and ends.
pub type Spanned = (usize, Tok, usize);

/// Whitespace between tokens.
pub open spec fn is_ws(c: char) -> bool {
    c == ' ' || c == '\t' || c == '\n' || c == '\x0C'
}

/// Characters that start an identifier.
pub open spec fn is_lower(c: char) -> bool {
    'a' <= c <= 'z'
}

/// Characters that continue an identifier.
pub open spec fn is_ident_char(c: char) -> bool {
    is_lower(c) || ('0' <= c <= '9') || c == '_'
}

/// The token that a single character makes, if any.
pub open spec fn glyph(c: char) -> Option<Tok> {
    if c == '(' {
        Some(Tok::LParen)
    } else if c == ')' {
        Some(Tok::RParen)
    } else if c == '.' {
        Some(Tok::Dot)
    } else if c == ':' {
        Some(Tok::Colon)
    } else if c == 'λ' {
        Some(Tok::Lambda)
    } else if c == 'Π' {
        Some(Tok::Pi)
    } else if c == 'Σ' {
        Some(Tok::Sigma)
    } else if c == '□' {
        Some(Tok::Box)
    } else {
        None
    }
}

/// The first position at or after `i` that holds no whitespace.
pub open spec fn skip_ws(s: Seq<char>, i: int) -> int
    decreases s.len() - i,
{
    if 0 <= i < s.len() && is_ws(s[i]) {
        skip_ws(s, i + 1)
    } else {
        i
    }
}

/// The first position at or after `i` that holds no identifier character.
pub open spec fn ident_end(s: Seq<char>, i: int) -> int
    decreases s.len() - i,
{
    if 0 <= i < s.len() && is_ident_char(s[i]) {
        ident_end(s, i + 1)
    } else {
        i
    }
}

/// Whether a token starts at position `j`.
pub open spec fn starts_token(s: Seq<char>, j: int) -> bool {
    0 <= j < s.len() && (is_lower(s[j]) || glyph(s[j]) is Some)
}

/// Where the token that starts at `j` ends.
pub open spec fn token_end(s: Seq<char>, j: int) -> int {
    if is_lower(s[j]) {
        ident_end(s, j + 1)
    } else {
        j + 1
    }
}

/// Whether `t` is the token that starts at `j`.
pub open spec fn token_is(s: Seq<char>, j: int, t: Tok) -> bool {
    if is_lower(s[j]) {
        t is Ident && t->Ident_0@ == s.subrange(j, token_end(s, j))
    } else {
        glyph(s[j]) == Some(t)
    }
}

/// Byte offset of the character position `j` in the UTF-8 encoding of `s`.
pub open spec fn byte_offset(s: Seq<char>, j: int) -> int {
    encode_utf8(s.take(j)).len() as int
}

/// The character spans of the tokens from position `i` on, up to the end of the text or up to
/// the first position where no token starts.
pub open spec fn spans_from(s: Seq<char>, i: int) -> Seq<(int, int)>
    decreases s.len() - i,
{
    let j = skip_ws(s, i);
    if i < 0 || !starts_token(s, j) || !(i < token_end(s, j) <= s.len()) {
        seq![]
    } else {
        seq![(j, token_end(s, j))] + spans_from(s, token_end(s, j))
    }
}

/// The position of the first character, from `i` on, that no token can start with.
pub open spec fn lex_error_from(s: Seq<char>, i: int) -> Option<int>
    decreases s.len() - i,
{
    let j = skip_ws(s, i);
    if i < 0 || j >= s.len() {
        None
    } else if !starts_token(s, j) {
        Some(j)
    } else if !(i < token_end(s, j) <= s.len()) {
        None
    } else {
        lex_error_from(s, token_end(s, j))
    }
}

/// Whether `t` is the token of the character span `sp`, with its byte offsets.
pub open spec fn spans_token(s: Seq<char>, sp: (int, int), t: Spanned) -> bool {
    &&& token_is(s, sp.0, t.1)
    &&& t.0 == byte_offset(s, sp.0)
    &&& t.2 == byte_offset(s, sp.1)
}

/// Whether `toks` are the tokens of the text `s`, up to its first invalid token.
pub open spec fn lexes(s: Seq<char>, toks: Seq<Spanned>) -> bool {
    &&& toks.len() == spans_from(s, 0).len()
    &&& forall|n: int| 0 <= n < toks.len() ==> spans_token(s, #[trigger] spans_from(s, 0)[n], toks[n])
}

pub(crate) proof fn lemma_skip_ws(s: Seq<char>, i: int)
    requires
        0 <= i <= s.len(),
    ensures
        i <= skip_ws(s, i) <= s.len(),
        forall|k: int| i <= k < skip_ws(s, i) ==> is_ws(s[k]),
    decreases s.len() - i,
{
    if i < s.len() && is_ws(s[i]) {
        lemma_skip_ws(s, i + 1);
    }
}

pub(crate) proof fn lemma_ident_end(s: Seq<char>, i: int)
    requires
        0 <= i <= s.len(),
    ensures
        i <= ident_end(s, i) <= s.len(),
    decreases s.len() - i,
{
    if i < s.len() && is_ident_char(s[i]) {
        lemma_ident_end(s, i + 1);
    }
}

proof fn lemma_encode_concat(a: Seq<char>, b: Seq<char>)
    ensures
        encode_utf8(a + b) == encode_utf8(a) + encode_utf8(b),
    decreases a.len(),
{
    if a.len() == 0 {
        assert(a + b =~= b);
    } else {
        lemma_encode_concat(a.drop_first(), b);
        assert((a + b).drop_first() =~= a.drop_first() + b);
    }
}

/// The byte offset grows by the width of each character, and stays within the whole text.
proof fn lemma_byte_offset(s: Seq<char>, j: int)
    requires
        0 <= j < s.len(),
    ensures
        byte_offset(s, j + 1) == byte_offset(s, j) + encode_scalar(s[j] as u32).len(),
        byte_offset(s, j + 1) <= encode_utf8(s).len(),
{
    lemma_encode_concat(s.take(j), seq![s[j]]);
    assert(s.take(j + 1) =~= s.take(j) + seq![s[j]]);
    assert(seq![s[j]].drop_first() =~= Seq::<char>::empty());
    assert(encode_utf8(Seq::<char>::empty()) =~= Seq::<u8>::empty());
    assert(encode_utf8(seq![s[j]]) =~= encode_scalar(s[j] as u32));
    lemma_encode_concat(s.take(j + 1), s.skip(j + 1));
    assert(s =~= s.take(j + 1) + s.skip(j + 1));
}

/// Number of bytes in the UTF-8 encoding of `c`.
fn utf8_width(c: char) -> (r: usize)
    ensures
        r == encode_scalar(c as u32).len(),
{
    let v = c as u32;
    if v <= 0x7F {
        1
    } else if v <= 0x7FF {
        2
    } else if v <= 0xFFFF && !(0xD800 <= v && v <= 0xDFFF) {
        3
    } else {
        4
    }
}

fn is_ws_exec(c: char) -> (r: bool)
    ensures
        r == is_ws(c),
{
    c == ' ' || c == '\t' || c == '\n' || c == '\x0C'
}

fn is_lower_exec(c: char) -> (r: bool)
    ensures
        r == is_lower(c),
{
    'a' <= c && c <= 'z'
}

fn is_ident_char_exec(c: char) -> (r: bool)
    ensures
        r == is_ident_char(c),
{
    ('a' <= c && c <= 'z') || ('0' <= c && c <= '9') || c == '_'
}

fn glyph_exec(c: char) -> (r: Option<Tok>)
    ensures
        r == glyph(c),
{
    if c == '(' {
        Some(Tok::LParen)
    } else if c == ')' {
        Some(Tok::RParen)
    } else if c == '.' {
        Some(Tok::Dot)
    } else if c == ':' {
        Some(Tok::Colon)
    } else if c == 'λ' {
        Some(Tok::Lambda)
    } else if c == 'Π' {
        Some(Tok::Pi)
    } else if c == 'Σ' {
        Some(Tok::Sigma)
    } else if c == '□' {
        Some(Tok::Box)
    } else {
        None
    }
}

/// The characters of `input`, in order.
fn chars_of(input: &str) -> (r: Vec<char>)
    ensures
        r@ == input@,
{
    let n = input.unicode_len();
    let mut v: Vec<char> = Vec::new();
    let mut i: usize = 0;
    while i < n
        invariant
            n == input@.len(),
            i <= n,
            v@ == input@.take(i as int),
        decreases n - i,
    {
        v.push(input.get_char(i));
        i = i + 1;
        assert(v@ =~= input@.take(i as int));
    }
    assert(input@.take(n as int) =~= input@);
    v
}

/// Splits `input` into tokens with their byte offsets, up to the first character, outside
/// whitespace, where no token can start; with the byte offset of that character, if any.
fn lex_all(input: &str) -> (r: (Vec<Spanned>, Option<usize>))
    ensures
        lexes(input@, r.0@),
        r.1 == match lex_error_from(input@, 0) {
            Some(j) => Some(byte_offset(input@, j) as usize),
            None => None::<usize>,
        },
{
    let ghost s = input@;
    let chars = chars_of(input);
    let n = chars.len();
    let bytes = input.as_bytes();
    let total = bytes.len();
    let mut toks: Vec<Spanned> = Vec::new();
    let mut i: usize = 0;
    let mut b: usize = 0;
    let ghost done: Seq<(int, int)> = seq![];
    proof {
        assert(s.take(0) =~= Seq::<char>::empty());
    }
    loop
        invariant
            s == input@,
            chars@ == s,
            n == s.len(),
            total == encode_utf8(s).len(),
            i <= n,
            b == byte_offset(s, i as int),
            spans_from(s, 0) == done + spans_from(s, i as int),
            lex_error_from(s, 0) == lex_error_from(s, i as int),
            toks@.len() == done.len(),
            forall|m: int| 0 <= m < done.len() ==> spans_token(s, #[trigger] done[m], toks@[m]),
        decreases n - i,
    {
        // skip whitespace
        let ghost i0 = i as int;
        proof {
            lemma_skip_ws(s, i0);
        }
        while i < n && is_ws_exec(chars[i])
            invariant
                s == input@,
                chars@ == s,
                n == s.len(),
                total == encode_utf8(s).len(),
                i0 <= i <= n,
                skip_ws(s, i as int) == skip_ws(s, i0),
                b == byte_offset(s, i as int),
            decreases n - i,
        {
            proof {
                lemma_byte_offset(s, i as int);
            }
            b = b + utf8_width(chars[i]);
            i = i + 1;
        }
        let j = i;
        assert(j == skip_ws(s, i0));
        if j == n {
            proof {
                assert(spans_from(s, i0) =~= Seq::<(int, int)>::empty());
                assert(done + spans_from(s, i0) =~= done);
            }
            return (toks, None);
        }
        let c = chars[j];
        let start = b;
        let tok: Tok;
        if is_lower_exec(c) {
            proof {
                lemma_byte_offset(s, j as int);
            }
            b = b + utf8_width(c);
            i = j + 1;
            proof {
                lemma_ident_end(s, i as int);
            }
            while i < n && is_ident_char_exec(chars[i])
                invariant
                    s == input@,
                    chars@ == s,
                    n == s.len(),
                    total == encode_utf8(s).len(),
                    j < i <= n,
                    ident_end(s, i as int) == ident_end(s, j + 1),
                    b == byte_offset(s, i as int),
                decreases n - i,
            {
                proof {
                    lemma_byte_offset(s, i as int);
                }
                b = b + utf8_width(chars[i]);
                i = i + 1;
            }
            let name = input.substring_char(j, i).to_owned();
            tok = Tok::Ident(name);
        } else {
            match glyph_exec(c) {
                Some(t) => {
                    proof {
                        lemma_byte_offset(s, j as int);
                    }
                    b = b + utf8_width(c);
                    i = j + 1;
                    tok = t;
                },
                None => {
                    proof {
                        assert(spans_from(s, i0) =~= Seq::<(int, int)>::empty());
                        assert(done + spans_from(s, i0) =~= done);
                    }
                    return (toks, Some(start));
                },
            }
        }
        proof {
            assert(i == token_end(s, j as int));
            assert(spans_from(s, i0) == seq![(j as int, i as int)] + spans_from(s, i as int));
        }
        toks.push((start, tok, b));
        proof {
            done = done.push((j as int, i as int));
            assert(spans_from(s, 0) =~= done + spans_from(s, i as int));
            assert(spans_token(s, done[done.len() - 1], toks@[toks@.len() - 1]));
        }
    }
}

/// Splits `input` into tokens with their byte offsets.
///
/// Fails at the first character, outside whitespace, where no token can start, with the byte
/// offset of that character.
pub fn tokenize(input: &str) -> (r: Result<Vec<Spanned>, DecodeErr>)
    ensures
        match lex_error_from(input@, 0) {
            Some(j) => r == Err::<Vec<Spanned>, DecodeErr>(
                DecodeErr::InvalidToken(byte_offset(input@, j) as usize),
            ),
            None => r is Ok && lexes(input@, r->Ok_0@),
        },
{
    match lex_all(input) {
        (v, None) => Ok(v),
        (_, Some(l)) => Err(DecodeErr::InvalidToken(l)),
    }
}

/// Stream of the tokens of a text, each with its byte offsets, and then of the error at the
/// first invalid token, if there is one.
pub struct Lexer {
    /// The tokens of the text up to its first invalid token.
    toks: Vec<Spanned>,
    /// The byte offset of the first invalid token, if any.
    invalid: Option<usize>,
    /// Number of tokens handed out so far.
    pos: usize,
    /// Whether the error has been handed out.
    told: bool,
}

/// The items that a lexer hands out: each token, then the error at `invalid`, if any.
pub open spec fn lexer_items(toks: Seq<Spanned>, invalid: Option<usize>) -> Seq<Result<Spanned, DecodeErr>> {
    toks.map_values(|t: Spanned| Ok::<Spanned, DecodeErr>(t)) + match invalid {
        Some(l) => seq![Err::<Spanned, DecodeErr>(DecodeErr::InvalidToken(l))],
        None => Seq::<Result<Spanned, DecodeErr>>::empty(),
    }
}

impl Lexer {
    /// What the lexer hands out, in order: each token, then the error, if any.
    pub closed spec fn items(&self) -> Seq<Result<Spanned, DecodeErr>> {
        lexer_items(self.toks@, self.invalid)
    }

    /// Number of items handed out so far.
    pub closed spec fn position(&self) -> nat {
        if self.told {
            self.toks@.len() + 1
        } else {
            self.pos as nat
        }
    }

    /// Create a new instance of the lexer over `input`.
    pub fn new(input: &str) -> (r: Self)
        ensures
            r.position() == 0,
            exists|v: Seq<Spanned>|
                lexes(input@, v) && r.items() == lexer_items(
                    v,
                    match lex_error_from(input@, 0) {
                        Some(j) => Some(byte_offset(input@, j) as usize),
                        None => None::<usize>,
                    },
                ),
    {
        let (toks, invalid) = lex_all(input);
        let r = Self { toks, invalid, pos: 0, told: false };
        proof {
            assert(lexes(input@, r.toks@));
        }
        r
    }

    /// The next token, or the error at the first invalid token; `None` once all have been
    /// handed out.
    pub fn next(&mut self) -> (r: Option<Result<Spanned, DecodeErr>>)
        ensures
            final(self).items() == old(self).items(),
            old(self).position() < old(self).items().len() ==> r == Some(
                old(self).items()[old(self).position() as int],
            ) && final(self).position() == old(self).position() + 1,
            old(self).position() >= old(self).items().len() ==> r is None
                && final(self).position() == old(self).position(),
    {
        let ghost items = self.items();
        if self.told {
            None
        } else if self.pos < self.toks.len() {
            let (s, t, e) = &self.toks[self.pos];
            let item = (*s, t.dup(), *e);
            proof {
                assert(items[self.pos as int] == Ok::<Spanned, DecodeErr>(self.toks@[self.pos as int]));
            }
            self.pos = self.pos + 1;
            Some(Ok(item))
        } else if self.pos == self.toks.len() {
            match self.invalid {
                Some(l) => {
                    proof {
                        assert(items[self.pos as int] == Err::<Spanned, DecodeErr>(DecodeErr::InvalidToken(l)));
                    }
                    self.told = true;
                    Some(Err(DecodeErr::InvalidToken(l)))
                },
                None => None,
            }
        } else {
            None
        }
    }
}

} // verus!
