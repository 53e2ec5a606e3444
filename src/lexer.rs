//! Turns source text into tokens.

use vstd::prelude::*;
use vstd::string::*;

verus! {

/// A malformed token, with the place where it starts.
#[derive(Debug)]
pub struct LexError {
    pub message: String,
    pub line: usize,
    pub column: usize,
}

#[derive(Debug, Clone, PartialEq)]
pub enum TokenType {
    Number(u64),
    Identifier(String),
    String(String),
    Let,
    Const,
    Function,
    If,
    Else,
    While,
    For,
    Return,
    True,
    False,
    Plus,
    Minus,
    Star,
    Slash,
    Percent,
    Equal,
    EqualEqual,
    Bang,
    BangEqual,
    Greater,
    GreaterEqual,
    Less,
    LessEqual,
    AmpersandAmpersand,
    PipePipe,
    LeftParen,
    RightParen,
    LeftBrace,
    RightBrace,
    LeftBracket,
    RightBracket,
    Semicolon,
    Comma,
    Dot,
    Storage,
    Memory,
    Keccak256,
    Assert,
    Eof,
}

/// The variant of a token type, as a number: payloads are ignored.
pub open spec fn kind_of(t: TokenType) -> nat {
    match t {
        TokenType::Number(_) => 0,
        TokenType::Identifier(_) => 1,
        TokenType::String(_) => 2,
        TokenType::Let => 3,
        TokenType::Const => 4,
        TokenType::Function => 5,
        TokenType::If => 6,
        TokenType::Else => 7,
        TokenType::While => 8,
        TokenType::For => 9,
        TokenType::Return => 10,
        TokenType::True => 11,
        TokenType::False => 12,
        TokenType::Plus => 13,
        TokenType::Minus => 14,
        TokenType::Star => 15,
        TokenType::Slash => 16,
        TokenType::Percent => 17,
        TokenType::Equal => 18,
        TokenType::EqualEqual => 19,
        TokenType::Bang => 20,
        TokenType::BangEqual => 21,
        TokenType::Greater => 22,
        TokenType::GreaterEqual => 23,
        TokenType::Less => 24,
        TokenType::LessEqual => 25,
        TokenType::AmpersandAmpersand => 26,
        TokenType::PipePipe => 27,
        TokenType::LeftParen => 28,
        TokenType::RightParen => 29,
        TokenType::LeftBrace => 30,
        TokenType::RightBrace => 31,
        TokenType::LeftBracket => 32,
        TokenType::RightBracket => 33,
        TokenType::Semicolon => 34,
        TokenType::Comma => 35,
        TokenType::Dot => 36,
        TokenType::Storage => 37,
        TokenType::Memory => 38,
        TokenType::Keccak256 => 39,
        TokenType::Assert => 40,
        TokenType::Eof => 41,
    }
}

impl TokenType {
    /// Whether two token types are the same variant.
    pub fn same_kind(&self, other: &TokenType) -> (r: bool)
        ensures
            r == (kind_of(*self) == kind_of(*other)),
    {
        self.kind() == other.kind()
    }

    fn kind(&self) -> (r: u8)
        ensures
            r as nat == kind_of(*self),
    {
        match self {
            TokenType::Number(_) => 0,
            TokenType::Identifier(_) => 1,
            TokenType::String(_) => 2,
            TokenType::Let => 3,
            TokenType::Const => 4,
            TokenType::Function => 5,
            TokenType::If => 6,
            TokenType::Else => 7,
            TokenType::While => 8,
            TokenType::For => 9,
            TokenType::Return => 10,
            TokenType::True => 11,
            TokenType::False => 12,
            TokenType::Plus => 13,
            TokenType::Minus => 14,
            TokenType::Star => 15,
            TokenType::Slash => 16,
            TokenType::Percent => 17,
            TokenType::Equal => 18,
            TokenType::EqualEqual => 19,
            TokenType::Bang => 20,
            TokenType::BangEqual => 21,
            TokenType::Greater => 22,
            TokenType::GreaterEqual => 23,
            TokenType::Less => 24,
            TokenType::LessEqual => 25,
            TokenType::AmpersandAmpersand => 26,
            TokenType::PipePipe => 27,
            TokenType::LeftParen => 28,
            TokenType::RightParen => 29,
            TokenType::LeftBrace => 30,
            TokenType::RightBrace => 31,
            TokenType::LeftBracket => 32,
            TokenType::RightBracket => 33,
            TokenType::Semicolon => 34,
            TokenType::Comma => 35,
            TokenType::Dot => 36,
            TokenType::Storage => 37,
            TokenType::Memory => 38,
            TokenType::Keccak256 => 39,
            TokenType::Assert => 40,
            TokenType::Eof => 41,
        }
    }
}

#[derive(Debug, Clone)]
pub struct Token {
    pub token_type: TokenType,
    pub lexeme: String,
    pub line: usize,
    pub column: usize,
}

impl Token {
    pub fn new(token_type: TokenType, lexeme: String, line: usize, column: usize) -> (r: Token)
        ensures
            r == (Token { token_type, lexeme, line, column }),
    {
        Token { token_type, lexeme, line, column }
    }
}

/// Relies on str::chars, collected: the characters of the string in order.
#[verifier::external_body]
fn chars_of(s: &str) -> (r: Vec<char>)
    ensures
        r@ == s@,
{
    s.chars().collect()
}

/// Relies on collecting chars into a String: the string of exactly these characters.
#[verifier::external_body]
pub(crate) fn string_from_chars(v: &Vec<char>) -> (r: String)
    ensures
        r@ == v@,
{
    v.iter().collect()
}

pub open spec fn is_digit(c: char) -> bool {
    '0' <= c <= '9'
}

pub open spec fn is_hex_digit(c: char) -> bool {
    is_digit(c) || ('a' <= c <= 'f') || ('A' <= c <= 'F')
}

pub open spec fn is_alpha(c: char) -> bool {
    ('a' <= c <= 'z') || ('A' <= c <= 'Z')
}

pub open spec fn is_ident_char(c: char) -> bool {
    is_alpha(c) || is_digit(c) || c == '_'
}

pub open spec fn digit_value(c: char) -> nat {
    if is_digit(c) {
        (c as u32 - '0' as u32) as nat
    } else if 'a' <= c <= 'f' {
        (c as u32 - 'a' as u32 + 10) as nat
    } else {
        (c as u32 - 'A' as u32 + 10) as nat
    }
}

/// The value of a string of digits in the given base, most significant first.
pub open spec fn digits_value(s: Seq<char>, base: nat) -> nat
    decreases s.len(),
{
    if s.len() == 0 {
        0
    } else {
        digits_value(s.drop_last(), base) * base + digit_value(s.last())
    }
}

fn is_ascii_digit(c: char) -> (r: bool)
    ensures
        r == is_digit(c),
{
    '0' <= c && c <= '9'
}

fn is_ascii_hexdigit(c: char) -> (r: bool)
    ensures
        r == is_hex_digit(c),
{
    ('0' <= c && c <= '9') || ('a' <= c && c <= 'f') || ('A' <= c && c <= 'F')
}

fn is_ascii_alphabetic(c: char) -> (r: bool)
    ensures
        r == is_alpha(c),
{
    ('a' <= c && c <= 'z') || ('A' <= c && c <= 'Z')
}

fn digit_of(c: char) -> (r: u64)
    requires
        is_hex_digit(c),
    ensures
        r == digit_value(c),
        r < 16,
{
    if '0' <= c && c <= '9' {
        (c as u32 - '0' as u32) as u64
    } else if 'a' <= c && c <= 'f' {
        (c as u32 - 'a' as u32 + 10) as u64
    } else {
        (c as u32 - 'A' as u32 + 10) as u64
    }
}

/// The value of the digits, or `None` where it does not fit in 64 bits.
fn parse_digits(s: &Vec<char>, base: u64) -> (r: Option<u64>)
    requires
        base == 10 || base == 16,
        forall|i: int| 0 <= i < s@.len() ==> is_hex_digit(#[trigger] s@[i]),
        base == 10 ==> forall|i: int| 0 <= i < s@.len() ==> is_digit(#[trigger] s@[i]),
    ensures
        r is Some == (digits_value(s@, base as nat) <= u64::MAX),
        r is Some ==> r.unwrap() == digits_value(s@, base as nat),
{
    let mut value: u64 = 0;
    let mut i: usize = 0;
    while i < s.len()
        invariant
            i <= s@.len(),
            base == 10 || base == 16,
            forall|k: int| 0 <= k < s@.len() ==> is_hex_digit(#[trigger] s@[k]),
            value == digits_value(s@.subrange(0, i as int), base as nat),
        decreases s@.len() - i,
    {
        let d = digit_of(s[i]);
        proof {
            assert(s@.subrange(0, i + 1).drop_last() == s@.subrange(0, i as int));
        }
        let limit = (u64::MAX - d) / base;
        if value > limit {
            proof {
                assert(value * base + d > u64::MAX) by (nonlinear_arith)
                    requires value > limit, limit as int == (u64::MAX as int - d as int) / (base as int), base > 0, d < 16;
                lemma_digits_monotone(s@, base as nat, i as nat + 1);
            }
            return None;
        }
        proof {
            assert(value * base + d <= u64::MAX) by (nonlinear_arith)
                requires value <= limit, limit as int == (u64::MAX as int - d as int) / (base as int), base > 0, d < 16;
        }
        value = value * base + d;
        i = i + 1;
    }
    assert(s@.subrange(0, s@.len() as int) == s@);
    Some(value)
}

/// A longer digit string never has a smaller value than its prefix.
proof fn lemma_digits_monotone(s: Seq<char>, base: nat, k: nat)
    requires
        k <= s.len(),
        base >= 1,
    ensures
        digits_value(s.subrange(0, k as int), base) <= digits_value(s, base),
    decreases s.len(),
{
    if k < s.len() {
        lemma_digits_monotone(s.drop_last(), base, k);
        assert(s.drop_last().subrange(0, k as int) == s.subrange(0, k as int));
        let a = digits_value(s.drop_last(), base);
        assert(a <= a * base) by (nonlinear_arith)
            requires base >= 1;
    } else {
        assert(s.subrange(0, k as int) == s);
    }
}

pub(crate) fn chars_eq(a: &Vec<char>, b: &[char]) -> (r: bool)
    ensures
        r == (a@ == b@),
{
    if a.len() != b.len() {
        return false;
    }
    let mut i: usize = 0;
    while i < a.len()
        invariant
            a@.len() == b@.len(),
            i <= a@.len(),
            forall|k: int| 0 <= k < i ==> a@[k] == b@[k],
        decreases a@.len() - i,
    {
        if a[i] != b[i] {
            return false;
        }
        i = i + 1;
    }
    assert(a@ =~= b@);
    true
}

/// What a scanned word becomes: a reserved word's own kind, or an identifier that holds it.
pub open spec fn word_token(t: TokenType, w: Seq<char>) -> bool {
    &&& (w == seq!['l', 'e', 't']) == (t is Let)
    &&& (w == seq!['c', 'o', 'n', 's', 't']) == (t is Const)
    &&& (w == seq!['f', 'u', 'n', 'c', 't', 'i', 'o', 'n']) == (t is Function)
    &&& (w == seq!['i', 'f']) == (t is If)
    &&& (w == seq!['e', 'l', 's', 'e']) == (t is Else)
    &&& (w == seq!['w', 'h', 'i', 'l', 'e']) == (t is While)
    &&& (w == seq!['f', 'o', 'r']) == (t is For)
    &&& (w == seq!['r', 'e', 't', 'u', 'r', 'n']) == (t is Return)
    &&& (w == seq!['t', 'r', 'u', 'e']) == (t is True)
    &&& (w == seq!['f', 'a', 'l', 's', 'e']) == (t is False)
    &&& (w == seq!['s', 't', 'o', 'r', 'a', 'g', 'e']) == (t is Storage)
    &&& (w == seq!['m', 'e', 'm', 'o', 'r', 'y']) == (t is Memory)
    &&& (w == seq!['k', 'e', 'c', 'c', 'a', 'k', '2', '5', '6']) == (t is Keccak256)
    &&& (w == seq!['a', 's', 's', 'e', 'r', 't']) == (t is Assert)
    &&& t is Identifier ==> t->Identifier_0@ == w
    &&& t is Identifier || t is Let || t is Const || t is Function || t is If || t is Else
        || t is While || t is For || t is Return || t is True || t is False || t is Storage
        || t is Memory || t is Keccak256 || t is Assert
}

/// The token kind of a word: a reserved word's own kind, or an identifier.
fn word_kind(w: &Vec<char>) -> (r: TokenType)
    ensures
        word_token(r, w@),
{
    if chars_eq(w, &['l', 'e', 't']) {
        TokenType::Let
    } else if chars_eq(w, &['c', 'o', 'n', 's', 't']) {
        TokenType::Const
    } else if chars_eq(w, &['f', 'u', 'n', 'c', 't', 'i', 'o', 'n']) {
        TokenType::Function
    } else if chars_eq(w, &['i', 'f']) {
        TokenType::If
    } else if chars_eq(w, &['e', 'l', 's', 'e']) {
        TokenType::Else
    } else if chars_eq(w, &['w', 'h', 'i', 'l', 'e']) {
        TokenType::While
    } else if chars_eq(w, &['f', 'o', 'r']) {
        TokenType::For
    } else if chars_eq(w, &['r', 'e', 't', 'u', 'r', 'n']) {
        TokenType::Return
    } else if chars_eq(w, &['t', 'r', 'u', 'e']) {
        TokenType::True
    } else if chars_eq(w, &['f', 'a', 'l', 's', 'e']) {
        TokenType::False
    } else if chars_eq(w, &['s', 't', 'o', 'r', 'a', 'g', 'e']) {
        TokenType::Storage
    } else if chars_eq(w, &['m', 'e', 'm', 'o', 'r', 'y']) {
        TokenType::Memory
    } else if chars_eq(w, &['k', 'e', 'c', 'c', 'a', 'k', '2', '5', '6']) {
        TokenType::Keccak256
    } else if chars_eq(w, &['a', 's', 's', 'e', 'r', 't']) {
        TokenType::Assert
    } else {
        TokenType::Identifier(string_from_chars(w))
    }
}

/// What a token of kind `t` says of the characters `w` it was scanned from.
pub open spec fn token_matches(t: TokenType, w: Seq<char>) -> bool {
    match t {
        TokenType::Number(n) => {
            ||| (w.len() >= 1 && (forall|i: int| 0 <= i < w.len() ==> is_digit(#[trigger] w[i]))
                && n == digits_value(w, 10))
            ||| (w.len() >= 3 && w[0] == '0' && (w[1] == 'x' || w[1] == 'X') && (forall|i: int|
                2 <= i < w.len() ==> is_hex_digit(#[trigger] w[i])) && n == digits_value(
                w.subrange(2, w.len() as int),
                16,
            ))
        },
        TokenType::String(s) => w.len() >= 2 && w[0] == '"' && w.last() == '"' && s@ == w.subrange(
            1,
            w.len() - 1,
        ) && (forall|i: int| 1 <= i < w.len() - 1 ==> #[trigger] w[i] != '"'),
        TokenType::Plus => w == seq!['+'],
        TokenType::Minus => w == seq!['-'],
        TokenType::Star => w == seq!['*'],
        TokenType::Slash => w == seq!['/'],
        TokenType::Percent => w == seq!['%'],
        TokenType::Equal => w == seq!['='],
        TokenType::EqualEqual => w == seq!['=', '='],
        TokenType::Bang => w == seq!['!'],
        TokenType::BangEqual => w == seq!['!', '='],
        TokenType::Greater => w == seq!['>'],
        TokenType::GreaterEqual => w == seq!['>', '='],
        TokenType::Less => w == seq!['<'],
        TokenType::LessEqual => w == seq!['<', '='],
        TokenType::AmpersandAmpersand => w == seq!['&', '&'],
        TokenType::PipePipe => w == seq!['|', '|'],
        TokenType::LeftParen => w == seq!['('],
        TokenType::RightParen => w == seq![')'],
        TokenType::LeftBrace => w == seq!['{'],
        TokenType::RightBrace => w == seq!['}'],
        TokenType::LeftBracket => w == seq!['['],
        TokenType::RightBracket => w == seq![']'],
        TokenType::Semicolon => w == seq![';'],
        TokenType::Comma => w == seq![','],
        TokenType::Dot => w == seq!['.'],
        TokenType::Eof => false,
        _ => w.len() >= 1 && (is_alpha(w[0]) || w[0] == '_') && (forall|i: int|
            0 <= i < w.len() ==> is_ident_char(#[trigger] w[i])) && word_token(t, w),
    }
}

/// Whether character `c` right after a token of kind `t` scanned from `w` would have continued
/// it: a digit after a number (a hex digit after `0x…`, or `x` after a lone `0`), an identifier
/// character after a word, `=` after `=`, `!`, `<` or `>`, and `/` after `/`.
pub open spec fn continues(t: TokenType, w: Seq<char>, c: char) -> bool {
    match t {
        TokenType::Number(_) => if w.len() >= 2 && (w[1] == 'x' || w[1] == 'X') {
            is_hex_digit(c)
        } else {
            is_digit(c) || (w == seq!['0'] && (c == 'x' || c == 'X'))
        },
        TokenType::Equal | TokenType::Bang | TokenType::Greater | TokenType::Less => c == '=',
        TokenType::Slash => c == '/',
        TokenType::Identifier(_) | TokenType::Let | TokenType::Const | TokenType::Function
        | TokenType::If | TokenType::Else | TokenType::While | TokenType::For | TokenType::Return
        | TokenType::True | TokenType::False | TokenType::Storage | TokenType::Memory
        | TokenType::Keccak256 | TokenType::Assert => is_ident_char(c),
        _ => false,
    }
}

/// Position `i` of `text` lies inside one of the spans.
pub open spec fn covered(spans: Seq<(int, int)>, i: int) -> bool {
    exists|k: int| 0 <= k < spans.len() && (#[trigger] spans[k]).0 <= i < spans[k].1
}

/// Position `i` of `text` is whitespace, or lies in a `//` comment that runs to the end of
/// its line.
pub open spec fn blank_at(text: Seq<char>, i: int) -> bool {
    is_space(text[i]) || exists|j: int|
        0 <= j <= i && j + 1 < text.len() && #[trigger] text[j] == '/' && text[j + 1] == '/' && forall|k: int|
            j <= k <= i ==> text[k] != '\n'
}

/// Each token but the last comes from its own span of `text` after `from`; spans are in order and do not
/// overlap, and each token agrees with the characters of its span.
pub open spec fn lexed_from(tokens: Seq<Token>, spans: Seq<(int, int)>, text: Seq<char>, from: int) -> bool {
    &&& spans.len() + 1 == tokens.len()
    &&& forall|i: int|
        #![trigger spans[i]]
        0 <= i < spans.len() ==> from <= spans[i].0 < spans[i].1 <= text.len() && token_matches(
            tokens[i].token_type,
            text.subrange(spans[i].0, spans[i].1),
        )
    &&& forall|i: int| 0 <= i < spans.len() - 1 ==> #[trigger] spans[i].1 <= spans[i + 1].0
    &&& forall|i: int| from <= i < text.len() && !covered(spans, i) ==> blank_at(text, i)
    &&& forall|i: int|
        0 <= i < spans.len() && #[trigger] spans[i].1 < text.len() ==> !continues(
            tokens[i].token_type,
            text.subrange(spans[i].0, spans[i].1),
            text[spans[i].1],
        )
}

/// The kind of a one-character token that has no two-character form.
fn single_char_kind(c: char) -> (r: Option<TokenType>)
    ensures
        r is Some ==> !(r.unwrap() is Eof),
        r is Some ==> token_matches(r.unwrap(), seq![c]),
        c == ';' ==> r == Some(TokenType::Semicolon),
        r is Some == (c == '+' || c == '-' || c == '*' || c == '%' || c == '(' || c == ')' || c
            == '{' || c == '}' || c == '[' || c == ']' || c == ';' || c == ',' || c == '.'),
{
    match c {
        '+' => Some(TokenType::Plus),
        '-' => Some(TokenType::Minus),
        '*' => Some(TokenType::Star),
        '%' => Some(TokenType::Percent),
        '(' => Some(TokenType::LeftParen),
        ')' => Some(TokenType::RightParen),
        '{' => Some(TokenType::LeftBrace),
        '}' => Some(TokenType::RightBrace),
        '[' => Some(TokenType::LeftBracket),
        ']' => Some(TokenType::RightBracket),
        ';' => Some(TokenType::Semicolon),
        ',' => Some(TokenType::Comma),
        '.' => Some(TokenType::Dot),
        _ => None,
    }
}

/// `prefix` followed by `body` and a closing quote.
pub(crate) fn quoted_message(prefix: &str, body: &Vec<char>) -> (r: String)
    ensures
        r@ == prefix@ + body@ + seq!['\''],
{
    let mut v = str_chars(prefix);
    let ghost p = v@;
    let mut i: usize = 0;
    while i < body.len()
        invariant
            i <= body@.len(),
            v@ == p + body@.subrange(0, i as int),
        decreases body@.len() - i,
    {
        v.push(body[i]);
        i = i + 1;
        assert(v@ =~= p + body@.subrange(0, i as int));
    }
    v.push('\'');
    assert(v@ =~= p + body@ + seq!['\'']);
    string_from_chars(&v)
}

pub(crate) fn str_chars(s: &str) -> (r: Vec<char>)
    ensures
        r@ == s@,
{
    chars_of(s)
}

/// A scanner over the characters of one source text.
pub struct Lexer {
    input: Vec<char>,
    current: usize,
    line: usize,
    column: usize,
}

impl Lexer {
    /// The position and line counters stay within the input.
    pub closed spec fn wf(&self) -> bool {
        &&& self.input@.len() < usize::MAX
        &&& self.current <= self.input@.len()
        &&& 1 <= self.line <= self.current + 1
        &&& 1 <= self.column <= self.current + 1
    }

    /// The characters being scanned.
    pub closed spec fn text(&self) -> Seq<char> {
        self.input@
    }

    /// How many characters have been consumed.
    pub closed spec fn position(&self) -> nat {
        self.current as nat
    }

    /// The line and column of the next character.
    pub closed spec fn line_column(&self) -> (nat, nat) {
        (self.line as nat, self.column as nat)
    }

    pub fn new(input: &str) -> (r: Lexer)
        requires
            input@.len() < usize::MAX,
        ensures
            r.wf(),
            r.text() == input@,
            r.position() == 0,
            r.line_column() == (1nat, 1nat),
    {
        Lexer { input: str_chars(input), current: 0, line: 1, column: 1 }
    }

    fn is_at_end(&self) -> (r: bool)
        ensures
            r == (self.current >= self.input@.len()),
    {
        self.current >= self.input.len()
    }

    fn peek(&self) -> (r: char)
        ensures
            self.current < self.input@.len() ==> r == self.input@[self.current as int],
            self.current >= self.input@.len() ==> r == '\0',
    {
        if self.is_at_end() {
            '\0'
        } else {
            self.input[self.current]
        }
    }

    fn advance(&mut self) -> (r: char)
        requires
            old(self).wf(),
        ensures
            final(self).wf(),
            final(self).input@ == old(self).input@,
            final(self).line == old(self).line,
            old(self).current < old(self).input@.len() ==> r == old(self).input@[old(self).current as int] && final(self).current == old(self).current + 1,
            old(self).current >= old(self).input@.len() ==> r == '\0' && final(self).current
                == old(self).current,
    {
        if !self.is_at_end() {
            let c = self.input[self.current];
            self.current = self.current + 1;
            self.column = self.column + 1;
            c
        } else {
            '\0'
        }
    }

    fn match_char(&mut self, expected: char) -> (r: bool)
        requires
            old(self).wf(),
        ensures
            final(self).wf(),
            final(self).input@ == old(self).input@,
            final(self).line == old(self).line,
            r == (old(self).current < old(self).input@.len() && old(self).input@[old(self).current as int] == expected),
            r ==> final(self).current == old(self).current + 1,
            !r ==> final(self).current == old(self).current,
    {
        if self.is_at_end() || self.input[self.current] != expected {
            false
        } else {
            self.current = self.current + 1;
            self.column = self.column + 1;
            true
        }
    }

    /// Skips spaces, tabs, carriage returns and newlines, counting lines.
    fn skip_whitespace(&mut self)
        requires
            old(self).wf(),
        ensures
            final(self).wf(),
            final(self).input@ == old(self).input@,
            old(self).current <= final(self).current,
            final(self).current < final(self).input@.len() ==> !is_space(
                final(self).input@[final(self).current as int],
            ),
            forall|i: int|
                old(self).current <= i < final(self).current ==> is_space(
                    #[trigger] final(self).input@[i],
                ),
    {
        while !self.is_at_end()
            invariant
                self.wf(),
                self.input@ == old(self).input@,
                old(self).current <= self.current,
                forall|i: int| old(self).current <= i < self.current ==> is_space(#[trigger] self.input@[i]),
            ensures
                self.current < self.input@.len() ==> !is_space(self.input@[self.current as int]),
            decreases self.input@.len() - self.current,
        {
            let c = self.peek();
            if c == ' ' || c == '\r' || c == '\t' {
                self.advance();
            } else if c == '\n' {
                self.advance();
                self.line = self.line + 1;
                self.column = 1;
            } else {
                break;
            }
        }
    }
    /// Scans the rest of a number whose first digit was just consumed: decimal, or
    /// hexadecimal after `0x`.
    fn number(&mut self, first_digit: char, line: usize, column: usize) -> (r: Result<
        Token,
        LexError,
    >)
        requires
            old(self).wf(),
            is_digit(first_digit),
        ensures
            final(self).wf(),
            final(self).input@ == old(self).input@,
            old(self).current <= final(self).current,
            r is Ok ==> r->Ok_0.token_type is Number && r->Ok_0.line == line,
            r is Err ==> r->Err_0.line == line,
            ({
                let s = old(self);
                first_digit == '0' && s.current < s.input@.len() && (s.input@[s.current as int]
                    == 'x' || s.input@[s.current as int] == 'X')
            }) ==> ({
                let d = final(self).input@.subrange(old(self).current + 1, final(self).current as int);
                &&& final(self).current >= old(self).current + 1
                &&& forall|i: int| 0 <= i < d.len() ==> is_hex_digit(#[trigger] d[i])
                &&& (final(self).current < final(self).input@.len() ==> !is_hex_digit(
                    final(self).input@[final(self).current as int],
                ))
                &&& r is Ok == (d.len() > 0 && digits_value(d, 16) <= u64::MAX)
                &&& r is Ok ==> r->Ok_0.token_type->Number_0 == digits_value(d, 16)
            }),
            !({
                let s = old(self);
                first_digit == '0' && s.current < s.input@.len() && (s.input@[s.current as int]
                    == 'x' || s.input@[s.current as int] == 'X')
            }) ==> ({
                let d = seq![first_digit] + final(self).input@.subrange(
                    old(self).current as int,
                    final(self).current as int,
                );
                &&& forall|i: int| 0 <= i < d.len() ==> is_digit(#[trigger] d[i])
                &&& (final(self).current < final(self).input@.len() ==> !is_digit(
                    final(self).input@[final(self).current as int],
                ))
                &&& r is Ok == (digits_value(d, 10) <= u64::MAX)
                &&& r is Ok ==> r->Ok_0.token_type->Number_0 == digits_value(d, 10)
            }),
    {
        let mut lexeme: Vec<char> = Vec::new();
        lexeme.push(first_digit);
        let p = self.peek();
        if first_digit == '0' && (p == 'x' || p == 'X') {
            self.advance();
            lexeme.push('x');
            let start = self.current;
            let mut digits: Vec<char> = Vec::new();
            while is_ascii_hexdigit(self.peek())
                invariant
                    self.wf(),
                    self.input@ == old(self).input@,
                    start == old(self).current + 1,
                    start <= self.current,
                    digits@ == self.input@.subrange(start as int, self.current as int),
                    forall|i: int| 0 <= i < digits@.len() ==> is_hex_digit(#[trigger] digits@[i]),
                decreases self.input@.len() - self.current,
            {
                let c = self.advance();
                digits.push(c);
                lexeme.push(c);
                assert(digits@ =~= self.input@.subrange(start as int, self.current as int));
            }
            if digits.len() == 0 {
                return Err(LexError { message: String::from_str("Invalid hex literal"), line, column });
            }
            match parse_digits(&digits, 16) {
                Some(num) => Ok(Token::new(TokenType::Number(num), string_from_chars(&lexeme), line, column)),
                None => Err(LexError { message: quoted_message("Invalid hex number '", &lexeme), line, column }),
            }
        } else {
            let start = self.current;
            let mut digits: Vec<char> = Vec::new();
            digits.push(first_digit);
            while is_ascii_digit(self.peek())
                invariant
                    self.wf(),
                    self.input@ == old(self).input@,
                    start == old(self).current,
                    start <= self.current,
                    digits@ == seq![first_digit] + self.input@.subrange(start as int, self.current as int),
                    forall|i: int| 0 <= i < digits@.len() ==> is_digit(#[trigger] digits@[i]),
                decreases self.input@.len() - self.current,
            {
                let c = self.advance();
                digits.push(c);
                assert(digits@ =~= seq![first_digit] + self.input@.subrange(start as int, self.current as int));
            }
            assert forall|i: int| 0 <= i < digits@.len() implies is_hex_digit(#[trigger] digits@[i]) by {
                assert(is_digit(digits@[i]));
            }
            match parse_digits(&digits, 10) {
                Some(num) => Ok(Token::new(TokenType::Number(num), string_from_chars(&digits), line, column)),
                None => Err(LexError { message: quoted_message("Invalid number '", &digits), line, column }),
            }
        }
    }

    /// Scans the rest of a word whose first character was just consumed.
    fn identifier(&mut self, first_char: char, line: usize, column: usize) -> (r: Token)
        requires
            old(self).wf(),
        ensures
            final(self).wf(),
            final(self).input@ == old(self).input@,
            old(self).current <= final(self).current,
            forall|i: int|
                old(self).current <= i < final(self).current ==> is_ident_char(
                    #[trigger] final(self).input@[i],
                ),
            final(self).current < final(self).input@.len() ==> !is_ident_char(
                final(self).input@[final(self).current as int],
            ),
            word_token(
                r.token_type,
                seq![first_char] + final(self).input@.subrange(
                    old(self).current as int,
                    final(self).current as int,
                ),
            ),
            r.lexeme@ == seq![first_char] + final(self).input@.subrange(
                old(self).current as int,
                final(self).current as int,
            ),
            r.line == line,
    {
        let start = self.current;
        let mut word: Vec<char> = Vec::new();
        word.push(first_char);
        loop
            invariant
                self.wf(),
                self.input@ == old(self).input@,
                start == old(self).current,
                start <= self.current,
                word@ == seq![first_char] + self.input@.subrange(start as int, self.current as int),
                forall|i: int| start <= i < self.current ==> is_ident_char(#[trigger] self.input@[i]),
            ensures
                self.current < self.input@.len() ==> !is_ident_char(self.input@[self.current as int]),
            decreases self.input@.len() - self.current,
        {
            let c = self.peek();
            if !(is_ascii_alphabetic(c) || is_ascii_digit(c) || c == '_') || self.is_at_end() {
                break;
            }
            self.advance();
            word.push(c);
            assert(word@ =~= seq![first_char] + self.input@.subrange(start as int, self.current as int));
        }
        let kind = word_kind(&word);
        Token::new(kind, string_from_chars(&word), line, column)
    }

    /// Scans a string literal whose opening quote was just consumed.
    fn string_literal(&mut self, line: usize, column: usize) -> (r: Result<Token, LexError>)
        requires
            old(self).wf(),
        ensures
            final(self).wf(),
            final(self).input@ == old(self).input@,
            old(self).current <= final(self).current,
            forall|i: int|
                old(self).current <= i < final(self).current - 1 ==> #[trigger] final(self).input@[i] != '"',
            r is Ok == (final(self).current > old(self).current && final(self).input@[final(self).current - 1] == '"'),
            r is Err ==> final(self).current == final(self).input@.len() && r->Err_0.line == line,
            r is Err ==> forall|i: int| old(self).current <= i < final(self).input@.len() ==> #[trigger] final(self).input@[i] != '"',
            r is Ok ==> r->Ok_0.token_type is String && r->Ok_0.token_type->String_0@ == final(self).input@.subrange(old(self).current as int, final(self).current - 1) && r->Ok_0.line
                == line,
    {
        let start = self.current;
        let mut value: Vec<char> = Vec::new();
        while self.peek() != '"' && !self.is_at_end()
            invariant
                self.wf(),
                self.input@ == old(self).input@,
                start == old(self).current,
                start <= self.current,
                value@ == self.input@.subrange(start as int, self.current as int),
                forall|i: int| start <= i < self.current ==> #[trigger] self.input@[i] != '"',
            decreases self.input@.len() - self.current,
        {
            let c = self.advance();
            if c == '\n' {
                self.line = self.line + 1;
                self.column = 1;
            }
            value.push(c);
            assert(value@ =~= self.input@.subrange(start as int, self.current as int));
        }
        if self.is_at_end() {
            return Err(LexError { message: String::from_str("Unterminated string"), line, column });
        }
        self.advance();
        let mut lexeme: Vec<char> = Vec::new();
        lexeme.push('"');
        let mut i: usize = 0;
        while i < value.len()
            invariant
                i <= value@.len(),
                lexeme@.len() == i + 1,
            decreases value@.len() - i,
        {
            lexeme.push(value[i]);
            i = i + 1;
        }
        lexeme.push('"');
        Ok(Token::new(TokenType::String(string_from_chars(&value)), string_from_chars(&lexeme), line, column))
    }

    /// Scans one token, or a comment, from the current position, which is past whitespace.
    /// A token agrees with the characters it was scanned from.
    #[verifier::rlimit(100)]
    fn scan_token(&mut self, line: usize, column: usize) -> (r: Result<Option<Token>, LexError>)
        requires
            old(self).wf(),
            old(self).current < old(self).input@.len(),
            !is_space(old(self).input@[old(self).current as int]),
            line >= 1,
        ensures
            all_plain(old(self).input@, old(self).current as int) ==> r is Ok,
            ({
                let t = old(self).input@;
                let a = old(self).current as int;
                a + 6 < t.len() && t.subrange(a, a + 6) == seq!['r', 'e', 't', 'u', 'r', 'n'] && t[a + 6] == ' '
            }) ==> r is Ok && r->Ok_0 is Some && r->Ok_0->Some_0.token_type is Return && final(self).current
                == old(self).current + 6,
            old(self).input@[old(self).current as int] == ';' ==> r is Ok && r->Ok_0 is Some
                && r->Ok_0->Some_0.token_type is Semicolon && final(self).current == old(self).current + 1,
            is_digit(old(self).input@[old(self).current as int]) ==> forall|e: int|
                #![trigger old(self).input@[e]]
                ({
                    let t = old(self).input@;
                    let a = old(self).current as int;
                    &&& a < e < t.len() && t[e] == ';'
                    &&& all_digits(t.subrange(a, e), 0)
                    &&& digits_value(t.subrange(a, e), 10) <= u64::MAX
                }) ==> r is Ok && r->Ok_0 is Some && final(self).current == e && r->Ok_0->Some_0.token_type
                    == TokenType::Number(digits_value(old(self).input@.subrange(old(self).current as int, e), 10) as u64),
            ({
                let rest = old(self).input@.subrange(old(self).current as int, old(self).input@.len() as int);
                all_digits(old(self).input@, old(self).current as int) && digits_value(rest, 10) <= u64::MAX
            }) ==> r is Ok && r->Ok_0 is Some && final(self).current == final(self).input@.len()
                && r->Ok_0->Some_0.token_type == TokenType::Number(
                digits_value(old(self).input@.subrange(old(self).current as int, old(self).input@.len() as int), 10) as u64,
            ),
            final(self).wf(),
            final(self).input@ == old(self).input@,
            final(self).current > old(self).current,
            r is Ok && r->Ok_0 is Some ==> ({
                let t = r->Ok_0->Some_0;
                &&& !(t.token_type is Eof)
                &&& t.line == line
                &&& token_matches(
                    t.token_type,
                    final(self).input@.subrange(old(self).current as int, final(self).current as int),
                )
                &&& final(self).current < final(self).input@.len() ==> !continues(
                    t.token_type,
                    final(self).input@.subrange(old(self).current as int, final(self).current as int),
                    final(self).input@[final(self).current as int],
                )
            }),
            r is Err ==> r->Err_0.line >= 1,
            r is Err ==> lex_error_at(old(self).input@, old(self).current as int),
            r is Ok && r->Ok_0 is None ==> ({
                let t = final(self).input@;
                let a = old(self).current as int;
                &&& a + 1 < t.len() && t[a] == '/' && t[a + 1] == '/'
                &&& forall|k: int| a <= k < final(self).current ==> #[trigger] t[k] != '\n'
            }),
    {
        let start = self.current;
        let c = self.advance();
        let ghost cur0 = self.current;
        match single_char_kind(c) {
            Some(kind) => {
                let lx = if c == '+' { "+" } else if c == '-' { "-" } else if c == '*' { "*" }
                    else if c == '%' { "%" } else if c == '(' { "(" } else if c == ')' { ")" }
                    else if c == '{' { "{" } else if c == '}' { "}" } else if c == '[' { "[" }
                    else if c == ']' { "]" } else if c == ';' { ";" } else if c == ',' { "," }
                    else { "." };
                assert(self.input@.subrange(start as int, self.current as int) =~= seq![c]);
                return Ok(Some(Token::new(kind, String::from_str(lx), line, column)));
            },
            None => {},
        }
        if c == '/' {
            if self.match_char('/') {
                while self.peek() != '\n' && !self.is_at_end()
                    invariant
                        self.wf(),
                        self.input@ == old(self).input@,
                        self.current >= cur0,
                        cur0 > old(self).current,
                        cur0 == start + 1,
                        self.input@[start as int] == '/' && self.input@[start + 1] == '/',
                        start + 1 < self.input@.len(),
                        forall|k: int| start <= k < self.current ==> #[trigger] self.input@[k] != '\n',
                    decreases self.input@.len() - self.current,
                {
                    self.advance();
                }
                Ok(None)
            } else {
                assert(self.input@.subrange(start as int, self.current as int) =~= seq![c]);
                Ok(Some(Token::new(TokenType::Slash, String::from_str("/"), line, column)))
            }
        } else if c == '=' || c == '!' || c == '>' || c == '<' {
            let two = self.match_char('=');
            let kind = if c == '=' {
                if two { TokenType::EqualEqual } else { TokenType::Equal }
            } else if c == '!' {
                if two { TokenType::BangEqual } else { TokenType::Bang }
            } else if c == '>' {
                if two { TokenType::GreaterEqual } else { TokenType::Greater }
            } else {
                if two { TokenType::LessEqual } else { TokenType::Less }
            };
            let lx = if c == '=' {
                if two { "==" } else { "=" }
            } else if c == '!' {
                if two { "!=" } else { "!" }
            } else if c == '>' {
                if two { ">=" } else { ">" }
            } else {
                if two { "<=" } else { "<" }
            };
            if two {
                assert(self.input@.subrange(start as int, self.current as int) =~= seq![c, '=']);
            } else {
                assert(self.input@.subrange(start as int, self.current as int) =~= seq![c]);
            }
            Ok(Some(Token::new(kind, String::from_str(lx), line, column)))
        } else if c == '&' || c == '|' {
            if self.match_char(c) {
                let kind = if c == '&' { TokenType::AmpersandAmpersand } else { TokenType::PipePipe };
                let lx = if c == '&' { "&&" } else { "||" };
                assert(self.input@.subrange(start as int, self.current as int) =~= seq![c, c]);
                Ok(Some(Token::new(kind, String::from_str(lx), line, column)))
            } else {
                let msg = if c == '&' { "Unexpected character '&'" } else { "Unexpected character '|'" };
                proof {
                    reveal(lex_error_at);
                }
                Err(LexError { message: String::from_str(msg), line, column })
            }
        } else if is_ascii_digit(c) {
            match self.number(c, line, column) {
                Ok(token) => {
                    let ghost w = self.input@.subrange(start as int, self.current as int);
                    assert(w =~= seq![c] + self.input@.subrange(start + 1, self.current as int));
                    proof {
                        if c == '0' && start + 1 < self.input@.len() && (self.input@[start + 1] == 'x'
                            || self.input@[start + 1] == 'X') {
                            let d = self.input@.subrange(start + 2, self.current as int);
                            assert(w.subrange(2, w.len() as int) =~= d);
                            assert forall|i: int| 2 <= i < w.len() implies is_hex_digit(#[trigger] w[i]) by {
                                assert(w[i] == d[i - 2]);
                            }
                        }
                    }
                    proof {
                        if all_digits(self.input@, start as int) {
                            if self.current < self.input@.len() {
                                assert(is_digit(self.input@[self.current as int]));
                            }
                            assert(w =~= self.input@.subrange(start as int, self.input@.len() as int));
                        }
                    }
                    proof {
                        assert forall|e: int|
                            #![trigger self.input@[e]]
                            start < e < self.input@.len() && self.input@[e] == ';' && all_digits(
                                self.input@.subrange(start as int, e),
                                0,
                            ) && digits_value(self.input@.subrange(start as int, e), 10) <= u64::MAX implies (self.current == e && token.token_type == TokenType::Number(digits_value(self.input@.subrange(start as int, e), 10) as u64)) by {
                            let run = self.input@.subrange(start as int, e);
                            assert(is_digit(run[0]));
                            if e > start + 1 {
                                assert(is_digit(run[1]));
                                assert(run[1] == self.input@[start + 1]);
                            }
                            if self.current < e {
                                assert(run[self.current - start] == self.input@[self.current as int]);
                                assert(is_digit(self.input@[self.current as int]));
                            }
                            if self.current > e {
                                let d = seq![c] + self.input@.subrange(start + 1, self.current as int);
                                assert(d[e - start] == self.input@[e]);
                                assert(is_digit(d[e - start]));
                            }
                            assert(seq![c] + self.input@.subrange(start + 1, self.current as int) =~= run);
                        }
                    }
                    Ok(Some(token))
                },
                Err(e) => {
                    proof {
                        if all_digits(self.input@, start as int) {
                            if self.current < self.input@.len() {
                                assert(is_digit(self.input@[self.current as int]));
                            }
                            assert(seq![c] + self.input@.subrange(start + 1, self.current as int)
                                =~= self.input@.subrange(start as int, self.input@.len() as int));
                        }
                    }
                    proof {
                        reveal(lex_error_at);
                        let t = self.input@;
                        let ee = self.current as int;
                        if c == '0' && start + 1 < t.len() && (t[start + 1] == 'x' || t[start + 1] == 'X') {
                            if ee > start + 2 {
                                let d = t.subrange(start + 2, ee);
                                assert forall|k: int| start + 2 <= k < ee implies is_hex_digit(#[trigger] t[k]) by {
                                    assert(t[k] == d[k - start - 2]);
                                }
                            }
                        } else {
                            assert(seq![c] + t.subrange(start + 1, ee) =~= t.subrange(start as int, ee));
                            assert(all_digits(t.subrange(start as int, ee), 0));
                        }
                    }
                    proof {
                        assert forall|ee: int|
                            #![trigger self.input@[ee]]
                            start < ee < self.input@.len() && self.input@[ee] == ';' && all_digits(
                                self.input@.subrange(start as int, ee),
                                0,
                            ) && digits_value(self.input@.subrange(start as int, ee), 10) <= u64::MAX implies false by {
                            let run = self.input@.subrange(start as int, ee);
                            assert(is_digit(run[0]));
                            if ee > start + 1 {
                                assert(is_digit(run[1]));
                                assert(run[1] == self.input@[start + 1]);
                            }
                            if self.current < ee {
                                assert(run[self.current - start] == self.input@[self.current as int]);
                                assert(is_digit(self.input@[self.current as int]));
                            }
                            if self.current > ee {
                                let d = seq![c] + self.input@.subrange(start + 1, self.current as int);
                                assert(d[ee - start] == self.input@[ee]);
                                assert(is_digit(d[ee - start]));
                            }
                            assert(seq![c] + self.input@.subrange(start + 1, self.current as int) =~= run);
                        }
                    }
                    Err(e)
                },
            }
        } else if is_ascii_alphabetic(c) || c == '_' {
            let token = self.identifier(c, line, column);
            let ghost w = self.input@.subrange(start as int, self.current as int);
            assert(w =~= seq![c] + self.input@.subrange(start + 1, self.current as int));
            Ok(Some(token))
        } else if c == '"' {
            match self.string_literal(line, column) {
                Ok(token) => {
                    let ghost w = self.input@.subrange(start as int, self.current as int);
                    assert(w.subrange(1, w.len() - 1) =~= self.input@.subrange(start + 1, self.current - 1));
                    Ok(Some(token))
                },
                Err(e) => {
                    proof {
                        reveal(lex_error_at);
                    }
                    Err(e)
                },
            }
        } else {
            let mut one: Vec<char> = Vec::new();
            one.push(c);
            proof {
                reveal(lex_error_at);
            }
            Err(LexError { message: quoted_message("Unexpected character '", &one), line, column })
        }
    }

    /// Scans the whole input. The tokens end with `Eof`, and no other token is `Eof`; each
    /// other token was scanned, in order, from its own span of the input and agrees with it.
    pub fn tokenize(&mut self) -> (r: Result<Vec<Token>, LexError>)
        requires
            old(self).wf(),
        ensures
            final(self).wf(),
            final(self).text() == old(self).text(),
            r is Ok ==> {
                let t = r->Ok_0@;
                &&& t.len() >= 1
                &&& t.last().token_type is Eof
                &&& forall|i: int| 0 <= i < t.len() - 1 ==> !(#[trigger] t[i].token_type is Eof)
                &&& forall|i: int| 0 <= i < t.len() ==> #[trigger] t[i].line >= 1
                &&& final(self).position() == final(self).text().len()
                &&& exists|spans: Seq<(int, int)>| lexed_from(t, spans, old(self).text(), old(self).position() as int)
            },
            r is Err ==> r->Err_0.line >= 1,
            all_plain(old(self).text(), 0) ==> r is Ok,
            r is Err ==> exists|i: int|
                old(self).position() <= i < old(self).text().len() && #[trigger] lex_error_at(old(self).text(), i),
            old(self).position() == 0 && small_decimal(old(self).text()) ==> r is Ok && r->Ok_0@.len() == 2
                && r->Ok_0@[0].token_type == TokenType::Number(digits_value(old(self).text(), 10) as u64),
            forall|d: Seq<char>|
                #![trigger return_decimal(old(self).text(), d)]
                old(self).position() == 0 && return_decimal(old(self).text(), d) ==> r is Ok && r->Ok_0@.len() == 4
                    && r->Ok_0@[0].token_type is Return && r->Ok_0@[1].token_type == TokenType::Number(
                    digits_value(d, 10) as u64,
                ) && r->Ok_0@[2].token_type is Semicolon,
    {
        proof {
            assert(old(self).position() as int == old(self).current as int);
            assert(old(self).text() == old(self).input@);
        assert forall|d: Seq<char>|
            #![trigger return_decimal(old(self).text(), d)]
            old(self).position() == 0 && return_decimal(old(self).text(), d) implies (old(self).current == 0 && return_decimal(old(self).input@, old(self).input@.subrange(7, old(self).input@.len() - 1))) && d == old(self).input@.subrange(7, old(self).input@.len() - 1) by {
            let t = old(self).input@;
            assert(t.subrange(7, t.len() - 1) =~= d);
        }
        }
        let mut tokens: Vec<Token> = Vec::new();
        let ghost mut spans: Seq<(int, int)> = Seq::empty();
        while !self.is_at_end()
            invariant
                self.wf(),
                self.input@ == old(self).input@,
                forall|i: int| 0 <= i < tokens@.len() ==> !(#[trigger] tokens@[i].token_type is Eof),
                forall|i: int| 0 <= i < tokens@.len() ==> #[trigger] tokens@[i].line >= 1,
                spans.len() == tokens@.len(),
                forall|i: int|
                    #![trigger spans[i]]
                    0 <= i < spans.len() ==> 0 <= spans[i].0 < spans[i].1 <= self.current
                        && token_matches(
                        tokens@[i].token_type,
                        self.input@.subrange(spans[i].0, spans[i].1),
                    ),
                forall|i: int| 0 <= i < spans.len() - 1 ==> #[trigger] spans[i].1 <= spans[i + 1].0,
                forall|i: int| old(self).current <= i < self.current && !covered(spans, i) ==> blank_at(self.input@, i),
                forall|i: int| 0 <= i < spans.len() ==> (#[trigger] spans[i]).0 >= old(self).current,
(old(self).current == 0 && return_decimal(old(self).input@, old(self).input@.subrange(7, old(self).input@.len() - 1))) ==> {
                    let t = old(self).input@;
                    let v = digits_value(t.subrange(7, t.len() - 1), 10) as u64;
                    ||| (self.current == 0 && tokens@.len() == 0)
                    ||| (self.current == 6 && tokens@.len() == 1 && tokens@[0].token_type is Return)
                    ||| (self.current == t.len() - 1 && tokens@.len() == 2 && tokens@[0].token_type is Return
                        && tokens@[1].token_type == TokenType::Number(v))
                    ||| (self.current == t.len() && tokens@.len() == 3 && tokens@[0].token_type is Return
                        && tokens@[1].token_type == TokenType::Number(v) && tokens@[2].token_type is Semicolon)
                },
                forall|d: Seq<char>|
                    #![trigger return_decimal(old(self).text(), d)]
                    old(self).position() == 0 && return_decimal(old(self).text(), d) ==> (old(self).current == 0 && return_decimal(old(self).input@, old(self).input@.subrange(7, old(self).input@.len() - 1))) && d == old(self).input@.subrange(7, old(self).input@.len() - 1),
                old(self).current == 0 && small_decimal(old(self).input@) ==> (self.current == 0 && tokens@.len()
                    == 0) || (self.current == self.input@.len() && tokens@.len() == 1 && tokens@[0].token_type
                    == TokenType::Number(digits_value(old(self).input@, 10) as u64)),
                forall|i: int|
                    0 <= i < spans.len() && #[trigger] spans[i].1 < self.input@.len() ==> !continues(
                        tokens@[i].token_type,
                        self.input@.subrange(spans[i].0, spans[i].1),
                        self.input@[spans[i].1],
                    ),
                self.current >= old(self).current,
            ensures
                self.current >= self.input@.len(),
            decreases self.input@.len() - self.current,
        {
            let ghost ws_from = self.current;
            self.skip_whitespace();
            proof {
                assert forall|i: int| old(self).current <= i < self.current && !covered(spans, i) implies blank_at(self.input@, i) by {
                    if i >= ws_from {
                        assert(is_space(self.input@[i]));
                    }
                }
            }
            proof {
                if (old(self).current == 0 && return_decimal(old(self).input@, old(self).input@.subrange(7, old(self).input@.len() - 1))) {
                    let t = self.input@;
                    let l = t.len() as int;
                    assert(t[0] == 'r' && t[6] == ' ' && t[l - 1] == ';');
                    assert(is_digit(t.subrange(7, l - 1)[0]));
                    assert(t[7] == t.subrange(7, l - 1)[0]);
                    if ws_from == 6 && self.current > 7 {
                        assert(is_space(t[7]));
                    }
                    if ws_from == 0 && self.current > 0 {
                        assert(is_space(t[0]));
                    }
                    if ws_from == l - 1 && self.current > l - 1 {
                        assert(is_space(t[l - 1]));
                    }
                }
                if old(self).current == 0 && small_decimal(old(self).input@) && ws_from == 0 && self.current > 0 {
                    assert(is_space(self.input@[0]));
                    assert(is_digit(self.input@[0]));
                }
            }
            if self.is_at_end() {
                break;
            }
            let start_line = self.line;
            let start_column = self.column;
            let ghost before = tokens@;
            let ghost spans0 = spans;
            let start = self.current;
            proof {
                if (old(self).current == 0 && return_decimal(old(self).input@, old(self).input@.subrange(7, old(self).input@.len() - 1))) {
                    let t = self.input@;
                    let l = t.len() as int;
                    if start == 0 {
                        assert(t.subrange(0, 6) =~= seq!['r', 'e', 't', 'u', 'r', 'n']);
                        assert(t[6] == ' ');
                    }
                    if start == 7 {
                        assert(t[l - 1] == ';');
                        assert(t.subrange(7, l - 1) == t.subrange(start as int, l - 1));
                    }
                    if start == l - 1 {
                        assert(t[l - 1] == ';');
                    }
                }
                if old(self).current == 0 && small_decimal(old(self).input@) && start == 0 {
                    assert(self.input@.subrange(0, self.input@.len() as int) =~= self.input@);
                    assert(all_digits(self.input@, 0));
                }
                assert(old(self).text() == self.input@);
                if all_plain(self.input@, 0) {
                    assert(all_plain(self.input@, start as int));
                }
            }
            match self.scan_token(start_line, start_column) {
                Ok(Some(token)) => {
                    tokens.push(token);
                    proof {
                        spans = spans0.push((start as int, self.current as int));
                        assert forall|i: int| 0 <= i < tokens@.len() implies !(#[trigger] tokens@[i].token_type is Eof)
                            && tokens@[i].line >= 1 by {
                            if i < before.len() {
                                assert(tokens@[i] == before[i]);
                            }
                        }
                        assert forall|i: int|
                            #![trigger spans[i]]
                            0 <= i < spans.len() implies 0 <= spans[i].0 < spans[i].1 <= self.current
                                && token_matches(tokens@[i].token_type, self.input@.subrange(spans[i].0, spans[i].1)) by {
                            if i < before.len() {
                                assert(tokens@[i] == before[i]);
                                assert(spans[i] == spans0[i]);
                            }
                        }
                        assert forall|i: int| 0 <= i < spans.len() - 1 implies #[trigger] spans[i].1 <= spans[i + 1].0 by {
                            if i + 1 < spans0.len() {
                                assert(spans[i] == spans0[i] && spans[i + 1] == spans0[i + 1]);
                            } else {
                                assert(spans[i] == spans0[i]);
                            }
                        }
                        assert forall|i: int| old(self).current <= i < self.current && !covered(spans, i) implies blank_at(
                            self.input@,
                            i,
                        ) by {
                            if i < start && covered(spans0, i) {
                                let k = choose|k: int| 0 <= k < spans0.len() && (#[trigger] spans0[k]).0 <= i < spans0[k].1;
                                assert(spans[k] == spans0[k]);
                            }
                            if i >= start {
                                assert(spans[spans0.len() as int] == (start as int, self.current as int));
                            }
                        }
                        assert forall|i: int|
                            0 <= i < spans.len() && #[trigger] spans[i].1 < self.input@.len() implies !continues(
                                tokens@[i].token_type,
                                self.input@.subrange(spans[i].0, spans[i].1),
                                self.input@[spans[i].1],
                            ) by {
                            if i < before.len() {
                                assert(tokens@[i] == before[i]);
                                assert(spans[i] == spans0[i]);
                            }
                        }
                    }
                },
                Ok(None) => {
                    proof {
                        assert forall|i: int| old(self).current <= i < self.current && !covered(spans, i) implies blank_at(
                            self.input@,
                            i,
                        ) by {
                            if i >= start {
                                assert(self.input@[start as int] == '/');
                                assert forall|k: int| start <= k <= i implies self.input@[k] != '\n' by {}
                            }
                        }
                    }
                },
                Err(e) => {
                    proof {
                        if (old(self).current == 0 && return_decimal(old(self).input@, old(self).input@.subrange(7, old(self).input@.len() - 1))) {
                            let l = self.input@.len() as int;
                            assert(start == 0 || start == 7 || start == l - 1);
                            assert(start != 0);
                            assert(start != l - 1);
                            assert(start != 7);
                        }
                        assert(!(old(self).current == 0 && return_decimal(old(self).input@, old(self).input@.subrange(7, old(self).input@.len() - 1))));
                    }
                    proof {
                        assert(lex_error_at(self.input@, start as int));
                        assert(old(self).text() == self.input@);
                    }
                    return Err(e);
                },
            }
        }
        let eof = Token::new(TokenType::Eof, String::from_str(""), self.line, self.column);
        let ghost before = tokens@;
        tokens.push(eof);
        proof {
            assert forall|i: int|
                #![trigger spans[i]]
                0 <= i < spans.len() implies old(self).current <= spans[i].0 < spans[i].1 <= old(self).input@.len()
                    && token_matches(tokens@[i].token_type, old(self).input@.subrange(spans[i].0, spans[i].1)) by {
                assert(tokens@[i] == before[i]);
            }
            assert forall|i: int|
                0 <= i < spans.len() && #[trigger] spans[i].1 < old(self).input@.len() implies !continues(
                    tokens@[i].token_type,
                    old(self).input@.subrange(spans[i].0, spans[i].1),
                    old(self).input@[spans[i].1],
                ) by {
                assert(tokens@[i] == before[i]);
            }
            assert(lexed_from(tokens@, spans, old(self).input@, old(self).current as int));
            if (old(self).current == 0 && return_decimal(old(self).input@, old(self).input@.subrange(7, old(self).input@.len() - 1))) {
                assert(tokens@[0] == before[0] && tokens@[1] == before[1] && tokens@[2] == before[2]);
            }
            assert(old(self).position() as int == old(self).current as int);
            assert(old(self).text() == old(self).input@);

        }
        Ok(tokens)
    }
}

/// A token may not start at position `i` of `t`: a lone `&` or `|`, a `"` with no closing
/// quote, `0x` with no hex digit, a digit run whose value needs more than 64 bits, or a
/// character that starts no token.
#[verifier::opaque]
pub open spec fn lex_error_at(t: Seq<char>, i: int) -> bool {
    let c = t[i];
    ||| (c == '&' || c == '|') && !(i + 1 < t.len() && t[i + 1] == c)
    ||| c == '"' && (forall|k: int| i < k < t.len() ==> #[trigger] t[k] != '"')
    ||| c == '0' && i + 1 < t.len() && (t[i + 1] == 'x' || t[i + 1] == 'X') && !(i + 2 < t.len()
        && is_hex_digit(t[i + 2]))
    ||| exists|e: int|
        i < e <= t.len() && all_digits(#[trigger] t.subrange(i, e), 0) && (e == t.len() || !is_digit(t[e]))
            && digits_value(t.subrange(i, e), 10) > u64::MAX
    ||| exists|e: int|
        i + 2 < e <= t.len() && c == '0' && (t[i + 1] == 'x' || t[i + 1] == 'X') && (forall|k: int|
            i + 2 <= k < e ==> is_hex_digit(#[trigger] t[k])) && (e == t.len() || !is_hex_digit(t[e]))
            && digits_value(#[trigger] t.subrange(i + 2, e), 16) > u64::MAX
    ||| !(plain_char(c) || is_digit(c) || c == '"' || c == '&' || c == '|')
}

/// A character that never makes scanning fail: whitespace, a letter, `_`, or an operator or
/// punctuation character other than `&`, `|` and `"`.
pub open spec fn plain_char(c: char) -> bool {
    is_space(c) || is_alpha(c) || c == '_' || c == '+' || c == '-' || c == '*' || c == '/' || c == '%'
        || c == '(' || c == ')' || c == '{' || c == '}' || c == '[' || c == ']' || c == ';' || c == ','
        || c == '.' || c == '=' || c == '!' || c == '<' || c == '>'
}

/// Every character of `t` from `from` on is a decimal digit.
pub open spec fn all_digits(t: Seq<char>, from: int) -> bool {
    forall|i: int| from <= i < t.len() ==> is_digit(#[trigger] t[i])
}

/// `t` is a decimal literal that fits in 64 bits.
pub open spec fn small_decimal(t: Seq<char>) -> bool {
    t.len() >= 1 && all_digits(t, 0) && digits_value(t, 10) <= u64::MAX
}

/// `t` is `return D;` with one space after `return`, for a decimal literal `D` that fits in
/// 64 bits.
pub open spec fn return_decimal(t: Seq<char>, d: Seq<char>) -> bool {
    small_decimal(d) && t == seq!['r', 'e', 't', 'u', 'r', 'n', ' '] + d + seq![';']
}

/// Every character of `t` from `from` on is plain.
pub open spec fn all_plain(t: Seq<char>, from: int) -> bool {
    forall|i: int| from <= i < t.len() ==> plain_char(#[trigger] t[i])
}

pub open spec fn is_space(c: char) -> bool {
    c == ' ' || c == '\r' || c == '\t' || c == '\n'
}

/// Whether the string holds exactly the characters `w`.
pub(crate) fn strings_equal(a: &String, b: &String) -> (r: bool)
    ensures
        r == (a@ == b@),
{
    let va = str_chars(a.as_str());
    let vb = str_chars(b.as_str());
    chars_eq(&va, vb.as_slice())
}

/// `prefix` followed by the characters of `name`.
pub(crate) fn message_with_name(prefix: &str, name: &String) -> (r: String)
    ensures
        r@ == prefix@ + name@,
{
    let mut v = str_chars(prefix);
    let n = str_chars(name.as_str());
    let ghost p = v@;
    let mut i: usize = 0;
    while i < n.len()
        invariant
            i <= n@.len(),
            n@ == name@,
            v@ == p + n@.subrange(0, i as int),
        decreases n@.len() - i,
    {
        v.push(n[i]);
        i = i + 1;
        assert(v@ =~= p + n@.subrange(0, i as int));
    }
    assert(v@ =~= p + name@);
    string_from_chars(&v)
}

/// Whether the string holds exactly the characters of `w`.
pub(crate) fn string_is_str(s: &String, w: &str) -> (r: bool)
    ensures
        r == (s@ == w@),
{
    let v = str_chars(s.as_str());
    let x = str_chars(w);
    chars_eq(&v, x.as_slice())
}

pub(crate) fn string_is(s: &String, w: &[char]) -> (r: bool)
    ensures
        r == (s@ == w@),
{
    let v = str_chars(s.as_str());
    chars_eq(&v, w)
}

} // verus!
