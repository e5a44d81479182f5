//! The tokenizer: a cursor over a byte buffer that hands out one token per
//! call.

pub mod laws;
pub mod token;

use crate::buffer::contents;
use crate::text::{
    byte_is_digit, byte_is_ident_part, byte_is_ident_start, byte_is_space, is_digit,
    is_ident_part, is_ident_start, is_space, parse_decimal, read_decimal,
};
use bytes::Bytes;
pub use token::{keyword_kind, Token, TokenType, TokenView};
use vstd::prelude::*;
use vstd::slice::slice_subrange;

verus! {

/// The classes of bytes that the tokenizer reads in runs.
#[derive(Clone, Copy, Debug, PartialEq, Eq, Structural)]
pub enum ByteClass {
    /// ASCII whitespace.
    Space,
    /// Decimal digits.
    Digit,
    /// Bytes that may continue an identifier.
    IdentPart,
    /// Anything but whitespace.
    Visible,
}

/// Whether `c` belongs to `class`.
pub open spec fn in_class(class: ByteClass, c: u8) -> bool {
    match class {
        ByteClass::Space => is_space(c),
        ByteClass::Digit => is_digit(c),
        ByteClass::IdentPart => is_ident_part(c),
        ByteClass::Visible => !is_space(c),
    }
}

/// The byte under position `i`. Beyond the end of the input, and before its
/// start, stands a NUL, which also marks the end wherever it occurs inside.
pub open spec fn byte_at(s: Seq<u8>, i: int) -> u8 {
    if 0 <= i < s.len() {
        s[i]
    } else {
        0
    }
}

/// Where the longest run of bytes of `class` that starts at `i` ends. A run
/// stops at a NUL and at the end of the input.
pub open spec fn run_end(s: Seq<u8>, i: int, class: ByteClass) -> int
    decreases s.len() - i,
{
    if 0 <= i < s.len() && s[i] != 0 && in_class(class, s[i]) {
        run_end(s, i + 1, class)
    } else {
        i
    }
}

/// One step of the tokenizer: the token read and where the cursor stands
/// after it.
pub struct Scan {
    pub token: TokenView,
    pub next: int,
}

/// A token without a payload.
pub open spec fn bare(kind: TokenType) -> TokenView {
    TokenView { kind, payload: None }
}

/// A token that carries the bytes it was read from.
pub open spec fn carrying(kind: TokenType, payload: Seq<u8>) -> TokenView {
    TokenView { kind, payload: Some(payload) }
}

/// The token that a length literal's digits give: the length they denote,
/// or an illegal token that carries them if they denote none.
pub open spec fn length_token(digits: Seq<u8>) -> TokenView {
    match parse_decimal(digits) {
        Some(n) => bare(TokenType::Len(n)),
        None => carrying(TokenType::Illegal, digits),
    }
}

/// The token that starts at or after position `i` of `s`, whitespace
/// skipped, and the position behind it.
pub open spec fn scan(s: Seq<u8>, i: int) -> Scan {
    let start = run_end(s, i, ByteClass::Space);
    let c = byte_at(s, start);
    if c == '+' as u8 && byte_at(s, start + 1) == 'l' as u8 {
        let end = run_end(s, start + 2, ByteClass::Digit);
        Scan { token: length_token(s.subrange(start + 2, end)), next: end }
    } else if is_ident_start(c) {
        let end = run_end(s, start, ByteClass::IdentPart);
        let word = s.subrange(start, end);
        Scan { token: carrying(keyword_kind(word), word), next: end }
    } else if c == ';' as u8 {
        Scan { token: bare(TokenType::Semicolon), next: start + 1 }
    } else if c == '#' as u8 {
        Scan {
            token: carrying(TokenType::Binary, s.subrange(start + 1, s.len() as int)),
            next: s.len() as int,
        }
    } else if c == 0 {
        Scan { token: bare(TokenType::Eof), next: start }
    } else {
        let end = run_end(s, start, ByteClass::Visible);
        Scan { token: carrying(TokenType::Illegal, s.subrange(start, end)), next: end }
    }
}

/// A run ends at or after its start and inside the input, every byte of it
/// belongs to the class and is no NUL, and the byte behind it, if there is
/// one, ends it.
pub proof fn lemma_run_end(s: Seq<u8>, i: int, class: ByteClass)
    requires
        0 <= i <= s.len(),
    ensures
        i <= run_end(s, i, class) <= s.len(),
        forall|j: int|
            i <= j < run_end(s, i, class) ==> s[j] != 0 && in_class(class, #[trigger] s[j]),
        run_end(s, i, class) < s.len() ==> {
            let c = s[run_end(s, i, class)];
            c == 0 || !in_class(class, c)
        },
    decreases s.len() - i,
{
    if i < s.len() && s[i] != 0 && in_class(class, s[i]) {
        lemma_run_end(s, i + 1, class);
    }
}

/// The tokenizer's state: the input and the cursor.
pub struct LexerView {
    pub input: Seq<u8>,
    pub pos: int,
}

/// A tokenizer over one buffer.
pub struct Lexer {
    input: Bytes,
    idx: usize,
}

impl View for Lexer {
    type V = LexerView;

    closed spec fn view(&self) -> LexerView {
        LexerView { input: contents(&self.input), pos: self.idx as int }
    }
}

fn byte_in_class(class: ByteClass, c: u8) -> (r: bool)
    ensures
        r == in_class(class, c),
{
    match class {
        ByteClass::Space => byte_is_space(c),
        ByteClass::Digit => byte_is_digit(c),
        ByteClass::IdentPart => byte_is_ident_part(c),
        ByteClass::Visible => !byte_is_space(c),
    }
}

impl Lexer {
    /// A tokenizer at the start of `input`.
    pub fn new(input: Bytes) -> (lexer: Lexer)
        ensures
            lexer@.input == contents(&input),
            lexer@.pos == 0,
    {
        Lexer { input, idx: 0 }
    }

    /// Reads the next token and moves the cursor behind it. At the end of
    /// the input every call returns `Eof`.
    pub fn next_token(&mut self) -> (token: Token)
        ensures
            final(self)@.input == old(self)@.input,
            token@ == scan(old(self)@.input, old(self)@.pos).token,
            final(self)@.pos == scan(old(self)@.input, old(self)@.pos).next,
    {
        self.skip_until(ByteClass::Space);
        let start: usize = self.idx;
        let c: u8 = self.current_char();
        if c == '+' as u8 && self.next_char() == 'l' as u8 {
            self.consume();
            self.consume();
            let from: usize = self.idx;
            self.skip_until(ByteClass::Digit);
            let digits = self.slice(from, self.idx);
            match read_decimal(digits) {
                Some(n) => Token::new(TokenType::Len(n), None),
                None => Token::new(TokenType::Illegal, Some(Bytes::copy_from_slice(digits))),
            }
        } else if byte_is_ident_start(c) {
            self.skip_until(ByteClass::IdentPart);
            let word = self.slice(start, self.idx);
            Token::new(TokenType::from(word), Some(Bytes::copy_from_slice(word)))
        } else if c == ';' as u8 {
            self.consume();
            Token::new(TokenType::Semicolon, None)
        } else if c == '#' as u8 {
            self.consume();
            let end: usize = self.len();
            let rest = self.slice(self.idx, end);
            let token = Token::new(TokenType::Binary, Some(Bytes::copy_from_slice(rest)));
            self.idx = end;
            token
        } else if c == 0 {
            Token::new(TokenType::Eof, None)
        } else {
            self.skip_until(ByteClass::Visible);
            let raw = self.slice(start, self.idx);
            Token::new(TokenType::Illegal, Some(Bytes::copy_from_slice(raw)))
        }
    }

    /// Moves the cursor to the end of the run of `class` that starts under
    /// it.
    fn skip_until(&mut self, class: ByteClass)
        ensures
            final(self).input == old(self).input,
            final(self).idx == run_end(contents(&old(self).input), old(self).idx as int, class),
            old(self).idx <= contents(&old(self).input).len() ==> old(self).idx <= final(self).idx
                <= contents(&old(self).input).len(),
    {
        proof {
            if self.idx <= contents(&self.input).len() {
                lemma_run_end(contents(&self.input), self.idx as int, class);
            }
        }
        while !self.is_eof() && byte_in_class(class, self.current_char())
            invariant
                self.input == old(self).input,
                run_end(contents(&self.input), self.idx as int, class) == run_end(
                    contents(&old(self).input),
                    old(self).idx as int,
                    class,
                ),
            decreases contents(&self.input).len() - self.idx,
        {
            self.consume();
        }
    }

    fn is_eof(&self) -> (r: bool)
        ensures
            r == (byte_at(contents(&self.input), self.idx as int) == 0),
            contents(&self.input).len() <= usize::MAX,
    {
        self.current_char() == 0
    }

    fn consume(&mut self)
        requires
            old(self).idx < usize::MAX,
        ensures
            final(self).input == old(self).input,
            final(self).idx == old(self).idx + 1,
    {
        self.idx += 1;
    }

    fn next_char(&self) -> (c: u8)
        requires
            self.idx < contents(&self.input).len(),
        ensures
            c == byte_at(contents(&self.input), self.idx + 1),
    {
        let s: &[u8] = &self.input;
        if self.idx + 1 < s.len() {
            s[self.idx + 1]
        } else {
            0
        }
    }

    fn current_char(&self) -> (c: u8)
        ensures
            c == byte_at(contents(&self.input), self.idx as int),
            contents(&self.input).len() <= usize::MAX,
    {
        let s: &[u8] = &self.input;
        if self.idx < s.len() {
            s[self.idx]
        } else {
            0
        }
    }

    fn len(&self) -> (n: usize)
        ensures
            n == contents(&self.input).len(),
    {
        let s: &[u8] = &self.input;
        s.len()
    }

    fn slice(&self, from: usize, to: usize) -> (part: &[u8])
        requires
            from <= to <= contents(&self.input).len(),
        ensures
            part@ == contents(&self.input).subrange(from as int, to as int),
    {
        let s: &[u8] = &self.input;
        slice_subrange(s, from, to)
    }
}

} // verus!
