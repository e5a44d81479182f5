//! Tokens: the lexical units of the protocol.

use crate::buffer::contents;
use crate::text::{ascii_bytes, byte_lower, decimal_text, lossy_text, to_lower, utf8_lossy, write_decimal};
use bytes::Bytes;
use vstd::prelude::*;
use vstd::string::StringExecFns;

verus! {

/// The kind of a token. `==` compares kinds in full, the number of a `Len`
/// included; `same_shape` ignores that number.
#[derive(Clone, Copy, Debug, PartialEq, Eq, Structural)]
pub enum TokenType {
    Okay,
    Eof,
    With,
    Name,
    Group,
    Illegal,
    Message,
    Publisher,
    Subscribe,
    Semicolon,
    Error,
    Len(usize),
    Binary,
}

/// Whether two kinds are the same variant, whatever number a `Len` carries.
pub open spec fn same_shape(a: TokenType, b: TokenType) -> bool {
    match (a, b) {
        (TokenType::Len(_), TokenType::Len(_)) => true,
        _ => a == b,
    }
}

/// The kind of an identifier: the reserved word that the text spells, in any
/// mix of upper and lower case, or `Name` if it spells none.
pub open spec fn keyword_kind(text: Seq<u8>) -> TokenType {
    let word = to_lower(text);
    if word == ascii_bytes("with"@) {
        TokenType::With
    } else if word == ascii_bytes("group"@) {
        TokenType::Group
    } else if word == ascii_bytes("publisher"@) {
        TokenType::Publisher
    } else if word == ascii_bytes("subscribe"@) {
        TokenType::Subscribe
    } else if word == ascii_bytes("message"@) {
        TokenType::Message
    } else if word == ascii_bytes("ok"@) {
        TokenType::Okay
    } else if word == ascii_bytes("error"@) {
        TokenType::Error
    } else {
        TokenType::Name
    }
}

/// The name under which a kind appears in diagnostics.
pub open spec fn kind_text(kind: TokenType) -> Seq<char> {
    match kind {
        TokenType::With => "with"@,
        TokenType::Group => "group"@,
        TokenType::Publisher => "publisher"@,
        TokenType::Subscribe => "subscribe"@,
        TokenType::Message => "message"@,
        TokenType::Okay => "ok"@,
        TokenType::Name => "name"@,
        TokenType::Eof => "eof"@,
        TokenType::Semicolon => ";"@,
        TokenType::Illegal => "illegal"@,
        TokenType::Binary => "binary"@,
        TokenType::Error => "error"@,
        TokenType::Len(n) => "len "@ + decimal_text(n as nat),
    }
}

/// The name of a kind as it is written in source: the variant, with the
/// number of a `Len` in parentheses.
pub open spec fn kind_debug_text(kind: TokenType) -> Seq<char> {
    match kind {
        TokenType::With => "With"@,
        TokenType::Group => "Group"@,
        TokenType::Publisher => "Publisher"@,
        TokenType::Subscribe => "Subscribe"@,
        TokenType::Message => "Message"@,
        TokenType::Okay => "Okay"@,
        TokenType::Name => "Name"@,
        TokenType::Eof => "Eof"@,
        TokenType::Semicolon => "Semicolon"@,
        TokenType::Illegal => "Illegal"@,
        TokenType::Binary => "Binary"@,
        TokenType::Error => "Error"@,
        TokenType::Len(n) => "Len("@ + decimal_text(n as nat) + ")"@,
    }
}

/// Whether `text`, folded to lower case, spells `word`.
fn spells(text: &[u8], word: &str) -> (r: bool)
    requires
        vstd::string::is_ascii(word),
    ensures
        r == (to_lower(text@) == ascii_bytes(word@)),
{
    broadcast use vstd::string::is_ascii_spec_bytes;

    let w = word.as_bytes();
    assert(w@ =~= ascii_bytes(word@));
    if text.len() != w.len() {
        return false;
    }
    let mut i: usize = 0;
    while i < text.len()
        invariant
            0 <= i <= text.len(),
            text.len() == w.len(),
            w@ == ascii_bytes(word@),
            forall|j: int| 0 <= j < i ==> to_lower(text@)[j] == w@[j],
        decreases text.len() - i,
    {
        if byte_lower(text[i]) != w[i] {
            assert(to_lower(text@)[i as int] != ascii_bytes(word@)[i as int]);
            return false;
        }
        i += 1;
    }
    assert(to_lower(text@) =~= ascii_bytes(word@));
    true
}

impl TokenType {
    /// Whether `self` and `other` are the same variant; two `Len` kinds
    /// match whatever numbers they carry.
    pub fn same_shape(&self, other: &TokenType) -> (r: bool)
        ensures
            r == same_shape(*self, *other),
    {
        match (*self, *other) {
            (TokenType::Len(_), TokenType::Len(_)) => true,
            (TokenType::Okay, TokenType::Okay) => true,
            (TokenType::Eof, TokenType::Eof) => true,
            (TokenType::With, TokenType::With) => true,
            (TokenType::Name, TokenType::Name) => true,
            (TokenType::Group, TokenType::Group) => true,
            (TokenType::Illegal, TokenType::Illegal) => true,
            (TokenType::Message, TokenType::Message) => true,
            (TokenType::Publisher, TokenType::Publisher) => true,
            (TokenType::Subscribe, TokenType::Subscribe) => true,
            (TokenType::Semicolon, TokenType::Semicolon) => true,
            (TokenType::Error, TokenType::Error) => true,
            (TokenType::Binary, TokenType::Binary) => true,
            _ => false,
        }
    }

    /// The kind of the identifier `input`.
    pub fn from(input: &[u8]) -> (kind: TokenType)
        ensures
            kind == keyword_kind(input@),
    {
        proof {
            reveal_strlit("with");
            reveal_strlit("group");
            reveal_strlit("publisher");
            reveal_strlit("subscribe");
            reveal_strlit("message");
            reveal_strlit("ok");
            reveal_strlit("error");
        }
        if spells(input, "with") {
            TokenType::With
        } else if spells(input, "group") {
            TokenType::Group
        } else if spells(input, "publisher") {
            TokenType::Publisher
        } else if spells(input, "subscribe") {
            TokenType::Subscribe
        } else if spells(input, "message") {
            TokenType::Message
        } else if spells(input, "ok") {
            TokenType::Okay
        } else if spells(input, "error") {
            TokenType::Error
        } else {
            TokenType::Name
        }
    }

    /// The name of this kind for diagnostics.
    pub fn to_string(&self) -> (r: String)
        ensures
            r@ == kind_text(*self),
    {
        match *self {
            TokenType::With => String::from_str("with"),
            TokenType::Group => String::from_str("group"),
            TokenType::Publisher => String::from_str("publisher"),
            TokenType::Subscribe => String::from_str("subscribe"),
            TokenType::Message => String::from_str("message"),
            TokenType::Okay => String::from_str("ok"),
            TokenType::Name => String::from_str("name"),
            TokenType::Eof => String::from_str("eof"),
            TokenType::Semicolon => String::from_str(";"),
            TokenType::Illegal => String::from_str("illegal"),
            TokenType::Binary => String::from_str("binary"),
            TokenType::Error => String::from_str("error"),
            TokenType::Len(n) => {
                let digits = write_decimal(n);
                String::from_str("len ").concat(digits.as_str())
            },
        }
    }

    /// The name of this kind as it is written in source.
    pub fn debug_string(&self) -> (r: String)
        ensures
            r@ == kind_debug_text(*self),
    {
        match *self {
            TokenType::With => String::from_str("With"),
            TokenType::Group => String::from_str("Group"),
            TokenType::Publisher => String::from_str("Publisher"),
            TokenType::Subscribe => String::from_str("Subscribe"),
            TokenType::Message => String::from_str("Message"),
            TokenType::Okay => String::from_str("Okay"),
            TokenType::Name => String::from_str("Name"),
            TokenType::Eof => String::from_str("Eof"),
            TokenType::Semicolon => String::from_str("Semicolon"),
            TokenType::Illegal => String::from_str("Illegal"),
            TokenType::Binary => String::from_str("Binary"),
            TokenType::Error => String::from_str("Error"),
            TokenType::Len(n) => {
                let digits = write_decimal(n);
                String::from_str("Len(").concat(digits.as_str()).concat(")")
            },
        }
    }
}

/// A token: its kind and, for some kinds, the raw bytes it was read from.
#[derive(Debug, PartialEq, Eq)]
pub struct Token {
    token_type: TokenType,
    value: Option<Bytes>,
}

/// What a token is: its kind and the bytes of its payload, if it has one.
pub struct TokenView {
    pub kind: TokenType,
    pub payload: Option<Seq<u8>>,
}

/// The text of an optional payload: its lossy decoding, or `absent` where
/// there is none.
pub open spec fn payload_text(payload: Option<Seq<u8>>, absent: Seq<char>) -> Seq<char> {
    match payload {
        Some(bytes) => utf8_lossy(bytes),
        None => absent,
    }
}

/// How a token is shown in diagnostics: its kind and its payload as text.
pub open spec fn token_text(token: TokenView) -> Seq<char> {
    "["@ + kind_text(token.kind) + ": '"@ + payload_text(token.payload, "empty value"@) + "']"@
}

/// The text of an optional payload, or `absent` where there is none.
pub fn render_payload(payload: &Option<Bytes>, absent: &str) -> (r: String)
    ensures
        r@ == payload_text(
            match *payload {
                Some(b) => Some(contents(&b)),
                None => None,
            },
            absent@,
        ),
{
    match payload {
        Some(bytes) => lossy_text(bytes),
        None => String::from_str(absent),
    }
}

impl View for Token {
    type V = TokenView;

    closed spec fn view(&self) -> TokenView {
        TokenView {
            kind: self.token_type,
            payload: match self.value {
                Some(b) => Some(contents(&b)),
                None => None,
            },
        }
    }
}

impl Token {
    pub fn new(token_type: TokenType, value: Option<Bytes>) -> (token: Token)
        ensures
            token@.kind == token_type,
            token@.payload == match value {
                Some(b) => Some(contents(&b)),
                None => None,
            },
    {
        Token { token_type, value }
    }

    pub fn token_type(&self) -> (kind: TokenType)
        ensures
            kind == self@.kind,
    {
        self.token_type
    }

    /// A handle on the payload, if there is one.
    pub fn value(&self) -> (value: Option<Bytes>)
        ensures
            match value {
                Some(b) => self@.payload == Some(contents(&b)),
                None => self@.payload is None,
            },
    {
        self.value.clone()
    }

    /// The token as it is shown in diagnostics.
    pub fn to_string(&self) -> (r: String)
        ensures
            r@ == token_text(self@),
    {
        let kind = self.token_type.to_string();
        let payload = render_payload(&self.value, "empty value");
        String::from_str("[").concat(kind.as_str()).concat(": '").concat(payload.as_str()).concat(
            "']",
        )
    }
}

} // verus!
