//! What holds of every input of the tokenizer.

use crate::lexer::token::{keyword_kind, TokenType};
use crate::lexer::{bare, byte_at, carrying, in_class, length_token, run_end, scan, ByteClass, Scan};
use crate::text::{
    all_digits, ascii_bytes, decimal_value, is_digit, is_ident_part, is_ident_start, to_lower,
};
use vstd::prelude::*;

verus! {

/// A stretch of bytes of one class, none of them a NUL, that the end of the
/// input, a NUL or a byte outside the class follows, is the run that starts
/// at its first byte.
pub proof fn lemma_run_end_is(s: Seq<u8>, i: int, j: int, class: ByteClass)
    requires
        0 <= i <= j <= s.len(),
        forall|k: int| i <= k < j ==> s[k] != 0 && in_class(class, #[trigger] s[k]),
        j == s.len() || s[j] == 0 || !in_class(class, s[j]),
    ensures
        run_end(s, i, class) == j,
    decreases j - i,
{
    if i < j {
        assert(in_class(class, s[i]));
        lemma_run_end_is(s, i + 1, j, class);
    }
}

/// Whether `word` has the shape of an identifier: a letter or an underscore,
/// then letters, digits, underscores and dots.
pub open spec fn is_identifier(word: Seq<u8>) -> bool {
    &&& word.len() > 0
    &&& is_ident_start(word[0])
    &&& forall|k: int| 0 <= k < word.len() ==> is_ident_part(#[trigger] word[k])
}

/// An identifier is read whole: where the bytes from `i` up to `j` have the
/// shape of an identifier and no further identifier byte follows, the token
/// at `i` carries exactly those bytes, its kind is the one that the keyword
/// table gives them, and the cursor stops at `j`.
pub proof fn lemma_identifier_token(s: Seq<u8>, i: int, j: int)
    requires
        0 <= i <= j <= s.len(),
        is_identifier(s.subrange(i, j)),
        j == s.len() || !is_ident_part(s[j]),
    ensures
        scan(s, i) == (Scan {
            token: carrying(keyword_kind(s.subrange(i, j)), s.subrange(i, j)),
            next: j,
        }),
{
    let word = s.subrange(i, j);
    assert(word[0] == s[i]);
    assert forall|k: int| i <= k < j implies s[k] != 0 && in_class(
        ByteClass::IdentPart,
        #[trigger] s[k],
    ) by {
        assert(is_ident_part(word[k - i]));
    }
    lemma_run_end_is(s, i, j, ByteClass::IdentPart);
    assert(run_end(s, i, ByteClass::Space) == i);
}

/// The keyword table knows seven words and is blind to case: an identifier
/// is of a reserved kind exactly when, folded to lower case, it spells that
/// kind's word, and a `Name` exactly when it spells none of the seven.
pub proof fn lemma_keyword_table(word: Seq<u8>)
    ensures
        keyword_kind(word) == TokenType::With <==> to_lower(word) == ascii_bytes("with"@),
        keyword_kind(word) == TokenType::Group <==> to_lower(word) == ascii_bytes("group"@),
        keyword_kind(word) == TokenType::Publisher <==> to_lower(word) == ascii_bytes(
            "publisher"@,
        ),
        keyword_kind(word) == TokenType::Subscribe <==> to_lower(word) == ascii_bytes(
            "subscribe"@,
        ),
        keyword_kind(word) == TokenType::Message <==> to_lower(word) == ascii_bytes("message"@),
        keyword_kind(word) == TokenType::Okay <==> to_lower(word) == ascii_bytes("ok"@),
        keyword_kind(word) == TokenType::Error <==> to_lower(word) == ascii_bytes("error"@),
        keyword_kind(word) == TokenType::Name <==> {
            &&& to_lower(word) != ascii_bytes("with"@)
            &&& to_lower(word) != ascii_bytes("group"@)
            &&& to_lower(word) != ascii_bytes("publisher"@)
            &&& to_lower(word) != ascii_bytes("subscribe"@)
            &&& to_lower(word) != ascii_bytes("message"@)
            &&& to_lower(word) != ascii_bytes("ok"@)
            &&& to_lower(word) != ascii_bytes("error"@)
        },
{
    reveal_strlit("with");
    reveal_strlit("group");
    reveal_strlit("publisher");
    reveal_strlit("subscribe");
    reveal_strlit("message");
    reveal_strlit("ok");
    reveal_strlit("error");
    let with = ascii_bytes("with"@);
    let group = ascii_bytes("group"@);
    let publisher = ascii_bytes("publisher"@);
    let subscribe = ascii_bytes("subscribe"@);
    let message = ascii_bytes("message"@);
    let ok = ascii_bytes("ok"@);
    let error = ascii_bytes("error"@);
    assert(with.len() == 4 && group.len() == 5 && publisher.len() == 9 && subscribe.len() == 9
        && message.len() == 7 && ok.len() == 2 && error.len() == 5);
    assert(group[0] != error[0]);
    assert(publisher[0] != subscribe[0]);
}

/// Two spellings that differ in case only are of the same kind.
pub proof fn lemma_keyword_any_case(a: Seq<u8>, b: Seq<u8>)
    requires
        to_lower(a) == to_lower(b),
    ensures
        keyword_kind(a) == keyword_kind(b),
{
}

/// A length literal is read whole: where `+l` stands at `i` and the digits
/// that follow it end at `j`, the cursor stops at `j`; the token is `Len`
/// with exactly the number that the digits denote if there is at least one
/// digit and the number fits a machine integer, and otherwise an illegal
/// token that carries the digits.
pub proof fn lemma_length_literal(s: Seq<u8>, i: int, j: int)
    requires
        0 <= i,
        i + 2 <= j <= s.len(),
        s[i] == '+' as u8,
        s[i + 1] == 'l' as u8,
        all_digits(s.subrange(i + 2, j)),
        j == s.len() || !is_digit(s[j]),
    ensures
        scan(s, i).next == j,
        scan(s, i).token == length_token(s.subrange(i + 2, j)),
        i + 2 < j && decimal_value(s.subrange(i + 2, j)) <= usize::MAX ==> scan(s, i).token
            == bare(TokenType::Len(decimal_value(s.subrange(i + 2, j)) as usize)),
        i + 2 == j || decimal_value(s.subrange(i + 2, j)) > usize::MAX ==> scan(s, i).token
            == carrying(TokenType::Illegal, s.subrange(i + 2, j)),
{
    let digits = s.subrange(i + 2, j);
    assert forall|k: int| i + 2 <= k < j implies s[k] != 0 && in_class(
        ByteClass::Digit,
        #[trigger] s[k],
    ) by {
        assert(is_digit(digits[k - (i + 2)]));
    }
    lemma_run_end_is(s, i + 2, j, ByteClass::Digit);
    assert(run_end(s, i, ByteClass::Space) == i);
    assert(byte_at(s, i) == '+' as u8);
    assert(byte_at(s, i + 1) == 'l' as u8);
}

/// A binary payload takes the rest of the buffer: behind a `Binary` token
/// the cursor stands at the end of the input, and the next token is `Eof`.
pub proof fn lemma_binary_is_last(s: Seq<u8>, i: int)
    requires
        scan(s, i).token.kind == TokenType::Binary,
    ensures
        scan(s, i).next == s.len(),
        scan(s, scan(s, i).next) == (Scan { token: bare(TokenType::Eof), next: s.len() as int }),
{
}

/// The end of the input is final: behind an `Eof` token the tokenizer
/// stands still and reads `Eof` again.
pub proof fn lemma_eof_repeats(s: Seq<u8>, i: int)
    requires
        scan(s, i).token.kind == TokenType::Eof,
    ensures
        scan(s, scan(s, i).next) == scan(s, i),
{
    let start = run_end(s, i, ByteClass::Space);
    assert(byte_at(s, start) == 0);
    assert(run_end(s, start, ByteClass::Space) == start);
}

} // verus!
