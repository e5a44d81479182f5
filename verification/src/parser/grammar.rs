//! The grammar of the protocol, as a mathematical model of the parser: a
//! state of two tokens of lookahead over the tokenizer, and what each
//! statement makes of it.

use crate::lexer::token::{
    kind_debug_text, kind_text, payload_text, same_shape, token_text, TokenType, TokenView,
};
use crate::lexer::{lemma_run_end, run_end, scan, ByteClass};
use vstd::prelude::*;

verus! {

/// What a command is: its variant and the bytes of its fields.
#[allow(inconsistent_fields)]
pub enum CommandView {
    Message { message: Seq<u8>, len: usize },
    Error { message: Option<Seq<u8>> },
    Publisher { queue_name: Seq<u8> },
    Subscriber { queue_name: Seq<u8>, group_name: Seq<u8> },
    Okay { len: usize },
}

/// The parser's state: the input, the tokenizer's cursor in it, and the two
/// tokens read last, of which `current` is the older.
pub struct ParserView {
    pub input: Seq<u8>,
    pub pos: int,
    pub current: TokenView,
    pub next: TokenView,
}

/// The outcome of one statement: the command and the state behind it, or
/// the message of the error.
pub type Step = Result<(CommandView, ParserView), Seq<char>>;

/// The outcome of a whole parse: the commands in order, or the message of
/// the first error.
pub type Outcome = Result<Seq<CommandView>, Seq<char>>;

/// Whether tokens of this kind carry the bytes they were read from.
pub open spec fn has_payload(kind: TokenType) -> bool {
    match kind {
        TokenType::Semicolon | TokenType::Eof | TokenType::Len(_) => false,
        _ => true,
    }
}

/// A token as the tokenizer makes it: with a payload exactly where its kind
/// has one.
pub open spec fn token_wf(token: TokenView) -> bool {
    token.payload is Some <==> has_payload(token.kind)
}

/// A state whose two tokens are as the tokenizer makes them.
pub open spec fn state_wf(p: ParserView) -> bool {
    token_wf(p.current) && token_wf(p.next)
}

/// The bytes that a token carries; none where it has no payload.
pub open spec fn payload_bytes(token: TokenView) -> Seq<u8> {
    match token.payload {
        Some(bytes) => bytes,
        None => Seq::empty(),
    }
}

/// The number of a `Len` kind, and zero for any other kind.
pub open spec fn len_of(kind: TokenType) -> usize {
    match kind {
        TokenType::Len(n) => n,
        _ => 0,
    }
}

/// The state of a parser that is set on a tokenizer whose cursor stands at
/// `pos`: two tokens read.
pub open spec fn start_at(input: Seq<u8>, pos: int) -> ParserView {
    let first = scan(input, pos);
    let second = scan(input, first.next);
    ParserView { input, pos: second.next, current: first.token, next: second.token }
}

/// The state in which parsing of `input` begins.
pub open spec fn start(input: Seq<u8>) -> ParserView {
    start_at(input, 0)
}

/// The state after one token is consumed: the lookahead moves up and a new
/// token is read.
pub open spec fn advance(p: ParserView) -> ParserView {
    let read = scan(p.input, p.pos);
    ParserView { input: p.input, pos: read.next, current: p.next, next: read.token }
}

/// The message for a lookahead that is not of the expected kind.
pub open spec fn expected_message(kind: TokenType, got: TokenView) -> Seq<char> {
    "expected "@ + kind_text(kind) + " but got "@ + token_text(got)
}

/// The kinds of a list, as written in source, with a comma and a space
/// between them.
pub open spec fn kinds_list_text(kinds: Seq<TokenType>) -> Seq<char>
    decreases kinds.len(),
{
    if kinds.len() == 0 {
        Seq::empty()
    } else if kinds.len() == 1 {
        kind_debug_text(kinds[0])
    } else {
        kinds_list_text(kinds.drop_last()) + ", "@ + kind_debug_text(kinds.last())
    }
}

/// The message for a lookahead that is of none of the expected kinds.
pub open spec fn expected_in_message(kinds: Seq<TokenType>, got: TokenType) -> Seq<char> {
    "expected in ["@ + kinds_list_text(kinds) + "] but got "@ + kind_debug_text(got)
}

/// The message for a token that begins no statement.
pub open spec fn head_message(head: TokenView) -> Seq<char> {
    "miss expression, expression cannot start with '"@ + payload_text(head.payload, "any"@)
        + "', only start with 'message', 'publisher', 'subscribe' or '+lx'"@
}

/// Whether `kind` has the shape of one of `kinds`.
pub open spec fn shape_in(kind: TokenType, kinds: Seq<TokenType>) -> bool {
    exists|k: int| 0 <= k < kinds.len() && same_shape(kind, #[trigger] kinds[k])
}

/// Expecting a kind: if the lookahead has its shape, one token is consumed;
/// if not, the error says what was expected and what stood there.
pub open spec fn expect(p: ParserView, kind: TokenType) -> Result<ParserView, Seq<char>> {
    if same_shape(p.next.kind, kind) {
        Ok(advance(p))
    } else {
        Err(expected_message(kind, p.next))
    }
}

/// Expecting one of several kinds.
pub open spec fn expect_in(p: ParserView, kinds: Seq<TokenType>) -> Result<
    ParserView,
    Seq<char>,
> {
    if shape_in(p.next.kind, kinds) {
        Ok(advance(p))
    } else {
        Err(expected_in_message(kinds, p.next.kind))
    }
}

/// `message`, a length, a binary payload.
pub open spec fn message_statement(p: ParserView) -> Step {
    match expect(p, TokenType::Len(0)) {
        Err(e) => Err(e),
        Ok(p1) => match expect_in(p1, seq![TokenType::Binary]) {
            Err(e) => Err(e),
            Ok(p2) => Ok(
                (
                    CommandView::Message {
                        message: payload_bytes(p2.current),
                        len: len_of(p1.current.kind),
                    },
                    advance(p2),
                ),
            ),
        },
    }
}

/// The short form of a message: a length, which is the current token and
/// whose number is `len`, and a binary payload.
pub open spec fn short_message_statement(p: ParserView, len: usize) -> Step {
    match expect(p, TokenType::Binary) {
        Err(e) => Err(e),
        Ok(p1) => Ok((CommandView::Message { message: payload_bytes(p1.current), len }, advance(p1))),
    }
}

/// `publisher` and the name of a queue.
pub open spec fn publisher_statement(p: ParserView) -> Step {
    match expect(p, TokenType::Name) {
        Err(e) => Err(e),
        Ok(p1) => Ok(
            (CommandView::Publisher { queue_name: payload_bytes(p1.current) }, advance(p1)),
        ),
    }
}

/// `subscribe`, the name of a queue, `with`, `group`, the name of a group.
pub open spec fn subscriber_statement(p: ParserView) -> Step {
    match expect(p, TokenType::Name) {
        Err(e) => Err(e),
        Ok(p1) => match expect(p1, TokenType::With) {
            Err(e) => Err(e),
            Ok(p2) => match expect(p2, TokenType::Group) {
                Err(e) => Err(e),
                Ok(p3) => match expect(p3, TokenType::Name) {
                    Err(e) => Err(e),
                    Ok(p4) => Ok(
                        (
                            CommandView::Subscriber {
                                queue_name: payload_bytes(p1.current),
                                group_name: payload_bytes(p4.current),
                            },
                            advance(p4),
                        ),
                    ),
                },
            },
        },
    }
}

/// `ok` and a length, with the end of the input behind it.
pub open spec fn ok_statement(p: ParserView) -> Step {
    match expect(p, TokenType::Len(0)) {
        Err(e) => Err(e),
        Ok(p1) => match expect(p1, TokenType::Eof) {
            Err(e) => Err(e),
            Ok(p2) => Ok((CommandView::Okay { len: len_of(p1.current.kind) }, advance(p2))),
        },
    }
}

/// `error`, with a binary payload or without. The statement never fails:
/// where no payload follows, the command has none, and one token is
/// consumed all the same.
pub open spec fn error_statement(p: ParserView) -> Step {
    match expect(p, TokenType::Binary) {
        Ok(p1) => Ok((CommandView::Error { message: p1.current.payload }, advance(p1))),
        Err(_) => Ok((CommandView::Error { message: None }, advance(p))),
    }
}

/// One statement, chosen by the kind of the current token.
pub open spec fn statement(p: ParserView) -> Step {
    match p.current.kind {
        TokenType::Message => message_statement(p),
        TokenType::Publisher => publisher_statement(p),
        TokenType::Subscribe => subscriber_statement(p),
        TokenType::Okay => ok_statement(p),
        TokenType::Len(n) => short_message_statement(p, n),
        TokenType::Error => error_statement(p),
        _ => Err(head_message(p.current)),
    }
}

/// The state in which the statement of a round begins: a semicolon in front
/// of it is consumed.
pub open spec fn skip_semicolon(p: ParserView) -> ParserView {
    if p.current.kind == TokenType::Semicolon {
        advance(p)
    } else {
        p
    }
}

/// Whether parsing stops in state `p`: at the end of the input, or at a
/// semicolon with the end of the input behind it.
pub open spec fn at_end(p: ParserView) -> bool {
    p.current.kind == TokenType::Eof || (p.current.kind == TokenType::Semicolon
        && p.next.kind == TokenType::Eof)
}

/// `commands` with `prefix` in front of them.
pub open spec fn prepend(prefix: Seq<CommandView>, rest: Outcome) -> Outcome {
    match rest {
        Ok(commands) => Ok(prefix + commands),
        Err(e) => Err(e),
    }
}

/// All statements from state `p` to the end of the input, each with at most
/// one semicolon in front of it. The first error ends the parse, and the
/// commands read before it are lost.
pub open spec fn commands(p: ParserView) -> Outcome
    decreases budget(p),
    via commands_decreases
{
    if at_end(p) {
        Ok(Seq::empty())
    } else {
        match statement(skip_semicolon(p)) {
            Err(e) => Err(e),
            Ok((command, after)) => prepend(seq![command], commands(after)),
        }
    }
}

/// What parsing `input` gives.
pub open spec fn parse_outcome(input: Seq<u8>) -> Outcome {
    commands(start(input))
}

/// The bytes of the input that the tokenizer has not read yet.
pub open spec fn unread(p: ParserView) -> nat {
    if 0 <= p.pos < p.input.len() {
        (p.input.len() - p.pos) as nat
    } else {
        0
    }
}

/// An upper bound on the tokens that are left before the end of the input:
/// the bytes not yet read, and the tokens of the lookahead that are no
/// `Eof`.
pub open spec fn budget(p: ParserView) -> nat {
    unread(p) + (if p.next.kind == TokenType::Eof {
        0nat
    } else {
        1nat
    }) + (if p.current.kind == TokenType::Eof {
        0nat
    } else {
        1nat
    })
}

/// The tokenizer makes well-formed tokens, never moves back, stays inside
/// the input, and reads at least one byte for every token but `Eof`.
pub proof fn lemma_scan(s: Seq<u8>, i: int)
    ensures
        token_wf(scan(s, i).token),
        i <= scan(s, i).next,
        0 <= i <= s.len() ==> scan(s, i).next <= s.len(),
        scan(s, i).token.kind != TokenType::Eof ==> 0 <= i < scan(s, i).next <= s.len(),
{
    if 0 <= i <= s.len() {
        lemma_run_end(s, i, ByteClass::Space);
        let begin = run_end(s, i, ByteClass::Space);
        if begin + 2 <= s.len() {
            lemma_run_end(s, begin + 2, ByteClass::Digit);
        }
        lemma_run_end(s, begin, ByteClass::IdentPart);
        lemma_run_end(s, begin, ByteClass::Visible);
    }
}

/// Consuming a token keeps a well-formed state well-formed and never raises
/// the budget; it lowers the budget unless the current token is `Eof`.
pub proof fn lemma_advance(p: ParserView)
    ensures
        state_wf(p) ==> state_wf(advance(p)),
        advance(p).input == p.input,
        budget(advance(p)) <= budget(p),
        p.current.kind != TokenType::Eof ==> budget(advance(p)) < budget(p),
{
    lemma_scan(p.input, p.pos);
}

/// A statement that succeeds leaves the input as it was and a lower budget,
/// and a well-formed state if it began in one.
pub proof fn lemma_statement(p: ParserView)
    ensures
        statement(p) matches Ok((_, after)) ==> {
            &&& after.input == p.input
            &&& budget(after) < budget(p)
            &&& state_wf(p) ==> state_wf(after)
        },
{
    lemma_advance(p);
    let p1 = advance(p);
    lemma_advance(p1);
    let p2 = advance(p1);
    lemma_advance(p2);
    let p3 = advance(p2);
    lemma_advance(p3);
    let p4 = advance(p3);
    lemma_advance(p4);
}

#[via_fn]
proof fn commands_decreases(p: ParserView) {
    lemma_advance(p);
    lemma_statement(skip_semicolon(p));
}

} // verus!
