//! What holds of every input of the parser.

use crate::lexer::laws::{lemma_eof_repeats, lemma_run_end_is};
use crate::lexer::token::TokenType;
use crate::lexer::{in_class, run_end, scan, ByteClass};
use crate::parser::grammar::{
    advance, at_end, budget, commands, head_message, lemma_advance, lemma_statement,
    ok_statement, parse_outcome, skip_semicolon, start, statement, CommandView, ParserView,
};
use crate::text::{is_digit, is_space};
use vstd::prelude::*;

verus! {

/// Whether a statement can begin with a token of this kind.
pub open spec fn begins_statement(kind: TokenType) -> bool {
    match kind {
        TokenType::Message
        | TokenType::Publisher
        | TokenType::Subscribe
        | TokenType::Okay
        | TokenType::Len(_)
        | TokenType::Error => true,
        _ => false,
    }
}

/// At the end of the input, and at a semicolon with the end behind it, a
/// parse ends well and adds no command.
pub proof fn lemma_end_gives_nothing(p: ParserView)
    requires
        at_end(p),
    ensures
        commands(p) == Ok::<Seq<CommandView>, Seq<char>>(Seq::empty()),
{
}

/// A statement with the end of the input behind it, or a semicolon and then
/// the end, gives its one command: the trailing semicolon changes nothing.
pub proof fn lemma_last_statement(p: ParserView, command: CommandView, after: ParserView)
    requires
        p.current.kind != TokenType::Semicolon,
        statement(p) == Ok::<(CommandView, ParserView), Seq<char>>((command, after)),
        at_end(after),
    ensures
        commands(p) == Ok::<Seq<CommandView>, Seq<char>>(seq![command]),
{
    lemma_end_gives_nothing(after);
    assert(seq![command] + Seq::<CommandView>::empty() =~= seq![command]);
}

/// The first statement that fails ends the parse with its error, whatever
/// was read before it in the same round.
pub proof fn lemma_first_error_ends(p: ParserView, e: Seq<char>)
    requires
        !at_end(p),
        statement(skip_semicolon(p)) == Err::<(CommandView, ParserView), Seq<char>>(e),
    ensures
        commands(p) == Err::<Seq<CommandView>, Seq<char>>(e),
{
}

/// A token that begins no statement, where a statement is due, is an error
/// that names it.
pub proof fn lemma_bad_head(p: ParserView)
    requires
        !at_end(p),
        !begins_statement(skip_semicolon(p).current.kind),
    ensures
        commands(p) == Err::<Seq<CommandView>, Seq<char>>(
            head_message(skip_semicolon(p).current),
        ),
{
}

/// Input that holds nothing but whitespace, the empty input included,
/// parses to no command and no error.
pub proof fn lemma_blank_input(input: Seq<u8>)
    requires
        forall|i: int| 0 <= i < input.len() ==> is_space(#[trigger] input[i]),
    ensures
        parse_outcome(input) == Ok::<Seq<CommandView>, Seq<char>>(Seq::empty()),
{
    assert forall|k: int| 0 <= k < input.len() implies input[k] != 0 && in_class(
        ByteClass::Space,
        #[trigger] input[k],
    ) by {
        assert(is_space(input[k]));
    }
    lemma_run_end_is(input, 0, input.len() as int, ByteClass::Space);
    assert(scan(input, 0).token.kind == TokenType::Eof);
}

/// Input that begins with a digit is refused: its first token is illegal
/// and begins no statement.
pub proof fn lemma_leading_digit(input: Seq<u8>)
    requires
        input.len() > 0,
        is_digit(input[0]),
    ensures
        scan(input, 0).token.kind == TokenType::Illegal,
        parse_outcome(input) == Err::<Seq<CommandView>, Seq<char>>(
            head_message(scan(input, 0).token),
        ),
{
    assert(run_end(input, 0, ByteClass::Space) == 0);
    lemma_bad_head(start(input));
}

/// An `ok` statement that succeeds has read the end of the input: the state
/// behind it is at the end.
pub proof fn lemma_ok_reads_the_end(p: ParserView)
    ensures
        ok_statement(p) matches Ok((_, after)) ==> after.current.kind == TokenType::Eof,
{
    let p1 = advance(p);
    if ok_statement(p) is Ok {
        lemma_eof_repeats(p.input, p.pos);
    }
}

/// In the commands of a parse that succeeds, `Okay` can only be the last.
pub proof fn lemma_ok_is_last(p: ParserView, list: Seq<CommandView>, i: int)
    requires
        commands(p) == Ok::<Seq<CommandView>, Seq<char>>(list),
        0 <= i < list.len(),
        list[i] is Okay,
    ensures
        i == list.len() - 1,
    decreases budget(p),
{
    let q = skip_semicolon(p);
    lemma_advance(p);
    lemma_statement(q);
    match statement(q) {
        Ok((command, after)) => {
            let rest = commands(after)->Ok_0;
            assert(list == seq![command] + rest);
            if i == 0 {
                assert(command is Okay);
                lemma_ok_reads_the_end(q);
                assert(rest.len() == 0);
            } else {
                assert(rest[i - 1] == list[i]);
                lemma_ok_is_last(after, rest, i - 1);
            }
        },
        Err(_) => {},
    }
}

} // verus!
