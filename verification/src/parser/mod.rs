//! The command parser: statements read from the tokenizer with two tokens
//! of lookahead.

pub mod grammar;
pub mod laws;
pub mod parse_error;

use crate::buffer::contents;
use crate::lexer::token::{render_payload, same_shape};
use crate::lexer::{Lexer, Token, TokenType};
use bytes::Bytes;
pub use grammar::CommandView;
use grammar::{
    advance, at_end, budget, commands, error_statement, expect, expect_in, expected_in_message,
    expected_message, head_message, kinds_list_text, lemma_advance, lemma_scan, lemma_statement,
    message_statement, ok_statement, parse_outcome, prepend, publisher_statement, shape_in,
    short_message_statement, skip_semicolon, start_at, state_wf, statement,
    subscriber_statement, Outcome, ParserView, Step,
};
pub use parse_error::ParseError;
use vstd::prelude::*;
use vstd::string::StringExecFns;

verus! {

/// A command of the protocol.
#[derive(Debug, PartialEq, Eq)]
#[allow(inconsistent_fields)]
pub enum Command {
    Message { message: Bytes, len: usize },
    Error { message: Option<Bytes> },
    Publisher { queue_name: Bytes },
    Subscriber { queue_name: Bytes, group_name: Bytes },
    Okay { len: usize },
}

impl View for Command {
    type V = CommandView;

    open spec fn view(&self) -> CommandView {
        match *self {
            Command::Message { message, len } => CommandView::Message {
                message: contents(&message),
                len,
            },
            Command::Error { message } => CommandView::Error {
                message: match message {
                    Some(b) => Some(contents(&b)),
                    None => None,
                },
            },
            Command::Publisher { queue_name } => CommandView::Publisher {
                queue_name: contents(&queue_name),
            },
            Command::Subscriber { queue_name, group_name } => CommandView::Subscriber {
                queue_name: contents(&queue_name),
                group_name: contents(&group_name),
            },
            Command::Okay { len } => CommandView::Okay { len },
        }
    }
}

impl Clone for Command {
    /// A second command that is what this one is; buffers are shared, not
    /// copied.
    fn clone(&self) -> (copy: Command)
        ensures
            copy@ == self@,
    {
        match self {
            Command::Message { message, len } => Command::Message {
                message: message.clone(),
                len: *len,
            },
            Command::Error { message } => Command::Error { message: message.clone() },
            Command::Publisher { queue_name } => Command::Publisher {
                queue_name: queue_name.clone(),
            },
            Command::Subscriber { queue_name, group_name } => Command::Subscriber {
                queue_name: queue_name.clone(),
                group_name: group_name.clone(),
            },
            Command::Okay { len } => Command::Okay { len: *len },
        }
    }
}

pub type ParseResult = Result<Vec<Command>, ParseError>;

/// What each command of a list is.
pub open spec fn views(list: Seq<Command>) -> Seq<CommandView> {
    Seq::new(list.len(), |i: int| list[i]@)
}

/// What the result of a parse is: what its commands are, or the message of
/// its error.
pub open spec fn outcome(result: ParseResult) -> Outcome {
    match result {
        Ok(list) => Ok(views(list@)),
        Err(e) => Err(e@),
    }
}

/// What the result of one statement is, with the state that the parser is
/// left in.
pub open spec fn step(result: Result<Command, ParseError>, after: ParserView) -> Step {
    match result {
        Ok(command) => Ok((command@, after)),
        Err(e) => Err(e@),
    }
}

/// A parser over one tokenizer.
pub struct Parser {
    lexer: Lexer,
    current_tok: Token,
    next_tok: Token,
}

impl View for Parser {
    type V = ParserView;

    closed spec fn view(&self) -> ParserView {
        ParserView {
            input: self.lexer@.input,
            pos: self.lexer@.pos,
            current: self.current_tok@,
            next: self.next_tok@,
        }
    }
}

fn write_expected(kind: TokenType, got: &Token) -> (r: String)
    ensures
        r@ == expected_message(kind, got@),
{
    let kind_name = kind.to_string();
    let got_text = got.to_string();
    String::from_str("expected ").concat(kind_name.as_str()).concat(" but got ").concat(
        got_text.as_str(),
    )
}

fn write_kinds(kinds: &[TokenType]) -> (r: String)
    ensures
        r@ == kinds_list_text(kinds@),
{
    let mut list = String::new();
    let mut i: usize = 0;
    while i < kinds.len()
        invariant
            0 <= i <= kinds.len(),
            list@ == kinds_list_text(kinds@.take(i as int)),
        decreases kinds.len() - i,
    {
        proof {
            let upto = kinds@.take(i + 1);
            assert(upto.drop_last() =~= kinds@.take(i as int));
            assert(upto.last() == kinds@[i as int]);
            reveal_strlit(", ");
        }
        let name = kinds[i].debug_string();
        if i > 0 {
            list = list.concat(", ");
        }
        list = list.concat(name.as_str());
        proof {
            assert(list@ =~= kinds_list_text(kinds@.take(i + 1)));
        }
        i += 1;
    }
    proof {
        assert(kinds@.take(i as int) =~= kinds@);
    }
    list
}

fn write_expected_in(kinds: &[TokenType], got: TokenType) -> (r: String)
    ensures
        r@ == expected_in_message(kinds@, got),
{
    let list = write_kinds(kinds);
    let got_name = got.debug_string();
    String::from_str("expected in [").concat(list.as_str()).concat("] but got ").concat(
        got_name.as_str(),
    )
}

fn write_head(head: &Token) -> (r: String)
    ensures
        r@ == head_message(head@),
{
    let value = head.value();
    let text = render_payload(&value, "any");
    String::from_str("miss expression, expression cannot start with '").concat(
        text.as_str(),
    ).concat("', only start with 'message', 'publisher', 'subscribe' or '+lx'")
}

impl Parser {
    /// Whether the two tokens of the lookahead are as the tokenizer makes
    /// them. Every parser is, from `new` on.
    pub open spec fn wf(&self) -> bool {
        state_wf(self@)
    }

    /// A parser on `lexer`, with the first two tokens read.
    pub fn new(lexer: Lexer) -> (parser: Parser)
        ensures
            parser.wf(),
            parser@ == start_at(lexer@.input, lexer@.pos),
    {
        let mut lexer = lexer;
        proof {
            lemma_scan(lexer@.input, lexer@.pos);
        }
        let current_tok = lexer.next_token();
        proof {
            lemma_scan(lexer@.input, lexer@.pos);
        }
        let next_tok = lexer.next_token();
        Parser { lexer, current_tok, next_tok }
    }

    /// Reads statements up to the end of the input. The result is all of
    /// their commands in order, or the first error and no command.
    pub fn parse_commands(&mut self) -> (result: ParseResult)
        requires
            old(self).wf(),
        ensures
            final(self).wf(),
            final(self)@.input == old(self)@.input,
            outcome(result) == commands(old(self)@),
            result is Ok ==> final(self)@.current.kind == TokenType::Eof,
    {
        let mut list: Vec<Command> = Vec::new();
        proof {
            assert(views(list@) =~= Seq::empty());
            assert(prepend(views(list@), commands(self@)) == commands(self@)) by {
                match commands(self@) {
                    Ok(rest) => {
                        assert(views(list@) + rest =~= rest);
                    },
                    Err(_) => {},
                }
            }
        }
        while !self.current_token_is(TokenType::Eof)
            invariant
                self.wf(),
                self@.input == old(self)@.input,
                prepend(views(list@), commands(self@)) == commands(old(self)@),
            ensures
                self.wf(),
                self@.input == old(self)@.input,
                self@.current.kind == TokenType::Eof,
                Ok::<Seq<CommandView>, Seq<char>>(views(list@)) == commands(old(self)@),
            decreases budget(self@),
        {
            let ghost before = self@;
            let ghost read = views(list@);
            proof {
                lemma_advance(before);
                lemma_statement(skip_semicolon(before));
            }
            if self.current_token_is(TokenType::Semicolon) {
                self.consume();
                if self.current_token_is(TokenType::Eof) {
                    proof {
                        assert(at_end(before));
                        assert(read + Seq::<CommandView>::empty() =~= read);
                    }
                    break ;
                }
            }
            assert(!at_end(before));
            assert(self@ == skip_semicolon(before));
            let parsed = match self.current_tok.token_type() {
                TokenType::Message => self.parse_message(),
                TokenType::Publisher => self.parse_publisher(),
                TokenType::Subscribe => self.parse_subscriber(),
                TokenType::Okay => self.parse_ok(),
                TokenType::Len(len) => self.parse_message_with_len(len),
                TokenType::Error => self.parse_error_message(),
                _ => Err(ParseError::new(write_head(&self.current_tok))),
            };
            match parsed {
                Ok(command) => {
                    list.push(command);
                    proof {
                        assert(views(list@) =~= read + seq![command@]);
                        match commands(self@) {
                            Ok(rest) => {
                                assert(read + (seq![command@] + rest) =~= views(list@) + rest);
                            },
                            Err(_) => {},
                        }
                    }
                },
                Err(e) => {
                    return Err(e);
                },
            }
        }
        proof {
            assert(views(list@) + Seq::<CommandView>::empty() =~= views(list@));
        }
        Ok(list)
    }

    fn parse_message(&mut self) -> (result: Result<Command, ParseError>)
        requires
            old(self).wf(),
        ensures
            final(self).wf(),
            final(self)@.input == old(self)@.input,
            step(result, final(self)@) == message_statement(old(self)@),
    {
        match self.expected_token(TokenType::Len(0)) {
            Ok(_) => {},
            Err(e) => {
                return Err(e);
            },
        }
        let len: usize = match self.current_tok.token_type() {
            TokenType::Len(len) => len,
            _ => 0,
        };
        let kinds = [TokenType::Binary];
        assert(kinds@ =~= seq![TokenType::Binary]);
        match self.expected_token_in(kinds.as_slice()) {
            Ok(_) => {},
            Err(e) => {
                return Err(e);
            },
        }
        assert(shape_in(self@.current.kind, seq![TokenType::Binary]));
        let message = self.current_tok.value().unwrap();
        self.consume();
        Ok(Command::Message { message, len })
    }

    fn parse_error_message(&mut self) -> (result: Result<Command, ParseError>)
        requires
            old(self).wf(),
        ensures
            final(self).wf(),
            final(self)@.input == old(self)@.input,
            step(result, final(self)@) == error_statement(old(self)@),
    {
        let message = match self.expected_token(TokenType::Binary) {
            Ok(_) => self.current_tok.value(),
            Err(_) => None,
        };
        self.consume();
        Ok(Command::Error { message })
    }

    fn parse_message_with_len(&mut self, len: usize) -> (result: Result<Command, ParseError>)
        requires
            old(self).wf(),
        ensures
            final(self).wf(),
            final(self)@.input == old(self)@.input,
            step(result, final(self)@) == short_message_statement(old(self)@, len),
    {
        match self.expected_token(TokenType::Binary) {
            Ok(_) => {},
            Err(e) => {
                return Err(e);
            },
        }
        let message = self.current_tok.value().unwrap();
        self.consume();
        Ok(Command::Message { message, len })
    }

    fn parse_publisher(&mut self) -> (result: Result<Command, ParseError>)
        requires
            old(self).wf(),
        ensures
            final(self).wf(),
            final(self)@.input == old(self)@.input,
            step(result, final(self)@) == publisher_statement(old(self)@),
    {
        match self.expected_token(TokenType::Name) {
            Ok(_) => {},
            Err(e) => {
                return Err(e);
            },
        }
        let queue_name = self.current_tok.value().unwrap();
        self.consume();
        Ok(Command::Publisher { queue_name })
    }

    fn parse_subscriber(&mut self) -> (result: Result<Command, ParseError>)
        requires
            old(self).wf(),
        ensures
            final(self).wf(),
            final(self)@.input == old(self)@.input,
            step(result, final(self)@) == subscriber_statement(old(self)@),
    {
        match self.expected_token(TokenType::Name) {
            Ok(_) => {},
            Err(e) => {
                return Err(e);
            },
        }
        let queue_name = self.current_tok.value().unwrap();
        match self.expected_token(TokenType::With) {
            Ok(_) => {},
            Err(e) => {
                return Err(e);
            },
        }
        match self.expected_token(TokenType::Group) {
            Ok(_) => {},
            Err(e) => {
                return Err(e);
            },
        }
        match self.expected_token(TokenType::Name) {
            Ok(_) => {},
            Err(e) => {
                return Err(e);
            },
        }
        let group_name = self.current_tok.value().unwrap();
        self.consume();
        Ok(Command::Subscriber { queue_name, group_name })
    }

    fn parse_ok(&mut self) -> (result: Result<Command, ParseError>)
        requires
            old(self).wf(),
        ensures
            final(self).wf(),
            final(self)@.input == old(self)@.input,
            step(result, final(self)@) == ok_statement(old(self)@),
    {
        match self.expected_token(TokenType::Len(0)) {
            Ok(_) => {},
            Err(e) => {
                return Err(e);
            },
        }
        let size: usize = match self.current_tok.token_type() {
            TokenType::Len(size) => size,
            _ => 0,
        };
        match self.expected_token(TokenType::Eof) {
            Ok(_) => {},
            Err(e) => {
                return Err(e);
            },
        }
        self.consume();
        Ok(Command::Okay { len: size })
    }

    /// Consumes one token if the lookahead has the shape of `token_type`,
    /// and reports what stood there if not.
    fn expected_token(&mut self, token_type: TokenType) -> (result: Result<(), ParseError>)
        requires
            old(self).wf(),
        ensures
            final(self).wf(),
            match result {
                Ok(_) => expect(old(self)@, token_type) == Ok::<ParserView, Seq<char>>(
                    final(self)@,
                ),
                Err(e) => final(self)@ == old(self)@ && expect(old(self)@, token_type) == Err::<
                    ParserView,
                    Seq<char>,
                >(e@),
            },
    {
        let next_tok_type = self.next_tok.token_type();
        if next_tok_type.same_shape(&token_type) {
            self.consume();
            return Ok(());
        }
        Err(ParseError::new(write_expected(token_type, &self.next_tok)))
    }

    /// Consumes one token if the lookahead has the shape of one of
    /// `tokens_types`, and reports what stood there if not.
    fn expected_token_in(&mut self, tokens_types: &[TokenType]) -> (result: Result<
        (),
        ParseError,
    >)
        requires
            old(self).wf(),
        ensures
            final(self).wf(),
            match result {
                Ok(_) => expect_in(old(self)@, tokens_types@) == Ok::<ParserView, Seq<char>>(
                    final(self)@,
                ),
                Err(e) => final(self)@ == old(self)@ && expect_in(old(self)@, tokens_types@)
                    == Err::<ParserView, Seq<char>>(e@),
            },
    {
        let next_tok_type = self.next_tok.token_type();
        let mut i: usize = 0;
        while i < tokens_types.len()
            invariant
                0 <= i <= tokens_types.len(),
                *self == *old(self),
                self.wf(),
                next_tok_type == self@.next.kind,
                forall|k: int| 0 <= k < i ==> !same_shape(next_tok_type, #[trigger] tokens_types@[k]),
            decreases tokens_types.len() - i,
        {
            if next_tok_type.same_shape(&tokens_types[i]) {
                self.consume();
                return Ok(());
            }
            i += 1;
        }
        Err(ParseError::new(write_expected_in(tokens_types, next_tok_type)))
    }

    /// Moves the lookahead up by one token.
    fn consume(&mut self)
        requires
            old(self).wf(),
        ensures
            final(self).wf(),
            final(self)@ == advance(old(self)@),
    {
        proof {
            lemma_advance(self@);
        }
        let next_tok = self.lexer.next_token();
        std::mem::swap(&mut self.current_tok, &mut self.next_tok);
        self.next_tok = next_tok;
    }

    fn current_token_is(&self, current_token: TokenType) -> (r: bool)
        ensures
            r == same_shape(self@.current.kind, current_token),
    {
        self.current_tok.token_type().same_shape(&current_token)
    }
}

/// Parses one buffer that holds one unit of the protocol.
pub fn parse(input: Bytes) -> (result: ParseResult)
    ensures
        outcome(result) == parse_outcome(contents(&input)),
{
    let mut parser = Parser::new(Lexer::new(input));
    parser.parse_commands()
}

} // verus!
