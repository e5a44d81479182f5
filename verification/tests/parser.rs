use bytes::Bytes;
use pubsub_proto::lexer::Lexer;
use pubsub_proto::parser::{parse, Command, ParseError, Parser};

fn build_parser(input: Bytes) -> Parser {
    let lexer = Lexer::new(input);
    Parser::new(lexer)
}

fn commands_of(input: &'static str) -> Vec<Command> {
    match parse(Bytes::from(input)) {
        Ok(commands) => commands,
        Err(e) => panic!("input {input} gave the error {}", e.to_string()),
    }
}

fn error_of(input: &'static str) -> String {
    match parse(Bytes::from(input)) {
        Ok(commands) => panic!("input {input} gave {commands:?}"),
        Err(e) => e.to_string(),
    }
}

fn head_error(start: &str) -> String {
    format!(
        "miss expression, expression cannot start with '{start}', only start with 'message', 'publisher', 'subscribe' or '+lx'"
    )
}

#[test]
fn given_valid_expresion_should_be_return_command() {
    let cases = [
        (
            "subscribe foo with group bar",
            Command::Subscriber {
                queue_name: "foo".into(),
                group_name: "bar".into(),
            },
        ),
        (
            "subscribe foo with group bar;",
            Command::Subscriber {
                queue_name: "foo".into(),
                group_name: "bar".into(),
            },
        ),
        (
            "publisher foo",
            Command::Publisher {
                queue_name: "foo".into(),
            },
        ),
        (
            "publisher foo;",
            Command::Publisher {
                queue_name: "foo".into(),
            },
        ),
        (
            "message +l19 #baz\";",
            Command::Message {
                message: "baz\";".into(),
                len: 19usize,
            },
        ),
        (
            "+l8 #foo",
            Command::Message {
                message: "foo".into(),
                len: 8usize,
            },
        ),
        (
            "error #foo",
            Command::Error {
                message: Some("foo".into()),
            },
        ),
        ("error", Command::Error { message: None }),
    ];
    for (input, expected) in cases {
        let mut parser = build_parser(input.into());
        let parsed = parser.parse_commands();
        match parsed {
            Ok(commands) => {
                let command = &commands[0];
                assert_eq!(
                    &expected, command,
                    "expected {expected:?} but got {command:?}",
                );
            }
            Err(e) => assert!(
                false,
                "fail to parse the command, expected {expected:?}, but got error {} with input {input}",
                e.to_string()
            ),
        }
    }
}

#[test]
fn given_mutli_valid_expresion_should_be_return_command() {
    let cases = [
        (
            "subscribe foo with group bar",
            vec![Command::Subscriber {
                queue_name: "foo".into(),
                group_name: "bar".into(),
            }],
        ),
        (
            "publisher foo; message +l19 #baz;",
            vec![
                Command::Publisher {
                    queue_name: "foo".into(),
                },
                Command::Message {
                    message: "baz;".into(),
                    len: 19usize,
                },
            ],
        ),
        ("ok +l400", vec![Command::Okay { len: 400 }]),
    ];
    for (input, expecteds) in cases {
        let mut parser = build_parser(input.into());
        let parsed = parser.parse_commands();
        match parsed {
            Ok(commands) => {
                for (idx, expected) in expecteds.iter().enumerate() {
                    let command = &commands[idx];
                    assert_eq!(
                        expected, command,
                        "expected {expected:?} but got {command:?}",
                    );
                }
            }
            Err(e) => assert!(
                false,
                "fail to parse the command, expected {expecteds:?}, but got error {}",
                e.to_string()
            ),
        }
    }
}

#[test]
fn publisher_with_and_without_semicolon() {
    let expected = vec![Command::Publisher { queue_name: "foo".into() }];
    assert_eq!(commands_of("publisher foo"), expected);
    assert_eq!(commands_of("publisher foo;"), expected);
    assert_eq!(commands_of("publisher foo ;"), expected);
    assert_eq!(commands_of("PUBLISHER foo"), expected);
    assert_eq!(commands_of("  publisher\n\tfoo\r\n"), expected);
}

#[test]
fn subscriber_is_read_whole() {
    assert_eq!(
        commands_of("subscribe foo with group bar"),
        vec![Command::Subscriber { queue_name: "foo".into(), group_name: "bar".into() }]
    );
    assert_eq!(
        commands_of("Subscribe q.1 WITH Group _g"),
        vec![Command::Subscriber { queue_name: "q.1".into(), group_name: "_g".into() }]
    );
}

#[test]
fn message_payload_is_everything_behind_the_marker() {
    assert_eq!(
        commands_of("message +l19 #baz\";"),
        vec![Command::Message { message: "baz\";".into(), len: 19 }]
    );
    assert_eq!(
        commands_of("message +l3 #a; publisher x"),
        vec![Command::Message { message: "a; publisher x".into(), len: 3 }]
    );
    assert_eq!(
        commands_of("message +l0 #"),
        vec![Command::Message { message: Bytes::new(), len: 0 }]
    );
}

#[test]
fn message_in_short_form() {
    assert_eq!(commands_of("+l8 #foo"), vec![Command::Message { message: "foo".into(), len: 8 }]);
    assert_eq!(
        commands_of("publisher q; +l2 # x "),
        vec![
            Command::Publisher { queue_name: "q".into() },
            Command::Message { message: " x ".into(), len: 2 }
        ]
    );
}

#[test]
fn declared_length_is_not_held_against_the_payload() {
    assert_eq!(
        commands_of("message +l1 #abcdef"),
        vec![Command::Message { message: "abcdef".into(), len: 1 }]
    );
    assert_eq!(
        commands_of("+l100 #ab"),
        vec![Command::Message { message: "ab".into(), len: 100 }]
    );
}

#[test]
fn error_with_and_without_payload() {
    assert_eq!(commands_of("error #foo"), vec![Command::Error { message: Some("foo".into()) }]);
    assert_eq!(commands_of("error#foo"), vec![Command::Error { message: Some("foo".into()) }]);
    assert_eq!(commands_of("error"), vec![Command::Error { message: None }]);
    assert_eq!(commands_of("error;"), vec![Command::Error { message: None }]);
    assert_eq!(commands_of("error #"), vec![Command::Error { message: Some(Bytes::new()) }]);
}

#[test]
fn error_without_payload_goes_on_with_the_next_statement() {
    assert_eq!(
        commands_of("error publisher x"),
        vec![Command::Error { message: None }, Command::Publisher { queue_name: "x".into() }]
    );
    assert_eq!(
        commands_of("error; error #e"),
        vec![Command::Error { message: None }, Command::Error { message: Some("e".into()) }]
    );
    assert_eq!(error_of("error foo"), head_error("foo"));
}

#[test]
fn ok_must_end_the_input() {
    assert_eq!(commands_of("ok +l400"), vec![Command::Okay { len: 400 }]);
    assert_eq!(commands_of("ok +l0  \n"), vec![Command::Okay { len: 0 }]);
    assert_eq!(
        commands_of("publisher a; ok +l7"),
        vec![Command::Publisher { queue_name: "a".into() }, Command::Okay { len: 7 }]
    );
    assert_eq!(
        error_of("ok +l400 publisher x"),
        "expected eof but got [publisher: 'publisher']"
    );
    assert_eq!(error_of("ok +l400;"), "expected eof but got [;: 'empty value']");
    assert_eq!(error_of("ok +l400 #x"), "expected eof but got [binary: 'x']");
    assert_eq!(error_of("ok"), "expected len 0 but got [eof: 'empty value']");
    assert_eq!(error_of("ok foo"), "expected len 0 but got [name: 'foo']");
}

#[test]
fn empty_input_gives_no_command() {
    assert_eq!(commands_of(""), vec![]);
    assert_eq!(commands_of("   \n\t "), vec![]);
    assert_eq!(commands_of(";"), vec![]);
    assert_eq!(commands_of(" ; "), vec![]);
    match parse(Bytes::from_static(b"\x00publisher foo")) {
        Ok(commands) => assert_eq!(commands, vec![]),
        Err(e) => panic!("{}", e.to_string()),
    }
}

#[test]
fn leading_digits_begin_no_statement() {
    assert_eq!(error_of("123"), head_error("123"));
    assert_eq!(error_of("4+8 publisher x"), head_error("4+8"));
}

#[test]
fn tokens_that_begin_no_statement_are_refused() {
    assert_eq!(error_of("foo"), head_error("foo"));
    assert_eq!(error_of("with"), head_error("with"));
    assert_eq!(error_of("group x"), head_error("group"));
    assert_eq!(error_of("#foo"), head_error("foo"));
    assert_eq!(error_of(";;"), head_error("any"));
    assert_eq!(error_of("publisher a;;"), head_error("any"));
    assert_eq!(error_of("+l"), head_error(""));
    assert_eq!(error_of("+lx #foo"), head_error(""));
    assert_eq!(error_of("+l99999999999999999999999 #foo"), head_error("99999999999999999999999"));
}

#[test]
fn unexpected_lookahead_is_named_in_the_error() {
    assert_eq!(error_of("publisher"), "expected name but got [eof: 'empty value']");
    assert_eq!(error_of("publisher with"), "expected name but got [with: 'with']");
    assert_eq!(error_of("publisher 12"), "expected name but got [illegal: '12']");
    assert_eq!(error_of("publisher +l5"), "expected name but got [len 5: 'empty value']");
    assert_eq!(error_of("subscribe"), "expected name but got [eof: 'empty value']");
    assert_eq!(error_of("subscribe foo"), "expected with but got [eof: 'empty value']");
    assert_eq!(error_of("subscribe foo group"), "expected with but got [group: 'group']");
    assert_eq!(error_of("subscribe foo with bar"), "expected group but got [name: 'bar']");
    assert_eq!(
        error_of("subscribe foo with group"),
        "expected name but got [eof: 'empty value']"
    );
    assert_eq!(error_of("subscribe foo with group ;"), "expected name but got [;: 'empty value']");
    assert_eq!(error_of("message"), "expected len 0 but got [eof: 'empty value']");
    assert_eq!(error_of("message #x"), "expected len 0 but got [binary: 'x']");
    assert_eq!(error_of("message +lx #x"), "expected len 0 but got [illegal: '']");
    assert_eq!(error_of("message +l5"), "expected in [Binary] but got Eof");
    assert_eq!(error_of("message +l5 foo"), "expected in [Binary] but got Name");
    assert_eq!(error_of("message +l5 +l6"), "expected in [Binary] but got Len(6)");
    assert_eq!(error_of("+l5 foo"), "expected binary but got [name: 'foo']");
    assert_eq!(error_of("+l5"), "expected binary but got [eof: 'empty value']");
}

#[test]
fn an_error_discards_the_commands_read_before_it() {
    assert_eq!(error_of("publisher a; publisher b; 123"), head_error("123"));
    assert_eq!(
        error_of("publisher a; subscribe b with c"),
        "expected group but got [name: 'c']"
    );
}

#[test]
fn statements_need_no_semicolon_between_them() {
    assert_eq!(
        commands_of("publisher a publisher b;publisher c ; subscribe q with group g error"),
        vec![
            Command::Publisher { queue_name: "a".into() },
            Command::Publisher { queue_name: "b".into() },
            Command::Publisher { queue_name: "c".into() },
            Command::Subscriber { queue_name: "q".into(), group_name: "g".into() },
            Command::Error { message: None },
        ]
    );
}

#[test]
fn parsing_twice_gives_the_same() {
    for input in ["publisher foo; message +l19 #baz;", "ok +l1 x", "", "error"] {
        let first = parse(Bytes::from(input));
        let second = parse(Bytes::from(input));
        match (first, second) {
            (Ok(a), Ok(b)) => assert_eq!(a, b),
            (Err(a), Err(b)) => assert_eq!(a.to_string(), b.to_string()),
            _ => panic!("input {input} gave two kinds of result"),
        }
    }
}

#[test]
fn a_parser_starts_where_its_lexer_stands() {
    let mut lexer = Lexer::new("publisher a; publisher b".into());
    lexer.next_token();
    lexer.next_token();
    lexer.next_token();
    let mut parser = Parser::new(lexer);
    match parser.parse_commands() {
        Ok(commands) => assert_eq!(commands, vec![Command::Publisher { queue_name: "b".into() }]),
        Err(e) => panic!("{}", e.to_string()),
    }
    match parser.parse_commands() {
        Ok(commands) => assert_eq!(commands, vec![]),
        Err(e) => panic!("{}", e.to_string()),
    }
}

#[test]
fn an_error_keeps_its_message() {
    let e = ParseError::new(String::from("expected name but got nothing"));
    assert_eq!(e.to_string(), "expected name but got nothing");
    let e = ParseError::new(String::new());
    assert_eq!(e.to_string(), "");
}
