use smklex::lexer::Lexer;
use smklex::token::{NonTerminal, NumberType, Token};

#[test]
fn initialize_lexer() {
    let test_source: &str = r#"
    fn main()
    {
        let mut rt = Runtime::new();

        async fut
        {
            let io = Reactor::new_io();
            let data: u32 = io.get().await?;
            let res = data + 100;
            println!("{}", data);
        }

        rt.block_on(fut).unwrap();
    }"#;

    let lexer: Lexer = Lexer::new(test_source);
    let tokens: Vec<Token> = lexer.lex();

    println!("{:?}", tokens);
}

#[test]
fn empty_source_yields_no_tokens() {
    let tokens = Lexer::new("").lex();
    assert!(tokens.is_empty());
}

#[test]
fn spaces_only_yield_no_tokens() {
    let tokens = Lexer::new("     ").lex();
    assert!(tokens.is_empty());
    let tokens = Lexer::new(" ").lex();
    assert!(tokens.is_empty());
}

#[test]
fn newlines_only_yield_newline_symbols() {
    let tokens = Lexer::new("\n\n\n").lex();
    assert_eq!(
        tokens,
        vec![
            Token::Symbol(NonTerminal::Newline),
            Token::Symbol(NonTerminal::Newline),
            Token::Symbol(NonTerminal::Newline),
        ]
    );
}

#[test]
fn one_plus_two() {
    let tokens = Lexer::new("1+2").lex();
    assert_eq!(
        tokens,
        vec![
            Token::Number(NumberType::Integer(String::from("1"))),
            Token::Symbol(NonTerminal::Plus),
            Token::Number(NumberType::Integer(String::from("2"))),
        ]
    );
}

#[test]
fn float_literal() {
    let tokens = Lexer::new("3.14").lex();
    assert_eq!(
        tokens,
        vec![Token::Number(NumberType::Float(String::from("3.14")))]
    );
}

#[test]
fn quoted_string() {
    let tokens = Lexer::new("\"hi\"").lex();
    assert_eq!(
        tokens,
        vec![
            Token::Symbol(NonTerminal::StringBorder),
            Token::String(String::from("hi")),
            Token::Symbol(NonTerminal::StringBorder),
        ]
    );
}

#[test]
fn word_statement_newline_word() {
    let tokens = Lexer::new("a;\nb").lex();
    assert_eq!(
        tokens,
        vec![
            Token::Word(String::from("a")),
            Token::Symbol(NonTerminal::StatementEnd),
            Token::Symbol(NonTerminal::Newline),
            Token::Word(String::from("b")),
        ]
    );
}

#[test]
fn scanning_twice_yields_identical_tokens() {
    let source = "let x = 1.5;\nprint(\"done\")";
    let first = Lexer::new(source).lex();
    let second = Lexer::new(source).lex();
    assert_eq!(first, second);
}

// An unterminated string does not abort the scan: it yields the opening
// border and a token holding all remaining characters, with no closing
// border.  This leniency is accepted behaviour, not an error.
#[test]
fn unterminated_string_keeps_remaining_text() {
    let tokens = Lexer::new("\"abc").lex();
    assert_eq!(
        tokens,
        vec![
            Token::Symbol(NonTerminal::StringBorder),
            Token::String(String::from("abc")),
        ]
    );
}

#[test]
fn empty_string_literal() {
    let tokens = Lexer::new("\"\"").lex();
    assert_eq!(
        tokens,
        vec![
            Token::Symbol(NonTerminal::StringBorder),
            Token::String(String::from("")),
            Token::Symbol(NonTerminal::StringBorder),
        ]
    );
}

#[test]
fn string_body_keeps_symbols_and_spaces() {
    let tokens = Lexer::new("\"a+b c\"").lex();
    assert_eq!(
        tokens,
        vec![
            Token::Symbol(NonTerminal::StringBorder),
            Token::String(String::from("a+b c")),
            Token::Symbol(NonTerminal::StringBorder),
        ]
    );
}

// A numeral with several dots is consumed whole and tagged a float; the
// raw text is pushed downstream unvalidated.
#[test]
fn multi_dot_numeral_is_lenient() {
    let tokens = Lexer::new("1.2.3").lex();
    assert_eq!(
        tokens,
        vec![Token::Number(NumberType::Float(String::from("1.2.3")))]
    );
}

#[test]
fn number_then_word() {
    let tokens = Lexer::new("12ab").lex();
    assert_eq!(
        tokens,
        vec![
            Token::Number(NumberType::Integer(String::from("12"))),
            Token::Word(String::from("ab")),
        ]
    );
}

#[test]
fn dot_outside_number_is_a_symbol() {
    let tokens = Lexer::new(".5").lex();
    assert_eq!(
        tokens,
        vec![
            Token::Symbol(NonTerminal::Dot),
            Token::Number(NumberType::Integer(String::from("5"))),
        ]
    );
}

#[test]
fn all_single_character_symbols() {
    let tokens = Lexer::new("{}()+-*/=;").lex();
    assert_eq!(
        tokens,
        vec![
            Token::Symbol(NonTerminal::BlockOpen),
            Token::Symbol(NonTerminal::BlockClose),
            Token::Symbol(NonTerminal::ParenOpen),
            Token::Symbol(NonTerminal::ParenClose),
            Token::Symbol(NonTerminal::Plus),
            Token::Symbol(NonTerminal::Minus),
            Token::Symbol(NonTerminal::Mul),
            Token::Symbol(NonTerminal::Div),
            Token::Symbol(NonTerminal::Equals),
            Token::Symbol(NonTerminal::StatementEnd),
        ]
    );
}

// The last character of a non-empty source is always reached: the scan
// never drops the final character.
#[test]
fn last_character_is_reachable() {
    let tokens = Lexer::new("ab").lex();
    assert_eq!(tokens, vec![Token::Word(String::from("ab"))]);
    let tokens = Lexer::new("x").lex();
    assert_eq!(tokens, vec![Token::Word(String::from("x"))]);
    let tokens = Lexer::new("a+b").lex();
    assert_eq!(
        tokens,
        vec![
            Token::Word(String::from("a")),
            Token::Symbol(NonTerminal::Plus),
            Token::Word(String::from("b")),
        ]
    );
}

#[test]
fn mixed_statement() {
    let tokens = Lexer::new("x = 1 + 2;").lex();
    assert_eq!(
        tokens,
        vec![
            Token::Word(String::from("x")),
            Token::Symbol(NonTerminal::Equals),
            Token::Number(NumberType::Integer(String::from("1"))),
            Token::Symbol(NonTerminal::Plus),
            Token::Number(NumberType::Integer(String::from("2"))),
            Token::Symbol(NonTerminal::StatementEnd),
        ]
    );
}
