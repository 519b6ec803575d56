use tinyc::{lex_c_code, LexError, Token, TokenKind};

fn kw(s: &str) -> Token {
    Token::Keyword(s.to_string())
}

fn ident(s: &str) -> Token {
    Token::Identifier(s.to_string())
}

fn num(s: &str) -> Token {
    Token::Number(s.to_string())
}

fn op(s: &str) -> Token {
    Token::Operator(s.to_string())
}

fn punct(s: &str) -> Token {
    Token::Punctuation(s.to_string())
}

fn ws(s: &str) -> Token {
    Token::Whitespace(s.to_string())
}

fn lex(input: &str) -> Vec<Token> {
    lex_c_code(input).unwrap()
}

#[test]
fn test_keywords() {
    let input = "int void return";
    let tokens = lex(input);
    let expected = vec![
        Token::Keyword("int".to_string()),
        Token::Whitespace(" ".to_string()),
        Token::Keyword("void".to_string()),
        Token::Whitespace(" ".to_string()),
        Token::Keyword("return".to_string()),
    ];
    assert_eq!(tokens.into_iter().collect::<Vec<_>>(), expected);
}

#[test]
fn test_identifiers() {
    let input = "variable anotherVar _private";
    let tokens = lex(input);
    let expected = vec![
        Token::Identifier("variable".to_string()),
        Token::Whitespace(" ".to_string()),
        Token::Identifier("anotherVar".to_string()),
        Token::Whitespace(" ".to_string()),
        Token::Identifier("_private".to_string()),
    ];
    assert_eq!(tokens.into_iter().collect::<Vec<_>>(), expected);
}

#[test]
fn test_array_declaration() {
    let input = "int arr[10];";
    let tokens = lex(input);
    let expected = vec![
        Token::Keyword("int".to_string()),
        Token::Whitespace(" ".to_string()),
        Token::Identifier("arr".to_string()),
        Token::Punctuation("[".to_string()),
        Token::Number("10".to_string()),
        Token::Punctuation("]".to_string()),
        Token::Punctuation(";".to_string()),
    ];
    assert_eq!(tokens.into_iter().collect::<Vec<_>>(), expected);
}

#[test]
fn keyword_alone_is_one_keyword() {
    assert_eq!(lex("int"), vec![kw("int")]);
    for w in ["return", "if", "while", "for", "void"] {
        assert_eq!(lex(w), vec![kw(w)]);
    }
}

#[test]
fn double_equals_is_one_operator() {
    assert_eq!(lex("=="), vec![op("==")]);
    assert_eq!(lex("="), vec![op("=")]);
    assert_eq!(lex("==="), vec![op("=="), op("=")]);
}

#[test]
fn whitespace_is_kept_as_a_token() {
    assert_eq!(lex("int x"), vec![kw("int"), ws(" "), ident("x")]);
    assert_eq!(lex(" \t\r\n"), vec![ws(" \t\r\n")]);
}

#[test]
fn comment_runs_to_end_of_line() {
    assert_eq!(
        lex("x // note\ny"),
        vec![
            ident("x"),
            ws(" "),
            Token::Comment("// note".to_string()),
            ws("\n"),
            ident("y"),
        ]
    );
    assert_eq!(lex("//"), vec![Token::Comment("//".to_string())]);
}

#[test]
fn unrecognized_character_fails_whole_scan() {
    assert_eq!(lex_c_code("@"), Err(LexError::UnrecognizedInput { position: 0 }));
    assert_eq!(lex_c_code("int x @ y"), Err(LexError::UnrecognizedInput { position: 6 }));
    assert_eq!(lex_c_code("a ! b"), Err(LexError::UnrecognizedInput { position: 2 }));
    assert_eq!(lex_c_code("a | b"), Err(LexError::UnrecognizedInput { position: 2 }));
}

#[test]
fn error_offset_counts_characters() {
    assert_eq!(lex_c_code("\"é\" #"), Err(LexError::UnrecognizedInput { position: 4 }));
}

#[test]
fn empty_input_gives_no_tokens() {
    assert_eq!(lex(""), Vec::<Token>::new());
}

#[test]
fn keyword_needs_a_word_boundary() {
    assert_eq!(lex("intx"), vec![ident("intx")]);
    assert_eq!(lex("int_"), vec![ident("int_")]);
    assert_eq!(lex("int1"), vec![ident("int1")]);
    assert_eq!(lex("in"), vec![ident("in")]);
    assert_eq!(lex("int;"), vec![kw("int"), punct(";")]);
    assert_eq!(lex("void(x)"), vec![kw("void"), punct("("), ident("x"), punct(")")]);
}

#[test]
fn number_then_word() {
    assert_eq!(lex("123int"), vec![num("123"), kw("int")]);
    assert_eq!(lex("007"), vec![num("007")]);
}

#[test]
fn operators_take_the_longest_symbol() {
    assert_eq!(lex(">="), vec![op(">=")]);
    assert_eq!(lex("<="), vec![op("<=")]);
    assert_eq!(lex("!="), vec![op("!=")]);
    assert_eq!(lex("&&"), vec![op("&&")]);
    assert_eq!(lex("||"), vec![op("||")]);
    assert_eq!(lex("&&&"), vec![op("&&"), op("&")]);
    assert_eq!(lex("a+-b"), vec![ident("a"), op("+"), op("-"), ident("b")]);
}

#[test]
fn star_and_ampersand_are_operators() {
    assert_eq!(lex("*p"), vec![op("*"), ident("p")]);
    assert_eq!(lex("&x"), vec![op("&"), ident("x")]);
    assert_eq!(
        lex("int* ptr;"),
        vec![kw("int"), op("*"), ws(" "), ident("ptr"), punct(";")]
    );
}

#[test]
fn punctuation_and_brackets() {
    assert_eq!(
        lex("(){};,[]"),
        vec![
            punct("("),
            punct(")"),
            punct("{"),
            punct("}"),
            punct(";"),
            punct(","),
            punct("["),
            punct("]"),
        ]
    );
}

#[test]
fn string_literals_with_escapes() {
    assert_eq!(
        lex("\"Hello\" \"World\""),
        vec![
            Token::StringLiteral("\"Hello\"".to_string()),
            ws(" "),
            Token::StringLiteral("\"World\"".to_string()),
        ]
    );
    assert_eq!(
        lex(r#""a\"b""#),
        vec![Token::StringLiteral(r#""a\"b""#.to_string())]
    );
    assert_eq!(lex(r#""\\""#), vec![Token::StringLiteral(r#""\\""#.to_string())]);
    assert_eq!(lex("\"\""), vec![Token::StringLiteral("\"\"".to_string())]);
}

#[test]
fn unterminated_string_fails_at_the_quote() {
    assert_eq!(lex_c_code("x = \"abc"), Err(LexError::UnrecognizedInput { position: 4 }));
    assert_eq!(lex_c_code(r#""abc\""#), Err(LexError::UnrecognizedInput { position: 0 }));
}

#[test]
fn tokens_join_back_to_the_input() {
    let input = "int main() {\n    // This is a comment\n    int arr[10];\n    arr[5] = 100;\n    int* ptr;\n    int x = 10;\n    ptr = &x;\n    return arr[5] + *ptr;\n}";
    let tokens = lex(input);
    let joined: String = tokens.iter().map(|t| t.text().clone()).collect();
    assert_eq!(joined, input);
    assert!(tokens.iter().any(|t| t.kind() == TokenKind::Comment));
}

#[test]
fn tokenizing_twice_gives_the_same_tokens() {
    let input = "while (i <= 10) { s = s + i; } // loop";
    assert_eq!(lex_c_code(input), lex_c_code(input));
    assert_eq!(lex_c_code("a @"), lex_c_code("a @"));
}

#[test]
fn token_new_and_accessors_agree() {
    let t = Token::new(TokenKind::Number, "42".to_string());
    assert_eq!(t, num("42"));
    assert_eq!(t.kind(), TokenKind::Number);
    assert_eq!(t.text(), "42");
}
