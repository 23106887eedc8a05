use rlox::lox::Lox;
use rlox::scanner::Scanner;
use rlox::token::{Token, TokenLiteral, TokenType};

fn scan_all(text: &str) -> (Vec<Token>, Lox) {
    let mut lox = Lox::new();
    let tokens = lox.run(&text.to_string());
    (tokens, lox)
}

fn types(tokens: &[Token]) -> Vec<TokenType> {
    tokens.iter().map(|t| t.token_type).collect()
}

fn lexemes(tokens: &[Token]) -> Vec<String> {
    tokens.iter().map(|t| t.lexeme.clone()).collect()
}

#[test]
fn empty_source_is_just_the_end_marker() {
    let (tokens, lox) = scan_all("");
    assert_eq!(tokens.len(), 1);
    assert_eq!(tokens[0].token_type, TokenType::Eof);
    assert_eq!(tokens[0].lexeme, "");
    assert_eq!(tokens[0].line, 1);
    assert!(matches!(tokens[0].literal, TokenLiteral::Absent));
    assert!(!lox.had_error);
}

#[test]
fn exactly_one_end_marker_at_the_end() {
    let (tokens, _) = scan_all("var x = (1 + 2) * 3;\nprint x;\n");
    assert_eq!(tokens.last().unwrap().token_type, TokenType::Eof);
    let ends = tokens.iter().filter(|t| t.token_type == TokenType::Eof).count();
    assert_eq!(ends, 1);
    assert_eq!(tokens.last().unwrap().line, 3);
}

#[test]
fn integer_number() {
    let (tokens, _) = scan_all("123");
    assert_eq!(types(&tokens), vec![TokenType::Number, TokenType::Eof]);
    assert_eq!(tokens[0].lexeme, "123");
    match &tokens[0].literal {
        TokenLiteral::Number(n) => assert_eq!(n, "123"),
        other => panic!("unexpected literal {:?}", other),
    }
}

#[test]
fn fractional_number() {
    let (tokens, _) = scan_all("12.5");
    assert_eq!(types(&tokens), vec![TokenType::Number, TokenType::Eof]);
    assert_eq!(tokens[0].lexeme, "12.5");
}

#[test]
fn trailing_dot_is_its_own_token() {
    let (tokens, _) = scan_all("12.");
    assert_eq!(types(&tokens), vec![TokenType::Number, TokenType::Dot, TokenType::Eof]);
    assert_eq!(lexemes(&tokens), vec!["12", ".", ""]);
}

#[test]
fn dot_then_name_after_number() {
    let (tokens, _) = scan_all("3.abs");
    assert_eq!(
        types(&tokens),
        vec![TokenType::Number, TokenType::Dot, TokenType::Identifier, TokenType::Eof]
    );
    assert_eq!(lexemes(&tokens), vec!["3", ".", "abs", ""]);
}

#[test]
fn string_spanning_a_newline() {
    let (tokens, lox) = scan_all("\"hello\nworld\"");
    assert_eq!(types(&tokens), vec![TokenType::String, TokenType::Eof]);
    match &tokens[0].literal {
        TokenLiteral::String(s) => assert_eq!(s, "hello\nworld"),
        other => panic!("unexpected literal {:?}", other),
    }
    assert_eq!(tokens[0].lexeme, "\"hello\nworld\"");
    assert_eq!(tokens[0].line, 1);
    assert_eq!(tokens[1].line, 2);
    assert!(!lox.had_error);
}

#[test]
fn unterminated_string() {
    let (tokens, lox) = scan_all("x = \"abc\ndef");
    assert_eq!(
        types(&tokens),
        vec![TokenType::Identifier, TokenType::Equal, TokenType::Eof]
    );
    assert!(tokens.iter().all(|t| t.token_type != TokenType::String));
    assert_eq!(lox.reports.len(), 1);
    assert_eq!(lox.reports[0].message, "Unterminated string.");
    assert_eq!(lox.reports[0].line, 2);
    assert!(lox.had_error);
    assert_eq!(lox.reports[0].render(), "[line 2] Error: Unterminated string.");
}

#[test]
fn keyword_and_prefix_identifier() {
    let (tokens, _) = scan_all("and classify");
    assert_eq!(
        types(&tokens),
        vec![TokenType::And, TokenType::Identifier, TokenType::Eof]
    );
    match &tokens[1].literal {
        TokenLiteral::Name(n) => assert_eq!(n, "classify"),
        other => panic!("unexpected literal {:?}", other),
    }
}

#[test]
fn all_keywords() {
    let (tokens, _) = scan_all(
        "and class else false for fun if nil or print return super this true var while",
    );
    assert_eq!(
        types(&tokens),
        vec![
            TokenType::And,
            TokenType::Class,
            TokenType::Else,
            TokenType::False,
            TokenType::For,
            TokenType::Fun,
            TokenType::If,
            TokenType::Nil,
            TokenType::Or,
            TokenType::Print,
            TokenType::Return,
            TokenType::Super,
            TokenType::This,
            TokenType::True,
            TokenType::Var,
            TokenType::While,
            TokenType::Eof,
        ]
    );
}

#[test]
fn keyword_prefixes_and_extensions_are_identifiers() {
    let (tokens, _) = scan_all("an andy _and fortune or_ whilex Var");
    assert!(tokens[..7].iter().all(|t| t.token_type == TokenType::Identifier));
    assert_eq!(tokens[7].token_type, TokenType::Eof);
}

#[test]
fn one_and_two_character_operators() {
    let (tokens, _) = scan_all("! != = == < <= > >= !==");
    assert_eq!(
        types(&tokens),
        vec![
            TokenType::Bang,
            TokenType::BangEqual,
            TokenType::Equal,
            TokenType::EqualEqual,
            TokenType::Less,
            TokenType::LessEqual,
            TokenType::Greater,
            TokenType::GreaterEqual,
            TokenType::BangEqual,
            TokenType::Equal,
            TokenType::Eof,
        ]
    );
}

#[test]
fn operator_at_end_of_input() {
    let (tokens, _) = scan_all("a <");
    assert_eq!(
        types(&tokens),
        vec![TokenType::Identifier, TokenType::Less, TokenType::Eof]
    );
}

#[test]
fn punctuation() {
    let (tokens, _) = scan_all("(){},.-+;*/");
    assert_eq!(
        types(&tokens),
        vec![
            TokenType::LeftParen,
            TokenType::RightParen,
            TokenType::LeftBrace,
            TokenType::RightBrace,
            TokenType::Comma,
            TokenType::Dot,
            TokenType::Minus,
            TokenType::Plus,
            TokenType::Semicolon,
            TokenType::Star,
            TokenType::Slash,
            TokenType::Eof,
        ]
    );
    assert!(tokens.iter().all(|t| matches!(t.literal, TokenLiteral::Absent)));
}

#[test]
fn comments_are_skipped() {
    let (tokens, _) = scan_all("a // comment ( \" 1\nb // last");
    assert_eq!(
        types(&tokens),
        vec![TokenType::Identifier, TokenType::Identifier, TokenType::Eof]
    );
    assert_eq!(tokens[1].line, 2);
    assert_eq!(tokens[2].line, 2);
}

#[test]
fn lines_count_newlines_before_token() {
    let (tokens, _) = scan_all("a\nb\r\n\n\tc");
    assert_eq!(lexemes(&tokens), vec!["a", "b", "c", ""]);
    let lines: Vec<usize> = tokens.iter().map(|t| t.line).collect();
    assert_eq!(lines, vec![1, 2, 4, 4]);
}

#[test]
fn lexemes_and_gaps_rebuild_source() {
    let source = "(a)  +b// c\n\"s\" @1";
    let (tokens, _) = scan_all(source);
    assert_eq!(lexemes(&tokens), vec!["(", "a", ")", "+", "b", "\"s\"", "1", ""]);
    let gaps = ["", "", "", "  ", "", "// c\n", " @", ""];
    let mut rebuilt = String::new();
    for (gap, token) in gaps.iter().zip(tokens.iter()) {
        rebuilt.push_str(gap);
        rebuilt.push_str(&token.lexeme);
    }
    assert_eq!(rebuilt, source);
}

#[test]
fn unexpected_character_is_reported_and_skipped() {
    let (tokens, lox) = scan_all("a\n@ b #");
    assert_eq!(
        types(&tokens),
        vec![TokenType::Identifier, TokenType::Identifier, TokenType::Eof]
    );
    assert_eq!(lox.reports.len(), 2);
    assert_eq!(lox.reports[0].line, 2);
    assert_eq!(lox.reports[0].message, "Unexpected character.");
    assert_eq!(lox.reports[0].location, "");
    assert_eq!(lox.reports[1].line, 2);
    assert!(lox.had_error);
}

#[test]
fn flag_stays_set_across_runs() {
    let mut lox = Lox::new();
    lox.run(&"$".to_string());
    assert!(lox.had_error);
    let tokens = lox.run(&"ok".to_string());
    assert_eq!(tokens.len(), 2);
    assert!(lox.had_error);
    assert_eq!(lox.reports.len(), 1);
}

#[test]
fn string_and_identifier_literals() {
    let (tokens, _) = scan_all("\"\" name_1");
    match &tokens[0].literal {
        TokenLiteral::String(s) => assert_eq!(s, ""),
        other => panic!("unexpected literal {:?}", other),
    }
    assert_eq!(tokens[0].lexeme, "\"\"");
    match &tokens[1].literal {
        TokenLiteral::Name(n) => assert_eq!(n, "name_1"),
        other => panic!("unexpected literal {:?}", other),
    }
}

#[test]
fn non_ascii_text_in_strings_and_comments() {
    let (tokens, lox) = scan_all("\"héllo\" // ünïcode\nx");
    assert_eq!(
        types(&tokens),
        vec![TokenType::String, TokenType::Identifier, TokenType::Eof]
    );
    assert_eq!(tokens[0].lexeme, "\"héllo\"");
    assert_eq!(tokens[1].line, 2);
    assert!(!lox.had_error);
}

#[test]
fn scanner_step_by_step() {
    let source = "!= x".to_string();
    let mut lox = Lox::new();
    let mut scanner = Scanner::new(&source);
    scanner.scan_token(&mut lox);
    scanner.scan_token(&mut lox);
    scanner.scan_token(&mut lox);
    let tokens = scanner.scan_tokens(&mut lox);
    assert_eq!(
        types(tokens),
        vec![TokenType::BangEqual, TokenType::Identifier, TokenType::Eof]
    );
    assert_eq!(tokens[0].lexeme, "!=");
}

#[test]
fn scan_tokens_from_fresh_scanner() {
    let source = "1 + 2".to_string();
    let mut lox = Lox::new();
    let mut scanner = Scanner::new(&source);
    let tokens = scanner.scan_tokens(&mut lox);
    assert_eq!(
        types(tokens),
        vec![TokenType::Number, TokenType::Plus, TokenType::Number, TokenType::Eof]
    );
    let owned = scanner.into_tokens();
    assert_eq!(owned.len(), 4);
}
