use token_scanner::scanner::Scanner;
use token_scanner::types::{ScanOptions, Token, TokenType};

const UNTERMINATED: &str = "String didn't terminate before end of file";
const UNRECOGNIZED: &str = "Did not recognize the token";

fn scan(source: &str) -> (Vec<Token>, Vec<(usize, String)>) {
    Scanner::new(source.to_owned()).scan_file()
}

fn tok(token_type: TokenType, lexeme: &str, line: usize) -> Token {
    Token::new(token_type, lexeme.to_owned(), line)
}

#[test]
fn check_scan_lexeme() {
    let mut s = Scanner::new("{".to_owned());
    assert_eq!(
        s.scan_lexeme(),
        ScanOptions::Token(Token::new(TokenType::LeftBrace, "{".to_owned(), 1))
    );
    assert_eq!(s.current(), 1);
}

#[test]
fn check_scan_file() {
    let mut s = Scanner::new(r#"var hello = "moonshot""#.to_owned());
    s.scan_file();
    s = Scanner::new(r#"var foo = 64"#.to_owned());
    s.scan_file();
}

#[test]
fn scan_file_reports_declaration_with_string() {
    let (tokens, errors) = scan(r#"var hello = "moonshot""#);
    assert_eq!(
        tokens,
        vec![
            tok(TokenType::Var, "var", 1),
            tok(TokenType::Identifier, "hello", 1),
            tok(TokenType::Equal, "=", 1),
            tok(TokenType::String, "moonshot", 1),
        ]
    );
    assert!(errors.is_empty());
}

#[test]
fn scan_file_reports_declaration_with_number() {
    let (tokens, errors) = scan("var foo = 64");
    assert_eq!(
        tokens,
        vec![
            tok(TokenType::Var, "var", 1),
            tok(TokenType::Identifier, "foo", 1),
            tok(TokenType::Equal, "=", 1),
            tok(TokenType::Number, "64", 1),
        ]
    );
    assert!(errors.is_empty());
}

#[test]
fn every_punctuation_character_is_one_token() {
    let cases = [
        ("(", TokenType::LeftParen),
        (")", TokenType::RightParen),
        ("{", TokenType::LeftBrace),
        ("}", TokenType::RightBrace),
        (",", TokenType::Comma),
        (".", TokenType::Dot),
        ("-", TokenType::Minus),
        ("+", TokenType::Plus),
        (";", TokenType::Semicolon),
        ("*", TokenType::Star),
        ("/", TokenType::Slash),
    ];
    for (text, token_type) in cases {
        let (tokens, errors) = scan(text);
        assert_eq!(tokens, vec![tok(token_type, text, 1)]);
        assert!(errors.is_empty());
    }
}

#[test]
fn bang_equal_is_one_token() {
    let (tokens, errors) = scan("!=");
    assert_eq!(tokens, vec![tok(TokenType::BangEqual, "!=", 1)]);
    assert!(errors.is_empty());
}

#[test]
fn bang_before_a_letter_is_its_own_token() {
    let (tokens, errors) = scan("!a");
    assert_eq!(
        tokens,
        vec![tok(TokenType::Bang, "!", 1), tok(TokenType::Identifier, "a", 1)]
    );
    assert!(errors.is_empty());
}

#[test]
fn operators_of_one_and_two_characters() {
    let (tokens, errors) = scan("= == < <= > >= ! !=");
    assert_eq!(
        tokens,
        vec![
            tok(TokenType::Equal, "=", 1),
            tok(TokenType::EqualEqual, "==", 1),
            tok(TokenType::Less, "<", 1),
            tok(TokenType::LessEqual, "<=", 1),
            tok(TokenType::Greater, ">", 1),
            tok(TokenType::GreaterEqual, ">=", 1),
            tok(TokenType::Bang, "!", 1),
            tok(TokenType::BangEqual, "!=", 1),
        ]
    );
    assert!(errors.is_empty());
}

#[test]
fn three_equal_signs_are_a_pair_and_a_single() {
    let (tokens, _) = scan("===");
    assert_eq!(
        tokens,
        vec![tok(TokenType::EqualEqual, "==", 1), tok(TokenType::Equal, "=", 1)]
    );
}

#[test]
fn operator_at_end_of_input_is_single() {
    let (tokens, errors) = scan("a<");
    assert_eq!(
        tokens,
        vec![tok(TokenType::Identifier, "a", 1), tok(TokenType::Less, "<", 1)]
    );
    assert!(errors.is_empty());
}

#[test]
fn comment_runs_to_the_end_of_the_line() {
    let mut s = Scanner::new("// comment\nx".to_owned());
    let (tokens, errors) = s.scan_file();
    assert_eq!(
        tokens,
        vec![
            tok(TokenType::Comment, "// comment", 1),
            tok(TokenType::Identifier, "x", 2),
        ]
    );
    assert!(errors.is_empty());
    assert_eq!(s.line(), 2);
}

#[test]
fn comment_without_newline_runs_to_the_end_of_input() {
    let (tokens, errors) = scan("x // tail");
    assert_eq!(
        tokens,
        vec![tok(TokenType::Identifier, "x", 1), tok(TokenType::Comment, "// tail", 1)]
    );
    assert!(errors.is_empty());
}

#[test]
fn two_slashes_alone_are_a_comment() {
    let (tokens, _) = scan("//");
    assert_eq!(tokens, vec![tok(TokenType::Comment, "//", 1)]);
}

#[test]
fn slash_before_another_character_is_a_slash() {
    let (tokens, _) = scan("a/b");
    assert_eq!(
        tokens,
        vec![
            tok(TokenType::Identifier, "a", 1),
            tok(TokenType::Slash, "/", 1),
            tok(TokenType::Identifier, "b", 1),
        ]
    );
}

#[test]
fn string_lexeme_excludes_the_quotes() {
    let mut s = Scanner::new("\"abc\"".to_owned());
    let (tokens, errors) = s.scan_file();
    assert_eq!(tokens, vec![tok(TokenType::String, "abc", 1)]);
    assert!(errors.is_empty());
    assert_eq!(s.current(), 5);
}

#[test]
fn unterminated_string_is_one_diagnostic() {
    let mut s = Scanner::new("\"abc".to_owned());
    let (tokens, errors) = s.scan_file();
    assert!(tokens.is_empty());
    assert_eq!(errors, vec![(1, UNTERMINATED.to_owned())]);
    assert_eq!(s.current(), 4);
}

#[test]
fn empty_string_literal() {
    let (tokens, errors) = scan("\"\"");
    assert_eq!(tokens, vec![tok(TokenType::String, "", 1)]);
    assert!(errors.is_empty());
}

#[test]
fn lone_quote_is_unterminated() {
    let (tokens, errors) = scan("\"");
    assert!(tokens.is_empty());
    assert_eq!(errors, vec![(1, UNTERMINATED.to_owned())]);
}

#[test]
fn string_over_several_lines_counts_them() {
    let mut s = Scanner::new("\"a\nb\nc\" x".to_owned());
    let (tokens, errors) = s.scan_file();
    assert_eq!(
        tokens,
        vec![
            tok(TokenType::String, "a\nb\nc", 3),
            tok(TokenType::Identifier, "x", 3),
        ]
    );
    assert!(errors.is_empty());
    assert_eq!(s.line(), 3);
}

#[test]
fn unterminated_string_over_several_lines() {
    let mut s = Scanner::new("x\n\"a\nb".to_owned());
    let (tokens, errors) = s.scan_file();
    assert_eq!(tokens, vec![tok(TokenType::Identifier, "x", 1)]);
    assert_eq!(errors, vec![(3, UNTERMINATED.to_owned())]);
    assert_eq!(s.line(), 3);
}

#[test]
fn token_after_a_string_is_scanned() {
    let (tokens, errors) = scan("\"a\"+\"b\"");
    assert_eq!(
        tokens,
        vec![
            tok(TokenType::String, "a", 1),
            tok(TokenType::Plus, "+", 1),
            tok(TokenType::String, "b", 1),
        ]
    );
    assert!(errors.is_empty());
}

#[test]
fn var_is_a_keyword() {
    let (tokens, errors) = scan("var");
    assert_eq!(tokens, vec![tok(TokenType::Var, "var", 1)]);
    assert!(errors.is_empty());
}

#[test]
fn variable_is_an_identifier() {
    let (tokens, errors) = scan("variable");
    assert_eq!(tokens, vec![tok(TokenType::Identifier, "variable", 1)]);
    assert!(errors.is_empty());
}

#[test]
fn every_reserved_word_has_its_type() {
    let cases = [
        ("and", TokenType::And),
        ("class", TokenType::Class),
        ("else", TokenType::Else),
        ("false", TokenType::False),
        ("fun", TokenType::Fun),
        ("for", TokenType::For),
        ("if", TokenType::If),
        ("nil", TokenType::Nil),
        ("or", TokenType::Or),
        ("print", TokenType::Print),
        ("return", TokenType::Return),
        ("super", TokenType::Super),
        ("this", TokenType::This),
        ("true", TokenType::True),
        ("var", TokenType::Var),
        ("while", TokenType::While),
    ];
    for (text, token_type) in cases {
        let (tokens, errors) = scan(text);
        assert_eq!(tokens, vec![tok(token_type, text, 1)]);
        assert!(errors.is_empty());
    }
}

#[test]
fn keywords_are_case_sensitive() {
    let (tokens, _) = scan("Var WHILE nil_");
    assert_eq!(
        tokens,
        vec![
            tok(TokenType::Identifier, "Var", 1),
            tok(TokenType::Identifier, "WHILE", 1),
            tok(TokenType::Identifier, "nil_", 1),
        ]
    );
}

#[test]
fn identifier_may_hold_digits_and_underscores() {
    let (tokens, errors) = scan("_a1_b2 __");
    assert_eq!(
        tokens,
        vec![
            tok(TokenType::Identifier, "_a1_b2", 1),
            tok(TokenType::Identifier, "__", 1),
        ]
    );
    assert!(errors.is_empty());
}

#[test]
fn digits_then_letters_are_two_tokens() {
    let (tokens, errors) = scan("123abc");
    assert_eq!(
        tokens,
        vec![tok(TokenType::Number, "123", 1), tok(TokenType::Identifier, "abc", 1)]
    );
    assert!(errors.is_empty());
}

#[test]
fn fraction_is_number_dot_number() {
    let (tokens, errors) = scan("1.5");
    assert_eq!(
        tokens,
        vec![
            tok(TokenType::Number, "1", 1),
            tok(TokenType::Dot, ".", 1),
            tok(TokenType::Number, "5", 1),
        ]
    );
    assert!(errors.is_empty());
}

#[test]
fn unrecognized_character_is_one_diagnostic() {
    let mut s = Scanner::new("@".to_owned());
    let (tokens, errors) = s.scan_file();
    assert!(tokens.is_empty());
    assert_eq!(errors, vec![(1, UNRECOGNIZED.to_owned())]);
    assert_eq!(s.current(), 1);
}

#[test]
fn scan_goes_on_after_an_unrecognized_character() {
    let (tokens, errors) = scan("a @ b\n# c");
    assert_eq!(
        tokens,
        vec![
            tok(TokenType::Identifier, "a", 1),
            tok(TokenType::Identifier, "b", 1),
            tok(TokenType::Identifier, "c", 2),
        ]
    );
    assert_eq!(
        errors,
        vec![(1, UNRECOGNIZED.to_owned()), (2, UNRECOGNIZED.to_owned())]
    );
}

#[test]
fn every_diagnostic_is_collected() {
    let (tokens, errors) = scan("@ $ \"open");
    assert!(tokens.is_empty());
    assert_eq!(
        errors,
        vec![
            (1, UNRECOGNIZED.to_owned()),
            (1, UNRECOGNIZED.to_owned()),
            (1, UNTERMINATED.to_owned()),
        ]
    );
}

#[test]
fn character_outside_ascii_is_unrecognized() {
    let mut s = Scanner::new("é1".to_owned());
    let (tokens, errors) = s.scan_file();
    assert_eq!(tokens, vec![tok(TokenType::Number, "1", 1)]);
    assert_eq!(errors, vec![(1, UNRECOGNIZED.to_owned())]);
    assert_eq!(s.current(), 2);
}

#[test]
fn string_may_hold_characters_outside_ascii() {
    let (tokens, errors) = scan("\"héllo\"");
    assert_eq!(tokens, vec![tok(TokenType::String, "héllo", 1)]);
    assert!(errors.is_empty());
}

#[test]
fn empty_source_yields_nothing() {
    let mut s = Scanner::new(String::new());
    let (tokens, errors) = s.scan_file();
    assert!(tokens.is_empty());
    assert!(errors.is_empty());
    assert_eq!(s.current(), 0);
    assert_eq!(s.line(), 1);
}

#[test]
fn blanks_yield_nothing_and_stay_on_the_line() {
    let mut s = Scanner::new(" \t\r ".to_owned());
    let (tokens, errors) = s.scan_file();
    assert!(tokens.is_empty());
    assert!(errors.is_empty());
    assert_eq!(s.current(), 4);
    assert_eq!(s.line(), 1);
}

#[test]
fn each_newline_counts_one_line() {
    let mut s = Scanner::new("a\n\nb\n".to_owned());
    let (tokens, errors) = s.scan_file();
    assert_eq!(
        tokens,
        vec![tok(TokenType::Identifier, "a", 1), tok(TokenType::Identifier, "b", 3)]
    );
    assert!(errors.is_empty());
    assert_eq!(s.line(), 4);
}

#[test]
fn newline_is_skipped_by_scan_lexeme() {
    let mut s = Scanner::new("\n;".to_owned());
    assert_eq!(s.scan_lexeme(), ScanOptions::Skip);
    assert_eq!(s.current(), 1);
    assert_eq!(s.line(), 2);
    assert_eq!(s.scan_lexeme(), ScanOptions::Token(tok(TokenType::Semicolon, ";", 2)));
    assert_eq!(s.current(), 2);
}

#[test]
fn scan_lexeme_reports_an_error_outcome() {
    let mut s = Scanner::new("@x".to_owned());
    assert_eq!(s.scan_lexeme(), ScanOptions::Error(UNRECOGNIZED.to_owned()));
    assert_eq!(s.current(), 1);
    assert_eq!(s.scan_lexeme(), ScanOptions::Token(tok(TokenType::Identifier, "x", 1)));
}

#[test]
fn cursor_only_moves_forward_and_stops_at_the_end() {
    let source = "fun f(a) { return a >= 1; } // done\n\"s\" @";
    let length = source.chars().count();
    let mut s = Scanner::new(source.to_owned());
    let mut line = s.line();
    assert_eq!(line, 1);
    while s.current() < length {
        let before = s.current();
        s.scan_lexeme();
        assert!(before < s.current());
        assert!(s.current() <= length);
        assert!(line <= s.line());
        line = s.line();
    }
    assert_eq!(s.current(), length);
    assert_eq!(s.line(), 2);
}

#[test]
fn scan_file_resumes_from_the_cursor() {
    let mut s = Scanner::new("a b".to_owned());
    assert_eq!(s.scan_lexeme(), ScanOptions::Token(tok(TokenType::Identifier, "a", 1)));
    let (tokens, errors) = s.scan_file();
    assert_eq!(tokens, vec![tok(TokenType::Identifier, "b", 1)]);
    assert!(errors.is_empty());
    assert_eq!(s.current(), 3);
}

#[test]
fn scan_file_at_the_end_yields_nothing() {
    let mut s = Scanner::new("a + b".to_owned());
    let (tokens, _) = s.scan_file();
    assert_eq!(tokens.len(), 3);
    let (again, errors) = s.scan_file();
    assert!(again.is_empty());
    assert!(errors.is_empty());
    assert_eq!(s.current(), 5);
}

#[test]
fn small_program() {
    let source = "class A {\n  fun f(x) {\n    if (x != nil and true) print \"hi\";\n  }\n}\n";
    let (tokens, errors) = scan(source);
    assert_eq!(
        tokens,
        vec![
            tok(TokenType::Class, "class", 1),
            tok(TokenType::Identifier, "A", 1),
            tok(TokenType::LeftBrace, "{", 1),
            tok(TokenType::Fun, "fun", 2),
            tok(TokenType::Identifier, "f", 2),
            tok(TokenType::LeftParen, "(", 2),
            tok(TokenType::Identifier, "x", 2),
            tok(TokenType::RightParen, ")", 2),
            tok(TokenType::LeftBrace, "{", 2),
            tok(TokenType::If, "if", 3),
            tok(TokenType::LeftParen, "(", 3),
            tok(TokenType::Identifier, "x", 3),
            tok(TokenType::BangEqual, "!=", 3),
            tok(TokenType::Nil, "nil", 3),
            tok(TokenType::And, "and", 3),
            tok(TokenType::True, "true", 3),
            tok(TokenType::RightParen, ")", 3),
            tok(TokenType::Print, "print", 3),
            tok(TokenType::String, "hi", 3),
            tok(TokenType::Semicolon, ";", 3),
            tok(TokenType::RightBrace, "}", 4),
            tok(TokenType::RightBrace, "}", 5),
        ]
    );
    assert!(errors.is_empty());
}

#[test]
fn token_equality_reads_every_field() {
    let t = Token::new(TokenType::Number, "7".to_owned(), 2);
    assert_eq!(t, Token::new(TokenType::Number, "7".to_owned(), 2));
    assert_ne!(t, Token::new(TokenType::Identifier, "7".to_owned(), 2));
    assert_ne!(t, Token::new(TokenType::Number, "8".to_owned(), 2));
    assert_ne!(t, Token::new(TokenType::Number, "7".to_owned(), 3));
    assert_eq!(t.clone(), t);
}

#[test]
fn text_becomes_one_character_per_position() {
    assert_eq!(token_scanner::text::to_chars("a\né\""), vec!['a', '\n', 'é', '"']);
    assert!(token_scanner::text::to_chars("").is_empty());
}

#[test]
fn characters_become_text_again() {
    let content = vec!['v', 'a', 'r', ' ', 'é', '1'];
    assert_eq!(token_scanner::text::to_text(&content, 0, 3), "var");
    assert_eq!(token_scanner::text::to_text(&content, 4, 6), "é1");
    assert_eq!(token_scanner::text::to_text(&content, 2, 2), "");
}

#[test]
fn digits_and_letters_are_ascii_only() {
    for c in ['0', '5', '9'] {
        assert!(token_scanner::text::is_digit(c));
        assert!(!token_scanner::text::is_letter(c));
    }
    for c in ['a', 'z', 'A', 'Z', 'm', '_'] {
        assert!(token_scanner::text::is_letter(c));
        assert!(!token_scanner::text::is_digit(c));
    }
    for c in ['/', ':', '@', '[', '`', '{', 'é', '٣', ' '] {
        assert!(!token_scanner::text::is_letter(c));
        assert!(!token_scanner::text::is_digit(c));
    }
}
