use rlox::{Lexer, LexerError, LexerErrorKind, Position, Token, TokenKind};

fn lex(source: &str) -> (Vec<Token>, Vec<LexerError>) {
    let mut lexer = Lexer::new(source.to_string());
    lexer.lex()
}

fn kinds(tokens: &[Token]) -> Vec<TokenKind> {
    tokens.iter().map(|token| token.kind()).collect()
}

fn lexemes(tokens: &[Token]) -> Vec<Option<String>> {
    tokens
        .iter()
        .map(|token| token.lexeme().map(|text| text.to_string()))
        .collect()
}

fn places(tokens: &[Token]) -> Vec<(usize, usize)> {
    tokens.iter().map(|token| (token.pos().0, token.pos().1)).collect()
}

fn text(lexeme: &str) -> Option<String> {
    Some(lexeme.to_string())
}

#[test]
fn empty_text_gives_only_the_marker() {
    let (tokens, errors) = lex("");
    assert_eq!(tokens.len(), 1);
    assert_eq!(tokens[0].kind(), TokenKind::EndOfFile);
    assert_eq!(tokens[0].lexeme(), None);
    assert_eq!(tokens[0].pos(), Position(0, 0));
    assert!(errors.is_empty());
}

#[test]
fn marker_is_last_and_alone_without_lexeme() {
    let (tokens, errors) = lex("var x = 1;\nprint x; @ \"open");
    assert_eq!(errors.len(), 2);
    let last = tokens.len() - 1;
    for (i, token) in tokens.iter().enumerate() {
        assert_eq!(token.kind() == TokenKind::EndOfFile, i == last);
        assert_eq!(token.lexeme().is_none(), i == last);
    }
    assert_eq!(tokens[last].pos(), Position(27, 1));
}

#[test]
fn blank_text_gives_only_the_marker() {
    let (tokens, errors) = lex("  \t\r\n // a comment\n//another // one\n\n   //");
    assert_eq!(kinds(&tokens), vec![TokenKind::EndOfFile]);
    assert_eq!(places(&tokens), vec![(42, 4)]);
    assert!(errors.is_empty());
}

#[test]
fn comment_runs_to_the_end_of_the_line() {
    let (tokens, errors) = lex("+ // - * \n-");
    assert_eq!(
        kinds(&tokens),
        vec![TokenKind::Plus, TokenKind::Minus, TokenKind::EndOfFile]
    );
    assert_eq!(places(&tokens), vec![(0, 0), (10, 1), (11, 1)]);
    assert!(errors.is_empty());
}

#[test]
fn single_slash_is_a_token() {
    let (tokens, errors) = lex("a / b /");
    assert_eq!(
        kinds(&tokens),
        vec![
            TokenKind::Identifier,
            TokenKind::ForwardSlash,
            TokenKind::Identifier,
            TokenKind::ForwardSlash,
            TokenKind::EndOfFile
        ]
    );
    assert_eq!(
        lexemes(&tokens),
        vec![text("a"), text("/"), text("b"), text("/"), None]
    );
    assert!(errors.is_empty());
}

#[test]
fn bang_equal_is_one_token() {
    let (tokens, errors) = lex("!=");
    assert_eq!(kinds(&tokens), vec![TokenKind::BangEqual, TokenKind::EndOfFile]);
    assert_eq!(lexemes(&tokens), vec![text("!="), None]);
    assert_eq!(places(&tokens), vec![(0, 0), (2, 0)]);
    assert!(errors.is_empty());
}

#[test]
fn operators_take_a_following_equal_sign() {
    let (tokens, errors) = lex("! != = == < <= > >= ===");
    assert_eq!(
        kinds(&tokens),
        vec![
            TokenKind::Bang,
            TokenKind::BangEqual,
            TokenKind::Equal,
            TokenKind::EqualEqual,
            TokenKind::Less,
            TokenKind::LessEqual,
            TokenKind::Greater,
            TokenKind::GreaterEqual,
            TokenKind::EqualEqual,
            TokenKind::Equal,
            TokenKind::EndOfFile
        ]
    );
    assert_eq!(
        lexemes(&tokens),
        vec![
            text("!"),
            text("!="),
            text("="),
            text("=="),
            text("<"),
            text("<="),
            text(">"),
            text(">="),
            text("=="),
            text("="),
            None
        ]
    );
    assert_eq!(tokens[9].pos(), Position(22, 0));
    assert!(errors.is_empty());
}

#[test]
fn punctuation_gives_one_token_each() {
    let (tokens, errors) = lex("(){},.-+;*");
    assert_eq!(
        kinds(&tokens),
        vec![
            TokenKind::LeftParen,
            TokenKind::RightParen,
            TokenKind::LeftBrace,
            TokenKind::RightBrace,
            TokenKind::Comma,
            TokenKind::Dot,
            TokenKind::Minus,
            TokenKind::Plus,
            TokenKind::Semicolon,
            TokenKind::Star,
            TokenKind::EndOfFile
        ]
    );
    for (i, token) in tokens.iter().enumerate() {
        assert_eq!(token.pos(), Position(i, 0));
    }
    assert_eq!(tokens[3].lexeme(), Some("}"));
    assert!(errors.is_empty());
}

#[test]
fn lines_are_counted_from_zero() {
    let (tokens, errors) = lex("1\n2\n3");
    assert_eq!(
        kinds(&tokens),
        vec![
            TokenKind::Number,
            TokenKind::Number,
            TokenKind::Number,
            TokenKind::EndOfFile
        ]
    );
    assert_eq!(lexemes(&tokens), vec![text("1"), text("2"), text("3"), None]);
    assert_eq!(places(&tokens), vec![(0, 0), (2, 1), (4, 2), (5, 2)]);
    assert!(errors.is_empty());
}

#[test]
fn string_lexeme_is_the_text_between_the_quotes() {
    let (tokens, errors) = lex("\"hello world\"");
    assert_eq!(kinds(&tokens), vec![TokenKind::String, TokenKind::EndOfFile]);
    assert_eq!(tokens[0].lexeme(), Some("hello world"));
    assert_eq!(places(&tokens), vec![(1, 0), (13, 0)]);
    assert!(errors.is_empty());
}

#[test]
fn string_keeps_backslashes_and_may_be_empty() {
    let (tokens, errors) = lex("\"a\\n\" \"\" \"\\\"");
    assert_eq!(
        kinds(&tokens),
        vec![
            TokenKind::String,
            TokenKind::String,
            TokenKind::String,
            TokenKind::EndOfFile
        ]
    );
    assert_eq!(lexemes(&tokens), vec![text("a\\n"), text(""), text("\\"), None]);
    assert_eq!(places(&tokens), vec![(1, 0), (7, 0), (10, 0), (12, 0)]);
    assert!(errors.is_empty());
}

#[test]
fn string_over_several_lines_starts_on_its_first_line() {
    let (tokens, errors) = lex("\"a\nb\n\" x");
    assert_eq!(
        kinds(&tokens),
        vec![TokenKind::String, TokenKind::Identifier, TokenKind::EndOfFile]
    );
    assert_eq!(lexemes(&tokens), vec![text("a\nb\n"), text("x"), None]);
    assert_eq!(places(&tokens), vec![(1, 0), (7, 2), (8, 2)]);
    assert!(errors.is_empty());
}

#[test]
fn unterminated_string_gives_one_error_and_no_token() {
    let (tokens, errors) = lex("\"abc");
    assert_eq!(kinds(&tokens), vec![TokenKind::EndOfFile]);
    assert_eq!(places(&tokens), vec![(4, 0)]);
    assert_eq!(
        errors,
        vec![LexerError {
            kind: LexerErrorKind::UnterminatedString,
            pos: Position(0, 0)
        }]
    );
}

#[test]
fn unterminated_string_counts_its_lines() {
    let (tokens, errors) = lex("x\n \"abc\n\n");
    assert_eq!(kinds(&tokens), vec![TokenKind::Identifier, TokenKind::EndOfFile]);
    assert_eq!(places(&tokens), vec![(0, 0), (9, 3)]);
    assert_eq!(
        errors,
        vec![LexerError {
            kind: LexerErrorKind::UnterminatedString,
            pos: Position(3, 1)
        }]
    );
}

#[test]
fn keyword_is_matched_on_the_whole_word() {
    let (tokens, errors) = lex("classroom");
    assert_eq!(kinds(&tokens), vec![TokenKind::Identifier, TokenKind::EndOfFile]);
    assert_eq!(tokens[0].lexeme(), Some("classroom"));
    assert_eq!(places(&tokens), vec![(0, 0), (9, 0)]);
    assert!(errors.is_empty());
}

#[test]
fn every_keyword_has_its_kind() {
    let (tokens, errors) = lex(
        "and class else false for fun if nil or print return super this true var while",
    );
    assert_eq!(
        kinds(&tokens),
        vec![
            TokenKind::And,
            TokenKind::Class,
            TokenKind::Else,
            TokenKind::False,
            TokenKind::For,
            TokenKind::Fun,
            TokenKind::If,
            TokenKind::Nil,
            TokenKind::Or,
            TokenKind::Print,
            TokenKind::Return,
            TokenKind::Super,
            TokenKind::This,
            TokenKind::True,
            TokenKind::Var,
            TokenKind::While,
            TokenKind::EndOfFile
        ]
    );
    assert_eq!(tokens[9].lexeme(), Some("print"));
    assert_eq!(tokens[9].pos(), Position(39, 0));
    assert!(errors.is_empty());
}

#[test]
fn keywords_are_lower_case_only() {
    let (tokens, errors) = lex("Class WHILE nil1 fo orr");
    assert_eq!(
        kinds(&tokens),
        vec![
            TokenKind::Identifier,
            TokenKind::Identifier,
            TokenKind::Identifier,
            TokenKind::Identifier,
            TokenKind::Identifier,
            TokenKind::EndOfFile
        ]
    );
    assert_eq!(
        lexemes(&tokens),
        vec![
            text("Class"),
            text("WHILE"),
            text("nil1"),
            text("fo"),
            text("orr"),
            None
        ]
    );
    assert!(errors.is_empty());
}

#[test]
fn underscore_starts_a_name_and_does_not_continue_one() {
    let (tokens, errors) = lex("foo_bar _x1 _");
    assert_eq!(
        lexemes(&tokens),
        vec![text("foo"), text("_bar"), text("_x1"), text("_"), None]
    );
    assert_eq!(
        kinds(&tokens),
        vec![
            TokenKind::Identifier,
            TokenKind::Identifier,
            TokenKind::Identifier,
            TokenKind::Identifier,
            TokenKind::EndOfFile
        ]
    );
    assert_eq!(places(&tokens), vec![(0, 0), (3, 0), (8, 0), (12, 0), (13, 0)]);
    assert!(errors.is_empty());
}

#[test]
fn letters_outside_ascii_continue_a_name_and_start_none() {
    let (tokens, errors) = lex("a\u{e9}b \u{e9}+");
    assert_eq!(lexemes(&tokens), vec![text("a\u{e9}b"), text("+"), None]);
    assert_eq!(
        kinds(&tokens),
        vec![TokenKind::Identifier, TokenKind::Plus, TokenKind::EndOfFile]
    );
    assert_eq!(places(&tokens), vec![(0, 0), (5, 0), (6, 0)]);
    assert_eq!(
        errors,
        vec![LexerError {
            kind: LexerErrorKind::UnrecognizedCharacter,
            pos: Position(4, 0)
        }]
    );
}

#[test]
fn digits_outside_ascii_continue_a_name_and_start_no_number() {
    let (tokens, errors) = lex("x\u{663}1 \u{663}");
    assert_eq!(lexemes(&tokens), vec![text("x\u{663}1"), None]);
    assert_eq!(kinds(&tokens), vec![TokenKind::Identifier, TokenKind::EndOfFile]);
    assert_eq!(places(&tokens), vec![(0, 0), (5, 0)]);
    assert_eq!(
        errors,
        vec![LexerError {
            kind: LexerErrorKind::UnrecognizedCharacter,
            pos: Position(4, 0)
        }]
    );
}

#[test]
fn symbols_outside_ascii_end_a_name() {
    let (tokens, errors) = lex("a\u{20ac}b\u{2192}");
    assert_eq!(lexemes(&tokens), vec![text("a"), text("b"), None]);
    assert_eq!(places(&tokens), vec![(0, 0), (2, 0), (4, 0)]);
    assert_eq!(
        errors,
        vec![
            LexerError {
                kind: LexerErrorKind::UnrecognizedCharacter,
                pos: Position(1, 0)
            },
            LexerError {
                kind: LexerErrorKind::UnrecognizedCharacter,
                pos: Position(3, 0)
            }
        ]
    );
}

#[test]
fn keyword_with_a_letter_outside_ascii_after_it_is_a_name() {
    let (tokens, errors) = lex("class\u{e9} nil\u{df}");
    assert_eq!(
        kinds(&tokens),
        vec![TokenKind::Identifier, TokenKind::Identifier, TokenKind::EndOfFile]
    );
    assert_eq!(
        lexemes(&tokens),
        vec![text("class\u{e9}"), text("nil\u{df}"), None]
    );
    assert_eq!(places(&tokens), vec![(0, 0), (7, 0), (11, 0)]);
    assert!(errors.is_empty());
}

#[test]
fn digits_of_a_number_are_ascii_only() {
    let (tokens, errors) = lex("1\u{663}");
    assert_eq!(lexemes(&tokens), vec![text("1"), None]);
    assert_eq!(kinds(&tokens), vec![TokenKind::Number, TokenKind::EndOfFile]);
    assert_eq!(
        errors,
        vec![LexerError {
            kind: LexerErrorKind::UnrecognizedCharacter,
            pos: Position(1, 0)
        }]
    );
}

#[test]
fn number_with_fraction_is_one_token() {
    let (tokens, errors) = lex("3.14");
    assert_eq!(kinds(&tokens), vec![TokenKind::Number, TokenKind::EndOfFile]);
    assert_eq!(tokens[0].lexeme(), Some("3.14"));
    assert_eq!(places(&tokens), vec![(0, 0), (4, 0)]);
    assert!(errors.is_empty());
}

#[test]
fn dot_that_ends_the_text_is_no_part_of_a_number() {
    let (tokens, errors) = lex("3.");
    assert_eq!(
        kinds(&tokens),
        vec![TokenKind::Number, TokenKind::Dot, TokenKind::EndOfFile]
    );
    assert_eq!(lexemes(&tokens), vec![text("3"), text("."), None]);
    assert_eq!(places(&tokens), vec![(0, 0), (1, 0), (2, 0)]);
    assert!(errors.is_empty());
}

#[test]
fn dot_with_a_character_after_it_belongs_to_the_number() {
    let (tokens, errors) = lex("3.x 12.5.7 4. ");
    assert_eq!(
        lexemes(&tokens),
        vec![
            text("3."),
            text("x"),
            text("12.5"),
            text("."),
            text("7"),
            text("4."),
            None
        ]
    );
    assert_eq!(
        kinds(&tokens),
        vec![
            TokenKind::Number,
            TokenKind::Identifier,
            TokenKind::Number,
            TokenKind::Dot,
            TokenKind::Number,
            TokenKind::Number,
            TokenKind::EndOfFile
        ]
    );
    assert!(errors.is_empty());
}

#[test]
fn minus_is_no_part_of_a_number() {
    let (tokens, errors) = lex("-12");
    assert_eq!(
        kinds(&tokens),
        vec![TokenKind::Minus, TokenKind::Number, TokenKind::EndOfFile]
    );
    assert_eq!(lexemes(&tokens), vec![text("-"), text("12"), None]);
    assert!(errors.is_empty());
}

#[test]
fn digits_then_letters_are_two_tokens() {
    let (tokens, errors) = lex("12ab");
    assert_eq!(
        kinds(&tokens),
        vec![TokenKind::Number, TokenKind::Identifier, TokenKind::EndOfFile]
    );
    assert_eq!(lexemes(&tokens), vec![text("12"), text("ab"), None]);
    assert!(errors.is_empty());
}

#[test]
fn unrecognized_character_is_reported_and_passed_over() {
    let (tokens, errors) = lex("a\n@ b #");
    assert_eq!(
        kinds(&tokens),
        vec![TokenKind::Identifier, TokenKind::Identifier, TokenKind::EndOfFile]
    );
    assert_eq!(places(&tokens), vec![(0, 0), (4, 1), (7, 1)]);
    assert_eq!(
        errors,
        vec![
            LexerError {
                kind: LexerErrorKind::UnrecognizedCharacter,
                pos: Position(2, 1)
            },
            LexerError {
                kind: LexerErrorKind::UnrecognizedCharacter,
                pos: Position(6, 1)
            }
        ]
    );
}

#[test]
fn small_program_is_scanned_in_order() {
    let (tokens, errors) = lex("fun add(a, b) {\n  return a + b; // sum\n}\n");
    assert_eq!(
        lexemes(&tokens),
        vec![
            text("fun"),
            text("add"),
            text("("),
            text("a"),
            text(","),
            text("b"),
            text(")"),
            text("{"),
            text("return"),
            text("a"),
            text("+"),
            text("b"),
            text(";"),
            text("}"),
            None
        ]
    );
    assert_eq!(tokens[0].kind(), TokenKind::Fun);
    assert_eq!(tokens[8].kind(), TokenKind::Return);
    assert_eq!(tokens[8].pos(), Position(18, 1));
    assert_eq!(tokens[13].pos(), Position(39, 2));
    assert_eq!(tokens[14].pos(), Position(41, 3));
    assert!(errors.is_empty());
}

#[test]
fn each_lexeme_is_the_source_at_its_place() {
    let source = "var s = \"two\nlines\"; if (s != nil) print 1.5 / 2;";
    let characters: Vec<char> = source.chars().collect();
    let (tokens, errors) = lex(source);
    assert!(errors.is_empty());
    let mut end = 0;
    for token in &tokens[..tokens.len() - 1] {
        let lexeme: Vec<char> = token.lexeme().unwrap().chars().collect();
        let from = token.pos().0;
        assert!(end <= from);
        assert_eq!(&characters[from..from + lexeme.len()], &lexeme[..]);
        end = from + lexeme.len();
    }
    assert_eq!(tokens[tokens.len() - 1].pos().0, characters.len());
}

#[test]
fn second_scan_gives_only_the_marker() {
    let mut lexer = Lexer::new("a + b".to_string());
    let (first, _) = lexer.lex();
    assert_eq!(first.len(), 4);
    let (second, errors) = lexer.lex();
    assert_eq!(kinds(&second), vec![TokenKind::EndOfFile]);
    assert_eq!(places(&second), vec![(5, 0)]);
    assert!(errors.is_empty());
}

#[test]
fn token_holds_what_it_was_made_of() {
    let token = Token::new(TokenKind::Identifier, Some("name".to_string()), Position(3, 1));
    assert_eq!(token.kind(), TokenKind::Identifier);
    assert_eq!(token.lexeme(), Some("name"));
    assert_eq!(token.pos(), Position(3, 1));
    let marker = Token::new(TokenKind::EndOfFile, None, Position(0, 0));
    assert_eq!(marker.lexeme(), None);
}

#[test]
fn error_message_is_the_same_for_both_kinds() {
    let unknown = LexerError {
        kind: LexerErrorKind::UnrecognizedCharacter,
        pos: Position(0, 0),
    };
    let open = LexerError {
        kind: LexerErrorKind::UnterminatedString,
        pos: Position(4, 2),
    };
    assert_eq!(unknown.message(), "lexical analysis error");
    assert_eq!(open.message(), "lexical analysis error");
}
