use rlox::vm::scanner::token::TokenType;
use rlox::vm::scanner::Scanner;

/// Collects the whole token stream as (kind, lexeme, line, column, message).
fn scan_all(source: &str) -> Vec<(TokenType, String, u32, u32, String)> {
    let mut scanner = Scanner::new(source);
    let mut out = Vec::new();
    while let Some(t) = scanner.next() {
        out.push((
            t.token_type,
            t.lexeme.to_string(),
            t.location.line,
            t.location.column,
            t.message.to_string(),
        ));
    }
    out
}

#[test]
fn empty_source_yields_no_tokens() {
    let mut scanner = Scanner::new("");
    assert!(scanner.next().is_none());
}

#[test]
fn whitespace_only_yields_no_tokens() {
    assert_eq!(scan_all(" \t\r\n  "), vec![]);
}

#[test]
fn scanning_twice_is_deterministic() {
    let source = "var x = 10; // note\nprint x + 2.5;";
    assert_eq!(scan_all(source), scan_all(source));
}

#[test]
fn maximal_munch_minus_minus() {
    let toks = scan_all("--");
    assert_eq!(toks.len(), 1);
    assert_eq!(toks[0].0, TokenType::MinusMinus);
    assert_eq!(toks[0].1, "--");
}

#[test]
fn maximal_munch_minus_equal() {
    let toks = scan_all("-=");
    assert_eq!(toks.len(), 1);
    assert_eq!(toks[0].0, TokenType::MinusEqual);
}

#[test]
fn space_separated_minus_then_equal() {
    let toks = scan_all("- =");
    assert_eq!(toks.len(), 2);
    assert_eq!(toks[0].0, TokenType::Minus);
    assert_eq!(toks[1].0, TokenType::Equal);
    assert_eq!(toks[1].3, 3);
}

#[test]
fn all_two_character_operators() {
    let source = "++ += ** *= /= %= != == <= >=";
    let kinds: Vec<TokenType> = scan_all(source).into_iter().map(|t| t.0).collect();
    assert_eq!(
        kinds,
        vec![
            TokenType::PlusPlus,
            TokenType::PlusEqual,
            TokenType::StarStar,
            TokenType::StarEqual,
            TokenType::SlashEqual,
            TokenType::PercentEqual,
            TokenType::BangEqual,
            TokenType::EqualEqual,
            TokenType::LessEqual,
            TokenType::GreaterEqual,
        ]
    );
}

#[test]
fn all_one_character_operators() {
    let source = "- + * / % ! = < >";
    let kinds: Vec<TokenType> = scan_all(source).into_iter().map(|t| t.0).collect();
    assert_eq!(
        kinds,
        vec![
            TokenType::Minus,
            TokenType::Plus,
            TokenType::Star,
            TokenType::Slash,
            TokenType::Percent,
            TokenType::Bang,
            TokenType::Equal,
            TokenType::Less,
            TokenType::Greater,
        ]
    );
}

#[test]
fn punctuation_tokens() {
    let kinds: Vec<TokenType> = scan_all("(){},.;").into_iter().map(|t| t.0).collect();
    assert_eq!(
        kinds,
        vec![
            TokenType::LeftParen,
            TokenType::RightParen,
            TokenType::LeftBrace,
            TokenType::RightBrace,
            TokenType::Comma,
            TokenType::Dot,
            TokenType::Semicolon,
        ]
    );
}

#[test]
fn keyword_prefix_is_identifier() {
    let toks = scan_all("classy");
    assert_eq!(toks.len(), 1);
    assert_eq!(toks[0].0, TokenType::Identifier);
    assert_eq!(toks[0].1, "classy");
}

#[test]
fn keyword_class_is_reserved() {
    let toks = scan_all("class");
    assert_eq!(toks.len(), 1);
    assert_eq!(toks[0].0, TokenType::Class);
}

#[test]
fn every_reserved_word_resolves() {
    let source = "and class else false fun for if nil or xor print return super this true var while";
    let kinds: Vec<TokenType> = scan_all(source).into_iter().map(|t| t.0).collect();
    assert_eq!(
        kinds,
        vec![
            TokenType::And,
            TokenType::Class,
            TokenType::Else,
            TokenType::False,
            TokenType::Fun,
            TokenType::For,
            TokenType::If,
            TokenType::Nil,
            TokenType::Or,
            TokenType::Xor,
            TokenType::Print,
            TokenType::Return,
            TokenType::Super,
            TokenType::This,
            TokenType::True,
            TokenType::Var,
            TokenType::While,
        ]
    );
}

#[test]
fn identifier_with_underscore_and_digits() {
    let toks = scan_all("_tmp_2");
    assert_eq!(toks.len(), 1);
    assert_eq!(toks[0].0, TokenType::Identifier);
    assert_eq!(toks[0].1, "_tmp_2");
}

#[test]
fn string_literal_keeps_quotes_in_lexeme() {
    let toks = scan_all("\"abc\"");
    assert_eq!(toks.len(), 1);
    assert_eq!(toks[0].0, TokenType::String);
    assert_eq!(toks[0].1, "\"abc\"");
}

#[test]
fn unterminated_string_is_error() {
    let toks = scan_all("\"abc");
    assert_eq!(toks.len(), 1);
    assert_eq!(toks[0].0, TokenType::Error);
    assert_eq!(toks[0].4, "unterminated string");
}

#[test]
fn string_with_newline_tracks_lines() {
    let toks = scan_all("\"a\nb\" c");
    assert_eq!(toks.len(), 2);
    assert_eq!(toks[0].0, TokenType::String);
    assert_eq!((toks[0].2, toks[0].3), (1, 1));
    assert_eq!(toks[1].0, TokenType::Identifier);
    assert_eq!((toks[1].2, toks[1].3), (2, 4));
}

#[test]
fn number_with_trailing_dot_is_error() {
    let toks = scan_all("1.");
    assert_eq!(toks[0].0, TokenType::Error);
    assert_eq!(toks[0].1, "1");
    assert_eq!(toks[0].4, "invalid number with trailing '.'");
    assert_eq!(toks[1].0, TokenType::Dot);
}

#[test]
fn decimal_number_scans_whole() {
    let toks = scan_all("1.5");
    assert_eq!(toks.len(), 1);
    assert_eq!(toks[0].0, TokenType::Number);
    assert_eq!(toks[0].1, "1.5");
}

#[test]
fn second_dot_ends_the_number() {
    let toks = scan_all("1.2.3");
    assert_eq!(toks.len(), 3);
    assert_eq!((toks[0].0, toks[0].1.as_str()), (TokenType::Number, "1.2"));
    assert_eq!(toks[1].0, TokenType::Dot);
    assert_eq!((toks[2].0, toks[2].1.as_str()), (TokenType::Number, "3"));
}

#[test]
fn line_comment_is_skipped() {
    let toks = scan_all("// hi\n123");
    assert_eq!(toks.len(), 1);
    assert_eq!(toks[0].0, TokenType::Number);
    assert_eq!(toks[0].1, "123");
    assert_eq!(toks[0].2, 2);
}

#[test]
fn block_comment_advances_lines() {
    let toks = scan_all("/* a\nb */123");
    assert_eq!(toks.len(), 1);
    assert_eq!(toks[0].0, TokenType::Number);
    assert_eq!(toks[0].1, "123");
    assert_eq!((toks[0].2, toks[0].3), (2, 5));
}

#[test]
fn block_comments_do_not_nest() {
    // the first */ closes the comment even after an inner /*
    let toks = scan_all("/* a /* b */ 1");
    assert_eq!(toks.len(), 1);
    assert_eq!((toks[0].0, toks[0].1.as_str()), (TokenType::Number, "1"));
}

#[test]
fn unterminated_block_comment_is_error() {
    let toks = scan_all("1 /* abc");
    assert_eq!(toks.len(), 2);
    assert_eq!(toks[0].0, TokenType::Number);
    assert_eq!(toks[1].0, TokenType::Error);
    assert_eq!(toks[1].1, "/* abc");
    assert_eq!(toks[1].4, "Unterminated block comment");
    assert_eq!((toks[1].2, toks[1].3), (1, 3));
}

#[test]
fn invalid_character_is_error() {
    let toks = scan_all("@");
    assert_eq!(toks.len(), 1);
    assert_eq!(toks[0].0, TokenType::Error);
    assert_eq!(toks[0].1, "@");
    assert_eq!(toks[0].4, "invalid character");
}

#[test]
fn scanner_survives_an_error_token() {
    // error policy: the scanner stays callable; stopping is the caller's choice
    let toks = scan_all("@ 7");
    assert_eq!(toks.len(), 2);
    assert_eq!(toks[0].0, TokenType::Error);
    assert_eq!((toks[1].0, toks[1].1.as_str()), (TokenType::Number, "7"));
}

#[test]
fn positions_never_move_backward() {
    let source = "var a = 1;\n// gap\nwhile (a < 10) { a += 1; }\n\"s\" 2.5";
    let toks = scan_all(source);
    assert!(toks.len() > 5);
    for w in toks.windows(2) {
        let earlier = (w[0].2, w[0].3);
        let later = (w[1].2, w[1].3);
        assert!(earlier <= later);
    }
}

#[test]
fn lexemes_and_gaps_reassemble_the_source() {
    // round trip on a single-line source: the skipped spans are exactly the
    // gaps between the columns the tokens report
    let source = "var  x=1.5 ; ";
    let toks = scan_all(source);
    let mut rebuilt = String::new();
    for t in &toks {
        let col = (t.3 - 1) as usize;
        while rebuilt.len() < col {
            rebuilt.push(' ');
        }
        rebuilt.push_str(&t.1);
    }
    while rebuilt.len() < source.len() {
        rebuilt.push(' ');
    }
    assert_eq!(rebuilt, source);
}

#[test]
fn leading_whitespace_sets_column() {
    let toks = scan_all("  42  ");
    assert_eq!(toks.len(), 1);
    assert_eq!((toks[0].0, toks[0].1.as_str()), (TokenType::Number, "42"));
    assert_eq!((toks[0].2, toks[0].3), (1, 3));
}

#[test]
fn slash_alone_is_division() {
    let toks = scan_all("a / b");
    assert_eq!(toks[1].0, TokenType::Slash);
}
