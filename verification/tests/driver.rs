use rlox::parse_args;
use rlox::vm::interpret;
use rlox::vm::compiler::compile;
use rlox::vm::scanner::token::LocationInfo;
use rlox::vm::scanner::token::Token;
use rlox::vm::scanner::token::TokenType;
use rlox::vm::InterpreterResult;

#[test]
fn parse_args_with_script_path() {
    let args = vec!["rlox".to_string(), "path/to/lox/script".to_string()];
    let config = parse_args(args).unwrap();
    assert_eq!(config.path(), "path/to/lox/script");
}

#[test]
fn parse_args_without_script_path() {
    let args = vec!["rlox".to_string()];
    let config = parse_args(args).unwrap();
    assert_eq!(config.path(), "");
}

#[test]
fn parse_args_rejects_extra_arguments() {
    let args = vec![
        "rlox".to_string(),
        "path/to/lox/script".to_string(),
        "extra".to_string(),
    ];
    assert!(parse_args(args).is_err());
}

#[test]
fn interpret_accepts_a_clean_scan() {
    assert_eq!(
        interpret("print 1 + 2;"),
        InterpreterResult::InterpreterOk
    );
}

#[test]
fn interpret_rejects_a_lexical_error() {
    assert_eq!(
        interpret("var s = \"unclosed;"),
        InterpreterResult::InterpreterCompileError
    );
}

#[test]
fn compile_names_the_script_function() {
    let function = compile("var a = nil;").unwrap();
    assert_eq!(function.name(), "script");
}

#[test]
fn compile_stops_on_invalid_character() {
    assert!(compile("print #;").is_none());
}

#[test]
fn compile_stops_on_unterminated_block_comment() {
    assert!(compile("1 /* never closed").is_none());
}

#[test]
fn token_new_keeps_its_parts() {
    let t = Token::new(TokenType::Number, "42", LocationInfo::new(3, 7));
    assert_eq!(t.token_type, TokenType::Number);
    assert_eq!(t.lexeme, "42");
    assert_eq!(t.location.line, 3);
    assert_eq!(t.location.column, 7);
    assert_eq!(t.message, "");
}

#[test]
fn location_new_keeps_its_parts() {
    let l = LocationInfo::new(2, 9);
    assert_eq!((l.line, l.column), (2, 9));
}
