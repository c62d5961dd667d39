use trabalho_final::cfg::{InvalidNonTerminal, NonTerminal};
use trabalho_final::const_type::{is_f64_str, lower_char, parse_i64, str_debug_text, ConstType, VarType};
use trabalho_final::split::{lines_of, parse_u32, split_on, words_of};
use trabalho_final::text::{char_is_alphabetic, char_is_whitespace, str_chars, str_eq};
use trabalho_final::token::Token;
use trabalho_final::token_type::TokenType;

fn strings(v: &[&str]) -> Vec<String> {
    v.iter().map(|s| s.to_string()).collect()
}

#[test]
fn lines_follow_str_lines() {
    assert_eq!(lines_of("a\r\nb\n"), strings(&["a", "b"]));
    assert_eq!(lines_of("a\nb"), strings(&["a", "b"]));
    assert_eq!(lines_of("a\r"), strings(&["a\r"]));
    assert_eq!(lines_of(""), strings(&[]));
    assert_eq!(lines_of("\n"), strings(&[""]));
    assert_eq!(lines_of("a\n\nb"), strings(&["a", "", "b"]));
    assert_eq!(lines_of("x\r\n"), "x\r\n".lines().map(|s| s.to_string()).collect::<Vec<_>>());
}

#[test]
fn split_keeps_empty_pieces() {
    assert_eq!(split_on("a,,b", ','), strings(&["a", "", "b"]));
    assert_eq!(split_on("", ','), strings(&[""]));
    assert_eq!(split_on("a,", ','), strings(&["a", ""]));
    assert_eq!(split_on("1:id", ':'), strings(&["1", "id"]));
}

#[test]
fn words_drop_whitespace() {
    assert_eq!(words_of("  a  b\tc \n"), strings(&["a", "b", "c"]));
    assert_eq!(words_of("   "), strings(&[]));
    assert_eq!(words_of("id op_assign"), strings(&["id", "op_assign"]));
}

#[test]
fn unsigned_numbers() {
    assert_eq!(parse_u32("0"), Some(0));
    assert_eq!(parse_u32("+7"), Some(7));
    assert_eq!(parse_u32("4294967295"), Some(u32::MAX));
    assert_eq!(parse_u32("4294967296"), None);
    assert_eq!(parse_u32("-1"), None);
    assert_eq!(parse_u32("+"), None);
    assert_eq!(parse_u32(""), None);
    assert_eq!(parse_u32("1a"), None);
}

#[test]
fn signed_numbers() {
    assert_eq!(parse_i64("-9223372036854775808"), Some(i64::MIN));
    assert_eq!(parse_i64("9223372036854775807"), Some(i64::MAX));
    assert_eq!(parse_i64("9223372036854775808"), None);
    assert_eq!(parse_i64("+12"), Some(12));
    assert_eq!(parse_i64("-"), None);
}

#[test]
fn float_texts() {
    assert!(is_f64_str("3.14"));
    assert!(is_f64_str("1e5"));
    assert!(is_f64_str("-.5"));
    assert!(is_f64_str("Infinity"));
    assert!(is_f64_str("NaN"));
    assert!(!is_f64_str("1e"));
    assert!(!is_f64_str("."));
    assert!(!is_f64_str("abc"));
    for s in ["3.14", "1e5", "-.5", "inf", "1.", "1e", ".", "e5", "+", "1.2.3"] {
        assert_eq!(is_f64_str(s), s.parse::<f64>().is_ok(), "{}", s);
    }
}

#[test]
fn constants_from_token_text() {
    assert_eq!(ConstType::from_str("42"), ConstType::Int(42));
    assert_eq!(ConstType::from_str("4.5"), ConstType::Float("4.5".to_string()));
    assert_eq!(ConstType::from_str("int"), ConstType::VarType(VarType::Int));
    assert_eq!(ConstType::from_str("string"), ConstType::VarType(VarType::String));
    assert_eq!(ConstType::from_str("name"), ConstType::String("name".to_string()));
    assert_eq!(ConstType::from_str("99999999999999999999"), ConstType::Float("99999999999999999999".to_string()));
}

#[test]
fn constant_types_and_texts() {
    assert_eq!(ConstType::Int(-3).get_type(), VarType::Int);
    assert_eq!(ConstType::VarType(VarType::Float).get_type(), VarType::Float);
    assert_eq!(ConstType::VarType(VarType::String).get_keyword_type(), VarType::String);
    assert_eq!(ConstType::Int(-3).to_string(), "-3");
    assert_eq!(ConstType::String("a\"b".to_string()).to_string(), "a\\\"b");
    assert_eq!(ConstType::String("a\"b".to_string()).to_display_string(), "a\"b");
    assert_eq!(ConstType::VarType(VarType::Float).to_string(), "float");
    assert_eq!(ConstType::Int(7).debug_string(), "Int(7)");
    assert_eq!(ConstType::String("a\"b".to_string()).debug_string(), "String(\"a\\\"b\")");
    assert_eq!(ConstType::VarType(VarType::Int).debug_string(), "VarType(Int)");
    assert_eq!(VarType::String.name(), "string");
    assert_eq!(VarType::Float.name_debug(), "Float");
}

#[test]
fn token_texts_and_types() {
    let t = Token { token_type: TokenType::ConstInt, value: Some(ConstType::Int(5)), line: 2, column: 3 };
    assert_eq!(t.get_type(), VarType::Int);
    assert_eq!(t.to_display_string(), "5");
    assert_eq!(t.debug_string(), "token: ConstInt, value: Int(5), line: 2, column: 3");
    let k = Token { token_type: TokenType::VarType, value: Some(ConstType::VarType(VarType::String)), line: 1, column: 0 };
    assert_eq!(k.get_type(), VarType::String);
    let s = Token { token_type: TokenType::Semicolon, value: None, line: 1, column: 0 };
    assert_eq!(s.to_display_string(), "semicolon");
    assert_eq!(s.debug_string(), "token: Semicolon, line: 1, column: 0");
    assert_eq!(s.duplicate(), s);
    assert!(TokenType::FuncId.is_id());
    assert!(TokenType::ConstString.has_value());
    assert!(!TokenType::Comma.has_value());
}

#[test]
fn expression_grammar_non_terminals() {
    assert_eq!(NonTerminal::from_char("E_"), Ok(NonTerminal::E_));
    assert_eq!(NonTerminal::from_char("F"), Ok(NonTerminal::F));
    assert_eq!(NonTerminal::from_char("G"), Err(InvalidNonTerminal));
}

#[test]
fn text_helpers() {
    assert_eq!(ConstType::Int(0).to_string(), "0");
    assert_eq!(ConstType::Int(1203).to_string(), "1203");
    assert_eq!(ConstType::Int(i64::MIN).to_string(), "-9223372036854775808");
    assert!(str_eq("abc", "abc"));
    assert!(!str_eq("abc", "abd"));
    assert_eq!(str_chars("aé"), vec!['a', 'é']);
    assert_eq!(lower_char('Q'), 'q');
    assert_eq!(lower_char('É'), 'É');
    assert!(char_is_whitespace('\t'));
    assert!(!char_is_whitespace('x'));
    assert!(char_is_alphabetic('é'));
    assert!(!char_is_alphabetic('1'));
    assert_eq!(str_debug_text("a\"b\n"), "\"a\\\"b\\n\"");
}

#[test]
fn invalid_non_terminal_message() {
    assert_eq!(NonTerminal::from_char("e").unwrap_err().message(), "Invalid non-terminal");
}
