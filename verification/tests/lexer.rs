use trabalho_final::const_type::ConstType;
use trabalho_final::fda::{byte_vec_into_u32, FdaError, FDA};
use trabalho_final::lexer::{Lexer, LexicalError};
use trabalho_final::token::Token;
use trabalho_final::token_type::TokenType;

/// An automaton for identifiers (state 1), `;` (state 2), integers (state 3)
/// and strings (states 4 and 5), with spaces and newlines looping on the
/// initial state.
fn small_fda() -> FDA {
    let mut raw: Vec<u8> = vec![1];
    for c in b'a'..=b'z' {
        raw.extend_from_slice(&[0, c, 1, 1, c, 1]);
    }
    for d in b'0'..=b'9' {
        raw.extend_from_slice(&[0, d, 3, 3, d, 3]);
    }
    raw.extend_from_slice(&[0, b';', 2, 0, b' ', 0, 0, b'\n', 0, 0, b'"', 4, 4, 0, 4, 4, b'"', 5]);
    let table = "1:id\n2:semicolon\n3:const_int\n5:const_string\n";
    FDA::from_data(&raw, table).expect("valid automaton data")
}

fn tok(token_type: TokenType, value: Option<ConstType>, line: usize, column: usize) -> Token {
    Token { token_type, value, line, column }
}

#[test]
fn lexes_identifier_and_semicolon() {
    let mut lexer = Lexer::new(small_fda());
    assert_eq!(lexer.parse("abc;"), Ok(()));
    assert_eq!(
        lexer.token_list,
        vec![
            tok(TokenType::Id, Some(ConstType::String("abc".to_string())), 1, 1),
            tok(TokenType::Semicolon, None, 1, 4),
            tok(TokenType::Eof, None, 1, 4),
        ]
    );
    assert_eq!(lexer.token_table, vec![("abc".to_string(), vec![(1, 1)])]);
}

#[test]
fn skips_whitespace_between_tokens() {
    let mut lexer = Lexer::new(small_fda());
    assert_eq!(lexer.parse("ab cd"), Ok(()));
    assert_eq!(lexer.token_list.len(), 3);
    assert_eq!(lexer.token_list[0], tok(TokenType::Id, Some(ConstType::String("ab".to_string())), 1, 1));
    assert_eq!(lexer.token_list[1], tok(TokenType::Id, Some(ConstType::String("cd".to_string())), 1, 4));
    assert_eq!(lexer.token_list[2], tok(TokenType::Eof, None, 1, 5));
}

#[test]
fn newline_moves_to_next_line() {
    let mut lexer = Lexer::new(small_fda());
    assert_eq!(lexer.parse("a\nb"), Ok(()));
    assert_eq!(lexer.token_list[0].line, 1);
    assert_eq!(lexer.token_list[0].column, 1);
    assert_eq!(lexer.token_list[1].line, 2);
    assert_eq!(lexer.token_list[1].column, 1);
    assert_eq!(lexer.token_list[2], tok(TokenType::Eof, None, 2, 1));
}

#[test]
fn letters_are_lowercased_outside_strings() {
    let mut lexer = Lexer::new(small_fda());
    assert_eq!(lexer.parse("AbC"), Ok(()));
    assert_eq!(lexer.token_list[0].value, Some(ConstType::String("abc".to_string())));
}

#[test]
fn integer_constant_gets_its_value() {
    let mut lexer = Lexer::new(small_fda());
    assert_eq!(lexer.parse("12;"), Ok(()));
    assert_eq!(lexer.token_list[0], tok(TokenType::ConstInt, Some(ConstType::Int(12)), 1, 1));
}

#[test]
fn string_keeps_case_and_quotes() {
    let mut lexer = Lexer::new(small_fda());
    assert_eq!(lexer.parse("\"Ab\""), Ok(()));
    assert_eq!(lexer.token_list[0].token_type, TokenType::ConstString);
    assert_eq!(lexer.token_list[0].value, Some(ConstType::String("\"Ab\"".to_string())));
}

#[test]
fn identifier_table_records_every_position() {
    let mut lexer = Lexer::new(small_fda());
    assert_eq!(lexer.parse("x y\nx;"), Ok(()));
    assert_eq!(
        lexer.token_table,
        vec![("x".to_string(), vec![(1, 1), (2, 1)]), ("y".to_string(), vec![(1, 3)])]
    );
    assert_eq!(lexer.token_list.last().unwrap().token_type, TokenType::Eof);
}

#[test]
fn invalid_character_is_a_lexical_error() {
    let mut lexer = Lexer::new(small_fda());
    assert_eq!(lexer.parse("a#"), Err(LexicalError { line: 1, column: 2, value: String::new() }));
}

#[test]
fn unfinished_token_is_a_lexical_error() {
    let mut lexer = Lexer::new(small_fda());
    assert_eq!(lexer.parse("\"ab"), Err(LexicalError { line: 1, column: 3, value: "\"ab".to_string() }));
}

#[test]
fn token_list_and_table_texts() {
    let mut lexer = Lexer::new(small_fda());
    assert_eq!(lexer.parse("ab;"), Ok(()));
    assert_eq!(
        lexer.save_token_list(),
        "token: Id, value: String(\"ab\"), line: 1, column: 1\n\
         token: Semicolon, line: 1, column: 3\n\
         token: Eof, line: 1, column: 3\n"
    );
    assert_eq!(lexer.save_token_table(), "ab: [(1, 1)]\n");
}

#[test]
fn empty_input_gives_only_end_of_input() {
    let mut lexer = Lexer::new(small_fda());
    assert_eq!(lexer.try_parse(""), Some(Ok(())));
    assert_eq!(lexer.token_list, vec![tok(TokenType::Eof, None, 1, 0)]);
}

#[test]
fn transition_uses_wildcard_when_no_symbol_matches() {
    let fda = small_fda();
    assert_eq!(fda.transtion(4, 'x'), Some(&4));
    assert_eq!(fda.transtion(4, '"'), Some(&5));
    assert_eq!(fda.transtion(0, 'q'), Some(&1));
    assert_eq!(fda.transtion(0, '#'), None);
    assert_eq!(fda.accepts(1), Some(TokenType::Id));
    assert_eq!(fda.accepts(4), None);
}

#[test]
fn bytes_are_read_big_endian() {
    assert_eq!(byte_vec_into_u32(&[1, 0]), 256);
    assert_eq!(byte_vec_into_u32(&[]), 0);
    assert_eq!(byte_vec_into_u32(&[0xff, 0xff, 0xff, 0xff]), u32::MAX);
}

#[test]
fn automaton_with_two_byte_states() {
    let raw = [2u8, 0, 0, b'a', 1, 2, 1, 2, b'b', 0, 0];
    let fda = FDA::from_data(&raw, "258:id\n").unwrap();
    assert_eq!(fda.initial_state, 0);
    assert_eq!(fda.transtion(0, 'a'), Some(&258));
    assert_eq!(fda.transtion(258, 'b'), Some(&0));
    assert_eq!(fda.accepts(258), Some(TokenType::Id));
}

#[test]
fn incomplete_last_transition_is_ignored() {
    let fda = FDA::from_data(&[1, 0, b'a'], "").unwrap();
    assert_eq!(fda.transitions.len(), 0);
    assert_eq!(fda.token_table.len(), 0);
}

#[test]
fn automaton_data_errors() {
    assert_eq!(FDA::from_data(&[], "").err(), Some(FdaError::Empty));
    assert_eq!(
        FDA::from_data(&[5, 1, 0, 0, 0, 0, b'a', 0, 0, 0, 0, 1], "").err(),
        Some(FdaError::StateTooLarge)
    );
    assert_eq!(FDA::from_data(&[1], "1-id\n").err(), Some(FdaError::InvalidLine));
    assert_eq!(FDA::from_data(&[1], "x:id\n").err(), Some(FdaError::InvalidState));
    assert_eq!(FDA::from_data(&[1], "1:nothing\n").err(), Some(FdaError::InvalidToken));
}

#[test]
fn wide_states_that_fit_are_accepted() {
    let raw = [5u8, 0, 0, 0, 0, 1, b'a', 0, 0, 0, 0, 2];
    let fda = FDA::from_data(&raw, "").unwrap();
    assert_eq!(fda.transtion(1, 'a'), Some(&2));
}

#[test]
fn case_of_letters_does_not_matter_outside_strings() {
    let mut a = Lexer::new(small_fda());
    let mut b = Lexer::new(small_fda());
    assert_eq!(a.parse("AbC x;\nQ"), Ok(()));
    assert_eq!(b.parse("abc X;\nq"), Ok(()));
    assert_eq!(a.token_list, b.token_list);
    assert_eq!(a.token_table, b.token_table);
    let mut c = Lexer::new(small_fda());
    let mut d = Lexer::new(small_fda());
    let e = Some(Err(LexicalError { line: 1, column: 4, value: String::new() }));
    assert_eq!(c.try_parse("Ab #"), e);
    assert_eq!(d.try_parse("aB #"), e);
    assert_eq!(c.token_list, d.token_list);
}

#[test]
fn lexical_error_message() {
    let e = LexicalError { line: 3, column: 7, value: "ab".to_string() };
    assert_eq!(e.message(), "Erro léxico: Caracter inválido na linha 3, coluna 7: 'ab'");
}

#[test]
fn columns_count_characters_from_one() {
    let mut lexer = Lexer::new(small_fda());
    assert_eq!(lexer.parse("x"), Ok(()));
    assert_eq!(lexer.token_list[0], tok(TokenType::Id, Some(ConstType::String("x".to_string())), 1, 1));
    let mut lexer = Lexer::new(small_fda());
    assert_eq!(lexer.parse("\"é\" ab"), Ok(()));
    assert_eq!(lexer.token_list[0].column, 1);
    assert_eq!(lexer.token_list[1], tok(TokenType::Id, Some(ConstType::String("ab".to_string())), 1, 5));
    assert_eq!(lexer.token_table, vec![("ab".to_string(), vec![(1, 5)])]);
}
