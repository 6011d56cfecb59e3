use stack_machine::grammar::{scan, CharClass, Lexeme};
use stack_machine::lexer::{label_is_set, Token};
use stack_machine::source::Source;
use stack_machine::text::{bool_string, decimal_string, join, parse_decimal};

fn chars(text: &str) -> Vec<char> {
    text.chars().collect()
}

fn lexemes(text: &str) -> Vec<(Option<Token>, String)> {
    let chars = chars(text);
    let mut found = Vec::new();
    let mut position = 0;
    loop {
        let Lexeme { token, start, end } = scan(&chars, position);
        if start == end {
            return found;
        }
        found.push((token, chars[start..end].iter().collect()));
        position = end;
    }
}

fn kinds(text: &str) -> Vec<Option<Token>> {
    lexemes(text).into_iter().map(|(token, _)| token).collect()
}

#[test]
fn scan_finds_every_instruction() {
    assert_eq!(
        kinds(
            "ADD SUB MUL PUSH PUSH_INT PUSH_BOOL PUSH_STR DUP EQ NEQ POP SWAP CONCAT JUMP JUMPI \
             EMPTY_VECTOR INSERT SIZE INDEX LOG"
        ),
        vec![
            Some(Token::Add),
            Some(Token::Sub),
            Some(Token::Mul),
            Some(Token::Push),
            Some(Token::PushInt),
            Some(Token::PushBool),
            Some(Token::PushStr),
            Some(Token::Dup),
            Some(Token::Eq),
            Some(Token::Neq),
            Some(Token::Pop),
            Some(Token::Swap),
            Some(Token::Concat),
            Some(Token::Jump),
            Some(Token::Jumpi),
            Some(Token::EmptyVector),
            Some(Token::InsertVector),
            Some(Token::Size),
            Some(Token::Index),
            Some(Token::Log),
        ]
    );
}

#[test]
fn scan_takes_the_longest_word() {
    assert_eq!(
        lexemes("PUSH_INTS JUMPIX truest 0x1f a_b: _ __: : - 42"),
        vec![
            (Some(Token::Invalid), String::from("PUSH_INTS")),
            (Some(Token::Invalid), String::from("JUMPIX")),
            (Some(Token::LabelName), String::from("truest")),
            (Some(Token::Invalid), String::from("0x1f")),
            (Some(Token::Label), String::from("a_b:")),
            (Some(Token::LabelName), String::from("_")),
            (Some(Token::Label), String::from("__:")),
            (Some(Token::Invalid), String::from(":")),
            (Some(Token::Invalid), String::from("-")),
            (Some(Token::Int), String::from("42")),
        ]
    );
}

#[test]
fn scan_finds_literals() {
    assert_eq!(
        lexemes("true false \"a b\" \"\" 0"),
        vec![
            (Some(Token::Bool), String::from("true")),
            (Some(Token::Bool), String::from("false")),
            (Some(Token::String), String::from("\"a b\"")),
            (Some(Token::String), String::from("\"\"")),
            (Some(Token::Int), String::from("0")),
        ]
    );
}

#[test]
fn scan_reads_escapes() {
    assert_eq!(
        lexemes("\"\\\"\" \"\\\\\" \"\\b\\n\\f\\r\\t\" \"\\uAbC9\" \"\\u12G4\""),
        vec![
            (Some(Token::String), String::from("\"\\\"\"")),
            (Some(Token::String), String::from("\"\\\\\"")),
            (Some(Token::String), String::from("\"\\b\\n\\f\\r\\t\"")),
            (Some(Token::String), String::from("\"\\uAbC9\"")),
            (None, String::from("\"\\u12G4\"")),
        ]
    );
}

#[test]
fn scan_finds_comments() {
    assert_eq!(
        lexemes("/**/ /* a\nb */x /* * / */ / /*"),
        vec![
            (Some(Token::Comment), String::from("/**/")),
            (Some(Token::Comment), String::from("/* a\nb */")),
            (Some(Token::LabelName), String::from("x")),
            (Some(Token::Comment), String::from("/* * / */")),
            (None, String::from("/")),
            (None, String::from("/*")),
        ]
    );
}

#[test]
fn scan_skips_blanks_and_stops_at_the_end() {
    let text = chars(" \t\n\x0c ADD  ");
    let lexeme = scan(&text, 0);
    assert_eq!(lexeme.token, Some(Token::Add));
    assert_eq!((lexeme.start, lexeme.end), (5, 8));
    let lexeme = scan(&text, 8);
    assert_eq!(lexeme.token, None);
    assert_eq!((lexeme.start, lexeme.end), (10, 10));
    let lexeme = scan(&text, 25);
    assert_eq!(lexeme.token, None);
    assert_eq!((lexeme.start, lexeme.end), (25, 25));
    let lexeme = scan(&text, 6);
    assert_eq!(lexeme.token, Some(Token::Invalid));
    assert_eq!((lexeme.start, lexeme.end), (6, 8));
}

#[test]
fn scan_takes_unknown_characters_up_to_the_next_blank() {
    assert_eq!(
        lexemes("#tag+1 ADD\u{b}5"),
        vec![
            (None, String::from("#tag+1")),
            (Some(Token::Add), String::from("ADD")),
            (None, String::from("\u{b}5")),
        ]
    );
}

#[test]
fn char_classes_are_told_apart() {
    assert_ne!(CharClass::Blank, CharClass::Word);
    assert_ne!(CharClass::Word, CharClass::Solid);
}

#[test]
fn decimal_string_writes_numbers() {
    assert_eq!(decimal_string(0), "0");
    assert_eq!(decimal_string(7), "7");
    assert_eq!(decimal_string(10), "10");
    assert_eq!(decimal_string(909), "909");
    assert_eq!(decimal_string(1234567890), "1234567890");
    assert_eq!(decimal_string(usize::MAX), format!("{}", usize::MAX));
}

#[test]
fn parse_decimal_reads_numbers() {
    let text = chars("x00123y");
    assert_eq!(parse_decimal(&text, 1, 6), Some(123));
    assert_eq!(parse_decimal(&text, 3, 4), Some(1));
    assert_eq!(parse_decimal(&text, 2, 2), None);
    assert_eq!(parse_decimal(&text, 0, 3), None);
    assert_eq!(parse_decimal(&text, 5, 8), None);
    assert_eq!(parse_decimal(&text, 4, 3), None);
    let max = chars(&format!("{}", usize::MAX));
    assert_eq!(parse_decimal(&max, 0, max.len()), Some(usize::MAX));
    let over = chars(&format!("{}", usize::MAX as u128 + 1));
    assert_eq!(parse_decimal(&over, 0, over.len()), None);
    let long = chars("99999999999999999999999999999999999999999");
    assert_eq!(parse_decimal(&long, 0, long.len()), None);
}

#[test]
fn parse_decimal_reads_back_what_decimal_string_writes() {
    for n in [0, 1, 9, 10, 99, 100, 65535, usize::MAX - 1, usize::MAX] {
        let text = chars(&decimal_string(n));
        assert_eq!(parse_decimal(&text, 0, text.len()), Some(n));
    }
}

#[test]
fn bool_string_writes_booleans() {
    assert_eq!(bool_string(true), "true");
    assert_eq!(bool_string(false), "false");
}

#[test]
fn join_puts_the_separator_between() {
    let items = |v: &[&str]| v.iter().map(|s| String::from(*s)).collect::<Vec<String>>();
    assert_eq!(join(&items(&[]), ", "), "");
    assert_eq!(join(&items(&["a"]), ", "), "a");
    assert_eq!(join(&items(&["a", "b", "c"]), ", "), "a, b, c");
    assert_eq!(join(&items(&["", ""]), "-"), "-");
    assert_eq!(join(&items(&["x", "y"]), ""), "xy");
}

#[test]
fn source_cuts_pieces_by_characters() {
    let source = Source::new("héllo wörld");
    assert_eq!(source.chars().len(), 11);
    assert_eq!(source.slice(0, 5), "héllo");
    assert_eq!(source.slice(6, 11), "wörld");
    assert_eq!(source.slice(3, 3), "");
    assert_eq!(source.slice(4, 2), "");
    assert_eq!(source.slice(6, 12), "");
}

#[test]
fn label_is_set_tells_some_from_none() {
    assert!(label_is_set(&Some(String::from("a"))));
    assert!(label_is_set(&Some(String::new())));
    assert!(!label_is_set(&None));
}
