use pinboard_machine::parse::{parse_instruction, whitespace, ParseError};
use pinboard_machine::pinboards::{Instruction, Ones, Opcode, Tens};
use std::str::FromStr;

fn symbols() -> Vec<(&'static str, Opcode)> {
    vec![
        ("K", Opcode::K),
        ("W", Opcode::W),
        ("R", Opcode::R),
        ("B", Opcode::B),
        ("P", Opcode::P),
        ("+", Opcode::Add),
        ("\u{2212}", Opcode::Sub),
        ("\u{d7}", Opcode::Mul),
        ("\u{f7}", Opcode::Div),
        ("A", Opcode::A),
        ("U", Opcode::U),
        ("C", Opcode::C),
        ("H", Opcode::H),
        ("S", Opcode::S),
    ]
}

fn tens_tokens() -> Vec<(String, Tens)> {
    let mut tokens: Vec<(String, Tens)> = Vec::new();
    for d in 0..=9u8 {
        tokens.push((format!("{}", d), Tens::Num(d)));
    }
    tokens.push((String::from("E"), Tens::E));
    tokens.push((String::from("X"), Tens::X));
    tokens
}

fn ones_tokens() -> Vec<(String, Ones)> {
    let mut tokens: Vec<(String, Ones)> = Vec::new();
    for d in 0..=15u8 {
        tokens.push((format!("{}", d), Ones::Num(d)));
    }
    tokens.push((String::from("E"), Ones::E));
    tokens.push((String::from("F"), Ones::F));
    tokens.push((String::from("Y"), Ones::Y));
    tokens.push((String::from("*"), Ones::Star));
    tokens.push((String::from("V"), Ones::V));
    tokens
}

#[test]
fn every_symbol_alone_is_an_instruction() {
    assert_eq!(symbols().len(), 14);
    for (symbol, operation) in symbols() {
        assert_eq!(parse_instruction(symbol), Ok(Instruction(operation, None, None)));
    }
}

#[test]
fn every_symbol_with_one_digit_is_an_instruction() {
    for (symbol, operation) in symbols() {
        for (token, tens) in tens_tokens() {
            let line: String = format!("{} {}", symbol, token);
            assert_eq!(parse_instruction(&line), Ok(Instruction(operation, Some(tens), None)));
        }
    }
}

#[test]
fn every_symbol_with_two_digits_is_an_instruction() {
    for (symbol, operation) in symbols() {
        for (first, tens) in tens_tokens() {
            for (second, ones) in ones_tokens() {
                let line: String = format!("{} {} {}", symbol, first, second);
                assert_eq!(
                    parse_instruction(&line),
                    Ok(Instruction(operation, Some(tens), Some(ones)))
                );
            }
        }
    }
}

#[test]
fn parsing_twice_gives_the_same() {
    for line in ["W 0 0", "Q", "", "R 9 15", "R 9 16", "+ E F extra"] {
        assert_eq!(parse_instruction(line), parse_instruction(line));
    }
}

#[test]
fn the_minus_sign_is_not_the_hyphen() {
    assert_eq!(
        parse_instruction("\u{2212} 1 2"),
        Ok(Instruction(Opcode::Sub, Some(Tens::Num(1)), Some(Ones::Num(2))))
    );
    assert_eq!(
        parse_instruction("- 1 2"),
        Err(ParseError::UnknownOpcode(String::from("-")))
    );
    assert_eq!(
        parse_instruction("x 1 2"),
        Err(ParseError::UnknownOpcode(String::from("x")))
    );
    assert_eq!(
        parse_instruction("/ 1 2"),
        Err(ParseError::UnknownOpcode(String::from("/")))
    );
}

#[test]
fn unknown_opcode_carries_the_token() {
    assert_eq!(parse_instruction("Q"), Err(ParseError::UnknownOpcode(String::from("Q"))));
    assert_eq!(parse_instruction("k"), Err(ParseError::UnknownOpcode(String::from("k"))));
    assert_eq!(
        parse_instruction("  WR 0 0"),
        Err(ParseError::UnknownOpcode(String::from("WR")))
    );
    assert_eq!(
        parse_instruction("W0 0"),
        Err(ParseError::UnknownOpcode(String::from("W0")))
    );
    assert_eq!(
        parse_instruction("\u{e9}t\u{e9} 1"),
        Err(ParseError::UnknownOpcode(String::from("\u{e9}t\u{e9}")))
    );
}

#[test]
fn unknown_tens_carries_the_token() {
    assert_eq!(parse_instruction("W 10 0"), Err(ParseError::UnknownTens(String::from("10"))));
    assert_eq!(parse_instruction("W F 0"), Err(ParseError::UnknownTens(String::from("F"))));
    assert_eq!(parse_instruction("W Y"), Err(ParseError::UnknownTens(String::from("Y"))));
    assert_eq!(parse_instruction("W * 0"), Err(ParseError::UnknownTens(String::from("*"))));
    assert_eq!(parse_instruction("W 07 0"), Err(ParseError::UnknownTens(String::from("07"))));
    assert_eq!(parse_instruction("W +7 0"), Err(ParseError::UnknownTens(String::from("+7"))));
    assert_eq!(parse_instruction("W -1 0"), Err(ParseError::UnknownTens(String::from("-1"))));
    assert_eq!(parse_instruction("W e 0"), Err(ParseError::UnknownTens(String::from("e"))));
}

#[test]
fn unknown_ones_carries_the_token() {
    assert_eq!(parse_instruction("W 0 16"), Err(ParseError::UnknownOnes(String::from("16"))));
    assert_eq!(parse_instruction("W 0 20"), Err(ParseError::UnknownOnes(String::from("20"))));
    assert_eq!(parse_instruction("W 0 X"), Err(ParseError::UnknownOnes(String::from("X"))));
    assert_eq!(parse_instruction("W 0 05"), Err(ParseError::UnknownOnes(String::from("05"))));
    assert_eq!(parse_instruction("W 0 1a"), Err(ParseError::UnknownOnes(String::from("1a"))));
    assert_eq!(parse_instruction("W 0 100"), Err(ParseError::UnknownOnes(String::from("100"))));
    assert_eq!(parse_instruction("W 0 v"), Err(ParseError::UnknownOnes(String::from("v"))));
}

#[test]
fn the_first_wrong_token_is_reported() {
    assert_eq!(parse_instruction("Q Z Z"), Err(ParseError::UnknownOpcode(String::from("Q"))));
    assert_eq!(parse_instruction("W Z Z"), Err(ParseError::UnknownTens(String::from("Z"))));
    assert_eq!(parse_instruction("W 0 Z"), Err(ParseError::UnknownOnes(String::from("Z"))));
}

#[test]
fn a_line_without_a_token_is_malformed() {
    assert_eq!(
        parse_instruction(""),
        Err(ParseError::MalformedInstruction(String::new()))
    );
    assert_eq!(
        parse_instruction("   "),
        Err(ParseError::MalformedInstruction(String::from("   ")))
    );
    assert_eq!(
        parse_instruction("\t\n"),
        Err(ParseError::MalformedInstruction(String::from("\t\n")))
    );
}

#[test]
fn white_space_of_any_kind_and_length_separates() {
    let expected = Ok(Instruction(Opcode::W, Some(Tens::Num(3)), Some(Ones::Num(12))));
    assert_eq!(parse_instruction("W 3 12"), expected);
    assert_eq!(parse_instruction("  W   3    12  "), expected);
    assert_eq!(parse_instruction("\tW\t3\t12\n"), expected);
    assert_eq!(parse_instruction("W\u{a0}3\u{2003}12\r\n"), expected);
    assert_eq!(parse_instruction("\u{3000}W\u{2028}3\u{1680}12\u{85}"), expected);
}

#[test]
fn what_follows_the_third_token_is_not_read() {
    assert_eq!(
        parse_instruction("R 1 2 3"),
        Ok(Instruction(Opcode::R, Some(Tens::Num(1)), Some(Ones::Num(2))))
    );
    assert_eq!(
        parse_instruction("R 1 2 load the total"),
        Ok(Instruction(Opcode::R, Some(Tens::Num(1)), Some(Ones::Num(2))))
    );
}

#[test]
fn tokens_are_those_of_split_whitespace() {
    let lines: Vec<&str> = vec![
        "W 0 0",
        " \u{a0}+\u{2009}E\u{205f}F ",
        "\u{200b}W 0 0",
        "H\u{feff}",
        "U\u{202f}8\u{2029}15",
        "C\u{b}1\u{c}1",
        "S\u{1c}1",
    ];
    for line in lines {
        let tokens: Vec<&str> = line.split_whitespace().collect();
        let rebuilt: String = tokens.join(" ");
        assert_eq!(parse_instruction(line), parse_instruction(&rebuilt));
        if let Err(ParseError::UnknownOpcode(token)) = parse_instruction(line) {
            assert_eq!(token, tokens[0]);
        }
    }
    assert_eq!(
        parse_instruction("\u{200b}W 0 0"),
        Err(ParseError::UnknownOpcode(String::from("\u{200b}W")))
    );
}

#[test]
fn white_space_is_what_the_standard_library_calls_white_space() {
    let mut n: u32 = 0;
    while n <= 0x10ffff {
        if let Some(c) = char::from_u32(n) {
            assert_eq!(whitespace(c), c.is_whitespace());
        }
        n += 1;
    }
}

#[test]
fn from_str_reads_a_line() {
    assert_eq!(
        Instruction::from_str("W 0 0"),
        Ok(Instruction(Opcode::W, Some(Tens::Num(0)), Some(Ones::Num(0))))
    );
    assert_eq!(
        "\u{f7} X Y".parse::<Instruction>(),
        Ok(Instruction(Opcode::Div, Some(Tens::X), Some(Ones::Y)))
    );
    assert_eq!(
        "".parse::<Instruction>(),
        Err(ParseError::MalformedInstruction(String::new()))
    );
}

#[test]
fn a_copy_of_an_error_carries_the_same_text() {
    let errors: Vec<ParseError> = vec![
        ParseError::UnknownOpcode(String::from("Q")),
        ParseError::UnknownTens(String::from("10")),
        ParseError::UnknownOnes(String::from("16")),
        ParseError::MalformedInstruction(String::from("  ")),
    ];
    for error in errors {
        assert_eq!(error.clone(), error);
    }
}
