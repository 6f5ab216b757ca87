use myhask::tokenizer::{Token, Tokenizer};

/// Every token of `input`, up to and including `EndOfInput`.
fn tokens(input: &str) -> Vec<Token> {
    let mut tokenizer = Tokenizer::new(input);
    let mut found = Vec::new();
    loop {
        let token = tokenizer.next_token();
        let done = token == Token::EndOfInput;
        found.push(token);
        if done {
            return found;
        }
    }
}

fn identifier(name: &str) -> Token {
    Token::Identifier(name.to_string())
}

/// The text a token was read from, for the tokens that determine it.
fn spelling(token: &Token) -> String {
    match token {
        Token::Fn => "fn".to_string(),
        Token::Main => "main".to_string(),
        Token::Colon => ":".to_string(),
        Token::TypeU8 => "u8".to_string(),
        Token::LBrace => "{".to_string(),
        Token::RBrace => "}".to_string(),
        Token::Return => "rn".to_string(),
        Token::Number(value) => format!("{}", value),
        Token::Identifier(name) => name.clone(),
        Token::Unknown(c) => c.to_string(),
        Token::Overflow => panic!("an overflow does not tell its digits"),
        Token::EndOfInput => String::new(),
    }
}

#[test]
fn sample_program() {
    assert_eq!(
        tokens("fn main(): u8 { rn 0; }"),
        vec![
            Token::Fn,
            Token::Main,
            Token::Unknown('('),
            Token::Unknown(')'),
            Token::Colon,
            Token::TypeU8,
            Token::LBrace,
            Token::Return,
            Token::Number(0),
            Token::Unknown(';'),
            Token::RBrace,
            Token::EndOfInput,
        ]
    );
}

#[test]
fn empty_input() {
    assert_eq!(tokens(""), vec![Token::EndOfInput]);
}

#[test]
fn largest_number_then_overflow() {
    assert_eq!(tokens("255 256"), vec![Token::Number(255), Token::Overflow, Token::EndOfInput]);
}

#[test]
fn only_white_space() {
    assert_eq!(tokens(" \t\r\n  "), vec![Token::EndOfInput]);
}

#[test]
fn end_of_input_repeats() {
    let mut tokenizer = Tokenizer::new("rn  ");
    assert_eq!(tokenizer.next_token(), Token::Return);
    for _ in 0..5 {
        assert_eq!(tokenizer.next_token(), Token::EndOfInput);
    }
}

#[test]
fn end_of_input_repeats_on_empty_text() {
    let mut tokenizer = Tokenizer::new("");
    for _ in 0..3 {
        assert_eq!(tokenizer.next_token(), Token::EndOfInput);
    }
}

#[test]
fn reading_ends_within_length_plus_one_calls() {
    let inputs = ["", " ", "a", "a b c d", "((((", "fn main(): u8 { rn 0; }", "999 x_1 {}:", "\u{3000}é\u{a0}"];
    for input in inputs {
        let limit = input.chars().count() + 1;
        let mut tokenizer = Tokenizer::new(input);
        let mut calls = 0;
        loop {
            calls += 1;
            assert!(calls <= limit, "too many calls on {:?}", input);
            if tokenizer.next_token() == Token::EndOfInput {
                break;
            }
        }
    }
}

#[test]
fn each_keyword_alone() {
    assert_eq!(tokens("fn"), vec![Token::Fn, Token::EndOfInput]);
    assert_eq!(tokens("main"), vec![Token::Main, Token::EndOfInput]);
    assert_eq!(tokens("u8"), vec![Token::TypeU8, Token::EndOfInput]);
    assert_eq!(tokens("rn"), vec![Token::Return, Token::EndOfInput]);
}

#[test]
fn keywords_next_to_symbols() {
    assert_eq!(
        tokens("fn{main}u8:rn"),
        vec![
            Token::Fn,
            Token::LBrace,
            Token::Main,
            Token::RBrace,
            Token::TypeU8,
            Token::Colon,
            Token::Return,
            Token::EndOfInput,
        ]
    );
}

#[test]
fn keyword_lookup() {
    assert_eq!(Token::keyword("fn"), Some(Token::Fn));
    assert_eq!(Token::keyword("main"), Some(Token::Main));
    assert_eq!(Token::keyword("u8"), Some(Token::TypeU8));
    assert_eq!(Token::keyword("rn"), Some(Token::Return));
    for word in ["", "f", "n", "fnn", "Fn", "FN", "mai", "mian", "main_", "u", "8", "u9", "nr", "r", "rnrn", "return"] {
        assert_eq!(Token::keyword(word), None, "{:?}", word);
    }
}

#[test]
fn longer_words_are_identifiers() {
    for word in ["fn2", "username", "u8x", "main2", "fntastic", "rnx", "mainframe", "fn_", "u8_8", "rn0"] {
        assert_eq!(tokens(word), vec![identifier(word), Token::EndOfInput], "{:?}", word);
    }
}

#[test]
fn words_that_share_a_prefix_with_a_keyword() {
    for word in ["f", "foo", "m", "mai", "u", "u7", "r", "run", "n", "ain"] {
        assert_eq!(tokens(word), vec![identifier(word), Token::EndOfInput], "{:?}", word);
    }
}

#[test]
fn keywords_are_case_sensitive() {
    assert_eq!(tokens("Fn MAIN U8 Rn"), vec![
        identifier("Fn"),
        identifier("MAIN"),
        identifier("U8"),
        identifier("Rn"),
        Token::EndOfInput,
    ]);
}

#[test]
fn identifiers() {
    assert_eq!(
        tokens("x _ _x1 a_b héllo 变量 x٣"),
        vec![
            identifier("x"),
            identifier("_"),
            identifier("_x1"),
            identifier("a_b"),
            identifier("héllo"),
            identifier("变量"),
            identifier("x٣"),
            Token::EndOfInput,
        ]
    );
}

#[test]
fn numbers() {
    assert_eq!(tokens("0"), vec![Token::Number(0), Token::EndOfInput]);
    assert_eq!(tokens("7"), vec![Token::Number(7), Token::EndOfInput]);
    assert_eq!(tokens("42"), vec![Token::Number(42), Token::EndOfInput]);
    assert_eq!(tokens("199"), vec![Token::Number(199), Token::EndOfInput]);
    assert_eq!(tokens("249"), vec![Token::Number(249), Token::EndOfInput]);
    assert_eq!(tokens("250"), vec![Token::Number(250), Token::EndOfInput]);
    assert_eq!(tokens("255"), vec![Token::Number(255), Token::EndOfInput]);
}

#[test]
fn leading_zeros_count_for_nothing() {
    assert_eq!(tokens("007"), vec![Token::Number(7), Token::EndOfInput]);
    assert_eq!(tokens("0000000000000000000000255"), vec![Token::Number(255), Token::EndOfInput]);
    assert_eq!(tokens("000"), vec![Token::Number(0), Token::EndOfInput]);
    assert_eq!(tokens("0000000000000000000000256"), vec![Token::Overflow, Token::EndOfInput]);
}

#[test]
fn overflow() {
    for digits in ["256", "257", "260", "300", "999", "1000", "2550", "65536", "4294967296", "99999999999999999999999999999999999999999"] {
        assert_eq!(tokens(digits), vec![Token::Overflow, Token::EndOfInput], "{:?}", digits);
    }
}

#[test]
fn overflow_is_no_wrapped_or_clamped_number() {
    let found = tokens("256 511 512");
    assert_eq!(found, vec![Token::Overflow, Token::Overflow, Token::Overflow, Token::EndOfInput]);
    for token in &found {
        assert!(!matches!(token, Token::Number(_)));
    }
}

#[test]
fn reading_goes_on_after_overflow() {
    assert_eq!(
        tokens("300abc 1"),
        vec![Token::Overflow, identifier("abc"), Token::Number(1), Token::EndOfInput]
    );
}

#[test]
fn digits_end_a_number_where_letters_begin() {
    assert_eq!(tokens("12ab"), vec![Token::Number(12), identifier("ab"), Token::EndOfInput]);
    assert_eq!(tokens("8u8"), vec![Token::Number(8), Token::TypeU8, Token::EndOfInput]);
    assert_eq!(tokens("1_"), vec![Token::Number(1), identifier("_"), Token::EndOfInput]);
    assert_eq!(tokens("2fn"), vec![Token::Number(2), Token::Fn, Token::EndOfInput]);
}

#[test]
fn digits_inside_a_word_belong_to_it() {
    assert_eq!(tokens("a12 x999"), vec![identifier("a12"), identifier("x999"), Token::EndOfInput]);
}

#[test]
fn other_decimal_digits_are_word_characters() {
    assert_eq!(tokens("٣"), vec![identifier("٣"), Token::EndOfInput]);
    assert_eq!(tokens("1٣"), vec![Token::Number(1), identifier("٣"), Token::EndOfInput]);
}

#[test]
fn symbols() {
    assert_eq!(
        tokens(":{}"),
        vec![Token::Colon, Token::LBrace, Token::RBrace, Token::EndOfInput]
    );
    assert_eq!(tokens("::"), vec![Token::Colon, Token::Colon, Token::EndOfInput]);
}

#[test]
fn unknown_characters() {
    assert_eq!(
        tokens("();+-€\u{0}"),
        vec![
            Token::Unknown('('),
            Token::Unknown(')'),
            Token::Unknown(';'),
            Token::Unknown('+'),
            Token::Unknown('-'),
            Token::Unknown('€'),
            Token::Unknown('\u{0}'),
            Token::EndOfInput,
        ]
    );
}

#[test]
fn unknown_takes_one_character_at_a_time() {
    assert_eq!(
        tokens("=="),
        vec![Token::Unknown('='), Token::Unknown('='), Token::EndOfInput]
    );
}

#[test]
fn white_space_of_every_kind_is_skipped() {
    let input = "a b\tc\nd\re\u{b}f\u{c}g\u{85}h\u{a0}i\u{1680}j\u{2003}k\u{2028}l\u{2029}m\u{202f}n\u{205f}o\u{3000}p";
    let names = ["a", "b", "c", "d", "e", "f", "g", "h", "i", "j", "k", "l", "m", "n", "o", "p"];
    let mut expected: Vec<Token> = names.iter().map(|name| identifier(name)).collect();
    expected.push(Token::EndOfInput);
    assert_eq!(tokens(input), expected);
}

#[test]
fn white_space_separates_but_is_not_needed() {
    assert_eq!(tokens("  fn   main  "), vec![Token::Fn, Token::Main, Token::EndOfInput]);
    assert_eq!(tokens("fn main"), tokens("fn\n\tmain"));
    assert_eq!(tokens("a:b"), vec![identifier("a"), Token::Colon, identifier("b"), Token::EndOfInput]);
}

#[test]
fn zero_width_space_is_no_white_space() {
    assert_eq!(
        tokens("a\u{200b}b"),
        vec![identifier("a"), Token::Unknown('\u{200b}'), identifier("b"), Token::EndOfInput]
    );
}

#[test]
fn tokens_spell_out_a_text_without_white_space() {
    for input in ["fnx(:{}abc12;", "fn{main}u8:rn", "a+b-c", "12ab:255{x}", "héllo€变量", "_:_"] {
        let rebuilt: String = tokens(input).iter().map(spelling).collect();
        assert_eq!(rebuilt, input);
    }
}

#[test]
fn tokens_spell_out_a_text_but_for_its_white_space() {
    let input = " fn main ( ) :\tu8 {\n rn 0 ; }\n";
    let rebuilt: String = tokens(input).iter().map(spelling).collect();
    let without_space: String = input.chars().filter(|c| !c.is_whitespace()).collect();
    assert_eq!(rebuilt, without_space);
}

#[test]
fn two_tokenizers_do_not_share_a_position() {
    let mut first = Tokenizer::new("fn main");
    let mut second = Tokenizer::new("fn main");
    assert_eq!(first.next_token(), Token::Fn);
    assert_eq!(first.next_token(), Token::Main);
    assert_eq!(second.next_token(), Token::Fn);
    assert_eq!(first.next_token(), Token::EndOfInput);
    assert_eq!(second.next_token(), Token::Main);
    assert_eq!(second.next_token(), Token::EndOfInput);
}

#[test]
fn a_new_tokenizer_reads_the_same_tokens_again() {
    let input = "fn main(): u8 { rn 300; }";
    assert_eq!(tokens(input), tokens(input));
}

#[test]
fn debug_rendering_tells_tokens_apart() {
    let all = [
        Token::Fn,
        Token::Main,
        Token::Colon,
        Token::TypeU8,
        Token::LBrace,
        Token::RBrace,
        Token::Return,
        Token::Number(1),
        Token::Number(2),
        identifier("1"),
        identifier("x"),
        Token::Unknown('1'),
        Token::Unknown('x'),
        Token::Overflow,
        Token::EndOfInput,
    ];
    for (i, a) in all.iter().enumerate() {
        for (j, b) in all.iter().enumerate() {
            assert_eq!(i == j, format!("{:?}", a) == format!("{:?}", b));
        }
    }
    assert_eq!(format!("{:?}", Token::Number(7)), "Number(7)");
    assert_eq!(format!("{:?}", identifier("x")), "Identifier(\"x\")");
    assert_eq!(format!("{:?}", Token::Unknown('(')), "Unknown('(')");
    assert_eq!(format!("{:?}", Token::EndOfInput), "EndOfInput");
}

#[test]
fn a_sign_is_no_part_of_a_number() {
    assert_eq!(
        tokens("-5 +7"),
        vec![
            Token::Unknown('-'),
            Token::Number(5),
            Token::Unknown('+'),
            Token::Number(7),
            Token::EndOfInput,
        ]
    );
}

#[test]
fn parse_number_reads_a_run_of_digits() {
    let mut tokenizer = Tokenizer::new("42;");
    assert_eq!(tokenizer.parse_number(), Some(42));
    assert_eq!(tokenizer.next_token(), Token::Unknown(';'));
    assert_eq!(tokenizer.next_token(), Token::EndOfInput);
}

#[test]
fn parse_number_takes_leading_zeros() {
    assert_eq!(Tokenizer::new("000").parse_number(), Some(0));
    assert_eq!(Tokenizer::new("0").parse_number(), Some(0));
    assert_eq!(Tokenizer::new("0255").parse_number(), Some(255));
    assert_eq!(Tokenizer::new("0256").parse_number(), None);
}

#[test]
fn parse_number_at_the_bounds() {
    assert_eq!(Tokenizer::new("255").parse_number(), Some(255));
    assert_eq!(Tokenizer::new("256").parse_number(), None);
    assert_eq!(Tokenizer::new("25599").parse_number(), None);
    assert_eq!(Tokenizer::new("99999999999999999999").parse_number(), None);
}

#[test]
fn parse_number_reads_the_digits_of_an_overflow() {
    let mut tokenizer = Tokenizer::new("300x");
    assert_eq!(tokenizer.parse_number(), None);
    assert_eq!(tokenizer.next_token(), identifier("x"));
}

#[test]
fn parse_number_without_a_digit_reads_nothing() {
    let mut tokenizer = Tokenizer::new("");
    assert_eq!(tokenizer.parse_number(), None);
    assert_eq!(tokenizer.next_token(), Token::EndOfInput);

    let mut tokenizer = Tokenizer::new("x1");
    assert_eq!(tokenizer.parse_number(), None);
    assert_eq!(tokenizer.next_token(), identifier("x1"));

    let mut tokenizer = Tokenizer::new(" 1");
    assert_eq!(tokenizer.parse_number(), None);
    assert_eq!(tokenizer.next_token(), Token::Number(1));
}

#[test]
fn parse_number_at_a_sign_reads_nothing() {
    let mut tokenizer = Tokenizer::new("-5");
    assert_eq!(tokenizer.parse_number(), None);
    assert_eq!(tokenizer.next_token(), Token::Unknown('-'));
    assert_eq!(tokenizer.next_token(), Token::Number(5));
    assert_eq!(tokenizer.next_token(), Token::EndOfInput);
}

#[test]
fn parse_number_at_a_digit_beyond_ascii_reads_nothing() {
    let mut tokenizer = Tokenizer::new("\u{663}4");
    assert_eq!(tokenizer.parse_number(), None);
    assert_eq!(tokenizer.next_token(), identifier("\u{663}4"));
    assert_eq!(tokenizer.next_token(), Token::EndOfInput);
}

#[test]
fn parse_number_stops_at_a_digit_beyond_ascii() {
    let mut tokenizer = Tokenizer::new("4\u{663}");
    assert_eq!(tokenizer.parse_number(), Some(4));
    assert_eq!(tokenizer.next_token(), identifier("\u{663}"));
}

#[test]
fn parse_identifier_reads_a_word() {
    let mut tokenizer = Tokenizer::new("abc_1 def");
    assert_eq!(tokenizer.parse_identifier(), "abc_1");
    assert_eq!(tokenizer.parse_identifier(), "");
    assert_eq!(tokenizer.next_token(), identifier("def"));
}

#[test]
fn parse_identifier_does_not_tell_keywords_apart() {
    let mut tokenizer = Tokenizer::new("main");
    assert_eq!(tokenizer.parse_identifier(), "main");
    assert_eq!(tokenizer.next_token(), Token::EndOfInput);
}

#[test]
fn parse_identifier_takes_digits_too() {
    let mut tokenizer = Tokenizer::new("12ab:");
    assert_eq!(tokenizer.parse_identifier(), "12ab");
    assert_eq!(tokenizer.next_token(), Token::Colon);
}

#[test]
fn parse_identifier_without_a_word_reads_nothing() {
    let mut tokenizer = Tokenizer::new("(x");
    assert_eq!(tokenizer.parse_identifier(), "");
    assert_eq!(tokenizer.next_token(), Token::Unknown('('));

    let mut tokenizer = Tokenizer::new("");
    assert_eq!(tokenizer.parse_identifier(), "");
    assert_eq!(tokenizer.next_token(), Token::EndOfInput);
}

#[test]
fn consume_whitespace_stops_at_the_token() {
    let mut tokenizer = Tokenizer::new(" \t\n 7");
    tokenizer.consume_whitespace();
    assert_eq!(tokenizer.parse_number(), Some(7));

    let mut tokenizer = Tokenizer::new("x y");
    tokenizer.consume_whitespace();
    tokenizer.consume_whitespace();
    assert_eq!(tokenizer.parse_identifier(), "x");
    tokenizer.consume_whitespace();
    assert_eq!(tokenizer.parse_identifier(), "y");
    tokenizer.consume_whitespace();
    assert_eq!(tokenizer.next_token(), Token::EndOfInput);
}

#[test]
fn every_ascii_character_alone() {
    for code in 0u8..=0x7f {
        let c = code as char;
        let expected = match c {
            ' ' | '\u{9}'..='\u{d}' => vec![Token::EndOfInput],
            ':' => vec![Token::Colon, Token::EndOfInput],
            '{' => vec![Token::LBrace, Token::EndOfInput],
            '}' => vec![Token::RBrace, Token::EndOfInput],
            '0'..='9' => vec![Token::Number(code - b'0'), Token::EndOfInput],
            'a'..='z' | 'A'..='Z' | '_' => vec![identifier(&c.to_string()), Token::EndOfInput],
            _ => vec![Token::Unknown(c), Token::EndOfInput],
        };
        assert_eq!(tokens(&c.to_string()), expected, "U+{:04X}", code);
    }
}

#[test]
fn ascii_characters_as_the_standard_library_sorts_them() {
    for code in 0u8..=0x7f {
        let c = code as char;
        assert_eq!(c.is_whitespace(), c == ' ' || ('\u{9}'..='\u{d}').contains(&c), "U+{:04X}", code);
        assert_eq!(
            c.is_alphanumeric(),
            c.is_ascii_lowercase() || c.is_ascii_uppercase() || c.is_ascii_digit(),
            "U+{:04X}",
            code
        );
    }
}
