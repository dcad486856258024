use des::kat::{
    is_editor_leftover, parse_hex_u64, process_lines, run_test, run_tests, validate_args, ArgsError,
    KatError, TestConfig,
};
use des::text::{chars_of, has_pattern, has_prefix, has_suffix, tokenize_line};

fn lines(text: &str) -> Vec<String> {
    text.lines().map(String::from).collect()
}

const SAMPLE: &str = "# CAVS 11.1
# Config info for des-ecb
# TDES Variable Plaintext Known Answer Test

[ENCRYPT]

COUNT = 0
KEYs = 0101010101010101
PLAINTEXT = 8000000000000000
CIPHERTEXT = 95f8a5e5dd31d900

COUNT = 1
KEYs = 0101010101010101
PLAINTEXT = 4000000000000000
CIPHERTEXT = dd7f121ca5015619

[DECRYPT]

COUNT = 0
KEYs = 0101010101010101
CIPHERTEXT = 95f8a5e5dd31d900
PLAINTEXT = 8000000000000000
";

#[test]
fn tokenize_splits_on_white_space() {
    assert_eq!(tokenize_line("COUNT = 0"), vec!["COUNT", "=", "0"]);
    assert_eq!(tokenize_line("  KEYs\t=   0101  "), vec!["KEYs", "=", "0101"]);
    assert_eq!(tokenize_line(""), Vec::<String>::new());
    assert_eq!(tokenize_line(" \t \n"), Vec::<String>::new());
    assert_eq!(tokenize_line("a\u{3000}b\u{a0}c"), vec!["a", "b", "c"]);
    let line = "x  yy\tzzz \u{2003} w";
    let expected: Vec<String> = line.split_whitespace().map(String::from).collect();
    assert_eq!(tokenize_line(line), expected);
}

// The reading that the library states of `u64::from_str_radix(s, 16)`: an optional `+`,
// then one or more hexadecimal digits whose value fits in 64 bits.
fn stated_reading(s: &str) -> Option<u64> {
    let digits = s.strip_prefix('+').unwrap_or(s);
    if digits.is_empty() || !digits.chars().all(|c| c.is_ascii_hexdigit()) {
        return None;
    }
    let mut value: u128 = 0;
    for c in digits.chars() {
        value = value * 16 + c.to_digit(16).unwrap() as u128;
        if value > u64::MAX as u128 {
            return None;
        }
    }
    Some(value as u64)
}

#[test]
fn hex_numbers_read_as_stated() {
    for s in [
        "0", "95f8a5e5dd31d900", "95F8A5E5DD31D900", "+ff", "ffffffffffffffff",
        "10000000000000000", "0000000000000000000001", "", "+", "-1", "-", "0x10", " 1", "1 ",
        "g", "++1", "+-1", "1_0", "\u{ff10}", "ａ",
    ] {
        assert_eq!(parse_hex_u64(s), stated_reading(s), "{:?}", s);
    }
    assert_eq!(parse_hex_u64("dd7f121ca5015619"), Some(0xdd7f_121c_a501_5619));
    assert_eq!(parse_hex_u64("+A"), Some(10));
}

#[test]
fn sample_file_gives_its_tests() {
    let tests = process_lines(&lines(SAMPLE)).unwrap();
    assert_eq!(
        tests,
        vec![
            TestConfig {
                id: 0,
                key: 0x0101_0101_0101_0101,
                plaintext: 0x8000_0000_0000_0000,
                ciphertext: 0x95f8_a5e5_dd31_d900,
                encrypting: true,
            },
            TestConfig {
                id: 1,
                key: 0x0101_0101_0101_0101,
                plaintext: 0x4000_0000_0000_0000,
                ciphertext: 0xdd7f_121c_a501_5619,
                encrypting: true,
            },
            TestConfig {
                id: 0,
                key: 0x0101_0101_0101_0101,
                plaintext: 0x95f8_a5e5_dd31_d900,
                ciphertext: 0x8000_0000_0000_0000,
                encrypting: false,
            },
        ]
    );
    for test in tests.iter() {
        let outcome = run_test(test);
        assert!(outcome.passed, "{:?} {:?}", test, outcome);
        assert_eq!(outcome.expected, test.ciphertext);
    }
}

#[test]
fn tests_before_any_section_encipher_nothing_by_default() {
    let tests = process_lines(&lines("COUNT = 7\nKEYs = 1\nPLAINTEXT = 2\nCIPHERTEXT = 3")).unwrap();
    assert_eq!(tests.len(), 1);
    assert!(!tests[0].encrypting);
    assert_eq!(tests[0].id, 7);
}

#[test]
fn incomplete_test_is_left_out() {
    let tests = process_lines(&lines("[ENCRYPT]\nCOUNT = 0\nKEYs = 1\nPLAINTEXT = 2")).unwrap();
    assert!(tests.is_empty());
}

#[test]
fn value_line_without_value_is_refused() {
    assert_eq!(process_lines(&lines("[ENCRYPT]\nCOUNT =")), Err(KatError::MissingValue));
}

#[test]
fn value_that_is_not_hexadecimal_is_refused() {
    assert_eq!(
        process_lines(&lines("COUNT = 0\nKEYs = xyz\nPLAINTEXT = 2\nCIPHERTEXT = 3")),
        Err(KatError::BadNumber)
    );
}

#[test]
fn known_answer_test_that_fails_is_reported() {
    let test = TestConfig { id: 0, key: 0, plaintext: 0, ciphertext: 0, encrypting: true };
    let outcome = run_test(&test);
    assert!(!outcome.passed);
    assert_eq!(outcome.expected, 0);
    assert_eq!(outcome.actual, 0x8CA6_4DE9_C1B1_23A7);
}

#[test]
fn argument_counts() {
    assert_eq!(validate_args(1), Err(ArgsError::NoPath));
    assert_eq!(validate_args(2), Ok(()));
    assert_eq!(validate_args(3), Err(ArgsError::TooManyPaths));
}

#[test]
fn editor_leftovers() {
    assert!(is_editor_leftover("#TECBvartext.rsp#"));
    assert!(is_editor_leftover("#"));
    assert!(is_editor_leftover("TECBvartext.rsp~"));
    assert!(!is_editor_leftover("TECBvartext.rsp"));
    assert!(!is_editor_leftover("#draft"));
    assert!(!is_editor_leftover(""));
}

#[test]
fn prefix_suffix_and_pattern() {
    let line = chars_of("[DECRYPT]");
    assert!(has_prefix(&line, &chars_of("[")));
    assert!(!has_prefix(&line, &chars_of("DECRYPT")));
    assert!(has_suffix(&line, &chars_of("]")));
    assert!(has_pattern(&line, &chars_of("DECRYPT")));
    assert!(!has_pattern(&chars_of("[ENCRYPT]"), &chars_of("DECRYPT")));
    assert!(has_pattern(&line, &chars_of("")));
    assert!(!has_pattern(&chars_of("DEC"), &chars_of("DECRYPT")));
}

#[test]
fn white_space_is_the_unicode_set() {
    let listed = |c: char| {
        ('\t'..='\r').contains(&c)
            || c == ' '
            || c == '\u{85}'
            || c == '\u{a0}'
            || c == '\u{1680}'
            || ('\u{2000}'..='\u{200a}').contains(&c)
            || c == '\u{2028}'
            || c == '\u{2029}'
            || c == '\u{202f}'
            || c == '\u{205f}'
            || c == '\u{3000}'
    };
    for code in 0u32..=0x10ffff {
        if let Some(c) = char::from_u32(code) {
            assert_eq!(c.is_whitespace(), listed(c), "{:?}", c);
            if c.is_whitespace() {
                let line = format!("a{}b", c);
                assert_eq!(tokenize_line(&line), vec!["a", "b"], "{:?}", c);
            }
        }
    }
    assert_eq!(tokenize_line("ab"), vec!["ab"]);
    assert_eq!(tokenize_line("a1\u{3000}b2"), vec!["a1", "b2"]);
}

#[test]
fn skipped_lines_change_nothing() {
    let plain = process_lines(&lines(SAMPLE)).unwrap();
    let mut with_extra = lines(SAMPLE);
    with_extra.insert(0, String::from("KEY1 = 00"));
    with_extra.insert(7, String::from(""));
    with_extra.insert(9, String::from("# a comment"));
    with_extra.push(String::from("  COUNT = 9"));
    assert_eq!(process_lines(&with_extra).unwrap(), plain);
    assert_eq!(
        process_lines(&lines("junk\nCOUNT =\nmore junk")),
        process_lines(&lines("COUNT ="))
    );
}

fn config(id: u64, key: u64, plaintext: u64, ciphertext: u64) -> TestConfig {
    TestConfig { id, key, plaintext, ciphertext, encrypting: true }
}

#[test]
fn run_stops_at_first_failure() {
    let good = config(0, 0x0101_0101_0101_0101, 0x8000_0000_0000_0000, 0x95f8_a5e5_dd31_d900);
    let bad = config(1, 0, 0, 0);
    let run = run_tests(&vec![good, bad, good]);
    assert_eq!(run.outcomes.len(), 2);
    assert!(run.outcomes[0].passed);
    assert!(!run.outcomes[1].passed);
    assert!(!run.success);
    let run = run_tests(&vec![good, good]);
    assert_eq!(run.outcomes.len(), 2);
    assert!(run.success);
}

#[test]
fn run_without_tests_does_not_succeed() {
    let run = run_tests(&Vec::new());
    assert!(run.outcomes.is_empty());
    assert!(!run.success);
}
