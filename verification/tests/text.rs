use rise_of_the_frogs::commands::{join, parse_command};
use rise_of_the_frogs::context::RotfContext;
use rise_of_the_frogs::data::RotfData;
use rise_of_the_frogs::numeric::{random_chance, random_choice, random_int, IntegerRange};
use rise_of_the_frogs::text::{
    chars_of, contains_char, eq_str, has_prefix, is_space, parse_bool, parse_i64, parse_u64,
    parse_u8, parse_usize, push_decimal, push_signed, replaced, split, split_double,
    split_first_word, split_lines, split_once, string_of, trimmed,
};

fn chars(s: &str) -> Vec<char> {
    s.chars().collect()
}

fn texts(parts: Vec<Vec<char>>) -> Vec<String> {
    parts.iter().map(|p| p.iter().collect()).collect()
}

#[test]
fn strings_and_characters_turn_into_each_other() {
    assert_eq!(chars_of("añb"), vec!['a', 'ñ', 'b']);
    assert_eq!(string_of(&vec!['a', 'ñ', 'b']), "añb");
    assert_eq!(string_of(&Vec::new()), "");
    assert!(eq_str(&chars("frog"), "frog"));
    assert!(!eq_str(&chars("frog"), "frogs"));
}

#[test]
fn whitespace_is_trimmed_at_both_ends() {
    assert_eq!(trimmed(&chars(" \t a b \r\n")), chars("a b"));
    assert_eq!(trimmed(&chars("\u{a0}\u{3000}x\u{2003}")), chars("x"));
    assert_eq!(trimmed(&chars("   ")), chars(""));
    assert_eq!(trimmed(&chars("x")), chars("x"));
    for c in ['\t', '\n', '\u{b}', '\u{c}', '\r', ' ', '\u{85}', '\u{1680}', '\u{2028}', '\u{205f}'] {
        assert!(is_space(c));
        assert!(c.is_whitespace());
    }
    for c in ['a', '0', '_', '\u{200b}', '\u{180e}', '\u{feff}'] {
        assert!(!is_space(c));
        assert!(!c.is_whitespace());
    }
}

#[test]
fn whitespace_is_what_the_characters_say_it_is() {
    for code in 0..0x3100u32 {
        if let Some(c) = char::from_u32(code) {
            assert_eq!(is_space(c), c.is_whitespace(), "{:x}", code);
        }
    }
}

#[test]
fn lines_end_at_line_feeds() {
    assert_eq!(texts(split_lines(&chars("a\nb\r\n\nc\r"))), vec!["a", "b", "", "c\r"]);
    assert_eq!(texts(split_lines(&chars("a\n"))), vec!["a"]);
    assert_eq!(texts(split_lines(&chars("\n"))), vec![""]);
    assert!(split_lines(&chars("")).is_empty());
    for text in ["a\nb\r\n\nc\r", "\n\nx", "x\r\r\ny\n", ""] {
        let expected: Vec<String> = text.lines().map(|l| l.to_string()).collect();
        assert_eq!(texts(split_lines(&chars(text))), expected);
    }
}

#[test]
fn texts_are_split_at_separators() {
    assert_eq!(texts(split(&chars("a,b,,c"), ',')), vec!["a", "b", "", "c"]);
    assert_eq!(texts(split(&chars(""), ',')), vec![""]);
    assert_eq!(texts(split(&chars(","), ',')), vec!["", ""]);
    assert_eq!(texts(split_double(&chars("a%%b%%%c"), '%')), vec!["a", "b", "%c"]);
    assert_eq!(texts(split_double(&chars("a%b"), '%')), vec!["a%b"]);
    assert_eq!(texts(split_double(&chars("%%"), '%')), vec!["", ""]);
    let (key, value) = split_once(&chars("a: b: c"), ':').unwrap();
    assert_eq!((string_of(&key), string_of(&value)), ("a".to_string(), " b: c".to_string()));
    assert!(split_once(&chars("abc"), ':').is_none());
    assert!(contains_char(&chars("abc"), 'c'));
    assert!(!contains_char(&chars("abc"), 'd'));
    assert!(has_prefix(&chars("%%% mode = x"), "%%% mode ="));
    assert!(!has_prefix(&chars("%%% mode"), "%%% mode ="));
    assert_eq!(replaced("a b  c", ' ', '_'), "a_b__c");
}

#[test]
fn the_first_word_is_the_command() {
    let (word, rest) = split_first_word(&chars("  fight \t 12  \n"));
    assert_eq!((string_of(&word), string_of(&rest)), ("fight".to_string(), "12".to_string()));
    let (word, rest) = split_first_word(&chars("ls"));
    assert_eq!((string_of(&word), string_of(&rest)), ("ls".to_string(), "".to_string()));
    let (word, rest) = split_first_word(&chars(""));
    assert_eq!((string_of(&word), string_of(&rest)), ("".to_string(), "".to_string()));
}

#[test]
fn commands_and_parameters_are_in_lower_case() {
    let mut context = RotfContext::default(RotfData::new());
    parse_command("  HeLP   LaUNCH \n", &mut context);
    assert_eq!(context.last_cmd, "help");
    assert_eq!(context.last_params, "launch");
    assert!(context.output_text().contains("Launch a new game with 'launch new'"));
    parse_command("ÄÖ Ü", &mut context);
    assert_eq!(context.last_cmd, "äö");
    assert_eq!(context.last_params, "ü");
}

#[test]
fn numbers_are_read_as_the_characters_say() {
    let cases = ["0", "007", "+5", "-5", "+", "-", "", " 5", "5 ", "1_0", "18446744073709551615",
        "18446744073709551616", "9223372036854775807", "9223372036854775808",
        "-9223372036854775808", "-9223372036854775809", "255", "256", "+-1", "--1", "1e3", "٣"];
    for case in cases {
        assert_eq!(parse_u64(&chars(case)), case.parse::<u64>().ok(), "{}", case);
        assert_eq!(parse_i64(&chars(case)), case.parse::<i64>().ok(), "{}", case);
        assert_eq!(parse_u8(&chars(case)), case.parse::<u8>().ok(), "{}", case);
        assert_eq!(parse_usize(&chars(case)), case.parse::<usize>().ok(), "{}", case);
        assert_eq!(parse_bool(&chars(case)), case.parse::<bool>().ok(), "{}", case);
    }
    assert_eq!(parse_u64(&chars("18446744073709551615")), Some(u64::MAX));
    assert_eq!(parse_i64(&chars("-9223372036854775808")), Some(i64::MIN));
    assert_eq!(parse_bool(&chars("true")), Some(true));
    assert_eq!(parse_bool(&chars("false")), Some(false));
    assert_eq!(parse_bool(&chars("True")), None);
}

#[test]
fn numbers_are_written_in_decimal() {
    for n in [0u64, 7, 10, 99, 100, 1234567890, u64::MAX] {
        let mut out = String::from("x");
        push_decimal(&mut out, n);
        assert_eq!(out, format!("x{}", n));
    }
    for i in [0i64, -1, 1, -10, i64::MAX, i64::MIN] {
        let mut out = String::new();
        push_signed(&mut out, i);
        assert_eq!(out, format!("{}", i));
    }
}

#[test]
fn words_are_joined_with_a_separator() {
    assert_eq!(join(&vec![], ", "), "");
    assert_eq!(join(&vec!["a"], ", "), "a");
    assert_eq!(join(&vec!["a", "b", "c"], ", "), "a, b, c");
}

#[test]
fn a_range_is_read_from_its_ends() {
    assert_eq!(IntegerRange::new(), IntegerRange { start: -1, end: -1 });
    assert_eq!(IntegerRange::from_str("3-12"), IntegerRange { start: 3, end: 12 });
    assert_eq!(IntegerRange::from_str("7"), IntegerRange { start: 7, end: 7 });
    assert_eq!(IntegerRange::from_str("a-9"), IntegerRange { start: -1, end: 9 });
    assert_eq!(IntegerRange::from_str("-5-9"), IntegerRange { start: -1, end: -1 });
    assert_eq!(IntegerRange::from_str(" 1-2"), IntegerRange { start: -1, end: 2 });
    assert_eq!(IntegerRange::from_str(""), IntegerRange { start: -1, end: -1 });
    let range = IntegerRange::from_str("3-12");
    assert!(range.contains(3) && range.contains(12) && range.contains(8));
    assert!(!range.contains(2) && !range.contains(13));
    assert_eq!((range.min(), range.max()), (3, 12));
    assert!(!IntegerRange::from_str("9-3").contains(5));
}

#[test]
fn random_numbers_stay_within_their_bounds() {
    let mut seen = [false; 4];
    for _ in 0..400 {
        let n = random_int(2, 5);
        assert!((2..=5).contains(&n));
        seen[(n - 2) as usize] = true;
        let m = random_int(9, 7);
        assert!((7..=9).contains(&m));
        assert!(!random_chance(0));
        assert!(random_chance(100));
        assert!(random_chance(255));
    }
    assert_eq!(seen, [true; 4]);
    assert_eq!(random_int(200, 200), 200);
    assert_eq!(random_int(0, 0), 0);
}

#[test]
fn a_random_choice_is_one_of_the_choices() {
    assert_eq!(random_choice(&vec![]), None);
    assert_eq!(random_choice(&vec![17]), Some(17));
    let choices = vec![3, 5, 8];
    let mut seen = [false; 3];
    for _ in 0..300 {
        let id = random_choice(&choices).unwrap();
        let at = choices.iter().position(|c| *c == id).unwrap();
        seen[at] = true;
    }
    assert_eq!(seen, [true; 3]);
}
