use pretok::{find_matches, PatternIterator};
use onig::Regex;

const REFERENCE_PATTERN: &str = r"'(?i:[sdmt]|ll|ve|re)|[^\r\n\p{L}\p{N}]?+\p{L}+|\p{N}{1,3}| ?[^\s\p{L}\p{N}]++[\r\n]*|\s*[\r\n]|\s+(?!\S)|\s+";

fn run_regex(text: &str) -> Vec<&str> {
    let re = Regex::new(REFERENCE_PATTERN).unwrap();
    re.find_iter(text).map(|(start, end)| &text[start..end]).collect()
}

#[test]
fn test_simple_case() {
    let input = "\u{a5}hello";
    let regex_result = run_regex(input);
    let library_result = find_matches(input);

    println!("Input: {:?}", input);
    println!("Regex result: {:?}", regex_result);
    println!("Library result: {:?}", library_result);

    assert_eq!(regex_result, library_result);
}

#[test]
fn test_unicode_case() {
    let input = "\u{115dc}\u{a5}";
    let regex_result = run_regex(input);
    let library_result = find_matches(input);

    println!("Input: {:?}", input);
    println!("Input chars:");
    for (i, c) in input.chars().enumerate() {
        println!(
            "  [{}] '{}' - is_alphabetic: {}, is_numeric: {}, is_whitespace: {}",
            i,
            c,
            c.is_alphabetic(),
            c.is_numeric(),
            c.is_whitespace()
        );
    }
    println!("Regex result: {:?}", regex_result);
    println!("Library result: {:?}", library_result);

    assert_eq!(regex_result, library_result);
}

#[test]
fn test_simple_letter() {
    let input = "hello";
    let regex_result = run_regex(input);
    let library_result = find_matches(input);

    println!("Input: {:?}", input);
    println!("Regex result: {:?}", regex_result);
    println!("Library result: {:?}", library_result);

    assert_eq!(regex_result, library_result);
}

#[test]
fn scenario_plain_word() {
    assert_eq!(find_matches("hello"), vec!["hello"]);
}

#[test]
fn scenario_contraction() {
    assert_eq!(find_matches("don't"), vec!["don", "'t"]);
}

#[test]
fn scenario_contraction_two_chars() {
    assert_eq!(find_matches("I'll go"), vec!["I", "'ll", " go"]);
}

#[test]
fn scenario_digit_groups_capped_at_three() {
    assert_eq!(find_matches("123456"), vec!["123", "456"]);
}

#[test]
fn scenario_word_then_newlines() {
    assert_eq!(find_matches("foo\n\n"), vec!["foo", "\n\n"]);
}

#[test]
fn scenario_two_spaces_between_letters() {
    assert_eq!(find_matches("a  b"), vec!["a", " ", " b"]);
}

#[test]
fn empty_input_gives_no_tokens() {
    assert_eq!(find_matches(""), Vec::<&str>::new());
}

#[test]
fn lone_apostrophe_is_punctuation() {
    assert_eq!(find_matches("'"), run_regex("'"));
    assert_eq!(find_matches("'"), vec!["'"]);
}

#[test]
fn contraction_suffix_fold_is_ascii_case_insensitive() {
    assert_eq!(find_matches("'S"), vec!["'S"]);
    assert_eq!(find_matches("'LL"), vec!["'LL"]);
    assert_eq!(find_matches("'Ve"), vec!["'Ve"]);
    assert_eq!(find_matches("'rE"), run_regex("'rE"));
}

#[test]
fn currency_sign_leads_word() {
    assert_eq!(find_matches("\u{a5}hello"), vec!["\u{a5}hello"]);
}

#[test]
fn nonascii_digits_are_numbers() {
    let input = "\u{661}\u{662}\u{663}\u{664}";
    assert_eq!(find_matches(input), run_regex(input));
    assert_eq!(
        find_matches(input),
        vec!["\u{661}\u{662}\u{663}", "\u{664}"]
    );
}

#[test]
fn space_before_newline_joins_it() {
    let input = "a \nb";
    assert_eq!(find_matches(input), run_regex(input));
    assert_eq!(find_matches(input), vec!["a", " \n", "b"]);
}

#[test]
fn carriage_return_line_feed_run() {
    let input = "x\r\ny";
    assert_eq!(find_matches(input), run_regex(input));
}

#[test]
fn punctuation_with_trailing_newlines() {
    let input = "!!\n\nok";
    assert_eq!(find_matches(input), run_regex(input));
    assert_eq!(find_matches(input), vec!["!!\n\n", "ok"]);
}

#[test]
fn trailing_whitespace_run() {
    let input = "end   ";
    assert_eq!(find_matches(input), run_regex(input));
    assert_eq!(find_matches(input), vec!["end", "   "]);
}

#[test]
fn nonbreaking_space_is_whitespace() {
    let input = "a\u{a0}\u{a0}b";
    assert_eq!(find_matches(input), run_regex(input));
}

#[test]
fn iterator_yields_tokens_then_none() {
    let mut it = PatternIterator::new("don't");
    assert_eq!(it.next(), Some("don"));
    assert_eq!(it.next(), Some("'t"));
    assert_eq!(it.next(), None);
    assert_eq!(it.next(), None);
}

#[test]
fn tokens_concatenate_to_input() {
    let inputs = [
        "hello world",
        "I've 1234 \t\r\n!!",
        "  mixed \u{a5}\u{115dc}\u{661} text\n",
        "'''",
        "\n\n\n",
    ];
    for input in inputs {
        let tokens = find_matches(input);
        let joined: String = tokens.concat();
        assert_eq!(joined, *input);
        for t in tokens {
            assert!(!t.is_empty());
        }
        assert_eq!(find_matches(input), run_regex(input));
    }
}
