use tollgate::text::{
    chars_of, contains_chars, push_decimal, push_padded_end, push_padded_start, push_run,
    same_ignoring_case, same_text, signed_text, text_of, to_lower,
};

fn contains(text: &str, part: &str) -> bool {
    contains_chars(&chars_of(text), &chars_of(part))
}

#[test]
fn contains_finds_a_part_at_either_end_and_inside() {
    assert!(contains("abcdef", "abc"));
    assert!(contains("abcdef", "def"));
    assert!(contains("abcdef", "cd"));
    assert!(contains("abcdef", "abcdef"));
    assert!(!contains("abcdef", "abd"));
    assert!(!contains("abc", "abcd"));
    assert!(contains("aab", "ab"));
    assert!(contains("", ""));
    assert!(!contains("", "a"));
}

#[test]
fn same_text_holds_for_equal_strings_only() {
    assert!(same_text("GET", "GET"));
    assert!(!same_text("GET", "get"));
    assert!(!same_text("GET", "GETS"));
    assert!(same_text("", ""));
}

#[test]
fn case_is_ignored_for_ascii_letters_only() {
    assert!(same_ignoring_case("HTML", "html"));
    assert!(same_ignoring_case("HtMl", "hTmL"));
    assert!(!same_ignoring_case("htm", "html"));
    assert!(!same_ignoring_case("É", "é"));
    assert_eq!('a', to_lower('A'));
    assert_eq!('z', to_lower('Z'));
    assert_eq!('a', to_lower('a'));
    assert_eq!('[', to_lower('['));
    assert_eq!('@', to_lower('@'));
}

#[test]
fn characters_and_strings_convert_both_ways() {
    let chars = chars_of("a│b");
    assert_eq!(vec!['a', '│', 'b'], chars);
    assert_eq!("a│b", text_of(&chars));
}

#[test]
fn numbers_are_written_in_decimal() {
    let mut out = String::from("n=");
    push_decimal(&mut out, 0);
    out.push(',');
    push_decimal(&mut out, 7);
    out.push(',');
    push_decimal(&mut out, 1234567890);
    out.push(',');
    push_decimal(&mut out, u64::MAX);
    assert_eq!("n=0,7,1234567890,18446744073709551615", out);
}

#[test]
fn texts_are_padded_to_a_width() {
    let mut out = String::new();
    push_padded_start(&mut out, "ab", 5);
    out.push('|');
    push_padded_end(&mut out, "ab", 5);
    out.push('|');
    push_padded_start(&mut out, "abcdef", 5);
    out.push('|');
    push_padded_end(&mut out, "abcdef", 5);
    out.push('|');
    push_padded_end(&mut out, "日志", 4);
    out.push('|');
    push_run(&mut out, '-', 3);
    assert_eq!("   ab|ab   |abcdef|abcdef|日志  |---", out);
}

#[test]
fn whole_numbers_are_written_with_their_sign() {
    assert_eq!("0", signed_text(0));
    assert_eq!("-1", signed_text(-1));
    assert_eq!("170141183460469231731687303715884105727", signed_text(i128::MAX));
    assert_eq!("-170141183460469231731687303715884105727", signed_text(i128::MIN + 1));
}
