use syntropctl::text::{
    chars_of, contains_chars, decimal_string, prefix_before, repeat_char, str_equal,
    string_of, strip_suffix_repeatedly, trim,
};

fn s(v: Vec<char>) -> String {
    v.into_iter().collect()
}

#[test]
fn trim_removes_unicode_white_space() {
    assert_eq!(s(trim("  abc \t\n")), "abc");
    assert_eq!(s(trim("\u{3000}x y\u{a0}")), "x y");
    assert_eq!(s(trim("   ")), "");
    assert_eq!(s(trim("")), "");
}

#[test]
fn strings_are_built_from_characters() {
    assert_eq!(string_of(&vec!['a', 'ß', '1']), "aß1");
    assert_eq!(string_of(&vec![]), "");
}

#[test]
fn suffix_and_substring_helpers() {
    let unit = chars_of("toold.service.service");
    let suffix = chars_of(".service");
    assert_eq!(s(strip_suffix_repeatedly(&unit, &suffix)), "toold");
    assert!(contains_chars(&chars_of("xxsentryxx"), &chars_of("sentry")));
    assert!(!contains_chars(&chars_of("sent"), &chars_of("sentry")));
    assert!(contains_chars(&chars_of("abc"), &chars_of("")));
    assert!(str_equal("abc", "abc"));
    assert!(!str_equal("abc", "abd"));
}

#[test]
fn split_prefix_and_numbers() {
    assert_eq!(prefix_before("io.syntrop.Test1.Ping", '.'), "io");
    assert_eq!(prefix_before("nodots", '.'), "nodots");
    assert_eq!(prefix_before(".lead", '.'), "");
    assert_eq!(decimal_string(0), "0");
    assert_eq!(decimal_string(1727145100), "1727145100");
    assert_eq!(decimal_string(u64::MAX), "18446744073709551615");
    assert_eq!(repeat_char('-', 3), "---");
}
