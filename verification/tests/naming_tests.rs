use myshortcuts::naming::generate_name;
use myshortcuts::text::{format_dec, parse_u64, split_char, trim_end};

fn names(values: &[&str]) -> Vec<String> {
    values.iter().map(|v| String::from(*v)).collect()
}

#[test]
fn next_name_is_one_past_the_largest() {
    assert_eq!(generate_name(names(&["Default0", "Default3", "Other"])), "Default4");
}

#[test]
fn no_names_yield_default_zero() {
    assert_eq!(generate_name(names(&[])), "Default0");
}

#[test]
fn unparseable_suffixes_do_not_count() {
    assert_eq!(generate_name(names(&["DefaultX", "Other"])), "Default0");
    assert_eq!(generate_name(names(&["Default", "Default7x"])), "Default0");
}

#[test]
fn leading_zeros_parse() {
    assert_eq!(generate_name(names(&["Default007"])), "Default8");
}

#[test]
fn largest_u64_suffix_still_advances() {
    assert_eq!(
        generate_name(names(&["Default18446744073709551615"])),
        "Default18446744073709551616"
    );
}

#[test]
fn split_char_keeps_empty_parts() {
    assert_eq!(split_char("a;b;;c;", ';'), vec!["a", "b", "", "c", ""]);
    assert_eq!(split_char("", ';'), vec![""]);
}

#[test]
fn trim_end_drops_trailing_whitespace_only() {
    assert_eq!(trim_end("a b \n\t "), "a b");
    assert_eq!(trim_end(" lead"), " lead");
    assert_eq!(trim_end("\n"), "");
}

#[test]
fn parse_u64_handles_digits_and_overflow() {
    assert_eq!(parse_u64("0"), Some(0));
    assert_eq!(parse_u64("18446744073709551615"), Some(u64::MAX));
    assert_eq!(parse_u64("18446744073709551616"), None);
    assert_eq!(parse_u64(""), None);
    assert_eq!(parse_u64("12a"), None);
}

#[test]
fn format_dec_writes_decimal() {
    assert_eq!(format_dec(0), "0");
    assert_eq!(format_dec(105), "105");
    assert_eq!(format_dec(18446744073709551616), "18446744073709551616");
}
