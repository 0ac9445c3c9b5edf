use halo::text::{
    byte_count, chars_of, ends_with, insert_char_at, insert_sorted, is_before, parse_u8,
    remove_char_at, ring_next, ring_previous, same_chars, same_text, split_fields, split_words,
    starts_with, string_of, string_of_range, strings_of, sub_chars, to_ascii_lower, to_digit,
    to_lower, trim, trim_chars,
};

fn chars(s: &str) -> Vec<char> {
    s.chars().collect()
}

#[test]
fn chars_and_strings_convert_both_ways() {
    assert_eq!(chars_of("a\u{2714}b"), vec!['a', '\u{2714}', 'b']);
    assert_eq!(chars_of(""), Vec::<char>::new());
    assert_eq!(string_of(&['h', 'i', '\u{fc}']), "hi\u{fc}");
    assert_eq!(string_of(&[]), "");
    assert_eq!(string_of_range(&chars("hello"), 1, 4), "ell");
    assert_eq!(sub_chars(&chars("hello"), 2, 2), Vec::<char>::new());
    assert_eq!(sub_chars(&chars("hello"), 0, 5), chars("hello"));
}

#[test]
fn trim_removes_white_space_at_both_ends() {
    assert_eq!(trim("  ls -l \t\n"), "ls -l");
    assert_eq!(trim("x"), "x");
    assert_eq!(trim(""), "");
    assert_eq!(trim(" \t "), "");
    assert_eq!(trim("\u{3000}wide\u{a0}"), "wide");
    assert_eq!(trim_chars(&chars(" a b ")), chars("a b"));
}

#[test]
fn words_are_runs_without_white_space() {
    let words = split_words(&chars("  git   commit -m\tmsg "));
    assert_eq!(words, vec![chars("git"), chars("commit"), chars("-m"), chars("msg")]);
    assert_eq!(split_words(&chars("")), Vec::<Vec<char>>::new());
    assert_eq!(split_words(&chars("   ")), Vec::<Vec<char>>::new());
    assert_eq!(split_words(&chars("one")), vec![chars("one")]);
}

#[test]
fn prefixes_and_suffixes() {
    assert!(starts_with(&chars("cargo"), &chars("car")));
    assert!(starts_with(&chars("cargo"), &chars("")));
    assert!(starts_with(&chars("cargo"), &chars("cargo")));
    assert!(!starts_with(&chars("car"), &chars("cargo")));
    assert!(!starts_with(&chars("cargo"), &chars("cat")));
    assert!(ends_with(&chars("theme.toml"), &chars(".toml")));
    assert!(ends_with(&chars(".toml"), &chars(".toml")));
    assert!(!ends_with(&chars("toml"), &chars(".toml")));
    assert!(!ends_with(&chars("theme.tomL"), &chars(".toml")));
}

#[test]
fn equal_texts() {
    assert!(same_chars(&chars("abc"), &chars("abc")));
    assert!(!same_chars(&chars("abc"), &chars("abd")));
    assert!(!same_chars(&chars("abc"), &chars("ab")));
    assert!(same_text("", ""));
    assert!(same_text("exit", "exit"));
    assert!(!same_text("exit", "exit "));
}

#[test]
fn order_is_that_of_the_code_points() {
    assert!(is_before(&chars("a"), &chars("b")));
    assert!(is_before(&chars(""), &chars("a")));
    assert!(is_before(&chars("ab"), &chars("abc")));
    assert!(is_before(&chars("Z"), &chars("a")));
    assert!(is_before(&chars("z"), &chars("\u{e9}")));
    assert!(!is_before(&chars("b"), &chars("a")));
    assert!(!is_before(&chars("abc"), &chars("abc")));
    assert!(!is_before(&chars("abc"), &chars("ab")));
    assert!(!is_before(&chars(""), &chars("")));
    let mut names = vec!["pwd", "cd", "exit", "Zed", "cat", "\u{e9}t\u{e9}", ""];
    names.sort();
    for pair in names.windows(2) {
        assert!(is_before(&chars(pair[0]), &chars(pair[1])));
    }
}

#[test]
fn digits_of_a_base() {
    assert_eq!(to_digit('0', 10), Some(0));
    assert_eq!(to_digit('9', 10), Some(9));
    assert_eq!(to_digit('a', 10), None);
    assert_eq!(to_digit('a', 16), Some(10));
    assert_eq!(to_digit('F', 16), Some(15));
    assert_eq!(to_digit('g', 16), None);
    assert_eq!(to_digit('z', 36), Some(35));
    assert_eq!(to_digit(' ', 16), None);
    for c in ['0', '7', 'a', 'f', 'A', 'Z', 'g', '-', '\u{e9}'] {
        assert_eq!(to_digit(c, 16), c.to_digit(16));
        assert_eq!(to_digit(c, 10), c.to_digit(10));
    }
}

#[test]
fn numbers_below_256() {
    assert_eq!(parse_u8(&chars("0"), 10), Some(0));
    assert_eq!(parse_u8(&chars("255"), 10), Some(255));
    assert_eq!(parse_u8(&chars("256"), 10), None);
    assert_eq!(parse_u8(&chars("0255"), 10), Some(255));
    assert_eq!(parse_u8(&chars("+7"), 10), Some(7));
    assert_eq!(parse_u8(&chars("-7"), 10), None);
    assert_eq!(parse_u8(&chars(""), 10), None);
    assert_eq!(parse_u8(&chars("+"), 10), None);
    assert_eq!(parse_u8(&chars("1 "), 10), None);
    assert_eq!(parse_u8(&chars("99999999999999999999999999"), 10), None);
    assert_eq!(parse_u8(&chars("ff"), 16), Some(255));
    assert_eq!(parse_u8(&chars("Ff"), 16), Some(255));
    assert_eq!(parse_u8(&chars("+a"), 16), Some(10));
    assert_eq!(parse_u8(&chars("1g"), 16), None);
    assert_eq!(parse_u8(&chars("100"), 16), None);
    for text in ["", "+", "0", "12", "255", "256", "+255", "++1", "a", "1_0", "007"] {
        assert_eq!(parse_u8(&chars(text), 10), text.parse::<u8>().ok(), "{}", text);
        assert_eq!(parse_u8(&chars(text), 16), u8::from_str_radix(text, 16).ok(), "{}", text);
    }
}

#[test]
fn fields_between_separators() {
    assert_eq!(
        split_fields(&chars("a,b,,c"), ','),
        vec![chars("a"), chars("b"), chars(""), chars("c")]
    );
    assert_eq!(split_fields(&chars(""), ','), vec![chars("")]);
    assert_eq!(split_fields(&chars(","), ','), vec![chars(""), chars("")]);
    assert_eq!(split_fields(&chars("abc"), ','), vec![chars("abc")]);
    assert_eq!(split_fields(&chars("1, 2 ,3"), ','), vec![chars("1"), chars(" 2 "), chars("3")]);
}

#[test]
fn small_letters() {
    assert_eq!(to_lower(&chars("MaGenta-\u{c9}9")), chars("magenta-\u{c9}9"));
    assert_eq!(to_lower(&chars("")), chars(""));
}

#[test]
fn sorted_insertion_keeps_order_and_each_text_once() {
    let mut list: Vec<Vec<char>> = Vec::new();
    for name in ["pwd", "cd", "exit", "cd", "cat", "pwd", ""] {
        insert_sorted(&mut list, chars(name));
    }
    assert_eq!(list, vec![chars(""), chars("cat"), chars("cd"), chars("exit"), chars("pwd")]);
    assert_eq!(strings_of(&list), vec!["", "cat", "cd", "exit", "pwd"]);
}

#[test]
fn white_space_is_the_unicode_property() {
    // Every character with the property separates words, and no other does.
    let spaces = [
        '\u{9}', '\u{a}', '\u{b}', '\u{c}', '\u{d}', ' ', '\u{85}', '\u{a0}', '\u{1680}',
        '\u{2000}', '\u{2005}', '\u{200a}', '\u{2028}', '\u{2029}', '\u{202f}', '\u{205f}',
        '\u{3000}',
    ];
    for c in spaces {
        let text = format!("a{c}b");
        assert_eq!(split_words(&chars(&text)), vec![vec!['a'], vec!['b']], "{:?}", c);
        assert_eq!(trim(&format!("{c}a{c}")), "a", "{:?}", c);
    }
    let others = ['\u{8}', '\u{e}', '\u{1f}', '_', '\u{84}', '\u{86}', '\u{200b}', '\u{2060}', '\u{feff}'];
    for c in others {
        let text = format!("a{c}b");
        assert_eq!(split_words(&chars(&text)), vec![chars(&text)], "{:?}", c);
    }
}

#[test]
fn only_the_capital_letters_of_ascii_are_made_small() {
    assert_eq!(to_ascii_lower('A'), 'a');
    assert_eq!(to_ascii_lower('M'), 'm');
    assert_eq!(to_ascii_lower('Z'), 'z');
    for c in ['@', '[', 'a', 'z', '0', ' ', '\u{c9}', '\u{e9}', '\u{130}'] {
        assert_eq!(to_ascii_lower(c), c);
    }
    for code in 0u32..0x250 {
        let c = char::from_u32(code).unwrap();
        assert_eq!(to_ascii_lower(c), c.to_ascii_lowercase());
    }
}

#[test]
fn bytes_are_counted_in_utf8() {
    assert_eq!(byte_count(""), 0);
    assert_eq!(byte_count("abc"), 3);
    assert_eq!(byte_count("a\u{e9}\u{20ac}\u{1f4c1}"), 10);
}

#[test]
fn a_character_goes_in_at_a_byte_offset_of_the_text() {
    assert_eq!(insert_char_at("", 0, 'x'), "x");
    assert_eq!(insert_char_at("ac", 1, 'b'), "abc");
    assert_eq!(insert_char_at("a\u{e9}c", 3, '\u{20ac}'), "a\u{e9}\u{20ac}c");
    assert_eq!(insert_char_at("a\u{e9}c", 4, '!'), "a\u{e9}c!");
}

#[test]
fn a_character_is_taken_out_at_a_byte_offset_of_the_text() {
    assert_eq!(remove_char_at("x", 0), "");
    assert_eq!(remove_char_at("a\u{e9}c", 1), "ac");
    assert_eq!(remove_char_at("a\u{e9}c", 3), "a\u{e9}");
    assert_eq!(remove_char_at("\u{1f4c1}b", 0), "b");
}

#[test]
fn the_places_of_a_ring_follow_each_other() {
    assert_eq!(ring_next(0, 3), 1);
    assert_eq!(ring_next(2, 3), 0);
    assert_eq!(ring_next(7, 3), 2);
    assert_eq!(ring_next(0, 1), 0);
    assert_eq!(ring_next(usize::MAX, 4), 0);
    assert_eq!(ring_previous(0, 3), 2);
    assert_eq!(ring_previous(2, 3), 1);
    assert_eq!(ring_previous(7, 3), 0);
    assert_eq!(ring_previous(0, 1), 0);
    assert_eq!(ring_previous(usize::MAX, 4), 2);
}
