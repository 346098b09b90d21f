use sitecheck::text::{chars_of, signed_text, split_words, trim, unsigned_text};

const SAMPLES: [&str; 14] = [
    "",
    " ",
    "one",
    "  one",
    "one  ",
    " one two\tthree\nfour\r\nfive ",
    "\u{a0}no-break\u{2003}em space\u{3000}wide",
    "a\u{85}b",
    "tab\tseparated\t\tvalues",
    "ünïcödé wörds hier",
    "越 南",
    "\u{200b}zero width is no space\u{200b}",
    "x",
    "\n\n\n",
];

#[test]
fn chars_are_listed_in_order() {
    for text in SAMPLES {
        assert_eq!(chars_of(text), text.chars().collect::<Vec<char>>());
    }
}

#[test]
fn words_are_split_as_the_standard_library_splits_them() {
    for text in SAMPLES {
        let expected: Vec<String> = text.split_whitespace().map(|w| w.to_string()).collect();
        assert_eq!(split_words(text), expected, "{:?}", text);
    }
}

#[test]
fn words_of_a_plain_sentence() {
    assert_eq!(split_words("the quick  brown fox"), vec!["the", "quick", "brown", "fox"]);
    assert_eq!(split_words("   "), Vec::<String>::new());
}

#[test]
fn text_is_trimmed_as_the_standard_library_trims_it() {
    for text in SAMPLES {
        assert_eq!(trim(text), text.trim(), "{:?}", text);
    }
}

#[test]
fn trimming_keeps_inner_space() {
    assert_eq!(trim("  a  b  "), "a  b");
    assert_eq!(trim("\t\n"), "");
    assert_eq!(trim("ab"), "ab");
}

#[test]
fn unsigned_numbers_in_decimal() {
    assert_eq!(unsigned_text(0), "0");
    assert_eq!(unsigned_text(7), "7");
    assert_eq!(unsigned_text(10), "10");
    assert_eq!(unsigned_text(1234567890), "1234567890");
    assert_eq!(unsigned_text(u64::MAX as u128), "18446744073709551615");
    assert_eq!(unsigned_text(u128::MAX), u128::MAX.to_string());
    for n in 0..1200u128 {
        assert_eq!(unsigned_text(n), n.to_string());
    }
}

#[test]
fn signed_numbers_in_decimal() {
    assert_eq!(signed_text(0), "0");
    assert_eq!(signed_text(-1), "-1");
    assert_eq!(signed_text(200), "200");
    assert_eq!(signed_text(i32::MAX), "2147483647");
    assert_eq!(signed_text(i32::MIN), "-2147483648");
    for n in -120..120 {
        assert_eq!(signed_text(n), n.to_string());
    }
}
