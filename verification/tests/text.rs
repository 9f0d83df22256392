use webpage_scraper::text::char_is_whitespace;
use webpage_scraper::text::chars_of;
use webpage_scraper::text::count_words;
use webpage_scraper::text::cut_before;
use webpage_scraper::text::ends_with;
use webpage_scraper::text::find_char;
use webpage_scraper::text::first_token_bounds;
use webpage_scraper::text::scan_from;
use webpage_scraper::text::starts_with;

fn chars(s: &str) -> Vec<char> {
    s.chars().collect()
}

#[test]
fn whitespace_is_what_std_calls_whitespace() {
    let mut code: u32 = 0;
    while code <= 0x10FFFF {
        if let Some(c) = char::from_u32(code) {
            assert_eq!(char_is_whitespace(c), c.is_whitespace(), "U+{:04X}", code);
        }
        code += 1;
    }
}

#[test]
fn chars_of_keeps_every_character_in_order() {
    assert_eq!(chars_of(""), Vec::<char>::new());
    assert_eq!(chars_of("a,b"), vec!['a', ',', 'b']);
    assert_eq!(chars_of("vi\u{1EC7}t nam"), chars("vi\u{1EC7}t nam"));
}

#[test]
fn find_char_gives_the_first_position() {
    assert_eq!(find_char(&chars("a,b,c"), ','), Some(1));
    assert_eq!(find_char(&chars(",x"), ','), Some(0));
    assert_eq!(find_char(&chars("abc"), ','), None);
    assert_eq!(find_char(&chars(""), ','), None);
    assert_eq!(find_char(&chars("\u{00E9}\u{00E9};"), ';'), Some(2));
}

#[test]
fn scan_from_stops_at_the_wanted_kind() {
    let s = chars("  ab  c");
    assert_eq!(scan_from(&s, 0, false), 2);
    assert_eq!(scan_from(&s, 2, true), 4);
    assert_eq!(scan_from(&s, 4, false), 6);
    assert_eq!(scan_from(&s, 6, true), 7);
    assert_eq!(scan_from(&s, 7, true), 7);
    assert_eq!(scan_from(&chars("   "), 0, false), 3);
    assert_eq!(scan_from(&s, 9, false), 7);
    assert_eq!(scan_from(&chars(""), 0, true), 0);
}

#[test]
fn first_token_bounds_cover_the_first_word() {
    assert_eq!(first_token_bounds(&chars("a.png 100w")), Some((0, 5)));
    assert_eq!(first_token_bounds(&chars("  b.jpg\t200w")), Some((2, 7)));
    assert_eq!(first_token_bounds(&chars("word")), Some((0, 4)));
    assert_eq!(first_token_bounds(&chars("\u{3000}x")), Some((1, 2)));
    assert_eq!(first_token_bounds(&chars("   ")), None);
    assert_eq!(first_token_bounds(&chars("")), None);
}

#[test]
fn count_words_counts_whitespace_delimited_tokens() {
    assert_eq!(count_words(""), 0);
    assert_eq!(count_words("   \n\t "), 0);
    assert_eq!(count_words("one"), 1);
    assert_eq!(count_words("# Title\n\nSome text here.\n"), 5);
    assert_eq!(count_words("  leading and trailing  "), 3);
    assert_eq!(count_words("a\u{00A0}b\u{2003}c\u{3000}d"), 4);
}

#[test]
fn count_words_agrees_with_split_whitespace() {
    let samples = [
        "",
        " ",
        "a",
        " a",
        "a ",
        "a b",
        "a  b",
        "\ta\nb\r\nc ",
        "x\u{0085}y\u{1680}z",
        "caf\u{00E9} au lait",
        "| a | b |\n|---|---|\n| 1 | 2 |",
        "\u{200B}zero\u{200B}width is no space",
    ];
    for sample in samples {
        assert_eq!(count_words(sample), sample.split_whitespace().count(), "{:?}", sample);
    }
}

#[test]
fn starts_with_and_ends_with_compare_characters() {
    assert!(starts_with(&chars("data:image/png"), &chars("data:image")));
    assert!(!starts_with(&chars("data:text"), &chars("data:image")));
    assert!(!starts_with(&chars("data"), &chars("data:image")));
    assert!(starts_with(&chars("abc"), &chars("")));
    assert!(ends_with(&chars("a.jpeg"), &chars(".jpeg")));
    assert!(!ends_with(&chars("a.jpeg"), &chars(".jpg")));
    assert!(!ends_with(&chars("jpg"), &chars(".jpg")));
    assert!(ends_with(&chars(".jpg"), &chars(".jpg")));
    assert!(ends_with(&chars("abc"), &chars("")));
}

#[test]
fn cut_before_stops_at_the_first_occurrence() {
    assert_eq!(cut_before(&chars("a.png?v=1?w=2"), '?'), &chars("a.png")[..]);
    assert_eq!(cut_before(&chars("a.png"), '?'), &chars("a.png")[..]);
    assert_eq!(cut_before(&chars("#a"), '#'), &chars("")[..]);
    assert_eq!(cut_before(&chars(""), '#'), &chars("")[..]);
}
