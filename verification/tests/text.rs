//! Text: comparing, joining and splitting.
use greenroom::text::{
    chars_of, comes_before, drop_leading, drop_trailing, ends_with, joined, part_at_first,
    part_at_last, same, string_of, strip_start, trim,
};

const TEXTS: [&str; 12] = [
    "", "a", "b", "ab", "a.b", "a.b.c", ".", "..", "é.é", "--a--", "-", "\u{10ffff}z",
];

#[test]
fn texts_compare_as_their_characters_do() {
    for a in TEXTS {
        for b in TEXTS {
            assert_eq!(same(a, b), a == b, "{a:?} {b:?}");
            assert_eq!(comes_before(a, b), a < b, "{a:?} {b:?}");
            assert_eq!(joined(a, b), format!("{a}{b}"));
            assert_eq!(ends_with(a, b), a.ends_with(b), "{a:?} {b:?}");
            assert_eq!(strip_start(a, b), a.strip_prefix(b), "{a:?} {b:?}");
        }
    }
}

#[test]
fn texts_part_at_their_first_and_last_dot() {
    for text in TEXTS {
        assert_eq!(part_at_first(text, '.'), text.split_once('.'), "{text:?}");
        assert_eq!(part_at_last(text, '.'), text.rsplit_once('.'), "{text:?}");
    }
}

#[test]
fn runs_at_the_ends_are_dropped() {
    for text in TEXTS {
        assert_eq!(drop_trailing(text, '-'), text.trim_end_matches('-'), "{text:?}");
        assert_eq!(drop_leading(text, '-'), text.trim_start_matches('-'), "{text:?}");
    }
}

#[test]
fn white_space_at_the_ends_is_trimmed() {
    for text in TEXTS {
        assert_eq!(trim(text), text);
        let padded = format!(" \t\u{3000}{text} {text}\u{85}\r\n");
        assert_eq!(trim(&padded), padded.trim(), "{padded:?}");
    }
    for c in '\0'..=char::MAX {
        let text = format!("{c}a{c}");
        assert_eq!(trim(&text), text.trim(), "{c:?}");
    }
    assert_eq!(trim(" \u{2028} "), "");
}

#[test]
fn characters_spell_their_text() {
    for text in TEXTS {
        let chars = chars_of(text);
        assert_eq!(chars, text.chars().collect::<Vec<char>>());
        assert_eq!(string_of(&chars), text);
    }
}
