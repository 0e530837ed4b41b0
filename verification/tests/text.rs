use dx_build::paths::same_path;
use dx_build::response_file::{decode, utf16_text};
use dx_build::text::{
    chars_of, is_white_space, push_decimal, split_at, trim_ends, trim_start_matches, Ends,
};
use std::path::Path;

fn text(chars: &[char]) -> String {
    chars.iter().collect()
}

#[test]
fn white_space_is_what_unicode_says() {
    for code in 0..=0x10ffff_u32 {
        if let Some(c) = char::from_u32(code) {
            assert_eq!(is_white_space(c), c.is_whitespace(), "{code:x}");
        }
    }
}

#[test]
fn utf16_is_decoded_unit_by_unit() {
    let samples: Vec<Vec<u16>> = vec![
        vec![],
        vec![0xd834, 0xdd1e, 0x6d, 0x75, 0x73, 0xdd1e, 0x69, 0x63, 0xd834],
        vec![0xd800, 0xd800, 0xdc00],
        vec![0xdbff, 0xdfff],
        vec![0xd800, 0x41],
        vec![0xdc00, 0xd800],
        vec![0xd7ff, 0xe000, 0xffff],
    ];
    for units in samples {
        assert_eq!(text(&utf16_text(&units)), String::from_utf16_lossy(&units));
    }
    for unit in 0..=0xffff_u16 {
        let units = vec![unit];
        assert_eq!(text(&utf16_text(&units)), String::from_utf16_lossy(&units));
    }
}

#[test]
fn command_files_are_utf8_or_else_utf16() {
    assert_eq!(text(&decode(&"h\u{e9}llo \u{1f980}".as_bytes().to_vec())), "h\u{e9}llo \u{1f980}");
    assert_eq!(text(&decode(&vec![0xff, 0xfe, 0x41, 0x00])), "\u{feff}A");
    assert_eq!(text(&decode(&vec![0xff])), "");
    assert_eq!(text(&decode(&vec![])), "");
}

#[test]
fn text_is_cut_and_trimmed() {
    let pieces = split_at(&chars_of("a,,b,"), ',');
    let pieces: Vec<String> = pieces.iter().map(|piece| text(piece)).collect();
    assert_eq!(pieces, vec!["a", "", "b", ""]);
    assert_eq!(split_at(&chars_of(""), ',').len(), 1);

    let trimmed = |s: &str, ends: Ends| text(&trim_ends(&chars_of(s), ends));
    assert_eq!(trimmed(" \ta b\u{3000}\n", Ends::WhiteSpace), "a b");
    assert_eq!(trimmed("  ", Ends::WhiteSpace), "");
    assert_eq!(trimmed("\"\"a\"b\"", Ends::Quotes), "a\"b");

    assert_eq!(trim_start_matches("ababac", "ab"), "ac");
    assert_eq!(trim_start_matches("\u{e9}b", "b"), "\u{e9}b");
    assert_eq!(trim_start_matches("abab", "ab"), "");
}

#[test]
fn numbers_are_written_in_decimal() {
    for n in [0_u64, 7, 9, 10, 42, 100, 1234567890, 1700000000000, u64::MAX] {
        let mut out = "n".to_string();
        push_decimal(&mut out, n);
        assert_eq!(out, format!("n{n}"));
    }
}

#[test]
fn paths_are_compared_by_their_components() {
    let paths = [
        "", ".", "./", "/", "//", "/.", "a", "./a", "a/", "a//", "a/.", "a/./b", "a/b", "a//b",
        "/a", "//a", "/./a", "/a/", "a/../b", "..", "../a", "././a", "b", "a/.b", ".a", "/a/b",
    ];
    for a in paths {
        for b in paths {
            assert_eq!(same_path(a, b), Path::new(a) == Path::new(b), "{a:?} {b:?}");
        }
    }
}
