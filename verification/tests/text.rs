use oimdp_rs::chars::{
    append, contains, copy_range, find, is_space_char, lines, occurs_here, remove_all, split_on,
    starts_with, strip_leading, to_chars, to_digit, trim,
};
use oimdp_rs::classifier::{
    be_type, classify_line, dic_type, dox_type, level_of, remove_bio_tags, remove_dic_tags,
    remove_dox_tags, remove_header_tags, same_text, LineKind,
};
use oimdp_rs::pattern::char_len;
use oimdp_rs::stripper::{collapse_spaces, remove_phrase_marks};
use oimdp_rs::{BeType, DicType, DoxType};
use regex::Regex;

fn chars(s: &str) -> Vec<char> {
    s.chars().collect()
}

fn string(v: &[char]) -> String {
    v.iter().collect()
}

fn strings(pieces: &[Vec<char>]) -> Vec<String> {
    pieces.iter().map(|p| p.iter().collect()).collect()
}

fn samples() -> Vec<&'static str> {
    vec![
        "",
        " ",
        "a",
        "  a b  ",
        "\t\n a\u{a0}\u{2003}b \r\n",
        "\u{3000}x\u{85}",
        "a  b   c    d",
        "a \t b",
        " \u{1680}\u{2028}\u{2029}\u{202f}\u{205f} ",
        "~~~~a~~b~~",
        "ababab",
        "aaa",
        "no space",
        "a b c d e",
        "  leading",
        "trailing  ",
    ]
}

#[test]
fn white_space_is_what_the_standard_library_says() {
    for u in 0..=0x10FFFFu32 {
        if let Some(c) = char::from_u32(u) {
            assert_eq!(is_space_char(c), c.is_whitespace(), "U+{:04X}", u);
        }
    }
}

#[test]
fn white_space_is_what_the_regex_class_says() {
    let re = Regex::new(r"^\s$").unwrap();
    for u in 0..=0x3100u32 {
        if let Some(c) = char::from_u32(u) {
            assert_eq!(is_space_char(c), re.is_match(&c.to_string()), "U+{:04X}", u);
        }
    }
}

#[test]
fn char_len_is_the_utf8_length() {
    for u in 0..=0x10FFFFu32 {
        if let Some(c) = char::from_u32(u) {
            assert_eq!(char_len(c), c.len_utf8(), "U+{:04X}", u);
        }
    }
}

#[test]
fn to_digit_reads_ascii_digits() {
    for u in 0..=0x10FFFFu32 {
        if let Some(c) = char::from_u32(u) {
            assert_eq!(to_digit(c), c.to_digit(10), "U+{:04X}", u);
        }
    }
    assert_eq!(to_digit('7'), Some(7));
    assert_eq!(to_digit('٧'), None);
}

#[test]
fn to_chars_gives_the_characters() {
    assert_eq!(to_chars("aé𝄞"), vec!['a', 'é', '𝄞']);
    assert_eq!(to_chars(""), Vec::<char>::new());
}

#[test]
fn trim_is_the_standard_trim() {
    for s in samples() {
        assert_eq!(string(&trim(&chars(s))), s.trim(), "{:?}", s);
    }
    assert_eq!(string(&trim(&chars("  a b  "))), "a b");
}

#[test]
fn collapse_is_the_replacement_of_white_space_runs() {
    let re = Regex::new(r"\s{2,}").unwrap();
    for s in samples() {
        assert_eq!(string(&collapse_spaces(&chars(s))), re.replace_all(s, " "), "{:?}", s);
    }
    assert_eq!(string(&collapse_spaces(&chars("a  b \t c d"))), "a b c d");
    assert_eq!(string(&collapse_spaces(&chars("a\tb"))), "a\tb");
    assert_eq!(string(&collapse_spaces(&chars("   "))), " ");
}

#[test]
fn remove_all_is_the_standard_replace() {
    for s in samples() {
        for p in ["a", "ab", "aa", "~~", " ", "  ", "x", "aba"] {
            assert_eq!(string(&remove_all(&chars(s), &chars(p))), s.replace(p, ""), "{:?} {:?}", s, p);
        }
        assert_eq!(string(&remove_all(&chars(s), &chars(""))), s.replace("", ""));
    }
    assert_eq!(string(&remove_all(&chars("aaa"), &chars("aa"))), "a");
    assert_eq!(string(&remove_all(&chars("xabay"), &chars("ab"))), "xay");
}

#[test]
fn strip_leading_is_the_standard_trim_start_matches() {
    for s in samples() {
        for p in ["a", "ab", "aa", "~~", " ", "  ", "x"] {
            assert_eq!(
                string(&strip_leading(&chars(s), &chars(p))),
                s.trim_start_matches(p),
                "{:?} {:?}",
                s,
                p
            );
        }
    }
    assert_eq!(string(&strip_leading(&chars("~~~~~x~~"), &chars("~~"))), "~x~~");
    assert_eq!(string(&strip_leading(&chars("abc"), &chars(""))), "abc");
}

#[test]
fn starts_with_and_contains_are_the_standard_ones() {
    for s in samples() {
        for p in ["", "a", "ab", "aa", "~~", " ", "  ", "x", "a b", "b"] {
            assert_eq!(starts_with(&chars(s), &chars(p)), s.starts_with(p), "{:?} {:?}", s, p);
            assert_eq!(contains(&chars(s), &chars(p)), s.contains(p), "{:?} {:?}", s, p);
            assert_eq!(
                find(&chars(s), &chars(p)),
                s.find(p).map(|b| s[..b].chars().count()),
                "{:?} {:?}",
                s,
                p
            );
        }
    }
    assert!(occurs_here(&chars("abcabc"), &chars("bc"), 4));
    assert!(!occurs_here(&chars("abcabc"), &chars("bc"), 5));
    assert!(!occurs_here(&chars("abcabc"), &chars("bc"), 7));
    assert!(occurs_here(&chars("abc"), &chars(""), 3));
}

#[test]
fn split_on_is_the_standard_split() {
    for s in samples() {
        assert_eq!(
            strings(&split_on(&chars(s), ' ')),
            s.split(' ').map(|w| w.to_string()).collect::<Vec<_>>(),
            "{:?}",
            s
        );
    }
    assert_eq!(strings(&split_on(&chars("a  b "), ' ')), vec!["a", "", "b", ""]);
    assert_eq!(strings(&split_on(&chars(""), ' ')), vec![""]);
}

#[test]
fn lines_are_the_standard_lines() {
    for s in [
        "",
        "\n",
        "a",
        "a\n",
        "a\nb",
        "a\r\nb\r\n",
        "a\rb\n",
        "a\r",
        "\r\n\r\n",
        "a\n\nb\n\n",
        "\n\na",
        "a\r\r\nb",
    ] {
        assert_eq!(
            strings(&lines(&chars(s))),
            s.lines().map(|l| l.to_string()).collect::<Vec<_>>(),
            "{:?}",
            s
        );
    }
    assert_eq!(strings(&lines(&chars("a\r\nb\n\nc"))), vec!["a", "b", "", "c"]);
}

#[test]
fn copy_and_append() {
    assert_eq!(string(&copy_range(&chars("hello"), 1, 3)), "el");
    assert_eq!(string(&copy_range(&chars("hello"), 5, 5)), "");
    let mut v = chars("ab");
    append(&mut v, &chars("cd"));
    assert_eq!(string(&v), "abcd");
}

#[test]
fn same_text_compares() {
    assert!(same_text(&chars("abc"), &chars("abc")));
    assert!(!same_text(&chars("abc"), &chars("abd")));
    assert!(!same_text(&chars("abc"), &chars("ab")));
    assert!(same_text(&chars(""), &chars("")));
}

#[test]
fn phrase_marks_are_taken_out_in_turn() {
    assert_eq!(
        string(&remove_phrase_marks(&chars("a%~%bMilestone300c@MATN@d@HUKM@e#$#FROMf#$#TOWAg#$#DISTh"))),
        "abcdefgh"
    );
    assert_eq!(string(&remove_phrase_marks(&chars("%~@MATN@%"))), "%~%");
    assert_eq!(string(&remove_phrase_marks(&chars("@MA%~%TN@"))), "");
}

#[test]
fn line_kinds_in_order() {
    let kind = |s: &str| classify_line(&chars(s), false, false, false, false);
    assert_eq!(kind("#META# x"), LineKind::Metadata);
    assert_eq!(kind("PageV01P002"), LineKind::PageNumber);
    assert_eq!(kind("# $RWY$ x"), LineKind::Riwayat);
    assert_eq!(kind("#$#FROM x"), LineKind::Route);
    assert_eq!(kind("~~ x"), LineKind::TaggedLine);
    assert_eq!(kind("### |EDITOR| x"), LineKind::Editorial);
    assert_eq!(kind("### | x"), LineKind::Header);
    assert_eq!(kind("### ||||| x"), LineKind::Header);
    assert_eq!(kind("### $DIC_NIS$ x"), LineKind::Dictionary);
    assert_eq!(kind("### $DOX_POS$ x"), LineKind::Doxography);
    assert_eq!(kind("### $BIO_MAN$ x"), LineKind::Biography);
    assert_eq!(kind("### @ x"), LineKind::Biography);
    assert_eq!(kind("### $ x"), LineKind::Other);
    assert_eq!(kind("x"), LineKind::Other);
    assert_eq!(kind(""), LineKind::Other);
}

#[test]
fn line_kinds_with_what_the_patterns_found() {
    let line = chars("### | x");
    assert_eq!(classify_line(&line, true, true, true, true), LineKind::Morphological);
    assert_eq!(classify_line(&line, false, true, true, true), LineKind::Paragraph);
    assert_eq!(classify_line(&line, false, false, true, true), LineKind::Header);
    let line = chars("x");
    assert_eq!(classify_line(&line, false, false, true, true), LineKind::Biography);
    assert_eq!(classify_line(&line, false, false, false, true), LineKind::Region);
    let line = chars("#META# x");
    assert_eq!(classify_line(&line, true, true, true, true), LineKind::Metadata);
    let line = chars("~~ x");
    assert_eq!(classify_line(&line, false, true, false, false), LineKind::Paragraph);
}

#[test]
fn header_levels_by_the_longest_marker() {
    assert_eq!(level_of(&chars("### | x")), 1);
    assert_eq!(level_of(&chars("### || x")), 2);
    assert_eq!(level_of(&chars("### ||| x")), 3);
    assert_eq!(level_of(&chars("### |||| x")), 4);
    assert_eq!(level_of(&chars("### ||||| x")), 5);
    assert_eq!(level_of(&chars("### |||||||| x")), 5);
    assert_eq!(level_of(&chars("x")), 1);
    assert_eq!(level_of(&chars("### | x ### ||| y")), 3);
    assert_eq!(string(&remove_header_tags(&chars("### ||| x ### | y"))), " x  y");
}

#[test]
fn subtypes() {
    assert_eq!(dic_type(&chars("### $DIC_TOP$ ### $DIC_LEX$")), DicType::Lex);
    assert_eq!(dic_type(&chars("### $DIC_TOP$ ### $DIC_NIS$")), DicType::Nis);
    assert_eq!(dic_type(&chars("### $DIC_TOP$")), DicType::Top);
    assert_eq!(dic_type(&chars("")), DicType::Bib);
    assert_eq!(dox_type(&chars("### $DOX_POS$ ### $DOX_SEC$")), DoxType::Sec);
    assert_eq!(dox_type(&chars("### $DOX_POS$")), DoxType::Pos);
    assert_eq!(be_type(&chars("### $$$$")), BeType::Names);
    assert_eq!(be_type(&chars("### $$$")), BeType::Ref);
    assert_eq!(be_type(&chars("### $$")), BeType::Wom);
    assert_eq!(be_type(&chars("### $")), BeType::Man);
    assert_eq!(be_type(&chars("### @ RAW")), BeType::Events);
    assert_eq!(be_type(&chars("### @")), BeType::Event);
    assert_eq!(be_type(&chars("### @ ### $$")), BeType::Wom);
    assert_eq!(string(&remove_dic_tags(&chars("a### $DIC_BIB$b### $DIC_NIS$c"))), "abc");
    assert_eq!(string(&remove_dox_tags(&chars("a### $DOX_SEC$b### $DOX_POS$c"))), "abc");
    assert_eq!(string(&remove_bio_tags(&chars("### $$$$a### $$b### $c### @ RAWd### @e"))), "abcde");
    assert_eq!(string(&remove_bio_tags(&chars("### $CHR_EVE$a### $CHR_RAW$b"))), "CHR_EVE$aCHR_RAW$b");
}
