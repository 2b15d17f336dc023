//! Sources, their extension hints, and the text operations behind them.

use horriplayer::names::{extension, stem};
use horriplayer::source::Source;
use horriplayer::text::{blank, chars_of, has_prefix, parse_decimal, push_decimal, trimmed};

#[test]
fn parses_sources() {
    assert!(matches!(Source::parse("https://example.com/a.flac"), Source::Url(_)));
    assert!(matches!(Source::parse(r"C:\music\a.flac"), Source::File(_)));
}

#[test]
fn hints_extension_for_files_and_urls() {
    // Extension hints let the demuxer be picked without sniffing.
    let f = Source::parse("/music/song.flac");
    let u = Source::parse("https://host/rest/stream.m4a?id=7&u=admin");
    assert_eq!(f.hint(), Some("flac".to_string()));
    assert_eq!(u.hint(), Some("m4a".to_string()));
}

#[test]
fn only_http_is_a_url() {
    assert!(matches!(Source::parse("http://a"), Source::Url(u) if u == "http://a"));
    assert!(matches!(Source::parse("ftp://a"), Source::File(p) if p == "ftp://a"));
    assert!(matches!(Source::parse("HTTP://a"), Source::File(_)));
    assert!(matches!(Source::parse("http:/"), Source::File(_)));
    assert!(matches!(Source::parse(""), Source::File(_)));
}

#[test]
fn url_hints_end_at_the_query_and_are_short() {
    assert_eq!(Source::parse("http://h/a.FLAC").hint(), Some("flac".to_string()));
    assert_eq!(Source::parse("http://h/a.mp3?x=b.ogg").hint(), Some("mp3".to_string()));
    assert_eq!(Source::parse("http://h/stream").hint(), None);
    assert_eq!(Source::parse("http://h/a.12345").hint(), Some("12345".to_string()));
    assert_eq!(Source::parse("http://h/a.123456").hint(), None);
    // five characters, but more than five bytes
    assert_eq!(Source::parse("http://h/a.ąęćżź").hint(), None);
    assert_eq!(Source::parse("http://h/a.").hint(), Some("".to_string()));
}

#[test]
fn file_hints_come_from_the_final_component() {
    assert_eq!(Source::parse("/music.d/Song.MP3").hint(), Some("mp3".to_string()));
    assert_eq!(Source::parse("/music.d/song").hint(), None);
    assert_eq!(Source::parse("/music/.hidden").hint(), None);
    assert_eq!(Source::parse("/music/..").hint(), None);
    assert_eq!(Source::parse("").hint(), None);
}

#[test]
fn what_stands_for_nothing_at_the_end_of_a_path_is_passed_over() {
    for path in ["/music/a.MP3/", "/music/a.MP3//", "/music/a.MP3/.", "a.MP3/.//", "x/../a.MP3"] {
        assert_eq!(Source::File(path.to_string()).hint(), Some("mp3".to_string()), "{path}");
    }
    for path in ["/music/a.mp3/..", "/", "/.", "a.mp3/../", ".", ""] {
        assert_eq!(Source::File(path.to_string()).hint(), None, "{path}");
    }
}

#[test]
fn paths_with_backslashes_have_hints_too() {
    for path in [r"C:\music\a.FLAC", r"\music\a.FLAC", r"C:/music\b/a.FLAC", r"a\b.c\d.FLAC"] {
        assert_eq!(Source::File(path.to_string()).hint(), Some("flac".to_string()), "{path}");
    }
    assert_eq!(Source::File(r"C:\music\song".to_string()).hint(), None);
}

#[test]
fn names_with_a_colon_have_hints_too() {
    for path in [
        "/music/Song: Part 2.MP3",
        "Song: Part 2.MP3",
        "C:/music/a:b.MP3",
        "C:song.MP3",
        "/C:.MP3",
    ] {
        assert_eq!(Source::File(path.to_string()).hint(), Some("mp3".to_string()), "{path}");
    }
}

#[test]
fn files_on_a_share_have_hints_too() {
    for path in [
        r"\\NAS\music\song.FLAC",
        "//NAS/music/song.FLAC",
        r"\\NAS\music\live\song.FLAC\.",
        r"\\NAS/music\song: 2.FLAC",
    ] {
        let hint = Source::File(path.to_string()).hint();
        // Behind a backslash that separates nothing, the last dot is all of a name.
        let want = if path.ends_with('.') && !std::path::is_separator('\\') { "" } else { "flac" };
        assert_eq!(hint, Some(want.to_string()), "{path}");
    }
}

#[test]
fn names_split_at_their_last_dot() {
    assert_eq!(extension("a.tar.GZ"), Some("gz".to_string()));
    assert_eq!(stem("a.tar.GZ"), "a.tar");
    assert_eq!(extension("a"), None);
    assert_eq!(stem("a"), "a");
    assert_eq!(extension(".bashrc"), None);
    assert_eq!(stem(".bashrc"), ".bashrc");
    assert_eq!(extension("a."), Some("".to_string()));
    assert_eq!(stem("a."), "a");
}

#[test]
fn white_space_is_that_of_unicode() {
    assert!(blank(""));
    assert!(blank(" \t\r\n\u{85}\u{a0}\u{1680}\u{2003}\u{2028}\u{2029}\u{202f}\u{205f}\u{3000}"));
    assert!(!blank(" a "));
    assert!(!blank("\u{200b}"));
    for c in 0..0x1_0000u32 {
        if let Some(c) = char::from_u32(c) {
            let s = c.to_string();
            assert_eq!(blank(&s), s.trim().is_empty(), "{:x}", c as u32);
        }
    }
}

#[test]
fn trimming_takes_white_space_off_both_ends() {
    let v = chars_of("/  42\t ");
    assert_eq!(trimmed(&v, 1), (3, 5));
    let v = chars_of("   ");
    let (start, end) = trimmed(&v, 0);
    assert_eq!(start, end);
}

#[test]
fn decimals_are_read_as_std_reads_them() {
    for s in [
        "0", "7", "+7", "007", "18446744073709551615", "18446744073709551616",
        "99999999999999999999", "", "+", "-1", "1a", " 1", "1 ", "++1", "٣",
    ] {
        let v = chars_of(s);
        assert_eq!(parse_decimal(&v, 0, v.len()), s.parse::<u64>().ok(), "{s}");
    }
}

#[test]
fn decimals_are_written_as_std_writes_them() {
    for n in [0, 9, 10, 1_048_575, u64::MAX] {
        let mut s = "x".to_string();
        push_decimal(&mut s, n);
        assert_eq!(s, format!("x{n}"));
    }
}

#[test]
fn prefixes_are_compared_character_by_character() {
    assert!(has_prefix("ąb", "ą"));
    assert!(has_prefix("ąb", ""));
    assert!(!has_prefix("ąb", "ąbc"));
    assert!(!has_prefix("ab", "b"));
}
