use ai_reader::cached::{
    detect_html_encoding, extract_label, find_bytes, read_html_string_from_bytes, serve_text,
    HtmlEncoding,
};
use ai_reader::encoding::{
    decode_mobi_text, decode_text, encoding_from_bom, needs_fallback, TextEncoding,
};
use ai_reader::error::BooksError;
use ai_reader::html::{assemble, contains_html_tag, escape_html};
use ai_reader::mojibake::{accept_repair, fix_mojibake, looks_like_mojibake, marker_table};
use ai_reader::text::{
    chars_contain, chars_of, contains_replacement, has_invalid_controls, has_many_replacements,
    replacement_count, string_of, strip_invalid_controls,
};

const HEAD: &str = "<!doctype html><html><head><meta charset=\"utf-8\"></head><body><pre>";
const TAIL: &str = "</pre></body></html>";

fn record0_with_encoding(code: u32) -> Vec<u8> {
    let mut rec = vec![0u8; 64];
    rec[16..20].copy_from_slice(b"MOBI");
    rec[28..32].copy_from_slice(&code.to_be_bytes());
    rec
}

#[test]
fn characters_of_a_text_and_back() {
    assert_eq!(chars_of("h\u{e9}\u{20ac}\u{1f600}"), vec!['h', '\u{e9}', '\u{20ac}', '\u{1f600}']);
    assert_eq!(chars_of(""), Vec::<char>::new());
    assert_eq!(string_of(&['a', '\u{2019}', 'b']), "a\u{2019}b");
    assert_eq!(string_of(&[]), "");
}

#[test]
fn search_for_a_run_of_characters() {
    let hay = chars_of("abcabd");
    assert!(chars_contain(&hay, &chars_of("abd")));
    assert!(chars_contain(&hay, &chars_of("abcabd")));
    assert!(chars_contain(&hay, &[]));
    assert!(!chars_contain(&hay, &chars_of("abe")));
    assert!(!chars_contain(&hay, &chars_of("abcabda")));
    assert!(chars_contain(&[], &[]));
    assert!(!chars_contain(&[], &['a']));
}

#[test]
fn replacement_characters_are_counted() {
    assert_eq!(replacement_count(""), 0);
    assert_eq!(replacement_count("clean"), 0);
    assert_eq!(replacement_count("a\u{fffd}b\u{fffd}"), 2);
    assert!(!contains_replacement("clean"));
    assert!(contains_replacement("\u{fffd}"));
    assert!(!has_many_replacements(&"\u{fffd}".repeat(16)));
    assert!(has_many_replacements(&"\u{fffd}".repeat(17)));
    assert!(!has_many_replacements(""));
}

#[test]
fn invalid_control_bytes() {
    assert!(!has_invalid_controls(b""));
    assert!(!has_invalid_controls(b"line\r\n\ttext \x7f\xff"));
    assert!(has_invalid_controls(b"a\x00"));
    assert!(has_invalid_controls(b"\x1fa"));
    assert!(has_invalid_controls(b"a\x0bb"));
    assert!(!has_invalid_controls(b" "));
}

#[test]
fn stripping_control_characters() {
    assert_eq!(strip_invalid_controls("a\u{0}b\tc\n\u{1f}d\r"), "ab\tc\nd\r");
    assert_eq!(strip_invalid_controls("\u{1}\u{2}"), "");
    assert_eq!(strip_invalid_controls("caf\u{e9} \u{7f}\u{85}"), "caf\u{e9} \u{7f}\u{85}");
    let once = strip_invalid_controls("x\u{8}y");
    assert_eq!(strip_invalid_controls(&once), once);
}

#[test]
fn byte_order_marks() {
    assert_eq!(encoding_from_bom(&[0xef, 0xbb, 0xbf, b'a']), Some(TextEncoding::Utf8));
    assert_eq!(encoding_from_bom(&[0xfe, 0xff]), Some(TextEncoding::Utf16Be));
    assert_eq!(encoding_from_bom(&[0xff, 0xfe, 0, 0]), Some(TextEncoding::Utf16Le));
    assert_eq!(encoding_from_bom(&[0xef, 0xbb]), None);
    assert_eq!(encoding_from_bom(&[0xff]), None);
    assert_eq!(encoding_from_bom(b"plain"), None);
    assert_eq!(encoding_from_bom(&[]), None);
}

#[test]
fn byte_order_mark_decides_the_encoding() {
    for code in [None, Some(65001), Some(1252), Some(7)] {
        assert_eq!(decode_text(code, &[0xef, 0xbb, 0xbf, b'h', 0xc3, 0xa9]), "h\u{e9}");
        assert_eq!(decode_text(code, &[0xff, 0xfe, b'h', 0, 0xac, 0x20]), "h\u{20ac}");
        assert_eq!(decode_text(code, &[0xfe, 0xff, 0, b'h', 0x20, 0xac]), "h\u{20ac}");
    }
}

#[test]
fn header_code_decides_without_a_mark() {
    assert_eq!(decode_text(Some(65001), &[b'h', 0xc3, 0xa9]), "h\u{e9}");
    assert_eq!(decode_text(Some(65001), &[b'h', 0xe9]), "h\u{fffd}");
    assert_eq!(decode_text(Some(1252), &[b'h', 0xc3, 0xa9]), "h\u{c3}\u{a9}");
    assert_eq!(decode_text(Some(1252), &[0x80, 0x99]), "\u{20ac}\u{2122}");
    let rec0 = record0_with_encoding(1252);
    assert_eq!(decode_mobi_text(&rec0, &[0xe9]), "\u{e9}");
    let rec0 = record0_with_encoding(65001);
    assert_eq!(decode_mobi_text(&rec0, &[0xe9]), "\u{fffd}");
}

#[test]
fn windows_1252_is_the_fallback_of_the_guess() {
    // smart quotes of Windows-1252 are no UTF-8
    assert_eq!(decode_text(None, &[0x93, b'h', b'i', 0x94]), "\u{201c}hi\u{201d}");
    assert_eq!(decode_text(Some(0), &[0x93, b'h', b'i', 0x94]), "\u{201c}hi\u{201d}");
    let rec0 = record0_with_encoding(0);
    let text = decode_mobi_text(&rec0, &[0x93, b'h', b'i', 0x94]);
    assert_eq!(text, "\u{201c}hi\u{201d}");
    assert!(!contains_replacement(&text));
    assert_eq!(decode_mobi_text(&[], &[0x93]), "\u{201c}");
}

#[test]
fn valid_utf8_is_kept_by_the_guess() {
    assert_eq!(decode_text(None, "caf\u{e9} \u{2019}".as_bytes()), "caf\u{e9} \u{2019}");
    assert_eq!(decode_text(Some(99), b"plain"), "plain");
    assert_eq!(decode_text(None, b""), "");
    // a replacement character that the text itself holds sends it to the fallback
    assert_eq!(decode_text(None, "\u{fffd}".as_bytes()), "\u{ef}\u{bf}\u{bd}");
    assert!(needs_fallback("a\u{fffd}"));
    assert!(!needs_fallback("a"));
}

#[test]
fn mojibake_markers_are_found() {
    assert_eq!(marker_table().len(), 16);
    assert!(looks_like_mojibake("don\u{e2}\u{20ac}\u{2122}t"));
    assert!(looks_like_mojibake("\u{e2}\u{20ac}\u{153}quoted\u{e2}\u{20ac}\u{201d}"));
    assert!(looks_like_mojibake("caf\u{c3}\u{a9}"));
    assert!(looks_like_mojibake("a\u{c2} b"));
    assert!(looks_like_mojibake("\u{c3}\u{fa}"));
    assert!(!looks_like_mojibake(""));
    assert!(!looks_like_mojibake("don\u{2019}t go to the caf\u{e9}"));
    assert!(!looks_like_mojibake("\u{e2}\u{20ac}"));
    assert!(!looks_like_mojibake("\u{c3}"));
    assert!(!looks_like_mojibake("\u{c2}\u{a0}"));
}

#[test]
fn clean_text_is_not_repaired() {
    assert_eq!(fix_mojibake(""), None);
    assert_eq!(fix_mojibake("plain text"), None);
    assert_eq!(fix_mojibake("don\u{2019}t go to the caf\u{e9}"), None);
}

#[test]
fn garbled_right_single_quote_is_repaired() {
    let fixed = fix_mojibake("don\u{e2}\u{20ac}\u{2122}t").unwrap();
    assert_eq!(fixed, "don\u{2019}t");
    assert!(!looks_like_mojibake(&fixed));
    assert_eq!(fix_mojibake(&fixed), None);
    assert_eq!(fix_mojibake("caf\u{c3}\u{a9}").unwrap(), "caf\u{e9}");
    assert_eq!(
        fix_mojibake("\u{e2}\u{20ac}\u{153}so\u{e2}\u{20ac}\u{a6}").unwrap(),
        "\u{201c}so\u{2026}"
    );
}

#[test]
fn repair_is_refused_when_a_character_cannot_be_written_back() {
    // a Cyrillic letter has no byte in Windows-1252
    assert_eq!(fix_mojibake("don\u{e2}\u{20ac}\u{2122}t \u{416}"), None);
    assert_eq!(accept_repair(b"don't", true), None);
}

#[test]
fn repair_is_refused_when_it_still_looks_garbled() {
    // the bytes C3 83 C2 A9 read as "Ã©", which is a marker again
    assert_eq!(accept_repair(&[0xc3, 0x83, 0xc2, 0xa9], false), None);
    // the same behind a marker: the text looks garbled, and so does its repair
    let twice = "\u{c3}\u{192}\u{c2}\u{a9}\u{e2}\u{20ac}\u{2122}";
    assert!(looks_like_mojibake(twice));
    assert_eq!(fix_mojibake(twice), None);
    assert_eq!(accept_repair(&[0xe2, 0x80, 0x99], false), Some("\u{2019}".to_string()));
}

#[test]
fn escaping() {
    assert_eq!(escape_html(""), "");
    assert_eq!(escape_html("plain text\n"), "plain text\n");
    assert_eq!(
        escape_html("<a href=\"x\">Tom & 'Jerry'</a>"),
        "&lt;a href=&quot;x&quot;&gt;Tom &amp; &#39;Jerry&#39;&lt;/a&gt;"
    );
    assert_eq!(escape_html("&amp;"), "&amp;amp;");
    assert_eq!(escape_html("caf\u{e9}"), "caf\u{e9}");
}

#[test]
fn html_tag_is_found_in_any_case() {
    assert!(contains_html_tag("<html>"));
    assert!(contains_html_tag("<!doctype html>\n<HTML lang=\"en\">"));
    assert!(contains_html_tag("text <hTmL"));
    assert!(!contains_html_tag(""));
    assert!(!contains_html_tag("<htm"));
    assert!(!contains_html_tag("html>"));
    assert!(!contains_html_tag("< html>"));
    assert!(!contains_html_tag("<body>html</body>"));
}

#[test]
fn plain_text_is_wrapped() {
    assert_eq!(assemble("Hello"), format!("{}Hello{}", HEAD, TAIL));
    assert_eq!(assemble(""), format!("{}{}", HEAD, TAIL));
    assert_eq!(assemble("a < b"), format!("{}a &lt; b{}", HEAD, TAIL));
}

#[test]
fn marked_up_text_is_left_alone() {
    let page = "<HTML><body>a < b & c</body></HTML>";
    assert_eq!(assemble(page), page);
}

#[test]
fn label_extraction() {
    assert_eq!(extract_label("<meta charset=\"utf-8\">", "charset="), Some("utf-8".to_string()));
    assert_eq!(
        extract_label("content='text/html; charset= ' iso-8859-1 ;'", "charset="),
        Some("iso-8859-1".to_string())
    );
    assert_eq!(
        extract_label("<?xml version=\"1.0\" encoding=\"windows_1252.x\"?>", "encoding="),
        Some("windows_1252.x".to_string())
    );
    assert_eq!(extract_label("charset=abc charset=def", "charset="), Some("abc".to_string()));
    assert_eq!(extract_label("charset=", "charset="), None);
    assert_eq!(extract_label("charset=\"\"", "charset="), None);
    assert_eq!(extract_label("charset=;utf-8", "charset="), None);
    assert_eq!(extract_label("no declaration", "charset="), None);
    assert_eq!(extract_label("", "charset="), None);
    assert_eq!(extract_label("abc", ""), Some("abc".to_string()));
    assert_eq!(extract_label("charset=utf-8\u{e9}", "charset="), Some("utf-8".to_string()));
}

#[test]
fn first_occurrence_of_bytes() {
    assert_eq!(find_bytes(b"abcabc", b"bc"), Some(1));
    assert_eq!(find_bytes(b"abcabc", b"abcabc"), Some(0));
    assert_eq!(find_bytes(b"abcabc", b""), Some(0));
    assert_eq!(find_bytes(b"", b""), Some(0));
    assert_eq!(find_bytes(b"abcabc", b"cb"), None);
    assert_eq!(find_bytes(b"ab", b"abc"), None);
    assert_eq!(find_bytes(b"aab", b"ab"), Some(1));
}

#[test]
fn declared_encoding_of_stored_html() {
    match detect_html_encoding(&[0xef, 0xbb, 0xbf, b'<']) {
        Some(HtmlEncoding::Marked(e)) => assert_eq!(e, TextEncoding::Utf8),
        other => panic!("unexpected: {:?}", other),
    }
    match detect_html_encoding(b"<meta http-equiv=\"Content-Type\" content=\"text/html; CHARSET=ISO-8859-1\">") {
        Some(HtmlEncoding::Labeled(label)) => assert_eq!(label, "iso-8859-1"),
        other => panic!("unexpected: {:?}", other),
    }
    match detect_html_encoding(b"<?xml version=\"1.0\" encoding=\"UTF-8\"?>") {
        Some(HtmlEncoding::Labeled(label)) => assert_eq!(label, "utf-8"),
        other => panic!("unexpected: {:?}", other),
    }
    match detect_html_encoding(b"encoding=a charset=b") {
        Some(HtmlEncoding::Labeled(label)) => assert_eq!(label, "b"),
        other => panic!("unexpected: {:?}", other),
    }
    assert!(detect_html_encoding(b"<html><body>nothing</body></html>").is_none());
    assert!(detect_html_encoding(b"").is_none());
    // the declaration is searched for in the first 8192 bytes only
    let mut late = vec![b' '; 8192];
    late.extend_from_slice(b"charset=utf-8");
    assert!(detect_html_encoding(&late).is_none());
    let mut in_time = vec![b' '; 8192 - 13];
    in_time.extend_from_slice(b"charset=utf-8");
    assert!(detect_html_encoding(&in_time).is_some());
}

#[test]
fn stored_html_is_read_back() {
    assert_eq!(
        read_html_string_from_bytes(b"<html><body>ok</body></html>").unwrap(),
        "<html><body>ok</body></html>"
    );
    assert_eq!(read_html_string_from_bytes(b"").unwrap(), "");
    assert_eq!(read_html_string_from_bytes(b"a\x00b\x07c").unwrap(), "abc");
    // decoded by the declared encoding
    assert_eq!(
        read_html_string_from_bytes(b"<meta charset=windows-1252>caf\xe9").unwrap(),
        "<meta charset=windows-1252>caf\u{e9}"
    );
    assert_eq!(
        read_html_string_from_bytes(b"<meta charset=koi8-r>\xc1").unwrap(),
        "<meta charset=koi8-r>\u{430}"
    );
    // a label that names no encoding means UTF-8
    assert_eq!(
        read_html_string_from_bytes(b"<meta charset=nonsense>caf\xc3\xa9").unwrap(),
        "<meta charset=nonsense>caf\u{e9}"
    );
}

#[test]
fn stored_html_with_few_errors_is_served_with_them() {
    let mut bytes = b"<html>".to_vec();
    bytes.extend_from_slice(&[0xff; 16]);
    let text = read_html_string_from_bytes(&bytes).unwrap();
    assert_eq!(text, format!("<html>{}", "\u{fffd}".repeat(16)));
}

#[test]
fn stored_html_with_many_errors_is_read_as_windows_1252() {
    let mut bytes = b"<html>".to_vec();
    bytes.extend_from_slice(&[0xff; 17]);
    let text = read_html_string_from_bytes(&bytes).unwrap();
    assert_eq!(text, format!("<html>{}", "\u{ff}".repeat(17)));
}

#[test]
fn stored_html_that_stays_corrupt_is_refused() {
    // behind a byte-order mark both readings are UTF-8, and both hold 17 replacement characters
    let mut bytes = vec![0xef, 0xbb, 0xbf];
    for _ in 0..17 {
        bytes.push(0xff);
    }
    assert_eq!(read_html_string_from_bytes(&bytes).unwrap_err(), BooksError::CorruptHtml);
    assert_eq!(serve_text("\u{fffd}".repeat(17)).unwrap_err(), BooksError::CorruptHtml);
    assert_eq!(serve_text("\u{fffd}".repeat(16)).unwrap(), "\u{fffd}".repeat(16));
}

#[test]
fn stored_html_is_repaired_when_it_looks_garbled() {
    assert_eq!(
        read_html_string_from_bytes("<html>don\u{e2}\u{20ac}\u{2122}t</html>".as_bytes()).unwrap(),
        "<html>don\u{2019}t</html>"
    );
    assert_eq!(serve_text("caf\u{c3}\u{a9}".to_string()).unwrap(), "caf\u{e9}");
    assert_eq!(serve_text("caf\u{e9}".to_string()).unwrap(), "caf\u{e9}");
}
