use neqo_client::lines::{
    bytes_line_text, complete_line_text, creatable_line_text, created_line_text, data_line_text,
    deferring_line_text, duplicate_line_text, empty_datagram_line_text, fetched_line_text,
    fin_line_text, full_buffer_line_text, headers_line_text, hex_line_text, keys_updated_text,
    receive_error_line_text, refused_line_text, send_error_line_text, short_send_line_text,
    text_line_text, unexpected_line_text, unhandled_line_text, writable_line_text,
};
use neqo_client::path::{join_path, rooted, same_path, split_path, stays_within};
use neqo_client::text::{decimal_text, hex, parse_number, same_text, trim_zeros, utf8_text};

#[test]
fn decimal_numbers() {
    for n in [0u64, 1, 9, 10, 42, 999, 1000, 32768, u64::MAX] {
        assert_eq!(decimal_text(n), n.to_string());
    }
}

#[test]
fn hexadecimal_bytes() {
    assert_eq!(hex(&[]), "");
    assert_eq!(hex(&[0, 1, 0x0f, 0x10, 0xab, 0xff]), "00010f10abff");
}

#[test]
fn numbers_are_read_as_std_reads_them() {
    for s in ["", "+", "-", "0", "007", "+12", "-1", "12a", "ff", "FF", "100000000", "ffffffff", " 1", "1 "] {
        assert_eq!(
            parse_number(s, 16, u32::MAX as u64),
            u32::from_str_radix(s, 16).ok().map(u64::from),
            "{s:?} in hex"
        );
        assert_eq!(parse_number(s, 10, u64::MAX), s.parse::<u64>().ok(), "{s:?}");
    }
    assert_eq!(parse_number("18446744073709551615", 10, u64::MAX), Some(u64::MAX));
    assert_eq!(parse_number("18446744073709551616", 10, u64::MAX), None);
}

#[test]
fn texts_are_compared_by_their_characters() {
    assert!(same_text("", ""));
    assert!(same_text("h3", "h3"));
    assert!(!same_text("h3", "h3-29"));
    assert!(!same_text("h3", "H3"));
}

#[test]
fn bytes_are_text_or_not() {
    assert_eq!(utf8_text(&b"hello".to_vec()), Some("hello".to_string()));
    assert_eq!(utf8_text(&"gr\u{fc}n".as_bytes().to_vec()), Some("gr\u{fc}n".to_string()));
    assert_eq!(utf8_text(&vec![0xff, 0xfe]), None);
    assert_eq!(utf8_text(&vec![]), Some(String::new()));
}

#[test]
fn trailing_zeros_are_dropped() {
    assert_eq!(trim_zeros("100\0\0\0"), "100");
    assert_eq!(trim_zeros("1\00\0"), "1\00");
    assert_eq!(trim_zeros("\0\0"), "");
    assert_eq!(trim_zeros("100"), "100");
}

#[test]
fn paths_are_joined_as_std_joins_them() {
    for (dir, name) in [
        ("out", "root"),
        ("out/", "a/b"),
        ("", "a"),
        ("/", "a"),
        ("out", "/etc/x"),
        ("out", ""),
    ] {
        let mut expected = std::path::PathBuf::from(dir);
        expected.push(name);
        assert_eq!(join_path(dir, name), expected.to_str().unwrap(), "{dir:?} {name:?}");
    }
}

#[test]
fn paths_are_the_same_as_std_says() {
    let paths = [
        "", ".", "./a", "a", "a/", "a//b", "a/b", "a/./b", "/a", "//a", "a/../b", "b", "/", "/.", "..",
        "./.", "a/.",
    ];
    for a in paths {
        for b in paths {
            assert_eq!(
                same_path(a, b),
                std::path::PathBuf::from(a) == std::path::PathBuf::from(b),
                "{a:?} {b:?}"
            );
        }
    }
}

#[test]
fn paths_are_taken_apart() {
    assert!(rooted("/a"));
    assert!(!rooted("a"));
    assert!(!rooted(""));
    assert_eq!(split_path("a//b/./c/"), vec!["a", "b", "c"]);
}

#[test]
fn paths_stay_within_a_directory_or_not() {
    for (dir, path) in [
        ("/out", "/out/x"),
        ("/out", "/out//a/./b"),
        ("/out/", "/out/x"),
        ("", "a/b"),
        (".", "./a"),
        ("../o", "../o/x"),
        ("/out", "/out/a/../b"),
        ("/", "/x"),
    ] {
        assert!(stays_within(dir, path), "{dir:?} {path:?}");
    }
    for (dir, path) in [
        ("/out", "/abs/x"),
        ("/out", "out/x"),
        ("out", "/out/x"),
        ("/out", "/output/x"),
        ("/out", "/out/../x"),
        ("/out", "/out/a/../../x"),
        ("", "./.."),
        ("/out/a", "/out"),
        ("", ".."),
    ] {
        assert!(!stays_within(dir, path), "{dir:?} {path:?}");
    }
}

#[test]
fn lines_have_their_wording() {
    assert_eq!(keys_updated_text(), "Keys updated");
    assert_eq!(bytes_line_text(4, 100), "READ[4]: 100 bytes");
    assert_eq!(text_line_text(4, "abc"), "READ[4]: abc");
    assert_eq!(hex_line_text(8, &vec![0xff, 0]), "READ[8]: 0xff00");
    assert_eq!(fin_line_text(0), "<FIN[0]>");
    assert_eq!(
        fetched_line_text(0, "https://a/"),
        "Successfully created stream id 0 for https://a/"
    );
    assert_eq!(created_line_text(0, "https://a/"), "Created stream 0 for https://a/");
    assert_eq!(unexpected_line_text(12), "Data on unexpected stream: 12");
    assert_eq!(unhandled_line_text("X"), "Unhandled event X");
    assert_eq!(deferring_line_text(), "Deferring requests until after first key update");
    assert_eq!(refused_line_text("StreamLimitError"), "Cannot create stream StreamLimitError");
    assert_eq!(writable_line_text(4), "stream 4 writable");
    assert_eq!(complete_line_text(4), "stream 4 complete");
    assert_eq!(creatable_line_text("BiDi"), "stream BiDi creatable");
    assert_eq!(duplicate_line_text("out/a"), "duplicate path out/a");
    assert_eq!(send_error_line_text("E"), "UDP send error: E");
    assert_eq!(short_send_line_text(1200), "Unable to send all 1200 bytes of datagram");
    assert_eq!(receive_error_line_text("E"), "UDP recv error: E");
    assert_eq!(full_buffer_line_text(2048), "Might have received more than 2048 bytes");
    assert_eq!(empty_datagram_line_text(), "zero length datagram received?");
    assert_eq!(headers_line_text(0, true, "[h]"), "READ HEADERS[0]: fin=true [h]");
}

#[test]
fn data_is_shown_as_text_if_it_is_text() {
    assert_eq!(data_line_text(0, &b"abc".to_vec(), 2, false), "READ[0]: 2 bytes");
    assert_eq!(data_line_text(0, &b"abc".to_vec(), 2, true), "READ[0]: ab");
    assert_eq!(data_line_text(0, &b"abc".to_vec(), 3, true), "READ[0]: abc");
    assert_eq!(data_line_text(0, &vec![0x80, 0x81], 1, true), "READ[0]: 0x80");
    assert_eq!(data_line_text(0, &vec![b'a', 0x81], 1, true), "READ[0]: a");
}
