use neqo_client::args::{parse_ech, HexError};
use neqo_client::files::{get_output_file, OutputPlan};
use neqo_client::headers::to_headers;
use neqo_client::urls::{Origin, Url};

fn url(text: &str) -> Url {
    Url::parse(text).unwrap()
}

#[test]
fn urls_are_taken_apart() {
    let u = url("HTTPS://Example.COM:443/a b?q#f");
    assert_eq!(u.text, "https://example.com/a%20b?q#f");
    assert_eq!(u.path, "/a%20b");
    assert!(matches!(
        u.origin,
        Origin::Tuple { ref scheme, ref host, port: 443 } if scheme == "https" && host == "example.com"
    ));
}

#[test]
fn urls_without_a_path_get_one() {
    let u = url("https://[::1]:4433");
    assert_eq!(u.path, "/");
    assert!(matches!(u.origin, Origin::Tuple { ref host, port: 4433, .. } if host == "[::1]"));
}

#[test]
fn urls_without_a_server_have_an_opaque_origin() {
    assert!(matches!(url("data:text/plain,hi").origin, Origin::Opaque));
    assert!(matches!(url("file:///tmp/x").origin, Origin::Opaque));
}

#[test]
fn blob_urls_have_the_origin_of_what_they_hold() {
    let u = url("blob:https://example.com/id");
    assert!(matches!(u.origin, Origin::Tuple { ref host, .. } if host == "example.com"));
    assert!(!u.path.is_empty());
}

#[test]
fn what_is_no_url_is_refused() {
    assert!(Url::parse("example.com").is_err());
    assert!(Url::parse("").is_err());
}

#[test]
fn copies_of_urls_are_the_same() {
    let u = url("https://example.com/x");
    let v = u.clone();
    assert_eq!(u.text, v.text);
    assert_eq!(u.path, v.path);
}

#[test]
fn ech_configurations_are_hexadecimal() {
    assert_eq!(parse_ech("00fF10").unwrap(), vec![0x00, 0xff, 0x10]);
    assert_eq!(parse_ech("").unwrap(), Vec::<u8>::new());
    assert!(matches!(parse_ech("abc"), Err(HexError::OddLength)));
    assert!(matches!(
        parse_ech("0g"),
        Err(HexError::InvalidHexCharacter { c: 'g', index: 1 })
    ));
}

#[test]
fn contents_go_nowhere_without_a_directory() {
    let plan = get_output_file(&url("https://a/x"), &None, &Vec::new());
    assert!(matches!(plan, OutputPlan::Nowhere));
}

#[test]
fn contents_go_below_the_output_directory() {
    let dir = Some("out".to_string());
    let plan = get_output_file(&url("https://a/x/y.html"), &dir, &Vec::new());
    assert!(matches!(plan, OutputPlan::Open(ref p) if p == "out/x/y.html"));
    let plan = get_output_file(&url("https://a"), &dir, &Vec::new());
    assert!(matches!(plan, OutputPlan::Open(ref p) if p == "out/root"));
}

#[test]
fn a_path_is_used_once() {
    let dir = Some("out".to_string());
    let used = vec!["out/root".to_string(), "out/x/y".to_string()];
    for text in ["https://a/", "https://a/root", "https://b/x//y"] {
        let plan = get_output_file(&url(text), &dir, &used);
        assert!(matches!(plan, OutputPlan::Duplicate(_)), "{text}");
    }
    let plan = get_output_file(&url("https://b/x"), &dir, &used);
    assert!(matches!(plan, OutputPlan::Open(_)));
}

#[test]
fn contents_do_not_leave_the_output_directory() {
    let dir = Some("/out".to_string());
    for (text, path) in [
        ("https://example.com//abs/x", "/out/abs/x"),
        ("https://a///x", "/out/x"),
        ("https://a//", "/out/root"),
        ("https://a/x/../../y", "/out/y"),
        ("blob:https://a/x/../y", "/out/ttps://a/x/../y"),
    ] {
        let plan = get_output_file(&url(text), &dir, &Vec::new());
        assert!(matches!(plan, OutputPlan::Open(ref p) if p == path), "{text}");
    }
    let plan = get_output_file(&url("blob:https://a/../../../../etc/x"), &dir, &Vec::new());
    assert!(matches!(plan, OutputPlan::Nowhere));
}

#[test]
fn the_first_character_is_left_out_of_the_name() {
    let dir = Some("/out".to_string());
    let plan = get_output_file(&url("blob:https://a/x"), &dir, &Vec::new());
    assert!(matches!(plan, OutputPlan::Open(ref p) if p == "/out/ttps://a/x"));
}

#[test]
fn no_headers_come_of_the_values() {
    let none: Vec<String> = Vec::new();
    assert_eq!(to_headers(&none).len(), 0);
    let pair = vec!["name".to_string(), "value".to_string()];
    assert_eq!(to_headers(&pair).len(), 0);
}
