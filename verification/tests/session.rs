use neqo_client::session::{
    authority_text, check_resumption, connecting_line_text, no_socket, select_address,
    urls_by_origin, Family, OriginSession,
};
use neqo_client::urls::Url;
use std::collections::VecDeque;

fn urls(texts: &[&str]) -> Vec<Url> {
    texts.iter().map(|t| Url::parse(t).unwrap()).collect()
}

fn texts(urls: &VecDeque<Url>) -> Vec<String> {
    urls.iter().map(|u| u.text.clone()).collect()
}

#[test]
fn urls_are_grouped_by_origin() {
    let all = urls(&[
        "https://a/1",
        "https://b/1",
        "data:x",
        "https://a/2",
        "http://a/3",
        "https://a:444/4",
        "https://a:443/5",
    ]);
    let (groups, opaque) = urls_by_origin(&all);
    assert_eq!(opaque.len(), 1);
    assert_eq!(opaque[0].text, "data:x");
    assert_eq!(groups.len(), 4);
    let a = groups
        .iter()
        .find(|g| g.host == "a" && g.port == 443 && g.scheme == "https")
        .unwrap();
    assert_eq!(texts(&a.urls), ["https://a/1", "https://a/2", "https://a/5"]);
    assert!(groups.iter().all(|g| !g.urls.is_empty()));
    assert_eq!(groups.iter().map(|g| g.urls.len()).sum::<usize>() + opaque.len(), all.len());
}

#[test]
fn no_urls_make_no_groups() {
    let (groups, opaque) = urls_by_origin(&Vec::new());
    assert!(groups.is_empty() && opaque.is_empty());
}

#[test]
fn grouped_urls_have_paths() {
    let (groups, _) = urls_by_origin(&urls(&["https://a", "https://b?q", "blob:https://c/x"]));
    assert_eq!(groups.len(), 3);
    assert!(groups.iter().all(|g| g.urls.iter().all(|u| !u.path.is_empty())));
}

#[test]
fn resumption_needs_two_urls() {
    assert!(check_resumption(false, "a", 1).is_none());
    assert!(check_resumption(true, "a", 2).is_none());
    let exit = check_resumption(true, "example.com", 1).unwrap();
    assert_eq!(exit.code, 127);
    assert_eq!(
        exit.line.unwrap(),
        "Resumption to example.com cannot work without at least 2 URLs."
    );
}

#[test]
fn servers_are_looked_up_by_host_and_port() {
    assert_eq!(authority_text("example.com", 443), "example.com:443");
    assert_eq!(authority_text("[::1]", 4433), "[::1]:4433");
}

#[test]
fn the_first_address_that_fits_is_taken() {
    let mixed = vec![Family::V6, Family::V4, Family::V6];
    assert!(matches!(select_address(&mixed, false, false, "a"), Ok(0)));
    assert!(matches!(select_address(&mixed, true, false, "a"), Ok(1)));
    assert!(matches!(select_address(&mixed, false, true, "a"), Ok(0)));
    assert!(matches!(select_address(&mixed, true, true, "a"), Ok(0)));
}

#[test]
fn without_an_address_that_fits_the_program_ends() {
    let exit = select_address(&vec![Family::V4], false, true, "a.b").err().unwrap();
    assert_eq!(exit.code, 1);
    assert_eq!(exit.line.unwrap(), "No compatible address found for: a.b");
    assert!(select_address(&vec![Family::V6], true, false, "a").is_err());
    assert!(select_address(&Vec::new(), false, false, "a").is_err());
}

#[test]
fn without_a_socket_the_program_ends() {
    let exit = no_socket("denied");
    assert_eq!(exit.code, 1);
    assert_eq!(exit.line.unwrap(), "Unable to bind UDP socket: denied");
}

#[test]
fn a_connection_is_announced() {
    assert_eq!(
        connecting_line_text(false, "0.0.0.0:1", "1.2.3.4:443"),
        "H3 Client connecting: 0.0.0.0:1 -> 1.2.3.4:443"
    );
    assert_eq!(connecting_line_text(true, "a", "b"), "H9 Client connecting: a -> b");
}

fn batches(texts_in: &[&str], resume: bool, in_series: bool) -> Vec<Vec<String>> {
    let mut session: OriginSession<u32> = OriginSession::new(urls(texts_in).into());
    let mut all = Vec::new();
    while let Some((batch, _)) = session.next_batch(resume, in_series) {
        all.push(texts(&batch));
    }
    all
}

#[test]
fn one_connection_requests_everything() {
    assert_eq!(
        batches(&["https://a/1", "https://a/2"], false, false),
        [["https://a/1", "https://a/2"]]
    );
}

#[test]
fn in_series_every_url_has_its_own_connection() {
    assert_eq!(
        batches(&["https://a/1", "https://a/2", "https://a/3"], false, true),
        [["https://a/1"], ["https://a/2"], ["https://a/3"]]
    );
}

#[test]
fn resumption_takes_two_connections() {
    assert_eq!(
        batches(&["https://a/1", "https://a/2", "https://a/3"], true, false),
        [vec!["https://a/1"], vec!["https://a/2", "https://a/3"]]
    );
}

#[test]
fn the_token_goes_to_the_next_connection() {
    let mut session: OriginSession<u32> =
        OriginSession::new(urls(&["https://a/1", "https://a/2"]).into());
    let (_, token) = session.next_batch(true, false).unwrap();
    assert_eq!(token, None);
    session.keep_token(Some(7));
    let (_, token) = session.next_batch(true, false).unwrap();
    assert_eq!(token, Some(7));
    assert!(session.next_batch(true, false).is_none());
}
