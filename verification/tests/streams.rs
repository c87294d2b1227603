use neqo_client::effect::{Abort, Effect};
use neqo_client::error::{ClientError, Http3Error, IoError, IoErrorKind, TransportError};
use neqo_client::key_update::KeyUpdateState;
use neqo_client::stream::{
    DownloadStreamHandler, Readable, StreamHandler, UploadStreamHandler,
};

fn printed(effects: &[Effect]) -> Vec<String> {
    effects
        .iter()
        .filter_map(|e| match e {
            Effect::Print(line) => Some(line.clone()),
            _ => None,
        })
        .collect()
}

fn download(out_file: Option<&str>) -> StreamHandler {
    StreamHandler::Download(DownloadStreamHandler { out_file: out_file.map(str::to_string) })
}

fn upload(size: usize) -> StreamHandler {
    StreamHandler::Upload(UploadStreamHandler::new(size, 1000))
}

#[test]
fn headers_are_shown_unless_contents_are_saved() {
    let mut effects = Vec::new();
    download(None).process_header_ready(0, false, "[]", &mut effects);
    upload(1).process_header_ready(4, true, "[x]", &mut effects);
    download(Some("out/x")).process_header_ready(8, true, "[]", &mut effects);
    assert_eq!(
        printed(&effects),
        ["READ HEADERS[0]: fin=false []", "READ HEADERS[4]: fin=true [x]"]
    );
}

#[test]
fn contents_are_shown() {
    let mut effects = Vec::new();
    let data = b"abc\0".to_vec();
    let left = download(None).process_data_readable(0, false, &data, 3, false, 0, &mut effects);
    assert!(matches!(left, Readable::Done));
    download(None).process_data_readable(0, true, &data, 3, true, 0, &mut effects);
    download(None).process_data_readable(4, false, &vec![0xff, 0], 1, true, 0, &mut effects);
    download(None).process_data_readable(8, false, &vec![104, 105, 0, 0], 2, true, 0, &mut effects);
    assert_eq!(
        printed(&effects),
        ["READ[0]: 3 bytes", "READ[0]: abc", "<FIN[0]>", "READ[4]: 0xff", "READ[8]: hi"]
    );
}

#[test]
fn contents_are_saved() {
    let mut effects = Vec::new();
    let data = b"abc\0".to_vec();
    let h = download(Some("out/x"));
    let left = h.process_data_readable(0, true, &data, 3, true, 0, &mut effects);
    assert!(matches!(left, Readable::Write(ref part) if part == b"abc"));
    let left = h.process_data_readable(0, true, &data, 0, true, 0, &mut effects);
    assert!(matches!(left, Readable::Done));
    assert!(effects.is_empty());
}

#[test]
fn an_upload_is_timed() {
    let mut effects = Vec::new();
    let h = upload(100);
    let left = h.process_data_readable(0, true, &b"100\0\0".to_vec(), 3, false, 1500, &mut effects);
    assert!(matches!(left, Readable::Done));
    assert!(matches!(effects[..], [Effect::UploadTime { stream_id: 0, nanos: 500 }]));
    effects.clear();
    let left = h.process_data_readable(0, true, &b"99".to_vec(), 2, false, 1500, &mut effects);
    assert!(matches!(left, Readable::Done));
    assert!(effects.is_empty());
}

#[test]
fn an_upload_wants_a_length_back() {
    let mut effects = Vec::new();
    let left = upload(1).process_data_readable(0, true, &b"x".to_vec(), 1, false, 0, &mut effects);
    assert!(matches!(
        left,
        Readable::Abort(Abort::UnexpectedLength { stream_id: 0, ref text }) if text == "x"
    ));
    let left = upload(1).process_data_readable(0, true, &vec![0; 4], 0, false, 0, &mut effects);
    assert!(matches!(left, Readable::Abort(Abort::UnexpectedLength { .. })));
    let left = upload(1).process_data_readable(4, true, &vec![0xff], 1, false, 0, &mut effects);
    assert!(matches!(
        left,
        Readable::Abort(Abort::UnexpectedData { stream_id: 4, ref data }) if data == &[0xff]
    ));
    assert!(effects.is_empty());
}

#[test]
fn an_upload_goes_out_in_chunks() {
    let mut u = UploadStreamHandler::new(70000, 0);
    assert!(u.data.iter().all(|b| *b == 42));
    assert_eq!(u.next_chunk().unwrap().len(), 32768);
    assert!(!u.advance(32768));
    assert_eq!(u.next_chunk().unwrap().len(), 32768);
    assert!(!u.advance(30000));
    assert_eq!(u.next_chunk().unwrap().len(), 7232);
    assert!(u.advance(7232));
    assert!(u.next_chunk().is_none());
    assert!(UploadStreamHandler::new(0, 0).next_chunk().is_none());
}

#[test]
fn keys_are_updated_if_needed() {
    let mut effects = Vec::new();
    let mut k = KeyUpdateState(true);
    assert!(k.needed());
    assert!(k.maybe_update(|| Ok::<(), TransportError>(()), &mut effects).is_ok());
    assert!(!k.needed());
    assert_eq!(printed(&effects), ["Keys updated"]);
    let not_called = || -> Result<(), TransportError> { unreachable!() };
    assert!(k.maybe_update(not_called, &mut effects).is_ok());
    assert_eq!(effects.len(), 1);
}

#[test]
fn a_blocked_key_update_stays_needed() {
    let mut effects = Vec::new();
    let mut k = KeyUpdateState(true);
    assert!(k.maybe_update(|| Err(TransportError::KeyUpdateBlocked), &mut effects).is_ok());
    let blocked = Http3Error::TransportError(TransportError::KeyUpdateBlocked);
    assert!(k.maybe_update(|| Err(blocked), &mut effects).is_ok());
    assert!(k.needed());
    assert!(effects.is_empty());
}

#[test]
fn other_failures_of_a_key_update_are_handed_on() {
    let mut effects = Vec::new();
    let mut k = KeyUpdateState(true);
    let r = k.maybe_update(|| Err(TransportError::ConnectionState), &mut effects);
    assert!(matches!(r, Err(ClientError::TransportError(TransportError::ConnectionState))));
    let r = k.maybe_update(|| Err(Http3Error::Unavailable), &mut effects);
    assert!(matches!(r, Err(ClientError::Http3Error(Http3Error::Unavailable))));
    assert!(k.needed());
    assert!(effects.is_empty());
}

#[test]
fn errors_become_those_of_the_client() {
    let e = IoError { kind: IoErrorKind::Other, text: "x".to_string() };
    assert!(matches!(ClientError::from(e), ClientError::IoError(_)));
    assert!(matches!(ClientError::from(Http3Error::Unavailable), ClientError::Http3Error(_)));
    assert!(matches!(ClientError::from(qlog::Error::Done), ClientError::QlogError));
    assert!(matches!(
        ClientError::from(TransportError::ConnectionState),
        ClientError::TransportError(TransportError::ConnectionState)
    ));
}
