use neqo_client::args::Args;
use neqo_client::effect::{Abort, Effect};
use neqo_client::error::{ClientError, Http3Error, IoError, IoErrorKind, TransportError};
use neqo_client::event_loop::LoopRequest;
use neqo_client::http3::{Handler, Http3Event, Http3Request, Http3Step};
use neqo_client::http3_runner::{ClientRunner, TokenChoice};
use neqo_client::quic::{CongestionControlAlgorithm, QuicParameters};
use neqo_client::urls::Url;
use std::collections::VecDeque;

fn args() -> Args {
    Args {
        alpn: "h3".to_string(),
        urls: Vec::new(),
        method: "GET".to_string(),
        header: Vec::new(),
        max_table_size_encoder: 16384,
        max_table_size_decoder: 16384,
        max_blocked_streams: 10,
        max_concurrent_push_streams: 10,
        use_old_http: false,
        download_in_series: false,
        concurrency: 2,
        output_read_data: false,
        qlog_dir: None,
        output_dir: None,
        qns_test: None,
        resume: false,
        key_update: false,
        ciphers: Vec::new(),
        ech: None,
        quic_parameters: QuicParameters {
            quic_version: Vec::new(),
            max_streams_bidi: 16,
            max_streams_uni: 16,
            idle_timeout: 30,
            congestion_control: CongestionControlAlgorithm::NewReno,
            pacing: false,
        },
        ipv4_only: false,
        ipv6_only: false,
        test: None,
        upload_size: 100,
    }
}

fn queue(texts: &[&str]) -> VecDeque<Url> {
    texts.iter().map(|t| Url::parse(t).unwrap()).collect()
}

fn client(mut a: Args, urls: &[&str]) -> Handler<u32> {
    match ClientRunner::new(&mut a, "a", queue(urls), None) {
        Ok((runner, _)) => runner.handler,
        Err(_) => panic!("no such test"),
    }
}

fn told(step: &Http3Step) -> Vec<String> {
    step.effects
        .iter()
        .map(|e| match e {
            Effect::Print(line) => line.clone(),
            Effect::Warn(line) => format!("! {line}"),
            Effect::Saving { url, path } => format!("{url} -> {path}"),
            Effect::UploadTime { stream_id, nanos } => format!("{stream_id} took {nanos}"),
            Effect::Authenticate => "authenticate".to_string(),
            Effect::Send { stream_id, data } => format!("{stream_id} sends {}", data.len()),
            Effect::CloseSend(stream_id) => format!("{stream_id} ends"),
            Effect::Close { code, reason } => format!("close {code} {reason}"),
        })
        .collect()
}

fn fetched_url(step: &Http3Step) -> String {
    match &step.request {
        Http3Request::Fetch { url, .. } => url.text.clone(),
        _ => panic!("no request"),
    }
}

#[test]
fn requests_are_made_up_to_the_limit() {
    let mut h = client(args(), &["https://a/1", "https://a/2", "https://a/3"]);
    assert!(matches!(h.handle().request, Http3Request::NextEvent));
    let step = h.on_event(Some(Http3Event::Connected));
    assert_eq!(fetched_url(&step), "https://a/1");
    assert!(matches!(
        step.request,
        Http3Request::Fetch { ref method, ref headers, .. } if method == "GET" && headers.is_empty()
    ));
    let step = h.on_fetched(Ok(0), 0);
    assert_eq!(
        told(&step),
        ["Successfully created stream id 0 for https://a/1", "0 ends"]
    );
    assert_eq!(fetched_url(&step), "https://a/2");
    let step = h.on_fetched(Ok(4), 0);
    assert!(matches!(step.request, Http3Request::NextEvent));
    assert!(h.serves(0) && h.serves(4) && !h.serves(8));
    let step = h.on_event(Some(Http3Event::HeaderReady {
        stream_id: 0,
        headers: "[]".to_string(),
        fin: true,
    }));
    assert_eq!(fetched_url(&step), "https://a/3");
    assert!(!h.serves(0));
    h.on_fetched(Ok(8), 0);
    h.handle();
    assert!(matches!(h.on_event(None).request, Http3Request::Return(Ok(true))));
}

#[test]
fn a_refused_request_is_made_again() {
    for refusal in [
        Http3Error::TransportError(TransportError::StreamLimitError),
        Http3Error::StreamLimitError,
        Http3Error::Unavailable,
    ] {
        let mut h = client(args(), &["https://a/1", "https://a/2"]);
        h.handle();
        h.on_event(Some(Http3Event::Connected));
        let step = h.on_fetched(Err(refusal), 0);
        assert!(step.effects.is_empty());
        assert!(matches!(step.request, Http3Request::NextEvent));
        let step = h.on_event(Some(Http3Event::RequestsCreatable));
        assert_eq!(fetched_url(&step), "https://a/1");
    }
}

#[test]
fn a_failed_request_aborts() {
    let mut h = client(args(), &["https://a/1"]);
    h.handle();
    h.on_event(Some(Http3Event::Connected));
    let step = h.on_fetched(Err(Http3Error::Other("x".to_string())), 0);
    assert!(matches!(
        step.request,
        Http3Request::Abort(Abort::CannotFetch(Http3Error::Other(_)))
    ));
}

#[test]
fn the_connection_is_closed_at_the_end() {
    let mut a = args();
    a.concurrency = 1;
    let mut h = client(a, &["https://a/1", "https://a/2"]);
    h.handle();
    h.on_event(Some(Http3Event::Connected));
    h.on_fetched(Ok(0), 0);
    assert!(matches!(
        h.on_event(Some(Http3Event::DataReadable { stream_id: 0 })).request,
        Http3Request::Read { stream_id: 0 }
    ));
    let step = h.on_data(vec![0; 4096], 10, false, 0);
    assert_eq!(told(&step), ["READ[0]: 10 bytes"]);
    assert!(matches!(step.request, Http3Request::Read { stream_id: 0 }));
    let step = h.on_data(vec![0; 4096], 0, true, 0);
    assert_eq!(told(&step), ["READ[0]: 0 bytes", "<FIN[0]>"]);
    assert_eq!(fetched_url(&step), "https://a/2");
    let step = h.on_fetched(Ok(4), 0);
    assert!(matches!(step.request, Http3Request::Return(Ok(true))));
    h.handle();
    let step = h.on_event(Some(Http3Event::HeaderReady {
        stream_id: 4,
        headers: "[]".to_string(),
        fin: true,
    }));
    assert_eq!(told(&step), ["READ HEADERS[4]: fin=true []", "close 0 kthxbye!"]);
    assert!(matches!(step.request, Http3Request::Return(Ok(false))));
}

#[test]
fn reading_stops_when_nothing_is_there() {
    let mut h = client(args(), &["https://a/1"]);
    h.handle();
    h.on_event(Some(Http3Event::Connected));
    h.on_fetched(Ok(0), 0);
    h.on_event(Some(Http3Event::DataReadable { stream_id: 0 }));
    let step = h.on_data(vec![0; 4096], 0, false, 0);
    assert!(matches!(step.request, Http3Request::NextEvent));
}

#[test]
fn contents_are_written_to_files() {
    let mut a = args();
    a.output_dir = Some("out".to_string());
    let mut h = client(a, &["https://a/x", "https://a/x"]);
    h.handle();
    h.on_event(Some(Http3Event::Connected));
    let step = h.on_fetched(Ok(0), 0);
    assert_eq!(
        told(&step),
        ["Successfully created stream id 0 for https://a/x", "https://a/x -> out/x"]
    );
    assert!(matches!(
        step.request,
        Http3Request::Open { stream_id: 0, ref path } if path == "out/x"
    ));
    let step = h.on_opened(true);
    assert_eq!(told(&step), ["0 ends"]);
    let step = h.on_fetched(Ok(4), 0);
    assert_eq!(
        told(&step),
        [
            "Successfully created stream id 4 for https://a/x",
            "! duplicate path out/x",
            "4 ends"
        ]
    );
    h.on_event(Some(Http3Event::DataReadable { stream_id: 0 }));
    let step = h.on_data(b"hello\0\0".to_vec(), 5, true, 0);
    assert!(step.effects.is_empty());
    assert!(matches!(
        step.request,
        Http3Request::Write { stream_id: 0, ref data } if data == b"hello"
    ));
    let step = h.on_written(Ok(()));
    assert!(matches!(step.request, Http3Request::Return(Ok(true))));
}

#[test]
fn a_file_that_cannot_be_created_is_done_without() {
    let mut a = args();
    a.output_dir = Some("out".to_string());
    let mut h = client(a, &["https://a/x"]);
    h.handle();
    h.on_event(Some(Http3Event::Connected));
    h.on_fetched(Ok(0), 0);
    let step = h.on_opened(false);
    assert_eq!(told(&step), ["0 ends"]);
    h.on_event(Some(Http3Event::DataReadable { stream_id: 0 }));
    assert_eq!(told(&h.on_data(vec![1, 2], 2, false, 0)), ["READ[0]: 2 bytes"]);
}

#[test]
fn a_file_that_cannot_be_written_is_a_failure() {
    let mut a = args();
    a.output_dir = Some("out".to_string());
    let mut h = client(a, &["https://a/x"]);
    h.handle();
    h.on_event(Some(Http3Event::Connected));
    h.on_fetched(Ok(0), 0);
    h.on_opened(true);
    h.on_event(Some(Http3Event::DataReadable { stream_id: 0 }));
    h.on_data(vec![1], 1, false, 0);
    let step = h.on_written(Err(IoError { kind: IoErrorKind::Other, text: "full".to_string() }));
    assert!(matches!(
        step.request,
        Http3Request::Return(Err(ClientError::IoError(ref e))) if e.text == "full"
    ));
}

#[test]
fn streams_nobody_asked_for_end_the_client() {
    for event in [
        Http3Event::DataReadable { stream_id: 9 },
        Http3Event::DataWritable { stream_id: 9 },
        Http3Event::HeaderReady { stream_id: 9, headers: String::new(), fin: false },
    ] {
        let mut h = client(args(), &["https://a/x"]);
        h.handle();
        let step = h.on_event(Some(event));
        assert_eq!(told(&step), ["Data on unexpected stream: 9"]);
        assert!(matches!(step.request, Http3Request::Return(Ok(false))));
    }
}

#[test]
fn other_events() {
    let mut h = client(args(), &["https://a/x"]);
    h.handle();
    let step = h.on_event(Some(Http3Event::AuthenticationNeeded));
    assert_eq!(told(&step), ["authenticate"]);
    let step = h.on_event(Some(Http3Event::Other("Reset".to_string())));
    assert_eq!(told(&step), ["Unhandled event Reset"]);
    let step = h.on_event(Some(Http3Event::ResumptionToken(7)));
    assert!(step.effects.is_empty());
    assert!(matches!(step.request, Http3Request::NextEvent));
    assert_eq!(h.take_token(), Some(7));
    assert_eq!(h.take_token(), None);
}

#[test]
fn keys_are_updated_before_requests_go_on() {
    let mut a = args();
    a.key_update = true;
    let mut h = client(a, &["https://a/1", "https://a/2"]);
    assert!(matches!(h.maybe_key_update().request, Http3Request::UpdateKeys));
    let blocked = Http3Error::TransportError(TransportError::KeyUpdateBlocked);
    let step = h.on_key_update(Err(blocked));
    assert!(step.effects.is_empty());
    assert_eq!(fetched_url(&step), "https://a/1");
    h.on_fetched(Err(Http3Error::Unavailable), 0);
    assert!(matches!(h.maybe_key_update().request, Http3Request::UpdateKeys));
    let step = h.on_key_update(Ok(()));
    assert_eq!(told(&step), ["Keys updated"]);
    h.on_fetched(Err(Http3Error::Unavailable), 0);
    assert_eq!(fetched_url(&h.maybe_key_update()), "https://a/1");
}

#[test]
fn a_failed_key_update_is_a_failure() {
    let mut a = args();
    a.key_update = true;
    let mut h = client(a, &["https://a/1"]);
    h.maybe_key_update();
    let step = h.on_key_update(Err(Http3Error::Unavailable));
    assert!(matches!(
        step.request,
        Http3Request::Return(Err(ClientError::Http3Error(Http3Error::Unavailable)))
    ));
}

#[test]
fn an_upload_is_posted_and_sent() {
    let mut a = args();
    a.test = Some("upload".to_string());
    a.upload_size = 40000;
    let mut h = client(a, &["https://a/up"]);
    h.handle();
    let step = h.on_event(Some(Http3Event::Connected));
    assert!(matches!(step.request, Http3Request::Fetch { ref method, .. } if method == "POST"));
    let step = h.on_fetched(Ok(0), 100);
    assert_eq!(told(&step), ["Successfully created stream id 0 for https://a/up"]);
    let step = h.on_event(Some(Http3Event::DataWritable { stream_id: 0 }));
    assert!(matches!(
        step.request,
        Http3Request::Send { stream_id: 0, ref data } if data.len() == 32768
    ));
    let step = h.on_sent(Some(30000));
    assert!(step.effects.is_empty());
    assert!(matches!(step.request, Http3Request::Send { ref data, .. } if data.len() == 10000));
    assert!(matches!(h.on_sent(Some(0)).request, Http3Request::Return(Ok(true))));
    h.handle();
    h.on_event(Some(Http3Event::DataWritable { stream_id: 0 }));
    assert!(matches!(h.on_sent(None).request, Http3Request::Return(Ok(true))));
    h.handle();
    h.on_event(Some(Http3Event::DataWritable { stream_id: 0 }));
    let step = h.on_sent(Some(10000));
    assert_eq!(told(&step), ["0 ends"]);
    assert!(matches!(step.request, Http3Request::Return(Ok(true))));
    h.handle();
    h.on_event(Some(Http3Event::DataReadable { stream_id: 0 }));
    let step = h.on_data(b"40000\0".to_vec(), 5, true, 350);
    assert_eq!(told(&step), ["0 took 250", "close 0 kthxbye!"]);
}

#[test]
fn an_upload_is_ended_once() {
    let mut a = args();
    a.test = Some("upload".to_string());
    let mut h = client(a, &["https://a/up"]);
    h.handle();
    h.on_event(Some(Http3Event::Connected));
    h.on_fetched(Ok(0), 0);
    h.on_event(Some(Http3Event::DataWritable { stream_id: 0 }));
    assert!(h.on_sent(Some(60)).effects.is_empty());
    assert_eq!(told(&h.on_sent(Some(40))), ["0 ends"]);
    for _ in 0..3 {
        h.handle();
        let step = h.on_event(Some(Http3Event::DataWritable { stream_id: 0 }));
        assert!(step.effects.is_empty());
        assert!(matches!(step.request, Http3Request::Return(Ok(true))));
    }
}

#[test]
fn an_empty_upload_is_never_ended() {
    let mut a = args();
    a.test = Some("upload".to_string());
    a.upload_size = 0;
    let mut h = client(a, &["https://a/up"]);
    h.handle();
    h.on_event(Some(Http3Event::Connected));
    h.on_fetched(Ok(0), 0);
    let step = h.on_event(Some(Http3Event::DataWritable { stream_id: 0 }));
    assert!(step.effects.is_empty());
    assert!(matches!(step.request, Http3Request::Return(Ok(true))));
}

#[test]
fn nothing_is_saved_outside_the_output_directory() {
    let mut a = args();
    a.output_dir = Some("/out".to_string());
    let mut h = client(a, &["https://a//abs/x"]);
    h.handle();
    h.on_event(Some(Http3Event::Connected));
    let step = h.on_fetched(Ok(0), 0);
    assert_eq!(
        told(&step),
        ["Successfully created stream id 0 for https://a//abs/x", "https://a//abs/x -> /out/abs/x"]
    );
    assert!(matches!(step.request, Http3Request::Open { ref path, .. } if path == "/out/abs/x"));
}

#[test]
fn an_upload_that_is_answered_with_nonsense_aborts() {
    let mut a = args();
    a.test = Some("upload".to_string());
    let mut h = client(a, &["https://a/up"]);
    h.handle();
    h.on_event(Some(Http3Event::Connected));
    h.on_fetched(Ok(0), 100);
    h.on_event(Some(Http3Event::DataReadable { stream_id: 0 }));
    let step = h.on_data(b"much".to_vec(), 4, true, 350);
    assert!(matches!(step.request, Http3Request::Abort(Abort::UnexpectedLength { .. })));
}

#[test]
fn downloads_have_nothing_to_send() {
    let mut h = client(args(), &["https://a/x"]);
    h.handle();
    h.on_event(Some(Http3Event::Connected));
    h.on_fetched(Ok(0), 0);
    let step = h.on_event(Some(Http3Event::DataWritable { stream_id: 0 }));
    assert!(step.effects.is_empty());
    assert!(matches!(step.request, Http3Request::Return(Ok(true))));
}

#[test]
fn unknown_tests_end_the_program() {
    let mut a = args();
    a.test = Some("download".to_string());
    let exit = match ClientRunner::<u32>::new(&mut a, "a", queue(&["https://a/"]), None) {
        Ok(_) => panic!("there is no such test"),
        Err(exit) => exit,
    };
    assert_eq!(exit.code, 127);
    assert_eq!(exit.line.unwrap(), "Unsupported test case: download");
    assert_eq!(a.method, "GET");
}

fn left_token(resume: bool, test: Option<&str>, came: Option<u32>) -> TokenChoice<u32> {
    let mut a = args();
    a.resume = resume;
    a.test = test.map(str::to_string);
    let (mut runner, setup) = match ClientRunner::new(&mut a, "host", queue(&["https://a/"]), Some(3)) {
        Ok(r) => r,
        Err(_) => panic!("no such test"),
    };
    assert_eq!(setup.token, Some(3));
    assert_eq!(setup.transport.hostname, "host");
    assert!(matches!(runner.run().request, LoopRequest::Handle));
    runner.handler.handle();
    runner.handler.on_event(came.map(Http3Event::ResumptionToken));
    runner.take_token()
}

#[test]
fn a_token_is_left_for_resumption() {
    assert!(matches!(left_token(true, None, Some(9)), TokenChoice::Settled(Some(9))));
    assert!(matches!(left_token(true, None, None), TokenChoice::Ask));
    assert!(matches!(left_token(false, None, Some(9)), TokenChoice::Settled(None)));
    assert!(matches!(left_token(true, Some("upload"), Some(9)), TokenChoice::Settled(None)));
}
