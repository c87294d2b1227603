use neqo_client::args::Args;
use neqo_client::effect::{Abort, Effect};
use neqo_client::error::{ClientError, IoError, IoErrorKind, TransportError};
use neqo_client::event_loop::LoopRequest;
use neqo_client::http09::{ConnectionEvent, HandlerOld, OldRequest, OldStep, StreamType};
use neqo_client::http09_runner::ClientRunner;
use neqo_client::http3_runner::TokenChoice;
use neqo_client::quic::{CongestionControlAlgorithm, QuicParameters};
use neqo_client::urls::Url;
use std::collections::VecDeque;

fn args() -> Args {
    Args {
        alpn: "h3".to_string(),
        urls: Vec::new(),
        method: "GET".to_string(),
        header: Vec::new(),
        max_table_size_encoder: 16384,
        max_table_size_decoder: 16384,
        max_blocked_streams: 10,
        max_concurrent_push_streams: 10,
        use_old_http: true,
        download_in_series: false,
        concurrency: 2,
        output_read_data: false,
        qlog_dir: None,
        output_dir: None,
        qns_test: None,
        resume: false,
        key_update: false,
        ciphers: Vec::new(),
        ech: None,
        quic_parameters: QuicParameters {
            quic_version: Vec::new(),
            max_streams_bidi: 16,
            max_streams_uni: 16,
            idle_timeout: 30,
            congestion_control: CongestionControlAlgorithm::Cubic,
            pacing: true,
        },
        ipv4_only: false,
        ipv6_only: false,
        test: None,
        upload_size: 100,
    }
}

fn queue(texts: &[&str]) -> VecDeque<Url> {
    texts.iter().map(|t| Url::parse(t).unwrap()).collect()
}

fn client(a: &Args, urls: &[&str]) -> HandlerOld<u32> {
    ClientRunner::new(a, "a", queue(urls), None).0.handler
}

fn told(step: &OldStep) -> Vec<String> {
    step.effects
        .iter()
        .map(|e| match e {
            Effect::Print(line) => line.clone(),
            Effect::Warn(line) => format!("! {line}"),
            Effect::Saving { url, path } => format!("{url} -> {path}"),
            Effect::Authenticate => "authenticate".to_string(),
            Effect::Send { stream_id, data } => {
                format!("{stream_id} sends {}", String::from_utf8(data.clone()).unwrap())
            }
            Effect::CloseSend(stream_id) => format!("{stream_id} ends"),
            Effect::Close { code, reason } => format!("close {code} {reason}"),
            Effect::UploadTime { .. } => unreachable!(),
        })
        .collect()
}

fn connected() -> Option<ConnectionEvent<u32>> {
    Some(ConnectionEvent::Progress("StateChange(Connected)".to_string()))
}

fn readable(stream_id: u64) -> Option<ConnectionEvent<u32>> {
    Some(ConnectionEvent::RecvStreamReadable { stream_id })
}

#[test]
fn requests_are_sent_up_to_the_limit() {
    let mut h = client(&args(), &["https://a/1", "https://a/2", "https://a/3"]);
    assert!(matches!(h.handle().request, OldRequest::NextEvent));
    let step = h.on_event(connected());
    assert_eq!(told(&step), ["StateChange(Connected)"]);
    assert!(matches!(step.request, OldRequest::CreateStream));
    let step = h.on_created(Ok(0));
    assert_eq!(
        told(&step),
        ["Created stream 0 for https://a/1", "0 sends GET /1\r\n", "0 ends"]
    );
    assert!(matches!(step.request, OldRequest::CreateStream));
    let step = h.on_created(Ok(4));
    assert!(matches!(step.request, OldRequest::NextEvent));
    assert!(h.serves(0) && h.serves(4) && !h.serves(8));
    h.on_event(readable(0));
    assert!(matches!(
        h.on_data(Ok((0, true)), &Vec::new()).request,
        OldRequest::CreateStream
    ));
    assert_eq!(told(&h.on_created(Ok(8)))[0], "Created stream 8 for https://a/3");
}

#[test]
fn a_refused_stream_is_created_later() {
    for (refusal, name) in [
        (TransportError::StreamLimitError, "StreamLimitError"),
        (TransportError::ConnectionState, "ConnectionState"),
    ] {
        let mut h = client(&args(), &["https://a/1", "https://a/2"]);
        h.handle();
        h.on_event(connected());
        let step = h.on_created(Err(refusal));
        assert_eq!(told(&step), [format!("Cannot create stream {name}")]);
        assert!(matches!(step.request, OldRequest::NextEvent));
        let step =
            h.on_event(Some(ConnectionEvent::SendStreamCreatable { stream_type: StreamType::BiDi }));
        assert_eq!(told(&step), ["stream BiDi creatable"]);
        assert!(matches!(step.request, OldRequest::CreateStream));
        assert_eq!(told(&h.on_created(Ok(0)))[0], "Created stream 0 for https://a/1");
    }
}

#[test]
fn a_stream_that_cannot_be_created_aborts() {
    let mut h = client(&args(), &["https://a/1"]);
    h.handle();
    h.on_event(connected());
    let step = h.on_created(Err(TransportError::KeyUpdateBlocked));
    assert!(matches!(
        step.request,
        OldRequest::Abort(Abort::CannotCreateStream(TransportError::KeyUpdateBlocked))
    ));
}

#[test]
fn the_connection_is_closed_after_the_last_stream() {
    let mut h = client(&args(), &["https://a/1"]);
    h.handle();
    h.on_event(connected());
    h.on_created(Ok(0));
    assert!(matches!(h.on_event(readable(0)).request, OldRequest::Read { stream_id: 0 }));
    let data = b"abc\0".to_vec();
    let step = h.on_data(Ok((3, false)), &data);
    assert_eq!(told(&step), ["READ[0]: 3 bytes"]);
    assert!(matches!(step.request, OldRequest::Read { stream_id: 0 }));
    let step = h.on_data(Ok((0, false)), &data);
    assert!(matches!(step.request, OldRequest::NextEvent));
    h.on_event(readable(0));
    let step = h.on_data(Ok((0, true)), &data);
    assert_eq!(told(&step), ["<FIN[0]>"]);
    assert!(matches!(step.request, OldRequest::DrainEvents));
    let step = h.on_drained(vec![
        ConnectionEvent::ResumptionToken(1),
        ConnectionEvent::Confirmed,
        ConnectionEvent::ResumptionToken(2),
        ConnectionEvent::AuthenticationNeeded,
    ]);
    assert_eq!(told(&step), ["close 0 kthxbye!"]);
    assert!(matches!(step.request, OldRequest::Return(Ok(false))));
    assert_eq!(h.take_token(), Some(1));
}

#[test]
fn an_earlier_token_is_kept() {
    let mut h = client(&args(), &["https://a/1"]);
    h.handle();
    h.on_event(Some(ConnectionEvent::ResumptionToken(5)));
    h.on_event(readable(8));
    h.on_drained(Vec::new());
    assert_eq!(h.take_token(), Some(5));
}

#[test]
fn data_nobody_asked_for_ends_the_client() {
    let mut h = client(&args(), &["https://a/1"]);
    h.handle();
    let step = h.on_event(readable(8));
    assert_eq!(told(&step), ["Data on unexpected stream: 8"]);
    assert!(matches!(step.request, OldRequest::DrainEvents));
}

#[test]
fn contents_are_shown_as_text() {
    let mut a = args();
    a.output_read_data = true;
    let mut h = client(&a, &["https://a/1"]);
    h.handle();
    h.on_event(connected());
    h.on_created(Ok(0));
    h.on_event(readable(0));
    let step = h.on_data(Ok((3, false)), &b"abc\0".to_vec());
    assert_eq!(told(&step), ["READ[0]: abc"]);
    let step = h.on_data(Ok((2, false)), &vec![b'h', b'i', 0xff, 0]);
    assert_eq!(told(&step), ["READ[0]: hi"]);
    let step = h.on_data(Ok((1, true)), &vec![0xff, b'a']);
    assert!(matches!(
        step.request,
        OldRequest::Abort(Abort::UnexpectedBytes { stream_id: 0 })
    ));
}

#[test]
fn contents_of_old_requests_are_saved() {
    let mut a = args();
    a.output_dir = Some("/tmp/o".to_string());
    let mut h = client(&a, &["https://a/", "https://a/root"]);
    h.handle();
    h.on_event(connected());
    let step = h.on_created(Ok(0));
    assert_eq!(
        told(&step),
        [
            "Created stream 0 for https://a/",
            "0 sends GET /\r\n",
            "0 ends",
            "https://a/ -> /tmp/o/root"
        ]
    );
    assert!(matches!(step.request, OldRequest::Open { stream_id: 0, ref path } if path == "/tmp/o/root"));
    assert!(matches!(h.on_opened(true).request, OldRequest::CreateStream));
    let step = h.on_created(Ok(4));
    assert_eq!(told(&step)[3], "! duplicate path /tmp/o/root");
    h.on_event(readable(0));
    let step = h.on_data(Ok((2, true)), &b"hi\0\0".to_vec());
    assert!(step.effects.is_empty());
    assert!(matches!(step.request, OldRequest::Write { stream_id: 0, ref data } if data == b"hi"));
    let step = h.on_written(Ok(()));
    assert!(step.effects.is_empty());
    assert!(matches!(step.request, OldRequest::NextEvent));
    assert!(!h.serves(0) && h.serves(4));
}

#[test]
fn failures_while_reading() {
    let mut a = args();
    a.output_dir = Some("o".to_string());
    let mut h = client(&a, &["https://a/1"]);
    h.handle();
    h.on_event(connected());
    h.on_created(Ok(0));
    h.on_opened(true);
    h.on_event(readable(0));
    h.on_data(Ok((1, false)), &vec![7]);
    let step = h.on_written(Err(IoError { kind: IoErrorKind::Other, text: "x".to_string() }));
    assert!(matches!(step.request, OldRequest::Return(Err(ClientError::IoError(_)))));
    h.handle();
    h.on_event(readable(0));
    let step = h.on_data(Err(TransportError::Other("gone".to_string())), &vec![7]);
    assert!(matches!(
        step.request,
        OldRequest::Return(Err(ClientError::TransportError(TransportError::Other(_))))
    ));
}

#[test]
fn events_of_streams_and_connections_are_shown() {
    let mut h = client(&args(), &["https://a/1"]);
    h.handle();
    let step = h.on_event(Some(ConnectionEvent::AuthenticationNeeded));
    assert_eq!(told(&step), ["authenticate"]);
    let step = h.on_event(Some(ConnectionEvent::SendStreamWritable { stream_id: 4 }));
    assert_eq!(told(&step), ["stream 4 writable"]);
    let step = h.on_event(Some(ConnectionEvent::SendStreamComplete { stream_id: 4 }));
    assert_eq!(told(&step), ["stream 4 complete"]);
    let step =
        h.on_event(Some(ConnectionEvent::SendStreamCreatable { stream_type: StreamType::UniDi }));
    assert_eq!(told(&step), ["stream UniDi creatable"]);
    assert!(matches!(step.request, OldRequest::NextEvent));
    let step = h.on_event(Some(ConnectionEvent::Other("ZeroRttRejected".to_string())));
    assert_eq!(told(&step), ["Unhandled event ZeroRttRejected"]);
    assert!(matches!(h.on_event(None).request, OldRequest::Return(Ok(true))));
}

#[test]
fn requests_wait_for_the_key_update() {
    let mut a = args();
    a.key_update = true;
    let mut h = client(&a, &["https://a/1"]);
    h.handle();
    let step = h.on_event(connected());
    assert_eq!(
        told(&step),
        ["StateChange(Connected)", "Deferring requests until after first key update"]
    );
    assert!(matches!(step.request, OldRequest::NextEvent));
    let step = h.on_event(Some(ConnectionEvent::Confirmed));
    assert!(matches!(step.request, OldRequest::UpdateKeys));
    let step = h.on_key_update(Err(TransportError::KeyUpdateBlocked));
    assert_eq!(told(&step), ["Deferring requests until after first key update"]);
    assert!(matches!(step.request, OldRequest::NextEvent));
    assert!(matches!(h.on_event(None).request, OldRequest::Return(Ok(true))));
    assert!(matches!(h.maybe_key_update().request, OldRequest::UpdateKeys));
    let step = h.on_key_update(Ok(()));
    assert_eq!(told(&step), ["Keys updated"]);
    assert!(matches!(step.request, OldRequest::CreateStream));
    assert!(matches!(h.on_created(Ok(0)).request, OldRequest::Return(Ok(true))));
}

#[test]
fn a_key_update_that_fails_is_a_failure() {
    let mut a = args();
    a.key_update = true;
    let mut h = client(&a, &["https://a/1"]);
    h.maybe_key_update();
    let step = h.on_key_update(Err(TransportError::ConnectionState));
    assert!(matches!(
        step.request,
        OldRequest::Return(Err(ClientError::TransportError(TransportError::ConnectionState)))
    ));
}

#[test]
fn an_old_connection_leaves_a_token() {
    let mut a = args();
    for (resume, came) in [(true, Some(4)), (true, None), (false, Some(4))] {
        a.resume = resume;
        let (mut runner, setup) = ClientRunner::new(&a, "host", queue(&["https://a/"]), Some(3));
        assert_eq!(setup.token, Some(3));
        assert_eq!(setup.transport.alpn, "hq-interop");
        assert!(matches!(runner.run().request, LoopRequest::Handle));
        runner.handler.handle();
        runner.handler.on_event(came.map(ConnectionEvent::ResumptionToken));
        match runner.take_token() {
            TokenChoice::Settled(token) => assert_eq!(token, if resume { came } else { None }),
            TokenChoice::Ask => assert!(resume && came.is_none()),
        }
    }
}
