use neqo_client::error::{ClientError, Http3Error, IoError, IoErrorKind, TransportError};
use neqo_client::event_loop::{
    emit_datagram, read_buffer, read_dgram, EventLoop, LoopEffect, LoopRequest, Output, Ready,
    Timeout, READ_BUFFER, RECEIVE_BUFFER,
};

fn io_error(kind: IoErrorKind) -> IoError {
    IoError { kind, text: "oops".to_string() }
}

/// A buffer that holds 1, 2, 3 and so on.
fn buffer() -> Vec<u8> {
    (1..=RECEIVE_BUFFER).map(|i| i as u8).collect()
}

fn warnings(effects: &[LoopEffect]) -> Vec<String> {
    effects
        .iter()
        .filter_map(|e| match e {
            LoopEffect::Warn(line) => Some(line.clone()),
            _ => None,
        })
        .collect()
}

#[test]
fn sending_a_datagram() {
    let (effects, r) = emit_datagram(1200, Ok(1200));
    assert!(effects.is_empty() && r.is_ok());

    let (effects, r) = emit_datagram(1200, Ok(1000));
    assert_eq!(warnings(&effects), ["Unable to send all 1200 bytes of datagram"]);
    assert!(r.is_ok());

    let (effects, r) = emit_datagram(1200, Err(io_error(IoErrorKind::Other)));
    assert_eq!(
        warnings(&effects),
        ["UDP send error: oops", "Unable to send all 1200 bytes of datagram"]
    );
    assert!(r.is_ok());

    let (effects, r) = emit_datagram(0, Err(io_error(IoErrorKind::Interrupted)));
    assert_eq!(warnings(&effects), ["UDP send error: oops"]);
    assert!(r.is_ok());

    let (effects, r) = emit_datagram(1200, Err(io_error(IoErrorKind::WouldBlock)));
    assert!(effects.is_empty());
    assert_eq!(r.err().unwrap().kind, IoErrorKind::WouldBlock);
}

#[test]
fn receiving_a_datagram() {
    let buf = buffer();
    let (effects, r) = read_dgram(Ok(100), &buf);
    assert!(effects.is_empty());
    assert!(matches!(r, Ok(Some(ref data)) if data[..] == buf[..100]));

    let (effects, r) = read_dgram(Ok(2048), &buf);
    assert_eq!(warnings(&effects), ["Might have received more than 2048 bytes"]);
    assert!(matches!(r, Ok(Some(ref data)) if *data == buf));

    let (effects, r) = read_dgram(Ok(0), &buf);
    assert_eq!(warnings(&effects), ["zero length datagram received?"]);
    assert!(matches!(r, Ok(None)));

    for kind in [IoErrorKind::WouldBlock, IoErrorKind::Interrupted] {
        let (effects, r) = read_dgram(Err(io_error(kind)), &buf);
        assert!(effects.is_empty());
        assert!(matches!(r, Ok(None)));
    }

    let (effects, r) = read_dgram(Err(io_error(IoErrorKind::Other)), &buf);
    assert_eq!(warnings(&effects), ["UDP recv error: oops"]);
    assert!(r.is_err());
}

#[test]
fn buffers_to_read_in_are_zero() {
    assert_eq!(read_buffer(), vec![0; 4096]);
    assert_eq!(READ_BUFFER, 4096);
}

#[test]
fn a_round_of_the_loop() {
    let timeout = Timeout { secs: 1, nanos: 5 };
    let mut l = EventLoop::new();
    assert!(matches!(l.run().request, LoopRequest::Handle));
    assert!(matches!(l.on_handled(Ok(true)).request, LoopRequest::Process { datagram: None }));
    assert!(matches!(l.on_output(Output::Datagram { len: 9 }).request, LoopRequest::Emit));
    assert!(matches!(l.on_emitted(Ok(9)).request, LoopRequest::Process { datagram: None }));
    let step = l.on_output(Output::Callback(timeout));
    assert!(matches!(step.request, LoopRequest::Wait));
    assert!(matches!(step.effects[..], [LoopEffect::Arm(t)] if t == timeout));
    assert!(matches!(l.on_ready(Ok(Ready::Socket)).request, LoopRequest::Receive));
    let step = l.on_received(Ok(2), &buffer());
    assert!(matches!(
        step.request,
        LoopRequest::Process { datagram: Some(ref data) } if data == &[1, 2]
    ));
    assert!(matches!(l.on_output(Output::Datagram { len: 7 }).request, LoopRequest::Emit));
    assert!(matches!(l.on_emitted(Ok(7)).request, LoopRequest::Process { datagram: None }));
    assert!(matches!(l.on_output(Output::Nothing).request, LoopRequest::UpdateKeys));
    assert!(matches!(l.on_key_update(Ok(())).request, LoopRequest::Receive));
    let step = l.on_received(Err(io_error(IoErrorKind::WouldBlock)), &buffer());
    assert!(matches!(step.request, LoopRequest::CheckState));
    assert!(matches!(l.on_state(false).request, LoopRequest::Handle));
}

/// A loop that deals with events.
fn handling() -> EventLoop {
    let mut l = EventLoop::new();
    l.run();
    l
}

/// A loop that waits.
fn waiting() -> EventLoop {
    let mut l = handling();
    l.on_handled(Ok(true));
    l.on_output(Output::Nothing);
    l
}

/// A loop that receives.
fn receiving() -> EventLoop {
    let mut l = waiting();
    l.on_ready(Ok(Ready::Socket));
    l
}

#[test]
fn the_time_runs_out() {
    let mut l = handling();
    l.on_handled(Ok(true));
    l.on_output(Output::Callback(Timeout { secs: 0, nanos: 1 }));
    let step = l.on_ready(Ok(Ready::Timeout));
    assert!(matches!(step.request, LoopRequest::CheckState));
    assert!(matches!(step.effects[..], [LoopEffect::Disarm]));
}

#[test]
fn the_loop_ends() {
    assert!(matches!(handling().on_handled(Ok(false)).request, LoopRequest::Finish));
    let mut l = waiting();
    l.on_ready(Ok(Ready::Timeout));
    assert!(matches!(l.on_state(true).request, LoopRequest::Finish));
    assert!(matches!(l.run().request, LoopRequest::Handle));
}

#[test]
fn the_loop_fails() {
    let step = handling().on_handled(Err(ClientError::Http3Error(Http3Error::Unavailable)));
    assert!(matches!(
        step.request,
        LoopRequest::Fail(ClientError::Http3Error(Http3Error::Unavailable))
    ));

    let mut l = receiving();
    l.on_received(Ok(1), &buffer());
    l.on_output(Output::Nothing);
    let step = l.on_key_update(Err(ClientError::TransportError(TransportError::ConnectionState)));
    assert!(matches!(step.request, LoopRequest::Fail(ClientError::TransportError(_))));

    let step = receiving().on_received(Err(io_error(IoErrorKind::Other)), &buffer());
    assert!(matches!(step.request, LoopRequest::Fail(ClientError::IoError(_))));

    let mut l = receiving();
    l.on_received(Ok(1), &buffer());
    l.on_output(Output::Datagram { len: 3 });
    let step = l.on_emitted(Err(io_error(IoErrorKind::WouldBlock)));
    assert!(matches!(step.request, LoopRequest::Fail(ClientError::IoError(_))));

    let step = waiting().on_ready(Err(io_error(IoErrorKind::Other)));
    assert!(matches!(step.request, LoopRequest::Fail(ClientError::IoError(_))));
}
