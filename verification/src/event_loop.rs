//! The loop that a connection is run by: events, output, input, and again.
//!
//! An [`EventLoop`] never waits. It says what to do next, and is told the outcome by the method
//! that belongs to it.

use crate::error::{ClientError, IoError, IoErrorKind};
use crate::lines::{
    empty_datagram_line, empty_datagram_line_text, full_buffer_line, full_buffer_line_text,
    receive_error_line, receive_error_line_text, send_error_line, send_error_line_text,
    short_send_line, short_send_line_text,
};
use vstd::prelude::*;
use vstd::slice::{slice_subrange, slice_to_vec};

verus! {

/// The size of the buffer that datagrams are received in.
pub const RECEIVE_BUFFER: usize = 2048;

/// The size of the buffer that data is read from streams in.
pub const READ_BUFFER: usize = 4096;

/// A buffer to read data from streams in. What is not filled stays zero.
pub fn read_buffer() -> (data: Vec<u8>)
    ensures
        data@ == Seq::new(READ_BUFFER as nat, |i: int| 0u8),
{
    let data = vec![0; READ_BUFFER];
    assert(data@ =~= Seq::new(READ_BUFFER as nat, |i: int| 0u8));
    data
}

/// A span of time.
#[derive(Debug, Clone, Copy, PartialEq, Eq, Structural)]
pub struct Timeout {
    /// Whole seconds.
    pub secs: u64,
    /// And nanoseconds.
    pub nanos: u32,
}

/// What a connection puts out.
#[derive(Debug, Clone, Copy, PartialEq, Eq, Structural)]
pub enum Output {
    /// A datagram of so many bytes.
    Datagram { len: usize },
    /// Nothing, until so much time has passed.
    Callback(Timeout),
    /// Nothing.
    Nothing,
}

/// What was waited for.
#[derive(Debug, Clone, Copy, PartialEq, Eq, Structural)]
pub enum Ready {
    /// The socket can be read.
    Socket,
    /// The time is over.
    Timeout,
}

/// Something to be done at once.
pub enum LoopEffect {
    /// Print a line where errors go.
    Warn(String),
    /// Let the time run that the next wait lasts at most.
    Arm(Timeout),
    /// Let waits last as long as they may.
    Disarm,
}

/// The mathematical value of a [`LoopEffect`].
pub ghost enum LoopEffectView {
    Warn(Seq<char>),
    Arm(Timeout),
    Disarm,
}

impl View for LoopEffect {
    type V = LoopEffectView;

    open spec fn view(&self) -> LoopEffectView {
        match self {
            LoopEffect::Warn(line) => LoopEffectView::Warn(line@),
            LoopEffect::Arm(timeout) => LoopEffectView::Arm(*timeout),
            LoopEffect::Disarm => LoopEffectView::Disarm,
        }
    }
}

/// The mathematical values of a row of effects.
pub open spec fn loop_effects(effects: Seq<LoopEffect>) -> Seq<LoopEffectView> {
    Seq::new(effects.len(), |i: int| effects[i]@)
}

/// What to do next.
pub enum LoopRequest {
    /// Deal with what has happened on the connection. Answered with [`EventLoop::on_handled`].
    Handle,
    /// Let the connection work, on the bytes of a datagram that was received or on none. Answered
    /// with [`EventLoop::on_output`].
    Process { datagram: Option<Vec<u8>> },
    /// Send the datagram that the connection put out. Answered with [`EventLoop::on_emitted`].
    Emit,
    /// Wait for the socket, or until the time is over. Answered with [`EventLoop::on_ready`].
    Wait,
    /// Receive a datagram, in a buffer of [`RECEIVE_BUFFER`] bytes. Answered with
    /// [`EventLoop::on_received`].
    Receive,
    /// Update the keys if that is needed. Answered with [`EventLoop::on_key_update`].
    UpdateKeys,
    /// Look whether the connection is closed. Answered with [`EventLoop::on_state`].
    CheckState,
    /// The connection is over.
    Finish,
    /// The connection has failed.
    Fail(ClientError),
}

/// The mathematical value of a [`LoopRequest`].
pub ghost enum LoopRequestView {
    Handle,
    Process { datagram: Option<Seq<u8>> },
    Emit,
    Wait,
    Receive,
    UpdateKeys,
    CheckState,
    Finish,
    Fail(ClientError),
}

/// The bytes of a datagram, if there is one.
pub open spec fn bytes_of(datagram: Option<Vec<u8>>) -> Option<Seq<u8>> {
    match datagram {
        Some(data) => Some(data@),
        None => None,
    }
}

impl View for LoopRequest {
    type V = LoopRequestView;

    open spec fn view(&self) -> LoopRequestView {
        match self {
            LoopRequest::Handle => LoopRequestView::Handle,
            LoopRequest::Process { datagram } => LoopRequestView::Process {
                datagram: bytes_of(*datagram),
            },
            LoopRequest::Emit => LoopRequestView::Emit,
            LoopRequest::Wait => LoopRequestView::Wait,
            LoopRequest::Receive => LoopRequestView::Receive,
            LoopRequest::UpdateKeys => LoopRequestView::UpdateKeys,
            LoopRequest::CheckState => LoopRequestView::CheckState,
            LoopRequest::Finish => LoopRequestView::Finish,
            LoopRequest::Fail(e) => LoopRequestView::Fail(*e),
        }
    }
}

/// What to do at once, in order, and what to do then.
pub struct LoopStep {
    pub effects: Vec<LoopEffect>,
    pub request: LoopRequest,
}

/// Which outcome is awaited.
#[derive(Debug, Clone, Copy, PartialEq, Eq, Structural)]
pub enum LoopPhase {
    /// None: the loop does not run.
    Stopped,
    /// That of dealing with events.
    Handling,
    /// What the connection puts out. `received` tells whether it works because of a datagram that
    /// was received.
    Processing { received: bool },
    /// That of sending a datagram of `len` bytes.
    Emitting { received: bool, len: usize },
    /// That of waiting.
    Waiting,
    /// That of receiving.
    Receiving,
    /// That of updating the keys.
    Updating,
    /// Whether the connection is closed.
    Checking,
}

/// The loop of a connection.
pub struct EventLoop {
    /// The time that the next wait lasts at most, if there is a limit.
    timeout: Option<Timeout>,
    /// Which outcome is awaited.
    phase: LoopPhase,
}

/// The mathematical value of an [`EventLoop`].
pub ghost struct LoopView {
    pub timeout: Option<Timeout>,
    pub phase: LoopPhase,
}

impl View for EventLoop {
    type V = LoopView;

    closed spec fn view(&self) -> LoopView {
        LoopView { timeout: self.timeout, phase: self.phase }
    }
}

/// The loop after an outcome, with what it does.
pub ghost struct LoopTurn {
    pub timeout: Option<Timeout>,
    pub phase: LoopPhase,
    pub effects: Seq<LoopEffectView>,
    pub request: LoopRequestView,
}

/// What has come out of what was to be done, or the start of the loop.
pub ghost enum LoopInput {
    Run,
    Handled(Result<bool, ClientError>),
    Output(Output),
    Emitted(Result<usize, IoError>),
    Ready(Result<Ready, IoError>),
    /// How much of the buffer a datagram filled, or what failed; and the buffer.
    Received { outcome: Result<usize, IoError>, buf: Seq<u8> },
    KeysUpdated(Result<(), ClientError>),
    Closed(bool),
}

/// What is told of the outcome of sending a datagram of `len` bytes.
pub open spec fn emit_told(len: usize, outcome: Result<usize, IoError>) -> Seq<LoopEffectView> {
    let short = seq![LoopEffectView::Warn(short_send_line(len))];
    match outcome {
        Ok(sent) => if sent != len {
            short
        } else {
            Seq::empty()
        },
        Err(e) => if e.kind == IoErrorKind::WouldBlock {
            Seq::empty()
        } else {
            seq![LoopEffectView::Warn(send_error_line(e.text@))] + (if len != 0 {
                short
            } else {
                Seq::empty()
            })
        },
    }
}

/// Whether to go on after sending a datagram: a datagram may be lost, but a socket that would
/// have to wait is an error.
pub open spec fn datagram_sent(outcome: Result<usize, IoError>) -> Result<(), IoError> {
    match outcome {
        Ok(_) => Ok(()),
        Err(e) => if e.kind == IoErrorKind::WouldBlock {
            Err(e)
        } else {
            Ok(())
        },
    }
}

/// What is told of the outcome of receiving a datagram.
pub open spec fn receive_told(outcome: Result<usize, IoError>) -> Seq<LoopEffectView> {
    match outcome {
        Ok(sz) => if sz == RECEIVE_BUFFER {
            seq![LoopEffectView::Warn(full_buffer_line(RECEIVE_BUFFER))]
        } else if sz == 0 {
            seq![LoopEffectView::Warn(empty_datagram_line())]
        } else {
            Seq::empty()
        },
        Err(e) => if e.kind == IoErrorKind::Other {
            seq![LoopEffectView::Warn(receive_error_line(e.text@))]
        } else {
            Seq::empty()
        },
    }
}

/// A datagram that was received: the part of the buffer that was filled, unless there was none; or
/// what failed.
pub open spec fn datagram_received(outcome: Result<usize, IoError>, buf: Seq<u8>) -> Result<
    Option<Seq<u8>>,
    IoError,
> {
    match outcome {
        Ok(sz) => Ok(
            if sz == 0 {
                None
            } else {
                Some(buf.take(sz as int))
            },
        ),
        Err(e) => if e.kind == IoErrorKind::Other {
            Err(e)
        } else {
            Ok(None)
        },
    }
}

impl LoopView {
    /// Doing something without effects before.
    pub open spec fn does(self, phase: LoopPhase, request: LoopRequestView) -> LoopTurn {
        LoopTurn { timeout: self.timeout, phase, effects: Seq::empty(), request }
    }

    /// Stopping because of a failure.
    pub open spec fn fails(self, e: ClientError) -> LoopTurn {
        self.does(LoopPhase::Stopped, LoopRequestView::Fail(e))
    }

    /// Letting the connection work.
    pub open spec fn processes(self, received: bool, datagram: Option<Seq<u8>>) -> LoopTurn {
        self.does(LoopPhase::Processing { received }, LoopRequestView::Process { datagram })
    }

    /// Going on once the connection puts nothing out: after a datagram that was received with the
    /// keys, else with a wait.
    pub open spec fn processed(self, received: bool) -> LoopTurn {
        if received {
            self.does(LoopPhase::Updating, LoopRequestView::UpdateKeys)
        } else {
            self.does(LoopPhase::Waiting, LoopRequestView::Wait)
        }
    }

    /// Whether an input is one that is awaited.
    pub open spec fn awaits(self, input: LoopInput) -> bool {
        match (input, self.phase) {
            (LoopInput::Run, LoopPhase::Stopped) => true,
            (LoopInput::Handled(_), LoopPhase::Handling) => true,
            (LoopInput::Output(_), LoopPhase::Processing { .. }) => true,
            (LoopInput::Emitted(_), LoopPhase::Emitting { .. }) => true,
            (LoopInput::Ready(_), LoopPhase::Waiting) => true,
            (LoopInput::Received { outcome, buf }, LoopPhase::Receiving) => {
                &&& buf.len() == RECEIVE_BUFFER
                &&& outcome matches Ok(sz) ==> sz <= buf.len()
            },
            (LoopInput::KeysUpdated(_), LoopPhase::Updating) => true,
            (LoopInput::Closed(_), LoopPhase::Checking) => true,
            _ => false,
        }
    }

    /// What an input calls for.
    pub open spec fn next(self, input: LoopInput) -> LoopTurn {
        match (input, self.phase) {
            (LoopInput::Handled(r), _) => match r {
                Ok(true) => self.processes(false, None),
                Ok(false) => self.does(LoopPhase::Stopped, LoopRequestView::Finish),
                Err(e) => self.fails(e),
            },
            (LoopInput::Output(output), LoopPhase::Processing { received }) => match output {
                Output::Datagram { len } => self.does(
                    LoopPhase::Emitting { received, len },
                    LoopRequestView::Emit,
                ),
                Output::Callback(timeout) => LoopTurn {
                    timeout: Some(timeout),
                    effects: seq![LoopEffectView::Arm(timeout)],
                    ..self.processed(received)
                },
                Output::Nothing => self.processed(received),
            },
            (LoopInput::Emitted(outcome), LoopPhase::Emitting { received, len }) => LoopTurn {
                effects: emit_told(len, outcome),
                ..(match datagram_sent(outcome) {
                    Ok(()) => self.processes(received, None),
                    Err(e) => self.fails(ClientError::IoError(e)),
                })
            },
            (LoopInput::Ready(r), _) => match r {
                Ok(Ready::Socket) => self.does(LoopPhase::Receiving, LoopRequestView::Receive),
                Ok(Ready::Timeout) => LoopTurn {
                    timeout: None,
                    effects: seq![LoopEffectView::Disarm],
                    ..self.does(LoopPhase::Checking, LoopRequestView::CheckState)
                },
                Err(e) => self.fails(ClientError::IoError(e)),
            },
            (LoopInput::Received { outcome, buf }, _) => LoopTurn {
                effects: receive_told(outcome),
                ..(match datagram_received(outcome, buf) {
                    Ok(Some(data)) => self.processes(true, Some(data)),
                    Ok(None) => self.does(LoopPhase::Checking, LoopRequestView::CheckState),
                    Err(e) => self.fails(ClientError::IoError(e)),
                })
            },
            (LoopInput::KeysUpdated(r), _) => match r {
                Ok(()) => self.does(LoopPhase::Receiving, LoopRequestView::Receive),
                Err(e) => self.fails(e),
            },
            (LoopInput::Closed(true), _) => self.does(LoopPhase::Stopped, LoopRequestView::Finish),
            _ => self.does(LoopPhase::Handling, LoopRequestView::Handle),
        }
    }
}

/// Whether a step, and the loop after it, are those of a turn.
pub open spec fn turns(step: LoopStep, state: LoopView, turn: LoopTurn) -> bool {
    &&& state.timeout == turn.timeout
    &&& state.phase == turn.phase
    &&& loop_effects(step.effects@) == turn.effects
    &&& step.request@ == turn.request
}

/// Tells of the outcome of sending a datagram, and hands on an error that it cannot go on with.
pub fn emit_datagram(len: usize, outcome: Result<usize, IoError>) -> (r: (
    Vec<LoopEffect>,
    Result<(), IoError>,
))
    ensures
        loop_effects(r.0@) == emit_told(len, outcome),
        r.1 == datagram_sent(outcome),
{
    let mut effects: Vec<LoopEffect> = Vec::new();
    let ghost told = emit_told(len, outcome);
    let sent = match outcome {
        Ok(sent) => sent,
        Err(e) => {
            if e.kind == IoErrorKind::WouldBlock {
                proof {
                    assert(loop_effects(effects@) =~= told);
                }
                return (effects, Err(e));
            }
            effects.push(LoopEffect::Warn(send_error_line_text(e.text.as_str())));
            0
        },
    };
    if sent != len {
        effects.push(LoopEffect::Warn(short_send_line_text(len)));
    }
    proof {
        assert(loop_effects(effects@) =~= told);
    }
    (effects, Ok(()))
}

/// Tells of the outcome of receiving a datagram in a buffer, and hands on what was received.
pub fn read_dgram(outcome: Result<usize, IoError>, buf: &[u8]) -> (r: (
    Vec<LoopEffect>,
    Result<Option<Vec<u8>>, IoError>,
))
    requires
        buf@.len() == RECEIVE_BUFFER,
        outcome matches Ok(sz) ==> sz <= buf@.len(),
    ensures
        loop_effects(r.0@) == receive_told(outcome),
        match r.1 {
            Ok(datagram) => datagram_received(outcome, buf@) == Ok::<Option<Seq<u8>>, IoError>(
                bytes_of(datagram),
            ),
            Err(e) => datagram_received(outcome, buf@) == Err::<Option<Seq<u8>>, IoError>(e),
        },
{
    let mut effects: Vec<LoopEffect> = Vec::new();
    let ghost told = receive_told(outcome);
    let r = match outcome {
        Err(e) => {
            if e.kind == IoErrorKind::WouldBlock || e.kind == IoErrorKind::Interrupted {
                Ok(None)
            } else {
                effects.push(LoopEffect::Warn(receive_error_line_text(e.text.as_str())));
                Err(e)
            }
        },
        Ok(sz) => {
            if sz == RECEIVE_BUFFER {
                effects.push(LoopEffect::Warn(full_buffer_line_text(RECEIVE_BUFFER)));
            }
            if sz == 0 {
                effects.push(LoopEffect::Warn(empty_datagram_line_text()));
                Ok(None)
            } else {
                let data = slice_to_vec(slice_subrange(buf, 0, sz));
                assert(data@ =~= buf@.take(sz as int));
                Ok(Some(data))
            }
        },
    };
    proof {
        assert(loop_effects(effects@) =~= told);
    }
    (effects, r)
}

impl EventLoop {
    /// A loop that does not run yet.
    pub fn new() -> (l: Self)
        ensures
            l@ == (LoopView { timeout: None, phase: LoopPhase::Stopped }),
    {
        EventLoop { timeout: None, phase: LoopPhase::Stopped }
    }

    /// Does something.
    fn go(&mut self, phase: LoopPhase, request: LoopRequest) -> (step: LoopStep)
        ensures
            turns(step, final(self)@, old(self)@.does(phase, request@)),
    {
        self.phase = phase;
        let effects: Vec<LoopEffect> = Vec::new();
        proof {
            assert(loop_effects(effects@) =~= Seq::empty());
        }
        LoopStep { effects, request }
    }

    /// Starts the loop.
    pub fn run(&mut self) -> (step: LoopStep)
        requires
            old(self)@.awaits(LoopInput::Run),
        ensures
            turns(step, final(self)@, old(self)@.next(LoopInput::Run)),
    {
        self.go(LoopPhase::Handling, LoopRequest::Handle)
    }

    /// Goes on after events were dealt with.
    pub fn on_handled(&mut self, r: Result<bool, ClientError>) -> (step: LoopStep)
        requires
            old(self)@.awaits(LoopInput::Handled(r)),
        ensures
            turns(step, final(self)@, old(self)@.next(LoopInput::Handled(r))),
    {
        match r {
            Ok(true) => self.go(
                LoopPhase::Processing { received: false },
                LoopRequest::Process { datagram: None },
            ),
            Ok(false) => self.go(LoopPhase::Stopped, LoopRequest::Finish),
            Err(e) => self.go(LoopPhase::Stopped, LoopRequest::Fail(e)),
        }
    }

    /// Goes on with what the connection puts out.
    pub fn on_output(&mut self, output: Output) -> (step: LoopStep)
        requires
            old(self)@.awaits(LoopInput::Output(output)),
        ensures
            turns(step, final(self)@, old(self)@.next(LoopInput::Output(output))),
    {
        let received = match self.phase {
            LoopPhase::Processing { received } => received,
            _ => false,
        };
        if let Output::Datagram { len } = output {
            return self.go(LoopPhase::Emitting { received, len }, LoopRequest::Emit);
        }
        let mut step = if received {
            self.go(LoopPhase::Updating, LoopRequest::UpdateKeys)
        } else {
            self.go(LoopPhase::Waiting, LoopRequest::Wait)
        };
        if let Output::Callback(timeout) = output {
            self.timeout = Some(timeout);
            step.effects.push(LoopEffect::Arm(timeout));
            proof {
                assert(loop_effects(step.effects@) =~= seq![LoopEffectView::Arm(timeout)]);
            }
        }
        step
    }

    /// Goes on after a datagram was sent.
    pub fn on_emitted(&mut self, outcome: Result<usize, IoError>) -> (step: LoopStep)
        requires
            old(self)@.awaits(LoopInput::Emitted(outcome)),
        ensures
            turns(step, final(self)@, old(self)@.next(LoopInput::Emitted(outcome))),
    {
        let (received, len) = match self.phase {
            LoopPhase::Emitting { received, len } => (received, len),
            _ => (false, 0),
        };
        let (effects, r) = emit_datagram(len, outcome);
        let step = match r {
            Ok(()) => self.go(
                LoopPhase::Processing { received },
                LoopRequest::Process { datagram: None },
            ),
            Err(e) => self.go(LoopPhase::Stopped, LoopRequest::Fail(ClientError::from(e))),
        };
        LoopStep { effects, request: step.request }
    }

    /// Goes on after a wait.
    pub fn on_ready(&mut self, r: Result<Ready, IoError>) -> (step: LoopStep)
        requires
            old(self)@.awaits(LoopInput::Ready(r)),
        ensures
            turns(step, final(self)@, old(self)@.next(LoopInput::Ready(r))),
    {
        match r {
            Ok(Ready::Socket) => self.go(LoopPhase::Receiving, LoopRequest::Receive),
            Ok(Ready::Timeout) => {
                let mut step = self.go(LoopPhase::Checking, LoopRequest::CheckState);
                self.timeout = None;
                step.effects.push(LoopEffect::Disarm);
                proof {
                    assert(loop_effects(step.effects@) =~= seq![LoopEffectView::Disarm]);
                }
                step
            },
            Err(e) => self.go(LoopPhase::Stopped, LoopRequest::Fail(ClientError::from(e))),
        }
    }

    /// Goes on after receiving in a buffer.
    pub fn on_received(&mut self, outcome: Result<usize, IoError>, buf: &[u8]) -> (step: LoopStep)
        requires
            old(self)@.awaits(LoopInput::Received { outcome, buf: buf@ }),
        ensures
            turns(
                step,
                final(self)@,
                old(self)@.next(LoopInput::Received { outcome, buf: buf@ }),
            ),
    {
        let (effects, r) = read_dgram(outcome, buf);
        let step = match r {
            Ok(Some(data)) => self.go(
                LoopPhase::Processing { received: true },
                LoopRequest::Process { datagram: Some(data) },
            ),
            Ok(None) => self.go(LoopPhase::Checking, LoopRequest::CheckState),
            Err(e) => self.go(LoopPhase::Stopped, LoopRequest::Fail(ClientError::from(e))),
        };
        LoopStep { effects, request: step.request }
    }

    /// Goes on after the keys were updated, as far as that was needed.
    pub fn on_key_update(&mut self, r: Result<(), ClientError>) -> (step: LoopStep)
        requires
            old(self)@.awaits(LoopInput::KeysUpdated(r)),
        ensures
            turns(step, final(self)@, old(self)@.next(LoopInput::KeysUpdated(r))),
    {
        match r {
            Ok(()) => self.go(LoopPhase::Receiving, LoopRequest::Receive),
            Err(e) => self.go(LoopPhase::Stopped, LoopRequest::Fail(e)),
        }
    }

    /// Goes on, unless the connection is closed.
    pub fn on_state(&mut self, closed: bool) -> (step: LoopStep)
        requires
            old(self)@.awaits(LoopInput::Closed(closed)),
        ensures
            turns(step, final(self)@, old(self)@.next(LoopInput::Closed(closed))),
    {
        if closed {
            self.go(LoopPhase::Stopped, LoopRequest::Finish)
        } else {
            self.go(LoopPhase::Handling, LoopRequest::Handle)
        }
    }
}

/// The time that a wait lasts at most after effects, if there is a limit.
pub open spec fn armed(before: Option<Timeout>, effects: Seq<LoopEffectView>) -> Option<Timeout>
    decreases effects.len(),
{
    if effects.len() == 0 {
        before
    } else {
        match effects.last() {
            LoopEffectView::Arm(timeout) => Some(timeout),
            LoopEffectView::Disarm => None,
            LoopEffectView::Warn(_) => armed(before, effects.drop_last()),
        }
    }
}

/// The time that is remembered is the one that was let run.
pub proof fn law_timer_remembered(state: LoopView, input: LoopInput)
    requires
        state.awaits(input),
    ensures
        state.next(input).timeout == armed(state.timeout, state.next(input).effects),
{
    reveal_with_fuel(armed, 3);
}

/// A wait starts only when the connection has nothing more to put out, and it is not for a
/// datagram that was received.
pub proof fn law_waits_when_drained(state: LoopView, input: LoopInput)
    requires
        state.awaits(input),
    ensures
        state.next(input).request is Wait <==> {
            &&& state.phase == (LoopPhase::Processing { received: false })
            &&& input matches LoopInput::Output(output) && output !is Datagram
        },
{
}

/// A datagram that the connection puts out is sent before the connection works on, and the
/// connection works on until it puts nothing out, unless sending has to wait.
pub proof fn law_output_sent(state: LoopView, len: usize, outcome: Result<usize, IoError>)
    requires
        state.phase is Processing,
    ensures
        ({
            let sending = state.next(LoopInput::Output(Output::Datagram { len }));
            let loop_then = LoopView { timeout: sending.timeout, phase: sending.phase };
            let sent = loop_then.next(LoopInput::Emitted(outcome));
            &&& sending.request is Emit
            &&& loop_then.awaits(LoopInput::Emitted(outcome))
            &&& if outcome matches Err(e) && e.kind == IoErrorKind::WouldBlock {
                sent.request == LoopRequestView::Fail(ClientError::IoError(outcome->Err_0))
            } else {
                sent.request == (LoopRequestView::Process { datagram: None }) && sent.phase
                    == state.phase
            }
        }),
{
}

/// A datagram that was received is worked on, with all its bytes and no others; then, when the
/// connection has nothing more to put out, the keys are looked after, and only then is the next
/// datagram received.
pub proof fn law_keys_after_datagram(state: LoopView, input: LoopInput)
    requires
        state.awaits(input),
    ensures
        ({
            let turn = state.next(input);
            let working = state.phase == (LoopPhase::Processing { received: true })
                || state.phase matches LoopPhase::Emitting { received: true, .. };
            let works = turn.phase == (LoopPhase::Processing { received: true }) || turn.phase
                matches LoopPhase::Emitting { received: true, .. };
            &&& works && !working <==> (input matches LoopInput::Received {
                outcome: Ok(sz),
                ..
            } && sz > 0)
            &&& works && !working ==> (input matches LoopInput::Received {
                outcome: Ok(sz),
                buf,
            } && turn.request == (LoopRequestView::Process { datagram: Some(buf.take(sz as int)) }))
            &&& (turn.request matches LoopRequestView::Process { datagram: Some(_) }) <==> works
                && !working
            &&& working ==> works || turn.request is UpdateKeys || turn.request is Fail
            &&& turn.request is UpdateKeys ==> working
            &&& turn.request is Receive ==> input == LoopInput::Ready(Ok(Ready::Socket)) || (input
                matches LoopInput::KeysUpdated(Ok(_)))
        }),
{
}

/// The loop ends when the client is done or the connection is closed, fails with what has failed,
/// and goes on otherwise.
pub proof fn law_loop_ends(state: LoopView, input: LoopInput)
    requires
        state.awaits(input),
    ensures
        ({
            let turn = state.next(input);
            &&& turn.request is Finish <==> input == LoopInput::Handled(Ok(false)) || input
                == LoopInput::Closed(true)
            &&& turn.phase is Stopped <==> turn.request is Finish || turn.request is Fail
            &&& turn.request is Fail ==> {
                ||| input matches LoopInput::Handled(Err(e)) && turn.request == LoopRequestView::Fail(e)
                ||| input matches LoopInput::KeysUpdated(Err(e)) && turn.request
                    == LoopRequestView::Fail(e)
                ||| input matches LoopInput::Emitted(Err(e)) && turn.request == LoopRequestView::Fail(
                    ClientError::IoError(e),
                )
                ||| input matches LoopInput::Ready(Err(e)) && turn.request == LoopRequestView::Fail(
                    ClientError::IoError(e),
                )
                ||| input matches LoopInput::Received { outcome: Err(e), .. } && turn.request
                    == LoopRequestView::Fail(ClientError::IoError(e))
            }
        }),
{
}

/// Whenever the connection asks to be called back after some time, just that time is let run,
/// whatever time ran before and whatever the connection worked on.
pub proof fn law_callback_sets_the_timer(state: LoopView, timeout: Timeout)
    requires
        state.phase is Processing,
    ensures
        ({
            let turn = state.next(LoopInput::Output(Output::Callback(timeout)));
            &&& turn.timeout == Some(timeout)
            &&& turn.effects.len() == 1
            &&& turn.effects[0] == LoopEffectView::Arm(timeout)
        }),
{
}

/// The time runs on until the connection asks for another one or it is over: nothing else sets,
/// stops or forgets it, and when it is over it is stopped.
pub proof fn law_timer_runs_on(state: LoopView, input: LoopInput)
    requires
        state.awaits(input),
    ensures
        ({
            let turn = state.next(input);
            if input is Output && input->Output_0 is Callback {
                turn.timeout == Some(input->Output_0->Callback_0)
            } else if input == LoopInput::Ready(Ok(Ready::Timeout)) {
                &&& turn.timeout is None
                &&& turn.effects.len() == 1
                &&& turn.effects[0] is Disarm
            } else {
                &&& turn.timeout == state.timeout
                &&& forall|i: int|
                    0 <= i < turn.effects.len() ==> (#[trigger] turn.effects[i]) is Warn
            }
        }),
{
}

/// What each outcome leads to.
pub proof fn law_what_comes_next(state: LoopView, input: LoopInput)
    requires
        state.awaits(input),
    ensures
        ({
            let turn = state.next(input);
            match input {
                LoopInput::Run => turn.request is Handle && turn.phase is Handling,
                LoopInput::Handled(Ok(true)) => {
                    &&& turn.request == (LoopRequestView::Process { datagram: None })
                    &&& turn.phase == (LoopPhase::Processing { received: false })
                },
                LoopInput::Output(Output::Datagram { len }) => {
                    &&& turn.request is Emit
                    &&& turn.phase == (LoopPhase::Emitting {
                        received: state.phase->Processing_received,
                        len,
                    })
                },
                LoopInput::Output(_) => if state.phase->Processing_received {
                    turn.request is UpdateKeys && turn.phase is Updating
                } else {
                    turn.request is Wait && turn.phase is Waiting
                },
                LoopInput::Ready(Ok(Ready::Socket)) => turn.request is Receive && turn.phase
                    is Receiving,
                LoopInput::Ready(Ok(Ready::Timeout)) => turn.request is CheckState && turn.phase
                    is Checking,
                LoopInput::Received { outcome: Ok(sz), buf } => if sz == 0 {
                    turn.request is CheckState && turn.phase is Checking
                } else {
                    &&& turn.phase == (LoopPhase::Processing { received: true })
                    &&& turn.request matches LoopRequestView::Process { datagram: Some(data) }
                    &&& data.len() == sz
                    &&& forall|i: int| 0 <= i < sz ==> #[trigger] data[i] == buf[i]
                },
                LoopInput::Received { outcome: Err(e), .. } => if e.kind is Other {
                    turn.request == LoopRequestView::Fail(ClientError::IoError(e))
                } else {
                    turn.request is CheckState && turn.phase is Checking
                },
                LoopInput::KeysUpdated(Ok(_)) => turn.request is Receive && turn.phase is Receiving,
                LoopInput::Closed(false) => turn.request is Handle && turn.phase is Handling,
                LoopInput::Emitted(outcome) => if outcome is Err && outcome->Err_0.kind
                    is WouldBlock {
                    turn.request == LoopRequestView::Fail(ClientError::IoError(outcome->Err_0))
                } else {
                    &&& turn.request == (LoopRequestView::Process { datagram: None })
                    &&& turn.phase == (LoopPhase::Processing {
                        received: state.phase->Emitting_received,
                    })
                },
                LoopInput::Handled(Ok(false)) => turn.request is Finish,
                LoopInput::Handled(Err(e)) => turn.request == LoopRequestView::Fail(e),
                LoopInput::Ready(Err(e)) => turn.request == LoopRequestView::Fail(
                    ClientError::IoError(e),
                ),
                LoopInput::KeysUpdated(Err(e)) => turn.request == LoopRequestView::Fail(e),
                LoopInput::Closed(true) => turn.request is Finish,
            }
        }),
{
}

/// Of a datagram, it is told if it was not sent whole and why it was not sent at all; of one that
/// has to wait, nothing.
pub proof fn law_sending_told(state: LoopView, len: usize, outcome: Result<usize, IoError>)
    requires
        state.phase matches LoopPhase::Emitting { len: l, .. } && l == len,
    ensures
        ({
            let told = state.next(LoopInput::Emitted(outcome)).effects;
            match outcome {
                Ok(sent) => if sent == len {
                    told.len() == 0
                } else {
                    told.len() == 1 && told[0] == LoopEffectView::Warn(short_send_line(len))
                },
                Err(e) => if e.kind is WouldBlock {
                    told.len() == 0
                } else {
                    &&& told.len() == if len == 0 {
                        1nat
                    } else {
                        2
                    }
                    &&& told[0] == LoopEffectView::Warn(send_error_line(e.text@))
                    &&& len > 0 ==> told[1] == LoopEffectView::Warn(short_send_line(len))
                },
            }
        }),
{
}

/// Of receiving, it is told if a datagram fills the buffer or is empty, and what failed; that
/// there is no datagram is no failure.
pub proof fn law_receiving_told(state: LoopView, outcome: Result<usize, IoError>, buf: Seq<u8>)
    requires
        state.phase is Receiving,
        buf.len() == 2048,
    ensures
        ({
            let told = state.next(LoopInput::Received { outcome, buf }).effects;
            match outcome {
                Ok(sz) => if sz == buf.len() {
                    told.len() == 1 && told[0] == LoopEffectView::Warn(full_buffer_line(sz))
                } else if sz == 0 {
                    told.len() == 1 && told[0] == LoopEffectView::Warn(empty_datagram_line())
                } else {
                    told.len() == 0
                },
                Err(e) => if e.kind is Other {
                    told.len() == 1 && told[0] == LoopEffectView::Warn(
                        receive_error_line(e.text@),
                    )
                } else {
                    told.len() == 0
                },
            }
        }),
{
}

/// How much is read and received at once.
pub proof fn law_buffer_sizes()
    ensures
        READ_BUFFER == 4096,
        RECEIVE_BUFFER == 2048,
{
}

} // verus!
