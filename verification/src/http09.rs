//! What an HTTP/0.9 client does when something happens.
//!
//! A [`HandlerOld`] never waits. It says what to ask for next, and is told the answer by the
//! method that belongs to the question.

use crate::effect::{
    emit, emit_goodbye, goodbye, only, shown, Abort, AbortView, Effect, EffectView,
};
use crate::error::{ClientError, IoError, TransportError};
use crate::files::{optional_text, output_plan, taken, OutputPlan, OutputPlanView};
use crate::key_update::{attempt_answer, needed_after, KeyUpdateState};
use crate::lines::{
    bytes_line, bytes_line_text, complete_line, complete_line_text, creatable_line,
    creatable_line_text, created_line, created_line_text, deferring_line, deferring_line_text,
    duplicate_line, duplicate_line_text, fin_line, fin_line_text, keys_updated, keys_updated_text,
    refused_line, refused_line_text, text_line, text_line_text, unexpected_line,
    unexpected_line_text, unhandled_line, unhandled_line_text, writable_line, writable_line_text,
};
use crate::requests::{savable, URLHandler, UrlHandlerView};
use crate::stream::{DownloadStreamHandler, StreamHandler, StreamHandlerView};
use crate::text::utf8_text;
use crate::urls::{Url, UrlView};
use vstd::prelude::*;
use vstd::slice::{slice_subrange, slice_to_vec};
use vstd::utf8::{decode_utf8, encode_utf8, valid_utf8};

verus! {

/// The type of a stream.
#[derive(Debug, Clone, Copy, PartialEq, Eq, Structural)]
pub enum StreamType {
    /// Both sides send.
    BiDi,
    /// One side sends.
    UniDi,
}

/// Something that happened on the connection.
pub enum ConnectionEvent<T> {
    /// The peer's certificate is to be judged.
    AuthenticationNeeded,
    /// Data can be read from a stream.
    RecvStreamReadable { stream_id: u64 },
    /// A stream takes data again.
    SendStreamWritable { stream_id: u64 },
    /// What was sent on a stream has arrived.
    SendStreamComplete { stream_id: u64 },
    /// Streams of a type can be created again.
    SendStreamCreatable { stream_type: StreamType },
    /// The connection waits for its first answer, shakes hands or is up; in words.
    Progress(String),
    /// The connection is confirmed.
    Confirmed,
    /// A token with which a later connection can resume.
    ResumptionToken(T),
    /// Anything else, in words.
    Other(String),
}

/// The mathematical value of a [`ConnectionEvent`].
pub ghost enum ConnectionEventView<T> {
    AuthenticationNeeded,
    RecvStreamReadable { stream_id: u64 },
    SendStreamWritable { stream_id: u64 },
    SendStreamComplete { stream_id: u64 },
    SendStreamCreatable { stream_type: StreamType },
    Progress(Seq<char>),
    Confirmed,
    ResumptionToken(T),
    Other(Seq<char>),
}

impl<T> View for ConnectionEvent<T> {
    type V = ConnectionEventView<T>;

    open spec fn view(&self) -> ConnectionEventView<T> {
        match self {
            ConnectionEvent::AuthenticationNeeded => ConnectionEventView::AuthenticationNeeded,
            ConnectionEvent::RecvStreamReadable { stream_id } => {
                ConnectionEventView::RecvStreamReadable { stream_id: *stream_id }
            },
            ConnectionEvent::SendStreamWritable { stream_id } => {
                ConnectionEventView::SendStreamWritable { stream_id: *stream_id }
            },
            ConnectionEvent::SendStreamComplete { stream_id } => {
                ConnectionEventView::SendStreamComplete { stream_id: *stream_id }
            },
            ConnectionEvent::SendStreamCreatable { stream_type } => {
                ConnectionEventView::SendStreamCreatable { stream_type: *stream_type }
            },
            ConnectionEvent::Progress(text) => ConnectionEventView::Progress(text@),
            ConnectionEvent::Confirmed => ConnectionEventView::Confirmed,
            ConnectionEvent::ResumptionToken(t) => ConnectionEventView::ResumptionToken(*t),
            ConnectionEvent::Other(text) => ConnectionEventView::Other(text@),
        }
    }
}

/// The view of an event, if there is one.
pub open spec fn event_view<T>(event: Option<ConnectionEvent<T>>) -> Option<
    ConnectionEventView<T>,
> {
    match event {
        Some(e) => Some(e@),
        None => None,
    }
}

/// What to ask for next, or that there is nothing more to ask for.
pub enum OldRequest {
    /// The next event, if there is one. Answered with [`HandlerOld::on_event`].
    NextEvent,
    /// A stream on which both sides send. Answered with [`HandlerOld::on_created`].
    CreateStream,
    /// A file for a stream, with the directories that it stands in. Answered with
    /// [`HandlerOld::on_opened`].
    Open { stream_id: u64, path: String },
    /// Data from a stream, in a buffer that [`read_buffer`](crate::event_loop::read_buffer) makes:
    /// [`READ_BUFFER`](crate::event_loop::READ_BUFFER) bytes. Answered with
    /// [`HandlerOld::on_data`].
    Read { stream_id: u64 },
    /// That data is written to a stream's file. Answered with [`HandlerOld::on_written`].
    Write { stream_id: u64, data: Vec<u8> },
    /// That a key update is started. Answered with [`HandlerOld::on_key_update`].
    UpdateKeys,
    /// All the events that are left. Answered with [`HandlerOld::on_drained`].
    DrainEvents,
    /// Nothing more for now: whether the connection goes on, or what failed.
    Return(Result<bool, ClientError>),
    /// Nothing more at all.
    Abort(Abort),
}

/// The mathematical value of an [`OldRequest`].
pub ghost enum OldRequestView {
    NextEvent,
    CreateStream,
    Open { stream_id: u64, path: Seq<char> },
    Read { stream_id: u64 },
    Write { stream_id: u64, data: Seq<u8> },
    UpdateKeys,
    DrainEvents,
    Return(Result<bool, ClientError>),
    Abort(AbortView),
}

impl View for OldRequest {
    type V = OldRequestView;

    open spec fn view(&self) -> OldRequestView {
        match self {
            OldRequest::NextEvent => OldRequestView::NextEvent,
            OldRequest::CreateStream => OldRequestView::CreateStream,
            OldRequest::Open { stream_id, path } => OldRequestView::Open {
                stream_id: *stream_id,
                path: path@,
            },
            OldRequest::Read { stream_id } => OldRequestView::Read { stream_id: *stream_id },
            OldRequest::Write { stream_id, data } => OldRequestView::Write {
                stream_id: *stream_id,
                data: data@,
            },
            OldRequest::UpdateKeys => OldRequestView::UpdateKeys,
            OldRequest::DrainEvents => OldRequestView::DrainEvents,
            OldRequest::Return(r) => OldRequestView::Return(*r),
            OldRequest::Abort(abort) => OldRequestView::Abort(abort@),
        }
    }
}

/// What to do at once, in order, and what to ask for then.
pub struct OldStep {
    pub effects: Vec<Effect>,
    pub request: OldRequest,
}

/// Where to go on once no further stream can be created.
#[derive(Debug, Clone, Copy, PartialEq, Eq, Structural)]
pub enum OldAfter {
    /// With the next event.
    NextEvent,
    /// At the end of a stream.
    StreamEnd,
    /// At the end of an attempt to update the keys that no event called for.
    KeyUpdate,
}

/// Which answer is awaited.
pub enum OldPhase {
    /// None.
    Idle,
    /// An event.
    Polling,
    /// A stream for a URL.
    Creating { url: Url, after: OldAfter },
    /// Whether a file could be created.
    Opening { stream_id: u64, path: String, after: OldAfter },
    /// Data from a stream.
    Reading { stream_id: u64 },
    /// Whether data could be written.
    Writing { stream_id: u64, fin: bool },
    /// Whether a key update was started.
    Updating { after: OldAfter },
    /// The events that are left.
    Draining,
}

/// The mathematical value of an [`OldPhase`].
pub ghost enum OldPhaseView {
    Idle,
    Polling,
    Creating { url: UrlView, after: OldAfter },
    Opening { stream_id: u64, path: Seq<char>, after: OldAfter },
    Reading { stream_id: u64 },
    Writing { stream_id: u64, fin: bool },
    Updating { after: OldAfter },
    Draining,
}

impl View for OldPhase {
    type V = OldPhaseView;

    open spec fn view(&self) -> OldPhaseView {
        match self {
            OldPhase::Idle => OldPhaseView::Idle,
            OldPhase::Polling => OldPhaseView::Polling,
            OldPhase::Creating { url, after } => OldPhaseView::Creating {
                url: url@,
                after: *after,
            },
            OldPhase::Opening { stream_id, path, after } => OldPhaseView::Opening {
                stream_id: *stream_id,
                path: path@,
                after: *after,
            },
            OldPhase::Reading { stream_id } => OldPhaseView::Reading { stream_id: *stream_id },
            OldPhase::Writing { stream_id, fin } => OldPhaseView::Writing {
                stream_id: *stream_id,
                fin: *fin,
            },
            OldPhase::Updating { after } => OldPhaseView::Updating { after: *after },
            OldPhase::Draining => OldPhaseView::Draining,
        }
    }
}

/// An HTTP/0.9 client's side of a connection.
pub struct HandlerOld<T> {
    /// The URLs and their streams, all of them downloads.
    url_handler: URLHandler,
    /// Whether data that is read is shown.
    output_read_data: bool,
    /// The token to resume with later, if one has come.
    token: Option<T>,
    /// Whether the keys are still to be updated.
    key_update: KeyUpdateState,
    /// Which answer is awaited.
    phase: OldPhase,
}

/// The mathematical value of a [`HandlerOld`].
#[verifier::ext_equal]
pub ghost struct OldView<T> {
    pub urls: UrlHandlerView,
    pub output_read_data: bool,
    pub token: Option<T>,
    pub key_update: bool,
    pub phase: OldPhaseView,
}

impl<T> View for HandlerOld<T> {
    type V = OldView<T>;

    closed spec fn view(&self) -> OldView<T> {
        OldView {
            urls: self.url_handler@,
            output_read_data: self.output_read_data,
            token: self.token,
            key_update: self.key_update.0,
            phase: self.phase@,
        }
    }
}

/// A handler after an answer, with what it does and asks for.
pub ghost struct OldTurn<T> {
    pub state: OldView<T>,
    pub effects: Seq<EffectView>,
    pub request: OldRequestView,
}

impl<T> OldTurn<T> {
    /// With effects before its own.
    pub open spec fn following(self, effects: Seq<EffectView>) -> Self {
        OldTurn { effects: effects + self.effects, ..self }
    }
}

/// The name of an error that only says that a stream has to wait.
pub open spec fn stream_refused(e: TransportError) -> Option<Seq<char>> {
    match e {
        TransportError::StreamLimitError => Some("StreamLimitError"@),
        TransportError::ConnectionState => Some("ConnectionState"@),
        _ => None,
    }
}

/// The request for a path.
pub open spec fn request_bytes(url_path: Seq<char>) -> Seq<u8> {
    encode_utf8("GET "@ + url_path + "\r\n"@)
}

/// The first token among events, or an earlier one if there is none.
pub open spec fn first_token<T>(events: Seq<ConnectionEvent<T>>, earlier: Option<T>) -> Option<T>
    decreases events.len(),
{
    if events.len() == 0 {
        earlier
    } else {
        match events[0] {
            ConnectionEvent::ResumptionToken(t) => Some(t),
            _ => first_token(events.skip(1), earlier),
        }
    }
}

/// An answer, or the start of something new.
pub ghost enum OldInput<T> {
    /// Deal with what has happened.
    Handle,
    /// Update the keys if that is needed.
    KeyUpdate,
    /// The next event, if there is one.
    Event(Option<ConnectionEventView<T>>),
    /// A stream, or why there is none.
    Created(Result<u64, TransportError>),
    /// Whether a file was created.
    Opened(bool),
    /// Data from a stream: how much of the buffer was filled and whether that was the end, or
    /// what failed; and the buffer.
    Data { outcome: Result<(usize, bool), TransportError>, data: Seq<u8> },
    /// Whether data was written.
    Written(Result<(), IoError>),
    /// The outcome of an attempt at a key update.
    KeysUpdated(Result<(), TransportError>),
    /// The events that were left.
    Drained(Seq<ConnectionEvent<T>>),
}

impl<T> OldView<T> {
    /// In another phase.
    pub open spec fn entering(self, phase: OldPhaseView) -> Self {
        OldView { phase, ..self }
    }

    /// Asking for something without further effects.
    pub open spec fn asks(self, phase: OldPhaseView, request: OldRequestView) -> OldTurn<T> {
        OldTurn { state: self.entering(phase), effects: Seq::empty(), request }
    }

    /// Asking for the next event.
    pub open spec fn polls(self) -> OldTurn<T> {
        self.asks(OldPhaseView::Polling, OldRequestView::NextEvent)
    }

    /// Done for now.
    pub open spec fn leaves(self, r: Result<bool, ClientError>) -> OldTurn<T> {
        self.asks(OldPhaseView::Idle, OldRequestView::Return(r))
    }

    /// Done for good.
    pub open spec fn aborts(self, abort: AbortView) -> OldTurn<T> {
        self.asks(OldPhaseView::Idle, OldRequestView::Abort(abort))
    }

    /// Looking for a token among the events that are left, before the connection is closed.
    pub open spec fn drains(self) -> OldTurn<T> {
        self.asks(OldPhaseView::Draining, OldRequestView::DrainEvents)
    }

    /// Creating streams as long as there are URLs and the limit allows it, unless the keys are to
    /// be updated first; then going on.
    pub open spec fn download_urls(self, after: OldAfter) -> OldTurn<T> {
        if !self.urls.may_request() {
            self.goes_on(after)
        } else if self.key_update {
            self.goes_on(after).following(seq![EffectView::Print(deferring_line())])
        } else {
            OldView { urls: self.urls.without_first(), ..self }.asks(
                OldPhaseView::Creating { url: self.urls.queue[0], after },
                OldRequestView::CreateStream,
            )
        }
    }

    /// Going on once no further stream can be created. At the end of the last stream, with
    /// nothing left to request, the connection is to be closed.
    pub open spec fn goes_on(self, after: OldAfter) -> OldTurn<T> {
        match after {
            OldAfter::NextEvent => self.polls(),
            OldAfter::StreamEnd => if self.urls.done() {
                self.drains()
            } else {
                self.polls()
            },
            OldAfter::KeyUpdate => self.leaves(Ok(true)),
        }
    }

    /// Starting to fetch contents on a new stream.
    pub open spec fn downloads(
        self,
        stream_id: u64,
        out_file: Option<Seq<char>>,
        after: OldAfter,
    ) -> OldTurn<T> {
        OldView {
            urls: self.urls.with_stream(stream_id, StreamHandlerView::Download { out_file }),
            ..self
        }.download_urls(after)
    }

    /// Deciding where contents go.
    pub open spec fn chooses_file(self, url: UrlView, stream_id: u64, after: OldAfter) -> OldTurn<
        T,
    > {
        match output_plan(url.path, self.urls.args.output_dir, self.urls.paths) {
            OutputPlanView::Nowhere => self.downloads(stream_id, None, after),
            OutputPlanView::Duplicate(path) => self.downloads(stream_id, None, after).following(
                seq![EffectView::Warn(duplicate_line(path))],
            ),
            OutputPlanView::Open(path) => self.asks(
                OldPhaseView::Opening { stream_id, path, after },
                OldRequestView::Open { stream_id, path },
            ).following(seq![EffectView::Saving { url: url.text, path }]),
        }
    }

    /// The outcome of creating a stream: the request is sent on it, or a refusal puts the URL
    /// back, or it failed.
    pub open spec fn download_next(
        self,
        url: UrlView,
        after: OldAfter,
        outcome: Result<u64, TransportError>,
    ) -> OldTurn<T> {
        match outcome {
            Ok(stream_id) => self.chooses_file(url, stream_id, after).following(
                seq![
                    EffectView::Print(created_line(stream_id, url.text)),
                    EffectView::Send { stream_id, data: request_bytes(url.path) },
                    EffectView::CloseSend(stream_id),
                ],
            ),
            Err(e) => match stream_refused(e) {
                Some(name) => OldView { urls: self.urls.with_first(url), ..self }.goes_on(
                    after,
                ).following(seq![EffectView::Print(refused_line(name))]),
                None => self.aborts(AbortView::CannotCreateStream(e)),
            },
        }
    }

    /// The file of a stream, if it has one.
    pub open spec fn out_file(self, stream_id: u64) -> Option<Seq<char>> {
        match self.urls.streams[stream_id] {
            StreamHandlerView::Download { out_file } => out_file,
            StreamHandlerView::Upload(_) => None,
        }
    }

    /// A stream has ended.
    pub open spec fn ends_stream(self, stream_id: u64) -> OldTurn<T> {
        let turn = OldView { urls: self.urls.without_stream(stream_id), ..self }.download_urls(
            OldAfter::StreamEnd,
        );
        if self.out_file(stream_id) is None {
            turn.following(seq![EffectView::Print(fin_line(stream_id))])
        } else {
            turn
        }
    }

    /// Reading on, unless the stream has ended.
    pub open spec fn reads_on(self, stream_id: u64, fin: bool) -> OldTurn<T> {
        if fin {
            self.ends_stream(stream_id)
        } else {
            self.asks(OldPhaseView::Reading { stream_id }, OldRequestView::Read { stream_id })
        }
    }

    /// What data from a stream calls for: it is written to the stream's file or shown.
    pub open spec fn read_from_stream(
        self,
        stream_id: u64,
        outcome: Result<(usize, bool), TransportError>,
        data: Seq<u8>,
    ) -> OldTurn<T> {
        match outcome {
            Err(e) => self.leaves(Err(ClientError::TransportError(e))),
            Ok((sz, fin)) => if sz == 0 {
                if fin {
                    self.ends_stream(stream_id)
                } else {
                    self.polls()
                }
            } else if self.out_file(stream_id) is Some {
                self.asks(
                    OldPhaseView::Writing { stream_id, fin },
                    OldRequestView::Write { stream_id, data: data.take(sz as int) },
                )
            } else if !self.output_read_data {
                self.reads_on(stream_id, fin).following(
                    seq![EffectView::Print(bytes_line(stream_id, sz))],
                )
            } else if valid_utf8(data.take(sz as int)) {
                self.reads_on(stream_id, fin).following(
                    seq![
                        EffectView::Print(
                            text_line(stream_id, decode_utf8(data.take(sz as int))),
                        ),
                    ],
                )
            } else {
                self.aborts(AbortView::UnexpectedBytes { stream_id })
            },
        }
    }

    /// Updating the keys, if that is needed, and creating streams.
    pub open spec fn maybe_key_update(self, after: OldAfter) -> OldTurn<T> {
        if self.key_update {
            self.asks(OldPhaseView::Updating { after }, OldRequestView::UpdateKeys)
        } else {
            self.download_urls(after)
        }
    }

    /// What the outcome of an attempt at a key update calls for.
    pub open spec fn on_key_update(
        self,
        after: OldAfter,
        outcome: Result<(), TransportError>,
    ) -> OldTurn<T> {
        let told = match outcome {
            Ok(()) => Ok(()),
            Err(e) => Err(ClientError::TransportError(e)),
        };
        let next = OldView { key_update: needed_after(told), ..self };
        match attempt_answer(told) {
            Ok(()) => if needed_after(told) {
                next.download_urls(after)
            } else {
                next.download_urls(after).following(seq![EffectView::Print(keys_updated())])
            },
            Err(e) => next.leaves(Err(e)),
        }
    }

    /// What an event calls for.
    pub open spec fn on_event(self, event: ConnectionEventView<T>) -> OldTurn<T> {
        match event {
            ConnectionEventView::AuthenticationNeeded => self.polls().following(
                seq![EffectView::Authenticate],
            ),
            ConnectionEventView::RecvStreamReadable { stream_id } => {
                if self.urls.streams.contains_key(stream_id) {
                    self.asks(
                        OldPhaseView::Reading { stream_id },
                        OldRequestView::Read { stream_id },
                    )
                } else {
                    self.drains().following(seq![EffectView::Print(unexpected_line(stream_id))])
                }
            },
            ConnectionEventView::SendStreamWritable { stream_id } => self.polls().following(
                seq![EffectView::Print(writable_line(stream_id))],
            ),
            ConnectionEventView::SendStreamComplete { stream_id } => self.polls().following(
                seq![EffectView::Print(complete_line(stream_id))],
            ),
            ConnectionEventView::SendStreamCreatable { stream_type } => match stream_type {
                StreamType::BiDi => self.download_urls(OldAfter::NextEvent).following(
                    seq![EffectView::Print(creatable_line("BiDi"@))],
                ),
                StreamType::UniDi => self.polls().following(
                    seq![EffectView::Print(creatable_line("UniDi"@))],
                ),
            },
            ConnectionEventView::Progress(text) => self.download_urls(
                OldAfter::NextEvent,
            ).following(seq![EffectView::Print(text)]),
            ConnectionEventView::Confirmed => self.maybe_key_update(OldAfter::NextEvent),
            ConnectionEventView::ResumptionToken(t) => OldView { token: Some(t), ..self }.polls(),
            ConnectionEventView::Other(text) => self.polls().following(
                seq![EffectView::Print(unhandled_line(text))],
            ),
        }
    }

    /// Whether an input is one that is awaited.
    pub open spec fn awaits(self, input: OldInput<T>) -> bool {
        match (input, self.phase) {
            (OldInput::Handle, OldPhaseView::Idle) => true,
            (OldInput::KeyUpdate, OldPhaseView::Idle) => true,
            (OldInput::Event(_), OldPhaseView::Polling) => true,
            (OldInput::Created(_), OldPhaseView::Creating { .. }) => true,
            (OldInput::Opened(_), OldPhaseView::Opening { .. }) => true,
            (OldInput::Data { outcome, data }, OldPhaseView::Reading { .. }) => {
                outcome matches Ok((sz, _)) ==> sz <= data.len()
            },
            (OldInput::Written(_), OldPhaseView::Writing { .. }) => true,
            (OldInput::KeysUpdated(_), OldPhaseView::Updating { .. }) => true,
            (OldInput::Drained(_), OldPhaseView::Draining) => true,
            _ => false,
        }
    }

    /// What an input calls for.
    pub open spec fn next(self, input: OldInput<T>) -> OldTurn<T> {
        match (input, self.phase) {
            (OldInput::Handle, _) => self.polls(),
            (OldInput::KeyUpdate, _) => self.maybe_key_update(OldAfter::KeyUpdate),
            (OldInput::Event(Some(event)), _) => self.on_event(event),
            (OldInput::Event(None), _) => self.leaves(Ok(true)),
            (OldInput::Created(outcome), OldPhaseView::Creating { url, after }) => {
                self.download_next(url, after, outcome)
            },
            (OldInput::Opened(true), OldPhaseView::Opening { stream_id, path, after }) => {
                OldView { urls: self.urls.with_path(path), ..self }.downloads(
                    stream_id,
                    Some(path),
                    after,
                )
            },
            (OldInput::Opened(false), OldPhaseView::Opening { stream_id, after, .. }) => {
                self.downloads(stream_id, None, after)
            },
            (OldInput::Data { outcome, data }, OldPhaseView::Reading { stream_id }) => {
                self.read_from_stream(stream_id, outcome, data)
            },
            (OldInput::Written(Ok(())), OldPhaseView::Writing { stream_id, fin }) => {
                self.reads_on(stream_id, fin)
            },
            (OldInput::Written(Err(e)), _) => self.leaves(Err(ClientError::IoError(e))),
            (OldInput::KeysUpdated(outcome), OldPhaseView::Updating { after }) => {
                self.on_key_update(after, outcome)
            },
            (OldInput::Drained(events), _) => OldView {
                token: first_token(events, self.token),
                ..self
            }.leaves(Ok(false)).following(seq![goodbye()]),
            _ => self.leaves(Ok(true)),
        }
    }

    /// What always holds of a handler: the URLs and streams are in order, there is room for a
    /// stream that is being created, no stream is created before the keys are updated, and a
    /// stream that is being served is known.
    pub open spec fn wf(self) -> bool {
        &&& self.urls.wf()
        &&& match self.phase {
            OldPhaseView::Creating { url, .. } => {
                &&& self.urls.outstanding() < self.urls.args.concurrency
                &&& savable(url, self.urls.args)
                &&& !self.key_update
            },
            OldPhaseView::Opening { path, .. } => {
                &&& self.urls.outstanding() < self.urls.args.concurrency
                &&& !taken(self.urls.paths, path)
            },
            OldPhaseView::Reading { stream_id } => self.urls.streams.contains_key(stream_id),
            OldPhaseView::Writing { stream_id, .. } => self.urls.streams.contains_key(stream_id),
            OldPhaseView::Updating { .. } => self.key_update,
            _ => true,
        }
    }
}

/// Whether a step, and the state after it, are those of a turn, with `before` done first.
pub open spec fn takes<T>(
    step: OldStep,
    before: Seq<EffectView>,
    state: OldView<T>,
    turn: OldTurn<T>,
) -> bool {
    &&& state == turn.state
    &&& shown(step.effects@) == before + turn.effects
    &&& step.request@ == turn.request
}

/// What is done before a turn can be counted as part of it.
proof fn lemma_following<T>(
    step: OldStep,
    before: Seq<EffectView>,
    first: Seq<EffectView>,
    state: OldView<T>,
    turn: OldTurn<T>,
)
    requires
        takes(step, before + first, state, turn),
    ensures
        takes(step, before, state, turn.following(first)),
{
    assert(before + first + turn.effects =~= before + (first + turn.effects));
}

/// What is true of a handler at all times stays true, whatever it is told.
pub proof fn law_invariant_kept<T>(state: OldView<T>, input: OldInput<T>)
    requires
        state.wf(),
        state.awaits(input),
    ensures
        state.next(input).state.wf(),
{
}

/// The request for a path.
fn request_text(url_path: &str) -> (data: Vec<u8>)
    ensures
        data@ == request_bytes(url_path@),
{
    let mut request = "GET ".to_owned();
    request.append(url_path);
    request.append("\r\n");
    slice_to_vec(request.as_str().as_bytes())
}

impl<T> HandlerOld<T> {
    /// A client that has made no request yet.
    pub fn new(
        url_handler: URLHandler,
        key_update: KeyUpdateState,
        output_read_data: bool,
    ) -> (handler: Self)
        requires
            url_handler@.wf(),
        ensures
            handler@ == (OldView::<T> {
                urls: url_handler@,
                output_read_data,
                token: None,
                key_update: key_update.0,
                phase: OldPhaseView::Idle,
            }),
            handler@.wf(),
    {
        HandlerOld { url_handler, output_read_data, token: None, key_update, phase: OldPhase::Idle }
    }

    /// Whether a stream is known.
    pub fn serves(&self, stream_id: u64) -> (r: bool)
        ensures
            r == self@.urls.streams.contains_key(stream_id),
    {
        self.url_handler.stream_handler(stream_id).is_some()
    }

    /// Takes the token out.
    pub fn take_token(&mut self) -> (token: Option<T>)
        ensures
            token == old(self)@.token,
            final(self)@ == (OldView { token: None, ..old(self)@ }),
    {
        self.token.take()
    }

    /// Asks for something.
    fn ask(&mut self, phase: OldPhase, request: OldRequest, effects: Vec<Effect>) -> (step: OldStep)
        ensures
            takes(step, shown(effects@), final(self)@, old(self)@.asks(phase@, request@)),
    {
        self.phase = phase;
        proof {
            assert(shown(effects@) + Seq::<EffectView>::empty() =~= shown(effects@));
        }
        OldStep { effects, request }
    }

    /// Asks for the next event.
    fn poll(&mut self, effects: Vec<Effect>) -> (step: OldStep)
        ensures
            takes(step, shown(effects@), final(self)@, old(self)@.polls()),
    {
        self.ask(OldPhase::Polling, OldRequest::NextEvent, effects)
    }

    /// Does one thing and asks for the next event.
    fn poll_after(&mut self, effect: Effect) -> (step: OldStep)
        ensures
            takes(
                step,
                Seq::empty(),
                final(self)@,
                old(self)@.polls().following(seq![effect@]),
            ),
    {
        let effects = only(effect);
        let step = self.poll(effects);
        proof {
            lemma_following(step, Seq::empty(), seq![effect@], self@, old(self)@.polls());
        }
        step
    }

    /// Is done for now.
    fn leave(&mut self, r: Result<bool, ClientError>, effects: Vec<Effect>) -> (step: OldStep)
        ensures
            takes(step, shown(effects@), final(self)@, old(self)@.leaves(r)),
    {
        self.ask(OldPhase::Idle, OldRequest::Return(r), effects)
    }

    /// Asks for the events that are left.
    fn drain(&mut self, effects: Vec<Effect>) -> (step: OldStep)
        ensures
            takes(step, shown(effects@), final(self)@, old(self)@.drains()),
    {
        self.ask(OldPhase::Draining, OldRequest::DrainEvents, effects)
    }

    /// Creates the next stream, or goes on if none can be created.
    fn download_urls(&mut self, after: OldAfter, effects: Vec<Effect>) -> (step: OldStep)
        ensures
            takes(step, shown(effects@), final(self)@, old(self)@.download_urls(after)),
    {
        if !self.url_handler.may_request() {
            return self.go_on(after, effects);
        }
        if self.key_update.needed() {
            let ghost before = shown(effects@);
            let ghost first = seq![EffectView::Print(deferring_line())];
            let mut effects = effects;
            emit(&mut effects, Effect::Print(deferring_line_text()));
            let step = self.go_on(after, effects);
            proof {
                assert(shown(effects@) =~= before + first);
                lemma_following(step, before, first, self@, old(self)@.goes_on(after));
            }
            return step;
        }
        match self.url_handler.process_urls() {
            Some(url) => self.ask(
                OldPhase::Creating { url, after },
                OldRequest::CreateStream,
                effects,
            ),
            None => self.go_on(after, effects),
        }
    }

    /// Does one thing and creates the next stream, or asks for the next event if none can be
    /// created.
    fn download_after(&mut self, effect: Effect) -> (step: OldStep)
        ensures
            takes(
                step,
                Seq::empty(),
                final(self)@,
                old(self)@.download_urls(OldAfter::NextEvent).following(seq![effect@]),
            ),
    {
        let effects = only(effect);
        let step = self.download_urls(OldAfter::NextEvent, effects);
        proof {
            lemma_following(
                step,
                Seq::empty(),
                seq![effect@],
                self@,
                old(self)@.download_urls(OldAfter::NextEvent),
            );
        }
        step
    }

    /// Goes on once no further stream can be created.
    fn go_on(&mut self, after: OldAfter, effects: Vec<Effect>) -> (step: OldStep)
        ensures
            takes(step, shown(effects@), final(self)@, old(self)@.goes_on(after)),
    {
        match after {
            OldAfter::NextEvent => self.poll(effects),
            OldAfter::StreamEnd => {
                if self.url_handler.done() {
                    self.drain(effects)
                } else {
                    self.poll(effects)
                }
            },
            OldAfter::KeyUpdate => self.leave(Ok(true), effects),
        }
    }

    /// Starts to fetch contents on a new stream.
    fn download(
        &mut self,
        stream_id: u64,
        out_file: Option<String>,
        after: OldAfter,
        effects: Vec<Effect>,
    ) -> (step: OldStep)
        ensures
            takes(
                step,
                shown(effects@),
                final(self)@,
                old(self)@.downloads(stream_id, optional_text(out_file), after),
            ),
    {
        let handler = StreamHandler::Download(DownloadStreamHandler { out_file });
        self.url_handler.add_stream(stream_id, handler);
        self.download_urls(after, effects)
    }

    /// Decides where contents go.
    fn choose_file(&mut self, url: &Url, stream_id: u64, after: OldAfter, effects: Vec<Effect>) -> (step:
        OldStep)
        requires
            savable(url@, old(self)@.urls.args),
        ensures
            takes(
                step,
                shown(effects@),
                final(self)@,
                old(self)@.chooses_file(url@, stream_id, after),
            ),
    {
        let ghost before = shown(effects@);
        let mut effects = effects;
        match self.url_handler.output_file(url) {
            OutputPlan::Nowhere => self.download(stream_id, None, after, effects),
            OutputPlan::Duplicate(path) => {
                let ghost first = seq![EffectView::Warn(duplicate_line(path@))];
                emit(&mut effects, Effect::Warn(duplicate_line_text(path.as_str())));
                let step = self.download(stream_id, None, after, effects);
                proof {
                    assert(shown(effects@) =~= before + first);
                    lemma_following(
                        step,
                        before,
                        first,
                        self@,
                        old(self)@.downloads(stream_id, None, after),
                    );
                }
                step
            },
            OutputPlan::Open(path) => {
                let ghost first = seq![EffectView::Saving { url: url@.text, path: path@ }];
                emit(&mut effects, Effect::Saving { url: url.text.clone(), path: path.clone() });
                let request = OldRequest::Open { stream_id, path: path.clone() };
                let ghost asked = request@;
                let phase = OldPhase::Opening { stream_id, path, after };
                let ghost entered = phase@;
                let step = self.ask(phase, request, effects);
                proof {
                    assert(shown(effects@) =~= before + first);
                    lemma_following(step, before, first, self@, old(self)@.asks(entered, asked));
                }
                step
            },
        }
    }

    /// Deals with the outcome of creating a stream.
    fn download_next(
        &mut self,
        url: Url,
        after: OldAfter,
        outcome: Result<u64, TransportError>,
    ) -> (step: OldStep)
        requires
            savable(url@, old(self)@.urls.args),
        ensures
            takes(
                step,
                Seq::empty(),
                final(self)@,
                old(self)@.download_next(url@, after, outcome),
            ),
    {
        let mut effects: Vec<Effect> = Vec::new();
        let ghost none = Seq::<EffectView>::empty();
        proof {
            assert(shown(effects@) =~= none);
        }
        match outcome {
            Ok(stream_id) => {
                let ghost first = seq![
                    EffectView::Print(created_line(stream_id, url@.text)),
                    EffectView::Send { stream_id, data: request_bytes(url@.path) },
                    EffectView::CloseSend(stream_id),
                ];
                emit(
                    &mut effects,
                    Effect::Print(created_line_text(stream_id, url.text.as_str())),
                );
                emit(
                    &mut effects,
                    Effect::Send { stream_id, data: request_text(url.path.as_str()) },
                );
                emit(&mut effects, Effect::CloseSend(stream_id));
                let step = self.choose_file(&url, stream_id, after, effects);
                proof {
                    assert(shown(effects@) =~= none + first);
                    lemma_following(
                        step,
                        none,
                        first,
                        self@,
                        old(self)@.chooses_file(url@, stream_id, after),
                    );
                }
                step
            },
            Err(e) => {
                let name = match e {
                    TransportError::StreamLimitError => "StreamLimitError",
                    TransportError::ConnectionState => "ConnectionState",
                    _ => {
                        return self.ask(
                            OldPhase::Idle,
                            OldRequest::Abort(Abort::CannotCreateStream(e)),
                            effects,
                        );
                    },
                };
                let ghost first = seq![EffectView::Print(refused_line(name@))];
                emit(&mut effects, Effect::Print(refused_line_text(name)));
                self.url_handler.put_back(url);
                let ghost back = self@;
                let step = self.go_on(after, effects);
                proof {
                    assert(shown(effects@) =~= none + first);
                    lemma_following(step, none, first, self@, back.goes_on(after));
                }
                step
            },
        }
    }

    /// Whether a stream has a file.
    fn has_file(&self, stream_id: u64) -> (r: bool)
        requires
            self@.urls.streams.contains_key(stream_id),
        ensures
            r == (self@.out_file(stream_id) is Some),
    {
        match self.url_handler.stream_handler(stream_id) {
            Some(StreamHandler::Download(d)) => d.out_file.is_some(),
            _ => false,
        }
    }

    /// Forgets a stream that has ended.
    fn end_stream(&mut self, stream_id: u64, effects: Vec<Effect>) -> (step: OldStep)
        requires
            old(self)@.urls.streams.contains_key(stream_id),
        ensures
            takes(step, shown(effects@), final(self)@, old(self)@.ends_stream(stream_id)),
    {
        let ghost before = shown(effects@);
        let mut effects = effects;
        if self.has_file(stream_id) {
            self.url_handler.remove_stream(stream_id);
            self.download_urls(OldAfter::StreamEnd, effects)
        } else {
            let ghost first = seq![EffectView::Print(fin_line(stream_id))];
            emit(&mut effects, Effect::Print(fin_line_text(stream_id)));
            self.url_handler.remove_stream(stream_id);
            let ghost removed = self@;
            let step = self.download_urls(OldAfter::StreamEnd, effects);
            proof {
                assert(shown(effects@) =~= before + first);
                lemma_following(
                    step,
                    before,
                    first,
                    self@,
                    removed.download_urls(OldAfter::StreamEnd),
                );
            }
            step
        }
    }

    /// Reads on, unless the stream has ended.
    fn read_on(&mut self, stream_id: u64, fin: bool, effects: Vec<Effect>) -> (step: OldStep)
        requires
            old(self)@.urls.streams.contains_key(stream_id),
        ensures
            takes(step, shown(effects@), final(self)@, old(self)@.reads_on(stream_id, fin)),
    {
        if fin {
            self.end_stream(stream_id, effects)
        } else {
            self.ask(OldPhase::Reading { stream_id }, OldRequest::Read { stream_id }, effects)
        }
    }

    /// Deals with data from a stream.
    fn read_from_stream(
        &mut self,
        stream_id: u64,
        outcome: Result<(usize, bool), TransportError>,
        data: &Vec<u8>,
    ) -> (step: OldStep)
        requires
            old(self)@.urls.streams.contains_key(stream_id),
            outcome matches Ok((sz, _)) ==> sz <= data@.len(),
        ensures
            takes(
                step,
                Seq::empty(),
                final(self)@,
                old(self)@.read_from_stream(stream_id, outcome, data@),
            ),
    {
        let mut effects: Vec<Effect> = Vec::new();
        let ghost none = Seq::<EffectView>::empty();
        proof {
            assert(shown(effects@) =~= none);
        }
        let (sz, fin) = match outcome {
            Err(e) => {
                return self.leave(Err(ClientError::from(e)), effects);
            },
            Ok(read) => read,
        };
        if sz == 0 {
            if fin {
                return self.end_stream(stream_id, effects);
            }
            return self.poll(effects);
        }
        let part = slice_to_vec(slice_subrange(data.as_slice(), 0, sz));
        assert(part@ =~= data@.take(sz as int));
        if self.has_file(stream_id) {
            return self.ask(
                OldPhase::Writing { stream_id, fin },
                OldRequest::Write { stream_id, data: part },
                effects,
            );
        }
        let line = if !self.output_read_data {
            bytes_line_text(stream_id, sz)
        } else {
            match utf8_text(&part) {
                Some(text) => text_line_text(stream_id, text.as_str()),
                None => {
                    return self.ask(
                        OldPhase::Idle,
                        OldRequest::Abort(Abort::UnexpectedBytes { stream_id }),
                        effects,
                    );
                },
            }
        };
        let ghost first = seq![EffectView::Print(line@)];
        emit(&mut effects, Effect::Print(line));
        let step = self.read_on(stream_id, fin, effects);
        proof {
            assert(shown(effects@) =~= none + first);
            lemma_following(step, none, first, self@, old(self)@.reads_on(stream_id, fin));
        }
        step
    }

    /// Starts a key update if one is needed, and else creates streams.
    fn update_keys(&mut self, after: OldAfter, effects: Vec<Effect>) -> (step: OldStep)
        ensures
            takes(step, shown(effects@), final(self)@, old(self)@.maybe_key_update(after)),
    {
        if self.key_update.needed() {
            self.ask(OldPhase::Updating { after }, OldRequest::UpdateKeys, effects)
        } else {
            self.download_urls(after, effects)
        }
    }

    /// Deals with what has happened on the connection.
    pub fn handle(&mut self) -> (step: OldStep)
        requires
            old(self)@.wf(),
            old(self)@.awaits(OldInput::Handle),
        ensures
            takes(step, Seq::empty(), final(self)@, old(self)@.next(OldInput::Handle)),
            final(self)@.wf(),
    {
        let effects: Vec<Effect> = Vec::new();
        proof {
            assert(shown(effects@) =~= Seq::<EffectView>::empty());
        }
        self.poll(effects)
    }

    /// Updates the keys if that is needed, and creates streams.
    pub fn maybe_key_update(&mut self) -> (step: OldStep)
        requires
            old(self)@.wf(),
            old(self)@.awaits(OldInput::KeyUpdate),
        ensures
            takes(step, Seq::empty(), final(self)@, old(self)@.next(OldInput::KeyUpdate)),
            final(self)@.wf(),
    {
        let effects: Vec<Effect> = Vec::new();
        proof {
            assert(shown(effects@) =~= Seq::<EffectView>::empty());
            law_invariant_kept(self@, OldInput::KeyUpdate);
        }
        self.update_keys(OldAfter::KeyUpdate, effects)
    }

    /// Deals with the next event, if there is one.
    pub fn on_event(&mut self, event: Option<ConnectionEvent<T>>) -> (step: OldStep)
        requires
            old(self)@.wf(),
            old(self)@.awaits(OldInput::Event(event_view(event))),
        ensures
            takes(
                step,
                Seq::empty(),
                final(self)@,
                old(self)@.next(OldInput::Event(event_view(event))),
            ),
            final(self)@.wf(),
    {
        let effects: Vec<Effect> = Vec::new();
        let ghost none = Seq::<EffectView>::empty();
        proof {
            assert(shown(effects@) =~= none);
            law_invariant_kept(self@, OldInput::Event(event_view(event)));
        }
        let event = match event {
            None => {
                return self.leave(Ok(true), effects);
            },
            Some(event) => event,
        };
        match event {
            ConnectionEvent::AuthenticationNeeded => self.poll_after(Effect::Authenticate),
            ConnectionEvent::RecvStreamReadable { stream_id } => {
                if self.url_handler.stream_handler(stream_id).is_none() {
                    let step = self.drain(only(Effect::Print(unexpected_line_text(stream_id))));
                    proof {
                        let first = seq![EffectView::Print(unexpected_line(stream_id))];
                        lemma_following(step, none, first, self@, old(self)@.drains());
                    }
                    return step;
                }
                self.ask(OldPhase::Reading { stream_id }, OldRequest::Read { stream_id }, effects)
            },
            ConnectionEvent::SendStreamWritable { stream_id } => {
                self.poll_after(Effect::Print(writable_line_text(stream_id)))
            },
            ConnectionEvent::SendStreamComplete { stream_id } => {
                self.poll_after(Effect::Print(complete_line_text(stream_id)))
            },
            ConnectionEvent::SendStreamCreatable { stream_type } => match stream_type {
                StreamType::BiDi => {
                    self.download_after(Effect::Print(creatable_line_text("BiDi")))
                },
                StreamType::UniDi => self.poll_after(Effect::Print(creatable_line_text("UniDi"))),
            },
            ConnectionEvent::Progress(text) => self.download_after(Effect::Print(text)),
            ConnectionEvent::Confirmed => self.update_keys(OldAfter::NextEvent, effects),
            ConnectionEvent::ResumptionToken(t) => {
                self.token = Some(t);
                self.poll(effects)
            },
            ConnectionEvent::Other(text) => {
                self.poll_after(Effect::Print(unhandled_line_text(text.as_str())))
            },
        }
    }

    /// Takes the phase out.
    fn take_phase(&mut self) -> (phase: OldPhase)
        ensures
            phase == old(self).phase,
            final(self)@ == old(self)@.entering(OldPhaseView::Idle),
    {
        let mut phase = OldPhase::Idle;
        std::mem::swap(&mut self.phase, &mut phase);
        phase
    }

    /// Deals with the outcome of creating a stream.
    pub fn on_created(&mut self, outcome: Result<u64, TransportError>) -> (step: OldStep)
        requires
            old(self)@.wf(),
            old(self)@.awaits(OldInput::Created(outcome)),
        ensures
            takes(step, Seq::empty(), final(self)@, old(self)@.next(OldInput::Created(outcome))),
            final(self)@.wf(),
    {
        proof {
            law_invariant_kept(self@, OldInput::Created(outcome));
        }
        match self.take_phase() {
            OldPhase::Creating { url, after } => self.download_next(url, after, outcome),
            _ => self.leave(Ok(true), Vec::new()),
        }
    }

    /// Deals with whether a file was created.
    pub fn on_opened(&mut self, created: bool) -> (step: OldStep)
        requires
            old(self)@.wf(),
            old(self)@.awaits(OldInput::Opened(created)),
        ensures
            takes(step, Seq::empty(), final(self)@, old(self)@.next(OldInput::Opened(created))),
            final(self)@.wf(),
    {
        let effects: Vec<Effect> = Vec::new();
        proof {
            assert(shown(effects@) =~= Seq::<EffectView>::empty());
            law_invariant_kept(self@, OldInput::Opened(created));
        }
        match self.take_phase() {
            OldPhase::Opening { stream_id, path, after } => {
                if created {
                    self.url_handler.add_path(path.clone());
                    self.download(stream_id, Some(path), after, effects)
                } else {
                    self.download(stream_id, None, after, effects)
                }
            },
            _ => self.leave(Ok(true), effects),
        }
    }

    /// Deals with data from a stream.
    pub fn on_data(
        &mut self,
        outcome: Result<(usize, bool), TransportError>,
        data: &Vec<u8>,
    ) -> (step: OldStep)
        requires
            old(self)@.wf(),
            old(self)@.awaits(OldInput::Data { outcome, data: data@ }),
        ensures
            takes(
                step,
                Seq::empty(),
                final(self)@,
                old(self)@.next(OldInput::Data { outcome, data: data@ }),
            ),
            final(self)@.wf(),
    {
        proof {
            law_invariant_kept(self@, OldInput::Data { outcome, data: data@ });
        }
        match self.phase {
            OldPhase::Reading { stream_id } => self.read_from_stream(stream_id, outcome, data),
            _ => self.leave(Ok(true), Vec::new()),
        }
    }

    /// Deals with whether data was written.
    pub fn on_written(&mut self, outcome: Result<(), IoError>) -> (step: OldStep)
        requires
            old(self)@.wf(),
            old(self)@.awaits(OldInput::Written(outcome)),
        ensures
            takes(step, Seq::empty(), final(self)@, old(self)@.next(OldInput::Written(outcome))),
            final(self)@.wf(),
    {
        let effects: Vec<Effect> = Vec::new();
        proof {
            assert(shown(effects@) =~= Seq::<EffectView>::empty());
            law_invariant_kept(self@, OldInput::Written(outcome));
        }
        match outcome {
            Ok(()) => match self.phase {
                OldPhase::Writing { stream_id, fin } => self.read_on(stream_id, fin, effects),
                _ => self.leave(Ok(true), effects),
            },
            Err(e) => self.leave(Err(ClientError::from(e)), effects),
        }
    }

    /// Deals with the outcome of an attempt at a key update.
    pub fn on_key_update(&mut self, outcome: Result<(), TransportError>) -> (step: OldStep)
        requires
            old(self)@.wf(),
            old(self)@.awaits(OldInput::KeysUpdated(outcome)),
        ensures
            takes(
                step,
                Seq::empty(),
                final(self)@,
                old(self)@.next(OldInput::KeysUpdated(outcome)),
            ),
            final(self)@.wf(),
    {
        let mut effects: Vec<Effect> = Vec::new();
        let ghost none = Seq::<EffectView>::empty();
        proof {
            assert(shown(effects@) =~= none);
            law_invariant_kept(self@, OldInput::KeysUpdated(outcome));
        }
        let told = match outcome {
            Ok(()) => Ok(()),
            Err(e) => Err(ClientError::from(e)),
        };
        match self.phase {
            OldPhase::Updating { after } => match self.key_update.settle(told) {
                Ok(()) => {
                    if self.key_update.needed() {
                        self.download_urls(after, effects)
                    } else {
                        let ghost settled = self@;
                        emit(&mut effects, Effect::Print(keys_updated_text()));
                        let step = self.download_urls(after, effects);
                        proof {
                            let first = seq![EffectView::Print(keys_updated())];
                            assert(shown(effects@) =~= none + first);
                            lemma_following(
                                step,
                                none,
                                first,
                                self@,
                                settled.download_urls(after),
                            );
                        }
                        step
                    }
                },
                Err(e) => self.leave(Err(e), effects),
            },
            _ => self.leave(Ok(true), effects),
        }
    }

    /// Just in case no token was handed over before, goes through events until one is found.
    fn get_token(&mut self, events: Vec<ConnectionEvent<T>>)
        ensures
            final(self)@ == (OldView { token: first_token(events@, old(self)@.token), ..old(self)@ }),
    {
        let ghost all = events@;
        let mut rest = events;
        let mut i: usize = 0;
        proof {
            assert(all.skip(0) =~= all);
        }
        while i < rest.len()
            invariant
                i <= rest@.len(),
                rest@ == all,
                all == events@,
                self@ == old(self)@,
                first_token(all.skip(i as int), self@.token) == first_token(all, self@.token),
            decreases rest@.len() - i,
        {
            proof {
                assert(all.skip(i as int).skip(1) =~= all.skip(i + 1));
                assert(all.skip(i as int)[0] == all[i as int]);
            }
            if let ConnectionEvent::ResumptionToken(_) = &rest[i] {
                if let ConnectionEvent::ResumptionToken(token) = rest.remove(i) {
                    self.token = Some(token);
                }
                return;
            }
            i += 1;
        }
    }

    /// Deals with the events that were left, and closes the connection.
    pub fn on_drained(&mut self, events: Vec<ConnectionEvent<T>>) -> (step: OldStep)
        requires
            old(self)@.wf(),
            old(self)@.awaits(OldInput::Drained(events@)),
        ensures
            takes(step, Seq::empty(), final(self)@, old(self)@.next(OldInput::Drained(events@))),
            final(self)@.wf(),
    {
        let mut effects: Vec<Effect> = Vec::new();
        let ghost none = Seq::<EffectView>::empty();
        proof {
            assert(shown(effects@) =~= none);
        }
        self.get_token(events);
        let ghost kept = self@;
        emit_goodbye(&mut effects);
        let step = self.leave(Ok(false), effects);
        proof {
            let first = seq![goodbye()];
            assert(shown(effects@) =~= none + first);
            lemma_following(step, none, first, self@, kept.leaves(Ok(false)));
        }
        step
    }
}

} // verus!
