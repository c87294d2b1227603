//! What an HTTP/3 client does when something happens.
//!
//! A [`Handler`] never waits. It says what to ask for next, and is told the answer by the method
//! that belongs to the question.

use crate::effect::{
    emit, emit_goodbye, goodbye, only, shown, Abort, AbortView, Effect, EffectView,
};
use crate::error::{ClientError, Http3Error, IoError, TransportError};
use crate::files::{output_plan, taken, OutputPlan, OutputPlanView};
use crate::headers::{header_views, Header, HeaderView};
use crate::key_update::{attempt_answer, needed_after, KeyUpdateState};
use crate::lines::{
    duplicate_line, duplicate_line_text, fetched_line, fetched_line_text, keys_updated,
    keys_updated_text, unexpected_line, unexpected_line_text, unhandled_line, unhandled_line_text,
};
use crate::requests::{savable, URLHandler, UrlHandlerView};
use crate::stream::{
    advanced, all_sent, data_left, data_told, headers_told, new_upload, next_chunk,
    DownloadStreamHandler, Readable, ReadableView, StreamHandler, StreamHandlerType,
    StreamHandlerView, UploadStreamHandler,
};
use crate::urls::{Url, UrlView};
use vstd::prelude::*;

verus! {

/// Something that happened on the connection.
pub enum Http3Event<T> {
    /// The peer's certificate is to be judged.
    AuthenticationNeeded,
    /// Headers, given in words, have come on a stream.
    HeaderReady { stream_id: u64, headers: String, fin: bool },
    /// Data can be read from a stream.
    DataReadable { stream_id: u64 },
    /// A stream takes data again.
    DataWritable { stream_id: u64 },
    /// The connection is up.
    Connected,
    /// Requests can be made again.
    RequestsCreatable,
    /// A token with which a later connection can resume.
    ResumptionToken(T),
    /// Anything else, in words.
    Other(String),
}

/// The mathematical value of an [`Http3Event`].
pub ghost enum Http3EventView<T> {
    AuthenticationNeeded,
    HeaderReady { stream_id: u64, headers: Seq<char>, fin: bool },
    DataReadable { stream_id: u64 },
    DataWritable { stream_id: u64 },
    Connected,
    RequestsCreatable,
    ResumptionToken(T),
    Other(Seq<char>),
}

impl<T> View for Http3Event<T> {
    type V = Http3EventView<T>;

    open spec fn view(&self) -> Http3EventView<T> {
        match self {
            Http3Event::AuthenticationNeeded => Http3EventView::AuthenticationNeeded,
            Http3Event::HeaderReady { stream_id, headers, fin } => Http3EventView::HeaderReady {
                stream_id: *stream_id,
                headers: headers@,
                fin: *fin,
            },
            Http3Event::DataReadable { stream_id } => Http3EventView::DataReadable {
                stream_id: *stream_id,
            },
            Http3Event::DataWritable { stream_id } => Http3EventView::DataWritable {
                stream_id: *stream_id,
            },
            Http3Event::Connected => Http3EventView::Connected,
            Http3Event::RequestsCreatable => Http3EventView::RequestsCreatable,
            Http3Event::ResumptionToken(t) => Http3EventView::ResumptionToken(*t),
            Http3Event::Other(text) => Http3EventView::Other(text@),
        }
    }
}

/// What to ask for next, or that there is nothing more to ask for.
pub enum Http3Request {
    /// The next event, if there is one. Answered with [`Handler::on_event`].
    NextEvent,
    /// A request. Answered with [`Handler::on_fetched`].
    Fetch { url: Url, method: String, headers: Vec<Header> },
    /// A file for a stream, with the directories that it stands in. Answered with
    /// [`Handler::on_opened`].
    Open { stream_id: u64, path: String },
    /// Data from a stream, in a buffer that [`read_buffer`](crate::event_loop::read_buffer) makes:
    /// [`READ_BUFFER`](crate::event_loop::READ_BUFFER) bytes, zero where nothing was read. Answered
    /// with [`Handler::on_data`].
    Read { stream_id: u64 },
    /// That data is written to a stream's file. Answered with [`Handler::on_written`].
    Write { stream_id: u64, data: Vec<u8> },
    /// That data is sent on a stream. Answered with [`Handler::on_sent`].
    Send { stream_id: u64, data: Vec<u8> },
    /// That a key update is started. Answered with [`Handler::on_key_update`].
    UpdateKeys,
    /// Nothing more for now: whether the connection goes on, or what failed.
    Return(Result<bool, ClientError>),
    /// Nothing more at all.
    Abort(Abort),
}

/// The mathematical value of an [`Http3Request`].
pub ghost enum Http3RequestView {
    NextEvent,
    Fetch { url: UrlView, method: Seq<char>, headers: Seq<HeaderView> },
    Open { stream_id: u64, path: Seq<char> },
    Read { stream_id: u64 },
    Write { stream_id: u64, data: Seq<u8> },
    Send { stream_id: u64, data: Seq<u8> },
    UpdateKeys,
    Return(Result<bool, ClientError>),
    Abort(AbortView),
}

impl View for Http3Request {
    type V = Http3RequestView;

    open spec fn view(&self) -> Http3RequestView {
        match self {
            Http3Request::NextEvent => Http3RequestView::NextEvent,
            Http3Request::Fetch { url, method, headers } => Http3RequestView::Fetch {
                url: url@,
                method: method@,
                headers: header_views(headers@),
            },
            Http3Request::Open { stream_id, path } => Http3RequestView::Open {
                stream_id: *stream_id,
                path: path@,
            },
            Http3Request::Read { stream_id } => Http3RequestView::Read { stream_id: *stream_id },
            Http3Request::Write { stream_id, data } => Http3RequestView::Write {
                stream_id: *stream_id,
                data: data@,
            },
            Http3Request::Send { stream_id, data } => Http3RequestView::Send {
                stream_id: *stream_id,
                data: data@,
            },
            Http3Request::UpdateKeys => Http3RequestView::UpdateKeys,
            Http3Request::Return(r) => Http3RequestView::Return(*r),
            Http3Request::Abort(abort) => Http3RequestView::Abort(abort@),
        }
    }
}

/// What to do at once, in order, and what to ask for then.
pub struct Http3Step {
    pub effects: Vec<Effect>,
    pub request: Http3Request,
}

/// Where to go on once no further request can be made.
#[derive(Debug, Clone, Copy, PartialEq, Eq, Structural)]
pub enum After {
    /// With the next event.
    NextEvent,
    /// At the end of a stream.
    StreamEnd,
    /// At the end of an attempt to update the keys.
    KeyUpdate,
}

/// Which answer is awaited.
pub enum Phase {
    /// None.
    Idle,
    /// An event.
    Polling,
    /// The outcome of a request for a URL.
    Fetching { url: Url, after: After },
    /// Whether a file could be created.
    Opening { stream_id: u64, path: String, after: After },
    /// Data from a stream.
    Reading { stream_id: u64 },
    /// Whether data could be written, after `sz` bytes were read.
    Writing { stream_id: u64, fin: bool, sz: usize },
    /// How much of an upload was taken.
    Sending { stream_id: u64 },
    /// Whether a key update was started.
    Updating,
}

/// The mathematical value of a [`Phase`].
pub ghost enum PhaseView {
    Idle,
    Polling,
    Fetching { url: UrlView, after: After },
    Opening { stream_id: u64, path: Seq<char>, after: After },
    Reading { stream_id: u64 },
    Writing { stream_id: u64, fin: bool, sz: usize },
    Sending { stream_id: u64 },
    Updating,
}

impl View for Phase {
    type V = PhaseView;

    open spec fn view(&self) -> PhaseView {
        match self {
            Phase::Idle => PhaseView::Idle,
            Phase::Polling => PhaseView::Polling,
            Phase::Fetching { url, after } => PhaseView::Fetching { url: url@, after: *after },
            Phase::Opening { stream_id, path, after } => PhaseView::Opening {
                stream_id: *stream_id,
                path: path@,
                after: *after,
            },
            Phase::Reading { stream_id } => PhaseView::Reading { stream_id: *stream_id },
            Phase::Writing { stream_id, fin, sz } => PhaseView::Writing {
                stream_id: *stream_id,
                fin: *fin,
                sz: *sz,
            },
            Phase::Sending { stream_id } => PhaseView::Sending { stream_id: *stream_id },
            Phase::Updating => PhaseView::Updating,
        }
    }
}

/// An HTTP/3 client's side of a connection.
pub struct Handler<T> {
    /// The URLs and their streams.
    url_handler: URLHandler,
    /// Whether the keys are still to be updated.
    key_update: KeyUpdateState,
    /// The last token that came.
    token: Option<T>,
    /// Whether data that is read is shown.
    output_read_data: bool,
    /// Which answer is awaited.
    phase: Phase,
}

/// The mathematical value of a [`Handler`].
#[verifier::ext_equal]
pub ghost struct HandlerView<T> {
    pub urls: UrlHandlerView,
    pub key_update: bool,
    pub token: Option<T>,
    pub output_read_data: bool,
    pub phase: PhaseView,
}

impl<T> View for Handler<T> {
    type V = HandlerView<T>;

    closed spec fn view(&self) -> HandlerView<T> {
        HandlerView {
            urls: self.url_handler@,
            key_update: self.key_update.0,
            token: self.token,
            output_read_data: self.output_read_data,
            phase: self.phase@,
        }
    }
}

/// A handler after an answer, with what it does and asks for.
pub ghost struct Turn<T> {
    pub state: HandlerView<T>,
    pub effects: Seq<EffectView>,
    pub request: Http3RequestView,
}

impl<T> Turn<T> {
    /// With effects before its own.
    pub open spec fn following(self, effects: Seq<EffectView>) -> Self {
        Turn { effects: effects + self.effects, ..self }
    }
}

/// Whether an error only says that a request has to wait.
pub open spec fn request_refused(e: Http3Error) -> bool {
    ||| e == Http3Error::TransportError(TransportError::StreamLimitError)
    ||| e == Http3Error::StreamLimitError
    ||| e == Http3Error::Unavailable
}

/// An answer, or the start of something new.
pub ghost enum Http3Input<T> {
    /// Deal with what has happened.
    Handle,
    /// Update the keys if that is needed.
    KeyUpdate,
    /// The next event, if there is one.
    Event(Option<Http3EventView<T>>),
    /// The outcome of a request, and the time.
    Fetched { outcome: Result<u64, Http3Error>, now: u64 },
    /// Whether a file was created.
    Opened(bool),
    /// Data from a stream: the buffer, how much of it was filled, whether that was the end, and
    /// the time.
    Data { data: Seq<u8>, sz: usize, fin: bool, now: u64 },
    /// Whether data was written.
    Written(Result<(), IoError>),
    /// How much was taken, if anything could be.
    Sent(Option<usize>),
    /// The outcome of an attempt at a key update.
    KeysUpdated(Result<(), Http3Error>),
}

impl<T> HandlerView<T> {
    /// In another phase.
    pub open spec fn entering(self, phase: PhaseView) -> Self {
        HandlerView { phase, ..self }
    }

    /// Asking for something without further effects.
    pub open spec fn asks(self, phase: PhaseView, request: Http3RequestView) -> Turn<T> {
        Turn { state: self.entering(phase), effects: Seq::empty(), request }
    }

    /// Asking for the next event.
    pub open spec fn polls(self) -> Turn<T> {
        self.asks(PhaseView::Polling, Http3RequestView::NextEvent)
    }

    /// Done for now.
    pub open spec fn leaves(self, r: Result<bool, ClientError>) -> Turn<T> {
        self.asks(PhaseView::Idle, Http3RequestView::Return(r))
    }

    /// Done for good.
    pub open spec fn aborts(self, abort: AbortView) -> Turn<T> {
        self.asks(PhaseView::Idle, Http3RequestView::Abort(abort))
    }

    /// Making requests as long as there are URLs and the limit allows it; then going on.
    pub open spec fn process_urls(self, after: After) -> Turn<T> {
        if self.urls.may_request() {
            let url = self.urls.queue[0];
            HandlerView { urls: self.urls.without_first(), ..self }.asks(
                PhaseView::Fetching { url, after },
                Http3RequestView::Fetch {
                    url,
                    method: self.urls.args.method,
                    headers: self.urls.headers(),
                },
            )
        } else {
            self.goes_on(after)
        }
    }

    /// Going on once no further request can be made. At the end of the last stream, with nothing
    /// left to request, the connection is closed.
    pub open spec fn goes_on(self, after: After) -> Turn<T> {
        match after {
            After::NextEvent => self.polls(),
            After::StreamEnd => if self.urls.done() {
                self.leaves(Ok(false)).following(seq![goodbye()])
            } else {
                self.leaves(Ok(true))
            },
            After::KeyUpdate => self.leaves(Ok(true)),
        }
    }

    /// A stream has ended.
    pub open spec fn on_stream_fin(self, stream_id: u64) -> Turn<T> {
        HandlerView { urls: self.urls.without_stream(stream_id), ..self }.process_urls(
            After::StreamEnd,
        )
    }

    /// Something came on a stream that nobody asked for.
    pub open spec fn unexpected(self, stream_id: u64) -> Turn<T> {
        self.leaves(Ok(false)).following(seq![EffectView::Print(unexpected_line(stream_id))])
    }

    /// Starting to fetch contents on a new stream: nothing more is sent on it.
    pub open spec fn downloads(
        self,
        stream_id: u64,
        out_file: Option<Seq<char>>,
        after: After,
    ) -> Turn<T> {
        HandlerView {
            urls: self.urls.with_stream(stream_id, StreamHandlerView::Download { out_file }),
            ..self
        }.process_urls(after).following(seq![EffectView::CloseSend(stream_id)])
    }

    /// Making a handler for a new stream.
    pub open spec fn make_handler(
        self,
        url: UrlView,
        stream_id: u64,
        after: After,
        now: u64,
    ) -> Turn<T> {
        match self.urls.handler_type {
            StreamHandlerType::Download => match output_plan(
                url.path,
                self.urls.args.output_dir,
                self.urls.paths,
            ) {
                OutputPlanView::Nowhere => self.downloads(stream_id, None, after),
                OutputPlanView::Duplicate(path) => self.downloads(
                    stream_id,
                    None,
                    after,
                ).following(seq![EffectView::Warn(duplicate_line(path))]),
                OutputPlanView::Open(path) => self.asks(
                    PhaseView::Opening { stream_id, path, after },
                    Http3RequestView::Open { stream_id, path },
                ).following(seq![EffectView::Saving { url: url.text, path }]),
            },
            StreamHandlerType::Upload => HandlerView {
                urls: self.urls.with_stream(
                    stream_id,
                    StreamHandlerView::Upload(new_upload(self.urls.args.upload_size, now)),
                ),
                ..self
            }.process_urls(after),
        }
    }

    /// The outcome of a request: a stream, a refusal that puts the URL back, or a failure.
    pub open spec fn next_url(
        self,
        url: UrlView,
        after: After,
        outcome: Result<u64, Http3Error>,
        now: u64,
    ) -> Turn<T> {
        match outcome {
            Ok(stream_id) => self.make_handler(url, stream_id, after, now).following(
                seq![EffectView::Print(fetched_line(stream_id, url.text))],
            ),
            Err(e) => if request_refused(e) {
                HandlerView { urls: self.urls.with_first(url), ..self }.goes_on(after)
            } else {
                self.aborts(AbortView::CannotFetch(e))
            },
        }
    }

    /// Reading on after `sz` bytes: until the end of the stream, or until nothing is there.
    pub open spec fn reads_on(self, stream_id: u64, fin: bool, sz: usize) -> Turn<T> {
        if fin {
            self.on_stream_fin(stream_id)
        } else if sz == 0 {
            self.polls()
        } else {
            self.asks(PhaseView::Reading { stream_id }, Http3RequestView::Read { stream_id })
        }
    }

    /// Sending the next chunk of an upload, if there is one.
    pub open spec fn process_data_writable(self, stream_id: u64) -> Turn<T> {
        match self.urls.streams[stream_id] {
            StreamHandlerView::Upload(u) => match next_chunk(u) {
                Some(data) => self.asks(
                    PhaseView::Sending { stream_id },
                    Http3RequestView::Send { stream_id, data },
                ),
                None => self.leaves(Ok(true)),
            },
            StreamHandlerView::Download { .. } => self.leaves(Ok(true)),
        }
    }

    /// What an event calls for.
    pub open spec fn on_event(self, event: Http3EventView<T>) -> Turn<T> {
        match event {
            Http3EventView::AuthenticationNeeded => self.polls().following(
                seq![EffectView::Authenticate],
            ),
            Http3EventView::HeaderReady { stream_id, headers, fin } => if self.urls.streams.contains_key(
            stream_id) {
                let told = headers_told(self.urls.streams[stream_id], stream_id, fin, headers);
                if fin {
                    self.on_stream_fin(stream_id).following(told)
                } else {
                    self.polls().following(told)
                }
            } else {
                self.unexpected(stream_id)
            },
            Http3EventView::DataReadable { stream_id } => if self.urls.streams.contains_key(
            stream_id) {
                self.asks(PhaseView::Reading { stream_id }, Http3RequestView::Read { stream_id })
            } else {
                self.unexpected(stream_id)
            },
            Http3EventView::DataWritable { stream_id } => if self.urls.streams.contains_key(
            stream_id) {
                self.process_data_writable(stream_id)
            } else {
                self.unexpected(stream_id)
            },
            Http3EventView::Connected | Http3EventView::RequestsCreatable => self.process_urls(
                After::NextEvent,
            ),
            Http3EventView::ResumptionToken(t) => HandlerView {
                token: Some(t),
                ..self
            }.polls(),
            Http3EventView::Other(text) => self.polls().following(
                seq![EffectView::Print(unhandled_line(text))],
            ),
        }
    }

    /// What data from a stream calls for.
    pub open spec fn on_data(
        self,
        stream_id: u64,
        data: Seq<u8>,
        sz: usize,
        fin: bool,
        now: u64,
    ) -> Turn<T> {
        let handler = self.urls.streams[stream_id];
        let told = data_told(handler, stream_id, fin, data, sz, self.output_read_data, now);
        (match data_left(handler, stream_id, data, sz) {
            ReadableView::Done => self.reads_on(stream_id, fin, sz),
            ReadableView::Write(part) => self.asks(
                PhaseView::Writing { stream_id, fin, sz },
                Http3RequestView::Write { stream_id, data: part },
            ),
            ReadableView::Abort(abort) => self.aborts(abort),
        }).following(told)
    }

    /// What it calls for that the transport has taken so much of an upload. Once it has taken
    /// everything, the sending side of the stream is ended.
    pub open spec fn on_sent(self, stream_id: u64, outcome: Option<usize>) -> Turn<T> {
        match (outcome, self.urls.streams[stream_id]) {
            (Some(amount), StreamHandlerView::Upload(u)) => if amount == 0 {
                self.leaves(Ok(true))
            } else {
                let v = advanced(u, amount as nat);
                let turn = HandlerView {
                    urls: self.urls.with_stream(stream_id, StreamHandlerView::Upload(v)),
                    ..self
                }.process_data_writable(stream_id);
                if all_sent(v) {
                    turn.following(seq![EffectView::CloseSend(stream_id)])
                } else {
                    turn
                }
            },
            _ => self.leaves(Ok(true)),
        }
    }

    /// What the outcome of an attempt at a key update calls for.
    pub open spec fn on_key_update(self, outcome: Result<(), Http3Error>) -> Turn<T> {
        let told = match outcome {
            Ok(()) => Ok(()),
            Err(e) => Err(ClientError::Http3Error(e)),
        };
        let next = HandlerView { key_update: needed_after(told), ..self };
        match attempt_answer(told) {
            Ok(()) => if needed_after(told) {
                next.process_urls(After::KeyUpdate)
            } else {
                next.process_urls(After::KeyUpdate).following(
                    seq![EffectView::Print(keys_updated())],
                )
            },
            Err(e) => next.leaves(Err(e)),
        }
    }

    /// Whether an input is one that is awaited.
    pub open spec fn awaits(self, input: Http3Input<T>) -> bool {
        match (input, self.phase) {
            (Http3Input::Handle, PhaseView::Idle) => true,
            (Http3Input::KeyUpdate, PhaseView::Idle) => true,
            (Http3Input::Event(_), PhaseView::Polling) => true,
            (Http3Input::Fetched { .. }, PhaseView::Fetching { .. }) => true,
            (Http3Input::Opened(_), PhaseView::Opening { .. }) => true,
            (Http3Input::Data { data, sz, .. }, PhaseView::Reading { .. }) => sz <= data.len(),
            (Http3Input::Written(_), PhaseView::Writing { .. }) => true,
            (Http3Input::Sent(Some(amount)), PhaseView::Sending { stream_id }) => {
                self.urls.streams[stream_id] matches StreamHandlerView::Upload(u) ==> u.offset
                    + amount <= usize::MAX
            },
            (Http3Input::Sent(None), PhaseView::Sending { .. }) => true,
            (Http3Input::KeysUpdated(_), PhaseView::Updating) => true,
            _ => false,
        }
    }

    /// What an input calls for.
    pub open spec fn next(self, input: Http3Input<T>) -> Turn<T> {
        match (input, self.phase) {
            (Http3Input::Handle, _) => self.polls(),
            (Http3Input::KeyUpdate, _) => if self.key_update {
                self.asks(PhaseView::Updating, Http3RequestView::UpdateKeys)
            } else {
                self.process_urls(After::KeyUpdate)
            },
            (Http3Input::Event(Some(event)), _) => self.on_event(event),
            (Http3Input::Event(None), _) => self.leaves(Ok(true)),
            (Http3Input::Fetched { outcome, now }, PhaseView::Fetching { url, after }) => {
                self.next_url(url, after, outcome, now)
            },
            (Http3Input::Opened(true), PhaseView::Opening { stream_id, path, after }) => {
                HandlerView { urls: self.urls.with_path(path), ..self }.downloads(
                    stream_id,
                    Some(path),
                    after,
                )
            },
            (Http3Input::Opened(false), PhaseView::Opening { stream_id, after, .. }) => {
                self.downloads(stream_id, None, after)
            },
            (Http3Input::Data { data, sz, fin, now }, PhaseView::Reading { stream_id }) => {
                self.on_data(stream_id, data, sz, fin, now)
            },
            (Http3Input::Written(Ok(())), PhaseView::Writing { stream_id, fin, sz }) => {
                self.reads_on(stream_id, fin, sz)
            },
            (Http3Input::Written(Err(e)), _) => self.leaves(Err(ClientError::IoError(e))),
            (Http3Input::Sent(outcome), PhaseView::Sending { stream_id }) => {
                self.on_sent(stream_id, outcome)
            },
            (Http3Input::KeysUpdated(outcome), _) => self.on_key_update(outcome),
            _ => self.leaves(Ok(true)),
        }
    }

    /// What always holds of a handler: the URLs and streams are in order, there is room for the
    /// stream of a request that is being made, and a stream that is being served is known.
    pub open spec fn wf(self) -> bool {
        &&& self.urls.wf()
        &&& match self.phase {
            PhaseView::Fetching { url, .. } => {
                &&& self.urls.outstanding() < self.urls.args.concurrency
                &&& savable(url, self.urls.args)
            },
            PhaseView::Opening { path, .. } => {
                &&& self.urls.outstanding() < self.urls.args.concurrency
                &&& !taken(self.urls.paths, path)
            },
            PhaseView::Updating => self.key_update,
            PhaseView::Reading { stream_id } => self.urls.streams.contains_key(stream_id),
            PhaseView::Writing { stream_id, .. } => self.urls.streams.contains_key(stream_id),
            PhaseView::Sending { stream_id } => {
                &&& self.urls.streams.contains_key(stream_id)
                &&& self.urls.streams[stream_id] is Upload
            },
            _ => true,
        }
    }
}

/// Whether a step, and the state after it, are those of a turn, with `before` done first.
pub open spec fn takes<T>(
    step: Http3Step,
    before: Seq<EffectView>,
    state: HandlerView<T>,
    turn: Turn<T>,
) -> bool {
    &&& state == turn.state
    &&& shown(step.effects@) == before + turn.effects
    &&& step.request@ == turn.request
}

/// What is done before a turn can be counted as part of it.
proof fn lemma_following<T>(
    step: Http3Step,
    before: Seq<EffectView>,
    first: Seq<EffectView>,
    state: HandlerView<T>,
    turn: Turn<T>,
)
    requires
        takes(step, before + first, state, turn),
    ensures
        takes(step, before, state, turn.following(first)),
{
    assert(before + first + turn.effects =~= before + (first + turn.effects));
}

impl<T> Handler<T> {
    /// A client that has made no request yet.
    pub fn new(
        url_handler: URLHandler,
        key_update: KeyUpdateState,
        output_read_data: bool,
    ) -> (handler: Self)
        requires
            url_handler@.wf(),
        ensures
            handler@ == (HandlerView::<T> {
                urls: url_handler@,
                key_update: key_update.0,
                token: None,
                output_read_data,
                phase: PhaseView::Idle,
            }),
            handler@.wf(),
    {
        Handler { url_handler, key_update, token: None, output_read_data, phase: Phase::Idle }
    }

    /// Whether a stream is known.
    pub fn serves(&self, stream_id: u64) -> (r: bool)
        ensures
            r == self@.urls.streams.contains_key(stream_id),
    {
        self.url_handler.stream_handler(stream_id).is_some()
    }

    /// Takes the token out.
    pub fn take_token(&mut self) -> (token: Option<T>)
        ensures
            token == old(self)@.token,
            final(self)@ == (HandlerView { token: None, ..old(self)@ }),
    {
        self.token.take()
    }

    /// Asks for something.
    fn ask(&mut self, phase: Phase, request: Http3Request, effects: Vec<Effect>) -> (step:
        Http3Step)
        ensures
            takes(step, shown(effects@), final(self)@, old(self)@.asks(phase@, request@)),
    {
        self.phase = phase;
        proof {
            assert(shown(effects@) + Seq::<EffectView>::empty() =~= shown(effects@));
        }
        Http3Step { effects, request }
    }

    /// Asks for the next event.
    fn poll(&mut self, effects: Vec<Effect>) -> (step: Http3Step)
        ensures
            takes(step, shown(effects@), final(self)@, old(self)@.polls()),
    {
        self.ask(Phase::Polling, Http3Request::NextEvent, effects)
    }

    /// Does one thing and asks for the next event.
    fn poll_after(&mut self, effect: Effect) -> (step: Http3Step)
        ensures
            takes(
                step,
                Seq::empty(),
                final(self)@,
                old(self)@.polls().following(seq![effect@]),
            ),
    {
        let effects = only(effect);
        let step = self.poll(effects);
        proof {
            lemma_following(step, Seq::empty(), seq![effect@], self@, old(self)@.polls());
        }
        step
    }

    /// Is done for now.
    fn leave(&mut self, r: Result<bool, ClientError>, effects: Vec<Effect>) -> (step: Http3Step)
        ensures
            takes(step, shown(effects@), final(self)@, old(self)@.leaves(r)),
    {
        self.ask(Phase::Idle, Http3Request::Return(r), effects)
    }

    /// Makes the next request, or goes on if none can be made.
    fn process_urls(&mut self, after: After, effects: Vec<Effect>) -> (step: Http3Step)
        ensures
            takes(step, shown(effects@), final(self)@, old(self)@.process_urls(after)),
    {
        match self.url_handler.process_urls() {
            Some(url) => {
                let request = Http3Request::Fetch {
                    url: url.clone(),
                    method: self.url_handler.method(),
                    headers: self.url_handler.headers(),
                };
                self.ask(Phase::Fetching { url, after }, request, effects)
            },
            None => self.go_on(after, effects),
        }
    }

    /// Goes on once no further request can be made.
    fn go_on(&mut self, after: After, effects: Vec<Effect>) -> (step: Http3Step)
        ensures
            takes(step, shown(effects@), final(self)@, old(self)@.goes_on(after)),
    {
        match after {
            After::NextEvent => self.poll(effects),
            After::StreamEnd => {
                if self.url_handler.done() {
                    let ghost before = shown(effects@);
                    let mut effects = effects;
                    emit_goodbye(&mut effects);
                    let step = self.leave(Ok(false), effects);
                    proof {
                        assert(before.push(goodbye()) =~= before + seq![goodbye()]);
                        lemma_following(
                            step,
                            before,
                            seq![goodbye()],
                            self@,
                            old(self)@.leaves(Ok(false)),
                        );
                    }
                    step
                } else {
                    self.leave(Ok(true), effects)
                }
            },
            After::KeyUpdate => self.leave(Ok(true), effects),
        }
    }

    /// Forgets a stream that has ended.
    fn on_stream_fin(&mut self, stream_id: u64, effects: Vec<Effect>) -> (step: Http3Step)
        ensures
            takes(step, shown(effects@), final(self)@, old(self)@.on_stream_fin(stream_id)),
    {
        self.url_handler.remove_stream(stream_id);
        self.process_urls(After::StreamEnd, effects)
    }

    /// Tells of something on a stream that nobody asked for.
    fn unexpected(&mut self, stream_id: u64) -> (step: Http3Step)
        ensures
            takes(step, Seq::empty(), final(self)@, old(self)@.unexpected(stream_id)),
    {
        let mut effects: Vec<Effect> = Vec::new();
        emit(&mut effects, Effect::Print(unexpected_line_text(stream_id)));
        let ghost first = seq![EffectView::Print(unexpected_line(stream_id))];
        let step = self.leave(Ok(false), effects);
        proof {
            assert(shown(effects@) =~= Seq::empty() + first);
            lemma_following(step, Seq::empty(), first, self@, old(self)@.leaves(Ok(false)));
        }
        step
    }

    /// Starts to fetch contents on a new stream.
    fn download(
        &mut self,
        stream_id: u64,
        out_file: Option<String>,
        after: After,
        effects: Vec<Effect>,
    ) -> (step: Http3Step)
        ensures
            takes(
                step,
                shown(effects@),
                final(self)@,
                old(self)@.downloads(stream_id, crate::files::optional_text(out_file), after),
            ),
    {
        let ghost before = shown(effects@);
        let ghost first = seq![EffectView::CloseSend(stream_id)];
        let mut effects = effects;
        emit(&mut effects, Effect::CloseSend(stream_id));
        let handler = StreamHandler::Download(DownloadStreamHandler { out_file });
        self.url_handler.add_stream(stream_id, handler);
        let ghost added = self@;
        let step = self.process_urls(after, effects);
        proof {
            assert(shown(effects@) =~= before + first);
            lemma_following(step, before, first, self@, added.process_urls(after));
        }
        step
    }

    /// Makes a handler for a new stream.
    fn make_handler(
        &mut self,
        url: &Url,
        stream_id: u64,
        after: After,
        now: u64,
        effects: Vec<Effect>,
    ) -> (step: Http3Step)
        requires
            savable(url@, old(self)@.urls.args),
        ensures
            takes(
                step,
                shown(effects@),
                final(self)@,
                old(self)@.make_handler(url@, stream_id, after, now),
            ),
    {
        match self.url_handler.handler_type() {
            StreamHandlerType::Download => {
                let ghost before = shown(effects@);
                let mut effects = effects;
                match self.url_handler.output_file(url) {
                    OutputPlan::Nowhere => self.download(stream_id, None, after, effects),
                    OutputPlan::Duplicate(path) => {
                        let ghost first = seq![EffectView::Warn(duplicate_line(path@))];
                        emit(&mut effects, Effect::Warn(duplicate_line_text(path.as_str())));
                        let step = self.download(stream_id, None, after, effects);
                        proof {
                            assert(shown(effects@) =~= before + first);
                            lemma_following(
                                step,
                                before,
                                first,
                                self@,
                                old(self)@.downloads(stream_id, None, after),
                            );
                        }
                        step
                    },
                    OutputPlan::Open(path) => {
                        let ghost first = seq![
                            EffectView::Saving { url: url@.text, path: path@ },
                        ];
                        emit(
                            &mut effects,
                            Effect::Saving { url: url.text.clone(), path: path.clone() },
                        );
                        let request = Http3Request::Open { stream_id, path: path.clone() };
                        let ghost asked = request@;
                        let phase = Phase::Opening { stream_id, path, after };
                        let ghost entered = phase@;
                        let step = self.ask(phase, request, effects);
                        proof {
                            assert(shown(effects@) =~= before + first);
                            lemma_following(
                                step,
                                before,
                                first,
                                self@,
                                old(self)@.asks(entered, asked),
                            );
                        }
                        step
                    },
                }
            },
            StreamHandlerType::Upload => {
                let upload = UploadStreamHandler::new(self.url_handler.upload_size(), now);
                self.url_handler.add_stream(stream_id, StreamHandler::Upload(upload));
                self.process_urls(after, effects)
            },
        }
    }

    /// Deals with the outcome of a request.
    fn next_url(
        &mut self,
        url: Url,
        after: After,
        outcome: Result<u64, Http3Error>,
        now: u64,
    ) -> (step: Http3Step)
        requires
            savable(url@, old(self)@.urls.args),
        ensures
            takes(
                step,
                Seq::empty(),
                final(self)@,
                old(self)@.next_url(url@, after, outcome, now),
            ),
    {
        let mut effects: Vec<Effect> = Vec::new();
        proof {
            assert(shown(effects@) =~= Seq::<EffectView>::empty());
        }
        match outcome {
            Ok(stream_id) => {
                let ghost first = seq![EffectView::Print(fetched_line(stream_id, url@.text))];
                emit(
                    &mut effects,
                    Effect::Print(fetched_line_text(stream_id, url.text.as_str())),
                );
                let step = self.make_handler(&url, stream_id, after, now, effects);
                proof {
                    assert(shown(effects@) =~= Seq::empty() + first);
                    lemma_following(
                        step,
                        Seq::empty(),
                        first,
                        self@,
                        old(self)@.make_handler(url@, stream_id, after, now),
                    );
                }
                step
            },
            Err(e) => match e {
                Http3Error::TransportError(TransportError::StreamLimitError)
                | Http3Error::StreamLimitError
                | Http3Error::Unavailable => {
                    self.url_handler.put_back(url);
                    self.go_on(after, effects)
                },
                _ => self.ask(
                    Phase::Idle,
                    Http3Request::Abort(Abort::CannotFetch(e)),
                    effects,
                ),
            },
        }
    }

    /// Reads on after `sz` bytes.
    fn read_on(&mut self, stream_id: u64, fin: bool, sz: usize, effects: Vec<Effect>) -> (step:
        Http3Step)
        ensures
            takes(step, shown(effects@), final(self)@, old(self)@.reads_on(stream_id, fin, sz)),
    {
        if fin {
            self.on_stream_fin(stream_id, effects)
        } else if sz == 0 {
            self.poll(effects)
        } else {
            self.ask(Phase::Reading { stream_id }, Http3Request::Read { stream_id }, effects)
        }
    }

    /// Sends the next chunk of an upload, if there is one.
    fn process_data_writable(&mut self, stream_id: u64, effects: Vec<Effect>) -> (step: Http3Step)
        requires
            old(self)@.urls.streams.contains_key(stream_id),
        ensures
            takes(
                step,
                shown(effects@),
                final(self)@,
                old(self)@.process_data_writable(stream_id),
            ),
    {
        let chunk = match self.url_handler.stream_handler(stream_id) {
            Some(StreamHandler::Upload(u)) => u.next_chunk(),
            _ => None,
        };
        match chunk {
            Some(data) => self.ask(
                Phase::Sending { stream_id },
                Http3Request::Send { stream_id, data },
                effects,
            ),
            None => self.leave(Ok(true), effects),
        }
    }

    /// Takes the phase out.
    fn take_phase(&mut self) -> (phase: Phase)
        ensures
            phase == old(self).phase,
            final(self)@ == old(self)@.entering(PhaseView::Idle),
    {
        let mut phase = Phase::Idle;
        std::mem::swap(&mut self.phase, &mut phase);
        phase
    }

    /// Deals with what has happened on the connection.
    pub fn handle(&mut self) -> (step: Http3Step)
        requires
            old(self)@.wf(),
            old(self)@.awaits(Http3Input::Handle),
        ensures
            takes(step, Seq::empty(), final(self)@, old(self)@.next(Http3Input::Handle)),
            final(self)@.wf(),
    {
        let effects: Vec<Effect> = Vec::new();
        proof {
            assert(shown(effects@) =~= Seq::<EffectView>::empty());
        }
        self.poll(effects)
    }

    /// Updates the keys if that is needed, and makes requests.
    pub fn maybe_key_update(&mut self) -> (step: Http3Step)
        requires
            old(self)@.wf(),
            old(self)@.awaits(Http3Input::KeyUpdate),
        ensures
            takes(step, Seq::empty(), final(self)@, old(self)@.next(Http3Input::KeyUpdate)),
            final(self)@.wf(),
    {
        let effects: Vec<Effect> = Vec::new();
        proof {
            assert(shown(effects@) =~= Seq::<EffectView>::empty());
            law_invariant_kept(self@, Http3Input::KeyUpdate);
        }
        if self.key_update.needed() {
            self.ask(Phase::Updating, Http3Request::UpdateKeys, effects)
        } else {
            self.process_urls(After::KeyUpdate, effects)
        }
    }

    /// Deals with the next event, if there is one.
    pub fn on_event(&mut self, event: Option<Http3Event<T>>) -> (step: Http3Step)
        requires
            old(self)@.wf(),
            old(self)@.awaits(Http3Input::Event(event_view(event))),
        ensures
            takes(
                step,
                Seq::empty(),
                final(self)@,
                old(self)@.next(Http3Input::Event(event_view(event))),
            ),
            final(self)@.wf(),
    {
        let mut effects: Vec<Effect> = Vec::new();
        let ghost none = Seq::<EffectView>::empty();
        proof {
            assert(shown(effects@) =~= none);
            law_invariant_kept(self@, Http3Input::Event(event_view(event)));
        }
        match event {
            None => self.leave(Ok(true), effects),
            Some(event) => match event {
                Http3Event::AuthenticationNeeded => self.poll_after(Effect::Authenticate),
                Http3Event::HeaderReady { stream_id, headers, fin } => {
                    let ghost told = headers_told(
                        self@.urls.streams[stream_id],
                        stream_id,
                        fin,
                        headers@,
                    );
                    match self.url_handler.stream_handler(stream_id) {
                        Some(handler) => {
                            handler.process_header_ready(
                                stream_id,
                                fin,
                                headers.as_str(),
                                &mut effects,
                            );
                        },
                        None => {
                            return self.unexpected(stream_id);
                        },
                    }
                    if fin {
                        let step = self.on_stream_fin(stream_id, effects);
                        proof {
                            lemma_following(
                                step,
                                none,
                                told,
                                self@,
                                old(self)@.on_stream_fin(stream_id),
                            );
                        }
                        step
                    } else {
                        let step = self.poll(effects);
                        proof {
                            lemma_following(step, none, told, self@, old(self)@.polls());
                        }
                        step
                    }
                },
                Http3Event::DataReadable { stream_id } => {
                    if self.url_handler.stream_handler(stream_id).is_none() {
                        return self.unexpected(stream_id);
                    }
                    self.ask(
                        Phase::Reading { stream_id },
                        Http3Request::Read { stream_id },
                        effects,
                    )
                },
                Http3Event::DataWritable { stream_id } => {
                    if self.url_handler.stream_handler(stream_id).is_none() {
                        return self.unexpected(stream_id);
                    }
                    self.process_data_writable(stream_id, effects)
                },
                Http3Event::Connected | Http3Event::RequestsCreatable => self.process_urls(
                    After::NextEvent,
                    effects,
                ),
                Http3Event::ResumptionToken(t) => {
                    self.token = Some(t);
                    self.poll(effects)
                },
                Http3Event::Other(text) => self.poll_after(Effect::Print(unhandled_line_text(text.as_str()))),
            },
        }
    }

    /// Deals with the outcome of a request.
    pub fn on_fetched(&mut self, outcome: Result<u64, Http3Error>, now: u64) -> (step: Http3Step)
        requires
            old(self)@.wf(),
            old(self)@.awaits(Http3Input::Fetched { outcome, now }),
        ensures
            takes(
                step,
                Seq::empty(),
                final(self)@,
                old(self)@.next(Http3Input::Fetched { outcome, now }),
            ),
            final(self)@.wf(),
    {
        proof {
            law_invariant_kept(self@, Http3Input::Fetched { outcome, now });
        }
        match self.take_phase() {
            Phase::Fetching { url, after } => {
                self.next_url(url, after, outcome, now)
            },
            _ => self.leave(Ok(true), Vec::new()),
        }
    }

    /// Deals with whether a file was created.
    pub fn on_opened(&mut self, created: bool) -> (step: Http3Step)
        requires
            old(self)@.wf(),
            old(self)@.awaits(Http3Input::Opened(created)),
        ensures
            takes(step, Seq::empty(), final(self)@, old(self)@.next(Http3Input::Opened(created))),
            final(self)@.wf(),
    {
        let effects: Vec<Effect> = Vec::new();
        proof {
            assert(shown(effects@) =~= Seq::<EffectView>::empty());
            law_invariant_kept(self@, Http3Input::Opened(created));
        }
        match self.take_phase() {
            Phase::Opening { stream_id, path, after } => {
                if created {
                    self.url_handler.add_path(path.clone());
                    self.download(stream_id, Some(path), after, effects)
                } else {
                    self.download(stream_id, None, after, effects)
                }
            },
            _ => self.leave(Ok(true), effects),
        }
    }

    /// Deals with data from a stream.
    pub fn on_data(&mut self, data: Vec<u8>, sz: usize, fin: bool, now: u64) -> (step: Http3Step)
        requires
            old(self)@.wf(),
            old(self)@.awaits(Http3Input::Data { data: data@, sz, fin, now }),
        ensures
            takes(
                step,
                Seq::empty(),
                final(self)@,
                old(self)@.next(Http3Input::Data { data: data@, sz, fin, now }),
            ),
            final(self)@.wf(),
    {
        let mut effects: Vec<Effect> = Vec::new();
        let ghost none = Seq::<EffectView>::empty();
        proof {
            assert(shown(effects@) =~= none);
            law_invariant_kept(self@, Http3Input::Data { data: data@, sz, fin, now });
        }
        match self.phase {
            Phase::Reading { stream_id } => {
                let ghost handler = self@.urls.streams[stream_id];
                let ghost told = data_told(
                    handler,
                    stream_id,
                    fin,
                    data@,
                    sz,
                    self.output_read_data,
                    now,
                );
                let left = match self.url_handler.stream_handler(stream_id) {
                    Some(handler) => handler.process_data_readable(
                        stream_id,
                        fin,
                        &data,
                        sz,
                        self.output_read_data,
                        now,
                        &mut effects,
                    ),
                    None => Readable::Done,
                };
                let ghost turn = match left@ {
                    ReadableView::Done => self@.reads_on(stream_id, fin, sz),
                    ReadableView::Write(part) => self@.asks(
                        PhaseView::Writing { stream_id, fin, sz },
                        Http3RequestView::Write { stream_id, data: part },
                    ),
                    ReadableView::Abort(abort) => self@.aborts(abort),
                };
                let step = match left {
                    Readable::Done => self.read_on(stream_id, fin, sz, effects),
                    Readable::Write(part) => self.ask(
                        Phase::Writing { stream_id, fin, sz },
                        Http3Request::Write { stream_id, data: part },
                        effects,
                    ),
                    Readable::Abort(abort) => self.ask(
                        Phase::Idle,
                        Http3Request::Abort(abort),
                        effects,
                    ),
                };
                proof {
                    lemma_following(step, none, told, self@, turn);
                }
                step
            },
            _ => self.leave(Ok(true), effects),
        }
    }

    /// Deals with whether data was written.
    pub fn on_written(&mut self, outcome: Result<(), IoError>) -> (step: Http3Step)
        requires
            old(self)@.wf(),
            old(self)@.awaits(Http3Input::Written(outcome)),
        ensures
            takes(step, Seq::empty(), final(self)@, old(self)@.next(Http3Input::Written(outcome))),
            final(self)@.wf(),
    {
        let effects: Vec<Effect> = Vec::new();
        proof {
            assert(shown(effects@) =~= Seq::<EffectView>::empty());
            law_invariant_kept(self@, Http3Input::Written(outcome));
        }
        match outcome {
            Ok(()) => match self.phase {
                Phase::Writing { stream_id, fin, sz } => {
                    self.read_on(stream_id, fin, sz, effects)
                },
                _ => self.leave(Ok(true), effects),
            },
            Err(e) => self.leave(Err(ClientError::from(e)), effects),
        }
    }

    /// Deals with how much of an upload was taken, if anything could be.
    pub fn on_sent(&mut self, outcome: Option<usize>) -> (step: Http3Step)
        requires
            old(self)@.wf(),
            old(self)@.awaits(Http3Input::Sent(outcome)),
        ensures
            takes(step, Seq::empty(), final(self)@, old(self)@.next(Http3Input::Sent(outcome))),
            final(self)@.wf(),
    {
        let mut effects: Vec<Effect> = Vec::new();
        let ghost none = Seq::<EffectView>::empty();
        proof {
            assert(shown(effects@) =~= none);
            law_invariant_kept(self@, Http3Input::Sent(outcome));
        }
        let amount = match outcome {
            Some(amount) => amount,
            None => 0,
        };
        if amount == 0 {
            return self.leave(Ok(true), effects);
        }
        match self.phase {
            Phase::Sending { stream_id } => {
                match self.url_handler.take_stream(stream_id) {
                    Some(StreamHandler::Upload(mut upload)) => {
                        let close = upload.advance(amount);
                        let ghost v = upload@;
                        self.url_handler.add_stream(stream_id, StreamHandler::Upload(upload));
                        let ghost added = self@;
                        proof {
                            assert(added.urls =~= old(self)@.urls.with_stream(
                                stream_id,
                                StreamHandlerView::Upload(v),
                            ));
                        }
                        if close {
                            let ghost first = seq![EffectView::CloseSend(stream_id)];
                            emit(&mut effects, Effect::CloseSend(stream_id));
                            let step = self.process_data_writable(stream_id, effects);
                            proof {
                                assert(shown(effects@) =~= none + first);
                                lemma_following(
                                    step,
                                    none,
                                    first,
                                    self@,
                                    added.process_data_writable(stream_id),
                                );
                            }
                            step
                        } else {
                            self.process_data_writable(stream_id, effects)
                        }
                    },
                    _ => self.leave(Ok(true), effects),
                }
            },
            _ => self.leave(Ok(true), effects),
        }
    }

    /// Deals with the outcome of an attempt at a key update.
    pub fn on_key_update(&mut self, outcome: Result<(), Http3Error>) -> (step: Http3Step)
        requires
            old(self)@.wf(),
            old(self)@.awaits(Http3Input::KeysUpdated(outcome)),
        ensures
            takes(
                step,
                Seq::empty(),
                final(self)@,
                old(self)@.next(Http3Input::KeysUpdated(outcome)),
            ),
            final(self)@.wf(),
    {
        let mut effects: Vec<Effect> = Vec::new();
        let ghost none = Seq::<EffectView>::empty();
        proof {
            assert(shown(effects@) =~= none);
            law_invariant_kept(self@, Http3Input::KeysUpdated(outcome));
        }
        let told = match outcome {
            Ok(()) => Ok(()),
            Err(e) => Err(ClientError::from(e)),
        };
        match self.key_update.settle(told) {
            Ok(()) => {
                if self.key_update.needed() {
                    self.process_urls(After::KeyUpdate, effects)
                } else {
                    let ghost first = seq![EffectView::Print(keys_updated())];
                    let ghost settled = self@;
                    emit(&mut effects, Effect::Print(keys_updated_text()));
                    let step = self.process_urls(After::KeyUpdate, effects);
                    proof {
                        assert(shown(effects@) =~= none + first);
                        lemma_following(
                            step,
                            none,
                            first,
                            self@,
                            settled.process_urls(After::KeyUpdate),
                        );
                    }
                    step
                }
            },
            Err(e) => self.leave(Err(e), effects),
        }
    }
}

/// What is true of a handler at all times stays true, whatever it is told.
pub proof fn law_invariant_kept<T>(state: HandlerView<T>, input: Http3Input<T>)
    requires
        state.wf(),
        state.awaits(input),
    ensures
        state.next(input).state.wf(),
{
}

/// The view of an event, if there is one.
pub open spec fn event_view<T>(event: Option<Http3Event<T>>) -> Option<Http3EventView<T>> {
    match event {
        Some(e) => Some(e@),
        None => None,
    }
}

} // verus!