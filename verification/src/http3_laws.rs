//! What holds of an HTTP/3 client over a whole connection.

use crate::effect::{goodbye, EffectView};
use crate::error::{ClientError, Http3Error, TransportError};
use crate::files::{all_apart, output_plan, taken, OutputPlanView};
use crate::http3::{
    law_invariant_kept, request_refused, After, HandlerView, Http3EventView, Http3Input,
    Http3RequestView, PhaseView, Turn,
};
use crate::lines::{duplicate_line, fetched_line, keys_updated};
use crate::path::within;
use crate::stream::{
    advanced, all_sent, data_left, data_told, headers_told, law_upload_in_order, new_upload,
    next_chunk, ReadableView, StreamHandlerType, StreamHandlerView, UploadView,
};
use crate::urls::UrlView;
use vstd::prelude::*;

verus! {

impl<T> HandlerView<T> {
    /// The handler after an input.
    #[verifier::opaque]
    pub open spec fn told(self, input: Http3Input<T>) -> Self {
        self.next(input).state
    }

    /// The handler after a row of inputs.
    pub open spec fn after(self, inputs: Seq<Http3Input<T>>) -> Self
        decreases inputs.len(),
    {
        if inputs.len() == 0 {
            self
        } else {
            self.after(inputs.drop_last()).told(inputs.last())
        }
    }

    /// Whether each of a row of inputs is awaited when it comes.
    pub open spec fn awaits_all(self, inputs: Seq<Http3Input<T>>) -> bool
        decreases inputs.len(),
    {
        inputs.len() > 0 ==> {
            &&& self.awaits_all(inputs.drop_last())
            &&& self.after(inputs.drop_last()).awaits(inputs.last())
        }
    }

    /// The URLs for which no request has been made yet, in order.
    pub open spec fn unrequested(self) -> Seq<UrlView> {
        match self.phase {
            PhaseView::Fetching { url, .. } => seq![url] + self.urls.queue,
            _ => self.urls.queue,
        }
    }

    /// The URL for which an input says that a request was made, if it does.
    pub open spec fn requests(self, input: Http3Input<T>) -> Seq<UrlView> {
        match (input, self.phase) {
            (Http3Input::Fetched { outcome: Ok(_), .. }, PhaseView::Fetching { url, .. }) => {
                seq![url]
            },
            _ => Seq::empty(),
        }
    }

    /// The URLs for which requests were made during a row of inputs, in order.
    pub open spec fn requests_all(self, inputs: Seq<Http3Input<T>>) -> Seq<UrlView>
        decreases inputs.len(),
    {
        if inputs.len() == 0 {
            Seq::empty()
        } else {
            self.requests_all(inputs.drop_last()) + self.after(inputs.drop_last()).requests(
                inputs.last(),
            )
        }
    }
}

/// Whether an input says that a request cannot be made at all.
pub open spec fn fetch_failed<T>(input: Http3Input<T>) -> bool {
    input matches Http3Input::Fetched { outcome: Err(e), .. } && !request_refused(e)
}

/// What an input leaves as it was.
proof fn lemma_told<T>(state: HandlerView<T>, input: Http3Input<T>)
    requires
        state.wf(),
        state.awaits(input),
    ensures
        state.told(input).wf(),
        state.told(input).urls.args == state.urls.args,
        state.urls.paths.is_prefix_of(state.told(input).urls.paths),
        !state.key_update ==> !state.told(input).key_update,
{
    reveal(HandlerView::told);
    law_invariant_kept(state, input);
}

/// Never are more requests outstanding than allowed, and no two files are at the same place,
/// however long a connection lasts and whatever happens on it.
pub proof fn law_limits_kept<T>(start: HandlerView<T>, inputs: Seq<Http3Input<T>>)
    requires
        start.wf(),
        start.awaits_all(inputs),
    ensures
        start.after(inputs).wf(),
        start.after(inputs).urls.args == start.urls.args,
        start.after(inputs).urls.outstanding() <= start.urls.args.concurrency,
        all_apart(start.after(inputs).urls.paths),
    decreases inputs.len(),
{
    if inputs.len() > 0 {
        law_limits_kept(start, inputs.drop_last());
        lemma_told(start.after(inputs.drop_last()), inputs.last());
    }
}

/// One input makes the request for the first URL that waits for one, or for none.
proof fn lemma_requests_first<T>(state: HandlerView<T>, input: Http3Input<T>)
    requires
        state.awaits(input),
        !fetch_failed(input),
    ensures
        state.requests(input) + state.told(input).unrequested() == state.unrequested(),
{
    reveal(HandlerView::told);
    let next = state.told(input);
    let made = state.requests(input);
    if state.urls.queue.len() > 0 {
        assert(seq![state.urls.queue[0]] + state.urls.queue.skip(1) =~= state.urls.queue);
    }
    assert(made + next.unrequested() =~= state.unrequested());
}

/// Requests are made in the order of the URLs: whatever happens on a connection, the URLs for
/// which requests were made and those that still wait for one are the URLs that waited at its
/// start. None is lost and none is requested twice. A request that has to wait is made again
/// later; one that cannot be made at all ends the client.
pub proof fn law_urls_in_order<T>(start: HandlerView<T>, inputs: Seq<Http3Input<T>>)
    requires
        start.awaits_all(inputs),
        forall|i: int| 0 <= i < inputs.len() ==> !fetch_failed(#[trigger] inputs[i]),
    ensures
        start.requests_all(inputs) + start.after(inputs).unrequested() == start.unrequested(),
    decreases inputs.len(),
{
    if inputs.len() > 0 {
        let before = inputs.drop_last();
        assert forall|i: int| 0 <= i < before.len() implies !fetch_failed(
            #[trigger] before[i],
        ) by {
            assert(before[i] == inputs[i]);
        }
        law_urls_in_order(start, before);
        let state = start.after(before);
        lemma_requests_first(state, inputs.last());
        assert(start.requests_all(inputs) + start.after(inputs).unrequested()
            =~= start.requests_all(before) + (state.requests(inputs.last()) + start.after(
            inputs,
        ).unrequested()));
    } else {
        assert(start.requests_all(inputs) + start.after(inputs).unrequested()
            =~= start.unrequested());
    }
}

/// A request that has to wait leaves the URLs as they were: the one it was for is still first.
pub proof fn law_refused_request_waits<T>(
    state: HandlerView<T>,
    e: Http3Error,
    now: u64,
)
    requires
        state.phase is Fetching,
        request_refused(e),
    ensures
        ({
            let next = state.next(Http3Input::Fetched { outcome: Err(e), now }).state;
            &&& next.phase !is Fetching
            &&& next.urls.queue == state.unrequested()
            &&& next.urls.streams == state.urls.streams
        }),
{
}

/// Whether closing the connection is among effects.
pub open spec fn closes(effects: Seq<EffectView>) -> bool {
    exists|i: int| 0 <= i < effects.len() && (#[trigger] effects[i]) is Close
}

/// Effects of which none closes the connection, before others.
proof fn lemma_closes_following(before: Seq<EffectView>, effects: Seq<EffectView>)
    requires
        !closes(before),
    ensures
        closes(before + effects) <==> closes(effects),
{
    if closes(before + effects) {
        let i = choose|i: int|
            0 <= i < (before + effects).len() && (#[trigger] (before + effects)[i]) is Close;
        if i < before.len() {
            assert(before[i] is Close);
        }
        assert(effects[i - before.len()] is Close);
    }
    if closes(effects) {
        let i = choose|i: int| 0 <= i < effects.len() && (#[trigger] effects[i]) is Close;
        assert((before + effects)[i + before.len()] is Close);
    }
}

impl<T> HandlerView<T> {
    /// Whether nothing is left to request or to wait for, and nothing is being requested.
    pub open spec fn finished(self) -> bool {
        self.urls.done() && self.phase !is Fetching && self.phase !is Opening
    }

    /// Whether an input tells of a stream that nobody asked for.
    pub open spec fn unknown_stream(self, input: Http3Input<T>) -> bool {
        match input {
            Http3Input::Event(Some(Http3EventView::HeaderReady { stream_id, .. })) => {
                !self.urls.streams.contains_key(stream_id)
            },
            Http3Input::Event(Some(Http3EventView::DataReadable { stream_id })) => {
                !self.urls.streams.contains_key(stream_id)
            },
            Http3Input::Event(Some(Http3EventView::DataWritable { stream_id })) => {
                !self.urls.streams.contains_key(stream_id)
            },
            _ => false,
        }
    }

    /// What a turn says of the end of the connection: it is closed if and only if the turn
    /// finishes everything, and then nothing more is done.
    spec fn closes_rightly(self, turn: Turn<T>) -> bool {
        &&& closes(turn.effects) ==> turn.state.finished() && turn.request
            == Http3RequestView::Return(Ok(false))
        &&& turn.state.finished() && !self.finished() && turn.request !is Abort ==> closes(
            turn.effects,
        )
        &&& turn.request == Http3RequestView::Return(Ok(false)) ==> closes(turn.effects)
    }
}

/// A turn closes the connection rightly also with effects before its own that do not close it.
proof fn lemma_following_closes<T>(
    state: HandlerView<T>,
    turn: Turn<T>,
    before: Seq<EffectView>,
)
    requires
        state.closes_rightly(turn),
        !closes(before),
    ensures
        state.closes_rightly(turn.following(before)),
{
    lemma_closes_following(before, turn.effects);
}

/// The connection is closed when a client that has not finished finishes, and only then. Nothing
/// more is done on it after that. Else the client ends only when something comes on a stream that
/// nobody asked for.
pub proof fn law_closed_when_finished<T>(state: HandlerView<T>, input: Http3Input<T>)
    requires
        state.wf(),
        state.awaits(input),
    ensures
        ({
            let turn = state.next(input);
            &&& closes(turn.effects) ==> turn.state.finished() && turn.request
                == Http3RequestView::Return(Ok(false))
            &&& turn.state.finished() && !state.finished() && turn.request !is Abort ==> closes(
                turn.effects,
            )
            &&& turn.request == Http3RequestView::Return(Ok(false)) ==> closes(turn.effects)
                || state.unknown_stream(input)
        }),
{
    let turn = state.next(input);
    assert(!closes(Seq::<EffectView>::empty()));
    assert(closes(seq![goodbye()])) by {
        assert(seq![goodbye()][0] is Close);
    }
    assert(Seq::<EffectView>::empty() + seq![goodbye()] =~= seq![goodbye()]);
    assert(seq![goodbye()] + Seq::<EffectView>::empty() =~= seq![goodbye()]);
    match (input, state.phase) {
        (Http3Input::Event(Some(event)), _) => {
            match event {
                Http3EventView::HeaderReady { stream_id, headers, fin } => {
                    if state.urls.streams.contains_key(stream_id) {
                        let told = headers_told(
                            state.urls.streams[stream_id],
                            stream_id,
                            fin,
                            headers,
                        );
                        assert(!closes(told));
                        if fin {
                            lemma_following_closes(state, state.on_stream_fin(stream_id), told);
                        } else {
                            lemma_following_closes(state, state.polls(), told);
                        }
                    } else {
                        assert(!closes(turn.effects));
                    }
                },
                Http3EventView::Connected | Http3EventView::RequestsCreatable => {},
                _ => {
                    assert(!closes(turn.effects));
                },
            }
        },
        (Http3Input::Fetched { outcome: Ok(stream_id), now }, PhaseView::Fetching { url, after }) => {
            let told = seq![EffectView::Print(fetched_line(stream_id, url.text))];
            lemma_made_closes(state, url, stream_id, after, now);
            lemma_following_closes(state, state.make_handler(url, stream_id, after, now), told);
        },
        (Http3Input::Opened(true), PhaseView::Opening { stream_id, path, after }) => {
            let with = HandlerView { urls: state.urls.with_path(path), ..state };
            lemma_downloads_closes(with, stream_id, Some(path), after);
        },
        (Http3Input::Opened(false), PhaseView::Opening { stream_id, path, after }) => {
            lemma_downloads_closes(state, stream_id, None, after);
        },
        (Http3Input::Data { data, sz, fin, now }, PhaseView::Reading { stream_id }) => {
            let handler = state.urls.streams[stream_id];
            let told = data_told(handler, stream_id, fin, data, sz, state.output_read_data, now);
            assert(!closes(told));
            lemma_closes_following(
                told,
                match data_left(handler, stream_id, data, sz) {
                    ReadableView::Done => state.reads_on(stream_id, fin, sz).effects,
                    _ => Seq::empty(),
                },
            );
        },
        (Http3Input::KeysUpdated(outcome), _) => {
            assert(!closes(seq![EffectView::Print(keys_updated())]));
            assert(!closes(turn.effects));
        },
        (Http3Input::Sent(outcome), _) => {
            assert(!closes(turn.effects));
        },
        _ => {},
    }
}

/// Starting to fetch contents does not end anything.
proof fn lemma_downloads_closes<T>(
    state: HandlerView<T>,
    stream_id: u64,
    out_file: Option<Seq<char>>,
    after: After,
)
    requires
        state.urls.streams.dom().finite(),
    ensures
        ({
            let turn = state.downloads(stream_id, out_file, after);
            &&& !closes(turn.effects)
            &&& !turn.state.finished()
            &&& turn.request != Http3RequestView::Return(Ok(false))
        }),
{
    let added = HandlerView {
        urls: state.urls.with_stream(stream_id, StreamHandlerView::Download { out_file }),
        ..state
    };
    assert(added.urls.streams.dom().contains(stream_id));
    assert(added.urls.outstanding() > 0);
    assert(!closes(Seq::<EffectView>::empty()));
    assert(!closes(seq![EffectView::CloseSend(stream_id)]));
    lemma_closes_following(
        seq![EffectView::CloseSend(stream_id)],
        added.process_urls(after).effects,
    );
}

/// Making a handler for a new stream does not end anything.
proof fn lemma_made_closes<T>(
    state: HandlerView<T>,
    url: UrlView,
    stream_id: u64,
    after: After,
    now: u64,
)
    requires
        state.urls.streams.dom().finite(),
    ensures
        ({
            let turn = state.make_handler(url, stream_id, after, now);
            &&& !closes(turn.effects)
            &&& !turn.state.finished()
            &&& turn.request != Http3RequestView::Return(Ok(false))
        }),
{
    assert(!closes(Seq::<EffectView>::empty()));
    match state.urls.handler_type {
        StreamHandlerType::Download => {
            lemma_downloads_closes(state, stream_id, None, after);
            match output_plan(url.path, state.urls.args.output_dir, state.urls.paths) {
                OutputPlanView::Duplicate(path) => {
                    let told = seq![EffectView::Warn(duplicate_line(path))];
                    assert(!closes(told));
                    lemma_closes_following(
                        told,
                        state.downloads(stream_id, None, after).effects,
                    );
                },
                _ => {},
            }
        },
        StreamHandlerType::Upload => {
            let upload = new_upload(state.urls.args.upload_size, now);
            let added = state.urls.with_stream(stream_id, StreamHandlerView::Upload(upload));
            assert(added.streams.dom().contains(stream_id));
            assert(added.outstanding() > 0);
        },
    }
}

/// The places of files that were created stay in use.
proof fn lemma_paths_grow<T>(start: HandlerView<T>, inputs: Seq<Http3Input<T>>)
    requires
        start.wf(),
        start.awaits_all(inputs),
    ensures
        start.urls.paths.is_prefix_of(start.after(inputs).urls.paths),
    decreases inputs.len(),
{
    if inputs.len() > 0 {
        lemma_paths_grow(start, inputs.drop_last());
        law_limits_kept(start, inputs.drop_last());
        lemma_told(start.after(inputs.drop_last()), inputs.last());
    }
}

/// A file is created only where no file was created before on the connection, and the places of
/// files that were created stay in use.
pub proof fn law_files_stay_apart<T>(
    start: HandlerView<T>,
    inputs: Seq<Http3Input<T>>,
    input: Http3Input<T>,
)
    requires
        start.wf(),
        start.awaits_all(inputs),
        start.after(inputs).awaits(input),
    ensures
        start.urls.paths.is_prefix_of(start.after(inputs).urls.paths),
        start.after(inputs).next(input).request matches Http3RequestView::Open { path, .. }
            ==> !taken(start.after(inputs).urls.paths, path),
{
    lemma_paths_grow(start, inputs);
    law_limits_kept(start, inputs);
    lemma_opens(start.after(inputs), input);
}

/// A file is created only where no file was created before.
proof fn lemma_opens<T>(state: HandlerView<T>, input: Http3Input<T>)
    requires
        state.awaits(input),
    ensures
        state.next(input).request matches Http3RequestView::Open { path, .. } ==> !taken(
            state.urls.paths,
            path,
        ),
{
}

impl<T> HandlerView<T> {
    /// What an input brings on a stream whose contents are saved.
    pub open spec fn reads(self, input: Http3Input<T>, id: u64) -> Seq<u8> {
        match (input, self.phase) {
            (Http3Input::Data { data, sz, .. }, PhaseView::Reading { stream_id }) => {
                if stream_id == id && (self.urls.streams[id] matches StreamHandlerView::Download {
                    out_file: Some(_),
                }) {
                    data.take(sz as int)
                } else {
                    Seq::empty()
                }
            },
            _ => Seq::empty(),
        }
    }

    /// What is written to the file of a stream because of an input.
    pub open spec fn writes(self, input: Http3Input<T>, id: u64) -> Seq<u8> {
        match self.next(input).request {
            Http3RequestView::Write { stream_id, data } => if stream_id == id {
                data
            } else {
                Seq::empty()
            },
            _ => Seq::empty(),
        }
    }

    /// What a row of inputs brings on a stream whose contents are saved.
    pub open spec fn reads_all(self, inputs: Seq<Http3Input<T>>, id: u64) -> Seq<u8>
        decreases inputs.len(),
    {
        if inputs.len() == 0 {
            Seq::empty()
        } else {
            self.reads_all(inputs.drop_last(), id) + self.after(inputs.drop_last()).reads(
                inputs.last(),
                id,
            )
        }
    }

    /// What is written to the file of a stream because of a row of inputs.
    pub open spec fn writes_all(self, inputs: Seq<Http3Input<T>>, id: u64) -> Seq<u8>
        decreases inputs.len(),
    {
        if inputs.len() == 0 {
            Seq::empty()
        } else {
            self.writes_all(inputs.drop_last(), id) + self.after(inputs.drop_last()).writes(
                inputs.last(),
                id,
            )
        }
    }
}

/// The contents of fetched URLs are saved: what is written to the file of a stream is what comes
/// on the stream, all of it and in order.
pub proof fn law_contents_saved<T>(start: HandlerView<T>, inputs: Seq<Http3Input<T>>, id: u64)
    requires
        start.awaits_all(inputs),
    ensures
        start.writes_all(inputs, id) == start.reads_all(inputs, id),
    decreases inputs.len(),
{
    if inputs.len() > 0 {
        let state = start.after(inputs.drop_last());
        law_contents_saved(start, inputs.drop_last(), id);
        assert(state.writes(inputs.last(), id) =~= state.reads(inputs.last(), id));
    }
}

/// Once the keys are updated, or if they need not be, they stay so.
proof fn lemma_keys_stay_updated<T>(start: HandlerView<T>, inputs: Seq<Http3Input<T>>)
    requires
        start.wf(),
        !start.key_update,
        start.awaits_all(inputs),
    ensures
        !start.after(inputs).key_update,
    decreases inputs.len(),
{
    if inputs.len() > 0 {
        lemma_keys_stay_updated(start, inputs.drop_last());
        law_limits_kept(start, inputs.drop_last());
        lemma_told(start.after(inputs.drop_last()), inputs.last());
    }
}

/// Once the keys are updated, or if they need not be, no key update is started.
pub proof fn law_keys_updated_once<T>(
    start: HandlerView<T>,
    inputs: Seq<Http3Input<T>>,
    input: Http3Input<T>,
)
    requires
        start.wf(),
        !start.key_update,
        start.awaits_all(inputs),
        start.after(inputs).awaits(input),
    ensures
        !start.after(inputs).key_update,
        start.after(inputs).next(input).request !is UpdateKeys,
{
    lemma_keys_stay_updated(start, inputs);
    law_limits_kept(start, inputs);
    lemma_updates_keys(start.after(inputs), input);
}

/// A key update is started only where one is needed.
proof fn lemma_updates_keys<T>(state: HandlerView<T>, input: Http3Input<T>)
    requires
        state.awaits(input),
    ensures
        state.next(input).request is UpdateKeys ==> state.key_update,
{
}

/// A key update that has to wait is no failure and is tried again; one that was started is told
/// of and is not tried again; any other outcome is a failure.
pub proof fn law_key_update_settled<T>(state: HandlerView<T>, outcome: Result<(), Http3Error>)
    requires
        state.phase is Updating,
    ensures
        ({
            let turn = state.next(Http3Input::KeysUpdated(outcome));
            let blocked = Http3Error::TransportError(TransportError::KeyUpdateBlocked);
            match outcome {
                Ok(()) => {
                    &&& !turn.state.key_update
                    &&& turn.effects.len() > 0
                    &&& turn.effects[0] == EffectView::Print(keys_updated())
                },
                Err(e) => if e == blocked {
                    &&& turn.state.key_update
                    &&& turn.request !is Return || turn.request == Http3RequestView::Return(
                        Ok(true),
                    )
                } else {
                    turn.request == Http3RequestView::Return(Err(ClientError::Http3Error(e)))
                },
            }
        }),
{
}

impl<T> HandlerView<T> {
    /// The upload on a stream, if there is one.
    pub open spec fn upload(self, id: u64) -> Option<UploadView> {
        if self.urls.streams.contains_key(id) {
            match self.urls.streams[id] {
                StreamHandlerView::Upload(u) => Some(u),
                StreamHandlerView::Download { .. } => None,
            }
        } else {
            None
        }
    }

    /// What the transport takes of an upload with an input.
    pub open spec fn uploads(self, input: Http3Input<T>, id: u64) -> Seq<u8> {
        match (input, self.phase) {
            (Http3Input::Sent(Some(amount)), PhaseView::Sending { stream_id }) => {
                if stream_id == id {
                    self.offered(id).take(amount as int)
                } else {
                    Seq::empty()
                }
            },
            _ => Seq::empty(),
        }
    }

    /// What of an upload is offered to the transport next.
    pub open spec fn offered(self, id: u64) -> Seq<u8> {
        match self.upload(id) {
            Some(u) => match next_chunk(u) {
                Some(chunk) => chunk,
                None => Seq::empty(),
            },
            None => Seq::empty(),
        }
    }

    /// What the transport takes of an upload during a row of inputs.
    pub open spec fn uploads_all(self, inputs: Seq<Http3Input<T>>, id: u64) -> Seq<u8>
        decreases inputs.len(),
    {
        if inputs.len() == 0 {
            Seq::empty()
        } else {
            self.uploads_all(inputs.drop_last(), id) + self.after(inputs.drop_last()).uploads(
                inputs.last(),
                id,
            )
        }
    }

    /// Whether an upload goes on throughout a row of inputs: its stream does not end, no other
    /// stream takes its place, and the transport takes no more than it is offered.
    pub open spec fn upload_lasts(self, inputs: Seq<Http3Input<T>>, id: u64) -> bool
        decreases inputs.len(),
    {
        &&& self.after(inputs).urls.streams.contains_key(id)
        &&& inputs.len() > 0 ==> {
            let state = self.after(inputs.drop_last());
            &&& self.upload_lasts(inputs.drop_last(), id)
            &&& !(inputs.last() matches Http3Input::Fetched { outcome: Ok(new), .. } && new == id)
            &&& !(state.phase matches PhaseView::Opening { stream_id, .. } && stream_id == id)
            &&& inputs.last() matches Http3Input::Sent(Some(amount))
                ==> state.phase matches PhaseView::Sending { stream_id } ==> amount
                <= state.offered(stream_id).len()
        }
    }
}

/// With an input, what has been taken of an upload grows by what is taken.
proof fn lemma_upload_grows<T>(state: HandlerView<T>, input: Http3Input<T>, id: u64)
    requires
        state.wf(),
        state.awaits(input),
        state.upload(id) matches Some(u) && u.offset <= u.data.len(),
        state.told(input).urls.streams.contains_key(id),
        !(input matches Http3Input::Fetched { outcome: Ok(new), .. } && new == id),
        !(state.phase matches PhaseView::Opening { stream_id, .. } && stream_id == id),
        input matches Http3Input::Sent(Some(amount)) ==> state.phase matches PhaseView::Sending {
            stream_id,
        } ==> amount <= state.offered(stream_id).len(),
    ensures
        ({
            let u = state.upload(id)->0;
            &&& state.told(input).upload(id) matches Some(v)
            &&& v.data == u.data
            &&& v.offset <= v.data.len()
            &&& v.data.take(v.offset as int) == u.data.take(u.offset as int) + state.uploads(
                input,
                id,
            )
        }),
{
    reveal(HandlerView::told);
    let u = state.upload(id)->0;
    let taken_now = state.uploads(input, id);
    match (input, state.phase) {
        (Http3Input::Sent(Some(amount)), PhaseView::Sending { stream_id }) => {
            if stream_id == id && amount > 0 {
                law_upload_in_order(u, amount as nat);
            } else {
                assert(taken_now =~= Seq::empty());
                assert(u.data.take(u.offset as int) + taken_now =~= u.data.take(u.offset as int));
            }
        },
        _ => {
            assert(taken_now =~= Seq::empty());
            assert(u.data.take(u.offset as int) + taken_now =~= u.data.take(u.offset as int));
        },
    }
}

/// What the transport has taken of an upload is always a prefix of the bytes that are uploaded:
/// nothing is left out, sent twice or sent out of order, in however many parts it is taken.
pub proof fn law_upload_sent_in_order<T>(
    start: HandlerView<T>,
    inputs: Seq<Http3Input<T>>,
    id: u64,
)
    requires
        start.wf(),
        start.awaits_all(inputs),
        start.upload_lasts(inputs, id),
        start.upload(id) matches Some(u) && u.offset <= u.data.len(),
    ensures
        ({
            let u = start.upload(id)->0;
            &&& start.after(inputs).upload(id) matches Some(v)
            &&& v.data == u.data
            &&& v.offset <= v.data.len()
            &&& v.data.take(v.offset as int) == u.data.take(u.offset as int) + start.uploads_all(
                inputs,
                id,
            )
        }),
    decreases inputs.len(),
{
    let u = start.upload(id)->0;
    let sent = u.data.take(u.offset as int);
    if inputs.len() > 0 {
        let before = inputs.drop_last();
        let state = start.after(before);
        law_upload_sent_in_order(start, before, id);
        law_limits_kept(start, before);
        lemma_upload_grows(state, inputs.last(), id);
        assert(sent + start.uploads_all(before, id) + state.uploads(inputs.last(), id) =~= sent
            + start.uploads_all(inputs, id));
    } else {
        assert(sent + start.uploads_all(inputs, id) =~= sent);
    }
}

/// Whether ending the sending side of a stream is among effects.
pub open spec fn ends_sending(effects: Seq<EffectView>, id: u64) -> bool {
    exists|i: int| 0 <= i < effects.len() && (#[trigger] effects[i]) == EffectView::CloseSend(id)
}

/// The sending side of an upload is ended at the moment when all of it has been taken, and what
/// is offered next is what comes after the bytes taken so far.
pub proof fn law_upload_ended_when_sent<T>(state: HandlerView<T>, amount: usize, id: u64)
    requires
        state.wf(),
        state.phase == (PhaseView::Sending { stream_id: id }),
        amount > 0,
        state.upload(id) matches Some(u) && u.offset + amount <= usize::MAX,
    ensures
        ({
            let turn = state.next(Http3Input::Sent(Some(amount)));
            &&& turn.state.upload(id) == Some(advanced(state.upload(id)->0, amount as nat))
            &&& ends_sending(turn.effects, id) <==> all_sent(turn.state.upload(id)->0)
            &&& turn.request matches Http3RequestView::Send { stream_id, data } ==> stream_id
                == id && next_chunk(turn.state.upload(id)->0) == Some(data)
        }),
{
    let turn = state.next(Http3Input::Sent(Some(amount)));
    if all_sent(turn.state.upload(id)->0) {
        assert(turn.effects[0] == EffectView::CloseSend(id));
    }
}

/// How often the sending side of a stream is ended among effects.
pub open spec fn ends_count(effects: Seq<EffectView>, id: u64) -> nat
    decreases effects.len(),
{
    if effects.len() == 0 {
        0
    } else {
        ends_count(effects.drop_last(), id) + (if effects.last() == EffectView::CloseSend(id) {
            1nat
        } else {
            0
        })
    }
}

/// Where ending the sending side of a stream is not among effects, it is ended no time.
proof fn lemma_ends_count_none(effects: Seq<EffectView>, id: u64)
    requires
        !ends_sending(effects, id),
    ensures
        ends_count(effects, id) == 0,
    decreases effects.len(),
{
    if effects.len() > 0 {
        let before = effects.drop_last();
        if ends_sending(before, id) {
            let i = choose|i: int|
                0 <= i < before.len() && (#[trigger] before[i]) == EffectView::CloseSend(id);
            assert(effects[i] == EffectView::CloseSend(id));
        }
        lemma_ends_count_none(before, id);
        assert(effects[effects.len() - 1] == effects.last());
    }
}

impl<T> HandlerView<T> {
    /// How often the sending side of a stream is ended because of an input.
    #[verifier::opaque]
    pub open spec fn ends(self, input: Http3Input<T>, id: u64) -> nat {
        ends_count(self.next(input).effects, id)
    }

    /// How often the sending side of a stream is ended because of a row of inputs.
    pub open spec fn ends_all(self, inputs: Seq<Http3Input<T>>, id: u64) -> nat
        decreases inputs.len(),
    {
        if inputs.len() == 0 {
            0
        } else {
            self.ends_all(inputs.drop_last(), id) + self.after(inputs.drop_last()).ends(
                inputs.last(),
                id,
            )
        }
    }
}

/// With an input, the sending side of an upload is ended once if that completes the upload, and
/// else not.
proof fn lemma_upload_ends<T>(state: HandlerView<T>, input: Http3Input<T>, id: u64)
    requires
        state.wf(),
        state.awaits(input),
        state.upload(id) matches Some(u) && u.offset <= u.data.len(),
        state.told(input).urls.streams.contains_key(id),
        !(input matches Http3Input::Fetched { outcome: Ok(new), .. } && new == id),
        !(state.phase matches PhaseView::Opening { stream_id, .. } && stream_id == id),
        input matches Http3Input::Sent(Some(amount)) ==> state.phase matches PhaseView::Sending {
            stream_id,
        } ==> amount <= state.offered(stream_id).len(),
    ensures
        state.ends(input, id) == (if !all_sent(state.upload(id)->0) && all_sent(
            state.told(input).upload(id)->0,
        ) {
            1nat
        } else {
            0
        }),
{
    reveal(HandlerView::told);
    reveal(HandlerView::ends);
    let turn = state.next(input);
    match (input, state.phase) {
        (Http3Input::Sent(Some(amount)), PhaseView::Sending { stream_id }) => {
            if stream_id == id && amount > 0 && all_sent(turn.state.upload(id)->0) {
                assert(turn.effects =~= seq![EffectView::CloseSend(id)]);
                reveal_with_fuel(ends_count, 2);
            } else {
                lemma_ends_count_none(turn.effects, id);
            }
        },
        _ => {
            lemma_ends_count_none(turn.effects, id);
        },
    }
}

/// The sending side of an upload is ended at most once, however long the upload lasts: with the
/// input that completes it, and never if there is nothing to send.
pub proof fn law_upload_ended_once<T>(
    start: HandlerView<T>,
    inputs: Seq<Http3Input<T>>,
    id: u64,
)
    requires
        start.wf(),
        start.awaits_all(inputs),
        start.upload_lasts(inputs, id),
        start.upload(id) matches Some(u) && u.offset <= u.data.len(),
    ensures
        start.after(inputs).upload(id) is Some,
        start.ends_all(inputs, id) == (if !all_sent(start.upload(id)->0) && all_sent(
            start.after(inputs).upload(id)->0,
        ) {
            1nat
        } else {
            0
        }),
        start.upload(id)->0.data.len() == 0 ==> start.ends_all(inputs, id) == 0,
    decreases inputs.len(),
{
    if inputs.len() > 0 {
        let before = inputs.drop_last();
        let state = start.after(before);
        law_upload_ended_once(start, before, id);
        law_upload_sent_in_order(start, before, id);
        law_limits_kept(start, before);
        lemma_upload_grows(state, inputs.last(), id);
        lemma_upload_ends(state, inputs.last(), id);
        let u = state.upload(id)->0;
        let v = state.told(inputs.last()).upload(id)->0;
        assert(v.data.take(v.offset as int).len() == u.data.take(u.offset as int).len()
            + state.uploads(inputs.last(), id).len());
        assert(u.offset <= v.offset);
    }
}

/// Once all of an upload has been taken, nothing more is sent on its stream: that the stream takes
/// data again calls for nothing.
pub proof fn law_upload_left_alone<T>(
    start: HandlerView<T>,
    inputs: Seq<Http3Input<T>>,
    input: Http3Input<T>,
    id: u64,
)
    requires
        start.wf(),
        start.awaits_all(inputs),
        start.after(inputs).upload(id) matches Some(v) && all_sent(v),
        start.after(inputs).awaits(input),
        !(input matches Http3Input::Fetched { outcome: Ok(new), .. } && new == id),
        !(start.after(inputs).phase matches PhaseView::Opening { stream_id, .. } && stream_id
            == id),
        input matches Http3Input::Sent(Some(amount)) ==> start.after(
            inputs,
        ).phase matches PhaseView::Sending { stream_id } ==> amount <= start.after(inputs).offered(
            stream_id,
        ).len(),
    ensures
        ({
            let turn = start.after(inputs).next(input);
            &&& !(turn.request matches Http3RequestView::Send { stream_id, .. } && stream_id == id)
            &&& !ends_sending(turn.effects, id)
            &&& input == Http3Input::<T>::Event(
                Some(Http3EventView::DataWritable { stream_id: id }),
            ) ==> {
                &&& turn.effects.len() == 0
                &&& turn.request == Http3RequestView::Return(Ok(true))
                &&& turn.state.urls == start.after(inputs).urls
            }
        }),
{
    law_limits_kept(start, inputs);
    lemma_left_alone(start.after(inputs), input, id);
}

/// With an input, nothing is sent on the stream of an upload that is complete.
proof fn lemma_left_alone<T>(state: HandlerView<T>, input: Http3Input<T>, id: u64)
    requires
        state.wf(),
        state.awaits(input),
        state.upload(id) matches Some(u) && all_sent(u),
        !(input matches Http3Input::Fetched { outcome: Ok(new), .. } && new == id),
        !(state.phase matches PhaseView::Opening { stream_id, .. } && stream_id == id),
        input matches Http3Input::Sent(Some(amount)) ==> state.phase matches PhaseView::Sending {
            stream_id,
        } ==> amount <= state.offered(stream_id).len(),
    ensures
        !(state.next(input).request matches Http3RequestView::Send { stream_id, .. } && stream_id
            == id),
        !ends_sending(state.next(input).effects, id),
        input == Http3Input::<T>::Event(Some(Http3EventView::DataWritable { stream_id: id })) ==> {
            &&& state.next(input).effects.len() == 0
            &&& state.next(input).request == Http3RequestView::Return(Ok(true))
            &&& state.next(input).state.urls == state.urls
        },
{
}

/// Data on a stream that nobody asked for is told of and ends the client; nothing is requested
/// and no stream is touched because of it.
pub proof fn law_unknown_stream_ends<T>(state: HandlerView<T>, input: Http3Input<T>)
    requires
        state.unknown_stream(input),
    ensures
        state.next(input).request == Http3RequestView::Return(Ok(false)),
        state.next(input).state.urls == state.urls,
        state.next(input).effects.len() == 1,
{
}

/// When the connection is up and when requests can be made again, the request for the first URL
/// that waits is made at once, unless none waits or enough are outstanding.
pub proof fn law_requests_when_possible<T>(state: HandlerView<T>, event: Http3EventView<T>)
    requires
        state.phase is Polling,
        event is Connected || event is RequestsCreatable,
    ensures
        ({
            let turn = state.next(Http3Input::Event(Some(event)));
            &&& turn.request is Fetch <==> state.urls.queue.len() > 0 && state.urls.outstanding()
                < state.urls.args.concurrency
            &&& turn.request matches Http3RequestView::Fetch { url, method, .. } ==> url
                == state.urls.queue[0] && method == state.urls.args.method
        }),
{
}

/// When a stream ends, its place goes to the first URL that waits, if one does.
pub proof fn law_stream_end_makes_room<T>(
    state: HandlerView<T>,
    stream_id: u64,
    data: Seq<u8>,
    now: u64,
)
    requires
        state.wf(),
        state.phase == (PhaseView::Reading { stream_id }),
        state.urls.streams[stream_id] == (StreamHandlerView::Download { out_file: None }),
        state.urls.queue.len() > 0,
    ensures
        state.next(Http3Input::Data { data, sz: 0, fin: true, now }).request matches
            Http3RequestView::Fetch { url, .. } && url == state.urls.queue[0],
{
    assert(state.urls.without_stream(stream_id).outstanding() == state.urls.outstanding() - 1);
}

/// Files are created within the output directory, and nowhere else.
pub proof fn law_files_within_directory<T>(state: HandlerView<T>, input: Http3Input<T>)
    requires
        state.awaits(input),
    ensures
        state.next(input).request matches Http3RequestView::Open { path, .. } ==> {
            &&& state.urls.args.output_dir matches Some(dir)
            &&& within(dir, path)
        },
{
}

/// Whatever values are given on the command line, requests are made without headers.
pub proof fn law_no_headers<T>(state: HandlerView<T>, input: Http3Input<T>)
    requires
        state.awaits(input),
    ensures
        state.next(input).request matches Http3RequestView::Fetch { headers, .. } ==> headers.len()
            == 0,
{
}

} // verus!
