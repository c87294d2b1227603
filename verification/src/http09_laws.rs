//! What holds of an HTTP/0.9 client over a whole connection.

use crate::effect::EffectView;
use crate::error::{ClientError, TransportError};
use crate::files::{all_apart, taken};
use crate::http09::{
    law_invariant_kept, request_bytes, stream_refused, ConnectionEvent, ConnectionEventView, OldInput,
    OldPhaseView, OldRequestView, OldView, StreamType,
};
use crate::lines::{created_line, keys_updated};
use crate::path::within;
use crate::stream::StreamHandlerView;
use crate::urls::UrlView;
use vstd::prelude::*;

verus! {

impl<T> OldView<T> {
    /// The handler after an input.
    #[verifier::opaque]
    pub open spec fn told(self, input: OldInput<T>) -> Self {
        self.next(input).state
    }

    /// The handler after a row of inputs.
    pub open spec fn after(self, inputs: Seq<OldInput<T>>) -> Self
        decreases inputs.len(),
    {
        if inputs.len() == 0 {
            self
        } else {
            self.after(inputs.drop_last()).told(inputs.last())
        }
    }

    /// Whether each of a row of inputs is awaited when it comes.
    pub open spec fn awaits_all(self, inputs: Seq<OldInput<T>>) -> bool
        decreases inputs.len(),
    {
        inputs.len() > 0 ==> {
            &&& self.awaits_all(inputs.drop_last())
            &&& self.after(inputs.drop_last()).awaits(inputs.last())
        }
    }

    /// The URLs for which no stream has been created yet, in order.
    pub open spec fn unrequested(self) -> Seq<UrlView> {
        match self.phase {
            OldPhaseView::Creating { url, .. } => seq![url] + self.urls.queue,
            _ => self.urls.queue,
        }
    }

    /// The URL for which an input says that a stream was created, if it does.
    pub open spec fn requests(self, input: OldInput<T>) -> Seq<UrlView> {
        match (input, self.phase) {
            (OldInput::Created(Ok(_)), OldPhaseView::Creating { url, .. }) => seq![url],
            _ => Seq::empty(),
        }
    }

    /// The URLs for which streams were created during a row of inputs, in order.
    pub open spec fn requests_all(self, inputs: Seq<OldInput<T>>) -> Seq<UrlView>
        decreases inputs.len(),
    {
        if inputs.len() == 0 {
            Seq::empty()
        } else {
            self.requests_all(inputs.drop_last()) + self.after(inputs.drop_last()).requests(
                inputs.last(),
            )
        }
    }
}

/// Whether an input says that a stream cannot be created at all.
pub open spec fn create_failed<T>(input: OldInput<T>) -> bool {
    input matches OldInput::Created(Err(e)) && stream_refused(e) is None
}

/// What an input leaves as it was.
proof fn lemma_told<T>(state: OldView<T>, input: OldInput<T>)
    requires
        state.wf(),
        state.awaits(input),
    ensures
        state.told(input).wf(),
        state.told(input).urls.args == state.urls.args,
        state.urls.paths.is_prefix_of(state.told(input).urls.paths),
        !state.key_update ==> !state.told(input).key_update,
{
    reveal(OldView::told);
    law_invariant_kept(state, input);
}

/// Never are more requests outstanding than allowed, and no two files are at the same place,
/// however long a connection lasts and whatever happens on it.
pub proof fn law_limits_kept<T>(start: OldView<T>, inputs: Seq<OldInput<T>>)
    requires
        start.wf(),
        start.awaits_all(inputs),
    ensures
        start.after(inputs).wf(),
        start.after(inputs).urls.args == start.urls.args,
        start.after(inputs).urls.outstanding() <= start.urls.args.concurrency,
        all_apart(start.after(inputs).urls.paths),
    decreases inputs.len(),
{
    if inputs.len() > 0 {
        law_limits_kept(start, inputs.drop_last());
        lemma_told(start.after(inputs.drop_last()), inputs.last());
    }
}

/// One input brings a stream for the first URL that waits for one, or for none.
proof fn lemma_requests_first<T>(state: OldView<T>, input: OldInput<T>)
    requires
        state.awaits(input),
        !create_failed(input),
    ensures
        state.requests(input) + state.told(input).unrequested() == state.unrequested(),
{
    reveal(OldView::told);
    let next = state.told(input);
    let made = state.requests(input);
    if state.urls.queue.len() > 0 {
        assert(seq![state.urls.queue[0]] + state.urls.queue.skip(1) =~= state.urls.queue);
    }
    assert(made + next.unrequested() =~= state.unrequested());
}

/// Streams are created in the order of the URLs: whatever happens on a connection, the URLs for
/// which streams were created and those that still wait for one are the URLs that waited at its
/// start. None is lost and none is requested twice. A stream that has to wait is created later;
/// one that cannot be created at all ends the client.
pub proof fn law_urls_in_order<T>(start: OldView<T>, inputs: Seq<OldInput<T>>)
    requires
        start.awaits_all(inputs),
        forall|i: int| 0 <= i < inputs.len() ==> !create_failed(#[trigger] inputs[i]),
    ensures
        start.requests_all(inputs) + start.after(inputs).unrequested() == start.unrequested(),
    decreases inputs.len(),
{
    if inputs.len() > 0 {
        let before = inputs.drop_last();
        assert forall|i: int| 0 <= i < before.len() implies !create_failed(
            #[trigger] before[i],
        ) by {
            assert(before[i] == inputs[i]);
        }
        law_urls_in_order(start, before);
        let state = start.after(before);
        lemma_requests_first(state, inputs.last());
        assert(start.requests_all(inputs) + start.after(inputs).unrequested()
            =~= start.requests_all(before) + (state.requests(inputs.last()) + start.after(
            inputs,
        ).unrequested()));
    } else {
        assert(start.requests_all(inputs) + start.after(inputs).unrequested()
            =~= start.unrequested());
    }
}

/// A stream that has to wait leaves the URLs as they were: the one it was for is still first.
pub proof fn law_refused_stream_waits<T>(state: OldView<T>, e: TransportError)
    requires
        state.phase is Creating,
        stream_refused(e) is Some,
    ensures
        ({
            let next = state.next(OldInput::Created(Err(e))).state;
            &&& next.phase !is Creating
            &&& next.urls.queue == state.unrequested()
            &&& next.urls.streams == state.urls.streams
        }),
{
}

/// On a stream that was created, the request for the path of its URL is sent, and nothing more.
pub proof fn law_request_sent<T>(state: OldView<T>, stream_id: u64)
    requires
        state.phase is Creating,
    ensures
        ({
            let url = state.phase->Creating_url;
            let effects = state.next(OldInput::Created(Ok(stream_id))).effects;
            &&& effects.len() >= 3
            &&& effects[0] == EffectView::Print(created_line(stream_id, url.text))
            &&& effects[1] == (EffectView::Send { stream_id, data: request_bytes(url.path) })
            &&& effects[2] == EffectView::CloseSend(stream_id)
            &&& forall|i: int| 3 <= i < effects.len() ==> (#[trigger] effects[i]) !is Send
        }),
{
}

/// Whether sending something is among effects.
pub open spec fn sends(effects: Seq<EffectView>) -> bool {
    exists|i: int| 0 <= i < effects.len() && (#[trigger] effects[i]) is Send
}

/// As long as the keys are to be updated, no stream is asked for and no request is sent.
pub proof fn law_requests_after_key_update<T>(state: OldView<T>, input: OldInput<T>)
    requires
        state.wf(),
        state.awaits(input),
        state.key_update,
        !(input matches OldInput::KeysUpdated(Ok(_))),
    ensures
        state.next(input).state.key_update,
        state.next(input).request !is CreateStream,
        !sends(state.next(input).effects),
{
}

/// Whether closing the connection is among effects.
pub open spec fn closes(effects: Seq<EffectView>) -> bool {
    exists|i: int| 0 <= i < effects.len() && (#[trigger] effects[i]) is Close
}

impl<T> OldView<T> {
    /// Whether nothing is left to request or to wait for, and nothing is being requested.
    pub open spec fn finished(self) -> bool {
        self.urls.done() && self.phase !is Creating && self.phase !is Opening
    }

    /// Whether an input tells of a stream that nobody asked for.
    pub open spec fn unknown_stream(self, input: OldInput<T>) -> bool {
        input matches OldInput::Event(
            Some(ConnectionEventView::RecvStreamReadable { stream_id }),
        ) && !self.urls.streams.contains_key(stream_id)
    }
}

/// The events that are left are looked through when a client that has not finished finishes, and
/// when something comes on a stream that nobody asked for, and only then.
pub proof fn law_drained_when_finished<T>(state: OldView<T>, input: OldInput<T>)
    requires
        state.wf(),
        state.awaits(input),
    ensures
        ({
            let turn = state.next(input);
            &&& turn.request is DrainEvents <==> turn.state.phase is Draining
            &&& turn.state.finished() && !state.finished() && turn.request !is Abort
                ==> turn.request is DrainEvents
            &&& turn.request is DrainEvents ==> turn.state.finished() || state.unknown_stream(
                input,
            )
        }),
{
    lemma_added(state);
}

/// With a stream added, something is outstanding.
proof fn lemma_added<T>(state: OldView<T>)
    requires
        state.urls.streams.dom().finite(),
    ensures
        forall|id: u64, handler: StreamHandlerView|
            (#[trigger] state.urls.with_stream(id, handler)).outstanding() > 0,
{
    assert forall|id: u64, handler: StreamHandlerView|
        (#[trigger] state.urls.with_stream(id, handler)).outstanding() > 0 by {
        assert(state.urls.with_stream(id, handler).streams.dom().contains(id));
    }
}

/// The connection is closed once the events that are left have been looked through, and only
/// then; the client ends with that and in no other way.
pub proof fn law_closed_when_drained<T>(state: OldView<T>, input: OldInput<T>)
    requires
        state.wf(),
        state.awaits(input),
    ensures
        ({
            let turn = state.next(input);
            &&& closes(turn.effects) <==> input is Drained
            &&& turn.request == OldRequestView::Return(Ok(false)) <==> input is Drained
        }),
{
    if input is Drained {
        let turn = state.next(input);
        assert(turn.effects[0] is Close);
    }
}

/// The places of files that were created stay in use.
proof fn lemma_paths_grow<T>(start: OldView<T>, inputs: Seq<OldInput<T>>)
    requires
        start.wf(),
        start.awaits_all(inputs),
    ensures
        start.urls.paths.is_prefix_of(start.after(inputs).urls.paths),
    decreases inputs.len(),
{
    if inputs.len() > 0 {
        lemma_paths_grow(start, inputs.drop_last());
        law_limits_kept(start, inputs.drop_last());
        lemma_told(start.after(inputs.drop_last()), inputs.last());
    }
}

/// A file is created only where no file was created before on the connection, and the places of
/// files that were created stay in use.
pub proof fn law_files_stay_apart<T>(
    start: OldView<T>,
    inputs: Seq<OldInput<T>>,
    input: OldInput<T>,
)
    requires
        start.wf(),
        start.awaits_all(inputs),
        start.after(inputs).awaits(input),
    ensures
        start.urls.paths.is_prefix_of(start.after(inputs).urls.paths),
        start.after(inputs).next(input).request matches OldRequestView::Open { path, .. }
            ==> !taken(start.after(inputs).urls.paths, path),
{
    lemma_paths_grow(start, inputs);
    law_limits_kept(start, inputs);
    lemma_opens(start.after(inputs), input);
}

/// A file is created only where no file was created before.
proof fn lemma_opens<T>(state: OldView<T>, input: OldInput<T>)
    requires
        state.awaits(input),
    ensures
        state.next(input).request matches OldRequestView::Open { path, .. } ==> !taken(
            state.urls.paths,
            path,
        ),
{
}

impl<T> OldView<T> {
    /// What an input brings on a stream whose contents are saved.
    pub open spec fn reads(self, input: OldInput<T>, id: u64) -> Seq<u8> {
        match (input, self.phase) {
            (OldInput::Data { outcome: Ok((sz, _)), data }, OldPhaseView::Reading { stream_id }) => {
                if stream_id == id && self.out_file(id) is Some {
                    data.take(sz as int)
                } else {
                    Seq::empty()
                }
            },
            _ => Seq::empty(),
        }
    }

    /// What is written to the file of a stream because of an input.
    pub open spec fn writes(self, input: OldInput<T>, id: u64) -> Seq<u8> {
        match self.next(input).request {
            OldRequestView::Write { stream_id, data } => if stream_id == id {
                data
            } else {
                Seq::empty()
            },
            _ => Seq::empty(),
        }
    }

    /// What a row of inputs brings on a stream whose contents are saved.
    pub open spec fn reads_all(self, inputs: Seq<OldInput<T>>, id: u64) -> Seq<u8>
        decreases inputs.len(),
    {
        if inputs.len() == 0 {
            Seq::empty()
        } else {
            self.reads_all(inputs.drop_last(), id) + self.after(inputs.drop_last()).reads(
                inputs.last(),
                id,
            )
        }
    }

    /// What is written to the file of a stream because of a row of inputs.
    pub open spec fn writes_all(self, inputs: Seq<OldInput<T>>, id: u64) -> Seq<u8>
        decreases inputs.len(),
    {
        if inputs.len() == 0 {
            Seq::empty()
        } else {
            self.writes_all(inputs.drop_last(), id) + self.after(inputs.drop_last()).writes(
                inputs.last(),
                id,
            )
        }
    }
}

/// The contents of fetched URLs are saved: what is written to the file of a stream is what comes
/// on the stream, all of it and in order.
pub proof fn law_contents_saved<T>(start: OldView<T>, inputs: Seq<OldInput<T>>, id: u64)
    requires
        start.awaits_all(inputs),
    ensures
        start.writes_all(inputs, id) == start.reads_all(inputs, id),
    decreases inputs.len(),
{
    if inputs.len() > 0 {
        let state = start.after(inputs.drop_last());
        law_contents_saved(start, inputs.drop_last(), id);
        assert(state.writes(inputs.last(), id) =~= state.reads(inputs.last(), id));
    }
}

/// Once the keys are updated, or if they need not be, they stay so.
proof fn lemma_keys_stay_updated<T>(start: OldView<T>, inputs: Seq<OldInput<T>>)
    requires
        start.wf(),
        !start.key_update,
        start.awaits_all(inputs),
    ensures
        !start.after(inputs).key_update,
    decreases inputs.len(),
{
    if inputs.len() > 0 {
        lemma_keys_stay_updated(start, inputs.drop_last());
        law_limits_kept(start, inputs.drop_last());
        lemma_told(start.after(inputs.drop_last()), inputs.last());
    }
}

/// Once the keys are updated, or if they need not be, no key update is started.
pub proof fn law_keys_updated_once<T>(
    start: OldView<T>,
    inputs: Seq<OldInput<T>>,
    input: OldInput<T>,
)
    requires
        start.wf(),
        !start.key_update,
        start.awaits_all(inputs),
        start.after(inputs).awaits(input),
    ensures
        !start.after(inputs).key_update,
        start.after(inputs).next(input).request !is UpdateKeys,
{
    lemma_keys_stay_updated(start, inputs);
    law_limits_kept(start, inputs);
    lemma_updates_keys(start.after(inputs), input);
}

/// A key update is started only where one is needed.
proof fn lemma_updates_keys<T>(state: OldView<T>, input: OldInput<T>)
    requires
        state.awaits(input),
    ensures
        state.next(input).request is UpdateKeys ==> state.key_update,
{
}

/// If the keys are to be updated, that is attempted as soon as the connection is confirmed.
pub proof fn law_key_update_when_confirmed<T>(state: OldView<T>)
    requires
        state.phase is Polling,
        state.key_update,
    ensures
        state.next(OldInput::Event(Some(ConnectionEventView::Confirmed))).request is UpdateKeys,
{
}

/// A key update that has to wait is no failure and is tried again; one that was started is told
/// of and is not tried again; any other outcome is a failure.
pub proof fn law_key_update_settled<T>(state: OldView<T>, outcome: Result<(), TransportError>)
    requires
        state.phase is Updating,
    ensures
        ({
            let turn = state.next(OldInput::KeysUpdated(outcome));
            match outcome {
                Ok(()) => {
                    &&& !turn.state.key_update
                    &&& turn.effects.len() > 0
                    &&& turn.effects[0] == EffectView::Print(keys_updated())
                },
                Err(e) => if e == TransportError::KeyUpdateBlocked {
                    &&& turn.state.key_update
                    &&& turn.request !is Return || turn.request == OldRequestView::Return(Ok(true))
                } else {
                    turn.request == OldRequestView::Return(Err(ClientError::TransportError(e)))
                },
            }
        }),
{
}

/// When the connection makes progress and when streams can be created again, a stream for the
/// first URL that waits is asked for at once, unless none waits, enough are outstanding or the
/// keys are to be updated first.
pub proof fn law_requests_when_possible<T>(state: OldView<T>, event: ConnectionEventView<T>)
    requires
        state.phase is Polling,
        event is Progress || event == (ConnectionEventView::<T>::SendStreamCreatable {
            stream_type: StreamType::BiDi,
        }),
    ensures
        ({
            let turn = state.next(OldInput::Event(Some(event)));
            &&& turn.request is CreateStream <==> state.urls.queue.len() > 0
                && state.urls.outstanding() < state.urls.args.concurrency && !state.key_update
            &&& turn.request is CreateStream ==> (turn.state.phase matches OldPhaseView::Creating {
                url,
                ..
            } && url == state.urls.queue[0])
        }),
{
}

/// When a stream ends, its place goes to the first URL that waits, if one does and the keys need
/// no update.
pub proof fn law_stream_end_makes_room<T>(state: OldView<T>, stream_id: u64, data: Seq<u8>)
    requires
        state.wf(),
        state.phase == (OldPhaseView::Reading { stream_id }),
        state.urls.queue.len() > 0,
        !state.key_update,
    ensures
        ({
            let turn = state.next(OldInput::Data { outcome: Ok((0, true)), data });
            &&& turn.request is CreateStream
            &&& turn.state.phase matches OldPhaseView::Creating { url, .. } && url
                == state.urls.queue[0]
        }),
{
    assert(state.urls.without_stream(stream_id).outstanding() == state.urls.outstanding() - 1);
}

/// Among the events that are left, the search for a token ends at the first one; without one, the
/// token stays that came before.
pub proof fn law_first_token_found<T>(
    state: OldView<T>,
    before: Seq<ConnectionEvent<T>>,
    token: T,
    after: Seq<ConnectionEvent<T>>,
)
    requires
        state.phase is Draining,
        forall|i: int| 0 <= i < before.len() ==> (#[trigger] before[i]) !is ResumptionToken,
    ensures
        state.next(
            OldInput::Drained(before.push(ConnectionEvent::ResumptionToken(token)) + after),
        ).state.token == Some(token),
        state.next(OldInput::Drained(before)).state.token == state.token,
    decreases before.len(),
{
    let found = ConnectionEvent::ResumptionToken(token);
    let events = before.push(found) + after;
    if before.len() > 0 {
        let rest = before.skip(1);
        assert forall|i: int| 0 <= i < rest.len() implies (
        #[trigger] rest[i]) !is ResumptionToken by {
            assert(rest[i] == before[i + 1]);
        }
        law_first_token_found(state, rest, token, after);
        assert(events[0] == before[0]);
        assert(events.skip(1) =~= rest.push(found) + after);
    } else {
        assert(events[0] == found);
    }
}

/// Files are created within the output directory, and nowhere else.
pub proof fn law_files_within_directory<T>(state: OldView<T>, input: OldInput<T>)
    requires
        state.awaits(input),
    ensures
        state.next(input).request matches OldRequestView::Open { path, .. } ==> {
            &&& state.urls.args.output_dir matches Some(dir)
            &&& within(dir, path)
        },
{
}

} // verus!
