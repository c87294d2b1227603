//! What each answer leads to, in an HTTP/0.9 client.

use crate::effect::{AbortView, EffectView};
use crate::error::{ClientError, IoError, TransportError};
use crate::files::{output_plan, OutputPlanView};
use crate::http09::{
    request_bytes, ConnectionEvent, ConnectionEventView, OldAfter, OldInput, OldPhaseView,
    OldRequestView, OldTurn, OldView, StreamType,
};
use crate::lines::{
    bytes_line, complete_line, creatable_line, created_line, deferring_line, duplicate_line,
    fin_line, keys_updated, refused_line, text_line, unexpected_line, unhandled_line,
    writable_line,
};
use crate::requests::UrlHandlerView;
use crate::stream::StreamHandlerView;
use vstd::prelude::*;
use vstd::utf8::{
    decode_utf8, encode_utf8, encode_utf8_decode_utf8, encode_utf8_valid_utf8, is_ascii_chars,
    is_ascii_chars_encode_utf8, valid_utf8,
};

verus! {

/// The bytes of two texts, one after the other.
proof fn lemma_encoded_joined(a: Seq<char>, b: Seq<char>)
    ensures
        encode_utf8(a + b) == encode_utf8(a) + encode_utf8(b),
    decreases a.len(),
{
    if a.len() == 0 {
        assert(a + b =~= b);
        assert(encode_utf8(a) + encode_utf8(b) =~= encode_utf8(b));
    } else {
        lemma_encoded_joined(a.drop_first(), b);
        assert((a + b).drop_first() =~= a.drop_first() + b);
        assert((a + b)[0] == a[0]);
        assert(encode_utf8(a + b) =~= encode_utf8(a) + encode_utf8(b));
    }
}

/// Whether bytes ask for a path: they start with `GET` and a space, end with the end of a line, and
/// are the path in between.
pub open spec fn asks_for(data: Seq<u8>, path: Seq<char>) -> bool {
    let end = data.len() - 2;
    &&& end >= 4
    &&& data.take(4) == seq![71u8, 69u8, 84u8, 32u8]
    &&& data.skip(end) == seq![13u8, 10u8]
    &&& valid_utf8(data.subrange(4, end))
    &&& decode_utf8(data.subrange(4, end)) == path
}

/// A request asks for the whole path, whatever the path is.
pub proof fn law_request_asks_for_the_path(path: Seq<char>)
    ensures
        asks_for(request_bytes(path), path),
{
    reveal_strlit("GET ");
    reveal_strlit("\r\n");
    assert(is_ascii_chars("GET "@));
    assert(is_ascii_chars("\r\n"@));
    is_ascii_chars_encode_utf8("GET "@);
    is_ascii_chars_encode_utf8("\r\n"@);
    let front = encode_utf8("GET "@);
    let back = encode_utf8("\r\n"@);
    let middle = encode_utf8(path);
    lemma_encoded_joined("GET "@, path);
    lemma_encoded_joined("GET "@ + path, "\r\n"@);
    let data = request_bytes(path);
    assert(data == front + middle + back);
    assert(front[0] == "GET "@[0] as u8);
    assert(front[1] == "GET "@[1] as u8);
    assert(front[2] == "GET "@[2] as u8);
    assert(front[3] == "GET "@[3] as u8);
    assert(back[0] == "\r\n"@[0] as u8);
    assert(back[1] == "\r\n"@[1] as u8);
    assert(data.take(4) =~= seq![71u8, 69u8, 84u8, 32u8]);
    assert(data.skip(data.len() - 2) =~= seq![13u8, 10u8]);
    assert(data.subrange(4, data.len() - 2) =~= middle);
    encode_utf8_valid_utf8(path);
    encode_utf8_decode_utf8(path);
}

/// Different paths are asked for with different bytes.
pub proof fn law_requests_tell_apart(a: Seq<char>, b: Seq<char>)
    requires
        request_bytes(a) == request_bytes(b),
    ensures
        a == b,
{
    law_request_asks_for_the_path(a);
    law_request_asks_for_the_path(b);
}

/// On a new stream a single request is sent, for the path of the URL that it was created for, and
/// the sending side is ended right after.
pub proof fn law_stream_carries_its_request<T>(state: OldView<T>, stream_id: u64)
    requires
        state.phase is Creating,
    ensures
        ({
            let url = state.phase->Creating_url;
            let effects = state.next(OldInput::Created(Ok(stream_id))).effects;
            &&& effects.len() >= 3
            &&& effects[0] == EffectView::Print(created_line(stream_id, url.text))
            &&& effects[1] matches EffectView::Send { stream_id: id, data } && id == stream_id
                && asks_for(data, url.path)
            &&& effects[2] == EffectView::CloseSend(stream_id)
            &&& forall|i: int|
                3 <= i < effects.len() ==> (#[trigger] effects[i]) !is Send && effects[i]
                    !is CloseSend
        }),
{
    law_request_asks_for_the_path(state.phase->Creating_url.path);
}

impl<T> OldView<T> {
    /// With other streams.
    pub open spec fn with_streams(self, streams: Map<u64, StreamHandlerView>) -> Self {
        OldView { urls: UrlHandlerView { streams, ..self.urls }, ..self }
    }

    /// With the first URL that waits gone.
    pub open spec fn with_first_gone(self) -> Self {
        OldView {
            urls: UrlHandlerView { queue: self.urls.queue.drop_first(), ..self.urls },
            ..self
        }
    }

    /// With another phase.
    pub open spec fn in_phase(self, phase: OldPhaseView) -> Self {
        OldView { phase, ..self }
    }

    /// Whether a URL waits and there is room for a request.
    pub open spec fn can_request(self) -> bool {
        &&& self.urls.queue.len() > 0
        &&& self.urls.streams.dom().len() < self.urls.args.concurrency
    }
}

/// Whether a turn, after `told`, asks for a stream for the first URL that waits.
pub open spec fn creates_first<T>(
    before: OldView<T>,
    after: OldAfter,
    turn: OldTurn<T>,
    told: Seq<EffectView>,
) -> bool {
    let url = before.urls.queue[0];
    &&& turn.effects == told
    &&& turn.request is CreateStream
    &&& turn.state == before.with_first_gone().in_phase(OldPhaseView::Creating { url, after })
}

/// Whether a turn, after `told`, asks for the next event or is done for now.
pub open spec fn goes_back<T>(
    before: OldView<T>,
    after: OldAfter,
    turn: OldTurn<T>,
    told: Seq<EffectView>,
) -> bool {
    &&& turn.effects == told
    &&& if after is KeyUpdate {
        &&& turn.request == OldRequestView::Return(Ok(true))
        &&& turn.state == before.in_phase(OldPhaseView::Idle)
    } else {
        &&& turn.request is NextEvent
        &&& turn.state == before.in_phase(OldPhaseView::Polling)
    }
}

/// Whether a turn, after `told`, looks for a token among the events that are left, before the
/// connection is closed.
pub open spec fn looks_for_token<T>(
    before: OldView<T>,
    turn: OldTurn<T>,
    told: Seq<EffectView>,
) -> bool {
    &&& turn.effects == told
    &&& turn.request is DrainEvents
    &&& turn.state == before.in_phase(OldPhaseView::Draining)
}

/// Whether a turn, after `told`, makes the next request if that is possible, and else goes back to
/// where requests were made from. While the keys are to be updated it only says that it could.
pub open spec fn requests_on<T>(
    before: OldView<T>,
    after: OldAfter,
    turn: OldTurn<T>,
    told: Seq<EffectView>,
) -> bool {
    if !before.can_request() {
        goes_back(before, after, turn, told)
    } else if before.key_update {
        goes_back(before, after, turn, told.push(EffectView::Print(deferring_line())))
    } else {
        creates_first(before, after, turn, told)
    }
}

/// Whether a turn ends a stream, after `told`: the stream is forgotten. If a URL waits, it is
/// requested, unless the keys are to be updated first. If nothing is left, the connection is about
/// to be closed. Else the next event is asked for.
pub open spec fn stream_over<T>(
    before: OldView<T>,
    stream_id: u64,
    turn: OldTurn<T>,
    told: Seq<EffectView>,
) -> bool {
    let rest = before.with_streams(before.urls.streams.remove(stream_id));
    if before.urls.queue.len() > 0 {
        if before.key_update {
            goes_back(
                rest,
                OldAfter::StreamEnd,
                turn,
                told.push(EffectView::Print(deferring_line())),
            )
        } else {
            creates_first(rest, OldAfter::StreamEnd, turn, told)
        }
    } else if rest.urls.streams.dom().len() == 0 {
        looks_for_token(rest, turn, told)
    } else {
        goes_back(rest, OldAfter::StreamEnd, turn, told)
    }
}

/// Making requests with a stream outstanding, with effects before.
proof fn lemma_requests_on<T>(before: OldView<T>, after: OldAfter, told: Seq<EffectView>)
    requires
        after is StreamEnd ==> before.urls.streams.dom().len() > 0,
    ensures
        requests_on(before, after, before.download_urls(after).following(told), told),
{
    assert(before.urls.queue.len() > 0 ==> before.urls.queue.skip(1)
        =~= before.urls.queue.drop_first());
    assert(told + Seq::<EffectView>::empty() =~= told);
    let wait = EffectView::Print(deferring_line());
    assert(told + (seq![wait] + Seq::<EffectView>::empty()) =~= told.push(wait));
}

/// Ending a stream, with effects before.
proof fn lemma_stream_over<T>(before: OldView<T>, stream_id: u64, told: Seq<EffectView>)
    requires
        before.urls.wf(),
        before.urls.streams.contains_key(stream_id),
    ensures
        stream_over(
            before,
            stream_id,
            before.ends_stream(stream_id).following(told),
            if before.urls.streams[stream_id] is Download
                && before.urls.streams[stream_id]->out_file is Some {
                told
            } else {
                told.push(EffectView::Print(fin_line(stream_id)))
            },
        ),
{
    let rest = before.with_streams(before.urls.streams.remove(stream_id));
    let none = Seq::<EffectView>::empty();
    let fin = EffectView::Print(fin_line(stream_id));
    let wait = EffectView::Print(deferring_line());
    assert(rest.urls == before.urls.without_stream(stream_id));
    assert(rest.urls.outstanding() == before.urls.outstanding() - 1);
    assert(before.urls.queue.len() > 0 ==> before.urls.queue.skip(1)
        =~= before.urls.queue.drop_first());
    assert(told + none =~= told);
    assert(told + (seq![wait] + none) =~= told.push(wait));
    assert(told + (seq![fin] + none) =~= told.push(fin));
    assert(told + (seq![fin] + (seq![wait] + none)) =~= told.push(fin).push(wait));
}

/// What is told of data that came on a stream whose contents are not saved.
pub open spec fn data_told<T>(
    state: OldView<T>,
    stream_id: u64,
    received: Seq<u8>,
) -> Seq<EffectView> {
    if received.len() == 0 {
        Seq::empty()
    } else if state.output_read_data {
        seq![EffectView::Print(text_line(stream_id, decode_utf8(received)))]
    } else {
        seq![EffectView::Print(bytes_line(stream_id, received.len() as usize))]
    }
}

/// When a read reports the end of a stream whose contents are not saved, the data is shown, the end
/// is told and the stream is ended.
pub proof fn law_end_of_shown_stream<T>(
    state: OldView<T>,
    stream_id: u64,
    data: Seq<u8>,
    sz: usize,
)
    requires
        state.wf(),
        state.phase == (OldPhaseView::Reading { stream_id }),
        state.urls.streams[stream_id] == (StreamHandlerView::Download { out_file: None }),
        sz <= data.len(),
        state.output_read_data ==> valid_utf8(data.take(sz as int)),
    ensures
        stream_over(
            state,
            stream_id,
            state.next(OldInput::Data { outcome: Ok((sz, true)), data }),
            data_told(state, stream_id, data.take(sz as int)).push(
                EffectView::Print(fin_line(stream_id)),
            ),
        ),
{
    let told = data_told(state, stream_id, data.take(sz as int));
    lemma_stream_over(state, stream_id, told);
    assert(Seq::<EffectView>::empty() + state.ends_stream(stream_id).effects
        =~= state.ends_stream(stream_id).effects);
}

/// When a read reports the end of a stream whose contents are saved, the data that came with it is
/// written to the file, and once that has worked the stream is ended; if no data came with it, it
/// is ended at once.
pub proof fn law_end_of_saved_stream<T>(
    state: OldView<T>,
    stream_id: u64,
    path: Seq<char>,
    data: Seq<u8>,
    sz: usize,
)
    requires
        state.wf(),
        state.phase == (OldPhaseView::Reading { stream_id }),
        state.urls.streams[stream_id] == (StreamHandlerView::Download { out_file: Some(path) }),
        sz <= data.len(),
    ensures
        ({
            let turn = state.next(OldInput::Data { outcome: Ok((sz, true)), data });
            if sz == 0 {
                stream_over(state, stream_id, turn, Seq::empty())
            } else {
                &&& turn.effects.len() == 0
                &&& turn.request == (OldRequestView::Write {
                    stream_id,
                    data: data.take(sz as int),
                })
                &&& turn.state.urls == state.urls
                &&& turn.state.awaits(OldInput::Written(Ok(())))
                &&& stream_over(
                    state,
                    stream_id,
                    turn.state.next(OldInput::Written(Ok(()))),
                    Seq::empty(),
                )
            }
        }),
{
    let none = Seq::<EffectView>::empty();
    let turn = state.next(OldInput::Data { outcome: Ok((sz, true)), data });
    if sz == 0 {
        lemma_stream_over(state, stream_id, none);
        assert(none + state.ends_stream(stream_id).effects =~= state.ends_stream(
            stream_id,
        ).effects);
    } else {
        lemma_stream_over(turn.state, stream_id, none);
        assert(none + turn.state.ends_stream(stream_id).effects =~= turn.state.ends_stream(
            stream_id,
        ).effects);
    }
}

/// As long as a stream has not ended, reading goes on until nothing is there: data that came is
/// shown, or written first, and nothing is forgotten.
pub proof fn law_reading_goes_on<T>(
    state: OldView<T>,
    stream_id: u64,
    data: Seq<u8>,
    sz: usize,
)
    requires
        state.wf(),
        state.phase == (OldPhaseView::Reading { stream_id }),
        state.urls.streams[stream_id] is Download,
        sz <= data.len(),
        state.urls.streams[stream_id]->out_file is None && state.output_read_data ==> valid_utf8(
            data.take(sz as int),
        ),
    ensures
        ({
            let turn = state.next(OldInput::Data { outcome: Ok((sz, false)), data });
            let saved = state.urls.streams[stream_id]->out_file is Some;
            &&& turn.effects == if saved {
                Seq::empty()
            } else {
                data_told(state, stream_id, data.take(sz as int))
            }
            &&& sz == 0 ==> turn.request is NextEvent && turn.state == state.in_phase(
                OldPhaseView::Polling,
            )
            &&& sz > 0 && !saved ==> turn.request == (OldRequestView::Read { stream_id })
                && turn.state == state
            &&& sz > 0 && saved ==> {
                let next = turn.state.next(OldInput::Written(Ok(())));
                &&& turn.request == (OldRequestView::Write {
                    stream_id,
                    data: data.take(sz as int),
                })
                &&& turn.state.awaits(OldInput::Written(Ok(())))
                &&& next.effects.len() == 0
                &&& next.request == (OldRequestView::Read { stream_id })
                &&& next.state == state
            }
        }),
{
    let turn = state.next(OldInput::Data { outcome: Ok((sz, false)), data });
    assert(turn.effects =~= if state.urls.streams[stream_id]->out_file is Some {
        Seq::empty()
    } else {
        data_told(state, stream_id, data.take(sz as int))
    });
}

/// Data that is to be shown and is no text ends the client.
pub proof fn law_bytes_not_shown<T>(
    state: OldView<T>,
    stream_id: u64,
    data: Seq<u8>,
    sz: usize,
    fin: bool,
)
    requires
        state.phase == (OldPhaseView::Reading { stream_id }),
        state.urls.streams[stream_id] == (StreamHandlerView::Download { out_file: None }),
        state.output_read_data,
        0 < sz <= data.len(),
        !valid_utf8(data.take(sz as int)),
    ensures
        ({
            let turn = state.next(OldInput::Data { outcome: Ok((sz, fin)), data });
            &&& turn.effects.len() == 0
            &&& turn.request == OldRequestView::Abort(AbortView::UnexpectedBytes { stream_id })
        }),
{
}

/// Data that cannot be read or written is a failure, with what failed.
pub proof fn law_data_failure_handed_on<T>(
    state: OldView<T>,
    e: TransportError,
    data: Seq<u8>,
    io: IoError,
)
    ensures
        state.phase is Reading ==> {
            let turn = state.next(OldInput::Data { outcome: Err(e), data });
            &&& turn.effects.len() == 0
            &&& turn.request == OldRequestView::Return(Err(ClientError::TransportError(e)))
            &&& turn.state == state.in_phase(OldPhaseView::Idle)
        },
        state.phase is Writing ==> {
            let turn = state.next(OldInput::Written(Err(io)));
            &&& turn.effects.len() == 0
            &&& turn.request == OldRequestView::Return(Err(ClientError::IoError(io)))
            &&& turn.state == state.in_phase(OldPhaseView::Idle)
        },
{
}

/// Telling of something, and nothing else, before the next event.
proof fn lemma_told_only<T>(state: OldView<T>, e: EffectView)
    ensures
        goes_back(state, OldAfter::NextEvent, state.polls().following(seq![e]), seq![e]),
{
    assert(seq![e] + Seq::<EffectView>::empty() =~= seq![e]);
}

/// What the events lead to that say how far sending on a stream is: they are told of.
pub proof fn law_sending_told<T>(state: OldView<T>, stream_id: u64)
    requires
        state.phase is Polling,
    ensures
        goes_back(
            state,
            OldAfter::NextEvent,
            state.next(
                OldInput::Event(Some(ConnectionEventView::SendStreamWritable { stream_id })),
            ),
            seq![EffectView::Print(writable_line(stream_id))],
        ),
        goes_back(
            state,
            OldAfter::NextEvent,
            state.next(
                OldInput::Event(Some(ConnectionEventView::SendStreamComplete { stream_id })),
            ),
            seq![EffectView::Print(complete_line(stream_id))],
        ),
        goes_back(
            state,
            OldAfter::NextEvent,
            state.next(
                OldInput::Event(
                    Some(
                        ConnectionEventView::SendStreamCreatable {
                            stream_type: StreamType::UniDi,
                        },
                    ),
                ),
            ),
            seq![EffectView::Print(creatable_line("UniDi"@))],
        ),
{
    lemma_told_only(state, EffectView::Print(writable_line(stream_id)));
    lemma_told_only(state, EffectView::Print(complete_line(stream_id)));
    lemma_told_only(state, EffectView::Print(creatable_line("UniDi"@)));
}

/// A certificate is judged when that is needed; events that are not known are told of; a token is
/// kept. Once no event is left, the client is done for now.
pub proof fn law_events_dealt_with<T>(state: OldView<T>, token: T, text: Seq<char>)
    requires
        state.phase is Polling,
    ensures
        goes_back(
            state,
            OldAfter::NextEvent,
            state.next(OldInput::Event(Some(ConnectionEventView::AuthenticationNeeded))),
            seq![EffectView::Authenticate],
        ),
        goes_back(
            OldView { token: Some(token), ..state },
            OldAfter::NextEvent,
            state.next(OldInput::Event(Some(ConnectionEventView::ResumptionToken(token)))),
            Seq::empty(),
        ),
        goes_back(
            state,
            OldAfter::NextEvent,
            state.next(OldInput::Event(Some(ConnectionEventView::Other(text)))),
            seq![EffectView::Print(unhandled_line(text))],
        ),
        goes_back(state, OldAfter::KeyUpdate, state.next(OldInput::Event(None)), Seq::empty()),
{
    lemma_told_only(state, EffectView::Authenticate);
    lemma_told_only(state, EffectView::Print(unhandled_line(text)));
}

/// A stream with data is read from if it is known; else that is told, and the connection is about
/// to be closed.
pub proof fn law_readable_stream_read<T>(state: OldView<T>, stream_id: u64)
    requires
        state.phase is Polling,
    ensures
        ({
            let turn = state.next(
                OldInput::Event(Some(ConnectionEventView::RecvStreamReadable { stream_id })),
            );
            if state.urls.streams.contains_key(stream_id) {
                &&& turn.effects.len() == 0
                &&& turn.request == (OldRequestView::Read { stream_id })
                &&& turn.state == state.in_phase(OldPhaseView::Reading { stream_id })
            } else {
                looks_for_token(
                    state,
                    turn,
                    seq![EffectView::Print(unexpected_line(stream_id))],
                )
            }
        }),
{
    let line = seq![EffectView::Print(unexpected_line(stream_id))];
    assert(line + Seq::<EffectView>::empty() =~= line);
}

/// What the events lead to that start requests.
pub proof fn law_requests_started<T>(state: OldView<T>, text: Seq<char>)
    requires
        state.phase is Polling,
    ensures
        requests_on(
            state,
            OldAfter::NextEvent,
            state.next(
                OldInput::Event(
                    Some(
                        ConnectionEventView::SendStreamCreatable {
                            stream_type: StreamType::BiDi,
                        },
                    ),
                ),
            ),
            seq![EffectView::Print(creatable_line("BiDi"@))],
        ),
        requests_on(
            state,
            OldAfter::NextEvent,
            state.next(OldInput::Event(Some(ConnectionEventView::Progress(text)))),
            seq![EffectView::Print(text)],
        ),
{
    lemma_requests_on(
        state,
        OldAfter::NextEvent,
        seq![EffectView::Print(creatable_line("BiDi"@))],
    );
    lemma_requests_on(state, OldAfter::NextEvent, seq![EffectView::Print(text)]);
}

/// Whether a turn attempts a key update if one is needed, and else makes requests.
pub open spec fn updates_first<T>(before: OldView<T>, after: OldAfter, turn: OldTurn<T>) -> bool {
    if before.key_update {
        &&& turn.effects.len() == 0
        &&& turn.request is UpdateKeys
        &&& turn.state == before.in_phase(OldPhaseView::Updating { after })
    } else {
        requests_on(before, after, turn, Seq::empty())
    }
}

/// Dealing with events starts with the next one. A key update is attempted, if one is needed, when
/// that is asked for and when the connection is confirmed; if none is, requests are made.
pub proof fn law_starts<T>(state: OldView<T>)
    ensures
        state.phase is Idle ==> goes_back(
            state,
            OldAfter::NextEvent,
            state.next(OldInput::Handle),
            Seq::empty(),
        ),
        state.phase is Idle ==> updates_first(
            state,
            OldAfter::KeyUpdate,
            state.next(OldInput::KeyUpdate),
        ),
        state.phase is Polling ==> updates_first(
            state,
            OldAfter::NextEvent,
            state.next(OldInput::Event(Some(ConnectionEventView::Confirmed))),
        ),
{
    let none = Seq::<EffectView>::empty();
    lemma_requests_on(state, OldAfter::KeyUpdate, none);
    lemma_requests_on(state, OldAfter::NextEvent, none);
    assert(none + state.download_urls(OldAfter::KeyUpdate).effects =~= state.download_urls(
        OldAfter::KeyUpdate,
    ).effects);
    assert(none + state.download_urls(OldAfter::NextEvent).effects =~= state.download_urls(
        OldAfter::NextEvent,
    ).effects);
}

/// After an attempt at a key update that worked, or has to wait, requests are made as far as they
/// may be; any other outcome is a failure.
pub proof fn law_key_update_dealt_with<T>(state: OldView<T>, outcome: Result<(), TransportError>)
    requires
        state.phase is Updating,
        state.phase->Updating_after !is StreamEnd,
    ensures
        ({
            let after = state.phase->Updating_after;
            let turn = state.next(OldInput::KeysUpdated(outcome));
            match outcome {
                Ok(_) => requests_on(
                    OldView { key_update: false, ..state },
                    after,
                    turn,
                    seq![EffectView::Print(keys_updated())],
                ),
                Err(e) => if e == TransportError::KeyUpdateBlocked {
                    requests_on(
                        OldView { key_update: true, ..state },
                        after,
                        turn,
                        Seq::empty(),
                    )
                } else {
                    &&& turn.effects.len() == 0
                    &&& turn.request == OldRequestView::Return(
                        Err(ClientError::TransportError(e)),
                    )
                    &&& turn.state.key_update
                },
            }
        }),
{
    let after = state.phase->Updating_after;
    let told = seq![EffectView::Print(keys_updated())];
    let done = OldView { key_update: false, ..state };
    let wait = OldView { key_update: true, ..state };
    lemma_requests_on(done, after, told);
    lemma_requests_on(wait, after, Seq::empty());
    assert(Seq::<EffectView>::empty() + wait.download_urls(after).effects
        =~= wait.download_urls(after).effects);
}

/// What a new stream is told of and sends first.
pub open spec fn stream_opened<T>(state: OldView<T>, stream_id: u64) -> Seq<EffectView> {
    let url = state.phase->Creating_url;
    seq![
        EffectView::Print(created_line(stream_id, url.text)),
        EffectView::Send { stream_id, data: request_bytes(url.path) },
        EffectView::CloseSend(stream_id),
    ]
}

/// A stream that was created sends its request. If its contents are not saved, it is added and the
/// next request is made; else the file is created first.
pub proof fn law_download_started<T>(state: OldView<T>, stream_id: u64)
    requires
        state.wf(),
        state.phase is Creating,
    ensures
        ({
            let url = state.phase->Creating_url;
            let after = state.phase->Creating_after;
            let turn = state.next(OldInput::Created(Ok(stream_id)));
            let opened = stream_opened(state, stream_id);
            let with = state.with_streams(
                state.urls.streams.insert(
                    stream_id,
                    StreamHandlerView::Download { out_file: None },
                ),
            );
            match output_plan(url.path, state.urls.args.output_dir, state.urls.paths) {
                OutputPlanView::Nowhere => requests_on(with, after, turn, opened),
                OutputPlanView::Duplicate(path) => requests_on(
                    with,
                    after,
                    turn,
                    opened.push(EffectView::Warn(duplicate_line(path))),
                ),
                OutputPlanView::Open(path) => {
                    &&& turn.effects == opened.push(EffectView::Saving { url: url.text, path })
                    &&& turn.request == (OldRequestView::Open { stream_id, path })
                    &&& turn.state == state.in_phase(
                        OldPhaseView::Opening { stream_id, path, after },
                    )
                },
            }
        }),
{
    let url = state.phase->Creating_url;
    let after = state.phase->Creating_after;
    let turn = state.next(OldInput::Created(Ok(stream_id)));
    let opened = stream_opened(state, stream_id);
    let handler = StreamHandlerView::Download { out_file: None };
    let with = state.with_streams(state.urls.streams.insert(stream_id, handler));
    assert(with.urls.streams.dom().contains(stream_id));
    assert(with.urls.streams.dom().len() > 0);
    let rest = with.download_urls(after).effects;
    match output_plan(url.path, state.urls.args.output_dir, state.urls.paths) {
        OutputPlanView::Nowhere => {
            lemma_requests_on(with, after, opened);
            assert(turn.effects =~= opened + rest);
        },
        OutputPlanView::Duplicate(path) => {
            let told = opened.push(EffectView::Warn(duplicate_line(path)));
            lemma_requests_on(with, after, told);
            assert(turn.effects =~= told + rest);
        },
        OutputPlanView::Open(path) => {
            assert(turn.effects =~= opened.push(EffectView::Saving { url: url.text, path }));
        },
    }
}

/// Once a file is created for a stream, its path is in use and the stream's contents go there; if
/// it could not be, they go nowhere. Either way the stream is added and the next request is made.
pub proof fn law_file_created_or_not<T>(state: OldView<T>, created: bool)
    requires
        state.wf(),
        state.phase is Opening,
    ensures
        ({
            let stream_id = state.phase->Opening_stream_id;
            let path = state.phase->Opening_path;
            let with = OldView {
                urls: UrlHandlerView {
                    streams: state.urls.streams.insert(
                        stream_id,
                        StreamHandlerView::Download {
                            out_file: if created {
                                Some(path)
                            } else {
                                None
                            },
                        },
                    ),
                    paths: if created {
                        state.urls.paths.push(path)
                    } else {
                        state.urls.paths
                    },
                    ..state.urls
                },
                ..state
            };
            requests_on(
                with,
                state.phase->Opening_after,
                state.next(OldInput::Opened(created)),
                Seq::empty(),
            )
        }),
{
    let stream_id = state.phase->Opening_stream_id;
    let path = state.phase->Opening_path;
    let after = state.phase->Opening_after;
    let with = OldView {
        urls: UrlHandlerView {
            streams: state.urls.streams.insert(
                stream_id,
                StreamHandlerView::Download {
                    out_file: if created {
                        Some(path)
                    } else {
                        None
                    },
                },
            ),
            paths: if created {
                state.urls.paths.push(path)
            } else {
                state.urls.paths
            },
            ..state.urls
        },
        ..state
    };
    assert(with.urls.streams.dom().contains(stream_id));
    assert(with.urls.streams.dom().len() > 0);
    lemma_requests_on(with, after, Seq::empty());
    assert(Seq::<EffectView>::empty() + with.download_urls(after).effects
        =~= with.download_urls(after).effects);
}

/// A stream that has to wait is told of, puts its URL back in front and goes back; one that cannot
/// be created at all ends the client, with the error.
pub proof fn law_stream_not_created<T>(state: OldView<T>, e: TransportError)
    requires
        state.phase is Creating,
    ensures
        ({
            let url = state.phase->Creating_url;
            let after = state.phase->Creating_after;
            let turn = state.next(OldInput::Created(Err(e)));
            let back = OldView {
                urls: UrlHandlerView { queue: seq![url] + state.urls.queue, ..state.urls },
                ..state
            };
            if e == TransportError::StreamLimitError {
                goes_back(
                    back,
                    after,
                    turn,
                    seq![EffectView::Print(refused_line("StreamLimitError"@))],
                )
            } else if e == TransportError::ConnectionState {
                goes_back(
                    back,
                    after,
                    turn,
                    seq![EffectView::Print(refused_line("ConnectionState"@))],
                )
            } else {
                &&& turn.effects.len() == 0
                &&& turn.request == OldRequestView::Abort(AbortView::CannotCreateStream(e))
            }
        }),
{
    let url = state.phase->Creating_url;
    assert((seq![url] + state.urls.queue).len() > 0);
}

/// Once the events that were left are known, the connection is closed and the client ends; nothing
/// but the token can have changed.
pub proof fn law_closed_after_draining<T>(state: OldView<T>, events: Seq<ConnectionEvent<T>>)
    requires
        state.phase is Draining,
    ensures
        ({
            let turn = state.next(OldInput::Drained(events));
            &&& turn.effects == seq![EffectView::Close { code: 0, reason: "kthxbye!"@ }]
            &&& turn.request == OldRequestView::Return(Ok(false))
            &&& turn.state.phase is Idle
            &&& turn.state.urls == state.urls
        }),
{
    let turn = state.next(OldInput::Drained(events));
    assert(turn.effects =~= seq![EffectView::Close { code: 0, reason: "kthxbye!"@ }]);
}

/// Nothing changes that an answer is not about: the token only with a new one, the need for a key
/// update only with an attempt, the paths in use only with a file that was created; how requests
/// are made and whether data is shown, never.
pub proof fn law_nothing_else_changes<T>(state: OldView<T>, input: OldInput<T>)
    requires
        state.awaits(input),
    ensures
        ({
            let next = state.next(input).state;
            &&& next.urls.args == state.urls.args
            &&& next.urls.handler_type == state.urls.handler_type
            &&& next.output_read_data == state.output_read_data
            &&& input !is Drained ==> next.token == match input {
                OldInput::Event(Some(ConnectionEventView::ResumptionToken(t))) => Some(t),
                _ => state.token,
            }
            &&& input !is KeysUpdated ==> next.key_update == state.key_update
            &&& next.urls.paths == if input == OldInput::<T>::Opened(true) {
                state.urls.paths.push(state.phase->Opening_path)
            } else {
                state.urls.paths
            }
        }),
{
}

/// What a stream is for stays the same as long as it lasts: a stream that an answer is not about
/// is left alone.
pub proof fn law_other_streams_left_alone<T>(state: OldView<T>, input: OldInput<T>, id: u64)
    requires
        state.awaits(input),
        !(input matches OldInput::Created(Ok(new)) && new == id),
        state.phase matches OldPhaseView::Opening { stream_id, .. } ==> stream_id != id,
        state.phase matches OldPhaseView::Reading { stream_id } ==> stream_id != id,
        state.phase matches OldPhaseView::Writing { stream_id, .. } ==> stream_id != id,
    ensures
        ({
            let next = state.next(input).state;
            &&& next.urls.streams.contains_key(id) == state.urls.streams.contains_key(id)
            &&& next.urls.streams[id] == state.urls.streams[id]
        }),
{
}

} // verus!
