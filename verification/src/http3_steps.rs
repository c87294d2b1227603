//! What each answer leads to, in an HTTP/3 client.

use crate::effect::{AbortView, EffectView};
use crate::error::{ClientError, Http3Error, IoError, TransportError};
use crate::files::{output_plan, OutputPlanView};
use crate::http3::{
    After, HandlerView, Http3EventView, Http3Input, Http3RequestView, PhaseView, Turn,
};
use crate::lines::{
    data_line, duplicate_line, fetched_line, fin_line, headers_line, keys_updated,
    unexpected_line, unhandled_line,
};
use crate::requests::UrlHandlerView;
use crate::stream::{StreamHandlerView, UploadView};
use crate::stream_laws::{answer, law_upload_answers, law_upload_timed};
use crate::text::{number_value, without_zeros};
use vstd::prelude::*;
use vstd::utf8::{encode_utf8, valid_utf8};

verus! {

impl<T> HandlerView<T> {
    /// With other streams.
    pub open spec fn with_streams(self, streams: Map<u64, StreamHandlerView>) -> Self {
        HandlerView { urls: UrlHandlerView { streams, ..self.urls }, ..self }
    }

    /// With the first URL that waits gone.
    pub open spec fn with_first_gone(self) -> Self {
        HandlerView {
            urls: UrlHandlerView { queue: self.urls.queue.drop_first(), ..self.urls },
            ..self
        }
    }

    /// With another phase.
    pub open spec fn in_phase(self, phase: PhaseView) -> Self {
        HandlerView { phase, ..self }
    }

    /// Whether a URL waits and there is room for a request.
    pub open spec fn can_request(self) -> bool {
        &&& self.urls.queue.len() > 0
        &&& self.urls.streams.dom().len() < self.urls.args.concurrency
    }
}

/// Whether a turn, after `told`, makes the request for the first URL that waits.
pub open spec fn fetches_first<T>(
    before: HandlerView<T>,
    after: After,
    turn: Turn<T>,
    told: Seq<EffectView>,
) -> bool {
    let url = before.urls.queue[0];
    &&& turn.effects == told
    &&& turn.request == (Http3RequestView::Fetch {
        url,
        method: before.urls.args.method,
        headers: Seq::empty(),
    })
    &&& turn.state == before.with_first_gone().in_phase(PhaseView::Fetching { url, after })
}

/// Whether a turn, after `told`, asks for the next event or is done for now.
pub open spec fn goes_back<T>(
    before: HandlerView<T>,
    after: After,
    turn: Turn<T>,
    told: Seq<EffectView>,
) -> bool {
    &&& turn.effects == told
    &&& if after is NextEvent {
        &&& turn.request is NextEvent
        &&& turn.state == before.in_phase(PhaseView::Polling)
    } else {
        &&& turn.request == Http3RequestView::Return(Ok(true))
        &&& turn.state == before.in_phase(PhaseView::Idle)
    }
}

/// Whether a turn ends a stream, after `told`: the stream is forgotten. If a URL waits, it is
/// requested. If nothing is left, the connection is closed and the client ends. Else it is done
/// for now.
pub open spec fn ends_stream<T>(
    before: HandlerView<T>,
    stream_id: u64,
    turn: Turn<T>,
    told: Seq<EffectView>,
) -> bool {
    let rest = before.with_streams(before.urls.streams.remove(stream_id));
    if before.urls.queue.len() > 0 {
        fetches_first(rest, After::StreamEnd, turn, told)
    } else if rest.urls.streams.dom().len() == 0 {
        &&& turn.effects == told.push(EffectView::Close { code: 0, reason: "kthxbye!"@ })
        &&& turn.request == Http3RequestView::Return(Ok(false))
        &&& turn.state == rest.in_phase(PhaseView::Idle)
    } else {
        goes_back(rest, After::StreamEnd, turn, told)
    }
}

/// Ending a stream, with effects before.
proof fn lemma_ends_stream<T>(before: HandlerView<T>, stream_id: u64, told: Seq<EffectView>)
    requires
        before.wf(),
        before.urls.streams.contains_key(stream_id),
    ensures
        ends_stream(before, stream_id, before.on_stream_fin(stream_id).following(told), told),
{
    let rest = before.urls.without_stream(stream_id);
    assert(rest.outstanding() == before.urls.outstanding() - 1);
    assert(before.urls.queue.len() > 0 ==> before.urls.queue.skip(1)
        =~= before.urls.queue.drop_first());
    assert(told + Seq::<EffectView>::empty() =~= told);
    let close = EffectView::Close { code: 0, reason: "kthxbye!"@ };
    assert(told + (seq![close] + Seq::<EffectView>::empty()) =~= told.push(close));
    assert(before.on_stream_fin(stream_id).following(told).effects =~= told
        || before.on_stream_fin(stream_id).following(told).effects =~= told.push(close));
}

/// When a read reports the end of a stream whose contents are not saved, the data is shown and the
/// stream is ended.
pub proof fn law_end_of_shown_stream<T>(
    state: HandlerView<T>,
    stream_id: u64,
    data: Seq<u8>,
    sz: usize,
    now: u64,
)
    requires
        state.wf(),
        state.phase == (PhaseView::Reading { stream_id }),
        state.urls.streams[stream_id] == (StreamHandlerView::Download { out_file: None }),
        sz <= data.len(),
    ensures
        ends_stream(
            state,
            stream_id,
            state.next(Http3Input::Data { data, sz, fin: true, now }),
            seq![
                EffectView::Print(data_line(stream_id, data, sz, state.output_read_data)),
                EffectView::Print(fin_line(stream_id)),
            ],
        ),
{
    lemma_ends_stream(
        state,
        stream_id,
        seq![
            EffectView::Print(data_line(stream_id, data, sz, state.output_read_data)),
            EffectView::Print(fin_line(stream_id)),
        ],
    );
}

/// When a read reports the end of a stream whose contents are saved, the data that came with it is
/// written to the file, and once that has worked the stream is ended; if no data came with it, it
/// is ended at once.
pub proof fn law_end_of_saved_stream<T>(
    state: HandlerView<T>,
    stream_id: u64,
    path: Seq<char>,
    data: Seq<u8>,
    sz: usize,
    now: u64,
)
    requires
        state.wf(),
        state.phase == (PhaseView::Reading { stream_id }),
        state.urls.streams[stream_id] == (StreamHandlerView::Download { out_file: Some(path) }),
        sz <= data.len(),
    ensures
        ({
            let turn = state.next(Http3Input::Data { data, sz, fin: true, now });
            if sz == 0 {
                ends_stream(state, stream_id, turn, Seq::empty())
            } else {
                &&& turn.effects.len() == 0
                &&& turn.request == (Http3RequestView::Write {
                    stream_id,
                    data: data.take(sz as int),
                })
                &&& turn.state.urls == state.urls
                &&& turn.state.awaits(Http3Input::Written(Ok(())))
                &&& ends_stream(
                    state,
                    stream_id,
                    turn.state.next(Http3Input::Written(Ok(()))),
                    Seq::empty(),
                )
            }
        }),
{
    let none = Seq::<EffectView>::empty();
    let turn = state.next(Http3Input::Data { data, sz, fin: true, now });
    if sz == 0 {
        lemma_ends_stream(state, stream_id, none);
    } else {
        lemma_ends_stream(turn.state, stream_id, none);
        let last = turn.state.next(Http3Input::Written(Ok(())));
        assert(none + turn.state.on_stream_fin(stream_id).effects
            =~= turn.state.on_stream_fin(stream_id).effects);
        assert(last == turn.state.on_stream_fin(stream_id));
    }
}

/// When the peer of an upload answers with a number and the end of the stream, the time is told if
/// everything has arrived, and the stream is ended.
pub proof fn law_end_of_upload<T>(
    state: HandlerView<T>,
    stream_id: u64,
    upload: UploadView,
    n: nat,
    zeros: nat,
    sz: usize,
    now: u64,
)
    requires
        state.wf(),
        state.phase == (PhaseView::Reading { stream_id }),
        state.urls.streams[stream_id] == StreamHandlerView::Upload(upload),
        n <= usize::MAX,
        upload.start <= now,
    ensures
        ends_stream(
            state,
            stream_id,
            state.next(Http3Input::Data { data: answer(n, zeros), sz, fin: true, now }),
            if n == upload.data.len() {
                seq![EffectView::UploadTime { stream_id, nanos: (now - upload.start) as u64 }]
            } else {
                Seq::empty()
            },
        ),
{
    let told = if n == upload.data.len() {
        seq![EffectView::UploadTime { stream_id, nanos: (now - upload.start) as u64 }]
    } else {
        Seq::empty()
    };
    law_upload_timed(upload, stream_id, n, zeros, sz, true, state.output_read_data, now);
    lemma_ends_stream(state, stream_id, told);
    let data = answer(n, zeros);
    assert(crate::stream::data_told(
        state.urls.streams[stream_id],
        stream_id,
        true,
        data,
        sz,
        state.output_read_data,
        now,
    ) =~= told);
}

/// When the peer of an upload answers with a number before the end of the stream, the time is told
/// if everything has arrived, reading goes on until nothing is there, and nothing is forgotten.
pub proof fn law_upload_read_on<T>(
    state: HandlerView<T>,
    stream_id: u64,
    upload: UploadView,
    n: nat,
    zeros: nat,
    sz: usize,
    now: u64,
)
    requires
        state.wf(),
        state.phase == (PhaseView::Reading { stream_id }),
        state.urls.streams[stream_id] == StreamHandlerView::Upload(upload),
        n <= usize::MAX,
        upload.start <= now,
    ensures
        ({
            let turn = state.next(
                Http3Input::Data { data: answer(n, zeros), sz, fin: false, now },
            );
            &&& turn.effects == if n == upload.data.len() {
                seq![EffectView::UploadTime { stream_id, nanos: (now - upload.start) as u64 }]
            } else {
                Seq::empty()
            }
            &&& sz == 0 ==> turn.request is NextEvent && turn.state == state.in_phase(
                PhaseView::Polling,
            )
            &&& sz > 0 ==> turn.request == (Http3RequestView::Read { stream_id }) && turn.state
                == state
        }),
{
    law_upload_timed(upload, stream_id, n, zeros, sz, false, state.output_read_data, now);
    let turn = state.next(Http3Input::Data { data: answer(n, zeros), sz, fin: false, now });
    assert(turn.effects =~= if n == upload.data.len() {
        seq![EffectView::UploadTime { stream_id, nanos: (now - upload.start) as u64 }]
    } else {
        Seq::empty()
    });
}

/// When the peer of an upload answers with text that is no number, or with what is no text, the
/// client says so and ends.
pub proof fn law_upload_answer_refused<T>(
    state: HandlerView<T>,
    stream_id: u64,
    upload: UploadView,
    text: Seq<char>,
    data: Seq<u8>,
    sz: usize,
    fin: bool,
    now: u64,
)
    requires
        state.phase == (PhaseView::Reading { stream_id }),
        state.urls.streams[stream_id] == StreamHandlerView::Upload(upload),
        number_value(without_zeros(text), 10, usize::MAX as nat) is None,
        !valid_utf8(data),
    ensures
        ({
            let turn = state.next(Http3Input::Data { data: encode_utf8(text), sz, fin, now });
            &&& turn.effects.len() == 0
            &&& turn.request == Http3RequestView::Abort(
                AbortView::UnexpectedLength { stream_id, text: without_zeros(text) },
            )
        }),
        ({
            let turn = state.next(Http3Input::Data { data, sz, fin, now });
            &&& turn.effects.len() == 0
            &&& turn.request == Http3RequestView::Abort(
                AbortView::UnexpectedData { stream_id, data },
            )
        }),
{
    law_upload_answers(upload, stream_id, text, sz, fin, state.output_read_data, now);
}

/// As long as a stream has not ended, reading goes on until nothing is there: data that came is
/// shown, or written first, and nothing is forgotten.
pub proof fn law_reading_goes_on<T>(
    state: HandlerView<T>,
    stream_id: u64,
    data: Seq<u8>,
    sz: usize,
    now: u64,
)
    requires
        state.wf(),
        state.phase == (PhaseView::Reading { stream_id }),
        state.urls.streams[stream_id] is Download,
        sz <= data.len(),
    ensures
        ({
            let turn = state.next(Http3Input::Data { data, sz, fin: false, now });
            let saved = state.urls.streams[stream_id]->out_file is Some;
            &&& turn.effects == if saved {
                Seq::empty()
            } else {
                seq![EffectView::Print(data_line(stream_id, data, sz, state.output_read_data))]
            }
            &&& sz == 0 ==> turn.request is NextEvent && turn.state == state.in_phase(
                PhaseView::Polling,
            )
            &&& sz > 0 && !saved ==> turn.request == (Http3RequestView::Read { stream_id })
                && turn.state == state
            &&& sz > 0 && saved ==> {
                let next = turn.state.next(Http3Input::Written(Ok(())));
                &&& turn.request == (Http3RequestView::Write {
                    stream_id,
                    data: data.take(sz as int),
                })
                &&& turn.state.awaits(Http3Input::Written(Ok(())))
                &&& next.effects.len() == 0
                &&& next.request == (Http3RequestView::Read { stream_id })
                &&& next.state == state
            }
        }),
{
    let turn = state.next(Http3Input::Data { data, sz, fin: false, now });
    assert(turn.effects =~= if state.urls.streams[stream_id]->out_file is Some {
        Seq::empty()
    } else {
        seq![EffectView::Print(data_line(stream_id, data, sz, state.output_read_data))]
    });
}

/// Data that cannot be written is a failure, with what failed.
pub proof fn law_write_failure_handed_on<T>(state: HandlerView<T>, e: IoError)
    requires
        state.phase is Writing,
    ensures
        ({
            let turn = state.next(Http3Input::Written(Err(e)));
            &&& turn.effects.len() == 0
            &&& turn.request == Http3RequestView::Return(Err(ClientError::IoError(e)))
            &&& turn.state == state.in_phase(PhaseView::Idle)
        }),
{
}

/// Headers on a stream are shown unless its contents are saved; with the end of the stream, it is
/// ended.
pub proof fn law_headers_dealt_with<T>(
    state: HandlerView<T>,
    stream_id: u64,
    headers: Seq<char>,
    fin: bool,
)
    requires
        state.wf(),
        state.phase is Polling,
        state.urls.streams.contains_key(stream_id),
    ensures
        ({
            let event = Http3EventView::HeaderReady { stream_id, headers, fin };
            let turn = state.next(Http3Input::Event(Some(event)));
            let told = if state.urls.streams[stream_id] is Download
                && state.urls.streams[stream_id]->out_file is Some {
                Seq::empty()
            } else {
                seq![EffectView::Print(headers_line(stream_id, fin, headers))]
            };
            if fin {
                ends_stream(state, stream_id, turn, told)
            } else {
                goes_back(state, After::NextEvent, turn, told)
            }
        }),
{
    let told = if state.urls.streams[stream_id] is Download
        && state.urls.streams[stream_id]->out_file is Some {
        Seq::empty()
    } else {
        seq![EffectView::Print(headers_line(stream_id, fin, headers))]
    };
    assert(told + Seq::<EffectView>::empty() =~= told);
    lemma_ends_stream(state, stream_id, told);
}

/// What the other events lead to.
pub proof fn law_events_dealt_with<T>(
    state: HandlerView<T>,
    stream_id: u64,
    token: T,
    text: Seq<char>,
)
    requires
        state.phase is Polling,
    ensures
        goes_back(
            state,
            After::NextEvent,
            state.next(Http3Input::Event(Some(Http3EventView::AuthenticationNeeded))),
            seq![EffectView::Authenticate],
        ),
        goes_back(
            HandlerView { token: Some(token), ..state },
            After::NextEvent,
            state.next(Http3Input::Event(Some(Http3EventView::ResumptionToken(token)))),
            Seq::empty(),
        ),
        goes_back(
            state,
            After::NextEvent,
            state.next(Http3Input::Event(Some(Http3EventView::Other(text)))),
            seq![EffectView::Print(unhandled_line(text))],
        ),
        goes_back(
            state,
            After::KeyUpdate,
            state.next(Http3Input::Event(None)),
            Seq::empty(),
        ),
        state.urls.streams.contains_key(stream_id) ==> {
            let turn = state.next(
                Http3Input::Event(Some(Http3EventView::DataReadable { stream_id })),
            );
            &&& turn.effects.len() == 0
            &&& turn.request == (Http3RequestView::Read { stream_id })
            &&& turn.state == state.in_phase(PhaseView::Reading { stream_id })
        },
{
    let none = Seq::<EffectView>::empty();
    assert(seq![EffectView::Authenticate] + none =~= seq![EffectView::Authenticate]);
    let line = seq![EffectView::Print(unhandled_line(text))];
    assert(line + none =~= line);
}

/// Something on a stream that nobody asked for is told of, and ends the client.
pub proof fn law_unknown_stream_told<T>(
    state: HandlerView<T>,
    stream_id: u64,
    headers: Seq<char>,
    fin: bool,
)
    requires
        state.phase is Polling,
        !state.urls.streams.contains_key(stream_id),
    ensures
        forall|event: Http3EventView<T>|
            event == (Http3EventView::<T>::DataReadable { stream_id }) || event == (
            Http3EventView::<T>::DataWritable { stream_id }) || event == (Http3EventView::<
                T,
            >::HeaderReady { stream_id, headers, fin }) ==> {
                let turn = #[trigger] state.next(Http3Input::Event(Some(event)));
                &&& turn.effects == seq![EffectView::Print(unexpected_line(stream_id))]
                &&& turn.request == Http3RequestView::Return(Ok(false))
                &&& turn.state == state.in_phase(PhaseView::Idle)
            },
{
    let line = seq![EffectView::Print(unexpected_line(stream_id))];
    assert(line + Seq::<EffectView>::empty() =~= line);
}

/// Whether a turn, after `told`, makes the next request if that is possible, and else goes back to
/// where requests were made from.
pub open spec fn requests_on<T>(
    before: HandlerView<T>,
    after: After,
    turn: Turn<T>,
    told: Seq<EffectView>,
) -> bool {
    if before.can_request() {
        fetches_first(before, after, turn, told)
    } else {
        goes_back(before, after, turn, told)
    }
}

/// Making requests with a stream outstanding, with effects before.
proof fn lemma_requests_on<T>(before: HandlerView<T>, after: After, told: Seq<EffectView>)
    requires
        after is StreamEnd ==> before.urls.streams.dom().len() > 0,
    ensures
        requests_on(before, after, before.process_urls(after).following(told), told),
{
    assert(before.urls.queue.len() > 0 ==> before.urls.queue.skip(1)
        =~= before.urls.queue.drop_first());
    assert(told + Seq::<EffectView>::empty() =~= told);
}

/// When the connection is up or takes requests again, requests are made.
pub proof fn law_requests_started<T>(state: HandlerView<T>, event: Http3EventView<T>)
    requires
        state.phase is Polling,
        event is Connected || event is RequestsCreatable,
    ensures
        requests_on(
            state,
            After::NextEvent,
            state.next(Http3Input::Event(Some(event))),
            Seq::empty(),
        ),
{
    lemma_requests_on(state, After::NextEvent, Seq::empty());
    assert(Seq::<EffectView>::empty() + state.process_urls(After::NextEvent).effects
        =~= state.process_urls(After::NextEvent).effects);
}

/// A request that was made for contents that are not saved gets a stream, of which it is told; the
/// client sends no more on it, and goes on with the next request.
pub proof fn law_unsaved_download_started<T>(
    state: HandlerView<T>,
    stream_id: u64,
    now: u64,
)
    requires
        state.wf(),
        state.phase is Fetching,
        state.urls.handler_type is Download,
    ensures
        ({
            let url = state.phase->Fetching_url;
            let after = state.phase->Fetching_after;
            let turn = state.next(Http3Input::Fetched { outcome: Ok(stream_id), now });
            let plan = output_plan(url.path, state.urls.args.output_dir, state.urls.paths);
            let line = EffectView::Print(fetched_line(stream_id, url.text));
            let with = state.with_streams(
                state.urls.streams.insert(
                    stream_id,
                    StreamHandlerView::Download { out_file: None },
                ),
            );
            match plan {
                OutputPlanView::Nowhere => requests_on(
                    with,
                    after,
                    turn,
                    seq![line, EffectView::CloseSend(stream_id)],
                ),
                OutputPlanView::Duplicate(path) => requests_on(
                    with,
                    after,
                    turn,
                    seq![
                        line,
                        EffectView::Warn(duplicate_line(path)),
                        EffectView::CloseSend(stream_id),
                    ],
                ),
                OutputPlanView::Open(path) => {
                    &&& turn.effects == seq![line, EffectView::Saving { url: url.text, path }]
                    &&& turn.request == (Http3RequestView::Open { stream_id, path })
                    &&& turn.state == state.in_phase(PhaseView::Opening { stream_id, path, after })
                },
            }
        }),
{
    let url = state.phase->Fetching_url;
    let after = state.phase->Fetching_after;
    let turn = state.next(Http3Input::Fetched { outcome: Ok(stream_id), now });
    let line = EffectView::Print(fetched_line(stream_id, url.text));
    let handler = StreamHandlerView::Download { out_file: None };
    let with = state.with_streams(state.urls.streams.insert(stream_id, handler));
    assert(with.urls.streams.dom().contains(stream_id));
    assert(with.urls.streams.dom().len() > 0);
    let rest = with.process_urls(after).effects;
    match output_plan(url.path, state.urls.args.output_dir, state.urls.paths) {
        OutputPlanView::Nowhere => {
            let told = seq![line, EffectView::CloseSend(stream_id)];
            lemma_requests_on(with, after, told);
            assert(turn.effects =~= told + rest);
        },
        OutputPlanView::Duplicate(path) => {
            let told = seq![
                line,
                EffectView::Warn(duplicate_line(path)),
                EffectView::CloseSend(stream_id),
            ];
            lemma_requests_on(with, after, told);
            assert(turn.effects =~= told + rest);
        },
        OutputPlanView::Open(path) => {
            assert(turn.effects =~= seq![line, EffectView::Saving { url: url.text, path }]);
        },
    }
}

/// Once a file is created for a stream, its path is in use and the stream's contents go there; if
/// it could not be, they go nowhere. Either way the client sends no more on the stream, and goes on
/// with the next request.
pub proof fn law_file_created_or_not<T>(state: HandlerView<T>, created: bool)
    requires
        state.wf(),
        state.phase is Opening,
    ensures
        ({
            let stream_id = state.phase->Opening_stream_id;
            let path = state.phase->Opening_path;
            let after = state.phase->Opening_after;
            let turn = state.next(Http3Input::Opened(created));
            let out_file = if created {
                Some(path)
            } else {
                None
            };
            let paths = if created {
                state.urls.paths.push(path)
            } else {
                state.urls.paths
            };
            let with = HandlerView {
                urls: UrlHandlerView {
                    streams: state.urls.streams.insert(
                        stream_id,
                        StreamHandlerView::Download { out_file },
                    ),
                    paths,
                    ..state.urls
                },
                ..state
            };
            requests_on(with, after, turn, seq![EffectView::CloseSend(stream_id)])
        }),
{
    let stream_id = state.phase->Opening_stream_id;
    let path = state.phase->Opening_path;
    let after = state.phase->Opening_after;
    let out_file = if created {
        Some(path)
    } else {
        None
    };
    let paths = if created {
        state.urls.paths.push(path)
    } else {
        state.urls.paths
    };
    let with = HandlerView {
        urls: UrlHandlerView {
            streams: state.urls.streams.insert(
                stream_id,
                StreamHandlerView::Download { out_file },
            ),
            paths,
            ..state.urls
        },
        ..state
    };
    assert(with.urls.streams.dom().contains(stream_id));
    assert(with.urls.streams.dom().len() > 0);
    lemma_requests_on(with, after, seq![EffectView::CloseSend(stream_id)]);
}

/// A request that was made for an upload gets a stream with all the bytes to upload, none of them
/// sent, and the client goes on with the next request. The sending side stays open.
pub proof fn law_upload_started<T>(state: HandlerView<T>, stream_id: u64, now: u64)
    requires
        state.wf(),
        state.phase is Fetching,
        state.urls.handler_type is Upload,
    ensures
        ({
            let url = state.phase->Fetching_url;
            let after = state.phase->Fetching_after;
            let turn = state.next(Http3Input::Fetched { outcome: Ok(stream_id), now });
            let upload = UploadView {
                data: Seq::new(state.urls.args.upload_size, |i: int| 42u8),
                offset: 0,
                chunk_size: 32768,
                start: now,
            };
            requests_on(
                state.with_streams(
                    state.urls.streams.insert(stream_id, StreamHandlerView::Upload(upload)),
                ),
                after,
                turn,
                seq![EffectView::Print(fetched_line(stream_id, url.text))],
            )
        }),
{
    let url = state.phase->Fetching_url;
    let after = state.phase->Fetching_after;
    let upload = UploadView {
        data: Seq::new(state.urls.args.upload_size, |i: int| 42u8),
        offset: 0,
        chunk_size: 32768,
        start: now,
    };
    assert(upload.data =~= crate::stream::new_upload(state.urls.args.upload_size, now).data);
    let with = state.with_streams(
        state.urls.streams.insert(stream_id, StreamHandlerView::Upload(upload)),
    );
    assert(with.urls.streams.dom().contains(stream_id));
    assert(with.urls.streams.dom().len() > 0);
    lemma_requests_on(with, after, seq![EffectView::Print(fetched_line(stream_id, url.text))]);
}

/// A request that has to wait puts its URL back in front and goes back; one that cannot be made at
/// all ends the client, with the error.
pub proof fn law_request_not_made<T>(state: HandlerView<T>, e: Http3Error, now: u64)
    requires
        state.phase is Fetching,
    ensures
        ({
            let url = state.phase->Fetching_url;
            let after = state.phase->Fetching_after;
            let turn = state.next(Http3Input::Fetched { outcome: Err(e), now });
            if e == Http3Error::TransportError(TransportError::StreamLimitError) || e
                == Http3Error::StreamLimitError || e == Http3Error::Unavailable {
                goes_back(
                    HandlerView {
                        urls: UrlHandlerView {
                            queue: seq![url] + state.urls.queue,
                            ..state.urls
                        },
                        ..state
                    },
                    after,
                    turn,
                    Seq::empty(),
                )
            } else {
                &&& turn.effects.len() == 0
                &&& turn.request == Http3RequestView::Abort(AbortView::CannotFetch(e))
            }
        }),
{
}

/// A stream that takes data is offered the next bytes of its upload; a download, or an upload that
/// is complete, has none.
pub proof fn law_data_offered<T>(state: HandlerView<T>, stream_id: u64)
    requires
        state.phase is Polling,
        state.urls.streams.contains_key(stream_id),
    ensures
        ({
            let turn = state.next(
                Http3Input::Event(Some(Http3EventView::DataWritable { stream_id })),
            );
            match state.urls.streams[stream_id] {
                StreamHandlerView::Download { .. } => goes_back(
                    state,
                    After::KeyUpdate,
                    turn,
                    Seq::empty(),
                ),
                StreamHandlerView::Upload(u) => offers(state, stream_id, u, turn, Seq::empty()),
            }
        }),
{
}

/// Whether a turn, after `told`, offers the next bytes of an upload if there are any.
pub open spec fn offers<T>(
    before: HandlerView<T>,
    stream_id: u64,
    u: UploadView,
    turn: Turn<T>,
    told: Seq<EffectView>,
) -> bool {
    if u.offset < u.data.len() {
        let end = if u.offset + u.chunk_size <= u.data.len() {
            (u.offset + u.chunk_size) as int
        } else {
            u.data.len() as int
        };
        &&& turn.effects == told
        &&& turn.request == (Http3RequestView::Send {
            stream_id,
            data: u.data.subrange(u.offset as int, end),
        })
        &&& turn.state == before.in_phase(PhaseView::Sending { stream_id })
    } else {
        goes_back(before, After::KeyUpdate, turn, told)
    }
}

/// What was taken of an upload counts, and the next bytes are offered; when all are taken, the
/// sending side is ended. If nothing was taken, or nothing could be, sending stops for now.
pub proof fn law_taken_data_counts<T>(state: HandlerView<T>, outcome: Option<usize>, u: UploadView)
    requires
        state.wf(),
        state.phase is Sending,
        state.urls.streams[state.phase->Sending_stream_id] == StreamHandlerView::Upload(u),
    ensures
        ({
            let stream_id = state.phase->Sending_stream_id;
            let turn = state.next(Http3Input::Sent(outcome));
            match outcome {
                Some(amount) if amount > 0 => {
                    let v = UploadView { offset: u.offset + amount as nat, ..u };
                    let with = state.with_streams(
                        state.urls.streams.insert(stream_id, StreamHandlerView::Upload(v)),
                    );
                    offers(
                        with,
                        stream_id,
                        v,
                        turn,
                        if v.offset == v.data.len() {
                            seq![EffectView::CloseSend(stream_id)]
                        } else {
                            Seq::empty()
                        },
                    )
                },
                _ => goes_back(state, After::KeyUpdate, turn, Seq::empty()),
            }
        }),
{
    let stream_id = state.phase->Sending_stream_id;
    let close = seq![EffectView::CloseSend(stream_id)];
    assert(close + Seq::<EffectView>::empty() =~= close);
    if let Some(amount) = outcome {
        let v = UploadView { offset: u.offset + amount as nat, ..u };
        if v.offset < v.data.len() && v.chunk_size > v.data.len() - v.offset {
            assert(v.data.skip(v.offset as int) =~= v.data.subrange(
                v.offset as int,
                v.data.len() as int,
            ));
        }
    }
}

/// Dealing with events starts with the next one. A key update is attempted if one is needed; else
/// requests are made.
pub proof fn law_starts<T>(state: HandlerView<T>)
    requires
        state.phase is Idle,
    ensures
        goes_back(state, After::NextEvent, state.next(Http3Input::Handle), Seq::empty()),
        state.key_update ==> {
            let turn = state.next(Http3Input::KeyUpdate);
            &&& turn.effects.len() == 0
            &&& turn.request is UpdateKeys
            &&& turn.state == state.in_phase(PhaseView::Updating)
        },
        !state.key_update ==> requests_on(
            state,
            After::KeyUpdate,
            state.next(Http3Input::KeyUpdate),
            Seq::empty(),
        ),
{
    lemma_requests_on(state, After::KeyUpdate, Seq::empty());
    assert(Seq::<EffectView>::empty() + state.process_urls(After::KeyUpdate).effects
        =~= state.process_urls(After::KeyUpdate).effects);
}

/// After an attempt at a key update that worked, or has to wait, requests are made; any other
/// outcome is a failure.
pub proof fn law_key_update_dealt_with<T>(state: HandlerView<T>, outcome: Result<(), Http3Error>)
    requires
        state.phase is Updating,
    ensures
        ({
            let turn = state.next(Http3Input::KeysUpdated(outcome));
            match outcome {
                Ok(_) => requests_on(
                    HandlerView { key_update: false, ..state },
                    After::KeyUpdate,
                    turn,
                    seq![EffectView::Print(keys_updated())],
                ),
                Err(e) => if e == Http3Error::TransportError(TransportError::KeyUpdateBlocked) {
                    requests_on(
                        HandlerView { key_update: true, ..state },
                        After::KeyUpdate,
                        turn,
                        Seq::empty(),
                    )
                } else {
                    &&& turn.effects.len() == 0
                    &&& turn.request == Http3RequestView::Return(Err(ClientError::Http3Error(e)))
                    &&& turn.state.key_update
                },
            }
        }),
{
    let told = seq![EffectView::Print(keys_updated())];
    let done = HandlerView { key_update: false, ..state };
    let wait = HandlerView { key_update: true, ..state };
    lemma_requests_on(done, After::KeyUpdate, told);
    lemma_requests_on(wait, After::KeyUpdate, Seq::empty());
    assert(Seq::<EffectView>::empty() + wait.process_urls(After::KeyUpdate).effects
        =~= wait.process_urls(After::KeyUpdate).effects);
}

/// Nothing changes that an answer is not about: the token only with a new one, the need for a key
/// update only with an attempt, the paths in use only with a file that was created; how requests
/// are made and whether data is shown, never.
pub proof fn law_nothing_else_changes<T>(state: HandlerView<T>, input: Http3Input<T>)
    requires
        state.awaits(input),
    ensures
        ({
            let next = state.next(input).state;
            &&& next.urls.args == state.urls.args
            &&& next.urls.handler_type == state.urls.handler_type
            &&& next.output_read_data == state.output_read_data
            &&& next.token == match input {
                Http3Input::Event(Some(Http3EventView::ResumptionToken(t))) => Some(t),
                _ => state.token,
            }
            &&& input !is KeysUpdated ==> next.key_update == state.key_update
            &&& next.urls.paths == if input == Http3Input::<T>::Opened(true) {
                state.urls.paths.push(state.phase->Opening_path)
            } else {
                state.urls.paths
            }
        }),
{
}

/// What a stream is for stays the same as long as it lasts: a stream that an answer is not about
/// is left alone.
pub proof fn law_other_streams_left_alone<T>(state: HandlerView<T>, input: Http3Input<T>, id: u64)
    requires
        state.awaits(input),
        !(input matches Http3Input::Fetched { outcome: Ok(new), .. } && new == id),
        state.phase matches PhaseView::Opening { stream_id, .. } ==> stream_id != id,
        state.phase matches PhaseView::Reading { stream_id } ==> stream_id != id,
        state.phase matches PhaseView::Writing { stream_id, .. } ==> stream_id != id,
        state.phase matches PhaseView::Sending { stream_id } ==> stream_id != id,
        !(input matches Http3Input::Event(
            Some(Http3EventView::HeaderReady { stream_id, fin: true, .. }),
        ) && stream_id == id),
    ensures
        ({
            let next = state.next(input).state;
            &&& next.urls.streams.contains_key(id) == state.urls.streams.contains_key(id)
            &&& next.urls.streams[id] == state.urls.streams[id]
        }),
{
}

} // verus!
