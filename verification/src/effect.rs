//! What the client does besides deciding.

use crate::error::{Http3Error, TransportError};
use vstd::prelude::*;

verus! {

/// Something to be done at once, with nothing to be waited for.
pub enum Effect {
    /// Print a line.
    Print(String),
    /// Print a line where errors go.
    Warn(String),
    /// Tell that what comes from a URL is saved at a path.
    Saving { url: String, path: String },
    /// Tell how long an upload took, in nanoseconds.
    UploadTime { stream_id: u64, nanos: u64 },
    /// Take the peer for authenticated.
    Authenticate,
    /// Send bytes on a stream.
    Send { stream_id: u64, data: Vec<u8> },
    /// End the sending side of a stream.
    CloseSend(u64),
    /// Close the connection.
    Close { code: u64, reason: String },
}

/// The mathematical value of an [`Effect`].
pub ghost enum EffectView {
    Print(Seq<char>),
    Warn(Seq<char>),
    Saving { url: Seq<char>, path: Seq<char> },
    UploadTime { stream_id: u64, nanos: u64 },
    Authenticate,
    Send { stream_id: u64, data: Seq<u8> },
    CloseSend(u64),
    Close { code: u64, reason: Seq<char> },
}

impl View for Effect {
    type V = EffectView;

    open spec fn view(&self) -> EffectView {
        match self {
            Effect::Print(line) => EffectView::Print(line@),
            Effect::Warn(line) => EffectView::Warn(line@),
            Effect::Saving { url, path } => EffectView::Saving { url: url@, path: path@ },
            Effect::UploadTime { stream_id, nanos } => EffectView::UploadTime {
                stream_id: *stream_id,
                nanos: *nanos,
            },
            Effect::Authenticate => EffectView::Authenticate,
            Effect::Send { stream_id, data } => EffectView::Send {
                stream_id: *stream_id,
                data: data@,
            },
            Effect::CloseSend(stream_id) => EffectView::CloseSend(*stream_id),
            Effect::Close { code, reason } => EffectView::Close { code: *code, reason: reason@ },
        }
    }
}

/// The mathematical values of a row of effects.
pub open spec fn shown(effects: Seq<Effect>) -> Seq<EffectView> {
    Seq::new(effects.len(), |i: int| effects[i]@)
}

/// Puts an effect at the end of a row.
pub fn emit(effects: &mut Vec<Effect>, effect: Effect)
    ensures
        shown(final(effects)@) == shown(old(effects)@).push(effect@),
{
    effects.push(effect);
    proof {
        assert(shown(effects@) =~= shown(old(effects)@).push(effect@));
    }
}

/// Just one effect.
pub(crate) fn only(effect: Effect) -> (effects: Vec<Effect>)
    ensures
        shown(effects@) == Seq::empty() + seq![effect@],
{
    let mut effects: Vec<Effect> = Vec::new();
    emit(&mut effects, effect);
    proof {
        assert(shown(effects@) =~= Seq::empty() + seq![effect@]);
    }
    effects
}

/// The effect that closes the connection without an error.
pub open spec fn goodbye() -> EffectView {
    EffectView::Close { code: 0, reason: "kthxbye!"@ }
}

/// Closes the connection without an error.
pub fn emit_goodbye(effects: &mut Vec<Effect>)
    ensures
        shown(final(effects)@) == shown(old(effects)@).push(goodbye()),
{
    emit(effects, Effect::Close { code: 0, reason: "kthxbye!".to_owned() });
}

/// Why the client cannot go on at all.
pub enum Abort {
    /// A stream of an upload brought what is no text.
    UnexpectedData { stream_id: u64, data: Vec<u8> },
    /// A stream of an upload brought a text that is no length.
    UnexpectedLength { stream_id: u64, text: String },
    /// A stream brought what is no text where text is shown.
    UnexpectedBytes { stream_id: u64 },
    /// A request cannot be made.
    CannotFetch(Http3Error),
    /// A stream cannot be created.
    CannotCreateStream(TransportError),
}

/// The mathematical value of an [`Abort`].
pub ghost enum AbortView {
    UnexpectedData { stream_id: u64, data: Seq<u8> },
    UnexpectedLength { stream_id: u64, text: Seq<char> },
    UnexpectedBytes { stream_id: u64 },
    CannotFetch(Http3Error),
    CannotCreateStream(TransportError),
}

impl View for Abort {
    type V = AbortView;

    open spec fn view(&self) -> AbortView {
        match self {
            Abort::UnexpectedData { stream_id, data } => AbortView::UnexpectedData {
                stream_id: *stream_id,
                data: data@,
            },
            Abort::UnexpectedLength { stream_id, text } => AbortView::UnexpectedLength {
                stream_id: *stream_id,
                text: text@,
            },
            Abort::UnexpectedBytes { stream_id } => AbortView::UnexpectedBytes {
                stream_id: *stream_id,
            },
            Abort::CannotFetch(e) => AbortView::CannotFetch(*e),
            Abort::CannotCreateStream(e) => AbortView::CannotCreateStream(*e),
        }
    }
}

} // verus!
