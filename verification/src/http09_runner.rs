//! An HTTP/0.9 connection, from its start to the token that it leaves.

use crate::args::Args;
use crate::event_loop::{turns, EventLoop, LoopInput, LoopPhase, LoopStep, LoopView};
use crate::http09::{HandlerOld, OldPhaseView, OldView};
use crate::http3_runner::TokenChoice;
use crate::key_update::KeyUpdateState;
use crate::requests::{request_args, url_views, RequestArgs, URLHandler, UrlHandlerView};
use crate::setup::{create_old_client, old_alpn, transport_follows, OldSetup};
use crate::stream::StreamHandlerType;
use crate::urls::Url;
use std::collections::VecDeque;
use vstd::prelude::*;

verus! {

/// An HTTP/0.9 connection.
pub struct ClientRunner<T> {
    /// What is done when something happens.
    pub handler: HandlerOld<T>,
    /// The loop that it is run by.
    pub event_loop: EventLoop,
    /// Whether a token is to be left for a later connection.
    pub leaves_token: bool,
}

/// An HTTP/0.9 client that has made no request yet.
pub open spec fn old_start<T>(args: Args, url_queue: Seq<Url>) -> OldView<T> {
    OldView {
        urls: UrlHandlerView {
            queue: url_views(url_queue),
            streams: Map::empty(),
            paths: Seq::empty(),
            handler_type: StreamHandlerType::Download,
            args: request_args(args),
        },
        output_read_data: args.output_read_data,
        token: None,
        key_update: args.key_update,
        phase: OldPhaseView::Idle,
    }
}

impl<T> ClientRunner<T> {
    /// A connection that is not set up yet, and what to set it up with.
    pub fn new(
        args: &Args,
        origin: &str,
        url_queue: VecDeque<Url>,
        token: Option<T>,
    ) -> (r: (ClientRunner<T>, OldSetup<T>))
        requires
            args.output_dir is Some ==> forall|i: int|
                0 <= i < url_queue@.len() ==> (#[trigger] url_queue@[i])@.path.len() > 0,
        ensures
            transport_follows(r.1.transport, *args, origin@, old_alpn(args.alpn@)),
            r.1.token == token,
            r.0.handler@ == old_start::<T>(*args, url_queue@),
            r.0.handler@.wf(),
            r.0.event_loop@ == (LoopView { timeout: None, phase: LoopPhase::Stopped }),
            r.0.leaves_token == args.resume,
    {
        let setup = create_old_client(args, origin, token);
        let url_handler = URLHandler::new(
            url_queue,
            StreamHandlerType::Download,
            RequestArgs::of(args),
        );
        let handler = HandlerOld::new(
            url_handler,
            KeyUpdateState(args.key_update),
            args.output_read_data,
        );
        proof {
            assert(handler@ =~= old_start::<T>(*args, url_queue@));
        }
        (ClientRunner { handler, event_loop: EventLoop::new(), leaves_token: args.resume }, setup)
    }

    /// Starts to run the connection.
    pub fn run(&mut self) -> (step: LoopStep)
        requires
            old(self).event_loop@.awaits(LoopInput::Run),
        ensures
            turns(step, final(self).event_loop@, old(self).event_loop@.next(LoopInput::Run)),
            final(self).handler == old(self).handler,
            final(self).leaves_token == old(self).leaves_token,
    {
        self.event_loop.run()
    }

    /// The token that the connection leaves, once it is over. If none has come, the connection is
    /// asked for one: lots of servers don't provide a token by themselves, but a session ticket
    /// is better than nothing.
    pub fn take_token(&mut self) -> (choice: TokenChoice<T>)
        ensures
            final(self).handler@ == (OldView {
                token: if old(self).leaves_token {
                    None
                } else {
                    old(self).handler@.token
                },
                ..old(self).handler@
            }),
            final(self).event_loop == old(self).event_loop,
            final(self).leaves_token == old(self).leaves_token,
            choice == (if !old(self).leaves_token {
                TokenChoice::Settled(None)
            } else {
                match old(self).handler@.token {
                    Some(t) => TokenChoice::Settled(Some(t)),
                    None => TokenChoice::Ask,
                }
            }),
    {
        if !self.leaves_token {
            return TokenChoice::Settled(None);
        }
        match self.handler.take_token() {
            Some(t) => TokenChoice::Settled(Some(t)),
            None => TokenChoice::Ask,
        }
    }
}

} // verus!
