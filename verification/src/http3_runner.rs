//! An HTTP/3 connection, from its start to the token that it leaves.

use crate::args::{Args, Exit, EXIT_UNSUPPORTED};
use crate::event_loop::{turns, EventLoop, LoopInput, LoopPhase, LoopStep, LoopView};
use crate::files::optional_text;
use crate::http3::{Handler, HandlerView, PhaseView};
use crate::key_update::KeyUpdateState;
use crate::requests::{request_args, url_views, RequestArgs, URLHandler, UrlHandlerView};
use crate::setup::{create_http3_client, http3_follows, Http3Setup};
use crate::stream::StreamHandlerType;
use crate::text::same_text;
use crate::urls::Url;
use std::collections::VecDeque;
use vstd::prelude::*;

verus! {

/// An HTTP/3 connection.
pub struct ClientRunner<T> {
    /// What is done when something happens.
    pub handler: Handler<T>,
    /// The loop that it is run by.
    pub event_loop: EventLoop,
    /// Whether a token is to be left for a later connection.
    pub leaves_token: bool,
}

/// The token that a connection leaves.
pub enum TokenChoice<T> {
    /// This one, or none.
    Settled(Option<T>),
    /// One that the connection is asked for.
    Ask,
}

/// Whether a test is one that can run, or none is to run.
pub open spec fn test_supported(test: Option<Seq<char>>) -> bool {
    test matches Some(name) ==> name == "upload"@
}

/// What is told of a test that cannot run.
pub open spec fn unsupported_test_line(name: Seq<char>) -> Seq<char> {
    "Unsupported test case: "@ + name
}

/// An HTTP/3 client that has made no request yet. In a test, bytes are posted.
pub open spec fn http3_start<T>(args: Args, url_queue: Seq<Url>) -> HandlerView<T> {
    HandlerView {
        urls: UrlHandlerView {
            queue: url_views(url_queue),
            streams: Map::empty(),
            paths: Seq::empty(),
            handler_type: if args.test is Some {
                StreamHandlerType::Upload
            } else {
                StreamHandlerType::Download
            },
            args: request_args(args),
        },
        key_update: args.key_update,
        token: None,
        output_read_data: args.output_read_data,
        phase: PhaseView::Idle,
    }
}

impl<T> ClientRunner<T> {
    /// A connection that is not set up yet, and what to set it up with; or that the program ends,
    /// because there is no such test.
    pub fn new(
        args: &mut Args,
        hostname: &str,
        url_queue: VecDeque<Url>,
        resumption_token: Option<T>,
    ) -> (r: Result<(ClientRunner<T>, Http3Setup<T>), Exit>)
        requires
            old(args).output_dir is Some ==> forall|i: int|
                0 <= i < url_queue@.len() ==> (#[trigger] url_queue@[i])@.path.len() > 0,
        ensures
            test_supported(optional_text(old(args).test)) <==> r is Ok,
            match r {
                Ok((runner, setup)) => {
                    &&& final(args).method@ == if old(args).test is Some {
                        "POST"@
                    } else {
                        old(args).method@
                    }
                    &&& *final(args) == (Args { method: final(args).method, ..*old(args) })
                    &&& http3_follows(setup, *old(args), hostname@, resumption_token)
                    &&& runner.handler@ == http3_start::<T>(*final(args), url_queue@)
                    &&& runner.handler@.wf()
                    &&& runner.event_loop@ == (LoopView {
                        timeout: None,
                        phase: LoopPhase::Stopped,
                    })
                    &&& runner.leaves_token == (old(args).test is None && old(args).resume)
                },
                Err(exit) => {
                    &&& exit.code == EXIT_UNSUPPORTED
                    &&& exit.line matches Some(line) && line@ == unsupported_test_line(
                        old(args).test->0@,
                    )
                    &&& *final(args) == *old(args)
                },
            },
    {
        if let Some(name) = &args.test {
            if !same_text(name.as_str(), "upload") {
                let mut line = "Unsupported test case: ".to_owned();
                line.append(name.as_str());
                return Err(Exit { code: EXIT_UNSUPPORTED, line: Some(line) });
            }
        }
        let setup = create_http3_client(args, hostname, resumption_token);
        let tests = args.test.is_some();
        if tests {
            args.method = "POST".to_owned();
        }
        let url_handler = URLHandler::new(
            url_queue,
            if tests {
                StreamHandlerType::Upload
            } else {
                StreamHandlerType::Download
            },
            RequestArgs::of(args),
        );
        let handler = Handler::new(
            url_handler,
            KeyUpdateState(args.key_update),
            args.output_read_data,
        );
        proof {
            assert(handler@ =~= http3_start::<T>(*args, url_queue@));
        }
        let leaves_token = !tests && args.resume;
        Ok((ClientRunner { handler, event_loop: EventLoop::new(), leaves_token }, setup))
    }

    /// Starts to run the connection.
    pub fn run(&mut self) -> (step: LoopStep)
        requires
            old(self).event_loop@.awaits(LoopInput::Run),
        ensures
            turns(step, final(self).event_loop@, old(self).event_loop@.next(LoopInput::Run)),
            final(self).handler == old(self).handler,
            final(self).leaves_token == old(self).leaves_token,
    {
        self.event_loop.run()
    }

    /// The token that the connection leaves, once it is over. If none has come, the connection is
    /// asked for one: lots of servers don't provide a token by themselves, but a session ticket
    /// is better than nothing.
    pub fn take_token(&mut self) -> (choice: TokenChoice<T>)
        ensures
            final(self).handler@ == (HandlerView {
                token: if old(self).leaves_token {
                    None
                } else {
                    old(self).handler@.token
                },
                ..old(self).handler@
            }),
            final(self).event_loop == old(self).event_loop,
            final(self).leaves_token == old(self).leaves_token,
            choice == (if !old(self).leaves_token {
                TokenChoice::Settled(None)
            } else {
                match old(self).handler@.token {
                    Some(t) => TokenChoice::Settled(Some(t)),
                    None => TokenChoice::Ask,
                }
            }),
    {
        if !self.leaves_token {
            return TokenChoice::Settled(None);
        }
        match self.handler.take_token() {
            Some(t) => TokenChoice::Settled(Some(t)),
            None => TokenChoice::Ask,
        }
    }
}

} // verus!
