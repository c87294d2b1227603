//! The URLs that wait to be requested and the streams that were made for them.

use crate::args::Args;
use crate::files::{all_apart, get_output_file, optional_text, output_plan, OutputPlan};
use crate::headers::{header_views, to_headers, Header, HeaderView};
use crate::path::texts;
use crate::stream::{StreamHandler, StreamHandlerType, StreamHandlerView};
use crate::urls::{Url, UrlView};
use std::collections::{HashMap, VecDeque};
use vstd::prelude::*;

verus! {

broadcast use vstd::std_specs::hash::group_hash_axioms;

/// What requests are made with.
pub struct RequestArgs {
    /// The method.
    pub method: String,
    /// The values given for headers.
    pub header: Vec<String>,
    /// The maximum number of requests to have outstanding at one time.
    pub concurrency: usize,
    /// The directory that contents are saved to, if they are.
    pub output_dir: Option<String>,
    /// The size of an upload.
    pub upload_size: usize,
}

/// The mathematical value of a [`RequestArgs`].
pub ghost struct RequestArgsView {
    pub method: Seq<char>,
    pub header: Seq<Seq<char>>,
    pub concurrency: nat,
    pub output_dir: Option<Seq<char>>,
    pub upload_size: nat,
}

impl View for RequestArgs {
    type V = RequestArgsView;

    open spec fn view(&self) -> RequestArgsView {
        RequestArgsView {
            method: self.method@,
            header: texts(self.header@),
            concurrency: self.concurrency as nat,
            output_dir: optional_text(self.output_dir),
            upload_size: self.upload_size as nat,
        }
    }
}

/// The URLs of a connection.
pub struct URLHandler {
    /// Those that have not been requested yet, in order.
    url_queue: VecDeque<Url>,
    /// The streams of those that have been, until they end.
    stream_handlers: HashMap<u64, StreamHandler>,
    /// The paths at which contents have been saved.
    all_paths: Vec<String>,
    /// What is done with the streams.
    handler_type: StreamHandlerType,
    /// What requests are made with.
    args: RequestArgs,
}

/// The mathematical values of a row of URLs.
pub open spec fn url_views(urls: Seq<Url>) -> Seq<UrlView> {
    Seq::new(urls.len(), |i: int| urls[i]@)
}

/// The mathematical value of a [`URLHandler`].
#[verifier::ext_equal]
pub ghost struct UrlHandlerView {
    pub queue: Seq<UrlView>,
    pub streams: Map<u64, StreamHandlerView>,
    pub paths: Seq<Seq<char>>,
    pub handler_type: StreamHandlerType,
    pub args: RequestArgsView,
}

impl View for URLHandler {
    type V = UrlHandlerView;

    closed spec fn view(&self) -> UrlHandlerView {
        UrlHandlerView {
            queue: url_views(self.url_queue@),
            streams: self.stream_handlers@.map_values(|h: StreamHandler| h@),
            paths: texts(self.all_paths@),
            handler_type: self.handler_type,
            args: self.args@,
        }
    }
}

/// Whether a URL can be saved wherever contents are saved: it has a path.
pub open spec fn savable(url: UrlView, args: RequestArgsView) -> bool {
    args.output_dir is Some ==> url.path.len() > 0
}

impl UrlHandlerView {
    /// The number of outstanding requests.
    pub open spec fn outstanding(self) -> nat {
        self.streams.dom().len()
    }

    /// Whether a further request may be made.
    pub open spec fn may_request(self) -> bool {
        self.queue.len() > 0 && self.outstanding() < self.args.concurrency
    }

    /// With the first URL taken out of the queue.
    pub open spec fn without_first(self) -> Self {
        UrlHandlerView { queue: self.queue.skip(1), ..self }
    }

    /// With a URL put in front of the queue.
    pub open spec fn with_first(self, url: UrlView) -> Self {
        UrlHandlerView { queue: seq![url] + self.queue, ..self }
    }

    /// With a stream added.
    pub open spec fn with_stream(self, stream_id: u64, handler: StreamHandlerView) -> Self {
        UrlHandlerView { streams: self.streams.insert(stream_id, handler), ..self }
    }

    /// With a stream gone.
    pub open spec fn without_stream(self, stream_id: u64) -> Self {
        UrlHandlerView { streams: self.streams.remove(stream_id), ..self }
    }

    /// With a path in use.
    pub open spec fn with_path(self, path: Seq<char>) -> Self {
        UrlHandlerView { paths: self.paths.push(path), ..self }
    }

    /// Whether nothing is left to request or to wait for.
    pub open spec fn done(self) -> bool {
        self.outstanding() == 0 && self.queue.len() == 0
    }

    /// The headers of requests: none.
    pub open spec fn headers(self) -> Seq<HeaderView> {
        Seq::empty()
    }

    /// At most as many requests are outstanding as allowed, every URL in the queue can be saved,
    /// and no two files are at the same place.
    pub open spec fn wf(self) -> bool {
        &&& self.streams.dom().finite()
        &&& self.outstanding() <= self.args.concurrency
        &&& forall|i: int| 0 <= i < self.queue.len() ==> savable(#[trigger] self.queue[i], self.args)
        &&& all_apart(self.paths)
    }
}

/// What requests are made with, as the arguments say.
pub open spec fn request_args(args: Args) -> RequestArgsView {
    RequestArgsView {
        method: args.method@,
        header: texts(args.header@),
        concurrency: args.concurrency as nat,
        output_dir: optional_text(args.output_dir),
        upload_size: args.upload_size as nat,
    }
}

/// A copy of a row of strings.
fn copy_texts(strings: &Vec<String>) -> (copy: Vec<String>)
    ensures
        copy@ == strings@,
{
    let copy = strings.clone();
    proof {
        assert(copy@ =~= strings@);
    }
    copy
}

impl RequestArgs {
    /// What requests are made with, as the arguments say.
    pub fn of(args: &Args) -> (r: Self)
        ensures
            r@ == request_args(*args),
    {
        RequestArgs {
            method: args.method.clone(),
            header: copy_texts(&args.header),
            concurrency: args.concurrency,
            output_dir: match &args.output_dir {
                Some(dir) => Some(dir.clone()),
                None => None,
            },
            upload_size: args.upload_size,
        }
    }
}

impl URLHandler {
    /// URLs of which none has been requested yet.
    pub fn new(
        url_queue: VecDeque<Url>,
        handler_type: StreamHandlerType,
        args: RequestArgs,
    ) -> (r: Self)
        requires
            args.output_dir is Some ==> forall|i: int|
                0 <= i < url_queue@.len() ==> (#[trigger] url_queue@[i])@.path.len() > 0,
        ensures
            r@ == (UrlHandlerView {
                queue: url_views(url_queue@),
                streams: Map::empty(),
                paths: Seq::empty(),
                handler_type,
                args: args@,
            }),
            r@.wf(),
    {
        let r = URLHandler {
            url_queue,
            stream_handlers: HashMap::new(),
            all_paths: Vec::new(),
            handler_type,
            args,
        };
        proof {
            assert(r@.streams =~= Map::empty());
            assert(r@.paths =~= Seq::empty());
            r.lemma_outstanding();
            assert(r@.streams.dom() =~= Set::empty());
        }
        r
    }

    /// The method of requests.
    pub fn method(&self) -> (method: String)
        ensures
            method@ == self@.args.method,
    {
        self.args.method.clone()
    }

    /// The headers of requests.
    pub fn headers(&self) -> (headers: Vec<Header>)
        ensures
            header_views(headers@) == self@.headers(),
    {
        let headers = to_headers(&self.args.header);
        proof {
            assert(header_views(headers@) =~= self@.headers());
        }
        headers
    }

    /// What is done with the streams.
    pub fn handler_type(&self) -> (handler_type: StreamHandlerType)
        ensures
            handler_type == self@.handler_type,
    {
        self.handler_type
    }

    /// The size of an upload.
    pub fn upload_size(&self) -> (upload_size: usize)
        ensures
            upload_size == self@.args.upload_size,
    {
        self.args.upload_size
    }

    /// Decides where the contents of a URL go.
    pub fn output_file(&self, url: &Url) -> (plan: OutputPlan)
        requires
            savable(url@, self@.args),
        ensures
            plan@ == output_plan(url@.path, self@.args.output_dir, self@.paths),
    {
        get_output_file(url, &self.args.output_dir, &self.all_paths)
    }

    /// Whether a further request may be made.
    pub fn may_request(&self) -> (r: bool)
        ensures
            r == self@.may_request(),
    {
        proof {
            self.lemma_outstanding();
        }
        self.url_queue.len() > 0 && self.stream_handlers.len() < self.args.concurrency
    }

    /// The URL to request next, which leaves the queue; none if there is none or enough requests
    /// are outstanding.
    pub fn process_urls(&mut self) -> (url: Option<Url>)
        ensures
            match url {
                Some(u) => {
                    &&& old(self)@.may_request()
                    &&& u@ == old(self)@.queue[0]
                    &&& final(self)@ == old(self)@.without_first()
                },
                None => !old(self)@.may_request() && *final(self) == *old(self),
            },
    {
        if !self.may_request() {
            return None;
        }
        let url = self.url_queue.pop_front();
        proof {
            assert(self@ =~= old(self)@.without_first());
        }
        url
    }

    /// The streams counted are those that are outstanding.
    proof fn lemma_outstanding(&self)
        ensures
            self@.outstanding() == self.stream_handlers@.len(),
            self@.streams.dom().finite(),
    {
        assert(self@.streams.dom() =~= self.stream_handlers@.dom());
    }

    /// Puts a URL back in front of the queue.
    pub fn put_back(&mut self, url: Url)
        ensures
            final(self)@ == old(self)@.with_first(url@),
    {
        self.url_queue.push_front(url);
        proof {
            assert(self@ =~= old(self)@.with_first(url@));
        }
    }

    /// Adds a stream.
    pub fn add_stream(&mut self, stream_id: u64, handler: StreamHandler)
        ensures
            final(self)@ == old(self)@.with_stream(stream_id, handler@),
    {
        self.stream_handlers.insert(stream_id, handler);
        proof {
            assert(self@ =~= old(self)@.with_stream(stream_id, handler@));
        }
    }

    /// Forgets a stream.
    pub fn remove_stream(&mut self, stream_id: u64)
        ensures
            final(self)@ == old(self)@.without_stream(stream_id),
    {
        self.stream_handlers.remove(&stream_id);
        proof {
            assert(self@ =~= old(self)@.without_stream(stream_id));
        }
    }

    /// Takes a stream out.
    pub fn take_stream(&mut self, stream_id: u64) -> (handler: Option<StreamHandler>)
        ensures
            final(self)@ == old(self)@.without_stream(stream_id),
            match handler {
                Some(h) => {
                    &&& old(self)@.streams.contains_key(stream_id)
                    &&& old(self)@.streams[stream_id] == h@
                },
                None => !old(self)@.streams.contains_key(stream_id),
            },
    {
        let handler = self.stream_handlers.remove(&stream_id);
        proof {
            assert(self@ =~= old(self)@.without_stream(stream_id));
        }
        handler
    }

    /// Notes that a path is in use.
    pub fn add_path(&mut self, path: String)
        ensures
            final(self)@ == old(self)@.with_path(path@),
    {
        self.all_paths.push(path);
        proof {
            assert(self@ =~= old(self)@.with_path(path@));
        }
    }

    /// What is done with a stream, if it is known.
    pub fn stream_handler(&self, stream_id: u64) -> (handler: Option<&StreamHandler>)
        ensures
            match handler {
                Some(h) => self@.streams.contains_key(stream_id) && self@.streams[stream_id] == h@,
                None => !self@.streams.contains_key(stream_id),
            },
    {
        self.stream_handlers.get(&stream_id)
    }

    /// Whether nothing is left to request or to wait for.
    pub fn done(&self) -> (r: bool)
        ensures
            r == self@.done(),
    {
        proof {
            self.lemma_outstanding();
        }
        self.stream_handlers.len() == 0 && self.url_queue.len() == 0
    }
}

} // verus!
