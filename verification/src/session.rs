//! The connections that the client makes: to which servers, for which URLs, and in what order.

use crate::args::{Exit, EXIT_UNSUPPORTED};
use crate::lines::{join3, join5};
use crate::text::{decimal, decimal_text};
use crate::urls::{Origin, OriginView, Url};
use std::collections::VecDeque;
use vstd::prelude::*;

verus! {

/// What the program ends with when a server cannot be reached.
pub const EXIT_UNREACHABLE: i32 = 1;

/// The URLs of one server.
pub struct OriginGroup {
    pub scheme: String,
    pub host: String,
    pub port: u16,
    /// In the order in which they were given.
    pub urls: VecDeque<Url>,
}

impl OriginGroup {
    /// The origin that the URLs have.
    pub open spec fn origin(self) -> OriginView {
        OriginView::Tuple { scheme: self.scheme@, host: self.host@, port: self.port }
    }

    /// Whether an origin is that of the group.
    fn is_of(&self, origin: &Origin) -> (r: bool)
        ensures
            r == (origin@ == self.origin()),
    {
        match origin {
            Origin::Opaque => false,
            Origin::Tuple { scheme, host, port } => {
                let r = *scheme == self.scheme && *host == self.host && *port == self.port;
                proof {
                    if origin@ == self.origin() {
                        assert(scheme@ == self.scheme@);
                        assert(host@ == self.host@);
                    }
                }
                r
            },
        }
    }
}

/// The URLs of an origin, in order.
pub open spec fn urls_of(urls: Seq<Url>, origin: OriginView) -> Seq<Url> {
    urls.filter(|u: Url| u@.origin == origin)
}

/// Whether groups hold the URLs of each server: every one its own, all of them, in order, and
/// every server once.
pub open spec fn grouped(urls: Seq<Url>, groups: Seq<OriginGroup>) -> bool {
    &&& forall|i: int|
        0 <= i < groups.len() ==> {
            &&& (#[trigger] groups[i]).urls@ == urls_of(urls, groups[i].origin())
            &&& groups[i].urls@.len() > 0
        }
    &&& forall|i: int, j: int|
        0 <= i < j < groups.len() ==> (#[trigger] groups[i]).origin() != (
        #[trigger] groups[j]).origin()
    &&& forall|k: int|
        0 <= k < urls.len() && (#[trigger] urls[k])@.origin is Tuple ==> has_group(
            groups,
            urls[k]@.origin,
        )
}

/// Whether an origin has a group.
pub open spec fn has_group(groups: Seq<OriginGroup>, origin: OriginView) -> bool {
    exists|i: int| 0 <= i < groups.len() && (#[trigger] groups[i]).origin() == origin
}

/// The place of the group that an origin has, if it has one.
fn find_group(groups: &Vec<OriginGroup>, origin: &Origin) -> (place: Option<usize>)
    ensures
        match place {
            Some(i) => i < groups@.len() && groups@[i as int].origin() == origin@,
            None => !has_group(groups@, origin@),
        },
{
    let mut i: usize = 0;
    while i < groups.len()
        invariant
            i <= groups@.len(),
            forall|j: int| 0 <= j < i ==> (#[trigger] groups@[j]).origin() != origin@,
        decreases groups@.len() - i,
    {
        if groups[i].is_of(origin) {
            return Some(i);
        }
        i += 1;
    }
    None
}

/// A further URL belongs to the URLs of its own origin, behind the others, and to no other's.
proof fn lemma_urls_of_push(urls: Seq<Url>, url: Url, origin: OriginView)
    ensures
        urls_of(urls.push(url), origin) == if url@.origin == origin {
            urls_of(urls, origin).push(url)
        } else {
            urls_of(urls, origin)
        },
{
    reveal(Seq::filter);
    assert(urls.push(url).drop_last() =~= urls);
}

/// Without a URL of an origin, there is none.
proof fn lemma_urls_of_none(urls: Seq<Url>, origin: OriginView)
    requires
        forall|k: int| 0 <= k < urls.len() ==> (#[trigger] urls[k])@.origin != origin,
    ensures
        urls_of(urls, origin) == Seq::<Url>::empty(),
    decreases urls.len(),
{
    reveal(Seq::filter);
    if urls.len() > 0 {
        lemma_urls_of_none(urls.drop_last(), origin);
    }
}

/// Adding a URL to the group that it belongs to.
proof fn lemma_added(
    urls: Seq<Url>,
    url: Url,
    before: Seq<OriginGroup>,
    after: Seq<OriginGroup>,
    i: int,
)
    requires
        grouped(urls, before),
        0 <= i < before.len(),
        before[i].origin() == url@.origin,
        after.len() == before.len(),
        forall|j: int| 0 <= j < before.len() && j != i ==> after[j] == before[j],
        after[i].origin() == before[i].origin(),
        after[i].urls@ == before[i].urls@.push(url),
    ensures
        grouped(urls.push(url), after),
{
    assert forall|j: int| 0 <= j < after.len() implies {
        &&& (#[trigger] after[j]).urls@ == urls_of(urls.push(url), after[j].origin())
        &&& after[j].urls@.len() > 0
    } by {
        lemma_urls_of_push(urls, url, after[j].origin());
        assert(before[j].origin() == after[j].origin());
    }
    assert forall|j: int, k: int| 0 <= j < k < after.len() implies (
    #[trigger] after[j]).origin() != (#[trigger] after[k]).origin() by {
        assert(before[j].origin() != before[k].origin());
    }
    assert forall|k: int|
        0 <= k < urls.push(url).len() && (#[trigger] urls.push(
            url,
        )[k])@.origin is Tuple implies has_group(after, urls.push(url)[k]@.origin) by {
        if k < urls.len() {
            assert(has_group(before, urls[k]@.origin));
            let j = choose|j: int|
                0 <= j < before.len() && (#[trigger] before[j]).origin() == urls[k]@.origin;
            assert(after[j].origin() == urls[k]@.origin);
        } else {
            assert(after[i].origin() == url@.origin);
        }
    }
}

/// Adding a group for a URL whose origin has none.
proof fn lemma_opened(urls: Seq<Url>, url: Url, before: Seq<OriginGroup>, group: OriginGroup)
    requires
        grouped(urls, before),
        url@.origin is Tuple,
        !has_group(before, url@.origin),
        group.origin() == url@.origin,
        group.urls@ == seq![url],
    ensures
        grouped(urls.push(url), before.push(group)),
{
    let after = before.push(group);
    assert forall|k: int| 0 <= k < urls.len() implies (#[trigger] urls[k])@.origin
        != url@.origin by {
        if urls[k]@.origin == url@.origin {
            assert(has_group(before, urls[k]@.origin));
        }
    }
    lemma_urls_of_none(urls, url@.origin);
    assert forall|j: int| 0 <= j < after.len() implies {
        &&& (#[trigger] after[j]).urls@ == urls_of(urls.push(url), after[j].origin())
        &&& after[j].urls@.len() > 0
    } by {
        lemma_urls_of_push(urls, url, after[j].origin());
        if j < before.len() {
            assert(before[j].origin() != url@.origin);
        } else {
            assert(Seq::<Url>::empty().push(url) =~= seq![url]);
        }
    }
    assert forall|k: int|
        0 <= k < urls.push(url).len() && (#[trigger] urls.push(
            url,
        )[k])@.origin is Tuple implies has_group(after, urls.push(url)[k]@.origin) by {
        if k < urls.len() {
            assert(has_group(before, urls[k]@.origin));
            let j = choose|j: int|
                0 <= j < before.len() && (#[trigger] before[j]).origin() == urls[k]@.origin;
            assert(after[j].origin() == urls[k]@.origin);
        } else {
            assert(after[before.len() as int].origin() == url@.origin);
        }
    }
}

/// Passing over a URL whose origin is like no other.
proof fn lemma_passed_over(urls: Seq<Url>, url: Url, groups: Seq<OriginGroup>)
    requires
        grouped(urls, groups),
        url@.origin is Opaque,
    ensures
        grouped(urls.push(url), groups),
{
    assert forall|j: int| 0 <= j < groups.len() implies {
        &&& (#[trigger] groups[j]).urls@ == urls_of(urls.push(url), groups[j].origin())
        &&& groups[j].urls@.len() > 0
    } by {
        lemma_urls_of_push(urls, url, groups[j].origin());
    }
    assert forall|k: int|
        0 <= k < urls.push(url).len() && (#[trigger] urls.push(
            url,
        )[k])@.origin is Tuple implies has_group(groups, urls.push(url)[k]@.origin) by {
        assert(k < urls.len());
        assert(urls[k]@.origin is Tuple);
    }
}

/// Groups URLs by server. Those whose origin is like no other, which no connection is made for,
/// are handed back by themselves.
pub fn urls_by_origin(urls: &Vec<Url>) -> (r: (Vec<OriginGroup>, Vec<Url>))
    ensures
        grouped(urls@, r.0@),
        r.1@ == urls_of(urls@, OriginView::Opaque),
{
    let mut groups: Vec<OriginGroup> = Vec::new();
    let mut opaque: Vec<Url> = Vec::new();
    let mut k: usize = 0;
    proof {
        reveal(Seq::filter);
        assert(urls@.take(0) =~= Seq::empty());
    }
    while k < urls.len()
        invariant
            k <= urls@.len(),
            grouped(urls@.take(k as int), groups@),
            opaque@ == urls_of(urls@.take(k as int), OriginView::Opaque),
        decreases urls@.len() - k,
    {
        let url = urls[k].clone();
        let ghost seen = urls@.take(k as int);
        proof {
            assert(urls@.take(k + 1) =~= seen.push(url));
            lemma_urls_of_push(seen, url, OriginView::Opaque);
        }
        match &urls[k].origin {
            Origin::Opaque => {
                proof {
                    lemma_passed_over(seen, url, groups@);
                }
                opaque.push(url);
            },
            Origin::Tuple { scheme, host, port } => {
                let ghost before = groups@;
                match find_group(&groups, &url.origin) {
                    Some(i) => {
                        let mut group = groups.remove(i);
                        group.urls.push_back(url);
                        groups.insert(i, group);
                        proof {
                            lemma_added(seen, url, before, groups@, i as int);
                        }
                    },
                    None => {
                        let mut first: VecDeque<Url> = VecDeque::new();
                        first.push_back(url);
                        let group = OriginGroup {
                            scheme: scheme.clone(),
                            host: host.clone(),
                            port: *port,
                            urls: first,
                        };
                        proof {
                            assert(group.urls@ =~= seq![url]);
                            lemma_opened(seen, url, before, group);
                        }
                        groups.push(group);
                    },
                }
            },
        }
        k += 1;
    }
    proof {
        assert(urls@.take(k as int) =~= urls@);
    }
    (groups, opaque)
}

/// A URL that a connection is made for has a path under which its contents can be saved, provided
/// that every URL with a server has one.
pub proof fn law_grouped_urls_have_paths(urls: Seq<Url>, groups: Seq<OriginGroup>)
    requires
        grouped(urls, groups),
        forall|k: int|
            0 <= k < urls.len() && (#[trigger] urls[k])@.origin is Tuple ==> urls[k]@.path.len()
                > 0,
    ensures
        forall|i: int, j: int|
            0 <= i < groups.len() && 0 <= j < groups[i].urls@.len() ==> (
            #[trigger] groups[i].urls@[j])@.path.len() > 0,
{
    assert forall|i: int, j: int|
        0 <= i < groups.len() && 0 <= j < groups[i].urls@.len() implies (
    #[trigger] groups[i].urls@[j])@.path.len() > 0 by {
        let origin = groups[i].origin();
        let of_origin = |u: Url| u@.origin == origin;
        let url = groups[i].urls@[j];
        urls.lemma_filter_pred(of_origin, j);
        urls.lemma_filter_contains_rev(of_origin, url);
        let k = choose|k: int| 0 <= k < urls.len() && urls[k] == url;
        assert(urls[k]@.origin == origin);
    }
}

/// The URLs of an origin in two rows are those in the first and then those in the second; a single
/// URL is one of them if that is its origin.
pub proof fn law_urls_of_rows(a: Seq<Url>, b: Seq<Url>, url: Url, origin: OriginView)
    ensures
        urls_of(a + b, origin) == urls_of(a, origin) + urls_of(b, origin),
        urls_of(seq![url], origin) == if url@.origin == origin {
            seq![url]
        } else {
            Seq::<Url>::empty()
        },
        urls_of(Seq::empty(), origin).len() == 0,
    decreases b.len(),
{
    let none = Seq::<Url>::empty();
    lemma_urls_of_none(none, origin);
    lemma_urls_of_push(none, url, origin);
    assert(none.push(url) =~= seq![url]);
    if b.len() == 0 {
        assert(a + b =~= a);
        assert(b =~= none);
        assert(urls_of(a, origin) + none =~= urls_of(a, origin));
    } else {
        let before = b.drop_last();
        law_urls_of_rows(a, before, url, origin);
        lemma_urls_of_push(a + before, b.last(), origin);
        lemma_urls_of_push(before, b.last(), origin);
        assert((a + before).push(b.last()) =~= a + b);
        assert(before.push(b.last()) =~= b);
        assert(urls_of(a + b, origin) =~= urls_of(a, origin) + urls_of(b, origin));
    }
}

/// A group holds just the URLs with its scheme, host and port, in order, and two groups differ in
/// one of these. Every URL of a server is in the group of that server.
pub proof fn law_groups_are_servers(urls: Seq<Url>, groups: Seq<OriginGroup>)
    requires
        grouped(urls, groups),
    ensures
        forall|i: int|
            0 <= i < groups.len() ==> {
                let origin = OriginView::Tuple {
                    scheme: (#[trigger] groups[i]).scheme@,
                    host: groups[i].host@,
                    port: groups[i].port,
                };
                &&& groups[i].urls@ == urls_of(urls, origin)
                &&& groups[i].urls@.len() > 0
            },
        forall|i: int, j: int|
            0 <= i < groups.len() && 0 <= j < groups[i].urls@.len() ==> {
                &&& (#[trigger] groups[i].urls@[j])@.origin matches OriginView::Tuple {
                    scheme,
                    host,
                    port,
                }
                &&& scheme == groups[i].scheme@
                &&& host == groups[i].host@
                &&& port == groups[i].port
                &&& urls.contains(groups[i].urls@[j])
            },
        forall|i: int, j: int|
            0 <= i < j < groups.len() ==> {
                ||| (#[trigger] groups[i]).scheme@ != (#[trigger] groups[j]).scheme@
                ||| groups[i].host@ != groups[j].host@
                ||| groups[i].port != groups[j].port
            },
        forall|k: int|
            0 <= k < urls.len() && (#[trigger] urls[k])@.origin is Tuple ==> exists|i: int|
                0 <= i < groups.len() && (#[trigger] groups[i]).urls@.contains(urls[k]),
{
    assert forall|i: int, j: int|
        0 <= i < groups.len() && 0 <= j < groups[i].urls@.len() implies {
        &&& (#[trigger] groups[i].urls@[j])@.origin matches OriginView::Tuple {
            scheme,
            host,
            port,
        }
        &&& scheme == groups[i].scheme@
        &&& host == groups[i].host@
        &&& port == groups[i].port
        &&& urls.contains(groups[i].urls@[j])
    } by {
        let origin = groups[i].origin();
        let of_origin = |u: Url| u@.origin == origin;
        urls.lemma_filter_pred(of_origin, j);
        urls.lemma_filter_contains_rev(of_origin, groups[i].urls@[j]);
    }
    assert forall|i: int, j: int| 0 <= i < j < groups.len() implies {
        ||| (#[trigger] groups[i]).scheme@ != (#[trigger] groups[j]).scheme@
        ||| groups[i].host@ != groups[j].host@
        ||| groups[i].port != groups[j].port
    } by {
        assert(groups[i].origin() != groups[j].origin());
    }
    assert forall|k: int|
        0 <= k < urls.len() && (#[trigger] urls[k])@.origin is Tuple implies exists|i: int|
        0 <= i < groups.len() && (#[trigger] groups[i]).urls@.contains(urls[k]) by {
        let origin = urls[k]@.origin;
        assert(has_group(groups, origin));
        let i = choose|i: int|
            0 <= i < groups.len() && (#[trigger] groups[i]).origin() == origin;
        let of_origin = |u: Url| u@.origin == origin;
        urls.lemma_filter_contains(of_origin, k);
        assert(groups[i].urls@.contains(urls[k]));
    }
}

/// What is told of a server for which there are too few URLs to resume.
pub open spec fn too_few_line(host: Seq<char>) -> Seq<char> {
    "Resumption to "@ + host + " cannot work without at least 2 URLs."@
}

/// Ends the program if resumption is asked for and there are fewer than two URLs for a server.
pub fn check_resumption(resume: bool, host: &str, count: usize) -> (exit: Option<Exit>)
    ensures
        match exit {
            Some(e) => {
                &&& resume && count < 2
                &&& e.code == EXIT_UNSUPPORTED
                &&& e.line matches Some(line) && line@ == too_few_line(host@)
            },
            None => !resume || count >= 2,
        },
{
    if resume && count < 2 {
        let line = join3("Resumption to ", host, " cannot work without at least 2 URLs.");
        Some(Exit { code: EXIT_UNSUPPORTED, line: Some(line) })
    } else {
        None
    }
}

/// The name under which the address of a server is looked up.
pub open spec fn authority(host: Seq<char>, port: u16) -> Seq<char> {
    host + ":"@ + decimal(port as nat)
}

/// The name under which the address of a server is looked up.
pub fn authority_text(host: &str, port: u16) -> (text: String)
    ensures
        text@ == authority(host@, port),
{
    let number = decimal_text(port as u64);
    join3(host, ":", number.as_str())
}

/// The kind of an address.
#[derive(Debug, Clone, Copy, PartialEq, Eq, Structural)]
pub enum Family {
    V4,
    V6,
}

/// Whether a connection may be made to an address of a kind.
pub open spec fn compatible(family: Family, ipv4_only: bool, ipv6_only: bool) -> bool {
    match family {
        Family::V4 => ipv4_only || !ipv6_only,
        Family::V6 => !ipv4_only || ipv6_only,
    }
}

/// What is told of a server with no address that fits.
pub open spec fn no_address_line(host: Seq<char>) -> Seq<char> {
    "No compatible address found for: "@ + host
}

/// The first address of a server that fits, given the kinds of its addresses. Without one, the
/// program ends.
pub fn select_address(families: &Vec<Family>, ipv4_only: bool, ipv6_only: bool, host: &str) -> (r:
    Result<usize, Exit>)
    ensures
        match r {
            Ok(i) => {
                &&& i < families@.len()
                &&& compatible(families@[i as int], ipv4_only, ipv6_only)
                &&& forall|j: int|
                    0 <= j < i ==> !compatible(#[trigger] families@[j], ipv4_only, ipv6_only)
            },
            Err(e) => {
                &&& forall|j: int|
                    0 <= j < families@.len() ==> !compatible(
                        #[trigger] families@[j],
                        ipv4_only,
                        ipv6_only,
                    )
                &&& e.code == EXIT_UNREACHABLE
                &&& e.line matches Some(line) && line@ == no_address_line(host@)
            },
        },
{
    let mut i: usize = 0;
    while i < families.len()
        invariant
            i <= families@.len(),
            forall|j: int|
                0 <= j < i ==> !compatible(#[trigger] families@[j], ipv4_only, ipv6_only),
        decreases families@.len() - i,
    {
        let fits = match families[i] {
            Family::V4 => ipv4_only || !ipv6_only,
            Family::V6 => !ipv4_only || ipv6_only,
        };
        if fits {
            return Ok(i);
        }
        i += 1;
    }
    let mut line = "No compatible address found for: ".to_owned();
    line.append(host);
    Err(Exit { code: EXIT_UNREACHABLE, line: Some(line) })
}

/// What is told when no local address could be had.
pub open spec fn no_socket_line(e: Seq<char>) -> Seq<char> {
    "Unable to bind UDP socket: "@ + e
}

/// Ends the program because no local address could be had.
pub fn no_socket(e: &str) -> (exit: Exit)
    ensures
        exit.code == EXIT_UNREACHABLE,
        exit.line matches Some(line) && line@ == no_socket_line(e@),
{
    let mut line = "Unable to bind UDP socket: ".to_owned();
    line.append(e);
    Exit { code: EXIT_UNREACHABLE, line: Some(line) }
}

/// A connection is made only over the version of IP that was asked for, if one was; over both it
/// is made if none was, or both were.
pub proof fn law_address_family(family: Family, ipv4_only: bool, ipv6_only: bool)
    ensures
        ipv4_only && !ipv6_only ==> (compatible(family, ipv4_only, ipv6_only) <==> family
            == Family::V4),
        ipv6_only && !ipv4_only ==> (compatible(family, ipv4_only, ipv6_only) <==> family
            == Family::V6),
        ipv4_only == ipv6_only ==> compatible(family, ipv4_only, ipv6_only),
{
}

/// What is told of a connection that is being made.
pub open spec fn connecting_line(
    use_old_http: bool,
    local: Seq<char>,
    remote: Seq<char>,
) -> Seq<char> {
    (if use_old_http {
        "H9"@
    } else {
        "H3"@
    }) + " Client connecting: "@ + local + " -> "@ + remote
}

/// What is told of a connection that is being made.
pub fn connecting_line_text(use_old_http: bool, local: &str, remote: &str) -> (line: String)
    ensures
        line@ == connecting_line(use_old_http, local@, remote@),
{
    let label = if use_old_http {
        "H9"
    } else {
        "H3"
    };
    join5(label, " Client connecting: ", local, " -> ", remote)
}

/// The connections to one server.
pub struct OriginSession<T> {
    /// The URLs that no connection was made for yet, in order.
    pub urls: VecDeque<Url>,
    /// The token with which the next connection can resume.
    pub token: Option<T>,
    /// Whether no connection was made yet.
    pub first: bool,
}

/// The number of URLs that the next connection is for: one, if it is the first of two that are to
/// show resumption or every URL has its own; else all.
pub open spec fn batch_len(left: nat, first: bool, resume: bool, in_series: bool) -> nat {
    if left > 0 && ((resume && first) || in_series) {
        1
    } else {
        left
    }
}

impl<T> OriginSession<T> {
    /// Connections of which none was made yet.
    pub fn new(urls: VecDeque<Url>) -> (session: Self)
        ensures
            session == (OriginSession::<T> { urls, token: None, first: true }),
    {
        OriginSession { urls, token: None, first: true }
    }

    /// The URLs that the next connection is for and the token that it can resume with; none if
    /// nothing is left.
    pub fn next_batch(&mut self, resume: bool, download_in_series: bool) -> (batch: Option<
        (VecDeque<Url>, Option<T>),
    >)
        ensures
            match batch {
                Some((urls, token)) => {
                    let n = batch_len(
                        old(self).urls@.len(),
                        old(self).first,
                        resume,
                        download_in_series,
                    ) as int;
                    &&& old(self).urls@.len() > 0
                    &&& urls@ == old(self).urls@.take(n)
                    &&& final(self).urls@ == old(self).urls@.skip(n)
                    &&& token == old(self).token
                    &&& final(self).token is None
                    &&& !final(self).first
                },
                None => old(self).urls@.len() == 0 && *final(self) == *old(self),
            },
    {
        if self.urls.len() == 0 {
            return None;
        }
        let ghost all = self.urls@;
        let mut batch: VecDeque<Url> = VecDeque::new();
        if (resume && self.first) || download_in_series {
            if let Some(url) = self.urls.pop_front() {
                batch.push_back(url);
            }
            proof {
                assert(batch@ =~= all.take(1));
                assert(self.urls@ =~= all.skip(1));
            }
        } else {
            std::mem::swap(&mut self.urls, &mut batch);
            proof {
                assert(batch@ =~= all.take(all.len() as int));
                assert(self.urls@ =~= all.skip(all.len() as int));
            }
        }
        self.first = false;
        Some((batch, self.token.take()))
    }

    /// Keeps the token that a connection left.
    pub fn keep_token(&mut self, token: Option<T>)
        ensures
            *final(self) == (OriginSession { token, ..*old(self) }),
    {
        self.token = token;
    }
}

/// The URLs of each of the connections to a server, in order.
pub open spec fn batches(urls: Seq<Url>, first: bool, resume: bool, in_series: bool) -> Seq<
    Seq<Url>,
>
    decreases urls.len(),
{
    if urls.len() == 0 {
        Seq::empty()
    } else {
        let n = batch_len(urls.len(), first, resume, in_series) as int;
        seq![urls.take(n)] + batches(urls.skip(n), false, resume, in_series)
    }
}

/// Every URL is requested on one connection, in the order in which the URLs were given, and no
/// connection is made for nothing.
pub proof fn law_every_url_once(urls: Seq<Url>, first: bool, resume: bool, in_series: bool)
    ensures
        batches(urls, first, resume, in_series).flatten() == urls,
        forall|i: int|
            0 <= i < batches(urls, first, resume, in_series).len() ==> (
            #[trigger] batches(urls, first, resume, in_series)[i]).len() > 0,
    decreases urls.len(),
{
    if urls.len() == 0 {
        assert(batches(urls, first, resume, in_series).flatten() =~= urls);
    } else {
        let n = batch_len(urls.len(), first, resume, in_series) as int;
        let rest = batches(urls.skip(n), false, resume, in_series);
        law_every_url_once(urls.skip(n), false, resume, in_series);
        let all = batches(urls, first, resume, in_series);
        assert(all =~= seq![urls.take(n)] + rest);
        assert(all.drop_first() =~= rest);
        assert(all.flatten() =~= urls.take(n) + urls.skip(n));
        assert(urls.take(n) + urls.skip(n) =~= urls);
        assert forall|i: int| 0 <= i < all.len() implies (#[trigger] all[i]).len() > 0 by {
            if i > 0 {
                assert(all[i] == rest[i - 1]);
            }
        }
    }
}

/// In series, every URL has a connection of its own.
pub proof fn law_series_one_each(urls: Seq<Url>, first: bool, resume: bool)
    ensures
        batches(urls, first, resume, true) == Seq::new(urls.len(), |i: int| seq![urls[i]]),
    decreases urls.len(),
{
    if urls.len() > 0 {
        law_series_one_each(urls.skip(1), false, resume);
        let rest = batches(urls.skip(1), false, resume, true);
        assert(urls.take(1) =~= seq![urls[0]]);
        assert forall|i: int| 0 <= i < rest.len() implies rest[i] == seq![urls[i + 1]] by {
            assert(urls.skip(1)[i] == urls[i + 1]);
        }
    }
    assert(batches(urls, first, resume, true) =~= Seq::new(urls.len(), |i: int| seq![urls[i]]));
}

/// To show resumption, the first URL has a connection of its own and all others share a second
/// one.
pub proof fn law_resumption_two_connections(urls: Seq<Url>)
    requires
        urls.len() >= 2,
    ensures
        batches(urls, true, true, false) == seq![urls.take(1), urls.skip(1)],
{
    reveal_with_fuel(batches, 3);
    let rest = urls.skip(1);
    assert(rest.take(rest.len() as int) =~= rest);
    assert(rest.skip(rest.len() as int).len() == 0);
    assert(batches(rest, false, true, false) =~= seq![rest]);
    assert(batches(urls, true, true, false) =~= seq![urls.take(1), rest]);
}

/// Otherwise there is one connection for all.
pub proof fn law_one_connection(urls: Seq<Url>, first: bool)
    requires
        urls.len() > 0,
    ensures
        batches(urls, first, false, false) == seq![urls],
{
    reveal_with_fuel(batches, 2);
    assert(urls.take(urls.len() as int) =~= urls);
    assert(urls.skip(urls.len() as int).len() == 0);
    assert(batches(urls, first, false, false) =~= seq![urls]);
}

} // verus!
