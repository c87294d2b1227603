//! How what is given on the command line shapes connections.

use crate::args::{
    cipher_of, enabled_ciphers, qns_applied, qns_known, qns_resumes, qns_runs, Args, Cipher,
    EXIT_UNSUPPORTED,
};
use crate::http09::OldView;
use crate::http09_runner::old_start;
use crate::http3::HandlerView;
use crate::http3_runner::{http3_start, test_supported};
use crate::lines_laws::shows;
use crate::path::{joined, texts};
use crate::path_laws::law_joined_with_one_slash;
use crate::quic::{preferred, version_choice, version_of_alpn, Version, VersionChoiceView};
use crate::requests::{request_args, url_views};
use crate::session::EXIT_UNREACHABLE;
use crate::setup::{
    http3_follows, old_alpn, qlog_path, transport_follows, Http3Setup, TransportSetup,
};
use crate::stream::StreamHandlerType;
use crate::text::decimal;
use crate::text_laws::{law_decimal_reads_back, law_decimal_tells_apart};
use crate::urls::Url;
use vstd::prelude::*;

verus! {

/// A cipher suite has one name, which is that of one of three; no other name has a cipher suite.
pub proof fn law_cipher_names(name: Seq<char>, other: Seq<char>)
    ensures
        cipher_of(name) is Some && cipher_of(name) == cipher_of(other) ==> name == other,
        cipher_of(name) == Some(0x1301u16) <==> name == "TLS_AES_128_GCM_SHA256"@,
        cipher_of(name) == Some(0x1302u16) <==> name == "TLS_AES_256_GCM_SHA384"@,
        cipher_of(name) == Some(0x1303u16) <==> name == "TLS_CHACHA20_POLY1305_SHA256"@,
        cipher_of(name) matches Some(cipher) ==> 0x1301 <= cipher <= 0x1303,
{
    reveal_strlit("TLS_AES_128_GCM_SHA256");
    reveal_strlit("TLS_AES_256_GCM_SHA384");
    reveal_strlit("TLS_CHACHA20_POLY1305_SHA256");
    assert("TLS_AES_128_GCM_SHA256"@[8] != "TLS_AES_256_GCM_SHA384"@[8]);
    assert("TLS_AES_128_GCM_SHA256"@[4] != "TLS_CHACHA20_POLY1305_SHA256"@[4]);
    assert("TLS_AES_256_GCM_SHA384"@[4] != "TLS_CHACHA20_POLY1305_SHA256"@[4]);
}

/// Cipher suites are enabled in the order of their names: those of two rows of names are those of
/// the first and then those of the second.
pub proof fn law_ciphers_in_order(a: Seq<Seq<char>>, b: Seq<Seq<char>>, name: Seq<char>)
    ensures
        enabled_ciphers(a + b) == enabled_ciphers(a) + enabled_ciphers(b),
        enabled_ciphers(Seq::empty()).len() == 0,
        enabled_ciphers(seq![name]) == match cipher_of(name) {
            Some(cipher) => seq![cipher],
            None => Seq::<Cipher>::empty(),
        },
    decreases b.len(),
{
    reveal_with_fuel(enabled_ciphers, 2);
    assert(seq![name].drop_last() =~= Seq::empty());
    assert(enabled_ciphers(seq![name]) =~= match cipher_of(name) {
        Some(cipher) => seq![cipher],
        None => Seq::<Cipher>::empty(),
    });
    if b.len() == 0 {
        assert(a + b =~= a);
        assert(enabled_ciphers(a) + enabled_ciphers(b) =~= enabled_ciphers(a));
    } else {
        law_ciphers_in_order(a, b.drop_last(), name);
        assert((a + b).drop_last() =~= a + b.drop_last());
        assert((a + b).last() == b.last());
        assert(enabled_ciphers(a + b) =~= enabled_ciphers(a) + enabled_ciphers(b));
    }
}

/// The tests of the network simulator that can run. Those that resume need two URLs.
pub proof fn law_tests_that_run(name: Seq<char>, urls: nat)
    ensures
        qns_runs(name, urls) <==> {
            ||| name == "http3"@
            ||| name == "handshake"@
            ||| name == "transfer"@
            ||| name == "retry"@
            ||| name == "multiconnect"@
            ||| name == "chacha20"@
            ||| name == "keyupdate"@
            ||| name == "v2"@
            ||| (name == "zerortt"@ || name == "resumption"@) && urls > 1
        },
        qns_runs(name, urls) ==> qns_runs(name, urls + 1),
        qns_resumes(name) <==> qns_known(name) && !qns_runs(name, 0),
        qns_known(name) <==> qns_runs(name, 2),
{
    reveal_strlit("zerortt");
    reveal_strlit("resumption");
    reveal_strlit("http3");
    reveal_strlit("handshake");
    reveal_strlit("transfer");
    reveal_strlit("retry");
    reveal_strlit("multiconnect");
    reveal_strlit("chacha20");
    reveal_strlit("keyupdate");
    reveal_strlit("v2");
    assert("zerortt"@[0] == 'z' && "resumption"@[0] == 'r');
    assert("resumption"@[2] == 's' && "retry"@[2] == 't' && "retry"@[0] == 'r');
    assert("http3"@[0] == 'h' && "handshake"@[0] == 'h' && "transfer"@[0] == 't');
    assert("multiconnect"@[0] == 'm' && "chacha20"@[0] == 'c' && "keyupdate"@[0] == 'k');
    assert("v2"@[0] == 'v');
}

/// A test of the network simulator switches nothing off that was asked for. All but one use the old
/// HTTP; only those that are about resumption, several connections, a key update or a cipher suite
/// ask for that; and all but one use just the first version.
pub proof fn law_test_changes(name: Seq<char>, before: Args, after: Args)
    requires
        qns_applied(name, before, after),
    ensures
        before.use_old_http ==> after.use_old_http,
        before.resume ==> after.resume,
        before.download_in_series ==> after.download_in_series,
        before.key_update ==> after.key_update,
        !before.use_old_http ==> (after.use_old_http <==> name != "http3"@),
        !before.resume ==> (after.resume <==> name == "zerortt"@ || name == "resumption"@),
        !before.download_in_series ==> (after.download_in_series <==> name == "multiconnect"@),
        !before.key_update ==> (after.key_update <==> name == "keyupdate"@),
        name != "chacha20"@ ==> after.ciphers == before.ciphers,
        name == "chacha20"@ ==> enabled_ciphers(texts(after.ciphers@)) == seq![0x1303u16],
        name != "v2"@ ==> after.quic_parameters.quic_version@ == seq![Version::Version1],
        name == "v2"@ ==> after.quic_parameters.quic_version@.len() == 0,
{
    if name == "chacha20"@ {
        law_ciphers_in_order(Seq::empty(), Seq::empty(), "TLS_CHACHA20_POLY1305_SHA256"@);
        law_cipher_names("TLS_CHACHA20_POLY1305_SHA256"@, "TLS_CHACHA20_POLY1305_SHA256"@);
    }
}

/// A test of the network simulator leaves the rest of the arguments alone.
pub proof fn law_test_keeps_the_rest(name: Seq<char>, before: Args, after: Args)
    requires
        qns_applied(name, before, after),
    ensures
        after.alpn == before.alpn,
        after.urls == before.urls,
        after.method == before.method,
        after.header == before.header,
        after.max_table_size_encoder == before.max_table_size_encoder,
        after.max_table_size_decoder == before.max_table_size_decoder,
        after.max_blocked_streams == before.max_blocked_streams,
        after.max_concurrent_push_streams == before.max_concurrent_push_streams,
        after.concurrency == before.concurrency,
        after.output_read_data == before.output_read_data,
        after.qlog_dir == before.qlog_dir,
        after.output_dir == before.output_dir,
        after.qns_test == before.qns_test,
        after.ech == before.ech,
        after.ipv4_only == before.ipv4_only,
        after.ipv6_only == before.ipv6_only,
        after.test == before.test,
        after.upload_size == before.upload_size,
        after.quic_parameters.max_streams_bidi == before.quic_parameters.max_streams_bidi,
        after.quic_parameters.max_streams_uni == before.quic_parameters.max_streams_uni,
        after.quic_parameters.idle_timeout == before.quic_parameters.idle_timeout,
        after.quic_parameters.congestion_control == before.quic_parameters.congestion_control,
        after.quic_parameters.pacing == before.quic_parameters.pacing,
{
}

/// The draft of QUIC of a number, if it is one that a protocol's name can stand for.
pub open spec fn draft(n: nat) -> Option<Version> {
    if n == 29 {
        Some(Version::Draft29)
    } else if n == 30 {
        Some(Version::Draft30)
    } else if n == 31 {
        Some(Version::Draft31)
    } else if n == 32 {
        Some(Version::Draft32)
    } else {
        None
    }
}

/// The names of protocols over the drafts.
proof fn lemma_draft_names()
    ensures
        "h3-29"@ == "h3-"@ + decimal(29),
        "h3-30"@ == "h3-"@ + decimal(30),
        "h3-31"@ == "h3-"@ + decimal(31),
        "h3-32"@ == "h3-"@ + decimal(32),
        "hq-29"@ == "hq-"@ + decimal(29),
        "hq-30"@ == "hq-"@ + decimal(30),
        "hq-31"@ == "hq-"@ + decimal(31),
        "hq-32"@ == "hq-"@ + decimal(32),
{
    reveal_with_fuel(decimal, 3);
    reveal_strlit("h3-");
    reveal_strlit("hq-");
    reveal_strlit("h3-29");
    reveal_strlit("h3-30");
    reveal_strlit("h3-31");
    reveal_strlit("h3-32");
    reveal_strlit("hq-29");
    reveal_strlit("hq-30");
    reveal_strlit("hq-31");
    reveal_strlit("hq-32");
    assert("h3-29"@ =~= "h3-"@ + decimal(29));
    assert("h3-30"@ =~= "h3-"@ + decimal(30));
    assert("h3-31"@ =~= "h3-"@ + decimal(31));
    assert("h3-32"@ =~= "h3-"@ + decimal(32));
    assert("hq-29"@ =~= "hq-"@ + decimal(29));
    assert("hq-30"@ =~= "hq-"@ + decimal(30));
    assert("hq-31"@ =~= "hq-"@ + decimal(31));
    assert("hq-32"@ =~= "hq-"@ + decimal(32));
}

/// Two names with the same start and different numbers differ, as do those with different starts.
proof fn lemma_numbered_apart(n: nat, m: nat)
    ensures
        "h3-"@ + decimal(n) == "h3-"@ + decimal(m) ==> n == m,
        "hq-"@ + decimal(n) == "hq-"@ + decimal(m) ==> n == m,
        "h3-"@ + decimal(n) != "hq-"@ + decimal(m),
        "h3-"@ + decimal(n) != "h3"@,
        "hq-"@ + decimal(n) != "h3"@,
        "h3-"@ + decimal(n) != "hq-interop"@,
        "hq-"@ + decimal(n) != "hq-interop"@,
{
    reveal_strlit("h3");
    reveal_strlit("h3-");
    reveal_strlit("hq-");
    reveal_strlit("hq-interop");
    law_decimal_reads_back(n, n);
    let a = "h3-"@ + decimal(n);
    let b = "hq-"@ + decimal(n);
    assert(a[1] == '3');
    assert(("hq-"@ + decimal(m))[1] == 'q');
    assert(b[3] == decimal(n)[0]);
    assert("hq-interop"@[3] == 'i');
    assert("hq-interop"@[1] == 'q');
    assert(a.skip(3) =~= decimal(n));
    assert(b.skip(3) =~= decimal(n));
    assert(("h3-"@ + decimal(m)).skip(3) =~= decimal(m));
    assert(("hq-"@ + decimal(m)).skip(3) =~= decimal(m));
    if decimal(n) == decimal(m) {
        law_decimal_tells_apart(n, m);
    }
}

/// The name of a protocol over a draft stands for that draft, whichever HTTP it is for; those
/// without a number stand for the first version; others stand for none.
pub proof fn law_protocol_versions(n: nat, alpn: Seq<char>)
    ensures
        version_of_alpn("h3-"@ + decimal(n)) == draft(n),
        version_of_alpn("hq-"@ + decimal(n)) == draft(n),
        version_of_alpn("h3"@) == Some(Version::Version1),
        version_of_alpn("hq-interop"@) == Some(Version::Version1),
        version_of_alpn(alpn) is Some ==> {
            ||| alpn == "h3"@
            ||| alpn == "hq-interop"@
            ||| exists|m: nat|
                29 <= m <= 32 && (alpn == "h3-"@ + #[trigger] decimal(m) || alpn == "hq-"@
                    + decimal(m))
        },
{
    lemma_draft_names();
    lemma_numbered_apart(n, 29);
    lemma_numbered_apart(n, 30);
    lemma_numbered_apart(n, 31);
    lemma_numbered_apart(n, 32);
    lemma_numbered_apart(29, n);
    lemma_numbered_apart(30, n);
    lemma_numbered_apart(31, n);
    lemma_numbered_apart(32, n);
}

/// The old HTTP keeps a protocol's name over a draft, if it is one for the old HTTP, and else goes
/// by the name over the first version. So it always has a version.
pub proof fn law_old_protocol(n: nat, alpn: Seq<char>)
    ensures
        old_alpn("hq-"@ + decimal(n)) == if 29 <= n <= 32 {
            "hq-"@ + decimal(n)
        } else {
            "hq-interop"@
        },
        (forall|m: nat| 29 <= m <= 32 ==> alpn != "hq-"@ + #[trigger] decimal(m)) ==> old_alpn(alpn)
            == "hq-interop"@,
        old_alpn(old_alpn(alpn)) == old_alpn(alpn),
        version_of_alpn(old_alpn(alpn)) is Some,
{
    lemma_draft_names();
    lemma_numbered_apart(n, 29);
    lemma_numbered_apart(n, 30);
    lemma_numbered_apart(n, 31);
    lemma_numbered_apart(n, 32);
    law_protocol_versions(29, alpn);
    law_protocol_versions(30, alpn);
    law_protocol_versions(31, alpn);
    law_protocol_versions(32, alpn);
    assert(decimal(29) == decimal(29));
}

/// A first version that is listed again is left out where it is listed first, and only then is
/// anything left out. Without a list, the protocol decides what is attempted.
pub proof fn law_listed_versions(list: Seq<Version>, alpn: Seq<char>)
    ensures
        list.len() > 0 && (exists|i: int| 0 < i < list.len() && #[trigger] list[i] == list[0])
            ==> preferred(list) == list.drop_first(),
        list.len() > 0 && (forall|i: int| 0 < i < list.len() ==> #[trigger] list[i] != list[0])
            ==> preferred(list) == list,
        list.len() == 0 ==> version_choice(list, alpn) == (VersionChoiceView::Supported {
            attempt: version_of_alpn(alpn),
        }),
        list.len() > 0 ==> version_choice(list, alpn) == (VersionChoiceView::Listed {
            first: list[0],
            all: preferred(list),
        }),
{
    if list.len() > 0 {
        let rest = list.skip(1);
        assert(rest =~= list.drop_first());
        if exists|i: int| 0 < i < list.len() && #[trigger] list[i] == list[0] {
            let i = choose|i: int| 0 < i < list.len() && #[trigger] list[i] == list[0];
            assert(rest[i - 1] == list[0]);
        }
        if rest.contains(list[0]) {
            let k = choose|k: int| 0 <= k < rest.len() && rest[k] == list[0];
            assert(list[k + 1] == list[0]);
        }
    }
}

/// A connection is set up with each parameter as it was given, for the server and the protocol;
/// cipher suites are only set if any is enabled.
pub proof fn law_transport_set_up(
    setup: TransportSetup,
    args: Args,
    hostname: Seq<char>,
    alpn: Seq<char>,
)
    requires
        transport_follows(setup, args, hostname, alpn),
    ensures
        setup.hostname@ == hostname,
        setup.alpn@ == alpn,
        setup.parameters.max_streams_bidi == args.quic_parameters.max_streams_bidi,
        setup.parameters.max_streams_uni == args.quic_parameters.max_streams_uni,
        setup.parameters.idle_timeout == args.quic_parameters.idle_timeout,
        setup.parameters.cc_algorithm == args.quic_parameters.congestion_control,
        setup.parameters.pacing == args.quic_parameters.pacing,
        setup.parameters.versions@ == version_choice(args.quic_parameters.quic_version@, alpn),
        setup.ciphers is Some <==> enabled_ciphers(texts(args.ciphers@)).len() > 0,
        setup.ciphers matches Some(ciphers) ==> ciphers@ == enabled_ciphers(texts(args.ciphers@)),
{
}

/// An HTTP/3 client is set up with each parameter as it was given, for the server, with the
/// configuration for an encrypted client hello and the token that there are.
pub proof fn law_http3_set_up<T>(
    setup: Http3Setup<T>,
    args: Args,
    hostname: Seq<char>,
    token: Option<T>,
)
    requires
        http3_follows(setup, args, hostname, token),
    ensures
        transport_follows(setup.transport, args, hostname, args.alpn@),
        setup.http3.max_table_size_encoder == args.max_table_size_encoder,
        setup.http3.max_table_size_decoder == args.max_table_size_decoder,
        setup.http3.max_blocked_streams == args.max_blocked_streams,
        setup.http3.max_concurrent_push_streams == args.max_concurrent_push_streams,
        setup.ech is Some <==> args.ech is Some,
        setup.ech matches Some(config) ==> config@ == args.ech->0@,
        setup.token == token,
{
}

/// A log is kept just if there is a directory for logs. It stands in that directory, and its name
/// is made of the name of the server, the number of the connection and an ending.
pub proof fn law_log_path(dir: Seq<char>, hostname: Seq<char>, id: Seq<char>)
    requires
        hostname.len() > 0,
        hostname[0] != '/',
    ensures
        qlog_path(None, hostname, id) is None,
        qlog_path(Some(dir), hostname, id) matches Some(path) && {
            let start = if dir.len() > 0 && dir.last() != '/' {
                dir.push('/')
            } else {
                dir
            };
            shows(path, start + hostname + "-"@, id, ".sqlog"@)
        },
{
    let name = hostname + "-"@ + id + ".sqlog"@;
    let path = joined(dir, name);
    let start = if dir.len() > 0 && dir.last() != '/' {
        dir.push('/')
    } else {
        dir
    };
    assert(name[0] == hostname[0]);
    law_joined_with_one_slash(dir, name);
    let before = start + hostname + "-"@;
    assert(path.len() == start.len() + name.len());
    assert forall|i: int| 0 <= i < path.len() implies path[i] == (before + id + ".sqlog"@)[i] by {
        if i < dir.len() {
            assert(path[i] == dir[i]);
        } else if i >= start.len() {
            assert(path.skip(path.len() - name.len())[i - start.len()] == path[i]);
        }
    }
    assert(path =~= before + id + ".sqlog"@);
    assert(path.subrange(before.len() as int, (before.len() + id.len()) as int) =~= id);
    assert(path.skip(path.len() - ".sqlog"@.len()) =~= ".sqlog"@);
}

/// Each URL of a row, in its place.
pub proof fn law_urls_in_their_places(urls: Seq<Url>)
    ensures
        url_views(urls).len() == urls.len(),
        forall|i: int|
            0 <= i < urls.len() ==> {
                &&& (#[trigger] url_views(urls)[i]).path == urls[i].path@
                &&& url_views(urls)[i].text == urls[i].text@
                &&& url_views(urls)[i].origin == urls[i].origin@
            },
{
}

/// Requests are made as the arguments say.
pub proof fn law_requests_as_asked(args: Args)
    ensures
        request_args(args).method == args.method@,
        request_args(args).concurrency == args.concurrency,
        request_args(args).upload_size == args.upload_size,
        request_args(args).output_dir is Some <==> args.output_dir is Some,
        args.output_dir matches Some(dir) ==> request_args(args).output_dir == Some(dir@),
        request_args(args).header.len() == args.header@.len(),
        forall|i: int|
            0 <= i < args.header@.len() ==> #[trigger] request_args(args).header[i]
                == args.header@[i]@,
{
}

/// An HTTP/3 client starts with all its URLs waiting in order, no stream, no file and no token, and
/// needs a key update if one was asked for. It uploads in a test and else downloads.
pub proof fn law_http3_starts_fresh<T>(args: Args, urls: Seq<Url>)
    ensures
        ({
            let start: HandlerView<T> = http3_start(args, urls);
            &&& start.urls.queue == url_views(urls)
            &&& start.urls.streams.dom() == Set::<u64>::empty()
            &&& start.urls.paths.len() == 0
            &&& start.urls.args == request_args(args)
            &&& start.urls.handler_type == StreamHandlerType::Upload <==> args.test is Some
            &&& start.token is None
            &&& start.key_update == args.key_update
            &&& start.output_read_data == args.output_read_data
            &&& start.phase is Idle
        }),
{
    let start: HandlerView<T> = http3_start(args, urls);
    assert(start.urls.streams.dom() =~= Set::<u64>::empty());
}

/// An HTTP/0.9 client starts with all its URLs waiting in order, no stream, no file and no token,
/// and needs a key update if one was asked for. It only downloads.
pub proof fn law_old_starts_fresh<T>(args: Args, urls: Seq<Url>)
    ensures
        ({
            let start: OldView<T> = old_start(args, urls);
            &&& start.urls.queue == url_views(urls)
            &&& start.urls.streams.dom() == Set::<u64>::empty()
            &&& start.urls.paths.len() == 0
            &&& start.urls.args == request_args(args)
            &&& start.urls.handler_type == StreamHandlerType::Download
            &&& start.token is None
            &&& start.key_update == args.key_update
            &&& start.output_read_data == args.output_read_data
            &&& start.phase is Idle
        }),
{
    let start: OldView<T> = old_start(args, urls);
    assert(start.urls.streams.dom() =~= Set::<u64>::empty());
}

/// The only test is the upload; without a test, there is nothing to support.
pub proof fn law_upload_is_the_test(name: Seq<char>)
    ensures
        test_supported(None),
        test_supported(Some(name)) <==> name == "upload"@,
{
}

/// What the program ends with.
pub proof fn law_exit_codes()
    ensures
        EXIT_UNSUPPORTED == 127,
        EXIT_UNREACHABLE == 1,
{
}

} // verus!
