//! What connections are set up with.

use crate::args::{enabled_ciphers, Args, Cipher};
use crate::path::{join_path, joined, texts};
use crate::quic::{version_choice, ConnectionParameters};
use crate::text::same_text;
use vstd::prelude::*;

verus! {

/// What the HTTP/3 layer is set up with.
pub struct Http3Parameters {
    pub max_table_size_encoder: u64,
    pub max_table_size_decoder: u64,
    pub max_blocked_streams: u16,
    pub max_concurrent_push_streams: u64,
}

/// What a connection is set up with, whatever is spoken on it.
pub struct TransportSetup {
    /// The name of the server.
    pub hostname: String,
    /// The protocol to negotiate.
    pub alpn: String,
    /// The parameters of the transport.
    pub parameters: ConnectionParameters,
    /// The cipher suites, unless they are left to the transport.
    pub ciphers: Option<Vec<Cipher>>,
}

/// What an HTTP/3 client is set up with.
pub struct Http3Setup<T> {
    /// The connection.
    pub transport: TransportSetup,
    /// The HTTP/3 layer.
    pub http3: Http3Parameters,
    /// The configuration for an encrypted client hello, if there is one.
    pub ech: Option<Vec<u8>>,
    /// The token to resume with, if there is one.
    pub token: Option<T>,
}

/// What an HTTP/0.9 client is set up with.
pub struct OldSetup<T> {
    /// The connection.
    pub transport: TransportSetup,
    /// The token to resume with, if there is one.
    pub token: Option<T>,
}

/// Whether a connection is set up as the arguments say, for a server and a protocol.
pub open spec fn transport_follows(
    setup: TransportSetup,
    args: Args,
    hostname: Seq<char>,
    alpn: Seq<char>,
) -> bool {
    &&& setup.hostname@ == hostname
    &&& setup.alpn@ == alpn
    &&& setup.parameters.max_streams_bidi == args.quic_parameters.max_streams_bidi
    &&& setup.parameters.max_streams_uni == args.quic_parameters.max_streams_uni
    &&& setup.parameters.idle_timeout == args.quic_parameters.idle_timeout
    &&& setup.parameters.cc_algorithm == args.quic_parameters.congestion_control
    &&& setup.parameters.pacing == args.quic_parameters.pacing
    &&& setup.parameters.versions@ == version_choice(args.quic_parameters.quic_version@, alpn)
    &&& match setup.ciphers {
        Some(ciphers) => {
            &&& ciphers@ == enabled_ciphers(texts(args.ciphers@))
            &&& ciphers@.len() > 0
        },
        None => enabled_ciphers(texts(args.ciphers@)).len() == 0,
    }
}

/// Whether an HTTP/3 client is set up as the arguments say.
pub open spec fn http3_follows<T>(
    setup: Http3Setup<T>,
    args: Args,
    hostname: Seq<char>,
    token: Option<T>,
) -> bool {
    &&& transport_follows(setup.transport, args, hostname, args.alpn@)
    &&& setup.http3.max_table_size_encoder == args.max_table_size_encoder
    &&& setup.http3.max_table_size_decoder == args.max_table_size_decoder
    &&& setup.http3.max_blocked_streams == args.max_blocked_streams
    &&& setup.http3.max_concurrent_push_streams == args.max_concurrent_push_streams
    &&& match (setup.ech, args.ech) {
        (Some(a), Some(b)) => a@ == b@,
        (None, None) => true,
        _ => false,
    }
    &&& setup.token == token
}

/// Sets up a connection.
fn create_transport(args: &Args, hostname: &str, alpn: &str) -> (setup: TransportSetup)
    ensures
        transport_follows(setup, *args, hostname@, alpn@),
{
    let ciphers = args.get_ciphers();
    TransportSetup {
        hostname: hostname.to_owned(),
        alpn: alpn.to_owned(),
        parameters: args.quic_parameters.get(alpn),
        ciphers: if ciphers.len() > 0 {
            Some(ciphers)
        } else {
            None
        },
    }
}

/// Sets up an HTTP/3 client.
pub fn create_http3_client<T>(args: &Args, hostname: &str, resumption_token: Option<T>) -> (setup:
    Http3Setup<T>)
    ensures
        http3_follows(setup, *args, hostname@, resumption_token),
{
    let ech = match &args.ech {
        Some(config) => {
            let copy = config.clone();
            proof {
                assert(copy@ =~= config@);
            }
            Some(copy)
        },
        None => None,
    };
    Http3Setup {
        transport: create_transport(args, hostname, args.alpn.as_str()),
        http3: Http3Parameters {
            max_table_size_encoder: args.max_table_size_encoder,
            max_table_size_decoder: args.max_table_size_decoder,
            max_blocked_streams: args.max_blocked_streams,
            max_concurrent_push_streams: args.max_concurrent_push_streams,
        },
        ech,
        token: resumption_token,
    }
}

/// The protocol that an HTTP/0.9 client negotiates.
pub open spec fn old_alpn(alpn: Seq<char>) -> Seq<char> {
    if alpn == "hq-29"@ || alpn == "hq-30"@ || alpn == "hq-31"@ || alpn == "hq-32"@ {
        alpn
    } else {
        "hq-interop"@
    }
}

/// Sets up an HTTP/0.9 client.
pub fn create_old_client<T>(args: &Args, origin: &str, token: Option<T>) -> (setup: OldSetup<T>)
    ensures
        transport_follows(setup.transport, *args, origin@, old_alpn(args.alpn@)),
        setup.token == token,
{
    let alpn = args.alpn.as_str();
    let draft29 = same_text(alpn, "hq-29");
    let draft30 = same_text(alpn, "hq-30");
    let draft31 = same_text(alpn, "hq-31");
    let draft32 = same_text(alpn, "hq-32");
    let transport = if draft29 || draft30 || draft31 || draft32 {
        create_transport(args, origin, alpn)
    } else {
        create_transport(args, origin, "hq-interop")
    };
    OldSetup { transport, token }
}

/// The path of the log of a connection, if logs are kept.
pub open spec fn qlog_path(
    qlog_dir: Option<Seq<char>>,
    hostname: Seq<char>,
    connection_id: Seq<char>,
) -> Option<Seq<char>> {
    match qlog_dir {
        Some(dir) => Some(joined(dir, hostname + "-"@ + connection_id + ".sqlog"@)),
        None => None,
    }
}

/// Says where the log of a connection goes, if logs are kept.
pub fn qlog_new(qlog_dir: &Option<String>, hostname: &str, connection_id: &str) -> (path: Option<
    String,
>)
    ensures
        crate::files::optional_text(path) == qlog_path(
            crate::files::optional_text(*qlog_dir),
            hostname@,
            connection_id@,
        ),
{
    match qlog_dir {
        Some(dir) => {
            let mut filename = hostname.to_owned();
            filename.append("-");
            filename.append(connection_id);
            filename.append(".sqlog");
            Some(join_path(dir.as_str(), filename.as_str()))
        },
        None => None,
    }
}

} // verus!
