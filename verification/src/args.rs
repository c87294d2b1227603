//! The arguments of the client.

use crate::files::optional_text;
use crate::path::texts;
use crate::quic::{QuicParameters, Version};
use crate::text::same_text;
use crate::urls::Url;
use vstd::prelude::*;
use vstd::utf8::encode_utf8;

verus! {

/// A TLS cipher suite, by its number.
pub type Cipher = u16;

pub const TLS_AES_128_GCM_SHA256: Cipher = 0x1301;

pub const TLS_AES_256_GCM_SHA384: Cipher = 0x1302;

pub const TLS_CHACHA20_POLY1305_SHA256: Cipher = 0x1303;

/// What the program ends with when it cannot go on.
pub const EXIT_UNSUPPORTED: i32 = 127;

/// An end of the program.
pub struct Exit {
    /// The exit code.
    pub code: i32,
    /// What is told before, where errors go.
    pub line: Option<String>,
}

/// What is given on the command line.
pub struct Args {
    /// ALPN labels to negotiate.
    ///
    /// This client still only does HTTP/3 no matter what the ALPN says.
    pub alpn: String,
    pub urls: Vec<Url>,
    pub method: String,
    pub header: Vec<String>,
    pub max_table_size_encoder: u64,
    pub max_table_size_decoder: u64,
    pub max_blocked_streams: u16,
    pub max_concurrent_push_streams: u64,
    /// Use http 0.9 instead of HTTP/3
    pub use_old_http: bool,
    /// Download resources in series using separate connections.
    pub download_in_series: bool,
    /// The maximum number of requests to have outstanding at one time.
    pub concurrency: usize,
    /// Output received data to stdout
    pub output_read_data: bool,
    /// Enable QLOG logging and QLOG traces to this directory
    pub qlog_dir: Option<String>,
    /// Save contents of fetched URLs to a directory
    pub output_dir: Option<String>,
    /// Enable special behavior for use with QUIC Network Simulator
    pub qns_test: Option<String>,
    /// Client attempts to resume by making multiple connections to servers.
    /// Requires that 2 or more URLs are listed for each server.
    /// Use this for 0-RTT: the stack always attempts 0-RTT on resumption.
    pub resume: bool,
    /// Attempt to initiate a key update immediately after confirming the connection.
    pub key_update: bool,
    /// The set of TLS cipher suites to enable.
    /// From: TLS_AES_128_GCM_SHA256, TLS_AES_256_GCM_SHA384, TLS_CHACHA20_POLY1305_SHA256.
    pub ciphers: Vec<String>,
    /// Enable encrypted client hello (ECH).
    pub ech: Option<Vec<u8>>,
    pub quic_parameters: QuicParameters,
    /// Connect only over IPv4
    pub ipv4_only: bool,
    /// Connect only over IPv6
    pub ipv6_only: bool,
    /// The test that this client will run. Currently, we only support "upload".
    pub test: Option<String>,
    /// The request size that will be used for upload test.
    pub upload_size: usize,
}

/// The cipher suite of a name, if it has one.
pub open spec fn cipher_of(name: Seq<char>) -> Option<Cipher> {
    if name == "TLS_AES_128_GCM_SHA256"@ {
        Some(TLS_AES_128_GCM_SHA256)
    } else if name == "TLS_AES_256_GCM_SHA384"@ {
        Some(TLS_AES_256_GCM_SHA384)
    } else if name == "TLS_CHACHA20_POLY1305_SHA256"@ {
        Some(TLS_CHACHA20_POLY1305_SHA256)
    } else {
        None
    }
}

/// The cipher suites of the names that have one, in order.
pub open spec fn enabled_ciphers(names: Seq<Seq<char>>) -> Seq<Cipher>
    decreases names.len(),
{
    if names.len() == 0 {
        Seq::empty()
    } else {
        let before = enabled_ciphers(names.drop_last());
        match cipher_of(names.last()) {
            Some(cipher) => before.push(cipher),
            None => before,
        }
    }
}

/// The cipher suite of a name.
fn find_cipher(name: &str) -> (cipher: Option<Cipher>)
    ensures
        cipher == cipher_of(name@),
{
    if same_text(name, "TLS_AES_128_GCM_SHA256") {
        Some(TLS_AES_128_GCM_SHA256)
    } else if same_text(name, "TLS_AES_256_GCM_SHA384") {
        Some(TLS_AES_256_GCM_SHA384)
    } else if same_text(name, "TLS_CHACHA20_POLY1305_SHA256") {
        Some(TLS_CHACHA20_POLY1305_SHA256)
    } else {
        None
    }
}

/// Whether a test of the network simulator is one that resumes a connection.
pub open spec fn qns_resumes(name: Seq<char>) -> bool {
    name == "zerortt"@ || name == "resumption"@
}

/// Whether there is a test of the network simulator of that name.
pub open spec fn qns_known(name: Seq<char>) -> bool {
    ||| name == "http3"@
    ||| name == "handshake"@
    ||| name == "transfer"@
    ||| name == "retry"@
    ||| qns_resumes(name)
    ||| name == "multiconnect"@
    ||| name == "chacha20"@
    ||| name == "keyupdate"@
    ||| name == "v2"@
}

/// Whether a test of the network simulator can run with so many URLs.
pub open spec fn qns_runs(name: Seq<char>, urls: nat) -> bool {
    qns_known(name) && (qns_resumes(name) ==> urls >= 2)
}

/// What a test of the network simulator makes of the arguments. Most tests only use the first
/// version of QUIC.
pub open spec fn qns_applied(name: Seq<char>, before: Args, after: Args) -> bool {
    &&& after.use_old_http == (before.use_old_http || name != "http3"@)
    &&& after.resume == (before.resume || qns_resumes(name))
    &&& after.download_in_series == (before.download_in_series || name == "multiconnect"@)
    &&& after.key_update == (before.key_update || name == "keyupdate"@)
    &&& if name == "chacha20"@ {
        texts(after.ciphers@) == seq!["TLS_CHACHA20_POLY1305_SHA256"@]
    } else {
        after.ciphers == before.ciphers
    }
    &&& after.quic_parameters.quic_version@ == if name == "v2"@ {
        Seq::empty()
    } else {
        seq![Version::Version1]
    }
    &&& after == (Args {
        use_old_http: after.use_old_http,
        resume: after.resume,
        download_in_series: after.download_in_series,
        key_update: after.key_update,
        ciphers: after.ciphers,
        quic_parameters: QuicParameters {
            quic_version: after.quic_parameters.quic_version,
            ..before.quic_parameters
        },
        ..before
    })
}

/// What is told of a test that lacks URLs.
pub open spec fn too_few_urls_line() -> Seq<char> {
    "Warning: resumption tests won't work without >1 URL"@
}

impl Args {
    /// The cipher suites to enable.
    pub fn get_ciphers(&self) -> (ciphers: Vec<Cipher>)
        ensures
            ciphers@ == enabled_ciphers(texts(self.ciphers@)),
    {
        let mut ciphers: Vec<Cipher> = Vec::new();
        let ghost names = texts(self.ciphers@);
        let mut i: usize = 0;
        proof {
            assert(names.take(0) =~= Seq::empty());
        }
        while i < self.ciphers.len()
            invariant
                names == texts(self.ciphers@),
                i <= self.ciphers@.len(),
                ciphers@ == enabled_ciphers(names.take(i as int)),
            decreases self.ciphers@.len() - i,
        {
            proof {
                assert(names.take(i + 1).drop_last() =~= names.take(i as int));
                assert(names.take(i + 1).last() == self.ciphers@[i as int]@);
            }
            if let Some(cipher) = find_cipher(self.ciphers[i].as_str()) {
                ciphers.push(cipher);
            }
            i += 1;
        }
        proof {
            assert(names.take(names.len() as int) =~= names);
        }
        ciphers
    }

    /// Changes the arguments to those of a test of the network simulator, if one is to run; or
    /// says that the program ends, because there is no such test or it cannot run.
    pub fn apply_qns_test(&mut self) -> (r: Result<(), Exit>)
        ensures
            match old(self).qns_test {
                None => r == Ok::<(), Exit>(()) && *final(self) == *old(self),
                Some(name) => if qns_runs(name@, old(self).urls@.len()) {
                    r == Ok::<(), Exit>(()) && qns_applied(name@, *old(self), *final(self))
                } else {
                    &&& *final(self) == *old(self)
                    &&& r matches Err(exit) && {
                        &&& exit.code == EXIT_UNSUPPORTED
                        &&& optional_text(exit.line) == if qns_resumes(name@) {
                            Some(too_few_urls_line())
                        } else {
                            None
                        }
                    }
                },
            },
    {
        let test = match &self.qns_test {
            None => {
                return Ok(());
            },
            Some(name) => QnsTest::find(name.as_str()),
        };
        if !test.known {
            return Err(Exit { code: EXIT_UNSUPPORTED, line: None });
        }
        if test.resumes && self.urls.len() < 2 {
            let line = "Warning: resumption tests won't work without >1 URL".to_owned();
            return Err(Exit { code: EXIT_UNSUPPORTED, line: Some(line) });
        }
        self.quic_parameters.quic_version = qns_versions(test.default_versions);
        self.use_old_http = self.use_old_http || test.old_http;
        self.resume = self.resume || test.resumes;
        self.download_in_series = self.download_in_series || test.series;
        self.key_update = self.key_update || test.updates;
        if test.chacha {
            self.ciphers = only_chacha();
        }
        Ok(())
    }
}

/// What a test of the network simulator calls for.
struct QnsTest {
    known: bool,
    resumes: bool,
    series: bool,
    chacha: bool,
    updates: bool,
    default_versions: bool,
    old_http: bool,
}

impl QnsTest {
    /// The test of a name.
    fn find(name: &str) -> (test: QnsTest)
        ensures
            test == (QnsTest {
                known: qns_known(name@),
                resumes: qns_resumes(name@),
                series: name@ == "multiconnect"@,
                chacha: name@ == "chacha20"@,
                updates: name@ == "keyupdate"@,
                default_versions: name@ == "v2"@,
                old_http: name@ != "http3"@,
            }),
    {
        let http3 = same_text(name, "http3");
        let handshake = same_text(name, "handshake");
        let transfer = same_text(name, "transfer");
        let retry = same_text(name, "retry");
        let zerortt = same_text(name, "zerortt");
        let resumption = same_text(name, "resumption");
        let series = same_text(name, "multiconnect");
        let chacha = same_text(name, "chacha20");
        let updates = same_text(name, "keyupdate");
        let default_versions = same_text(name, "v2");
        let resumes = zerortt || resumption;
        QnsTest {
            known: http3 || handshake || transfer || retry || resumes || series || chacha
                || updates || default_versions,
            resumes,
            series,
            chacha,
            updates,
            default_versions,
            old_http: !http3,
        }
    }
}

/// The versions of QUIC that a test of the network simulator uses: the first one, or the default
/// set, which allows compatible version negotiation.
fn qns_versions(default_versions: bool) -> (versions: Vec<Version>)
    ensures
        versions@ == if default_versions {
            Seq::empty()
        } else {
            seq![Version::Version1]
        },
{
    let mut versions: Vec<Version> = Vec::new();
    if !default_versions {
        versions.push(Version::Version1);
    }
    versions
}

/// Just the name of one cipher suite.
fn only_chacha() -> (names: Vec<String>)
    ensures
        texts(names@) == seq!["TLS_CHACHA20_POLY1305_SHA256"@],
{
    let mut names: Vec<String> = Vec::new();
    names.push("TLS_CHACHA20_POLY1305_SHA256".to_owned());
    proof {
        assert(texts(names@) =~= seq!["TLS_CHACHA20_POLY1305_SHA256"@]);
    }
    names
}

/// Every name of a cipher suite that is known enables it, and nothing else does.
pub proof fn law_ciphers_enabled(names: Seq<Seq<char>>, cipher: Cipher)
    ensures
        enabled_ciphers(names).contains(cipher) <==> exists|i: int|
            0 <= i < names.len() && cipher_of(#[trigger] names[i]) == Some(cipher),
        enabled_ciphers(names).len() <= names.len(),
    decreases names.len(),
{
    if names.len() > 0 {
        let before = names.drop_last();
        law_ciphers_enabled(before, cipher);
        let enabled = enabled_ciphers(before);
        if cipher_of(names.last()) == Some(cipher) {
            assert(names[names.len() - 1] == names.last());
            assert(enabled_ciphers(names)[enabled.len() as int] == cipher);
        }
        if enabled.contains(cipher) {
            let k = choose|k: int| 0 <= k < enabled.len() && enabled[k] == cipher;
            assert(enabled_ciphers(names)[k] == cipher);
            let i = choose|i: int|
                0 <= i < before.len() && cipher_of(#[trigger] before[i]) == Some(cipher);
            assert(names[i] == before[i]);
        }
        if enabled_ciphers(names).contains(cipher) && !enabled.contains(cipher) {
            let k = choose|k: int|
                0 <= k < enabled_ciphers(names).len() && enabled_ciphers(names)[k] == cipher;
            if k < enabled.len() {
                assert(enabled[k] == cipher);
            }
        }
        if exists|i: int| 0 <= i < names.len() && cipher_of(#[trigger] names[i]) == Some(cipher) {
            let i = choose|i: int|
                0 <= i < names.len() && cipher_of(#[trigger] names[i]) == Some(cipher);
            if i < before.len() {
                assert(before[i] == names[i]);
            }
        }
    }
}

/// Why a text is not hexadecimal.
#[derive(Debug)]
pub enum HexError {
    /// A byte that is no digit, and where it stands.
    InvalidHexCharacter { c: char, index: usize },
    /// Half a byte is missing.
    OddLength,
    /// The length is not the one that is asked for.
    InvalidStringLength,
}

/// The value of a hexadecimal digit, whichever its case.
pub open spec fn hex_digit(b: u8) -> Option<u8> {
    if 0x30 <= b <= 0x39 {
        Some((b - 0x30) as u8)
    } else if 0x61 <= b <= 0x66 {
        Some((b - 0x61 + 10) as u8)
    } else if 0x41 <= b <= 0x46 {
        Some((b - 0x41 + 10) as u8)
    } else {
        None
    }
}

/// Whether the first `n` bytes of a text are hexadecimal digits.
pub open spec fn all_hex(text: Seq<u8>, n: int) -> bool {
    forall|i: int| 0 <= i < n ==> hex_digit(#[trigger] text[i]) is Some
}

/// Whether `r` is what comes of reading a text as hexadecimal: a byte for every two digits, or
/// what is wrong first.
pub open spec fn hex_decoded(text: Seq<u8>, r: Result<Vec<u8>, HexError>) -> bool {
    match r {
        Ok(data) => {
            &&& text.len() == 2 * data@.len()
            &&& all_hex(text, text.len() as int)
            &&& forall|i: int|
                0 <= i < data@.len() ==> #[trigger] data@[i] == hex_digit(text[2 * i])->0 * 16
                    + hex_digit(text[2 * i + 1])->0
        },
        Err(HexError::OddLength) => text.len() % 2 != 0,
        Err(HexError::InvalidHexCharacter { c, index }) => {
            &&& text.len() % 2 == 0
            &&& index < text.len()
            &&& all_hex(text, index as int)
            &&& hex_digit(text[index as int]) is None
            &&& c as u32 == text[index as int]
        },
        Err(HexError::InvalidStringLength) => false,
    }
}

/// Calls `hex::decode`. Its result is that of reading the bytes of the text as hexadecimal, of
/// which it reports the first that is no digit, unless their number is odd.
#[verifier::external_body]
fn hex_decode(text: &str) -> (r: Result<Vec<u8>, HexError>)
    ensures
        hex_decoded(encode_utf8(text@), r),
{
    match hex::decode(text) {
        Ok(data) => Ok(data),
        Err(hex::FromHexError::InvalidHexCharacter { c, index }) => {
            Err(HexError::InvalidHexCharacter { c, index })
        },
        Err(hex::FromHexError::OddLength) => Err(HexError::OddLength),
        Err(hex::FromHexError::InvalidStringLength) => Err(HexError::InvalidStringLength),
    }
}

/// Reads an encoded ECH configuration in hexadecimal format.
pub fn parse_ech(text: &str) -> (r: Result<Vec<u8>, HexError>)
    ensures
        hex_decoded(encode_utf8(text@), r),
{
    hex_decode(text)
}

} // verus!
