//! The parameters of the transport.

use crate::error::ClientError;
use crate::text::{number_value, parse_number, same_text};
use vstd::prelude::*;

verus! {

/// A version of QUIC.
#[derive(Debug, Clone, Copy, PartialEq, Eq, Structural)]
pub enum Version {
    Version1,
    Draft29,
    Draft30,
    Draft31,
    Draft32,
    /// Any other, by its number.
    Other(u32),
}

/// An algorithm for congestion control.
#[derive(Debug, Clone, Copy, PartialEq, Eq, Structural)]
pub enum CongestionControlAlgorithm {
    NewReno,
    Cubic,
}

/// The versions that a connection can have.
pub enum VersionChoice {
    /// The first one to attempt, and all of them in order of preference.
    Listed { first: Version, all: Vec<Version> },
    /// All that the transport supports; the first one to attempt may be left to it.
    Supported { attempt: Option<Version> },
}

/// The mathematical value of a [`VersionChoice`].
pub ghost enum VersionChoiceView {
    Listed { first: Version, all: Seq<Version> },
    Supported { attempt: Option<Version> },
}

impl View for VersionChoice {
    type V = VersionChoiceView;

    open spec fn view(&self) -> VersionChoiceView {
        match self {
            VersionChoice::Listed { first, all } => VersionChoiceView::Listed {
                first: *first,
                all: all@,
            },
            VersionChoice::Supported { attempt } => VersionChoiceView::Supported {
                attempt: *attempt,
            },
        }
    }
}

/// What a connection is set up with.
pub struct ConnectionParameters {
    /// The limit on streams on which both sides send.
    pub max_streams_bidi: u64,
    /// The limit on streams on which one side sends.
    pub max_streams_uni: u64,
    /// The idle timeout, in seconds.
    pub idle_timeout: u64,
    /// The congestion controller.
    pub cc_algorithm: CongestionControlAlgorithm,
    /// Whether pacing is enabled.
    pub pacing: bool,
    /// The versions.
    pub versions: VersionChoice,
}

/// The parameters of the transport that are given on the command line.
pub struct QuicParameters {
    /// A list of versions to support. The first is the version to attempt. Adding multiple values
    /// adds versions in order of preference. If the first listed version appears in the list
    /// twice, the position of the second entry determines the preference order of that version.
    pub quic_version: Vec<Version>,
    /// The limit on streams on which both sides send.
    pub max_streams_bidi: u64,
    /// The limit on streams on which one side sends.
    pub max_streams_uni: u64,
    /// The idle timeout for connections, in seconds.
    pub idle_timeout: u64,
    /// The congestion controller to use.
    pub congestion_control: CongestionControlAlgorithm,
    /// Whether pacing is enabled.
    pub pacing: bool,
}

/// The version that a protocol's name stands for, if it stands for one.
pub open spec fn version_of_alpn(alpn: Seq<char>) -> Option<Version> {
    if alpn == "h3"@ || alpn == "hq-interop"@ {
        Some(Version::Version1)
    } else if alpn == "h3-29"@ || alpn == "hq-29"@ {
        Some(Version::Draft29)
    } else if alpn == "h3-30"@ || alpn == "hq-30"@ {
        Some(Version::Draft30)
    } else if alpn == "h3-31"@ || alpn == "hq-31"@ {
        Some(Version::Draft31)
    } else if alpn == "h3-32"@ || alpn == "hq-32"@ {
        Some(Version::Draft32)
    } else {
        None
    }
}

/// The versions in order of preference, out of a list that starts with the one to attempt.
pub open spec fn preferred(list: Seq<Version>) -> Seq<Version> {
    if list.skip(1).contains(list[0]) {
        list.skip(1)
    } else {
        list
    }
}

/// The versions for a list of them, or for a protocol's name if the list is empty.
pub open spec fn version_choice(list: Seq<Version>, alpn: Seq<char>) -> VersionChoiceView {
    if list.len() > 0 {
        VersionChoiceView::Listed { first: list[0], all: preferred(list) }
    } else {
        VersionChoiceView::Supported { attempt: version_of_alpn(alpn) }
    }
}

/// The version that a protocol's name stands for.
fn alpn_version(alpn: &str) -> (version: Option<Version>)
    ensures
        version == version_of_alpn(alpn@),
{
    if same_text(alpn, "h3") || same_text(alpn, "hq-interop") {
        Some(Version::Version1)
    } else if same_text(alpn, "h3-29") || same_text(alpn, "hq-29") {
        Some(Version::Draft29)
    } else if same_text(alpn, "h3-30") || same_text(alpn, "hq-30") {
        Some(Version::Draft30)
    } else if same_text(alpn, "h3-31") || same_text(alpn, "hq-31") {
        Some(Version::Draft31)
    } else if same_text(alpn, "h3-32") || same_text(alpn, "hq-32") {
        Some(Version::Draft32)
    } else {
        None
    }
}

/// Whether a list of versions names its first one again.
fn first_repeated(list: &Vec<Version>) -> (r: bool)
    requires
        list@.len() > 0,
    ensures
        r == list@.skip(1).contains(list@[0]),
{
    let mut i: usize = 1;
    while i < list.len()
        invariant
            1 <= i <= list@.len(),
            forall|j: int| 1 <= j < i ==> #[trigger] list@[j] != list@[0],
        decreases list@.len() - i,
    {
        if list[i] == list[0] {
            assert(list@.skip(1)[i - 1] == list@[0]);
            return true;
        }
        i += 1;
    }
    assert forall|k: int| 0 <= k < list@.skip(1).len() implies list@.skip(1)[k] != list@[0] by {
        assert(list@.skip(1)[k] == list@[k + 1]);
    }
    false
}

/// The versions of a list from a position on.
fn versions_from(list: &Vec<Version>, start: usize) -> (all: Vec<Version>)
    requires
        start <= list@.len(),
    ensures
        all@ == list@.skip(start as int),
{
    let mut all: Vec<Version> = Vec::new();
    let mut i: usize = start;
    while i < list.len()
        invariant
            start <= i <= list@.len(),
            all@ == list@.subrange(start as int, i as int),
        decreases list@.len() - i,
    {
        all.push(list[i]);
        proof {
            assert(all@ =~= list@.subrange(start as int, i + 1));
        }
        i += 1;
    }
    proof {
        assert(all@ =~= list@.skip(start as int));
    }
    all
}

impl QuicParameters {
    /// What a connection for a protocol is set up with.
    pub fn get(&self, alpn: &str) -> (params: ConnectionParameters)
        ensures
            params.max_streams_bidi == self.max_streams_bidi,
            params.max_streams_uni == self.max_streams_uni,
            params.idle_timeout == self.idle_timeout,
            params.cc_algorithm == self.congestion_control,
            params.pacing == self.pacing,
            params.versions@ == version_choice(self.quic_version@, alpn@),
    {
        let versions = if self.quic_version.len() > 0 {
            let first = self.quic_version[0];
            let all = if first_repeated(&self.quic_version) {
                versions_from(&self.quic_version, 1)
            } else {
                proof {
                    assert(self.quic_version@.skip(0) =~= self.quic_version@);
                }
                versions_from(&self.quic_version, 0)
            };
            VersionChoice::Listed { first, all }
        } else {
            VersionChoice::Supported { attempt: alpn_version(alpn) }
        };
        ConnectionParameters {
            max_streams_bidi: self.max_streams_bidi,
            max_streams_uni: self.max_streams_uni,
            idle_timeout: self.idle_timeout,
            cc_algorithm: self.congestion_control,
            pacing: self.pacing,
            versions,
        }
    }
}

/// Reads a version. `find` says which version a number stands for, if it stands for one.
pub fn from_str<F: Fn(u32) -> Option<Version>>(s: &str, find: F) -> (r: Result<
    Version,
    ClientError,
>)
    requires
        forall|wire: u32| call_requires(find, (wire,)),
    ensures
        match number_value(s@, 16, u32::MAX as nat) {
            None => r == Err::<Version, ClientError>(
                ClientError::ArgumentError("versions need to be specified in hex"),
            ),
            Some(wire) => {
                exists|found: Option<Version>|
                    {
                        &&& #[trigger] call_ensures(find, (wire as u32,), found)
                        &&& r == (match found {
                            Some(v) => Ok::<Version, ClientError>(v),
                            None => Err(ClientError::ArgumentError("unknown version")),
                        })
                    }
            },
        },
{
    match parse_number(s, 16, u32::MAX as u64) {
        None => Err(ClientError::ArgumentError("versions need to be specified in hex")),
        Some(wire) => {
            let found = find(wire as u32);
            match found {
                Some(v) => Ok(v),
                None => Err(ClientError::ArgumentError("unknown version")),
            }
        },
    }
}

/// The version to attempt is among the versions in order of preference. All the versions listed
/// are, in the order in which they are listed, and no others; only a first entry that is listed
/// again is left out.
pub proof fn law_versions_in_order(list: Seq<Version>, alpn: Seq<char>)
    requires
        list.len() > 0,
    ensures
        version_choice(list, alpn) matches VersionChoiceView::Listed { first, all } && {
            &&& first == list[0]
            &&& all.contains(first)
            &&& forall|v: Version| all.contains(v) <==> list.contains(v)
            &&& all == list || all == list.skip(1)
        },
{
    let all = preferred(list);
    assert(list.contains(list[0]));
    assert forall|v: Version| all.contains(v) <==> list.contains(v) by {
        if list.contains(v) && all != list {
            let i = choose|i: int| 0 <= i < list.len() && list[i] == v;
            if i > 0 {
                assert(list.skip(1)[i - 1] == v);
            }
        }
        if all.contains(v) {
            let i = choose|i: int| 0 <= i < all.len() && all[i] == v;
            if all != list {
                assert(list[i + 1] == v);
            }
        }
    }
}

/// If the first version listed appears a second time, at `second`, the position of the second
/// entry determines the preference order of that version: just the versions listed between the
/// two entries are preferred to it.
pub proof fn law_second_entry_decides(list: Seq<Version>, second: int)
    requires
        0 < second < list.len(),
        list[second] == list[0],
        forall|j: int| 0 < j < second ==> #[trigger] list[j] != list[0],
    ensures
        preferred(list)[second - 1] == list[0],
        forall|j: int| 0 <= j < second - 1 ==> #[trigger] preferred(list)[j] == list[j + 1],
        forall|j: int| 0 <= j < second - 1 ==> #[trigger] preferred(list)[j] != list[0],
{
    assert(list.skip(1)[second - 1] == list[0]);
}

} // verus!
