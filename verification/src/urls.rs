//! URLs: what the client reads of them.

use vstd::prelude::*;

verus! {

/// The origin of a URL.
pub enum Origin {
    /// One that equals no other.
    Opaque,
    /// One that is known by a scheme, a host as it is written and a port.
    Tuple { scheme: String, host: String, port: u16 },
}

/// The mathematical value of an [`Origin`].
pub ghost enum OriginView {
    Opaque,
    Tuple { scheme: Seq<char>, host: Seq<char>, port: u16 },
}

impl View for Origin {
    type V = OriginView;

    open spec fn view(&self) -> OriginView {
        match self {
            Origin::Opaque => OriginView::Opaque,
            Origin::Tuple { scheme, host, port } => OriginView::Tuple {
                scheme: scheme@,
                host: host@,
                port: *port,
            },
        }
    }
}

/// A URL.
pub struct Url {
    /// The whole URL.
    pub text: String,
    /// Its path, percent-encoded.
    pub path: String,
    /// Its origin.
    pub origin: Origin,
}

/// The mathematical value of a [`Url`].
pub ghost struct UrlView {
    pub text: Seq<char>,
    pub path: Seq<char>,
    pub origin: OriginView,
}

impl View for Url {
    type V = UrlView;

    open spec fn view(&self) -> UrlView {
        UrlView { text: self.text@, path: self.path@, origin: self.origin@ }
    }
}

/// `url::ParseError`, which is carried and never looked into.
#[verifier::external_type_specification]
#[verifier::external_body]
pub struct ExParseError(url::ParseError);

/// What `url::Url::parse` makes of a text: the URL's serialization, path and origin, or `None`
/// where it reports an error.
pub uninterp spec fn parsed_url(input: Seq<char>) -> Option<UrlView>;

/// Calls `url::Url::parse` and reads the result out through `as_str`, `path` and `origin`; the
/// host of the origin is taken as `url::Host` displays it. What comes back depends on `input`
/// alone. A URL whose origin is a tuple has a path: a special scheme always has one, and a `blob`
/// URL has such an origin only where its path is itself a URL.
#[verifier::external_body]
fn parse_absolute(input: &str) -> (r: Result<Url, url::ParseError>)
    ensures
        match r {
            Ok(u) => parsed_url(input@) == Some(u@),
            Err(_) => parsed_url(input@) is None,
        },
        r matches Ok(u) ==> (u@.origin is Tuple ==> u@.path.len() > 0),
{
    let parsed = url::Url::parse(input)?;
    let origin = match parsed.origin() {
        url::Origin::Opaque(_) => Origin::Opaque,
        url::Origin::Tuple(scheme, host, port) => {
            Origin::Tuple { scheme, host: host.to_string(), port }
        },
    };
    Ok(Url { text: parsed.as_str().to_string(), path: parsed.path().to_string(), origin })
}

impl Url {
    /// Reads an absolute URL.
    pub fn parse(input: &str) -> (r: Result<Url, url::ParseError>)
        ensures
            match r {
                Ok(u) => parsed_url(input@) == Some(u@),
                Err(_) => parsed_url(input@) is None,
            },
            r matches Ok(u) ==> (u@.origin is Tuple ==> u@.path.len() > 0),
    {
        parse_absolute(input)
    }
}

impl Clone for Origin {
    fn clone(&self) -> (r: Self)
        ensures
            r == *self,
    {
        match self {
            Origin::Opaque => Origin::Opaque,
            Origin::Tuple { scheme, host, port } => Origin::Tuple {
                scheme: scheme.clone(),
                host: host.clone(),
                port: *port,
            },
        }
    }
}

impl Clone for Url {
    fn clone(&self) -> (r: Self)
        ensures
            r == *self,
    {
        Url { text: self.text.clone(), path: self.path.clone(), origin: self.origin.clone() }
    }
}

} // verus!
