//! The lines that the client prints.

use crate::text::{decimal, decimal_text, hex, hexadecimal, utf8_text};
use vstd::prelude::*;
use vstd::slice::{slice_subrange, slice_to_vec};
use vstd::utf8::{decode_utf8, valid_utf8};

verus! {

/// Two texts in a row.
pub(crate) fn join2(a: &str, b: &str) -> (line: String)
    ensures
        line@ == a@ + b@,
{
    let mut line = a.to_owned();
    line.append(b);
    line
}

/// Three texts in a row.
pub(crate) fn join3(a: &str, b: &str, c: &str) -> (line: String)
    ensures
        line@ == a@ + b@ + c@,
{
    let mut line = join2(a, b);
    line.append(c);
    line
}

/// Four texts in a row.
pub(crate) fn join4(a: &str, b: &str, c: &str, d: &str) -> (line: String)
    ensures
        line@ == a@ + b@ + c@ + d@,
{
    let mut line = join3(a, b, c);
    line.append(d);
    line
}

/// Five texts in a row.
pub(crate) fn join5(a: &str, b: &str, c: &str, d: &str, e: &str) -> (line: String)
    ensures
        line@ == a@ + b@ + c@ + d@ + e@,
{
    let mut line = join4(a, b, c, d);
    line.append(e);
    line
}

/// Tells that the keys were updated.
pub open spec fn keys_updated() -> Seq<char> {
    "Keys updated"@
}

/// The text of [`keys_updated`].
pub fn keys_updated_text() -> (line: String)
    ensures
        line@ == keys_updated(),
{
    "Keys updated".to_owned()
}

/// Tells how many bytes came on a stream.
pub open spec fn bytes_line(stream_id: u64, sz: usize) -> Seq<char> {
    "READ["@ + decimal(stream_id as nat) + "]: "@ + decimal(sz as nat) + " bytes"@
}

/// The text of [`bytes_line`].
pub fn bytes_line_text(stream_id: u64, sz: usize) -> (line: String)
    ensures
        line@ == bytes_line(stream_id, sz),
{
    join5("READ[", decimal_text(stream_id).as_str(), "]: ", decimal_text(sz as u64).as_str(), " bytes")
}

/// Shows the text that came on a stream.
pub open spec fn text_line(stream_id: u64, text: Seq<char>) -> Seq<char> {
    "READ["@ + decimal(stream_id as nat) + "]: "@ + text
}

/// The text of [`text_line`].
pub fn text_line_text(stream_id: u64, text: &str) -> (line: String)
    ensures
        line@ == text_line(stream_id, text@),
{
    join4("READ[", decimal_text(stream_id).as_str(), "]: ", text)
}

/// Shows the bytes that came on a stream.
pub open spec fn hex_line(stream_id: u64, data: Seq<u8>) -> Seq<char> {
    "READ["@ + decimal(stream_id as nat) + "]: 0x"@ + hexadecimal(data)
}

/// The text of [`hex_line`].
pub fn hex_line_text(stream_id: u64, data: &Vec<u8>) -> (line: String)
    ensures
        line@ == hex_line(stream_id, data@),
{
    join4("READ[", decimal_text(stream_id).as_str(), "]: 0x", hex(data.as_slice()).as_str())
}

/// Tells that a stream has ended.
pub open spec fn fin_line(stream_id: u64) -> Seq<char> {
    "<FIN["@ + decimal(stream_id as nat) + "]>"@
}

/// The text of [`fin_line`].
pub fn fin_line_text(stream_id: u64) -> (line: String)
    ensures
        line@ == fin_line(stream_id),
{
    join3("<FIN[", decimal_text(stream_id).as_str(), "]>")
}

/// Tells which stream a request was given.
pub open spec fn fetched_line(stream_id: u64, url: Seq<char>) -> Seq<char> {
    "Successfully created stream id "@ + decimal(stream_id as nat) + " for "@ + url
}

/// The text of [`fetched_line`].
pub fn fetched_line_text(stream_id: u64, url: &str) -> (line: String)
    ensures
        line@ == fetched_line(stream_id, url@),
{
    join4("Successfully created stream id ", decimal_text(stream_id).as_str(), " for ", url)
}

/// Tells which stream was created for a URL.
pub open spec fn created_line(stream_id: u64, url: Seq<char>) -> Seq<char> {
    "Created stream "@ + decimal(stream_id as nat) + " for "@ + url
}

/// The text of [`created_line`].
pub fn created_line_text(stream_id: u64, url: &str) -> (line: String)
    ensures
        line@ == created_line(stream_id, url@),
{
    join4("Created stream ", decimal_text(stream_id).as_str(), " for ", url)
}

/// Tells of data on a stream that nobody asked for.
pub open spec fn unexpected_line(stream_id: u64) -> Seq<char> {
    "Data on unexpected stream: "@ + decimal(stream_id as nat)
}

/// The text of [`unexpected_line`].
pub fn unexpected_line_text(stream_id: u64) -> (line: String)
    ensures
        line@ == unexpected_line(stream_id),
{
    join2("Data on unexpected stream: ", decimal_text(stream_id).as_str())
}

/// Tells of an event that calls for nothing.
pub open spec fn unhandled_line(event: Seq<char>) -> Seq<char> {
    "Unhandled event "@ + event
}

/// The text of [`unhandled_line`].
pub fn unhandled_line_text(event: &str) -> (line: String)
    ensures
        line@ == unhandled_line(event@),
{
    join2("Unhandled event ", event)
}

/// Tells that requests wait for the keys.
pub open spec fn deferring_line() -> Seq<char> {
    "Deferring requests until after first key update"@
}

/// The text of [`deferring_line`].
pub fn deferring_line_text() -> (line: String)
    ensures
        line@ == deferring_line(),
{
    "Deferring requests until after first key update".to_owned()
}

/// Tells why no stream was created.
pub open spec fn refused_line(error: Seq<char>) -> Seq<char> {
    "Cannot create stream "@ + error
}

/// The text of [`refused_line`].
pub fn refused_line_text(error: &str) -> (line: String)
    ensures
        line@ == refused_line(error@),
{
    join2("Cannot create stream ", error)
}

/// Tells that a stream takes data.
pub open spec fn writable_line(stream_id: u64) -> Seq<char> {
    "stream "@ + decimal(stream_id as nat) + " writable"@
}

/// The text of [`writable_line`].
pub fn writable_line_text(stream_id: u64) -> (line: String)
    ensures
        line@ == writable_line(stream_id),
{
    join3("stream ", decimal_text(stream_id).as_str(), " writable")
}

/// Tells that what was sent on a stream has arrived.
pub open spec fn complete_line(stream_id: u64) -> Seq<char> {
    "stream "@ + decimal(stream_id as nat) + " complete"@
}

/// The text of [`complete_line`].
pub fn complete_line_text(stream_id: u64) -> (line: String)
    ensures
        line@ == complete_line(stream_id),
{
    join3("stream ", decimal_text(stream_id).as_str(), " complete")
}

/// Tells that streams of a type can be created.
pub open spec fn creatable_line(stream_type: Seq<char>) -> Seq<char> {
    "stream "@ + stream_type + " creatable"@
}

/// The text of [`creatable_line`].
pub fn creatable_line_text(stream_type: &str) -> (line: String)
    ensures
        line@ == creatable_line(stream_type@),
{
    join3("stream ", stream_type, " creatable")
}

/// Tells that a path is in use already.
pub open spec fn duplicate_line(path: Seq<char>) -> Seq<char> {
    "duplicate path "@ + path
}

/// The text of [`duplicate_line`].
pub fn duplicate_line_text(path: &str) -> (line: String)
    ensures
        line@ == duplicate_line(path@),
{
    join2("duplicate path ", path)
}

/// Tells why a datagram was not sent.
pub open spec fn send_error_line(error: Seq<char>) -> Seq<char> {
    "UDP send error: "@ + error
}

/// The text of [`send_error_line`].
pub fn send_error_line_text(error: &str) -> (line: String)
    ensures
        line@ == send_error_line(error@),
{
    join2("UDP send error: ", error)
}

/// Tells that a datagram was not sent whole.
pub open spec fn short_send_line(len: usize) -> Seq<char> {
    "Unable to send all "@ + decimal(len as nat) + " bytes of datagram"@
}

/// The text of [`short_send_line`].
pub fn short_send_line_text(len: usize) -> (line: String)
    ensures
        line@ == short_send_line(len),
{
    join3("Unable to send all ", decimal_text(len as u64).as_str(), " bytes of datagram")
}

/// Tells why no datagram was received.
pub open spec fn receive_error_line(error: Seq<char>) -> Seq<char> {
    "UDP recv error: "@ + error
}

/// The text of [`receive_error_line`].
pub fn receive_error_line_text(error: &str) -> (line: String)
    ensures
        line@ == receive_error_line(error@),
{
    join2("UDP recv error: ", error)
}

/// Tells that a datagram filled the whole buffer.
pub open spec fn full_buffer_line(len: usize) -> Seq<char> {
    "Might have received more than "@ + decimal(len as nat) + " bytes"@
}

/// The text of [`full_buffer_line`].
pub fn full_buffer_line_text(len: usize) -> (line: String)
    ensures
        line@ == full_buffer_line(len),
{
    join3("Might have received more than ", decimal_text(len as u64).as_str(), " bytes")
}

/// Tells that a datagram was empty.
pub open spec fn empty_datagram_line() -> Seq<char> {
    "zero length datagram received?"@
}

/// The text of [`empty_datagram_line`].
pub fn empty_datagram_line_text() -> (line: String)
    ensures
        line@ == empty_datagram_line(),
{
    "zero length datagram received?".to_owned()
}

/// Tells which headers came on a stream.
pub open spec fn headers_line(stream_id: u64, fin: bool, headers: Seq<char>) -> Seq<char> {
    "READ HEADERS["@ + decimal(stream_id as nat) + (if fin {
        "]: fin=true "@
    } else {
        "]: fin=false "@
    }) + headers
}

/// The text of [`headers_line`].
pub fn headers_line_text(stream_id: u64, fin: bool, headers: &str) -> (line: String)
    ensures
        line@ == headers_line(stream_id, fin, headers@),
{
    let end = if fin {
        "]: fin=true "
    } else {
        "]: fin=false "
    };
    join4("READ HEADERS[", decimal_text(stream_id).as_str(), end, headers)
}

/// Tells what came on a stream, of which the first `sz` bytes of `data` are received: how much, or
/// all of it, as text where it is text.
pub open spec fn data_line(stream_id: u64, data: Seq<u8>, sz: usize, whole: bool) -> Seq<char> {
    let received = data.take(sz as int);
    if !whole {
        bytes_line(stream_id, sz)
    } else if valid_utf8(received) {
        text_line(stream_id, decode_utf8(received))
    } else {
        hex_line(stream_id, received)
    }
}

/// The text of [`data_line`].
pub fn data_line_text(stream_id: u64, data: &Vec<u8>, sz: usize, whole: bool) -> (line: String)
    requires
        sz <= data@.len(),
    ensures
        line@ == data_line(stream_id, data@, sz, whole),
{
    if !whole {
        return bytes_line_text(stream_id, sz);
    }
    let received = slice_to_vec(slice_subrange(data.as_slice(), 0, sz));
    assert(received@ =~= data@.take(sz as int));
    match utf8_text(&received) {
        Some(text) => text_line_text(stream_id, text.as_str()),
        None => hex_line_text(stream_id, &received),
    }
}

} // verus!
