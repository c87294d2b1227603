//! What the lines that the client prints say.

use crate::http3_runner::unsupported_test_line;
use crate::lines::{
    bytes_line, complete_line, creatable_line, created_line, data_line, deferring_line,
    duplicate_line, empty_datagram_line, fetched_line, fin_line, full_buffer_line, headers_line,
    hex_line, keys_updated, receive_error_line, refused_line, send_error_line, short_send_line,
    text_line, unexpected_line, unhandled_line, writable_line,
};
use crate::session::{
    authority, connecting_line, no_address_line, no_socket_line, too_few_line,
};
use crate::text::{decimal, hexadecimal, number_value};
use crate::text_laws::law_decimal_reads_back;
use vstd::prelude::*;
use vstd::utf8::{
    decode_utf8, encode_utf8, encode_utf8_decode_utf8, encode_utf8_valid_utf8, valid_utf8,
};

verus! {

/// Whether a line consists of a text between two others.
pub open spec fn shows(
    line: Seq<char>,
    before: Seq<char>,
    text: Seq<char>,
    after: Seq<char>,
) -> bool {
    &&& line.len() == before.len() + text.len() + after.len()
    &&& before.is_prefix_of(line)
    &&& line.subrange(before.len() as int, (before.len() + text.len()) as int) == text
    &&& line.skip(line.len() - after.len()) == after
}

/// Whether a line consists of a number between two texts: what stands there reads as the number,
/// with no sign and no zeros in front.
pub open spec fn tells(line: Seq<char>, before: Seq<char>, n: nat, after: Seq<char>) -> bool {
    &&& before.len() + after.len() < line.len()
    &&& before.is_prefix_of(line)
    &&& line.skip(line.len() - after.len()) == after
    &&& ({
        let digits = line.subrange(before.len() as int, line.len() - after.len());
        &&& number_value(digits, 10, u64::MAX as nat) == Some(n)
        &&& digits[0] != '+'
        &&& digits[0] == '0' ==> n == 0
    })
}

/// A text between two others.
proof fn lemma_shows(before: Seq<char>, text: Seq<char>, after: Seq<char>)
    ensures
        shows(before + text + after, before, text, after),
{
    let line = before + text + after;
    assert(line.subrange(before.len() as int, (before.len() + text.len()) as int) =~= text);
    assert(line.skip(line.len() - after.len()) =~= after);
}

/// A number between two texts.
proof fn lemma_tells(before: Seq<char>, n: nat, after: Seq<char>)
    requires
        n <= u64::MAX,
    ensures
        tells(before + decimal(n) + after, before, n, after),
{
    law_decimal_reads_back(n, u64::MAX as nat);
    lemma_shows(before, decimal(n), after);
    let line = before + decimal(n) + after;
    assert(line.subrange(before.len() as int, line.len() - after.len()) =~= decimal(n));
}

/// The lines about a stream name it by its whole number.
pub proof fn law_lines_name_the_stream(stream_id: u64, text: Seq<char>)
    ensures
        tells(text_line(stream_id, text), "READ["@, stream_id as nat, "]: "@ + text),
        tells(fin_line(stream_id), "<FIN["@, stream_id as nat, "]>"@),
        tells(
            fetched_line(stream_id, text),
            "Successfully created stream id "@,
            stream_id as nat,
            " for "@ + text,
        ),
        tells(created_line(stream_id, text), "Created stream "@, stream_id as nat, " for "@ + text),
        tells(
            unexpected_line(stream_id),
            "Data on unexpected stream: "@,
            stream_id as nat,
            Seq::empty(),
        ),
        tells(writable_line(stream_id), "stream "@, stream_id as nat, " writable"@),
        tells(complete_line(stream_id), "stream "@, stream_id as nat, " complete"@),
        tells(
            headers_line(stream_id, true, text),
            "READ HEADERS["@,
            stream_id as nat,
            "]: fin=true "@ + text,
        ),
        tells(
            headers_line(stream_id, false, text),
            "READ HEADERS["@,
            stream_id as nat,
            "]: fin=false "@ + text,
        ),
{
    let id = stream_id as nat;
    let none = Seq::<char>::empty();
    lemma_tells("READ["@, id, "]: "@ + text);
    assert("READ["@ + decimal(id) + ("]: "@ + text) =~= text_line(stream_id, text));
    lemma_tells("<FIN["@, id, "]>"@);
    lemma_tells("Successfully created stream id "@, id, " for "@ + text);
    assert("Successfully created stream id "@ + decimal(id) + (" for "@ + text) =~= fetched_line(
        stream_id,
        text,
    ));
    lemma_tells("Created stream "@, id, " for "@ + text);
    assert("Created stream "@ + decimal(id) + (" for "@ + text) =~= created_line(stream_id, text));
    lemma_tells("Data on unexpected stream: "@, id, none);
    assert("Data on unexpected stream: "@ + decimal(id) + none =~= unexpected_line(stream_id));
    lemma_tells("stream "@, id, " writable"@);
    lemma_tells("stream "@, id, " complete"@);
    lemma_tells("READ HEADERS["@, id, "]: fin=true "@ + text);
    assert("READ HEADERS["@ + decimal(id) + ("]: fin=true "@ + text) =~= headers_line(
        stream_id,
        true,
        text,
    ));
    lemma_tells("READ HEADERS["@, id, "]: fin=false "@ + text);
    assert("READ HEADERS["@ + decimal(id) + ("]: fin=false "@ + text) =~= headers_line(
        stream_id,
        false,
        text,
    ));
}

/// The lines about a number of bytes give the whole number.
pub proof fn law_lines_give_the_size(stream_id: u64, sz: usize)
    ensures
        exists|start: Seq<char>|
            #![trigger tells(start, "READ["@, stream_id as nat, "]: "@)]
            {
                &&& tells(start, "READ["@, stream_id as nat, "]: "@)
                &&& tells(bytes_line(stream_id, sz), start, sz as nat, " bytes"@)
            },
        tells(short_send_line(sz), "Unable to send all "@, sz as nat, " bytes of datagram"@),
        tells(full_buffer_line(sz), "Might have received more than "@, sz as nat, " bytes"@),
{
    let start = "READ["@ + decimal(stream_id as nat) + "]: "@;
    lemma_tells("READ["@, stream_id as nat, "]: "@);
    lemma_tells(start, sz as nat, " bytes"@);
    lemma_tells("Unable to send all "@, sz as nat, " bytes of datagram"@);
    lemma_tells("Might have received more than "@, sz as nat, " bytes"@);
    assert(tells(start, "READ["@, stream_id as nat, "]: "@));
}

/// What a line is about stands in it whole.
pub proof fn law_lines_hold_the_text(text: Seq<char>)
    ensures
        shows(unhandled_line(text), "Unhandled event "@, text, Seq::empty()),
        shows(refused_line(text), "Cannot create stream "@, text, Seq::empty()),
        shows(creatable_line(text), "stream "@, text, " creatable"@),
        shows(duplicate_line(text), "duplicate path "@, text, Seq::empty()),
        shows(send_error_line(text), "UDP send error: "@, text, Seq::empty()),
        shows(receive_error_line(text), "UDP recv error: "@, text, Seq::empty()),
        shows(unsupported_test_line(text), "Unsupported test case: "@, text, Seq::empty()),
        shows(no_address_line(text), "No compatible address found for: "@, text, Seq::empty()),
        shows(no_socket_line(text), "Unable to bind UDP socket: "@, text, Seq::empty()),
        shows(
            too_few_line(text),
            "Resumption to "@,
            text,
            " cannot work without at least 2 URLs."@,
        ),
{
    let none = Seq::<char>::empty();
    lemma_shows("Unhandled event "@, text, none);
    assert("Unhandled event "@ + text + none =~= unhandled_line(text));
    lemma_shows("Cannot create stream "@, text, none);
    assert("Cannot create stream "@ + text + none =~= refused_line(text));
    lemma_shows("stream "@, text, " creatable"@);
    lemma_shows("duplicate path "@, text, none);
    assert("duplicate path "@ + text + none =~= duplicate_line(text));
    lemma_shows("UDP send error: "@, text, none);
    assert("UDP send error: "@ + text + none =~= send_error_line(text));
    lemma_shows("UDP recv error: "@, text, none);
    assert("UDP recv error: "@ + text + none =~= receive_error_line(text));
    lemma_shows("Unsupported test case: "@, text, none);
    assert("Unsupported test case: "@ + text + none =~= unsupported_test_line(text));
    lemma_shows("No compatible address found for: "@, text, none);
    assert("No compatible address found for: "@ + text + none =~= no_address_line(text));
    lemma_shows("Unable to bind UDP socket: "@, text, none);
    assert("Unable to bind UDP socket: "@ + text + none =~= no_socket_line(text));
    lemma_shows("Resumption to "@, text, " cannot work without at least 2 URLs."@);
}

/// The lines that are always the same.
pub proof fn law_fixed_lines()
    ensures
        keys_updated() == "Keys updated"@,
        deferring_line() == "Deferring requests until after first key update"@,
        empty_datagram_line() == "zero length datagram received?"@,
{
}

/// A server is looked up by its whole host and port.
pub proof fn law_authority_holds_host_and_port(host: Seq<char>, port: u16)
    ensures
        tells(authority(host, port), host + ":"@, port as nat, Seq::empty()),
{
    lemma_tells(host + ":"@, port as nat, Seq::empty());
    assert(host + ":"@ + decimal(port as nat) + Seq::<char>::empty() =~= authority(host, port));
}

/// A connection is announced with what is spoken on it, from where and to where.
pub proof fn law_connection_announced(local: Seq<char>, remote: Seq<char>)
    ensures
        shows(
            connecting_line(true, local, remote),
            "H9 Client connecting: "@,
            local,
            " -> "@ + remote,
        ),
        shows(
            connecting_line(false, local, remote),
            "H3 Client connecting: "@,
            local,
            " -> "@ + remote,
        ),
{
    reveal_strlit("H9");
    reveal_strlit("H3");
    reveal_strlit(" Client connecting: ");
    reveal_strlit("H9 Client connecting: ");
    reveal_strlit("H3 Client connecting: ");
    assert("H9"@ + " Client connecting: "@ =~= "H9 Client connecting: "@);
    assert("H3"@ + " Client connecting: "@ =~= "H3 Client connecting: "@);
    lemma_shows("H9 Client connecting: "@, local, " -> "@ + remote);
    lemma_shows("H3 Client connecting: "@, local, " -> "@ + remote);
    assert("H9 Client connecting: "@ + local + (" -> "@ + remote) =~= connecting_line(
        true,
        local,
        remote,
    ));
    assert("H3 Client connecting: "@ + local + (" -> "@ + remote) =~= connecting_line(
        false,
        local,
        remote,
    ));
}

/// Received data that is text is shown as that text, whatever stands behind it in the buffer; what
/// is no text is shown byte by byte; if it is not to be shown, its size is.
pub proof fn law_received_data_shown(stream_id: u64, text: Seq<char>, data: Seq<u8>, rest: Seq<u8>)
    requires
        encode_utf8(text).len() <= usize::MAX,
        data.len() <= usize::MAX,
    ensures
        ({
            let bytes = encode_utf8(text);
            tells(
                data_line(stream_id, bytes + rest, bytes.len() as usize, true),
                "READ["@,
                stream_id as nat,
                "]: "@ + text,
            )
        }),
        !valid_utf8(data) ==> tells(
            data_line(stream_id, data + rest, data.len() as usize, true),
            "READ["@,
            stream_id as nat,
            "]: 0x"@ + hexadecimal(data),
        ),
        data_line(stream_id, data + rest, data.len() as usize, false) == bytes_line(
            stream_id,
            data.len() as usize,
        ),
{
    let bytes = encode_utf8(text);
    encode_utf8_valid_utf8(text);
    encode_utf8_decode_utf8(text);
    assert((bytes + rest).take(bytes.len() as int) =~= bytes);
    assert((data + rest).take(data.len() as int) =~= data);
    law_lines_name_the_stream(stream_id, text);
    lemma_tells("READ["@, stream_id as nat, "]: 0x"@ + hexadecimal(data));
    assert("READ["@ + decimal(stream_id as nat) + ("]: 0x"@ + hexadecimal(data)) =~= hex_line(
        stream_id,
        data,
    ));
    assert(text_line(stream_id, decode_utf8(bytes)) == text_line(stream_id, text));
}

} // verus!
