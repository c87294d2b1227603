//! What holds of the streams of requests.

use crate::effect::{AbortView, EffectView};
use crate::lines::{data_line, fin_line, headers_line};
use crate::stream::{
    advanced, all_sent, data_left, data_told, elapsed, headers_told, law_padding_ignored,
    new_upload, next_chunk, ReadableView, StreamHandlerView, UploadView,
};
use crate::text::{decimal, digits_value, number_value, without_zeros};
use crate::text_laws::law_decimal_reads_back;
use vstd::prelude::*;
use vstd::utf8::{encode_utf8, encode_utf8_decode_utf8, encode_utf8_valid_utf8, valid_utf8};

verus! {

/// The time that is told of an upload is the whole difference between the two clock readings; a
/// clock that went back gives no time.
pub proof fn law_elapsed_is_the_difference(start: u64, now: u64)
    ensures
        now >= start ==> start + elapsed(start, now) == now,
        now < start ==> elapsed(start, now) == 0,
{
}

/// Bytes that a peer sends back: a number, and zeros behind it.
pub open spec fn answer(n: nat, zeros: nat) -> Seq<u8> {
    encode_utf8(decimal(n)) + Seq::new(zeros, |i: int| 0u8)
}

/// When the peer of an upload answers with a number, the time is told if and only if that is the
/// number of bytes uploaded. It is the time since the upload started, however long that is.
pub proof fn law_upload_timed(
    upload: UploadView,
    stream_id: u64,
    n: nat,
    zeros: nat,
    sz: usize,
    fin: bool,
    output_read_data: bool,
    now: u64,
)
    requires
        n <= usize::MAX,
    ensures
        ({
            let handler = StreamHandlerView::Upload(upload);
            let data = answer(n, zeros);
            let told = data_told(handler, stream_id, fin, data, sz, output_read_data, now);
            &&& data_left(handler, stream_id, data, sz) is Done
            &&& n != upload.data.len() ==> told.len() == 0
            &&& n == upload.data.len() ==> {
                &&& told.len() == 1
                &&& told[0] matches EffectView::UploadTime { stream_id: id, nanos }
                &&& id == stream_id
                &&& now >= upload.start ==> upload.start + nanos == now
                &&& now < upload.start ==> nanos == 0
            }
        }),
{
    let text = decimal(n);
    encode_utf8_valid_utf8(text);
    encode_utf8_decode_utf8(text);
    law_padding_ignored(stream_id, encode_utf8(text), zeros);
    law_decimal_reads_back(n, usize::MAX as nat);
    assert('0' <= text[text.len() - 1]);
    assert(without_zeros(text) == text);
}

/// What the peer of an upload sends back that is no text, or text that is no number, ends the
/// client, which says what it was; nothing else is told of it.
pub proof fn law_upload_answer_must_be_a_number(
    upload: UploadView,
    stream_id: u64,
    data: Seq<u8>,
    text: Seq<char>,
    i: int,
    sz: usize,
    fin: bool,
    output_read_data: bool,
    now: u64,
)
    requires
        !valid_utf8(data),
        0 < i < text.len(),
        !('0' <= text[i] <= '9'),
        text.last() != '\0',
    ensures
        ({
            let handler = StreamHandlerView::Upload(upload);
            let said = encode_utf8(text);
            &&& data_left(handler, stream_id, data, sz) == ReadableView::Abort(
                AbortView::UnexpectedData { stream_id, data },
            )
            &&& data_told(handler, stream_id, fin, data, sz, output_read_data, now).len() == 0
            &&& data_left(handler, stream_id, said, sz) == ReadableView::Abort(
                AbortView::UnexpectedLength { stream_id, text },
            )
            &&& data_told(handler, stream_id, fin, said, sz, output_read_data, now).len() == 0
        }),
{
    encode_utf8_valid_utf8(text);
    encode_utf8_decode_utf8(text);
    assert(without_zeros(text) == text);
    if text[0] == '+' {
        lemma_no_digits(text.skip(1), i - 1);
    } else {
        lemma_no_digits(text, i);
    }
}

/// Whatever text the peer of an upload answers with, zeros at its end aside: if it reads as a number
/// it is dealt with, and the time is told if that is the number of bytes uploaded; if it does not,
/// the client ends and says what it was.
pub proof fn law_upload_answers(
    upload: UploadView,
    stream_id: u64,
    text: Seq<char>,
    sz: usize,
    fin: bool,
    output_read_data: bool,
    now: u64,
)
    ensures
        ({
            let handler = StreamHandlerView::Upload(upload);
            let said = encode_utf8(text);
            let left = data_left(handler, stream_id, said, sz);
            let told = data_told(handler, stream_id, fin, said, sz, output_read_data, now);
            match number_value(without_zeros(text), 10, usize::MAX as nat) {
                Some(n) => {
                    &&& left is Done
                    &&& told.len() > 0 <==> n == upload.data.len()
                },
                None => {
                    &&& left == ReadableView::Abort(
                        AbortView::UnexpectedLength { stream_id, text: without_zeros(text) },
                    )
                    &&& told.len() == 0
                },
            }
        }),
{
    encode_utf8_valid_utf8(text);
    encode_utf8_decode_utf8(text);
}

/// Of an upload that is complete, nothing is left to offer.
pub proof fn law_nothing_left_to_offer(upload: UploadView)
    ensures
        next_chunk(upload) is None <==> upload.offset >= upload.data.len(),
        all_sent(upload) ==> next_chunk(upload) is None,
{
}

/// A row with a character that is no digit has no value.
proof fn lemma_no_digits(text: Seq<char>, i: int)
    requires
        0 <= i < text.len(),
        !('0' <= text[i] <= '9'),
    ensures
        digits_value(text, 10) is None,
    decreases text.len(),
{
    if i < text.len() - 1 {
        assert(text.drop_last()[i] == text[i]);
        lemma_no_digits(text.drop_last(), i);
    }
}

/// A new upload has as many bytes as asked for, all of them the same, and none of them is sent; it
/// starts now.
pub proof fn law_new_upload(size: nat, now: u64)
    ensures
        new_upload(size, now).data.len() == size,
        forall|i: int| 0 <= i < size ==> #[trigger] new_upload(size, now).data[i] == 42,
        new_upload(size, now).offset == 0,
        new_upload(size, now).chunk_size == 32768,
        new_upload(size, now).start == now,
{
}

/// What is offered of an upload are the next bytes that were not taken yet: a whole chunk, or what
/// is left if that is less. What is taken counts, and nothing else changes.
pub proof fn law_next_bytes_offered(upload: UploadView, amount: nat)
    requires
        upload.offset < upload.data.len(),
        upload.chunk_size > 0,
    ensures
        next_chunk(upload) matches Some(chunk) && {
            &&& chunk.len() == if upload.chunk_size <= upload.data.len() - upload.offset {
                upload.chunk_size as int
            } else {
                upload.data.len() - upload.offset
            }
            &&& forall|i: int|
                0 <= i < chunk.len() ==> #[trigger] chunk[i] == upload.data[upload.offset + i]
        },
        advanced(upload, amount).offset == upload.offset + amount,
        advanced(upload, amount).data == upload.data,
        advanced(upload, amount).start == upload.start,
        advanced(upload, amount).chunk_size == upload.chunk_size,
        all_sent(advanced(upload, amount)) <==> upload.offset + amount == upload.data.len(),
{
}

/// Data of a download that is saved goes to the file, just the bytes that came, and nothing is
/// shown of it.
pub proof fn law_saved_data_is_written(
    path: Seq<char>,
    stream_id: u64,
    fin: bool,
    data: Seq<u8>,
    sz: usize,
    output_read_data: bool,
    now: u64,
)
    requires
        sz <= data.len(),
    ensures
        ({
            let handler = StreamHandlerView::Download { out_file: Some(path) };
            let left = data_left(handler, stream_id, data, sz);
            &&& data_told(handler, stream_id, fin, data, sz, output_read_data, now).len() == 0
            &&& sz == 0 ==> left is Done
            &&& sz > 0 ==> (left matches ReadableView::Write(part) && part.len() == sz && forall|
                i: int,
            |
                0 <= i < sz ==> #[trigger] part[i] == data[i])
        }),
{
}

/// Data of a download that is not saved is shown, and the end of the stream behind it; nothing is
/// left to do with it.
pub proof fn law_unsaved_data_is_shown(
    stream_id: u64,
    fin: bool,
    data: Seq<u8>,
    sz: usize,
    output_read_data: bool,
    now: u64,
)
    ensures
        ({
            let handler = StreamHandlerView::Download { out_file: None };
            let told = data_told(handler, stream_id, fin, data, sz, output_read_data, now);
            &&& data_left(handler, stream_id, data, sz) is Done
            &&& told.len() == if fin {
                2nat
            } else {
                1
            }
            &&& told[0] == EffectView::Print(data_line(stream_id, data, sz, output_read_data))
            &&& fin ==> told[1] == EffectView::Print(fin_line(stream_id))
        }),
{
}

/// Headers are shown, unless contents are saved.
pub proof fn law_headers_shown(
    handler: StreamHandlerView,
    stream_id: u64,
    fin: bool,
    headers: Seq<char>,
)
    ensures
        ({
            let told = headers_told(handler, stream_id, fin, headers);
            if handler is Download && handler->out_file is Some {
                told.len() == 0
            } else {
                told.len() == 1 && told[0] == EffectView::Print(
                    headers_line(stream_id, fin, headers),
                )
            }
        }),
{
}

} // verus!
