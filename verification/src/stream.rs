//! What is done with the streams of requests.

use crate::effect::{emit, shown, Abort, AbortView, Effect, EffectView};
use crate::files::optional_text;
use crate::lines::{
    data_line, data_line_text, fin_line, fin_line_text, headers_line, headers_line_text,
};
use crate::text::{number_value, parse_number, trim_zeros, utf8_text, without_zeros};
use vstd::prelude::*;
use vstd::slice::{slice_subrange, slice_to_vec};
use vstd::utf8::{
    decode_utf8, decode_utf8_split, is_char_boundary_iff_is_leading_byte, is_leading_byte_width_1,
    valid_utf8, valid_utf8_concat, valid_utf8_split,
};

verus! {

/// How much of an upload is offered to the transport at a time.
pub const CHUNK_SIZE: usize = 32768;

/// What every byte of an upload is.
pub const FILLER: u8 = 42;

/// What is done with the streams of a connection.
#[derive(Debug, Clone, Copy, PartialEq, Eq, Structural)]
pub enum StreamHandlerType {
    /// Contents are fetched.
    Download,
    /// Bytes are sent, and the time that takes is told.
    Upload,
}

/// A stream on which contents are fetched.
pub struct DownloadStreamHandler {
    /// The path of the file that the contents go to, if they are saved.
    pub out_file: Option<String>,
}

/// A stream on which bytes are sent.
pub struct UploadStreamHandler {
    /// The bytes to send.
    pub data: Vec<u8>,
    /// How many of them have been sent.
    pub offset: usize,
    /// How many are offered to the transport at a time.
    pub chunk_size: usize,
    /// When the upload started, in nanoseconds of the client's clock.
    pub start: u64,
}

/// A stream of a request.
pub enum StreamHandler {
    /// One on which contents are fetched.
    Download(DownloadStreamHandler),
    /// One on which bytes are sent.
    Upload(UploadStreamHandler),
}

/// The mathematical value of an [`UploadStreamHandler`].
pub ghost struct UploadView {
    pub data: Seq<u8>,
    pub offset: nat,
    pub chunk_size: nat,
    pub start: u64,
}

/// The mathematical value of a [`StreamHandler`].
pub ghost enum StreamHandlerView {
    Download { out_file: Option<Seq<char>> },
    Upload(UploadView),
}

impl View for UploadStreamHandler {
    type V = UploadView;

    open spec fn view(&self) -> UploadView {
        UploadView {
            data: self.data@,
            offset: self.offset as nat,
            chunk_size: self.chunk_size as nat,
            start: self.start,
        }
    }
}

impl View for StreamHandler {
    type V = StreamHandlerView;

    open spec fn view(&self) -> StreamHandlerView {
        match self {
            StreamHandler::Download(d) => StreamHandlerView::Download {
                out_file: optional_text(d.out_file),
            },
            StreamHandler::Upload(u) => StreamHandlerView::Upload(u@),
        }
    }
}

/// What is left to do with data that has been read.
pub enum Readable {
    /// Nothing.
    Done,
    /// These bytes are to be written to the stream's file.
    Write(Vec<u8>),
    /// The data is not what it must be.
    Abort(Abort),
}

/// The mathematical value of a [`Readable`].
pub ghost enum ReadableView {
    Done,
    Write(Seq<u8>),
    Abort(AbortView),
}

impl View for Readable {
    type V = ReadableView;

    open spec fn view(&self) -> ReadableView {
        match self {
            Readable::Done => ReadableView::Done,
            Readable::Write(data) => ReadableView::Write(data@),
            Readable::Abort(abort) => ReadableView::Abort(abort@),
        }
    }
}

/// What is told of headers: of a download that is saved, nothing.
pub open spec fn headers_told(
    handler: StreamHandlerView,
    stream_id: u64,
    fin: bool,
    headers: Seq<char>,
) -> Seq<EffectView> {
    if handler matches StreamHandlerView::Download { out_file: Some(_) } {
        Seq::empty()
    } else {
        seq![EffectView::Print(headers_line(stream_id, fin, headers))]
    }
}

/// What is told of data that a download brought: nothing where it is saved.
pub open spec fn download_told(
    out_file: Option<Seq<char>>,
    stream_id: u64,
    fin: bool,
    data: Seq<u8>,
    sz: usize,
    output_read_data: bool,
) -> Seq<EffectView> {
    let line = EffectView::Print(data_line(stream_id, data, sz, output_read_data));
    if out_file is Some {
        Seq::empty()
    } else if fin {
        seq![line, EffectView::Print(fin_line(stream_id))]
    } else {
        seq![line]
    }
}

/// What is left to do with data that a download brought: it is written to the file, if there are
/// both a file and data.
pub open spec fn download_left(out_file: Option<Seq<char>>, data: Seq<u8>, sz: usize) -> ReadableView {
    if out_file is Some && sz > 0 {
        ReadableView::Write(data.take(sz as int))
    } else {
        ReadableView::Done
    }
}

/// The number of bytes that an upload's peer says it has received, or why it says none. Zeros
/// may follow it.
pub open spec fn told_length(stream_id: u64, data: Seq<u8>) -> Result<nat, AbortView> {
    let text = without_zeros(decode_utf8(data));
    if !valid_utf8(data) {
        Err(AbortView::UnexpectedData { stream_id, data })
    } else {
        match number_value(text, 10, usize::MAX as nat) {
            Some(n) => Ok(n),
            None => Err(AbortView::UnexpectedLength { stream_id, text }),
        }
    }
}

/// How much later `now` is than `start`; nothing if it is earlier.
pub open spec fn elapsed(start: u64, now: u64) -> u64 {
    if now >= start {
        (now - start) as u64
    } else {
        0
    }
}

/// What is told of data that an upload brought: how long the upload took, once the peer has
/// received all of it.
pub open spec fn upload_told(handler: UploadView, stream_id: u64, data: Seq<u8>, now: u64) -> Seq<
    EffectView,
> {
    if told_length(stream_id, data) == Ok::<nat, AbortView>(handler.data.len()) {
        seq![EffectView::UploadTime { stream_id, nanos: elapsed(handler.start, now) }]
    } else {
        Seq::empty()
    }
}

/// What is left to do with data that an upload brought.
pub open spec fn upload_left(stream_id: u64, data: Seq<u8>) -> ReadableView {
    match told_length(stream_id, data) {
        Ok(_) => ReadableView::Done,
        Err(abort) => ReadableView::Abort(abort),
    }
}

/// What is told of data that was read from a stream.
pub open spec fn data_told(
    handler: StreamHandlerView,
    stream_id: u64,
    fin: bool,
    data: Seq<u8>,
    sz: usize,
    output_read_data: bool,
    now: u64,
) -> Seq<EffectView> {
    match handler {
        StreamHandlerView::Download { out_file } => download_told(
            out_file,
            stream_id,
            fin,
            data,
            sz,
            output_read_data,
        ),
        StreamHandlerView::Upload(u) => upload_told(u, stream_id, data, now),
    }
}

/// What is left to do with data that was read from a stream.
pub open spec fn data_left(
    handler: StreamHandlerView,
    stream_id: u64,
    data: Seq<u8>,
    sz: usize,
) -> ReadableView {
    match handler {
        StreamHandlerView::Download { out_file } => download_left(out_file, data, sz),
        StreamHandlerView::Upload(_) => upload_left(stream_id, data),
    }
}

/// The bytes to offer to the transport next, unless all have been sent.
pub open spec fn next_chunk(u: UploadView) -> Option<Seq<u8>> {
    let left = u.data.len() - u.offset;
    if left <= 0 {
        None
    } else if u.chunk_size <= left {
        Some(u.data.subrange(u.offset as int, (u.offset + u.chunk_size) as int))
    } else {
        Some(u.data.skip(u.offset as int))
    }
}

/// An upload of which the transport has taken `amount` more bytes.
pub open spec fn advanced(u: UploadView, amount: nat) -> UploadView {
    UploadView { offset: u.offset + amount, ..u }
}

/// Whether all the bytes of an upload have been sent, and no more.
pub open spec fn all_sent(u: UploadView) -> bool {
    u.offset == u.data.len()
}

/// A new upload.
pub open spec fn new_upload(upload_size: nat, now: u64) -> UploadView {
    UploadView {
        data: Seq::new(upload_size, |i: int| FILLER),
        offset: 0,
        chunk_size: CHUNK_SIZE as nat,
        start: now,
    }
}

impl DownloadStreamHandler {
    /// Tells of headers.
    pub fn process_header_ready(
        &self,
        stream_id: u64,
        fin: bool,
        headers: &str,
        effects: &mut Vec<Effect>,
    )
        ensures
            shown(final(effects)@) == shown(old(effects)@) + headers_told(
                StreamHandlerView::Download { out_file: optional_text(self.out_file) },
                stream_id,
                fin,
                headers@,
            ),
    {
        if self.out_file.is_none() {
            emit(effects, Effect::Print(headers_line_text(stream_id, fin, headers)));
        }
        proof {
            assert(shown(effects@) =~= shown(old(effects)@) + headers_told(
                StreamHandlerView::Download { out_file: optional_text(self.out_file) },
                stream_id,
                fin,
                headers@,
            ));
        }
    }

    /// Tells of data, or says what to write to the file.
    pub fn process_data_readable(
        &self,
        stream_id: u64,
        fin: bool,
        data: &Vec<u8>,
        sz: usize,
        output_read_data: bool,
        effects: &mut Vec<Effect>,
    ) -> (left: Readable)
        requires
            sz <= data@.len(),
        ensures
            shown(final(effects)@) == shown(old(effects)@) + download_told(
                optional_text(self.out_file),
                stream_id,
                fin,
                data@,
                sz,
                output_read_data,
            ),
            left@ == download_left(optional_text(self.out_file), data@, sz),
    {
        let ghost told = download_told(
            optional_text(self.out_file),
            stream_id,
            fin,
            data@,
            sz,
            output_read_data,
        );
        if self.out_file.is_some() {
            proof {
                assert(shown(old(effects)@) + told =~= shown(old(effects)@));
            }
            if sz > 0 {
                let part = slice_to_vec(slice_subrange(data.as_slice(), 0, sz));
                assert(part@ =~= data@.take(sz as int));
                return Readable::Write(part);
            }
            return Readable::Done;
        }
        emit(effects, Effect::Print(data_line_text(stream_id, data, sz, output_read_data)));
        if fin {
            emit(effects, Effect::Print(fin_line_text(stream_id)));
        }
        proof {
            assert(shown(effects@) =~= shown(old(effects)@) + told);
        }
        Readable::Done
    }
}

impl UploadStreamHandler {
    /// An upload of so many bytes.
    pub fn new(upload_size: usize, now: u64) -> (u: Self)
        ensures
            u@ == new_upload(upload_size as nat, now),
    {
        let u = UploadStreamHandler {
            data: vec![FILLER; upload_size],
            offset: 0,
            chunk_size: CHUNK_SIZE,
            start: now,
        };
        assert(u@.data =~= new_upload(upload_size as nat, now).data);
        u
    }

    /// Tells of headers.
    pub fn process_header_ready(
        &self,
        stream_id: u64,
        fin: bool,
        headers: &str,
        effects: &mut Vec<Effect>,
    )
        ensures
            shown(final(effects)@) == shown(old(effects)@) + headers_told(
                StreamHandlerView::Upload(self@),
                stream_id,
                fin,
                headers@,
            ),
    {
        emit(effects, Effect::Print(headers_line_text(stream_id, fin, headers)));
        proof {
            assert(shown(effects@) =~= shown(old(effects)@) + headers_told(
                StreamHandlerView::Upload(self@),
                stream_id,
                fin,
                headers@,
            ));
        }
    }

    /// Reads how much the peer has received, and tells how long it took once that is everything.
    pub fn process_data_readable(
        &self,
        stream_id: u64,
        data: &Vec<u8>,
        now: u64,
        effects: &mut Vec<Effect>,
    ) -> (left: Readable)
        ensures
            shown(final(effects)@) == shown(old(effects)@) + upload_told(
                self@,
                stream_id,
                data@,
                now,
            ),
            left@ == upload_left(stream_id, data@),
    {
        let ghost told = upload_told(self@, stream_id, data@, now);
        match utf8_text(data) {
            None => {
                let copy = data.clone();
                proof {
                    assert(copy@ =~= data@);
                    assert(shown(old(effects)@) + told =~= shown(old(effects)@));
                }
                Readable::Abort(Abort::UnexpectedData { stream_id, data: copy })
            },
            Some(text) => {
                let trimmed = trim_zeros(text.as_str());
                match parse_number(trimmed.as_str(), 10, usize::MAX as u64) {
                    None => {
                        proof {
                            assert(shown(old(effects)@) + told =~= shown(old(effects)@));
                        }
                        Readable::Abort(Abort::UnexpectedLength { stream_id, text: trimmed })
                    },
                    Some(parsed) => {
                        if parsed == self.data.len() as u64 {
                            let nanos: u64 = if now >= self.start {
                                now - self.start
                            } else {
                                0
                            };
                            emit(effects, Effect::UploadTime { stream_id, nanos });
                        }
                        proof {
                            assert(shown(effects@) =~= shown(old(effects)@) + told);
                        }
                        Readable::Done
                    },
                }
            },
        }
    }

    /// The bytes to offer to the transport next.
    pub fn next_chunk(&self) -> (chunk: Option<Vec<u8>>)
        ensures
            match chunk {
                Some(c) => next_chunk(self@) == Some(c@),
                None => next_chunk(self@) is None,
            },
    {
        if self.offset < self.data.len() {
            let left = self.data.len() - self.offset;
            let size = if self.chunk_size <= left {
                self.chunk_size
            } else {
                left
            };
            let end = self.offset + size;
            let chunk = slice_to_vec(slice_subrange(self.data.as_slice(), self.offset, end));
            assert(chunk@ =~= next_chunk(self@)->0);
            Some(chunk)
        } else {
            None
        }
    }

    /// Records that the transport has taken `amount` more bytes, and says whether the sending
    /// side is to be ended.
    pub fn advance(&mut self, amount: usize) -> (close: bool)
        requires
            old(self).offset + amount <= usize::MAX,
        ensures
            final(self)@ == advanced(old(self)@, amount as nat),
            close == all_sent(final(self)@),
    {
        self.offset = self.offset + amount;
        self.offset == self.data.len()
    }
}

impl StreamHandler {
    /// Tells of headers.
    pub fn process_header_ready(
        &self,
        stream_id: u64,
        fin: bool,
        headers: &str,
        effects: &mut Vec<Effect>,
    )
        ensures
            shown(final(effects)@) == shown(old(effects)@) + headers_told(
                self@,
                stream_id,
                fin,
                headers@,
            ),
    {
        match self {
            StreamHandler::Download(d) => d.process_header_ready(stream_id, fin, headers, effects),
            StreamHandler::Upload(u) => u.process_header_ready(stream_id, fin, headers, effects),
        }
    }

    /// Deals with data that was read.
    pub fn process_data_readable(
        &self,
        stream_id: u64,
        fin: bool,
        data: &Vec<u8>,
        sz: usize,
        output_read_data: bool,
        now: u64,
        effects: &mut Vec<Effect>,
    ) -> (left: Readable)
        requires
            sz <= data@.len(),
        ensures
            shown(final(effects)@) == shown(old(effects)@) + data_told(
                self@,
                stream_id,
                fin,
                data@,
                sz,
                output_read_data,
                now,
            ),
            left@ == data_left(self@, stream_id, data@, sz),
    {
        match self {
            StreamHandler::Download(d) => d.process_data_readable(
                stream_id,
                fin,
                data,
                sz,
                output_read_data,
                effects,
            ),
            StreamHandler::Upload(u) => u.process_data_readable(stream_id, data, now, effects),
        }
    }
}

/// Each chunk continues where the bytes taken so far end: what has been taken of an upload is
/// always a prefix of its bytes, and grows by what is taken of the chunk.
pub proof fn law_upload_in_order(u: UploadView, amount: nat)
    requires
        next_chunk(u) matches Some(chunk) && amount <= chunk.len(),
    ensures
        u.data.take(advanced(u, amount).offset as int) == u.data.take(u.offset as int)
            + next_chunk(u)->0.take(amount as int),
        advanced(u, amount).offset <= u.data.len(),
{
    assert(u.data.take(advanced(u, amount).offset as int) =~= u.data.take(u.offset as int)
        + next_chunk(u)->0.take(amount as int));
}

/// A chunk is never empty, never longer than the chunk size, and there is one exactly as long as
/// bytes are left: an upload of which every chunk is taken in part ends with all bytes sent.
pub proof fn law_upload_makes_progress(u: UploadView)
    requires
        u.chunk_size > 0,
        u.offset <= u.data.len(),
    ensures
        next_chunk(u) is None <==> all_sent(u),
        next_chunk(u) matches Some(chunk) ==> 0 < chunk.len() <= u.chunk_size,
{
}

/// A zero behind bytes changes nothing about whether they are text, and is a zero character behind
/// the text.
proof fn lemma_zero_behind(data: Seq<u8>)
    ensures
        valid_utf8(data.push(0)) <==> valid_utf8(data),
        valid_utf8(data) ==> decode_utf8(data.push(0)) == decode_utf8(data).push('\0'),
{
    let more = data.push(0);
    let n = data.len() as int;
    let zero = seq![0u8];
    assert(more.subrange(0, n) =~= data);
    assert(more.subrange(n, more.len() as int) =~= zero);
    assert(data + zero =~= more);
    assert(0u8 & 0x80 == 0) by (bit_vector);
    assert(0u8 & 0x7f == 0) by (bit_vector);
    reveal_with_fuel(valid_utf8, 2);
    reveal_with_fuel(decode_utf8, 2);
    assert(valid_utf8(zero));
    assert(decode_utf8(zero) =~= seq!['\0']);
    if valid_utf8(data) {
        valid_utf8_concat(data, zero);
    }
    if valid_utf8(more) {
        is_char_boundary_iff_is_leading_byte(more, n);
        assert(is_leading_byte_width_1(more[n]));
        valid_utf8_split(more, n);
        decode_utf8_split(more, n);
    }
}

/// What an upload's peer says is read the same whatever part of the buffer was not filled: zeros
/// behind the bytes that came are ignored.
pub proof fn law_padding_ignored(stream_id: u64, received: Seq<u8>, zeros: nat)
    ensures
        ({
            let data = received + Seq::new(zeros, |i: int| 0u8);
            &&& valid_utf8(data) <==> valid_utf8(received)
            &&& valid_utf8(received) ==> told_length(stream_id, data) == told_length(
                stream_id,
                received,
            )
        }),
    decreases zeros,
{
    let data = received + Seq::new(zeros, |i: int| 0u8);
    if zeros == 0 {
        assert(data =~= received);
    } else {
        let fewer = (zeros - 1) as nat;
        let shorter = received + Seq::new(fewer, |i: int| 0u8);
        law_padding_ignored(stream_id, received, fewer);
        lemma_zero_behind(shorter);
        assert(data =~= shorter.push(0));
        let text = decode_utf8(shorter);
        assert(text.push('\0').drop_last() =~= text);
    }
}

} // verus!
