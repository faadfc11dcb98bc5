//! IFF Parser: lists the chunks of an IFF `FORM` file (such as a Blorb)
//! read from a stream.
use four_cc::FourCC;
use vstd::prelude::*;

use crate::constants::{giblorb_ID_FORM_CODE, giblorb_err_Format};
use crate::stream::{clamp_position, GlkStream, SeekMode};

verus! {

#[verifier::external_type_specification]
#[verifier::external_body]
pub struct ExFourCC(FourCC);

/// The number a four-character code stands for: its four bytes read as a
/// big-endian integer (what `u32::from` gives for it in `four_cc`).
pub uninterp spec fn four_cc_value(code: FourCC) -> u32;

/// Calls `FourCC::from(u32)` of `four_cc`, which stores the four big-endian
/// bytes of `value`; the code therefore stands for `value`.
#[verifier::external_body]
fn four_cc_from_u32(value: u32) -> (r: FourCC)
    ensures
        four_cc_value(r) == value,
{
    FourCC::from(value)
}

/// Calls the derived `==` of `FourCC`, which compares the four bytes; two
/// codes are therefore equal exactly when they stand for the same number.
#[verifier::external_body]
fn four_cc_eq(a: &FourCC, b: &FourCC) -> (r: bool)
    ensures
        r == (four_cc_value(*a) == four_cc_value(*b)),
{
    *a == *b
}

/// The code `FORM` that starts every IFF file.
pub fn giblorb_id_form() -> (r: FourCC)
    ensures
        four_cc_value(r) == giblorb_ID_FORM_CODE,
{
    four_cc_from_u32(giblorb_ID_FORM_CODE)
}

pub struct IFFChunk {
    pub chunktype: FourCC,
    pub length: u32,
    /** The offset of the chunk data */
    pub offset_data: u32,
    /** The offset of the chunk header */
    pub offset_header: u32,
}

/// A chunk as plain values.
pub struct ChunkView {
    pub chunktype: u32,
    pub length: u32,
    pub offset_data: u32,
    pub offset_header: u32,
}

impl View for IFFChunk {
    type V = ChunkView;

    open spec fn view(&self) -> ChunkView {
        ChunkView {
            chunktype: four_cc_value(self.chunktype),
            length: self.length,
            offset_data: self.offset_data,
            offset_header: self.offset_header,
        }
    }
}

/// A list of chunks as plain values.
pub open spec fn chunks_view(chunks: Seq<IFFChunk>) -> Seq<ChunkView> {
    chunks.map_values(|c: IFFChunk| c@)
}

/// What a character read at `i` gives, as an unsigned number: the byte, or
/// all ones (-1) past the end.
pub open spec fn char_at(data: Seq<u8>, i: int) -> u32 {
    if 0 <= i < data.len() {
        data[i] as u32
    } else {
        0xFFFF_FFFF
    }
}

/// The number that four characters read from `p` on give: the characters
/// shifted into place from the most significant and or-ed together.
pub open spec fn read4_at(data: Seq<u8>, p: int) -> u32 {
    (char_at(data, p) << 24u32) | (char_at(data, p + 1) << 16u32) | (char_at(data, p + 2) << 8u32)
        | char_at(data, p + 3)
}

/// The position after the chunk whose header starts at `offset`: its 8-byte
/// header, its data and the pad byte of odd lengths.
pub open spec fn chunk_end(offset: int, length: u32) -> int {
    offset + 8 + length + length % 2
}

/// The chunk whose header starts at `pos`.
pub open spec fn chunk_at(data: Seq<u8>, pos: int) -> ChunkView {
    ChunkView {
        chunktype: read4_at(data, pos),
        length: read4_at(data, pos + 4),
        offset_data: (pos + 8) as u32,
        offset_header: pos as u32,
    }
}

/// The chunks from `pos` to the end of the file, or the format error when a
/// chunk would end more than one byte past the end of the file.
pub open spec fn parse_chunks_from(data: Seq<u8>, pos: int) -> Result<Seq<ChunkView>, u32>
    decreases data.len() - pos,
{
    if pos >= data.len() {
        Ok(seq![])
    } else {
        let chunk = chunk_at(data, pos);
        let end = chunk_end(pos, chunk.length);
        if end > data.len() + 1 {
            Err(giblorb_err_Format)
        } else {
            match parse_chunks_from(data, clamp_position(end, data.len()) as int) {
                Ok(rest) => Ok(seq![chunk] + rest),
                Err(e) => Err(e),
            }
        }
    }
}

/// The read position where the chunk walk from `pos` stops.
pub open spec fn parse_stop_from(data: Seq<u8>, pos: int) -> int
    decreases data.len() - pos,
{
    if pos >= data.len() {
        pos
    } else {
        let chunk = chunk_at(data, pos);
        let end = chunk_end(pos, chunk.length);
        if end > data.len() + 1 {
            clamp_position(pos + 8, data.len()) as int
        } else {
            parse_stop_from(data, clamp_position(end, data.len()) as int)
        }
    }
}

/// The chunks of an IFF file: the format error unless it starts with `FORM`;
/// else the chunks from offset 12 on.
pub open spec fn spec_parse_iff(data: Seq<u8>) -> Result<Seq<ChunkView>, u32> {
    if read4_at(data, 0) != giblorb_ID_FORM_CODE {
        Err(giblorb_err_Format)
    } else {
        parse_chunks_from(data, clamp_position(12, data.len()) as int)
    }
}

/// The read position after `parse_iff`.
pub open spec fn spec_parse_iff_stop(data: Seq<u8>) -> int {
    if read4_at(data, 0) != giblorb_ID_FORM_CODE {
        clamp_position(4, data.len()) as int
    } else {
        parse_stop_from(data, clamp_position(12, data.len()) as int)
    }
}

/// A parse result as plain values.
pub open spec fn result_view(r: Result<Vec<IFFChunk>, u32>) -> Result<Seq<ChunkView>, u32> {
    match r {
        Ok(v) => Ok(chunks_view(v@)),
        Err(e) => Err(e),
    }
}

/** Parse an IFF file from a stream */
pub fn parse_iff(str: &mut GlkStream) -> (r: Result<Vec<IFFChunk>, u32>)
    requires
        old(str).wf(),
    ensures
        final(str).wf(),
        final(str).bytes() == old(str).bytes(),
        result_view(r) == spec_parse_iff(old(str).bytes()),
        final(str).position() == spec_parse_iff_stop(old(str).bytes()),
{
    let ghost data = str.bytes();
    setpos(str, 0);
    let form = giblorb_id_form();
    let first = read_four_cc(str);
    if !four_cc_eq(&first, &form) {
        return Err(giblorb_err_Format);
    }
    let _form_length = read4(str);
    let _ = read4(str);

    // ADRIFT 5 Developer writes Blorbs whose FORM length undercounts the chunks
    // actually present; walk the physical stream length instead (as AsyncGlk does).
    str.set_position(SeekMode::End, 0);
    let filelength = getpos(str);
    setpos(str, 12);

    let mut chunks: Vec<IFFChunk> = Vec::new();
    let ghost start = str.position() as int;
    while getpos(str) < filelength
        invariant
            str.wf(),
            str.bytes() == data,
            data == old(str).bytes(),
            read4_at(data, 0) == giblorb_ID_FORM_CODE,
            filelength == data.len(),
            start == clamp_position(12, data.len()),
            parse_chunks_from(data, start) == match parse_chunks_from(data, str.position() as int) {
                Ok(rest) => Ok(chunks_view(chunks@) + rest),
                Err(e) => Err::<Seq<ChunkView>, u32>(e),
            },
            parse_stop_from(data, start) == parse_stop_from(data, str.position() as int),
        decreases data.len() - str.position(),
    {
        let offset_header = getpos(str);
        let ghost pos = offset_header as int;
        let chunktype = read_four_cc(str);
        let length = read4(str);
        assert(read4_at(data, clamp_position(pos + 4, data.len()) as int) == read4_at(data, pos + 4))
            by {
            if pos + 4 > data.len() {
                assert(char_at(data, data.len() as int) == char_at(data, pos + 4));
                assert(char_at(data, data.len() + 1int) == char_at(data, pos + 5));
                assert(char_at(data, data.len() + 2int) == char_at(data, pos + 6));
                assert(char_at(data, data.len() + 3int) == char_at(data, pos + 7));
            }
        }
        let chunk = IFFChunk { chunktype, length, offset_data: offset_header + 8, offset_header };
        assert(chunk@ == chunk_at(data, pos));
        let ghost before = chunks@;
        chunks.push(chunk);
        assert(chunks_view(chunks@) =~= chunks_view(before).push(chunk_at(data, pos)));
        let newpos: u64 = offset_header as u64 + 8 + length as u64 + (length % 2) as u64;
        if newpos > filelength as u64 + 1 {
            assert(parse_chunks_from(data, pos) == Err::<Seq<ChunkView>, u32>(giblorb_err_Format));
            assert(str.position() == clamp_position(pos + 8, data.len()));
            assert(parse_stop_from(data, pos) == clamp_position(pos + 8, data.len()));
            return Err(giblorb_err_Format);
        }
        setpos(str, newpos as u32);
        proof {
            let rest = parse_chunks_from(data, str.position() as int);
            if rest is Ok {
                assert(chunks_view(before) + (seq![chunk_at(data, pos)] + rest->Ok_0)
                    =~= chunks_view(chunks@) + rest->Ok_0);
            }
        }
    }
    Ok(chunks)
}

/// Reads `length` bytes from `offset` on; bytes past the end of the stream
/// are left 0.
pub fn getbuf(str: &mut GlkStream, offset: u32, length: u32) -> (r: Box<[u8]>)
    requires
        old(str).wf(),
    ensures
        final(str).wf(),
        final(str).bytes() == old(str).bytes(),
        ({
            let data = old(str).bytes();
            let p = seek_target(offset, data.len()) as int;
            let n = if length < data.len() - p {
                length as int
            } else {
                data.len() - p
            };
            &&& r@ == data.subrange(p, p + n) + Seq::new((length - n) as nat, |i: int| 0u8)
            &&& final(str).position() == p + n
        }),
{
    let ghost data = str.bytes();
    setpos(str, offset);
    let ghost p = str.position() as int;
    let mut buf: Vec<u8> = Vec::new();
    let mut i: u32 = 0;
    while i < length
        invariant
            i <= length,
            buf@ == Seq::new(i as nat, |k: int| 0u8),
        decreases length - i,
    {
        buf.push(0);
        i = i + 1;
        assert(buf@ =~= Seq::new(i as nat, |k: int| 0u8));
    }
    let n = str.get_buffer(&mut buf);
    assert(buf@.skip(n as int) =~= Seq::new((length - n) as nat, |i: int| 0u8));
    boxed_bytes(buf)
}

/// Calls `Vec::into_boxed_slice` of std, which keeps the elements.
#[verifier::external_body]
fn boxed_bytes(v: Vec<u8>) -> (r: Box<[u8]>)
    ensures
        r@ == v@,
{
    v.into_boxed_slice()
}

/// The position that `setpos` moves to in a stream of `len` bytes: the
/// offset, taken as a `glsi32` and clamped to the stream.
pub open spec fn seek_target(pos: u32, len: nat) -> nat {
    if pos > i32::MAX {
        0
    } else {
        clamp_position(pos as int, len)
    }
}

pub fn getpos(str: &mut GlkStream) -> (r: u32)
    requires
        old(str).wf(),
    ensures
        *final(str) == *old(str),
        r == old(str).position(),
{
    str.get_position()
}

pub fn setpos(str: &mut GlkStream, pos: u32)
    requires
        old(str).wf(),
    ensures
        final(str).wf(),
        final(str).bytes() == old(str).bytes(),
        final(str).position() == seek_target(pos, old(str).bytes().len()),
{
    let p: i32 = if pos > i32::MAX as u32 {
        (pos as i64 - 0x1_0000_0000i64) as i32
    } else {
        pos as i32
    };
    str.set_position(SeekMode::Start, p);
}

pub fn read4(str: &mut GlkStream) -> (r: u32)
    requires
        old(str).wf(),
    ensures
        final(str).wf(),
        final(str).bytes() == old(str).bytes(),
        r == read4_at(old(str).bytes(), old(str).position() as int),
        final(str).position() == clamp_position(old(str).position() + 4int, old(str).bytes().len()),
{
    let ghost data = str.bytes();
    let ghost p = str.position() as int;
    let c0 = char_value(str);
    let c1 = char_value(str);
    let c2 = char_value(str);
    let c3 = char_value(str);
    proof {
        if p + 1 > data.len() {
            assert(char_at(data, p + 1) == 0xFFFF_FFFFu32);
        }
        if p + 2 > data.len() {
            assert(char_at(data, p + 2) == 0xFFFF_FFFFu32);
        }
        if p + 3 > data.len() {
            assert(char_at(data, p + 3) == 0xFFFF_FFFFu32);
        }
    }
    (c0 << 24) | (c1 << 16) | (c2 << 8) | c3
}

/// Reads one character and gives it as an unsigned number, as
/// `get_char() as u32` does: the byte, or all ones at the end.
fn char_value(str: &mut GlkStream) -> (r: u32)
    requires
        old(str).wf(),
    ensures
        final(str).wf(),
        final(str).bytes() == old(str).bytes(),
        r == char_at(old(str).bytes(), old(str).position() as int),
        final(str).position() == clamp_position(old(str).position() + 1int, old(str).bytes().len()),
{
    let c = str.get_char();
    if c < 0 {
        0xFFFF_FFFF
    } else {
        c as u32
    }
}

pub fn read_four_cc(str: &mut GlkStream) -> (r: FourCC)
    requires
        old(str).wf(),
    ensures
        final(str).wf(),
        final(str).bytes() == old(str).bytes(),
        four_cc_value(r) == read4_at(old(str).bytes(), old(str).position() as int),
        final(str).position() == clamp_position(old(str).position() + 4int, old(str).bytes().len()),
{
    four_cc_from_u32(read4(str))
}


/// Four characters read where four bytes remain give those bytes as a
/// big-endian number.
pub proof fn lemma_read4_big_endian(data: Seq<u8>, p: int)
    requires
        0 <= p,
        p + 4 <= data.len(),
    ensures
        read4_at(data, p) == data[p] as int * 0x100_0000 + data[p + 1] as int * 0x1_0000
            + data[p + 2] as int * 0x100 + data[p + 3] as int,
{
    let b0 = data[p];
    let b1 = data[p + 1];
    let b2 = data[p + 2];
    let b3 = data[p + 3];
    assert(((b0 as u32) << 24u32) | ((b1 as u32) << 16u32) | ((b2 as u32) << 8u32) | (b3 as u32)
        == b0 as u32 * 0x100_0000u32 + b1 as u32 * 0x1_0000u32 + b2 as u32 * 0x100u32 + b3 as u32)
        by (bit_vector);
}

/// Whether `chunks` lie end to end from `pos`: each header starts where the
/// previous chunk (with its pad byte) ended, each chunk's data follows its
/// 8-byte header, every header starts inside the file and no chunk ends more
/// than one byte past its end.
pub open spec fn chunks_laid_out(data: Seq<u8>, pos: int, chunks: Seq<ChunkView>) -> bool {
    &&& chunks.len() > 0 ==> chunks[0].offset_header == pos
    &&& forall|i: int|
        0 <= i < chunks.len() - 1 ==> #[trigger] chunks[i + 1].offset_header == chunk_end(
            chunks[i].offset_header as int,
            chunks[i].length,
        )
    &&& forall|i: int|
        0 <= i < chunks.len() ==> {
            &&& #[trigger] chunks[i].offset_data == chunks[i].offset_header + 8
            &&& chunks[i].offset_header < data.len()
            &&& chunk_end(chunks[i].offset_header as int, chunks[i].length) <= data.len() + 1
        }
}

/// The chunks found from `pos` on lie end to end from `pos`.
pub proof fn lemma_chunks_from_laid_out(data: Seq<u8>, pos: int)
    requires
        0 <= pos,
        data.len() < i32::MAX,
    ensures
        parse_chunks_from(data, pos) matches Ok(chunks) ==> chunks_laid_out(data, pos, chunks),
    decreases data.len() - pos,
{
    if pos < data.len() {
        let chunk = chunk_at(data, pos);
        let end = chunk_end(pos, chunk.length);
        if end <= data.len() + 1 {
            let next = clamp_position(end, data.len()) as int;
            lemma_chunks_from_laid_out(data, next);
            if let Ok(rest) = parse_chunks_from(data, next) {
                let chunks = seq![chunk] + rest;
                assert forall|i: int| 0 <= i < chunks.len() - 1 implies #[trigger] chunks[i
                    + 1].offset_header == chunk_end(
                    chunks[i].offset_header as int,
                    chunks[i].length,
                ) by {
                    if i == 0 {
                        assert(rest.len() > 0);
                        assert(next < data.len());
                        assert(rest[0].offset_header == next);
                    } else {
                        assert(chunks[i] == rest[i - 1]);
                        assert(chunks[i + 1] == rest[(i - 1) + 1]);
                    }
                }
                assert forall|i: int| 0 <= i < chunks.len() implies {
                    &&& #[trigger] chunks[i].offset_data == chunks[i].offset_header + 8
                    &&& chunks[i].offset_header < data.len()
                    &&& chunk_end(chunks[i].offset_header as int, chunks[i].length) <= data.len()
                        + 1
                } by {
                    if i > 0 {
                        assert(chunks[i] == rest[i - 1]);
                    }
                }
                assert(parse_chunks_from(data, pos) == Ok::<Seq<ChunkView>, u32>(chunks));
                assert(chunks_laid_out(data, pos, chunks));
            }
        }
    }
}

/// The chunks of a parsed IFF file lie end to end from offset 12, right
/// after the `FORM` header.
pub proof fn lemma_parse_iff_laid_out(data: Seq<u8>)
    requires
        data.len() < i32::MAX,
    ensures
        spec_parse_iff(data) matches Ok(chunks) ==> chunks_laid_out(
            data,
            clamp_position(12, data.len()) as int,
            chunks,
        ),
{
    lemma_chunks_from_laid_out(data, clamp_position(12, data.len()) as int);
}

/// The first chunk of a covering list is the chunk at its start.
proof fn lemma_cover_first(data: Seq<u8>, pos: int, chunks: Seq<ChunkView>)
    requires
        0 <= pos < data.len(),
        data.len() < i32::MAX,
        chunks_cover(data, pos, chunks),
    ensures
        chunks.len() > 0,
        chunks[0] == chunk_at(data, pos),
        chunks.len() > 1 ==> chunks[1].offset_header == chunk_end(pos, chunks[0].length),
{
    assert(chunks.len() > 0);
    let c = chunks[0];
    assert(c.offset_header == pos);
    assert(c.offset_data == c.offset_header + 8);
    assert(c.chunktype == read4_at(data, c.offset_header as int));
    assert(c.length == read4_at(data, c.offset_header + 4));
    if chunks.len() > 1 {
        assert(chunks[0int + 1].offset_header == chunk_end(chunks[0].offset_header as int, chunks[0].length));
    }
}

/// Whether `chunks` are exactly the chunks of `data` from `pos` on: they lie
/// end to end from `pos`, each chunk's type and length are the numbers read
/// at its header, and together they reach the end of the file.
pub open spec fn chunks_cover(data: Seq<u8>, pos: int, chunks: Seq<ChunkView>) -> bool {
    &&& chunks_laid_out(data, pos, chunks)
    &&& forall|i: int|
        0 <= i < chunks.len() ==> {
            &&& #[trigger] chunks[i].chunktype == read4_at(data, chunks[i].offset_header as int)
            &&& chunks[i].length == read4_at(data, chunks[i].offset_header + 4)
        }
    &&& chunks.len() == 0 ==> pos >= data.len()
    &&& chunks.len() > 0 ==> chunk_end(
        chunks.last().offset_header as int,
        chunks.last().length,
    ) >= data.len()
}

/// The chunk walk from `pos` gives a list exactly when some list of chunks
/// covers the file from `pos`, and then it gives that list; its only error
/// is the format error.
pub proof fn lemma_chunks_from_exact(data: Seq<u8>, pos: int, chunks: Seq<ChunkView>)
    requires
        0 <= pos,
        data.len() < i32::MAX,
    ensures
        parse_chunks_from(data, pos) matches Ok(found) ==> chunks_cover(data, pos, found),
        parse_chunks_from(data, pos) matches Err(e) ==> e == giblorb_err_Format,
        chunks_cover(data, pos, chunks) ==> parse_chunks_from(data, pos) == Ok::<
            Seq<ChunkView>,
            u32,
        >(chunks),
    decreases data.len() - pos,
{
    lemma_chunks_from_laid_out(data, pos);
    if pos < data.len() {
        let chunk = chunk_at(data, pos);
        let end = chunk_end(pos, chunk.length);
        let next = clamp_position(end, data.len()) as int;
        let rest_chunks = if chunks.len() > 0 {
            chunks.drop_first()
        } else {
            chunks
        };
        if end <= data.len() + 1 {
            if chunks_cover(data, pos, chunks) {
                lemma_cover_first(data, pos, chunks);
            }
            if chunks_cover(data, pos, chunks) && chunks.len() > 1 {
                assert(chunks[1].offset_header == end);
                assert(chunks[1].offset_data == chunks[1].offset_header + 8);
                assert(next == end);
                assert forall|i: int| 0 <= i < rest_chunks.len() - 1 implies #[trigger] rest_chunks[i
                    + 1].offset_header == chunk_end(
                    rest_chunks[i].offset_header as int,
                    rest_chunks[i].length,
                ) by {
                    assert(rest_chunks[i] == chunks[i + 1]);
                    assert(rest_chunks[i + 1] == chunks[(i + 1) + 1]);
                }
                assert forall|i: int| 0 <= i < rest_chunks.len() implies {
                    &&& #[trigger] rest_chunks[i].offset_data == rest_chunks[i].offset_header + 8
                    &&& rest_chunks[i].offset_header < data.len()
                    &&& chunk_end(rest_chunks[i].offset_header as int, rest_chunks[i].length)
                        <= data.len() + 1
                } by {
                    assert(rest_chunks[i] == chunks[i + 1]);
                }
                assert forall|i: int| 0 <= i < rest_chunks.len() implies {
                    &&& #[trigger] rest_chunks[i].chunktype == read4_at(
                        data,
                        rest_chunks[i].offset_header as int,
                    )
                    &&& rest_chunks[i].length == read4_at(data, rest_chunks[i].offset_header + 4)
                } by {
                    assert(rest_chunks[i] == chunks[i + 1]);
                }
                assert(rest_chunks.last() == chunks.last());
                assert(chunks_cover(data, next, rest_chunks));
            }
            if chunks_cover(data, pos, chunks) && chunks.len() == 1 {
                assert(chunks[0] == chunk);
                assert(next == data.len());
                assert(chunks_cover(data, next, rest_chunks));
            }
            lemma_chunks_from_exact(data, next, rest_chunks);
            if let Ok(rest) = parse_chunks_from(data, next) {
                let found = seq![chunk] + rest;
                assert forall|i: int| 0 <= i < found.len() implies {
                    &&& #[trigger] found[i].chunktype == read4_at(data, found[i].offset_header as int)
                    &&& found[i].length == read4_at(data, found[i].offset_header + 4)
                } by {
                    if i > 0 {
                        assert(found[i] == rest[i - 1]);
                    }
                }
                assert(chunks_cover(data, next, rest));
                if rest.len() > 0 {
                    assert(found.last() == rest.last());
                } else {
                    assert(next >= data.len());
                    assert(end >= data.len());
                    assert(found.last() == chunk);
                    assert(chunk.offset_header == pos);
                }
                assert(chunks_laid_out(data, pos, found));
                assert(parse_chunks_from(data, pos) == Ok::<Seq<ChunkView>, u32>(found));
                assert(chunks_cover(data, pos, found));
            }
            if chunks_cover(data, pos, chunks) {
                assert(chunks[0] == chunk);
                assert(chunks =~= seq![chunk] + rest_chunks);
                assert(parse_chunks_from(data, next) == Ok::<Seq<ChunkView>, u32>(rest_chunks));
                assert(parse_chunks_from(data, pos) == Ok::<Seq<ChunkView>, u32>(chunks));
            }
        } else {
            if chunks_cover(data, pos, chunks) {
                lemma_cover_first(data, pos, chunks);
                assert(chunks[0].offset_data == chunks[0].offset_header + 8);
                assert(chunk_end(chunks[0].offset_header as int, chunks[0].length) <= data.len() + 1);
            }
        }
    } else if chunks_cover(data, pos, chunks) {
        if chunks.len() > 0 {
            assert(chunks[0].offset_data == chunks[0].offset_header + 8);
        }
        assert(chunks =~= Seq::<ChunkView>::empty());
    }
}

/// An IFF file parses exactly when it starts with `FORM` and some list of
/// chunks covers it from offset 12; the list given is that one, and the only
/// error is the format error.
pub proof fn lemma_parse_iff_exact(data: Seq<u8>, chunks: Seq<ChunkView>)
    requires
        data.len() < i32::MAX,
    ensures
        spec_parse_iff(data) matches Ok(found) ==> read4_at(data, 0) == giblorb_ID_FORM_CODE
            && chunks_cover(data, clamp_position(12, data.len()) as int, found),
        spec_parse_iff(data) matches Err(e) ==> e == giblorb_err_Format,
        read4_at(data, 0) == giblorb_ID_FORM_CODE && chunks_cover(
            data,
            clamp_position(12, data.len()) as int,
            chunks,
        ) ==> spec_parse_iff(data) == Ok::<Seq<ChunkView>, u32>(chunks),
{
    lemma_chunks_from_exact(data, clamp_position(12, data.len()) as int, chunks);
}

/// `setpos` lands on the offset when it lies within the stream and at the
/// end when it lies past it; offsets too large for a `glsi32` count as
/// negative and land at the start.
pub proof fn lemma_seek_target(pos: u32, len: nat)
    ensures
        pos <= len && pos <= 0x7FFF_FFFF ==> seek_target(pos, len) == pos,
        len < pos <= 0x7FFF_FFFF ==> seek_target(pos, len) == len,
        pos > 0x7FFF_FFFF ==> seek_target(pos, len) == 0,
{
}

} // verus!
