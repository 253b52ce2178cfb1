//! WAV (RIFF PCM) headers and the concatenation of WAV chunks into one file.
//! Files are read and written by the caller; these functions work on bytes.

use vstd::prelude::*;
use crate::error::AppError;
use crate::text::{decimal, decimal_string};

verus! {

/// Size of the canonical WAV header.
pub const WAV_HEADER_LEN: usize = 44;

/// The fields of a WAV header that the merger reads.
#[derive(Debug, Clone, Copy, PartialEq, Eq, Structural)]
pub struct WavHeader {
    pub sample_rate: u32,
    pub channels: u16,
    pub bits_per_sample: u16,
    pub data_size: u32,
}

/// Little-endian 16-bit value at `i`.
pub open spec fn le16(b: Seq<u8>, i: int) -> int {
    b[i] + 256 * b[i + 1]
}

/// Little-endian 32-bit value at `i`.
pub open spec fn le32(b: Seq<u8>, i: int) -> int {
    b[i] + 256 * b[i + 1] + 65536 * b[i + 2] + 16777216 * b[i + 3]
}

/// The four bytes of `x` in little-endian order.
pub open spec fn le32_bytes(x: u32) -> Seq<u8> {
    seq![
        (x % 256) as u8,
        ((x / 256) % 256) as u8,
        ((x / 65536) % 256) as u8,
        (x / 16777216) as u8,
    ]
}

/// `RIFF` at 0..4 and `WAVE` at 8..12.
pub open spec fn is_riff_wave(b: Seq<u8>) -> bool {
    &&& b.len() >= 12
    &&& b[0] == 0x52 && b[1] == 0x49 && b[2] == 0x46 && b[3] == 0x46
    &&& b[8] == 0x57 && b[9] == 0x41 && b[10] == 0x56 && b[11] == 0x45
}

/// The header fields of a 44-byte (or longer) WAV image.
pub open spec fn header_of(b: Seq<u8>) -> WavHeader {
    WavHeader {
        sample_rate: le32(b, 24) as u32,
        channels: le16(b, 22) as u16,
        bits_per_sample: le16(b, 34) as u16,
        data_size: le32(b, 40) as u32,
    }
}

/// Message for an image shorter than a header.
pub open spec fn too_small_message(len: nat, path: Seq<char>) -> Seq<char> {
    "WAV file too small ("@ + decimal(len) + " bytes): "@ + path
}

/// Message for an image without the RIFF/WAVE tags.
pub open spec fn not_wav_message(path: Seq<char>) -> Seq<char> {
    "Not a valid WAV file: "@ + path
}

/// The outcome of reading a header: `None` when it reads, else the message.
pub open spec fn header_error(b: Seq<u8>, path: Seq<char>) -> Option<Seq<char>> {
    if b.len() < 44 {
        Some(too_small_message(b.len(), path))
    } else if !is_riff_wave(b) {
        Some(not_wav_message(path))
    } else {
        None
    }
}

fn too_small(len: usize, path: &str) -> (r: AppError)
    ensures
        r matches AppError::InvalidInput(m) && m@ == too_small_message(len as nat, path@),
{
    let mut m = String::from_str("WAV file too small (");
    let d = decimal_string(len as u64);
    m.append(d.as_str());
    m.append(" bytes): ");
    m.append(path);
    AppError::InvalidInput(m)
}

/// Parses the header of a WAV image (`path` names it in messages).
pub fn read_wav_header(bytes: &[u8], path: &str) -> (r: Result<WavHeader, AppError>)
    ensures
        header_error(bytes@, path@) is None ==> r == Ok::<WavHeader, AppError>(header_of(bytes@)),
        header_error(bytes@, path@) matches Some(msg) ==> (r matches Err(AppError::InvalidInput(m))
            && m@ == msg),
{
    if bytes.len() < 44 {
        return Err(too_small(bytes.len(), path));
    }
    if !(bytes[0] == 0x52 && bytes[1] == 0x49 && bytes[2] == 0x46 && bytes[3] == 0x46 && bytes[8] == 0x57
        && bytes[9] == 0x41 && bytes[10] == 0x56 && bytes[11] == 0x45) {
        let mut m = String::from_str("Not a valid WAV file: ");
        m.append(path);
        return Err(AppError::InvalidInput(m));
    }
    let channels = (bytes[22] as u16) + 256 * (bytes[23] as u16);
    let sample_rate = (bytes[24] as u32) + 256 * (bytes[25] as u32) + 65536 * (bytes[26] as u32) + 16777216
        * (bytes[27] as u32);
    let bits_per_sample = (bytes[34] as u16) + 256 * (bytes[35] as u16);
    let data_size = (bytes[40] as u32) + 256 * (bytes[41] as u32) + 65536 * (bytes[42] as u32) + 16777216
        * (bytes[43] as u32);
    Ok(WavHeader { sample_rate, channels, bits_per_sample, data_size })
}

/// The audio data of a WAV image: everything after the 44-byte header.
pub fn get_wav_data(bytes: &[u8], path: &str) -> (r: Result<Vec<u8>, AppError>)
    ensures
        bytes@.len() < 44 ==> (r matches Err(AppError::InvalidInput(m)) && m@ == too_small_message(
            bytes@.len(),
            path@,
        )),
        bytes@.len() >= 44 ==> (r matches Ok(d) && d@ == bytes@.skip(44)),
{
    if bytes.len() < 44 {
        return Err(too_small(bytes.len(), path));
    }
    let mut out: Vec<u8> = Vec::new();
    let mut i: usize = 44;
    while i < bytes.len()
        invariant
            44 <= i <= bytes@.len(),
            out@ == bytes@.subrange(44, i as int),
        decreases bytes@.len() - i,
    {
        out.push(bytes[i]);
        i = i + 1;
        assert(bytes@.subrange(44, i as int) =~= bytes@.subrange(44, (i - 1) as int).push(bytes@[i - 1]));
    }
    Ok(out)
}

/// Sample rate × channels × bits per sample: eight times the bytes per second.
pub open spec fn bit_rate(h: WavHeader) -> int {
    h.sample_rate * h.channels * h.bits_per_sample
}

/// A bit rate fits in 64 bits.
proof fn lemma_bit_rate_fits(h: WavHeader)
    ensures
        0 <= bit_rate(h) <= u64::MAX,
{
    assert(0 <= (h.sample_rate as int) * (h.channels as int) * (h.bits_per_sample as int) <= u64::MAX) by (nonlinear_arith)
        requires
            0 <= h.sample_rate <= u32::MAX,
            0 <= h.channels <= u16::MAX,
            0 <= h.bits_per_sample <= u16::MAX,
    ;
}

/// The bit rate of a header.
pub fn bits_per_second(h: &WavHeader) -> (r: u64)
    ensures
        r == bit_rate(*h),
{
    let sr: u64 = h.sample_rate as u64;
    let ch: u64 = h.channels as u64;
    let bits: u64 = h.bits_per_sample as u64;
    assert(sr * ch <= 0xffff_ffffu64 * 0xffffu64) by (nonlinear_arith)
        requires
            sr <= 0xffff_ffffu64,
            ch <= 0xffffu64,
    ;
    let a: u64 = sr * ch;
    assert(a * bits <= 0xffff_ffffu64 * 0xffffu64 * 0xffffu64) by (nonlinear_arith)
        requires
            a <= 0xffff_ffffu64 * 0xffffu64,
            bits <= 0xffffu64,
    ;
    a * bits
}

/// What a duration is computed from: the data size and the bit rate (the
/// duration in seconds is `8 * data_size / bit_rate`). Refused when the header
/// gives no positive rate.
pub fn get_wav_duration_parts(bytes: &[u8], path: &str) -> (r: Result<(u32, u64), AppError>)
    ensures
        header_error(bytes@, path@) matches Some(msg) ==> (r matches Err(AppError::InvalidInput(m))
            && m@ == msg),
        header_error(bytes@, path@) is None && bit_rate(header_of(bytes@)) == 0 ==> (r matches Err(
            AppError::InvalidInput(m),
        ) && m@ == "Invalid WAV header parameters"@),
        header_error(bytes@, path@) is None && bit_rate(header_of(bytes@)) > 0 ==> r == Ok::<
            (u32, u64),
            AppError,
        >((header_of(bytes@).data_size, bit_rate(header_of(bytes@)) as u64)),
{
    let h = read_wav_header(bytes, path)?;
    let rate = bits_per_second(&h);
    if rate == 0 {
        return Err(AppError::InvalidInput(String::from_str("Invalid WAV header parameters")));
    }
    Ok((h.data_size, rate))
}

/// One WAV image to merge, with the path that names it in messages.
pub struct WavSource {
    pub path: String,
    pub bytes: Vec<u8>,
}

/// A merged WAV image with what its duration is computed from.
pub struct MergedWav {
    pub bytes: Vec<u8>,
    /// Size of the audio data recorded in the header.
    pub data_size: u32,
    /// Bit rate of the format (see `bit_rate`).
    pub bits_per_second: u64,
}

/// Two headers describe the same sample format.
pub open spec fn compatible(a: WavHeader, b: WavHeader) -> bool {
    a.sample_rate == b.sample_rate && a.channels == b.channels && a.bits_per_sample == b.bits_per_sample
}

/// `{rate}Hz/{channels}ch/{bits}bit`.
pub open spec fn format_text(h: WavHeader) -> Seq<char> {
    decimal(h.sample_rate as nat) + "Hz/"@ + decimal(h.channels as nat) + "ch/"@ + decimal(
        h.bits_per_sample as nat,
    ) + "bit"@
}

/// Message for a chunk whose format differs from the first chunk's.
pub open spec fn incompatible_message(path: Seq<char>, expected: WavHeader, got: WavHeader) -> Seq<
    char,
> {
    "Incompatible WAV format in "@ + path + ": expected "@ + format_text(expected) + ", got "@
        + format_text(got)
}

/// The first error among the chunks from index `i` on: a header that does not
/// read, or a format that differs from `first`.
pub open spec fn later_chunk_error(chunks: Seq<WavSource>, first: WavHeader, i: int) -> Option<
    Seq<char>,
>
    decreases chunks.len() - i,
{
    if i >= chunks.len() {
        None
    } else if header_error(chunks[i].bytes@, chunks[i].path@) is Some {
        header_error(chunks[i].bytes@, chunks[i].path@)
    } else if !compatible(header_of(chunks[i].bytes@), first) {
        Some(incompatible_message(chunks[i].path@, first, header_of(chunks[i].bytes@)))
    } else {
        later_chunk_error(chunks, first, i + 1)
    }
}

/// Data size of the merge of the first `n` chunks: the first header's data
/// size plus the data bytes of each later chunk.
pub open spec fn data_total(chunks: Seq<WavSource>, n: int) -> int
    decreases n,
{
    if n <= 1 {
        header_of(chunks[0].bytes@).data_size as int
    } else {
        data_total(chunks, n - 1) + (chunks[n - 1].bytes@.len() - 44)
    }
}

/// The audio data of the first `n` chunks, in order.
pub open spec fn all_data(chunks: Seq<WavSource>, n: int) -> Seq<u8>
    decreases n,
{
    if n <= 1 {
        chunks[0].bytes@.skip(44)
    } else {
        all_data(chunks, n - 1) + chunks[n - 1].bytes@.skip(44)
    }
}

/// The merged image: the first header with the RIFF size (bytes 4..8) and the
/// data size (bytes 40..44) rewritten, then all the data.
pub open spec fn merged_bytes(chunks: Seq<WavSource>) -> Seq<u8> {
    let f = chunks[0].bytes@;
    let total = data_total(chunks, chunks.len() as int);
    f.subrange(0, 4) + le32_bytes((36 + total) as u32) + f.subrange(8, 40) + le32_bytes(total as u32)
        + all_data(chunks, chunks.len() as int)
}

/// Why a merge is refused, if it is.
pub open spec fn merge_error(chunks: Seq<WavSource>, output_path: Seq<char>) -> Option<Seq<char>> {
    if chunks.len() == 0 {
        Some("Cannot merge empty list of WAV chunks"@)
    } else if chunks.len() == 1 {
        if header_error(chunks[0].bytes@, output_path) is Some {
            header_error(chunks[0].bytes@, output_path)
        } else if bit_rate(header_of(chunks[0].bytes@)) == 0 {
            Some("Invalid WAV header parameters"@)
        } else {
            None
        }
    } else if header_error(chunks[0].bytes@, chunks[0].path@) is Some {
        header_error(chunks[0].bytes@, chunks[0].path@)
    } else {
        later_chunk_error(chunks, header_of(chunks[0].bytes@), 1)
    }
}

/// The sizes of a merge fit the 32-bit fields of the header.
pub open spec fn merge_fits(chunks: Seq<WavSource>) -> bool {
    36 + data_total(chunks, chunks.len() as int) <= u32::MAX
}

proof fn lemma_later_ok(chunks: Seq<WavSource>, first: WavHeader, i: int, j: int)
    requires
        1 <= i <= j,
        later_chunk_error(chunks, first, i) is None,
    ensures
        later_chunk_error(chunks, first, j) is None,
        j < chunks.len() ==> chunks[j].bytes@.len() >= 44,
    decreases j - i,
{
    if i < j {
        lemma_later_ok(chunks, first, i + 1, j);
    }
}

proof fn lemma_data_total_grows(chunks: Seq<WavSource>, first: WavHeader, i: int, j: int)
    requires
        1 <= i <= j <= chunks.len(),
        later_chunk_error(chunks, first, 1) is None,
    ensures
        data_total(chunks, i) <= data_total(chunks, j),
    decreases j - i,
{
    if i < j {
        lemma_data_total_grows(chunks, first, i, j - 1);
        lemma_later_ok(chunks, first, 1, j - 1);
    }
}

/// Appends `src[from..]` to `out`.
fn append_from(out: &mut Vec<u8>, src: &[u8], from: usize)
    requires
        from <= src@.len(),
    ensures
        final(out)@ == old(out)@ + src@.skip(from as int),
{
    let mut i: usize = from;
    while i < src.len()
        invariant
            from <= i <= src@.len(),
            out@ == old(out)@ + src@.subrange(from as int, i as int),
        decreases src@.len() - i,
    {
        out.push(src[i]);
        i = i + 1;
        assert(src@.subrange(from as int, i as int) =~= src@.subrange(from as int, (i - 1) as int).push(
            src@[i - 1],
        ));
    }
    assert(src@.subrange(from as int, src@.len() as int) =~= src@.skip(from as int));
}

/// Appends `src[from..to]` to `out`.
fn append_range(out: &mut Vec<u8>, src: &[u8], from: usize, to: usize)
    requires
        from <= to <= src@.len(),
    ensures
        final(out)@ == old(out)@ + src@.subrange(from as int, to as int),
{
    let mut i: usize = from;
    while i < to
        invariant
            from <= i <= to <= src@.len(),
            out@ == old(out)@ + src@.subrange(from as int, i as int),
        decreases to - i,
    {
        out.push(src[i]);
        i = i + 1;
        assert(src@.subrange(from as int, i as int) =~= src@.subrange(from as int, (i - 1) as int).push(
            src@[i - 1],
        ));
    }
}

/// Appends the little-endian bytes of `x`.
fn append_le32(out: &mut Vec<u8>, x: u32)
    ensures
        final(out)@ == old(out)@ + le32_bytes(x),
{
    out.push((x % 256) as u8);
    out.push(((x / 256) % 256) as u8);
    out.push(((x / 65536) % 256) as u8);
    out.push((x / 16777216) as u8);
    assert(out@ =~= old(out)@ + le32_bytes(x));
}

/// `{rate}Hz/{channels}ch/{bits}bit` as a string.
fn format_string(h: &WavHeader) -> (r: String)
    ensures
        r@ == format_text(*h),
{
    let mut s = decimal_string(h.sample_rate as u64);
    s.append("Hz/");
    let c = decimal_string(h.channels as u64);
    s.append(c.as_str());
    s.append("ch/");
    let b = decimal_string(h.bits_per_sample as u64);
    s.append(b.as_str());
    s.append("bit");
    s
}

/// Merges WAV images into one. A single image is returned unchanged after its
/// header has been read under `output_path`; several are joined behind the
/// first one's header, with both size fields rewritten.
pub fn merge_wav_bytes(chunks: &[WavSource], output_path: &str) -> (r: Result<MergedWav, AppError>)
    requires
        merge_error(chunks@, output_path@) is None && chunks@.len() >= 2 ==> merge_fits(chunks@),
    ensures
        merge_error(chunks@, output_path@) matches Some(msg) ==> (r matches Err(AppError::InvalidInput(m))
            && m@ == msg),
        merge_error(chunks@, output_path@) is None && chunks@.len() == 1 ==> (r matches Ok(w) && w.bytes@
            == chunks@[0].bytes@ && w.data_size == header_of(chunks@[0].bytes@).data_size
            && w.bits_per_second == bit_rate(header_of(chunks@[0].bytes@))),
        merge_error(chunks@, output_path@) is None && chunks@.len() >= 2 ==> (r matches Ok(w) && w.bytes@
            == merged_bytes(chunks@) && w.data_size == data_total(chunks@, chunks@.len() as int)
            && w.bits_per_second == bit_rate(header_of(chunks@[0].bytes@))),
{
    if chunks.len() == 0 {
        return Err(AppError::InvalidInput(String::from_str("Cannot merge empty list of WAV chunks")));
    }
    if chunks.len() == 1 {
        let only = &chunks[0];
        let (data_size, rate) = get_wav_duration_parts(only.bytes.as_slice(), output_path)?;
        let mut out: Vec<u8> = Vec::new();
        append_from(&mut out, only.bytes.as_slice(), 0);
        assert(only.bytes@.skip(0) =~= only.bytes@);
        assert(out@ =~= only.bytes@);
        proof {
            lemma_bit_rate_fits(header_of(only.bytes@));
        }
        return Ok(MergedWav { bytes: out, data_size, bits_per_second: rate });
    }
    let first = &chunks[0];
    let h0 = read_wav_header(first.bytes.as_slice(), first.path.as_str())?;
    let ghost cs = chunks@;
    let mut i: usize = 1;
    while i < chunks.len()
        invariant
            cs == chunks@,
            1 <= i <= cs.len(),
            h0 == header_of(cs[0].bytes@),
            later_chunk_error(cs, h0, 1) == later_chunk_error(cs, h0, i as int),
            merge_error(cs, output_path@) == later_chunk_error(cs, h0, 1),
        decreases cs.len() - i,
    {
        let c = &chunks[i];
        let h = read_wav_header(c.bytes.as_slice(), c.path.as_str())?;
        if h.sample_rate != h0.sample_rate || h.channels != h0.channels || h.bits_per_sample
            != h0.bits_per_sample {
            let mut m = String::from_str("Incompatible WAV format in ");
            m.append(c.path.as_str());
            m.append(": expected ");
            let e = format_string(&h0);
            m.append(e.as_str());
            m.append(", got ");
            let g = format_string(&h);
            m.append(g.as_str());
            return Err(AppError::InvalidInput(m));
        }
        i = i + 1;
    }
    proof {
        lemma_data_total_grows(cs, h0, 1, cs.len() as int);
    }
    let mut total: u32 = h0.data_size;
    let mut data: Vec<u8> = Vec::new();
    append_from(&mut data, first.bytes.as_slice(), 44);
    let mut j: usize = 1;
    while j < chunks.len()
        invariant
            cs == chunks@,
            1 <= j <= cs.len(),
            h0 == header_of(cs[0].bytes@),
            later_chunk_error(cs, h0, 1) is None,
            36 + data_total(cs, cs.len() as int) <= u32::MAX,
            total == data_total(cs, j as int),
            data@ == all_data(cs, j as int),
        decreases cs.len() - j,
    {
        let c = &chunks[j];
        proof {
            lemma_later_ok(cs, h0, 1, j as int);
            lemma_data_total_grows(cs, h0, (j + 1) as int, cs.len() as int);
        }
        let n: usize = c.bytes.len() - 44;
        total = total + (n as u32);
        append_from(&mut data, c.bytes.as_slice(), 44);
        j = j + 1;
    }
    let mut out: Vec<u8> = Vec::new();
    append_range(&mut out, first.bytes.as_slice(), 0, 4);
    append_le32(&mut out, 36 + total);
    append_range(&mut out, first.bytes.as_slice(), 8, 40);
    append_le32(&mut out, total);
    append_from(&mut out, data.as_slice(), 0);
    assert(data@.skip(0) =~= data@);
    let rate = bits_per_second(&h0);
    Ok(MergedWav { bytes: out, data_size: total, bits_per_second: rate })
}

} // verus!

verus! {

proof fn lemma_le32_roundtrip(x: u32)
    ensures
        le32(le32_bytes(x), 0) == x,
{
    let b = le32_bytes(x);
    assert(b[0] == x % 256 && b[1] == (x / 256) % 256 && b[2] == (x / 65536) % 256 && b[3] == x / 16777216);
    assert((x % 256) + 256 * ((x / 256) % 256) + 65536 * ((x / 65536) % 256) + 16777216 * (x / 16777216) == x)
        by (bit_vector);
}

/// A merged image reads back as a WAV file with the first chunk's sample
/// format, the merged data size, and all the chunks' audio data after the
/// header.
pub proof fn lemma_merged_reads_back(chunks: Seq<WavSource>, output_path: Seq<char>)
    requires
        chunks.len() >= 2,
        merge_error(chunks, output_path) is None,
        merge_fits(chunks),
    ensures
        header_error(merged_bytes(chunks), output_path) is None,
        header_of(merged_bytes(chunks)) == (WavHeader {
            sample_rate: header_of(chunks[0].bytes@).sample_rate,
            channels: header_of(chunks[0].bytes@).channels,
            bits_per_sample: header_of(chunks[0].bytes@).bits_per_sample,
            data_size: data_total(chunks, chunks.len() as int) as u32,
        }),
        merged_bytes(chunks).skip(44) == all_data(chunks, chunks.len() as int),
{
    let f = chunks[0].bytes@;
    let total = data_total(chunks, chunks.len() as int);
    lemma_data_total_grows(chunks, header_of(f), 1, chunks.len() as int);
    let m = merged_bytes(chunks);
    let riff = le32_bytes((36 + total) as u32);
    let ds = le32_bytes(total as u32);
    let head = f.subrange(0, 4) + riff + f.subrange(8, 40) + ds;
    assert(head.len() == 44);
    assert(m == head + all_data(chunks, chunks.len() as int));
    assert forall|k: int| 0 <= k < 44 implies #[trigger] m[k] == head[k] by {}
    assert forall|k: int| 0 <= k < 4 implies #[trigger] head[k] == f[k] by {}
    assert forall|k: int| 8 <= k < 40 implies #[trigger] head[k] == f[k] by {}
    assert(head[40] == ds[0] && head[41] == ds[1] && head[42] == ds[2] && head[43] == ds[3]);
    lemma_le32_roundtrip(total as u32);
    assert(le32(m, 40) == le32(ds, 0));
    assert(m.skip(44) =~= all_data(chunks, chunks.len() as int));
}

} // verus!

verus! {

proof fn lemma_data_total_monotone(chunks: Seq<WavSource>, i: int, j: int)
    requires
        1 <= i <= j <= chunks.len(),
        forall|k: int| 1 <= k < chunks.len() ==> #[trigger] chunks[k].bytes@.len() >= 44,
    ensures
        data_total(chunks, i) <= data_total(chunks, j),
    decreases j - i,
{
    if i < j {
        lemma_data_total_monotone(chunks, i, j - 1);
    }
}

/// Whether the sizes of a merge of these images fit the 32-bit fields of the
/// header (`merge_fits`), for images that all hold a header.
pub fn merge_sizes_fit(chunks: &[WavSource]) -> (r: bool)
    ensures
        chunks@.len() >= 1 && (forall|k: int| 0 <= k < chunks@.len() ==> #[trigger] chunks@[k].bytes@.len() >= 44)
            ==> r == merge_fits(chunks@),
{
    if chunks.len() == 0 {
        return true;
    }
    let first = chunks[0].bytes.as_slice();
    if first.len() < 44 {
        return true;
    }
    let mut acc: u64 = (first[40] as u64) + 256 * (first[41] as u64) + 65536 * (first[42] as u64) + 16777216
        * (first[43] as u64);
    assert(acc == header_of(chunks@[0].bytes@).data_size);
    let mut i: usize = 1;
    while i < chunks.len()
        invariant
            1 <= i <= chunks@.len(),
            acc <= u32::MAX,
            chunks@[0].bytes@.len() >= 44 && (forall|k: int| 0 <= k < chunks@.len() ==> #[trigger] chunks@[k].bytes@.len()
                >= 44) ==> acc == data_total(chunks@, i as int),
        decreases chunks@.len() - i,
    {
        let len = chunks[i].bytes.len();
        if len < 44 {
            return true;
        }
        let add = (len - 44) as u64;
        if add > u32::MAX as u64 || acc + add > u32::MAX as u64 - 36 {
            proof {
                if forall|k: int| 0 <= k < chunks@.len() ==> #[trigger] chunks@[k].bytes@.len() >= 44 {
                    assert(data_total(chunks@, i + 1) == data_total(chunks@, i as int) + (chunks@[i as int].bytes@.len()
                        - 44));
                    lemma_data_total_monotone(chunks@, i + 1, chunks@.len() as int);
                }
            }
            return false;
        }
        acc = acc + add;
        i = i + 1;
    }
    36 + acc <= u32::MAX as u64
}

} // verus!
