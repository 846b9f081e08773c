//! The RIFF files of the recorder: the WAV header of the captured sound, reading
//! a WAV file back, and the layout of the MJPEG AVI files the recording is
//! muxed into.
use vstd::prelude::*;

use crate::text::push_char;
use crate::video_player::{decimal, push_decimal};

verus! {

/// `x` as two little-endian bytes.
pub open spec fn le16(x: u16) -> Seq<u8> {
    seq![(x % 256) as u8, (x / 256) as u8]
}

/// `x` as four little-endian bytes.
pub open spec fn le32(x: u32) -> Seq<u8> {
    seq![(x % 256) as u8, ((x / 256) % 256) as u8, ((x / 65536) % 256) as u8, (x / 16777216) as u8]
}

/// The 16-bit little-endian number at `at` of `b`.
pub open spec fn le16_at(b: Seq<u8>, at: int) -> u16 {
    (b[at] + 256 * b[at + 1]) as u16
}

/// The 32-bit little-endian number at `at` of `b`.
pub open spec fn le32_at(b: Seq<u8>, at: int) -> u32 {
    (b[at] + 256 * b[at + 1] + 65536 * b[at + 2] + 16777216 * b[at + 3]) as u32
}

/// A four-character code.
pub open spec fn fourcc(a: u8, b: u8, c: u8, d: u8) -> Seq<u8> {
    seq![a, b, c, d]
}

pub open spec fn tag_riff() -> Seq<u8> {
    fourcc(0x52, 0x49, 0x46, 0x46)
}

pub open spec fn tag_wave() -> Seq<u8> {
    fourcc(0x57, 0x41, 0x56, 0x45)
}

pub open spec fn tag_fmt() -> Seq<u8> {
    fourcc(0x66, 0x6d, 0x74, 0x20)
}

pub open spec fn tag_data() -> Seq<u8> {
    fourcc(0x64, 0x61, 0x74, 0x61)
}

pub open spec fn tag_list() -> Seq<u8> {
    fourcc(0x4c, 0x49, 0x53, 0x54)
}

pub open spec fn tag_avi() -> Seq<u8> {
    fourcc(0x41, 0x56, 0x49, 0x20)
}

pub open spec fn tag_hdrl() -> Seq<u8> {
    fourcc(0x68, 0x64, 0x72, 0x6c)
}

pub open spec fn tag_avih() -> Seq<u8> {
    fourcc(0x61, 0x76, 0x69, 0x68)
}

pub open spec fn tag_strl() -> Seq<u8> {
    fourcc(0x73, 0x74, 0x72, 0x6c)
}

pub open spec fn tag_strh() -> Seq<u8> {
    fourcc(0x73, 0x74, 0x72, 0x68)
}

pub open spec fn tag_vids() -> Seq<u8> {
    fourcc(0x76, 0x69, 0x64, 0x73)
}

pub open spec fn tag_mjpg() -> Seq<u8> {
    fourcc(0x4d, 0x4a, 0x50, 0x47)
}

pub open spec fn tag_strf() -> Seq<u8> {
    fourcc(0x73, 0x74, 0x72, 0x66)
}

pub open spec fn tag_auds() -> Seq<u8> {
    fourcc(0x61, 0x75, 0x64, 0x73)
}

pub open spec fn tag_movi() -> Seq<u8> {
    fourcc(0x6d, 0x6f, 0x76, 0x69)
}

pub open spec fn tag_dc() -> Seq<u8> {
    fourcc(0x30, 0x30, 0x64, 0x63)
}

pub open spec fn tag_wb() -> Seq<u8> {
    fourcc(0x30, 0x31, 0x77, 0x62)
}

pub open spec fn tag_idx1() -> Seq<u8> {
    fourcc(0x69, 0x64, 0x78, 0x31)
}

proof fn lemma_le16_roundtrip(x: u16, b: Seq<u8>, at: int)
    requires
        0 <= at,
        at + 2 <= b.len(),
        b.subrange(at, at + 2) == le16(x),
    ensures
        le16_at(b, at) == x,
{
    assert(b[at] == le16(x)[0]);
    assert(b[at + 1] == le16(x)[1]);
}

proof fn lemma_le32_roundtrip(x: u32, b: Seq<u8>, at: int)
    requires
        0 <= at,
        at + 4 <= b.len(),
        b.subrange(at, at + 4) == le32(x),
    ensures
        le32_at(b, at) == x,
{
    assert(b[at] == le32(x)[0]);
    assert(b[at + 1] == le32(x)[1]);
    assert(b[at + 2] == le32(x)[2]);
    assert(b[at + 3] == le32(x)[3]);
}

/// Appends `x` as two little-endian bytes.
fn push_u16(v: &mut Vec<u8>, x: u16)
    ensures
        final(v)@ == old(v)@ + le16(x),
{
    v.push((x % 256) as u8);
    v.push((x / 256) as u8);
    assert(v@ =~= old(v)@ + le16(x));
}

/// Appends `x` as four little-endian bytes.
fn push_u32(v: &mut Vec<u8>, x: u32)
    ensures
        final(v)@ == old(v)@ + le32(x),
{
    v.push((x % 256) as u8);
    v.push(((x / 256) % 256) as u8);
    v.push(((x / 65536) % 256) as u8);
    v.push((x / 16777216) as u8);
    assert(v@ =~= old(v)@ + le32(x));
}

/// Appends a four-character code.
fn push_tag(v: &mut Vec<u8>, a: u8, b: u8, c: u8, d: u8)
    ensures
        final(v)@ == old(v)@ + fourcc(a, b, c, d),
{
    v.push(a);
    v.push(b);
    v.push(c);
    v.push(d);
    assert(v@ =~= old(v)@ + fourcc(a, b, c, d));
}

/// The format tag of a WAV file: 3 for IEEE float samples, 1 for PCM.
pub open spec fn format_tag(is_float: bool) -> u16 {
    if is_float {
        3
    } else {
        1
    }
}

/// The 44-byte header of a WAV file with a plain 16-byte "fmt " chunk and a "data"
/// chunk of `data_len` bytes.
pub open spec fn wav_header(channels: u16, sample_rate: u32, bits: u16, is_float: bool, data_len: u32) -> Seq<u8> {
    let block_align = (channels * (bits / 8)) as u16;
    let byte_rate = (sample_rate * block_align) as u32;
    tag_riff() + le32((36 + data_len) as u32) + tag_wave() + tag_fmt() + le32(16) + le16(format_tag(is_float))
        + le16(channels) + le32(sample_rate) + le32(byte_rate) + le16(block_align) + le16(bits) + tag_data()
        + le32(data_len)
}

/// Whether the WAV header's sizes fit their fields.
pub open spec fn wav_fits(channels: u16, sample_rate: u32, bits: u16, data_len: u32) -> bool {
    &&& channels * (bits / 8) <= u16::MAX
    &&& sample_rate * (channels * (bits / 8)) <= u32::MAX
    &&& data_len <= u32::MAX - 36
}

/// The header of a WAV file whose "data" chunk holds `data_len` bytes.
pub fn wav_header_bytes(channels: u16, sample_rate: u32, bits: u16, is_float: bool, data_len: u32) -> (r: Vec<u8>)
    requires
        wav_fits(channels, sample_rate, bits, data_len),
    ensures
        r@ == wav_header(channels, sample_rate, bits, is_float, data_len),
        r@.len() == 44,
{
    let format_tag: u16 = if is_float { 3 } else { 1 };
    let block_align: u16 = channels * (bits / 8);
    let byte_rate: u32 = sample_rate * (block_align as u32);
    let mut w: Vec<u8> = Vec::new();
    push_tag(&mut w, 0x52, 0x49, 0x46, 0x46);
    push_u32(&mut w, 36 + data_len);
    push_tag(&mut w, 0x57, 0x41, 0x56, 0x45);
    push_tag(&mut w, 0x66, 0x6d, 0x74, 0x20);
    push_u32(&mut w, 16);
    push_u16(&mut w, format_tag);
    push_u16(&mut w, channels);
    push_u32(&mut w, sample_rate);
    push_u32(&mut w, byte_rate);
    push_u16(&mut w, block_align);
    push_u16(&mut w, bits);
    push_tag(&mut w, 0x64, 0x61, 0x74, 0x61);
    push_u32(&mut w, data_len);
    w
}

/// What reading a WAV file gives: channels, sample rate, bits per sample, data.
pub struct WavInfo {
    pub channels: u16,
    pub sample_rate: u32,
    pub bits: u16,
    pub data: Seq<u8>,
}

/// The chunks of `b` from `pos` on, read into `st`: a "fmt " chunk of at least 16
/// bytes sets the format, a "data" chunk the data (cut at the end of the file);
/// chunks are padded to an even length.
pub open spec fn wav_walk(b: Seq<u8>, pos: int, st: WavInfo) -> WavInfo
    decreases b.len() + 1 - pos,
{
    if pos + 8 > b.len() {
        st
    } else {
        let size = le32_at(b, pos + 4);
        let body_start = pos + 8;
        let body_end: int = if body_start + size <= b.len() {
            body_start + size
        } else {
            b.len() as int
        };
        let id = b.subrange(pos, pos + 4);
        let st2 = if id == tag_fmt() && body_end >= body_start + 16 {
            WavInfo {
                channels: le16_at(b, body_start + 2),
                sample_rate: le32_at(b, body_start + 4),
                bits: le16_at(b, body_start + 14),
                data: st.data,
            }
        } else if id == tag_data() {
            WavInfo { data: b.subrange(body_start, body_end), ..st }
        } else {
            st
        };
        wav_walk(b, body_end + size % 2, st2)
    }
}

/// What reading the WAV file `b` gives: nothing unless it starts with a RIFF WAVE
/// header; else its chunks read in order, from a format of zeros and no data.
pub open spec fn wav_read(b: Seq<u8>) -> Option<WavInfo> {
    if b.len() < 12 || b.subrange(0, 4) != tag_riff() || b.subrange(8, 12) != tag_wave() {
        None
    } else {
        Some(wav_walk(b, 12, WavInfo { channels: 0, sample_rate: 0, bits: 0, data: Seq::empty() }))
    }
}

/// Whether `b[at..at+4]` is the four-character code `t`.
fn tag_at(b: &Vec<u8>, at: usize, t0: u8, t1: u8, t2: u8, t3: u8) -> (r: bool)
    requires
        at + 4 <= b.len(),
    ensures
        r == (b@.subrange(at as int, at + 4) == fourcc(t0, t1, t2, t3)),
{
    let r = b[at] == t0 && b[at + 1] == t1 && b[at + 2] == t2 && b[at + 3] == t3;
    proof {
        if r {
            assert(b@.subrange(at as int, at + 4) =~= fourcc(t0, t1, t2, t3));
        } else if b@.subrange(at as int, at + 4) == fourcc(t0, t1, t2, t3) {
            assert(b@.subrange(at as int, at + 4)[0] == t0);
            assert(b@.subrange(at as int, at + 4)[1] == t1);
            assert(b@.subrange(at as int, at + 4)[2] == t2);
            assert(b@.subrange(at as int, at + 4)[3] == t3);
        }
    }
    r
}

fn read_u16(b: &Vec<u8>, at: usize) -> (r: u16)
    requires
        at + 2 <= b.len(),
    ensures
        r == le16_at(b@, at as int),
{
    let lo = b[at] as u16;
    let hi = b[at + 1] as u16;
    lo + 256 * hi
}

fn read_u32(b: &Vec<u8>, at: usize) -> (r: u32)
    requires
        at + 4 <= b.len(),
    ensures
        r == le32_at(b@, at as int),
{
    let b0 = b[at] as u32;
    let b1 = b[at + 1] as u32;
    let b2 = b[at + 2] as u32;
    let b3 = b[at + 3] as u32;
    b0 + 256 * b1 + 65536 * b2 + 16777216 * b3
}

/// A copy of `b[start..end]`.
fn copy_range(b: &Vec<u8>, start: usize, end: usize) -> (r: Vec<u8>)
    requires
        start <= end <= b@.len(),
    ensures
        r@ == b@.subrange(start as int, end as int),
{
    let mut r: Vec<u8> = Vec::new();
    let mut i: usize = start;
    while i < end
        invariant
            start <= i <= end,
            end <= b@.len(),
            r@ == b@.subrange(start as int, i as int),
        decreases end - i,
    {
        r.push(b[i]);
        i = i + 1;
        assert(r@ =~= b@.subrange(start as int, i as int));
    }
    r
}

/// Reads the WAV file `bytes`: channels, sample rate, bits per sample and the
/// data, or nothing when it is not a RIFF WAVE file.
pub fn read_wav(bytes: &Vec<u8>) -> (r: Option<(u16, u32, u16, Vec<u8>)>)
    ensures
        match wav_read(bytes@) {
            None => r is None,
            Some(info) => r matches Some(t) && t.0 == info.channels && t.1 == info.sample_rate && t.2 == info.bits
                && t.3@ == info.data,
        },
{
    let n = bytes.len();
    if n < 12 || !tag_at(bytes, 0, 0x52, 0x49, 0x46, 0x46) || !tag_at(bytes, 8, 0x57, 0x41, 0x56, 0x45) {
        return None;
    }
    let mut pos: usize = 12;
    let mut channels: u16 = 0;
    let mut sample_rate: u32 = 0;
    let mut bits: u16 = 0;
    let mut data: Vec<u8> = Vec::new();
    while n >= 8 && pos <= n - 8
        invariant
            n == bytes@.len(),
            12 <= pos <= n,
            wav_walk(bytes@, pos as int, WavInfo { channels, sample_rate, bits, data: data@ }) == wav_walk(
                bytes@,
                12,
                WavInfo { channels: 0, sample_rate: 0, bits: 0, data: Seq::empty() },
            ),
        decreases n - pos,
    {
        let ghost st0 = WavInfo { channels, sample_rate, bits, data: data@ };
        let ghost pos0 = pos as int;
        let size = read_u32(bytes, pos + 4);
        let body_start = pos + 8;
        let body_end: usize = if (size as u64) <= ((n - body_start) as u64) {
            body_start + (size as usize)
        } else {
            n
        };
        if tag_at(bytes, pos, 0x66, 0x6d, 0x74, 0x20) && body_end - body_start >= 16 {
            channels = read_u16(bytes, body_start + 2);
            sample_rate = read_u32(bytes, body_start + 4);
            bits = read_u16(bytes, body_start + 14);
        } else if tag_at(bytes, pos, 0x64, 0x61, 0x74, 0x61) {
            data = copy_range(bytes, body_start, body_end);
        }
        let pad: usize = (size % 2) as usize;
        pos = if body_end > n - pad {
            n
        } else {
            body_end + pad
        };
        proof {
            let st1 = WavInfo { channels, sample_rate, bits, data: data@ };
            assert(wav_walk(bytes@, pos0, st0) == wav_walk(bytes@, body_end + size % 2, st1));
            assert(wav_walk(bytes@, pos as int, st1) == wav_walk(bytes@, body_end + size % 2, st1));
        }
    }
    Some((channels, sample_rate, bits, data))
}


/// Reading back a WAV file made of the header that `wav_header_bytes` writes for
/// `data` and then `data` itself gives the channels, sample rate, bits per sample
/// and data that went in.
pub proof fn law_wav_roundtrip(channels: u16, sample_rate: u32, bits: u16, is_float: bool, data: Seq<u8>)
    requires
        data.len() <= u32::MAX - 36,
        wav_fits(channels, sample_rate, bits, data.len() as u32),
    ensures
        wav_read(wav_header(channels, sample_rate, bits, is_float, data.len() as u32) + data) == Some(
            WavInfo { channels, sample_rate, bits, data },
        ),
{
    let len = data.len() as u32;
    let h = wav_header(channels, sample_rate, bits, is_float, len);
    let b = h + data;
    let block_align = (channels * (bits / 8)) as u16;
    let byte_rate = (sample_rate * block_align) as u32;
    assert(h.len() == 44);
    assert(b.subrange(0, 4) =~= tag_riff());
    assert(b.subrange(8, 12) =~= tag_wave());
    assert(b.subrange(12, 16) =~= tag_fmt());
    assert(b.subrange(16, 20) =~= le32(16));
    assert(b.subrange(22, 24) =~= le16(channels));
    assert(b.subrange(24, 28) =~= le32(sample_rate));
    assert(b.subrange(34, 36) =~= le16(bits));
    assert(b.subrange(36, 40) =~= tag_data());
    assert(b.subrange(40, 44) =~= le32(len));
    assert(b.subrange(44, b.len() as int) =~= data);
    lemma_le32_roundtrip(16, b, 16);
    lemma_le16_roundtrip(channels, b, 22);
    lemma_le32_roundtrip(sample_rate, b, 24);
    lemma_le16_roundtrip(bits, b, 34);
    lemma_le32_roundtrip(len, b, 40);
    let st0 = WavInfo { channels: 0, sample_rate: 0, bits: 0, data: Seq::empty() };
    let st1 = WavInfo { channels, sample_rate, bits, data: Seq::empty() };
    let st2 = WavInfo { channels, sample_rate, bits, data };
    assert(wav_walk(b, 12, st0) == wav_walk(b, 36, st1));
    assert(wav_walk(b, 36, st1) == wav_walk(b, 44 + len + len % 2, st2));
    assert(wav_walk(b, 44 + len + len % 2, st2) == st2);
}

/// The video bytes one AVI file may hold before the recording moves on to the
/// next file (about 1.8 GiB, well under the 4 GiB that the format's 32-bit sizes
/// allow).
pub const MAX_AVI_VIDEO_BYTES: u64 = 1932735283;

/// Length of the main AVI header.
pub const AVIH_LEN: u32 = 56;

/// Length of a stream header.
pub const STRH_LEN: u32 = 64;

/// Length of the video stream format.
pub const STRF_V_LEN: u32 = 40;

/// Length of the audio stream format.
pub const STRF_A_LEN: u32 = 18;

/// Index flag of a key frame.
pub const AVIIF_KEYFRAME: u32 = 0x10;

/// Length of the header list ("hdrl") of an AVI file with one video and one
/// audio stream.
pub const HDRL_LEN: u32 = 310;

/// The audio format written into the AVI files.
#[derive(Clone, Copy, Debug, PartialEq, Eq, Structural)]
pub struct AviAudioFormat {
    pub channels: u16,
    pub sample_rate: u32,
    pub bits: u16,
    pub is_float: bool,
    pub block_align: u32,
    pub avg_bytes_per_sec: u32,
}

/// The bytes per sample frame: channels times bytes per sample, at least 1.
pub open spec fn block_align_of(channels: u16, bits: u16) -> u32 {
    let b = channels * (bits / 8);
    if b >= 1 {
        b as u32
    } else {
        1
    }
}

/// The audio format of a recording with `channels`, `sample_rate` and `bits` per
/// sample: float samples when they are 32 bits wide.
pub fn audio_format(channels: u16, sample_rate: u32, bits: u16) -> (r: AviAudioFormat)
    requires
        sample_rate * block_align_of(channels, bits) <= u32::MAX,
    ensures
        r == (AviAudioFormat {
            channels,
            sample_rate,
            bits,
            is_float: bits == 32,
            block_align: block_align_of(channels, bits),
            avg_bytes_per_sec: (sample_rate * block_align_of(channels, bits)) as u32,
        }),
{
    assert((channels as u32) * ((bits as u32) / 8) <= 65535 * 8191) by (nonlinear_arith);
    let b: u32 = (channels as u32) * ((bits as u32) / 8);
    let block_align: u32 = if b >= 1 {
        b
    } else {
        1
    };
    AviAudioFormat {
        channels,
        sample_rate,
        bits,
        is_float: bits == 32,
        block_align,
        avg_bytes_per_sec: sample_rate * block_align,
    }
}

/// The bytes that frames `s..e` take in the "movi" list before padding: an
/// 8-byte chunk header and the frame each.
pub open spec fn chunk_sum(sizes: Seq<u32>, s: int, e: int) -> int
    decreases e - s,
{
    if e <= s {
        0
    } else {
        chunk_sum(sizes, s, e - 1) + 8 + sizes[e - 1]
    }
}

/// Whether `parts` splits the frames `0..sizes.len()` as the recording does: in
/// order and without gaps, each part starting a new file only when the next
/// frame would take the part past `MAX_AVI_VIDEO_BYTES`, and no part over that
/// limit unless it is a single frame.
pub open spec fn splits(sizes: Seq<u32>, parts: Seq<(usize, usize)>) -> bool {
    &&& parts.len() >= 1
    &&& parts[0].0 == 0
    &&& parts.last().1 == sizes.len()
    &&& forall|k: int| 0 <= k < parts.len() - 1 ==> #[trigger] parts[k].1 == parts[k + 1].0
    &&& forall|k: int| 0 <= k < parts.len() ==> #[trigger] parts[k].0 <= parts[k].1
    &&& sizes.len() > 0 ==> forall|k: int| 0 <= k < parts.len() ==> #[trigger] parts[k].0 < parts[k].1
    &&& forall|k: int|
        0 <= k < parts.len() ==> chunk_sum(sizes, #[trigger] parts[k].0 as int, parts[k].1 as int)
            <= MAX_AVI_VIDEO_BYTES || parts[k].1 == parts[k].0 + 1
    &&& forall|k: int|
        0 <= k < parts.len() - 1 ==> chunk_sum(sizes, #[trigger] parts[k].0 as int, parts[k].1 + 1)
            > MAX_AVI_VIDEO_BYTES
}

proof fn lemma_chunk_sum_bound(sizes: Seq<u32>, s: int, e: int)
    requires
        s <= e,
    ensures
        0 <= chunk_sum(sizes, s, e) <= (e - s) * (8 + u32::MAX),
    decreases e - s,
{
    if e > s {
        lemma_chunk_sum_bound(sizes, s, e - 1);
    }
}

/// Splits the frames, of the given sizes, into the parts that go to separate AVI
/// files, each a range of frame indices.
pub fn split_parts(sizes: &Vec<u32>) -> (r: Vec<(usize, usize)>)
    ensures
        splits(sizes@, r@),
{
    let mut parts: Vec<(usize, usize)> = Vec::new();
    let mut start: usize = 0;
    let mut acc: u64 = 0;
    let mut i: usize = 0;
    while i < sizes.len()
        invariant
            start <= i <= sizes@.len(),
            acc == chunk_sum(sizes@, start as int, i as int),
            acc <= MAX_AVI_VIDEO_BYTES || i == start + 1,
            acc <= MAX_AVI_VIDEO_BYTES + 8 + 0xFFFF_FFFF,
            i > 0 ==> start < i,
            i == start ==> acc == 0,
            parts@.len() == 0 ==> start == 0,
            parts@.len() > 0 ==> parts@[0].0 == 0 && parts@.last().1 == start,
            forall|k: int| 0 <= k < parts@.len() - 1 ==> #[trigger] parts@[k].1 == parts@[k + 1].0,
            forall|k: int| 0 <= k < parts@.len() ==> #[trigger] parts@[k].0 < parts@[k].1,
            forall|k: int|
                0 <= k < parts@.len() ==> chunk_sum(sizes@, #[trigger] parts@[k].0 as int, parts@[k].1 as int)
                    <= MAX_AVI_VIDEO_BYTES || parts@[k].1 == parts@[k].0 + 1,
            forall|k: int|
                0 <= k < parts@.len() ==> chunk_sum(sizes@, #[trigger] parts@[k].0 as int, parts@[k].1 + 1)
                    > MAX_AVI_VIDEO_BYTES,
        decreases sizes@.len() - i,
    {
        let chunk_bytes: u64 = 8 + (sizes[i] as u64);
        if acc + chunk_bytes > MAX_AVI_VIDEO_BYTES && i > start {
            let ghost p0 = parts@;
            parts.push((start, i));
            proof {
                assert(parts@[p0.len() as int] == (start, i));
                assert forall|k: int| 0 <= k < parts@.len() - 1 implies #[trigger] parts@[k].1 == parts@[k + 1].0 by {
                    if k < p0.len() - 1 {
                        assert(parts@[k] == p0[k] && parts@[k + 1] == p0[k + 1]);
                    }
                }
            }
            start = i;
            acc = 0;
        }
        assert(chunk_sum(sizes@, start as int, i + 1) == chunk_sum(sizes@, start as int, i as int) + 8
            + sizes@[i as int]);
        acc = acc + chunk_bytes;
        i = i + 1;
    }
    let ghost p0 = parts@;
    parts.push((start, sizes.len()));
    proof {
        assert(parts@[p0.len() as int] == (start, sizes@.len() as usize));
        assert forall|k: int| 0 <= k < parts@.len() - 1 implies #[trigger] parts@[k].1 == parts@[k + 1].0 by {
            if k < p0.len() - 1 {
                assert(parts@[k] == p0[k] && parts@[k + 1] == p0[k + 1]);
            }
        }
        assert forall|k: int| 0 <= k < parts@.len() - 1 implies chunk_sum(
            sizes@,
            #[trigger] parts@[k].0 as int,
            parts@[k].1 + 1,
        ) > MAX_AVI_VIDEO_BYTES by {
            assert(parts@[k] == p0[k]);
        }
    }
    parts
}

/// The start of the audio that belongs with a frame boundary: `bytes` cut to the
/// audio's length and down to a whole sample frame.
pub fn align_audio_offset(bytes: usize, audio_len: usize, block_align: u32) -> (r: usize)
    requires
        block_align > 0,
    ensures
        ({
            let b = if bytes <= audio_len {
                bytes as int
            } else {
                audio_len as int
            };
            r == b - b % (block_align as int)
        }),
{
    let b: usize = if bytes <= audio_len {
        bytes
    } else {
        audio_len
    };
    proof {
        vstd::arithmetic::div_mod::lemma_mod_decreases(b as nat, block_align as nat);
    }
    b - b % (block_align as usize)
}

/// The largest frame size, 0 for no frames.
pub open spec fn avi_max(sizes: Seq<u32>) -> u32
    decreases sizes.len(),
{
    if sizes.len() == 0 {
        0
    } else {
        let m = avi_max(sizes.drop_last());
        if sizes.last() > m {
            sizes.last()
        } else {
            m
        }
    }
}

/// The bytes the frames take in the "movi" list: per frame an 8-byte chunk
/// header, the frame and a pad byte after a frame of odd length.
pub open spec fn padded_video_bytes(sizes: Seq<u32>) -> int
    decreases sizes.len(),
{
    if sizes.len() == 0 {
        0
    } else {
        padded_video_bytes(sizes.drop_last()) + 8 + sizes.last() + sizes.last() % 2
    }
}

/// The bytes the audio chunk takes in the "movi" list; none without audio.
pub open spec fn audio_chunk_bytes(audio_len: u32) -> int {
    if audio_len > 0 {
        8 + audio_len + audio_len % 2
    } else {
        0
    }
}

/// The length of the "movi" list.
pub open spec fn movi_len(sizes: Seq<u32>, audio_len: u32) -> int {
    4 + padded_video_bytes(sizes) + audio_chunk_bytes(audio_len)
}

/// The length of the index: 16 bytes per frame and one entry more for audio.
pub open spec fn idx_len(sizes: Seq<u32>, audio_len: u32) -> int {
    (sizes.len() + if audio_len > 0 {
        1int
    } else {
        0int
    }) * 16
}

/// The length the RIFF header gives for the whole file after its first 8 bytes.
pub open spec fn riff_len(sizes: Seq<u32>, audio_len: u32) -> int {
    4 + (8 + HDRL_LEN) + (8 + movi_len(sizes, audio_len)) + (8 + idx_len(sizes, audio_len))
}

/// Whether an AVI file with these frames and this much audio fits the format's
/// 32-bit sizes.
pub open spec fn avi_fits(sizes: Seq<u32>, audio_len: u32) -> bool {
    riff_len(sizes, audio_len) <= u32::MAX
}

/// The frame rate written, at least 1.
pub open spec fn fps_rate(fps: u32) -> u32 {
    if fps >= 1 {
        fps
    } else {
        1
    }
}

/// `-h` as a 32-bit two's complement number.
pub open spec fn negated(h: u32) -> u32 {
    (0x1_0000_0000 - h) as u32
}

/// The main AVI header chunk.
#[verifier::opaque]
pub open spec fn avih_chunk(frames: u32, fps: u32, max_len: u32, width: u32, height: u32) -> Seq<u8> {
    tag_avih() + le32(AVIH_LEN) + le32((1_000_000u32 / fps_rate(fps)) as u32) + le32(0) + le32(0) + le32(0x10)
        + le32(frames) + le32(0) + le32(2) + le32(max_len) + le32(width) + le32(height) + le32(0) + le32(0)
        + le32(0) + le32(0)
}

/// The video stream header chunk: MJPEG frames at `fps` frames per second.
#[verifier::opaque]
pub open spec fn video_strh(frames: u32, fps: u32, max_len: u32, width: u32, height: u32) -> Seq<u8> {
    tag_strh() + le32(STRH_LEN) + tag_vids() + tag_mjpg() + le32(0) + le16(0) + le16(0) + le32(0) + le32(1) + le32(
        fps_rate(fps),
    ) + le32(0) + le32(frames) + le32(max_len) + le32(0xFFFF_FFFF) + le32(0) + le32(0) + le32(0) + le32(width)
        + le32(height)
}

/// The video stream format chunk: a top-down MJPEG bitmap.
#[verifier::opaque]
pub open spec fn video_strf(max_len: u32, width: u32, height: u32) -> Seq<u8> {
    tag_strf() + le32(STRF_V_LEN) + le32(40) + le32(width) + le32(negated(height)) + le16(1) + le16(24)
        + tag_mjpg() + le32(max_len) + le32(0) + le32(0) + le32(0) + le32(0)
}

/// The audio stream header chunk.
#[verifier::opaque]
pub open spec fn audio_strh(fmt: AviAudioFormat, audio_len: u32) -> Seq<u8> {
    tag_strh() + le32(STRH_LEN) + tag_auds() + le32(0) + le32(0) + le16(0) + le16(0) + le32(0) + le32(
        fmt.block_align,
    ) + le32(fmt.avg_bytes_per_sec) + le32(0) + le32(audio_len / fmt.block_align) + le32(fmt.block_align)
        + le32(0xFFFF_FFFF) + le32(fmt.block_align) + le32(0) + le32(0) + le32(0) + le32(0)
}

/// The audio stream format chunk.
#[verifier::opaque]
pub open spec fn audio_strf(fmt: AviAudioFormat) -> Seq<u8> {
    tag_strf() + le32(STRF_A_LEN) + le16(format_tag(fmt.is_float)) + le16(fmt.channels) + le32(fmt.sample_rate)
        + le32(fmt.avg_bytes_per_sec) + le16((fmt.block_align % 65536) as u16) + le16(fmt.bits) + le16(0)
}

/// Everything of an AVI file before the frames: the RIFF header, the header list
/// with the main header and the video and audio streams, and the head of the
/// "movi" list.
pub open spec fn avi_header(
    sizes: Seq<u32>,
    audio_len: u32,
    fps: u32,
    fmt: AviAudioFormat,
    width: u32,
    height: u32,
) -> Seq<u8> {
    let frames = sizes.len() as u32;
    let max_len = avi_max(sizes);
    tag_riff() + le32(riff_len(sizes, audio_len) as u32) + tag_avi() + tag_list() + le32(HDRL_LEN) + tag_hdrl()
        + avih_chunk(frames, fps, max_len, width, height) + tag_list() + le32(124) + tag_strl() + video_strh(
        frames,
        fps,
        max_len,
        width,
        height,
    ) + video_strf(max_len, width, height) + tag_list() + le32(102) + tag_strl() + audio_strh(fmt, audio_len)
        + audio_strf(fmt) + tag_list() + le32(movi_len(sizes, audio_len) as u32) + tag_movi()
}

/// Whether the picture size can be written as 32-bit signed numbers, the height
/// negated.
pub open spec fn frame_size_ok(width: u32, height: u32) -> bool {
    width <= 0x7FFF_FFFF && 0 < height <= 0x7FFF_FFFF
}

#[verifier::spinoff_prover]
#[verifier::rlimit(40)]
fn push_avih(w: &mut Vec<u8>, frames: u32, fps: u32, max_len: u32, width: u32, height: u32)
    ensures
        final(w)@ == old(w)@ + avih_chunk(frames, fps, max_len, width, height),
{
    reveal(avih_chunk);
    let rate: u32 = if fps >= 1 {
        fps
    } else {
        1
    };
    push_tag(w, 0x61, 0x76, 0x69, 0x68);
    push_u32(w, AVIH_LEN);
    push_u32(w, 1_000_000 / rate);
    push_u32(w, 0);
    push_u32(w, 0);
    push_u32(w, 0x10);
    push_u32(w, frames);
    push_u32(w, 0);
    push_u32(w, 2);
    push_u32(w, max_len);
    push_u32(w, width);
    push_u32(w, height);
    push_u32(w, 0);
    push_u32(w, 0);
    push_u32(w, 0);
    push_u32(w, 0);
    assert(w@ =~= old(w)@ + avih_chunk(frames, fps, max_len, width, height));
}

#[verifier::spinoff_prover]
#[verifier::rlimit(40)]
fn push_video_strh(w: &mut Vec<u8>, frames: u32, fps: u32, max_len: u32, width: u32, height: u32)
    ensures
        final(w)@ == old(w)@ + video_strh(frames, fps, max_len, width, height),
{
    reveal(video_strh);
    let rate: u32 = if fps >= 1 {
        fps
    } else {
        1
    };
    push_tag(w, 0x73, 0x74, 0x72, 0x68);
    push_u32(w, STRH_LEN);
    push_tag(w, 0x76, 0x69, 0x64, 0x73);
    push_tag(w, 0x4d, 0x4a, 0x50, 0x47);
    push_u32(w, 0);
    push_u16(w, 0);
    push_u16(w, 0);
    push_u32(w, 0);
    push_u32(w, 1);
    push_u32(w, rate);
    push_u32(w, 0);
    push_u32(w, frames);
    push_u32(w, max_len);
    push_u32(w, 0xFFFF_FFFF);
    push_u32(w, 0);
    push_u32(w, 0);
    push_u32(w, 0);
    push_u32(w, width);
    push_u32(w, height);
    assert(w@ =~= old(w)@ + video_strh(frames, fps, max_len, width, height));
}

#[verifier::spinoff_prover]
#[verifier::rlimit(40)]
fn push_video_strf(w: &mut Vec<u8>, max_len: u32, width: u32, height: u32)
    requires
        0 < height,
    ensures
        final(w)@ == old(w)@ + video_strf(max_len, width, height),
{
    reveal(video_strf);
    push_tag(w, 0x73, 0x74, 0x72, 0x66);
    push_u32(w, STRF_V_LEN);
    push_u32(w, 40);
    push_u32(w, width);
    push_u32(w, u32::MAX - height + 1);
    push_u16(w, 1);
    push_u16(w, 24);
    push_tag(w, 0x4d, 0x4a, 0x50, 0x47);
    push_u32(w, max_len);
    push_u32(w, 0);
    push_u32(w, 0);
    push_u32(w, 0);
    push_u32(w, 0);
    assert(w@ =~= old(w)@ + video_strf(max_len, width, height));
}

#[verifier::spinoff_prover]
#[verifier::rlimit(40)]
fn push_audio_strh(w: &mut Vec<u8>, fmt: &AviAudioFormat, audio_len: u32)
    requires
        fmt.block_align > 0,
    ensures
        final(w)@ == old(w)@ + audio_strh(*fmt, audio_len),
{
    reveal(audio_strh);
    push_tag(w, 0x73, 0x74, 0x72, 0x68);
    push_u32(w, STRH_LEN);
    push_tag(w, 0x61, 0x75, 0x64, 0x73);
    push_u32(w, 0);
    push_u32(w, 0);
    push_u16(w, 0);
    push_u16(w, 0);
    push_u32(w, 0);
    push_u32(w, fmt.block_align);
    push_u32(w, fmt.avg_bytes_per_sec);
    push_u32(w, 0);
    push_u32(w, audio_len / fmt.block_align);
    push_u32(w, fmt.block_align);
    push_u32(w, 0xFFFF_FFFF);
    push_u32(w, fmt.block_align);
    push_u32(w, 0);
    push_u32(w, 0);
    push_u32(w, 0);
    push_u32(w, 0);
    assert(w@ =~= old(w)@ + audio_strh(*fmt, audio_len));
}

#[verifier::spinoff_prover]
#[verifier::rlimit(40)]
fn push_audio_strf(w: &mut Vec<u8>, fmt: &AviAudioFormat)
    ensures
        final(w)@ == old(w)@ + audio_strf(*fmt),
{
    reveal(audio_strf);
    let format_tag: u16 = if fmt.is_float {
        3
    } else {
        1
    };
    push_tag(w, 0x73, 0x74, 0x72, 0x66);
    push_u32(w, STRF_A_LEN);
    push_u16(w, format_tag);
    push_u16(w, fmt.channels);
    push_u32(w, fmt.sample_rate);
    push_u32(w, fmt.avg_bytes_per_sec);
    push_u16(w, (fmt.block_align % 65536) as u16);
    push_u16(w, fmt.bits);
    push_u16(w, 0);
    assert(w@ =~= old(w)@ + audio_strf(*fmt));
}

proof fn lemma_padded_prefix(sizes: Seq<u32>, i: int)
    requires
        0 <= i <= sizes.len(),
    ensures
        0 <= padded_video_bytes(sizes.take(i)) <= padded_video_bytes(sizes),
    decreases sizes.len(),
{
    if i == sizes.len() {
        assert(sizes.take(i) =~= sizes);
        lemma_padded_nonneg(sizes);
    } else {
        let d = sizes.drop_last();
        assert(sizes.take(i) =~= d.take(i));
        lemma_padded_prefix(d, i);
    }
}

proof fn lemma_padded_nonneg(sizes: Seq<u32>)
    ensures
        padded_video_bytes(sizes) >= 0,
    decreases sizes.len(),
{
    if sizes.len() > 0 {
        lemma_padded_nonneg(sizes.drop_last());
    }
}

proof fn lemma_take_step<A>(s: Seq<A>, i: int)
    requires
        0 <= i < s.len(),
    ensures
        s.take(i + 1).drop_last() == s.take(i),
        s.take(i + 1).last() == s[i],
{
    assert(s.take(i + 1).drop_last() =~= s.take(i));
}

/// The largest frame size and the bytes the frames take in the "movi" list.
fn frame_totals(sizes: &Vec<u32>, audio_len: u32) -> (r: (u32, u32))
    requires
        avi_fits(sizes@, audio_len),
    ensures
        r.0 == avi_max(sizes@),
        r.1 == padded_video_bytes(sizes@),
{
    let mut m: u32 = 0;
    let mut total: u32 = 0;
    let mut i: usize = 0;
    while i < sizes.len()
        invariant
            i <= sizes@.len(),
            avi_fits(sizes@, audio_len),
            m == avi_max(sizes@.take(i as int)),
            total == padded_video_bytes(sizes@.take(i as int)),
        decreases sizes@.len() - i,
    {
        proof {
            lemma_take_step(sizes@, i as int);
            lemma_padded_prefix(sizes@, i + 1);
        }
        let s = sizes[i];
        if s > m {
            m = s;
        }
        total = total + 8 + s + s % 2;
        i = i + 1;
    }
    proof {
        assert(sizes@.take(sizes@.len() as int) =~= sizes@);
    }
    (m, total)
}

/// Everything of an AVI file before the frames, for frames of the given sizes at
/// `fps` frames per second and `audio_len` bytes of audio in format `fmt`, the
/// picture `width` x `height`.
pub fn avi_header_bytes(
    sizes: &Vec<u32>,
    audio_len: u32,
    fps: u32,
    fmt: &AviAudioFormat,
    width: u32,
    height: u32,
) -> (r: Vec<u8>)
    requires
        avi_fits(sizes@, audio_len),
        fmt.block_align > 0,
        frame_size_ok(width, height),
    ensures
        r@ == avi_header(sizes@, audio_len, fps, *fmt, width, height),
{
    let (max_len, video_bytes) = frame_totals(sizes, audio_len);
    let frames = sizes.len() as u32;
    let audio_bytes: u32 = if audio_len > 0 {
        8 + audio_len + audio_len % 2
    } else {
        0
    };
    let movi: u32 = 4 + video_bytes + audio_bytes;
    let entries: u32 = frames + if audio_len > 0 {
        1
    } else {
        0
    };
    let idx: u32 = entries * 16;
    let riff: u32 = 4 + (8 + HDRL_LEN) + (8 + movi) + (8 + idx);
    let mut w: Vec<u8> = Vec::new();
    push_tag(&mut w, 0x52, 0x49, 0x46, 0x46);
    push_u32(&mut w, riff);
    push_tag(&mut w, 0x41, 0x56, 0x49, 0x20);
    push_tag(&mut w, 0x4c, 0x49, 0x53, 0x54);
    push_u32(&mut w, HDRL_LEN);
    push_tag(&mut w, 0x68, 0x64, 0x72, 0x6c);
    push_avih(&mut w, frames, fps, max_len, width, height);
    push_tag(&mut w, 0x4c, 0x49, 0x53, 0x54);
    push_u32(&mut w, 124);
    push_tag(&mut w, 0x73, 0x74, 0x72, 0x6c);
    push_video_strh(&mut w, frames, fps, max_len, width, height);
    push_video_strf(&mut w, max_len, width, height);
    push_tag(&mut w, 0x4c, 0x49, 0x53, 0x54);
    push_u32(&mut w, 102);
    push_tag(&mut w, 0x73, 0x74, 0x72, 0x6c);
    push_audio_strh(&mut w, fmt, audio_len);
    push_audio_strf(&mut w, fmt);
    push_tag(&mut w, 0x4c, 0x49, 0x53, 0x54);
    push_u32(&mut w, movi);
    push_tag(&mut w, 0x6d, 0x6f, 0x76, 0x69);
    w
}

/// The header of a frame chunk ("00dc") or of the audio chunk ("01wb") holding
/// `len` bytes.
pub fn chunk_header_bytes(is_audio: bool, len: u32) -> (r: Vec<u8>)
    ensures
        r@ == (if is_audio {
            tag_wb()
        } else {
            tag_dc()
        }) + le32(len),
{
    let mut w: Vec<u8> = Vec::new();
    if is_audio {
        push_tag(&mut w, 0x30, 0x31, 0x77, 0x62);
    } else {
        push_tag(&mut w, 0x30, 0x30, 0x64, 0x63);
    }
    push_u32(&mut w, len);
    w
}

/// One index entry: chunk tag, flags, offset from the start of the "movi" data
/// and chunk length.
pub open spec fn idx_entry(tag: Seq<u8>, flags: u32, offset: u32, size: u32) -> Seq<u8> {
    tag + le32(flags) + le32(offset) + le32(size)
}

/// The index entries of the frames: each a key frame at the offset where its
/// chunk starts.
pub open spec fn idx_frames(sizes: Seq<u32>) -> Seq<u8>
    decreases sizes.len(),
{
    if sizes.len() == 0 {
        Seq::empty()
    } else {
        idx_frames(sizes.drop_last()) + idx_entry(
            tag_dc(),
            AVIIF_KEYFRAME,
            padded_video_bytes(sizes.drop_last()) as u32,
            sizes.last(),
        )
    }
}

/// The "idx1" chunk: the frames' entries, then the audio chunk's when there is
/// audio.
pub open spec fn avi_index(sizes: Seq<u32>, audio_len: u32) -> Seq<u8> {
    tag_idx1() + le32(idx_len(sizes, audio_len) as u32) + idx_frames(sizes) + if audio_len > 0 {
        idx_entry(tag_wb(), 0, padded_video_bytes(sizes) as u32, audio_len)
    } else {
        Seq::empty()
    }
}

fn push_idx_entry(w: &mut Vec<u8>, is_audio: bool, flags: u32, offset: u32, size: u32)
    ensures
        final(w)@ == old(w)@ + idx_entry(
            if is_audio {
                tag_wb()
            } else {
                tag_dc()
            },
            flags,
            offset,
            size,
        ),
{
    if is_audio {
        push_tag(w, 0x30, 0x31, 0x77, 0x62);
    } else {
        push_tag(w, 0x30, 0x30, 0x64, 0x63);
    }
    push_u32(w, flags);
    push_u32(w, offset);
    push_u32(w, size);
    assert(w@ =~= old(w)@ + idx_entry(
        if is_audio {
            tag_wb()
        } else {
            tag_dc()
        },
        flags,
        offset,
        size,
    ));
}

/// The "idx1" chunk of an AVI file whose frames have the given sizes and whose
/// audio chunk holds `audio_len` bytes.
pub fn avi_index_bytes(sizes: &Vec<u32>, audio_len: u32) -> (r: Vec<u8>)
    requires
        avi_fits(sizes@, audio_len),
    ensures
        r@ == avi_index(sizes@, audio_len),
{
    proof {
        lemma_padded_nonneg(sizes@);
    }
    let frames = sizes.len() as u32;
    let entries: u32 = frames + if audio_len > 0 {
        1
    } else {
        0
    };
    let mut w: Vec<u8> = Vec::new();
    push_tag(&mut w, 0x69, 0x64, 0x78, 0x31);
    push_u32(&mut w, entries * 16);
    let ghost head = w@;
    let mut offset: u32 = 0;
    let mut i: usize = 0;
    while i < sizes.len()
        invariant
            i <= sizes@.len(),
            avi_fits(sizes@, audio_len),
            head == tag_idx1() + le32(idx_len(sizes@, audio_len) as u32),
            w@ == head + idx_frames(sizes@.take(i as int)),
            offset == padded_video_bytes(sizes@.take(i as int)),
        decreases sizes@.len() - i,
    {
        proof {
            lemma_take_step(sizes@, i as int);
            lemma_padded_prefix(sizes@, i + 1);
        }
        let s = sizes[i];
        push_idx_entry(&mut w, false, AVIIF_KEYFRAME, offset, s);
        offset = offset + 8 + s + s % 2;
        i = i + 1;
        proof {
            assert(w@ =~= head + idx_frames(sizes@.take(i as int)));
        }
    }
    proof {
        assert(sizes@.take(sizes@.len() as int) =~= sizes@);
    }
    if audio_len > 0 {
        push_idx_entry(&mut w, true, 0, offset, audio_len);
    }
    proof {
        assert(w@ =~= avi_index(sizes@, audio_len));
    }
    w
}

proof fn lemma_idx_frames_len(sizes: Seq<u32>)
    ensures
        idx_frames(sizes).len() == 16 * sizes.len(),
    decreases sizes.len(),
{
    if sizes.len() > 0 {
        lemma_idx_frames_len(sizes.drop_last());
    }
}

/// The RIFF length written at the start of an AVI file is the length of the whole
/// file after its first 8 bytes: the header, the frame chunks, the audio chunk
/// and the index together.
pub proof fn law_avi_length(sizes: Seq<u32>, audio_len: u32, fps: u32, fmt: AviAudioFormat, width: u32, height: u32)
    requires
        avi_fits(sizes, audio_len),
    ensures
        avi_header(sizes, audio_len, fps, fmt, width, height).len() + padded_video_bytes(sizes) + audio_chunk_bytes(
            audio_len,
        ) + avi_index(sizes, audio_len).len() == riff_len(sizes, audio_len) + 8,
        movi_len(sizes, audio_len) == 4 + padded_video_bytes(sizes) + audio_chunk_bytes(audio_len),
{
    lemma_header_len(sizes, audio_len, fps, fmt, width, height);
    lemma_index_len(sizes, audio_len);
}

proof fn lemma_header_len(sizes: Seq<u32>, audio_len: u32, fps: u32, fmt: AviAudioFormat, width: u32, height: u32)
    ensures
        avi_header(sizes, audio_len, fps, fmt, width, height).len() == 342,
{
    let frames = sizes.len() as u32;
    let max_len = avi_max(sizes);
    lemma_chunk_lens(frames, fps, max_len, width, height, fmt, audio_len);
}

proof fn lemma_index_len(sizes: Seq<u32>, audio_len: u32)
    ensures
        avi_index(sizes, audio_len).len() == 8 + 16 * sizes.len() + if audio_len > 0 {
            16int
        } else {
            0int
        },
{
    lemma_idx_frames_len(sizes);
}

proof fn lemma_chunk_lens(
    frames: u32,
    fps: u32,
    max_len: u32,
    width: u32,
    height: u32,
    fmt: AviAudioFormat,
    audio_len: u32,
)
    ensures
        avih_chunk(frames, fps, max_len, width, height).len() == 64,
        video_strh(frames, fps, max_len, width, height).len() == 72,
        video_strf(max_len, width, height).len() == 48,
        audio_strh(fmt, audio_len).len() == 72,
        audio_strf(fmt).len() == 26,
{
    reveal(avih_chunk);
    reveal(video_strh);
    reveal(video_strf);
    reveal(audio_strh);
    reveal(audio_strf);
}

proof fn lemma_sub_left(x: Seq<u8>, y: Seq<u8>, i: int, j: int)
    requires
        0 <= i <= j <= x.len(),
    ensures
        (x + y).subrange(i, j) == x.subrange(i, j),
{
    assert((x + y).subrange(i, j) =~= x.subrange(i, j));
}

proof fn lemma_sub_right(x: Seq<u8>, y: Seq<u8>, i: int, j: int)
    requires
        x.len() <= i <= j <= x.len() + y.len(),
    ensures
        (x + y).subrange(i, j) == y.subrange(i - x.len(), j - x.len()),
{
    assert((x + y).subrange(i, j) =~= y.subrange(i - x.len(), j - x.len()));
}

/// The first 172 bytes of an AVI header: everything up to the end of the video
/// stream header.
spec fn header_through_strh(sizes: Seq<u32>, audio_len: u32, fps: u32, width: u32, height: u32) -> Seq<u8> {
    let frames = sizes.len() as u32;
    let max_len = avi_max(sizes);
    tag_riff() + le32(riff_len(sizes, audio_len) as u32) + tag_avi() + tag_list() + le32(HDRL_LEN) + tag_hdrl()
        + avih_chunk(frames, fps, max_len, width, height) + tag_list() + le32(124) + tag_strl() + video_strh(
        frames,
        fps,
        max_len,
        width,
        height,
    )
}

proof fn lemma_header_prefix(sizes: Seq<u32>, audio_len: u32, fps: u32, fmt: AviAudioFormat, width: u32, height: u32)
    ensures
        avi_header(sizes, audio_len, fps, fmt, width, height).subrange(0, 172) == header_through_strh(
            sizes,
            audio_len,
            fps,
            width,
            height,
        ),
{
    let frames = sizes.len() as u32;
    let max_len = avi_max(sizes);
    lemma_chunk_lens(frames, fps, max_len, width, height, fmt, audio_len);
    let t1 = header_through_strh(sizes, audio_len, fps, width, height);
    assert(t1.len() == 172);
    let t2 = t1 + video_strf(max_len, width, height);
    let t3 = t2 + tag_list();
    let t4 = t3 + le32(102);
    let t5 = t4 + tag_strl();
    let t6 = t5 + audio_strh(fmt, audio_len);
    let t7 = t6 + audio_strf(fmt);
    let t8 = t7 + tag_list();
    let t9 = t8 + le32(movi_len(sizes, audio_len) as u32);
    let t10 = t9 + tag_movi();
    assert(avi_header(sizes, audio_len, fps, fmt, width, height) == t10);
    lemma_sub_left(t9, tag_movi(), 0, 172);
    lemma_sub_left(t8, le32(movi_len(sizes, audio_len) as u32), 0, 172);
    lemma_sub_left(t7, tag_list(), 0, 172);
    lemma_sub_left(t6, audio_strf(fmt), 0, 172);
    lemma_sub_left(t5, audio_strh(fmt, audio_len), 0, 172);
    lemma_sub_left(t4, tag_strl(), 0, 172);
    lemma_sub_left(t3, le32(102), 0, 172);
    lemma_sub_left(t2, tag_list(), 0, 172);
    lemma_sub_left(t1, video_strf(max_len, width, height), 0, 172);
    assert(t1.subrange(0, 172) =~= t1);
}

/// The video stream header gives the recording's frame rate: its scale (at byte
/// 128 of the file) is 1 and its rate (at byte 132) is the frames per second
/// (at least 1), so rate / scale is the frame rate; the main header (at byte 32)
/// gives the matching microseconds per frame.
pub proof fn law_avi_frame_rate(sizes: Seq<u32>, audio_len: u32, fps: u32, fmt: AviAudioFormat, width: u32, height: u32)
    ensures
        ({
            let h = avi_header(sizes, audio_len, fps, fmt, width, height);
            let rate: u32 = if fps >= 1 {
                fps
            } else {
                1
            };
            &&& h.len() == 342
            &&& le32_at(h, 128) == 1
            &&& le32_at(h, 132) == rate
            &&& le32_at(h, 32) == 1_000_000u32 / rate
        }),
{
    let frames = sizes.len() as u32;
    let max_len = avi_max(sizes);
    let rate: u32 = if fps >= 1 {
        fps
    } else {
        1
    };
    let h = avi_header(sizes, audio_len, fps, fmt, width, height);
    lemma_header_len(sizes, audio_len, fps, fmt, width, height);
    lemma_chunk_lens(frames, fps, max_len, width, height, fmt, audio_len);
    lemma_header_prefix(sizes, audio_len, fps, fmt, width, height);
    let a = tag_riff() + le32(riff_len(sizes, audio_len) as u32) + tag_avi() + tag_list() + le32(HDRL_LEN)
        + tag_hdrl();
    let av = avih_chunk(frames, fps, max_len, width, height);
    let vh = video_strh(frames, fps, max_len, width, height);
    let p1 = a + av;
    let p2 = p1 + tag_list();
    let p3 = p2 + le32(124);
    let pre = p3 + tag_strl();
    let t = pre + vh;
    assert(t == header_through_strh(sizes, audio_len, fps, width, height));
    assert(a.len() == 24);
    assert(pre.len() == 100);
    // the rate fields sit in the video stream header
    lemma_sub_right(pre, vh, 128, 132);
    lemma_sub_right(pre, vh, 132, 136);
    // the microseconds per frame sit in the main header
    lemma_sub_left(pre, vh, 32, 36);
    lemma_sub_left(p3, tag_strl(), 32, 36);
    lemma_sub_left(p2, le32(124), 32, 36);
    lemma_sub_left(p1, tag_list(), 32, 36);
    lemma_sub_right(a, av, 32, 36);
    assert(h.subrange(0, 172).subrange(128, 132) =~= h.subrange(128, 132));
    assert(h.subrange(0, 172).subrange(132, 136) =~= h.subrange(132, 136));
    assert(h.subrange(0, 172).subrange(32, 36) =~= h.subrange(32, 36));
    reveal(avih_chunk);
    reveal(video_strh);
    assert(av.subrange(8, 12) =~= le32((1_000_000u32 / rate) as u32));
    assert(vh.subrange(28, 32) =~= le32(1));
    assert(vh.subrange(32, 36) =~= le32(rate));
    lemma_le32_roundtrip((1_000_000u32 / rate) as u32, h, 32);
    lemma_le32_roundtrip(1, h, 128);
    lemma_le32_roundtrip(rate, h, 132);
}

proof fn lemma_parts_ordered(parts: Seq<(usize, usize)>, j: int, k: int)
    requires
        0 <= j < k < parts.len(),
        forall|a: int| 0 <= a < parts.len() - 1 ==> #[trigger] parts[a].1 == parts[a + 1].0,
        forall|a: int| 0 <= a < parts.len() ==> #[trigger] parts[a].0 <= parts[a].1,
    ensures
        parts[j].1 <= parts[k].0,
    decreases k - j,
{
    if j + 1 < k {
        lemma_parts_ordered(parts, j + 1, k);
        assert(parts[j].1 == parts[j + 1].0);
        assert(parts[j + 1].0 <= parts[j + 1].1);
    } else {
        assert(parts[j].1 == parts[j + 1].0);
    }
}

proof fn lemma_part_of(parts: Seq<(usize, usize)>, k: int, f: int)
    requires
        0 <= k < parts.len(),
        parts[0].0 == 0,
        0 <= f < parts[k].1,
        forall|a: int| 0 <= a < parts.len() - 1 ==> #[trigger] parts[a].1 == parts[a + 1].0,
    ensures
        exists|j: int| 0 <= j <= k && parts[j].0 <= f < #[trigger] parts[j].1,
    decreases k,
{
    if f < parts[k].0 {
        assert(k > 0);
        assert(parts[k - 1].1 == parts[k].0);
        lemma_part_of(parts, k - 1, f);
    } else {
        assert(parts[k].0 <= f < parts[k].1);
    }
}

/// The parts of a recording take every frame exactly once, in order.
pub proof fn law_parts_cover(sizes: Seq<u32>, parts: Seq<(usize, usize)>, f: int)
    requires
        splits(sizes, parts),
        0 <= f < sizes.len(),
    ensures
        exists|k: int| 0 <= k < parts.len() && parts[k].0 <= f < #[trigger] parts[k].1,
        forall|j: int, k: int|
            #![trigger parts[j], parts[k]]
            0 <= j < parts.len() && 0 <= k < parts.len() && parts[j].0 <= f < parts[j].1 && parts[k].0 <= f
                < parts[k].1 ==> j == k,
{
    lemma_part_of(parts, parts.len() - 1, f);
    assert forall|j: int, k: int|
        #![trigger parts[j], parts[k]]
        0 <= j < parts.len() && 0 <= k < parts.len() && parts[j].0 <= f < parts[j].1 && parts[k].0 <= f
            < parts[k].1 implies j == k by {
        if j < k {
            lemma_parts_ordered(parts, j, k);
        } else if k < j {
            lemma_parts_ordered(parts, k, j);
        }
    }
}

/// The parts a recording of frames of the given sizes is muxed into: none without
/// frames, else the split of `splits`.
pub fn recording_parts(sizes: &Vec<u32>) -> (r: Vec<(usize, usize)>)
    ensures
        sizes@.len() == 0 ==> r@.len() == 0,
        sizes@.len() > 0 ==> splits(sizes@, r@),
{
    if sizes.len() == 0 {
        Vec::new()
    } else {
        split_parts(sizes)
    }
}

/// `n` in decimal, padded with zeros to at least three digits.
pub open spec fn three_digits(n: nat) -> Seq<char> {
    if n < 10 {
        seq!['0', '0'] + decimal(n)
    } else if n < 100 {
        seq!['0'] + decimal(n)
    } else {
        decimal(n)
    }
}

/// The file name of part `idx` of a recording muxed into `num_parts` files:
/// `output.avi` for a single file, else `output_001.avi`, `output_002.avi`, ...
pub open spec fn part_file_name(num_parts: nat, idx: nat) -> Seq<char> {
    if num_parts == 1 {
        "output.avi"@
    } else {
        "output_"@ + three_digits(idx + 1) + ".avi"@
    }
}

/// The file name of part `idx` of a recording muxed into `num_parts` files.
pub fn avi_part_name(num_parts: usize, idx: usize) -> (r: String)
    requires
        idx < num_parts,
    ensures
        r@ == part_file_name(num_parts as nat, idx as nat),
{
    proof {
        reveal_strlit("output.avi");
        reveal_strlit("output_");
        reveal_strlit(".avi");
    }
    if num_parts == 1 {
        return String::from_str("output.avi");
    }
    let n = (idx + 1) as u64;
    let mut name = String::from_str("output_");
    if n < 10 {
        push_char(&mut name, '0');
        push_char(&mut name, '0');
    } else if n < 100 {
        push_char(&mut name, '0');
    }
    push_decimal(&mut name, n);
    name.append(".avi");
    proof {
        assert(name@ =~= part_file_name(num_parts as nat, idx as nat));
    }
    name
}

} // verus!
