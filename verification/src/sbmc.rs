//! The `.sbmc` cache file format.
//!
//! | Offset | Size | Field |
//! |--------|------|-------|
//! | 0 | 8 | Magic `SBMCDKCF` |
//! | 8 | 4 | Version (u32 LE) |
//! | 12 | 8 | Source mtime (i64 LE, unix seconds) |
//! | 20 | 4 | Frame count (u32 LE) |
//! | 24+ | per frame | width, height, delay numerator, delay denominator, data length (u32 LE each), BGRA pixels |

use vstd::prelude::*;
use vstd::bytes::*;
use crate::frame_list::CacheFrameList;

verus! {

/// Two's-complement bit pattern of an `i64`, as an unsigned value.
pub open spec fn i64_bits(v: i64) -> u64 {
    if v >= 0 {
        v as u64
    } else {
        (v + 0x1_0000_0000_0000_0000int) as u64
    }
}

/// The `i64` whose two's-complement bit pattern is `u`.
pub open spec fn i64_from_bits(u: u64) -> i64 {
    if u < 0x8000_0000_0000_0000u64 {
        u as i64
    } else {
        (u - 0x1_0000_0000_0000_0000int) as i64
    }
}

/// Little-endian encoding of an `i64`.
pub open spec fn spec_i64_to_le_bytes(v: i64) -> Seq<u8> {
    spec_u64_to_le_bytes(i64_bits(v))
}

/// Little-endian decoding of an `i64` from 8 bytes.
pub open spec fn spec_i64_from_le_bytes(s: Seq<u8>) -> i64 {
    i64_from_bits(spec_u64_from_le_bytes(s))
}

/// Reading back the bit pattern of an `i64` gives the same `i64`.
pub proof fn lemma_i64_bits_roundtrip(v: i64)
    ensures
        i64_from_bits(i64_bits(v)) == v,
{
}

fn i64_to_bits(v: i64) -> (u: u64)
    ensures
        u == i64_bits(v),
{
    if v >= 0 {
        v as u64
    } else {
        let shifted: i64 = v - i64::MIN;
        (shifted as u64) + 0x8000_0000_0000_0000u64
    }
}

fn bits_to_i64(u: u64) -> (v: i64)
    ensures
        v == i64_from_bits(u),
{
    if u < 0x8000_0000_0000_0000u64 {
        u as i64
    } else {
        let low: u64 = u - 0x8000_0000_0000_0000u64;
        (low as i64) + i64::MIN
    }
}

/// Appends the little-endian bytes of `v` to `w`.
pub fn write_u32_le(w: &mut Vec<u8>, v: u32)
    ensures
        final(w)@ == old(w)@ + spec_u32_to_le_bytes(v),
{
    let mut b = u32_to_le_bytes(v);
    w.append(&mut b);
}

/// Appends the little-endian two's-complement bytes of `v` to `w`.
pub fn write_i64_le(w: &mut Vec<u8>, v: i64)
    ensures
        final(w)@ == old(w)@ + spec_i64_to_le_bytes(v),
{
    let mut b = u64_to_le_bytes(i64_to_bits(v));
    w.append(&mut b);
}


/// Why a cache file could not be read.
#[derive(Debug, Clone, Copy, PartialEq, Eq, Structural)]
pub enum CacheError {
    /// The data ended before a field was complete.
    UnexpectedEof,
    /// The file does not start with the `.sbmc` magic.
    BadMagic,
    /// The file was written with another format version.
    UnsupportedVersion,
    /// A frame's pixel data is too short for its width and height.
    BadFrame { width: u32, height: u32 },
}

/// A cursor over in-memory bytes, in place of a byte stream.
pub struct ByteReader<'a> {
    data: &'a [u8],
    pos: usize,
}

impl<'a> ByteReader<'a> {
    /// All the bytes that the reader reads from.
    pub closed spec fn data(&self) -> Seq<u8> {
        self.data@
    }

    /// How many bytes have been consumed.
    pub closed spec fn pos(&self) -> int {
        self.pos as int
    }

    pub closed spec fn wf(&self) -> bool {
        self.pos <= self.data@.len()
    }

    /// A reader positioned at the start of `data`.
    pub fn new(data: &'a [u8]) -> (r: Self)
        ensures
            r.wf(),
            r.data() == data@,
            r.pos() == 0,
    {
        ByteReader { data, pos: 0 }
    }

    /// The number of bytes consumed so far.
    pub fn position(&self) -> (p: usize)
        ensures
            p == self.pos(),
    {
        self.pos
    }

    /// Consumes exactly `n` bytes, or nothing when fewer than `n` are left.
    pub fn read_exact(&mut self, n: usize) -> (r: Result<&'a [u8], CacheError>)
        requires
            old(self).wf(),
        ensures
            final(self).wf(),
            final(self).data() == old(self).data(),
            old(self).pos() + n <= old(self).data().len() ==> {
                &&& r matches Ok(s)
                &&& s@ == old(self).data().subrange(old(self).pos(), old(self).pos() + n)
                &&& final(self).pos() == old(self).pos() + n
            },
            old(self).pos() + n > old(self).data().len() ==> {
                &&& r == Err::<&[u8], CacheError>(CacheError::UnexpectedEof)
                &&& final(self).pos() == old(self).pos()
            },
    {
        if n <= self.data.len() - self.pos {
            let start = self.pos;
            let s = vstd::slice::slice_subrange(self.data, start, start + n);
            self.pos = start + n;
            Ok(s)
        } else {
            Err(CacheError::UnexpectedEof)
        }
    }
}

/// Reads a little-endian `u32`.
pub fn read_u32_le(r: &mut ByteReader) -> (v: Result<u32, CacheError>)
    requires
        old(r).wf(),
    ensures
        final(r).wf(),
        final(r).data() == old(r).data(),
        old(r).pos() + 4 <= old(r).data().len() ==> {
            &&& v == Ok::<u32, CacheError>(
                spec_u32_from_le_bytes(old(r).data().subrange(old(r).pos(), old(r).pos() + 4)),
            )
            &&& final(r).pos() == old(r).pos() + 4
        },
        old(r).pos() + 4 > old(r).data().len() ==> {
            &&& v == Err::<u32, CacheError>(CacheError::UnexpectedEof)
            &&& final(r).pos() == old(r).pos()
        },
{
    let b = r.read_exact(4)?;
    Ok(u32_from_le_bytes(b))
}

/// Reads a little-endian two's-complement `i64`.
pub fn read_i64_le(r: &mut ByteReader) -> (v: Result<i64, CacheError>)
    requires
        old(r).wf(),
    ensures
        final(r).wf(),
        final(r).data() == old(r).data(),
        old(r).pos() + 8 <= old(r).data().len() ==> {
            &&& v == Ok::<i64, CacheError>(
                spec_i64_from_le_bytes(old(r).data().subrange(old(r).pos(), old(r).pos() + 8)),
            )
            &&& final(r).pos() == old(r).pos() + 8
        },
        old(r).pos() + 8 > old(r).data().len() ==> {
            &&& v == Err::<i64, CacheError>(CacheError::UnexpectedEof)
            &&& final(r).pos() == old(r).pos()
        },
{
    let b = r.read_exact(8)?;
    Ok(bits_to_i64(u64_from_le_bytes(b)))
}


/// The first eight bytes of every cache file: `SBMCDKCF`.
pub const CACHE_MAGIC: [u8; 8] = [0x53, 0x42, 0x4d, 0x43, 0x44, 0x4b, 0x43, 0x46];

/// The format version that this library writes and accepts.
pub const CACHE_VERSION: u32 = 1;

pub open spec fn magic_bytes() -> Seq<u8> {
    seq![0x53u8, 0x42u8, 0x4du8, 0x43u8, 0x44u8, 0x4bu8, 0x43u8, 0x46u8]
}

/// Whether image's `ImageBuffer::<Rgba<u8>, _>::from_raw(width, height, buf)` accepts a
/// buffer of `len` bytes: four channels per pixel, sizes computed without overflow in `usize`.
pub open spec fn rgba_buffer_fits(width: u32, height: u32, len: nat) -> bool {
    &&& 4 * width <= usize::MAX
    &&& 4 * width * height <= usize::MAX
    &&& 4 * width * height <= len
}

/// Calls `image::ImageBuffer::<Rgba<u8>, Vec<u8>>::from_raw`, and hands the buffer back.
/// The image crate's source returns `Some` exactly when `4 * width * height` (computed with
/// checked multiplication in `usize`) is at most the buffer's length, and keeps the buffer
/// as it is.
#[verifier::external_body]
fn rgba_from_raw(width: u32, height: u32, pixels: Vec<u8>) -> (r: Option<Vec<u8>>)
    ensures
        r is Some <==> rgba_buffer_fits(width, height, pixels@.len()),
        r matches Some(p) ==> p@ == pixels@,
{
    image::ImageBuffer::<image::Rgba<u8>, Vec<u8>>::from_raw(width, height, pixels).map(
        |b| b.into_raw(),
    )
}

/// The mathematical content of one cached frame.
pub struct FrameModel {
    pub width: u32,
    pub height: u32,
    pub delay_numer: u32,
    pub delay_denom: u32,
    pub pixels: Seq<u8>,
}

/// One frame as stored in, and read back from, a cache file: BGRA pixels plus the
/// frame delay in milliseconds as a fraction.
pub struct CacheFrame {
    pub width: u32,
    pub height: u32,
    pub delay_numer: u32,
    pub delay_denom: u32,
    pub pixels: Vec<u8>,
}

impl View for CacheFrame {
    type V = FrameModel;

    open spec fn view(&self) -> FrameModel {
        FrameModel {
            width: self.width,
            height: self.height,
            delay_numer: self.delay_numer,
            delay_denom: self.delay_denom,
            pixels: self.pixels@,
        }
    }
}

/// One frame of a decoded image as the renderer reports it: signed pixel sizes, the
/// delay fraction, and the raw bytes if the renderer has them.
pub struct RenderFrame {
    pub width: i32,
    pub height: i32,
    pub delay_numer: u32,
    pub delay_denom: u32,
    pub bytes: Option<Vec<u8>>,
}

/// A negative size is clamped to zero before it is stored.
pub open spec fn clamp_dimension(d: i32) -> u32 {
    if d < 0 {
        0
    } else {
        d as u32
    }
}

impl RenderFrame {
    /// What the cache stores for this frame: clamped sizes, and no pixels when the
    /// renderer has no bytes.
    pub open spec fn stored(&self) -> FrameModel {
        FrameModel {
            width: clamp_dimension(self.width),
            height: clamp_dimension(self.height),
            delay_numer: self.delay_numer,
            delay_denom: self.delay_denom,
            pixels: match self.bytes {
                Some(b) => b@,
                None => Seq::<u8>::empty(),
            },
        }
    }
}

pub open spec fn stored_frames(frames: Seq<RenderFrame>) -> Seq<FrameModel> {
    frames.map_values(|f: RenderFrame| f.stored())
}

pub open spec fn frame_views(frames: Seq<CacheFrame>) -> Seq<FrameModel> {
    frames.map_values(|f: CacheFrame| f@)
}

/// The bytes of one frame record.
pub open spec fn encode_frame(f: FrameModel) -> Seq<u8> {
    spec_u32_to_le_bytes(f.width) + spec_u32_to_le_bytes(f.height) + spec_u32_to_le_bytes(
        f.delay_numer,
    ) + spec_u32_to_le_bytes(f.delay_denom) + spec_u32_to_le_bytes(f.pixels.len() as u32)
        + f.pixels
}

/// The bytes of consecutive frame records.
pub open spec fn encode_frames(fs: Seq<FrameModel>) -> Seq<u8>
    decreases fs.len(),
{
    if fs.len() == 0 {
        Seq::<u8>::empty()
    } else {
        encode_frames(fs.drop_last()) + encode_frame(fs.last())
    }
}

/// The bytes of a whole cache file.
pub open spec fn encode_cache(mtime: i64, fs: Seq<FrameModel>) -> Seq<u8> {
    magic_bytes() + spec_u32_to_le_bytes(CACHE_VERSION) + spec_i64_to_le_bytes(mtime)
        + spec_u32_to_le_bytes(fs.len() as u32) + encode_frames(fs)
}

fn clamp_to_u32(d: i32) -> (r: u32)
    ensures
        r == clamp_dimension(d),
{
    if d < 0 {
        0
    } else {
        d as u32
    }
}

/// Serializes a decoded image into `.sbmc` bytes. The stored mtime is that of the
/// source, or 0 when it is unknown.
pub fn write_cache(source_mtime: Option<i64>, frames: &[RenderFrame]) -> (out: Vec<u8>)
    ensures
        out@ == encode_cache(
            match source_mtime {
                Some(m) => m,
                None => 0,
            },
            stored_frames(frames@),
        ),
{
    let mtime = match source_mtime {
        Some(m) => m,
        None => 0,
    };
    let mut w: Vec<u8> = Vec::new();
    let mut i: usize = 0;
    while i < 8
        invariant
            0 <= i <= 8,
            w@ == magic_bytes().take(i as int),
        decreases 8 - i,
    {
        w.push(CACHE_MAGIC[i]);
        i = i + 1;
        assert(w@ =~= magic_bytes().take(i as int));
    }
    write_u32_le(&mut w, CACHE_VERSION);
    write_i64_le(&mut w, mtime);
    write_u32_le(&mut w, frames.len() as u32);
    let ghost header = w@;
    let mut fi: usize = 0;
    while fi < frames.len()
        invariant
            0 <= fi <= frames@.len(),
            header == magic_bytes() + spec_u32_to_le_bytes(CACHE_VERSION) + spec_i64_to_le_bytes(
                mtime,
            ) + spec_u32_to_le_bytes(frames@.len() as u32),
            w@ == header + encode_frames(stored_frames(frames@).take(fi as int)),
        decreases frames@.len() - fi,
    {
        let f = &frames[fi];
        write_u32_le(&mut w, clamp_to_u32(f.width));
        write_u32_le(&mut w, clamp_to_u32(f.height));
        write_u32_le(&mut w, f.delay_numer);
        write_u32_le(&mut w, f.delay_denom);
        match &f.bytes {
            Some(b) => {
                write_u32_le(&mut w, b.len() as u32);
                w.extend_from_slice(b.as_slice());
            },
            None => {
                write_u32_le(&mut w, 0);
            },
        }
        proof {
            let s = stored_frames(frames@);
            assert(s.take(fi + 1).drop_last() =~= s.take(fi as int));
            assert(s.take(fi + 1).last() == frames@[fi as int].stored());
        }
        assert(w@ =~= header + encode_frames(stored_frames(frames@).take(fi + 1)));
        fi = fi + 1;
    }
    assert(stored_frames(frames@).take(frames@.len() as int) =~= stored_frames(frames@));
    w
}


/// The little-endian `u32` at `pos`.
pub open spec fn u32_at(b: Seq<u8>, pos: int) -> u32 {
    spec_u32_from_le_bytes(b.subrange(pos, pos + 4))
}

/// The little-endian `i64` at `pos`.
pub open spec fn i64_at(b: Seq<u8>, pos: int) -> i64 {
    spec_i64_from_le_bytes(b.subrange(pos, pos + 8))
}

/// Reads one frame record starting at `pos`: the frame and the position after it.
pub open spec fn parse_frame(b: Seq<u8>, pos: int) -> Result<(FrameModel, int), CacheError> {
    if pos + 20 > b.len() {
        Err(CacheError::UnexpectedEof)
    } else {
        let w = u32_at(b, pos);
        let h = u32_at(b, pos + 4);
        let dn = u32_at(b, pos + 8);
        let dd = u32_at(b, pos + 12);
        let n = u32_at(b, pos + 16);
        if pos + 20 + n > b.len() {
            Err(CacheError::UnexpectedEof)
        } else if !rgba_buffer_fits(w, h, n as nat) {
            Err(CacheError::BadFrame { width: w, height: h })
        } else {
            Ok(
                (
                    FrameModel {
                        width: w,
                        height: h,
                        delay_numer: dn,
                        delay_denom: dd,
                        pixels: b.subrange(pos + 20, pos + 20 + n),
                    },
                    pos + 20 + n,
                ),
            )
        }
    }
}

/// Reads `count` consecutive frame records starting at `pos`.
pub open spec fn parse_frames(b: Seq<u8>, pos: int, count: nat) -> Result<
    (Seq<FrameModel>, int),
    CacheError,
>
    decreases count,
{
    if count == 0 {
        Ok((Seq::<FrameModel>::empty(), pos))
    } else {
        match parse_frames(b, pos, (count - 1) as nat) {
            Err(e) => Err(e),
            Ok((fs, p)) => match parse_frame(b, p) {
                Err(e) => Err(e),
                Ok((f, q)) => Ok((fs.push(f), q)),
            },
        }
    }
}

/// What reading the cache file `b` gives: an error for damaged data, `None` for a file
/// written for another version of the source (a different mtime, or an unknown one),
/// otherwise the frames.
pub open spec fn parse_cache(b: Seq<u8>, source_mtime: Option<i64>) -> Result<
    Option<Seq<FrameModel>>,
    CacheError,
> {
    if b.len() < 8 {
        Err(CacheError::UnexpectedEof)
    } else if b.subrange(0, 8) != magic_bytes() {
        Err(CacheError::BadMagic)
    } else if b.len() < 12 {
        Err(CacheError::UnexpectedEof)
    } else if u32_at(b, 8) != CACHE_VERSION {
        Err(CacheError::UnsupportedVersion)
    } else if b.len() < 20 {
        Err(CacheError::UnexpectedEof)
    } else if source_mtime != Some(i64_at(b, 12)) {
        Ok(None)
    } else if b.len() < 24 {
        Err(CacheError::UnexpectedEof)
    } else {
        match parse_frames(b, 24, u32_at(b, 20) as nat) {
            Err(e) => Err(e),
            Ok((fs, _)) => Ok(Some(fs)),
        }
    }
}

/// Once reading some frame fails, reading more frames fails the same way.
proof fn lemma_parse_frames_error_sticks(b: Seq<u8>, pos: int, k: nat, n: nat)
    requires
        k <= n,
        parse_frames(b, pos, k) is Err,
    ensures
        parse_frames(b, pos, n) == parse_frames(b, pos, k),
    decreases n - k,
{
    if k < n {
        lemma_parse_frames_error_sticks(b, pos, k, (n - 1) as nat);
    }
}

/// Reads one frame record.
fn read_frame(r: &mut ByteReader) -> (res: Result<CacheFrame, CacheError>)
    requires
        old(r).wf(),
    ensures
        final(r).wf(),
        final(r).data() == old(r).data(),
        match parse_frame(old(r).data(), old(r).pos()) {
            Err(e) => res == Err::<CacheFrame, CacheError>(e),
            Ok((f, q)) => res matches Ok(cf) && cf@ == f && final(r).pos() == q,
        },
{
    let ghost b = r.data();
    let ghost p = r.pos();
    let w = read_u32_le(r)?;
    let h = read_u32_le(r)?;
    let dn = read_u32_le(r)?;
    let dd = read_u32_le(r)?;
    let len = read_u32_le(r)?;
    assert(b.subrange(p, p + 4) =~= b.subrange(p, p + 20).subrange(0, 4));
    let len_usize = len as usize;
    let s = r.read_exact(len_usize)?;
    let mut pixels: Vec<u8> = Vec::new();
    pixels.extend_from_slice(s);
    assert(pixels@ =~= b.subrange(p + 20, p + 20 + len));
    match rgba_from_raw(w, h, pixels) {
        Some(pixels) => Ok(
            CacheFrame { width: w, height: h, delay_numer: dn, delay_denom: dd, pixels },
        ),
        None => Err(CacheError::BadFrame { width: w, height: h }),
    }
}

/// Parses `.sbmc` bytes. `source_mtime` is the modification time of the image that the
/// cache was made from, if it can be read; a cache for another mtime is stale (`Ok(None)`).
pub fn read_cache(bytes: &[u8], source_mtime: Option<i64>) -> (res: Result<
    Option<CacheFrameList>,
    CacheError,
>)
    ensures
        match parse_cache(bytes@, source_mtime) {
            Err(e) => res == Err::<Option<CacheFrameList>, CacheError>(e),
            Ok(None) => res matches Ok(None),
            Ok(Some(fs)) => res matches Ok(Some(v)) && v.items() == fs,
        },
{
    let ghost b = bytes@;
    let mut r = ByteReader::new(bytes);
    let magic = r.read_exact(8)?;
    let mut i: usize = 0;
    while i < 8
        invariant
            0 <= i <= 8,
            magic@.len() == 8,
            b.len() >= 8,
            b == bytes@,
            magic@ == b.subrange(0, 8),
            forall|j: int| 0 <= j < i ==> magic@[j] == magic_bytes()[j],
        decreases 8 - i,
    {
        if magic[i] != CACHE_MAGIC[i] {
            assert(b.subrange(0, 8)[i as int] != magic_bytes()[i as int]);
            assert(b.subrange(0, 8) != magic_bytes());
            return Err(CacheError::BadMagic);
        }
        i = i + 1;
    }
    assert(magic@ =~= magic_bytes());
    let ver = read_u32_le(&mut r)?;
    if ver != CACHE_VERSION {
        return Err(CacheError::UnsupportedVersion);
    }
    let cached_mtime = read_i64_le(&mut r)?;
    match source_mtime {
        Some(m) => {
            if m != cached_mtime {
                return Ok(None);
            }
        },
        None => {
            return Ok(None);
        },
    }
    let frame_count = read_u32_le(&mut r)?;
    assert(parse_cache(b, source_mtime) == match parse_frames(b, 24, frame_count as nat) {
        Err(e) => Err(e),
        Ok((fs, _)) => Ok(Some(fs)),
    });
    let mut frames = CacheFrameList::empty();
    let mut k: u32 = 0;
    while k < frame_count
        invariant
            0 <= k <= frame_count,
            r.wf(),
            r.data() == b,
            b == bytes@,
            parse_frames(b, 24, k as nat) matches Ok((fs, q)) && fs == frames.items()
                && q == r.pos(),
            frames.items().len() == k,
            frame_count == u32_at(b, 20),
            parse_cache(b, source_mtime) == match parse_frames(b, 24, frame_count as nat) {
                Err(e) => Err(e),
                Ok((fs, _)) => Ok(Some(fs)),
            },
        decreases frame_count - k,
    {
        let fr = read_frame(&mut r);
        let f = match fr {
            Ok(f) => f,
            Err(e) => {
                proof {
                    lemma_parse_frames_error_sticks(b, 24, (k + 1) as nat, frame_count as nat);
                }
                return Err(e);
            },
        };
        frames.push_frame(f);
        k = k + 1;
    }
    Ok(Some(frames))
}


proof fn lemma_u32_at(b: Seq<u8>, p: int, v: u32)
    requires
        0 <= p,
        p + 4 <= b.len(),
        b.subrange(p, p + 4) == spec_u32_to_le_bytes(v),
    ensures
        u32_at(b, p) == v,
{
    lemma_auto_spec_u32_to_from_le_bytes();
    assert(spec_u32_to_le_bytes(v).len() == 4);
}

proof fn lemma_i64_at(b: Seq<u8>, p: int, v: i64)
    requires
        0 <= p,
        p + 8 <= b.len(),
        b.subrange(p, p + 8) == spec_i64_to_le_bytes(v),
    ensures
        i64_at(b, p) == v,
{
    lemma_auto_spec_u64_to_from_le_bytes();
    assert(spec_u64_from_le_bytes(spec_u64_to_le_bytes(i64_bits(v))) == i64_bits(v));
    lemma_i64_bits_roundtrip(v);
}

/// A frame whose record can be read back as it was written.
pub open spec fn frame_storable(f: FrameModel) -> bool {
    &&& f.pixels.len() <= u32::MAX
    &&& rgba_buffer_fits(f.width, f.height, f.pixels.len())
}

proof fn lemma_parse_encoded_frame(b: Seq<u8>, p: int, f: FrameModel)
    requires
        0 <= p,
        p + encode_frame(f).len() <= b.len(),
        b.subrange(p, p + encode_frame(f).len()) == encode_frame(f),
        frame_storable(f),
    ensures
        parse_frame(b, p) == Ok::<(FrameModel, int), CacheError>((f, p + encode_frame(f).len())),
{
    lemma_auto_spec_u32_to_from_le_bytes();
    let e = encode_frame(f);
    let n = f.pixels.len();
    assert(e.len() == 20 + n);
    assert(b.subrange(p, p + 4) =~= e.subrange(0, 4));
    assert(e.subrange(0, 4) =~= spec_u32_to_le_bytes(f.width));
    lemma_u32_at(b, p, f.width);
    assert(b.subrange(p + 4, p + 8) =~= e.subrange(4, 8));
    assert(e.subrange(4, 8) =~= spec_u32_to_le_bytes(f.height));
    lemma_u32_at(b, p + 4, f.height);
    assert(b.subrange(p + 8, p + 12) =~= e.subrange(8, 12));
    assert(e.subrange(8, 12) =~= spec_u32_to_le_bytes(f.delay_numer));
    lemma_u32_at(b, p + 8, f.delay_numer);
    assert(b.subrange(p + 12, p + 16) =~= e.subrange(12, 16));
    assert(e.subrange(12, 16) =~= spec_u32_to_le_bytes(f.delay_denom));
    lemma_u32_at(b, p + 12, f.delay_denom);
    assert(b.subrange(p + 16, p + 20) =~= e.subrange(16, 20));
    assert(e.subrange(16, 20) =~= spec_u32_to_le_bytes(n as u32));
    lemma_u32_at(b, p + 16, n as u32);
    assert(b.subrange(p + 20, p + 20 + n) =~= e.subrange(20, 20 + n as int));
    assert(e.subrange(20, 20 + n as int) =~= f.pixels);
}

proof fn lemma_parse_encoded_frames(b: Seq<u8>, p: int, fs: Seq<FrameModel>)
    requires
        0 <= p,
        p + encode_frames(fs).len() <= b.len(),
        b.subrange(p, p + encode_frames(fs).len()) == encode_frames(fs),
        forall|i: int| 0 <= i < fs.len() ==> #[trigger] frame_storable(fs[i]),
    ensures
        parse_frames(b, p, fs.len()) == Ok::<(Seq<FrameModel>, int), CacheError>(
            (fs, p + encode_frames(fs).len()),
        ),
    decreases fs.len(),
{
    if fs.len() > 0 {
        let init = fs.drop_last();
        let ei = encode_frames(init);
        let el = encode_frame(fs.last());
        assert(encode_frames(fs) == ei + el);
        assert(b.subrange(p, p + ei.len()) =~= encode_frames(fs).subrange(0, ei.len() as int));
        assert(encode_frames(fs).subrange(0, ei.len() as int) =~= ei);
        assert forall|i: int| 0 <= i < init.len() implies #[trigger] frame_storable(init[i]) by {
            assert(init[i] == fs[i]);
        }
        lemma_parse_encoded_frames(b, p, init);
        let q = p + ei.len();
        assert(b.subrange(q, q + el.len()) =~= encode_frames(fs).subrange(
            ei.len() as int,
            encode_frames(fs).len() as int,
        ));
        assert(encode_frames(fs).subrange(ei.len() as int, encode_frames(fs).len() as int) =~= el);
        assert(frame_storable(fs[fs.len() - 1]));
        lemma_parse_encoded_frame(b, q, fs.last());
        assert(init.push(fs.last()) =~= fs);
    } else {
        assert(fs =~= Seq::<FrameModel>::empty());
    }
}

/// What loading an image does with its cache file after trying to read it.
#[derive(Debug, Clone, Copy, PartialEq, Eq, Structural)]
pub enum CacheDecision {
    /// The cached frames are current: they are shown.
    Use,
    /// The cache is stale: the source is decoded and the file written anew.
    Decode,
    /// The file could not be read or parsed: it is removed, then the source is decoded.
    RemoveAndDecode,
}

/// The decision for a cache file: `read` is `None` when the file could not be read, else
/// what `read_cache` made of its bytes.
pub fn cache_decision(read: &Option<Result<Option<CacheFrameList>, CacheError>>) -> (d:
    CacheDecision)
    ensures
        d == match read {
            Some(Ok(Some(_))) => CacheDecision::Use,
            Some(Ok(None)) => CacheDecision::Decode,
            _ => CacheDecision::RemoveAndDecode,
        },
{
    match read {
        Some(Ok(Some(_))) => CacheDecision::Use,
        Some(Ok(None)) => CacheDecision::Decode,
        _ => CacheDecision::RemoveAndDecode,
    }
}

/// Reading a cache file gives back the frames that were written into it, as long as the
/// source's mtime is the one that was written, there are at most `u32::MAX` frames, and
/// each frame's pixel data has at most `u32::MAX` bytes and covers its width and height.
pub proof fn lemma_cache_roundtrip(mtime: i64, fs: Seq<FrameModel>)
    requires
        fs.len() <= u32::MAX,
        forall|i: int| 0 <= i < fs.len() ==> #[trigger] frame_storable(fs[i]),
    ensures
        parse_cache(encode_cache(mtime, fs), Some(mtime)) == Ok::<
            Option<Seq<FrameModel>>,
            CacheError,
        >(Some(fs)),
{
    lemma_auto_spec_u32_to_from_le_bytes();
    lemma_auto_spec_u64_to_from_le_bytes();
    let b = encode_cache(mtime, fs);
    let ef = encode_frames(fs);
    assert(b.len() == 24 + ef.len());
    assert(b.subrange(0, 8) =~= magic_bytes());
    assert(b.subrange(8, 12) =~= spec_u32_to_le_bytes(CACHE_VERSION));
    lemma_u32_at(b, 8, CACHE_VERSION);
    assert(b.subrange(12, 20) =~= spec_i64_to_le_bytes(mtime));
    lemma_i64_at(b, 12, mtime);
    lemma_i64_bits_roundtrip(mtime);
    assert(b.subrange(20, 24) =~= spec_u32_to_le_bytes(fs.len() as u32));
    lemma_u32_at(b, 20, fs.len() as u32);
    assert(b.subrange(24, 24 + ef.len() as int) =~= ef);
    lemma_parse_encoded_frames(b, 24, fs);
}

/// A cache file is stale for any other source mtime, and when the source's mtime cannot
/// be read: reading it gives `Ok(None)`.
pub proof fn lemma_cache_stale(mtime: i64, fs: Seq<FrameModel>, source_mtime: Option<i64>)
    requires
        source_mtime != Some(mtime),
    ensures
        parse_cache(encode_cache(mtime, fs), source_mtime) == Ok::<
            Option<Seq<FrameModel>>,
            CacheError,
        >(None),
{
    lemma_auto_spec_u32_to_from_le_bytes();
    lemma_auto_spec_u64_to_from_le_bytes();
    let b = encode_cache(mtime, fs);
    assert(b.subrange(0, 8) =~= magic_bytes());
    assert(b.subrange(8, 12) =~= spec_u32_to_le_bytes(CACHE_VERSION));
    lemma_u32_at(b, 8, CACHE_VERSION);
    assert(b.subrange(12, 20) =~= spec_i64_to_le_bytes(mtime));
    lemma_i64_at(b, 12, mtime);
    lemma_i64_bits_roundtrip(mtime);
}


proof fn lemma_u32_bytes(b: Seq<u8>, p: int)
    requires
        0 <= p,
        p + 4 <= b.len(),
    ensures
        b.subrange(p, p + 4) == spec_u32_to_le_bytes(u32_at(b, p)),
{
    lemma_auto_spec_u32_to_from_le_bytes();
    assert(b.subrange(p, p + 4).len() == 4);
}

proof fn lemma_read_frame_is_encoded(b: Seq<u8>, p: int)
    requires
        0 <= p,
        parse_frame(b, p) is Ok,
    ensures
        ({
            let (f, q) = parse_frame(b, p)->Ok_0;
            &&& q == p + encode_frame(f).len()
            &&& q <= b.len()
            &&& b.subrange(p, q) == encode_frame(f)
            &&& frame_storable(f)
        }),
{
    let (f, q) = parse_frame(b, p)->Ok_0;
    lemma_u32_bytes(b, p);
    lemma_u32_bytes(b, p + 4);
    lemma_u32_bytes(b, p + 8);
    lemma_u32_bytes(b, p + 12);
    lemma_u32_bytes(b, p + 16);
    let e = encode_frame(f);
    assert(f.pixels.len() == u32_at(b, p + 16));
    assert(f.pixels.len() as u32 == u32_at(b, p + 16));
    assert forall|k: int| 0 <= k < e.len() implies #[trigger] b.subrange(p, q)[k] == e[k] by {
        if k < 4 {
            assert(b.subrange(p, p + 4)[k] == b[p + k]);
        } else if k < 8 {
            assert(b.subrange(p + 4, p + 8)[k - 4] == b[p + k]);
        } else if k < 12 {
            assert(b.subrange(p + 8, p + 12)[k - 8] == b[p + k]);
        } else if k < 16 {
            assert(b.subrange(p + 12, p + 16)[k - 12] == b[p + k]);
        } else if k < 20 {
            assert(b.subrange(p + 16, p + 20)[k - 16] == b[p + k]);
        } else {
            assert(f.pixels[k - 20] == b[p + k]);
        }
    }
    assert(b.subrange(p, q) =~= e);
}

proof fn lemma_read_frames_are_encoded(b: Seq<u8>, p: int, count: nat)
    requires
        0 <= p <= b.len(),
        parse_frames(b, p, count) is Ok,
    ensures
        ({
            let (fs, q) = parse_frames(b, p, count)->Ok_0;
            &&& fs.len() == count
            &&& q == p + encode_frames(fs).len()
            &&& q <= b.len()
            &&& b.subrange(p, q) == encode_frames(fs)
            &&& forall|i: int| 0 <= i < fs.len() ==> #[trigger] frame_storable(fs[i])
        }),
    decreases count,
{
    if count == 0 {
        let (fs, q) = parse_frames(b, p, count)->Ok_0;
        assert(b.subrange(p, q) =~= encode_frames(fs));
    } else {
        lemma_read_frames_are_encoded(b, p, (count - 1) as nat);
        let (init, m) = parse_frames(b, p, (count - 1) as nat)->Ok_0;
        lemma_read_frame_is_encoded(b, m);
        let (f, q) = parse_frame(b, m)->Ok_0;
        let fs = init.push(f);
        assert(fs.drop_last() =~= init);
        assert(b.subrange(p, q) =~= b.subrange(p, m) + b.subrange(m, q));
        assert forall|i: int| 0 <= i < fs.len() implies #[trigger] frame_storable(fs[i]) by {
            if i < init.len() {
                assert(fs[i] == init[i]);
            }
        }
    }
}

/// Whatever a cache file is read as, the file starts with exactly what writing those
/// frames for that mtime produces: the reader accepts nothing but the writer's output
/// (followed by any bytes). The frames read can all be written back and read again.
pub proof fn lemma_cache_read_was_written(b: Seq<u8>, mtime: i64, fs: Seq<FrameModel>)
    requires
        parse_cache(b, Some(mtime)) == Ok::<Option<Seq<FrameModel>>, CacheError>(Some(fs)),
    ensures
        encode_cache(mtime, fs).is_prefix_of(b),
        fs.len() <= u32::MAX,
        forall|i: int| 0 <= i < fs.len() ==> #[trigger] frame_storable(fs[i]),
{
    lemma_auto_spec_u64_to_from_le_bytes();
    lemma_u32_bytes(b, 8);
    lemma_u32_bytes(b, 20);
    lemma_read_frames_are_encoded(b, 24, u32_at(b, 20) as nat);
    let (pf, q) = parse_frames(b, 24, u32_at(b, 20) as nat)->Ok_0;
    assert(pf == fs);
    let m = spec_u64_from_le_bytes(b.subrange(12, 20));
    assert(b.subrange(12, 20).len() == 8);
    assert(spec_u64_to_le_bytes(m) == b.subrange(12, 20));
    assert(i64_bits(i64_from_bits(m)) == m);
    let e = encode_cache(mtime, fs);
    assert(fs.len() as u32 == u32_at(b, 20));
    assert forall|k: int| 0 <= k < e.len() implies #[trigger] e[k] == b[k] by {
        if k < 8 {
            assert(b.subrange(0, 8)[k] == b[k]);
        } else if k < 12 {
            assert(b.subrange(8, 12)[k - 8] == b[k]);
        } else if k < 20 {
            assert(b.subrange(12, 20)[k - 12] == b[k]);
        } else if k < 24 {
            assert(b.subrange(20, 24)[k - 20] == b[k]);
        } else {
            assert(b.subrange(24, q)[k - 24] == b[k]);
        }
    }
}

} // verus!
