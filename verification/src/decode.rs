//! Decoding source images into BGRA frames, with the image crate doing the decoding.

use vstd::prelude::*;
use crate::pixels::{is_bgra_of, lemma_swap_red_blue_is_bgra, swap_red_blue, swap_red_blue_of};
use crate::frame_list::FrameList;
use image::AnimationDecoder;
use std::io::Cursor;

verus! {

#[verifier::external_type_specification]
#[verifier::external_body]
pub struct ExImageError(image::ImageError);

/// How the decoding of a source image is dispatched.
#[derive(Debug, Clone, Copy, PartialEq, Eq, Structural)]
pub enum ImageFormatKind {
    Gif,
    WebP,
    /// Any other format that the image crate recognises by its magic bytes.
    Other,
}

/// The content of one decoded frame.
pub struct FrameData {
    pub width: u32,
    pub height: u32,
    pub left: u32,
    pub top: u32,
    pub delay_numer: u32,
    pub delay_denom: u32,
    pub pixels: Seq<u8>,
}

/// One decoded frame: its size, its offset in the canvas, its delay in milliseconds as a
/// fraction, and its pixels.
pub struct DecodedFrame {
    pub width: u32,
    pub height: u32,
    pub left: u32,
    pub top: u32,
    pub delay_numer: u32,
    pub delay_denom: u32,
    pub pixels: Vec<u8>,
}

impl View for DecodedFrame {
    type V = FrameData;

    open spec fn view(&self) -> FrameData {
        FrameData {
            width: self.width,
            height: self.height,
            left: self.left,
            top: self.top,
            delay_numer: self.delay_numer,
            delay_denom: self.delay_denom,
            pixels: self.pixels@,
        }
    }
}

/// The content of a single decoded RGBA image.
pub struct RgbaData {
    pub width: u32,
    pub height: u32,
    pub pixels: Seq<u8>,
}

/// A single decoded image with RGBA pixels.
pub struct RgbaImage {
    pub width: u32,
    pub height: u32,
    pub pixels: Vec<u8>,
}

impl View for RgbaImage {
    type V = RgbaData;

    open spec fn view(&self) -> RgbaData {
        RgbaData { width: self.width, height: self.height, pixels: self.pixels@ }
    }
}

/// Why a source image could not be decoded.
pub enum DecodeError {
    /// The image crate refused the data.
    Image(image::ImageError),
    /// A GIF whose frames all failed to decode.
    NoGifFrames,
    /// An animated WebP whose frames all failed to decode.
    NoWebPFrames,
    /// The data starts with no magic bytes that the image crate knows.
    UnsupportedFormat,
}

/// What `image::load_from_memory_with_format` decodes from `bytes`, in the format that
/// `image::guess_format` names, converted to RGBA; `None` where it fails.
pub uninterp spec fn decoded_still_rgba(bytes: Seq<u8>) -> Option<RgbaData>;

/// Whether the image crate's GIF decoder can be created for `bytes` (it reads the header
/// and the global palette).
pub uninterp spec fn gif_decoder_opens(bytes: Seq<u8>) -> bool;

/// What the call at position `index` (from 0) of `next` on the frame iterator of the image
/// crate's GIF decoder yields for `bytes`, after the calls before it: `None` at the end of
/// the stream, `Some(None)` for a frame that fails, `Some(Some(f))` for a decoded frame.
pub uninterp spec fn gif_frame_at(bytes: Seq<u8>, index: nat) -> Option<Option<FrameData>>;

/// Whether the image crate's WebP decoder sees an animation in `bytes`; `None` where
/// the decoder cannot be created.
pub uninterp spec fn decoded_webp_animated(bytes: Seq<u8>) -> Option<bool>;

/// The frames of an animated WebP as the image crate's decoder yields them over a
/// transparent background, `None` for each frame that fails; `None` as a whole where the
/// decoder cannot be created.
pub uninterp spec fn decoded_webp_frames(bytes: Seq<u8>) -> Option<Seq<Option<FrameData>>>;

/// A still WebP as the image crate decodes it, converted to RGBA; `None` where it fails.
pub uninterp spec fn decoded_webp_still(bytes: Seq<u8>) -> Option<RgbaData>;

/// `s` starts with the bytes of `prefix`.
pub open spec fn starts_with(s: Seq<u8>, prefix: Seq<u8>) -> bool {
    prefix.len() <= s.len() && s.subrange(0, prefix.len() as int) == prefix
}

/// The GIF signatures `GIF89a` and `GIF87a`.
pub open spec fn has_gif_magic(s: Seq<u8>) -> bool {
    ||| starts_with(s, seq![0x47u8, 0x49u8, 0x46u8, 0x38u8, 0x39u8, 0x61u8])
    ||| starts_with(s, seq![0x47u8, 0x49u8, 0x46u8, 0x38u8, 0x37u8, 0x61u8])
}

/// The WebP signature: `RIFF`, four bytes of any value, then `WEBP`.
pub open spec fn has_webp_magic(s: Seq<u8>) -> bool {
    &&& s.len() >= 12
    &&& s.subrange(0, 4) == seq![0x52u8, 0x49u8, 0x46u8, 0x46u8]
    &&& s.subrange(8, 12) == seq![0x57u8, 0x45u8, 0x42u8, 0x50u8]
}

/// One of the signatures that `image::guess_format` recognises, in the order of its table:
/// PNG, JPEG, GIF, WebP, TIFF (both byte orders), DDS, BMP, ICO, Radiance HDR, AVIF,
/// OpenEXR, QOI, the seven PNM variants and farbfeld.
pub open spec fn has_image_magic(s: Seq<u8>) -> bool {
    ||| starts_with(s, seq![0x89u8, 0x50u8, 0x4Eu8, 0x47u8, 0x0Du8, 0x0Au8, 0x1Au8, 0x0Au8])
    ||| starts_with(s, seq![0xFFu8, 0xD8u8, 0xFFu8])
    ||| has_gif_magic(s)
    ||| has_webp_magic(s)
    ||| starts_with(s, seq![0x4Du8, 0x4Du8, 0x00u8, 0x2Au8])
    ||| starts_with(s, seq![0x49u8, 0x49u8, 0x2Au8, 0x00u8])
    ||| starts_with(s, seq![0x44u8, 0x44u8, 0x53u8, 0x20u8])
    ||| starts_with(s, seq![0x42u8, 0x4Du8])
    ||| starts_with(s, seq![0x00u8, 0x00u8, 0x01u8, 0x00u8])
    ||| starts_with(
        s,
        seq![0x23u8, 0x3Fu8, 0x52u8, 0x41u8, 0x44u8, 0x49u8, 0x41u8, 0x4Eu8, 0x43u8, 0x45u8],
    )
    ||| has_avif_magic(s)
    ||| starts_with(s, seq![0x76u8, 0x2Fu8, 0x31u8, 0x01u8])
    ||| starts_with(s, seq![0x71u8, 0x6Fu8, 0x69u8, 0x66u8])
    ||| (s.len() >= 2 && s[0] == 0x50u8 && 0x31u8 <= s[1] <= 0x37u8)
    ||| starts_with(s, seq![0x66u8, 0x61u8, 0x72u8, 0x62u8, 0x66u8, 0x65u8, 0x6Cu8, 0x64u8])
}

/// The AVIF signature: two zero bytes, two bytes of any value, then `ftypavif`.
pub open spec fn has_avif_magic(s: Seq<u8>) -> bool {
    &&& s.len() >= 12
    &&& s[0] == 0u8
    &&& s[1] == 0u8
    &&& s.subrange(4, 12) == seq![0x66u8, 0x74u8, 0x79u8, 0x70u8, 0x61u8, 0x76u8, 0x69u8, 0x66u8]
}

/// How `bytes` are decoded, by their signature: no signature known, GIF, WebP, or another
/// format.
pub open spec fn format_kind_of(bytes: Seq<u8>) -> Option<ImageFormatKind> {
    if has_gif_magic(bytes) {
        Some(ImageFormatKind::Gif)
    } else if has_webp_magic(bytes) {
        Some(ImageFormatKind::WebP)
    } else if has_image_magic(bytes) {
        Some(ImageFormatKind::Other)
    } else {
        None
    }
}

/// Calls `image::guess_format`. Its source tries a table of magic byte signatures in
/// order and fails where none matches; the PNG and JPEG entries before the GIF and WebP
/// ones cannot match data that starts with those, so the kind follows from the signature.
#[verifier::external_body]
fn guess_format_kind(bytes: &[u8]) -> (kind: Option<ImageFormatKind>)
    ensures
        kind == format_kind_of(bytes@),
{
    image::guess_format(bytes).ok().map(|f| match f {
        image::ImageFormat::Gif => ImageFormatKind::Gif,
        image::ImageFormat::WebP => ImageFormatKind::WebP,
        _ => ImageFormatKind::Other,
    })
}

/// Calls `image::load_from_memory_with_format` with the format that `image::guess_format`
/// names, and converts the result to RGBA (`into_rgba8`), which has four bytes per pixel.
#[verifier::external_body]
fn load_still_rgba(bytes: &[u8]) -> (img: Result<RgbaImage, image::ImageError>)
    ensures
        img is Ok <==> decoded_still_rgba(bytes@) is Some,
        img matches Ok(i) ==> decoded_still_rgba(bytes@) == Some(i@),
{
    let format = image::guess_format(bytes)?;
    let rgba = image::load_from_memory_with_format(bytes, format)?.into_rgba8();
    Ok(RgbaImage { width: rgba.width(), height: rgba.height(), pixels: rgba.into_raw() })
}

#[verifier::external_type_specification]
#[verifier::external_body]
pub struct ExFrames<'a>(image::Frames<'a>);

#[verifier::external_type_specification]
#[verifier::external_body]
pub struct ExFrame(image::Frame);

/// The frame iterator of a GIF decoder, with the bytes it reads and how many times `next`
/// has been called on it.
pub struct GifFrameCursor<'a> {
    frames: image::Frames<'a>,
    bytes: Ghost<Seq<u8>>,
    calls: Ghost<nat>,
}

impl<'a> GifFrameCursor<'a> {
    pub closed spec fn source(&self) -> Seq<u8> {
        self.bytes@
    }

    pub closed spec fn calls(&self) -> nat {
        self.calls@
    }
}

/// Calls `image::codecs::gif::GifDecoder::new` on `bytes` and `into_frames` on the decoder.
#[verifier::external_body]
fn open_gif<'a>(bytes: &'a [u8]) -> (cursor: Result<GifFrameCursor<'a>, image::ImageError>)
    ensures
        cursor is Ok <==> gif_decoder_opens(bytes@),
        cursor matches Ok(c) ==> c.source() == bytes@ && c.calls() == 0,
{
    let decoder = image::codecs::gif::GifDecoder::new(Cursor::new(bytes))?;
    Ok(GifFrameCursor { frames: decoder.into_frames(), bytes: Ghost(bytes@), calls: Ghost(0) })
}

/// Calls `next` on the GIF frame iterator and takes a decoded frame apart into size,
/// offset, delay and RGBA pixels. On a stream cut short after a frame header the iterator
/// yields an error on every call and never its end.
#[verifier::external_body]
fn next_gif_frame(cursor: &mut GifFrameCursor) -> (item: Option<Option<DecodedFrame>>)
    ensures
        final(cursor).source() == old(cursor).source(),
        final(cursor).calls() == old(cursor).calls() + 1,
        optional_item_view(item) == gif_frame_at(old(cursor).source(), old(cursor).calls()),
{
    let item = match cursor.frames.next() {
        None => None,
        Some(Err(_)) => Some(None),
        Some(Ok(f)) => {
            let (delay_numer, delay_denom) = f.delay().numer_denom_ms();
            let (left, top) = (f.left(), f.top());
            let b = f.into_buffer();
            let (width, height) = b.dimensions();
            Some(Some(DecodedFrame { width, height, left, top, delay_numer, delay_denom, pixels: b.into_raw() }))
        },
    };
    cursor.calls = Ghost(cursor.calls@ + 1);
    item
}

/// Calls `image::codecs::webp::WebPDecoder::new` and its `has_animation`. Creating the
/// decoder reads the `RIFF` chunk header and the `WEBP` signature and fails without them.
#[verifier::external_body]
fn webp_animated(bytes: &[u8]) -> (animated: Result<bool, image::ImageError>)
    ensures
        animated is Ok <==> decoded_webp_animated(bytes@) is Some,
        !has_webp_magic(bytes@) ==> animated is Err,
        animated matches Ok(a) ==> decoded_webp_animated(bytes@) == Some(a),
{
    Ok(image::codecs::webp::WebPDecoder::new(Cursor::new(bytes))?.has_animation())
}

/// Calls `image::codecs::webp::WebPDecoder::new`, sets a transparent background with
/// `set_background_color` (whose result is ignored), and collects the frames, each taken
/// apart into size, offset, delay and RGBA pixels.
#[verifier::external_body]
fn webp_frames(bytes: &[u8]) -> (frames: Result<Vec<Option<DecodedFrame>>, image::ImageError>)
    ensures
        frames is Ok <==> decoded_webp_frames(bytes@) is Some,
        !has_webp_magic(bytes@) ==> frames is Err,
        frames matches Ok(v) ==> decoded_webp_frames(bytes@) == Some(optional_frame_views(v@)),
{
    let mut decoder = image::codecs::webp::WebPDecoder::new(Cursor::new(bytes))?;
    let _ = decoder.set_background_color(image::Rgba([0, 0, 0, 0]));
    Ok(decoder.into_frames().map(|r| r.ok().map(|f| {
        let (delay_numer, delay_denom) = f.delay().numer_denom_ms();
        let (left, top) = (f.left(), f.top());
        let b = f.into_buffer();
        let (width, height) = b.dimensions();
        DecodedFrame { width, height, left, top, delay_numer, delay_denom, pixels: b.into_raw() }
    })).collect())
}

/// Calls `image::codecs::webp::WebPDecoder::new` and `image::DynamicImage::from_decoder`,
/// and converts the image to RGBA (`into_rgba8`).
#[verifier::external_body]
fn webp_still(bytes: &[u8]) -> (img: Result<RgbaImage, image::ImageError>)
    ensures
        img is Ok <==> decoded_webp_still(bytes@) is Some,
        !has_webp_magic(bytes@) ==> img is Err,
        img matches Ok(i) ==> decoded_webp_still(bytes@) == Some(i@),
{
    let decoder = image::codecs::webp::WebPDecoder::new(Cursor::new(bytes))?;
    let rgba = image::DynamicImage::from_decoder(decoder)?.into_rgba8();
    Ok(RgbaImage { width: rgba.width(), height: rgba.height(), pixels: rgba.into_raw() })
}

pub open spec fn optional_frame_views(v: Seq<Option<DecodedFrame>>) -> Seq<Option<FrameData>> {
    v.map_values(
        |o: Option<DecodedFrame>|
            match o {
                Some(f) => Some(f@),
                None => None,
            },
    )
}

pub open spec fn optional_item_view(item: Option<Option<DecodedFrame>>) -> Option<Option<FrameData>> {
    match item {
        None => None,
        Some(None) => Some(None),
        Some(Some(f)) => Some(Some(f@)),
    }
}

/// The items that the first `n` calls of `next` on the GIF frame iterator yield for
/// `bytes`, up to the end of the stream.
pub open spec fn gif_items(bytes: Seq<u8>, n: nat) -> Seq<Option<FrameData>>
    decreases n,
{
    if n == 0 {
        Seq::<Option<FrameData>>::empty()
    } else {
        let before = gif_items(bytes, (n - 1) as nat);
        if before.len() < n - 1 {
            before
        } else {
            match gif_frame_at(bytes, (n - 1) as nat) {
                None => before,
                Some(item) => before.push(item),
            }
        }
    }
}

/// What is read from a GIF: `None` where the decoder cannot be created, else the items of
/// at most as many calls of `next` as the data has bytes. Each frame takes at least a
/// ten-byte descriptor, so the bound cuts only a stream that never ends.
pub open spec fn gif_stream(bytes: Seq<u8>) -> Option<Seq<Option<FrameData>>> {
    if gif_decoder_opens(bytes) {
        Some(gif_items(bytes, bytes.len()))
    } else {
        None
    }
}

pub open spec fn frame_data_views(v: Seq<DecodedFrame>) -> Seq<FrameData> {
    v.map_values(|f: DecodedFrame| f@)
}

/// A frame with its red and blue bytes exchanged.
pub open spec fn bgra_frame(f: FrameData) -> FrameData {
    FrameData { pixels: swap_red_blue_of(f.pixels), ..f }
}

/// The frames that decoded, in order, each turned into BGRA; failed frames are skipped.
pub open spec fn kept_frames(s: Seq<Option<FrameData>>) -> Seq<FrameData>
    decreases s.len(),
{
    if s.len() == 0 {
        Seq::<FrameData>::empty()
    } else {
        let rest = kept_frames(s.drop_last());
        match s.last() {
            Some(f) => rest.push(bgra_frame(f)),
            None => rest,
        }
    }
}

/// The single frame that a still image becomes: no offset, no delay, BGRA pixels.
pub open spec fn still_frame(img: RgbaData) -> FrameData {
    FrameData {
        width: img.width,
        height: img.height,
        left: 0,
        top: 0,
        delay_numer: 0,
        delay_denom: 1,
        pixels: swap_red_blue_of(img.pixels),
    }
}

/// What decoding an animation gives: its kept frames, or `empty_error` when none is left.
pub open spec fn animation_result(
    decoded: Option<Seq<Option<FrameData>>>,
    res: Result<FrameList, DecodeError>,
    empty_error: DecodeError,
) -> bool {
    match decoded {
        None => res matches Err(DecodeError::Image(_)),
        Some(s) => if kept_frames(s).len() == 0 {
            res == Err::<FrameList, DecodeError>(empty_error)
        } else {
            res matches Ok(v) && v.items() == kept_frames(s)
        },
    }
}

/// What decoding a still image gives: its single frame.
pub open spec fn still_result(
    decoded: Option<RgbaData>,
    res: Result<FrameList, DecodeError>,
) -> bool {
    match decoded {
        None => res matches Err(DecodeError::Image(_)),
        Some(img) => res matches Ok(v) && v.items() == seq![still_frame(img)],
    }
}

/// The frames that decoded, in the order the decoder gave them, failed ones left out.
pub open spec fn decoded_only(s: Seq<Option<FrameData>>) -> Seq<Option<FrameData>> {
    s.filter(|o: Option<FrameData>| o is Some)
}

/// `out` is the decoded frame `f` as shown: the same size, offset and delay, and every
/// whole pixel of `f` turned from RGBA into BGRA.
pub open spec fn is_bgra_frame_of(out: FrameData, f: FrameData) -> bool {
    &&& out.width == f.width
    &&& out.height == f.height
    &&& out.left == f.left
    &&& out.top == f.top
    &&& out.delay_numer == f.delay_numer
    &&& out.delay_denom == f.delay_denom
    &&& is_bgra_of(out.pixels, f.pixels)
}

/// The frames kept from an animation are exactly the frames the decoder gave without
/// failing, in the same order, each turned BGRA.
pub proof fn lemma_kept_frames_are_the_decoded_ones(s: Seq<Option<FrameData>>)
    ensures
        kept_frames(s).len() == decoded_only(s).len(),
        forall|k: int|
            0 <= k < kept_frames(s).len() ==> decoded_only(s)[k] is Some && is_bgra_frame_of(
                #[trigger] kept_frames(s)[k],
                decoded_only(s)[k]->0,
            ),
    decreases s.len(),
{
    reveal(Seq::filter);
    if s.len() > 0 {
        let init = s.drop_last();
        lemma_kept_frames_are_the_decoded_ones(init);
        assert(decoded_only(s) == (if s.last() is Some {
            decoded_only(init).push(s.last())
        } else {
            decoded_only(init)
        }));
        match s.last() {
            Some(f) => {
                lemma_swap_red_blue_is_bgra(f.pixels);
                let kept = kept_frames(s);
                assert forall|k: int| 0 <= k < kept.len() implies decoded_only(s)[k] is Some
                    && is_bgra_frame_of(#[trigger] kept[k], decoded_only(s)[k]->0) by {
                    if k < kept.len() - 1 {
                        assert(kept[k] == kept_frames(init)[k]);
                        assert(decoded_only(s)[k] == decoded_only(init)[k]);
                    }
                }
            },
            None => {},
        }
    }
}

/// A still image decodes to exactly one frame: the decoder's width and height, no offset
/// and no delay, and every whole pixel of the decoder's RGBA output turned BGRA.
pub proof fn lemma_still_image_is_one_bgra_frame(img: RgbaData, res: Result<FrameList, DecodeError>)
    requires
        still_result(Some(img), res),
    ensures
        res matches Ok(v) && {
            &&& v.items().len() == 1
            &&& v.items()[0].width == img.width
            &&& v.items()[0].height == img.height
            &&& v.items()[0].left == 0 && v.items()[0].top == 0
            &&& v.items()[0].delay_numer == 0 && v.items()[0].delay_denom == 1
            &&& is_bgra_of(v.items()[0].pixels, img.pixels)
        },
{
    lemma_swap_red_blue_is_bgra(img.pixels);
}

/// Keeps the frames that decoded, in order, turning each into BGRA.
pub fn keep_frames(frames: Vec<Option<DecodedFrame>>) -> (kept: FrameList)
    ensures
        kept.items() == kept_frames(optional_frame_views(frames@)),
{
    let ghost all = optional_frame_views(frames@);
    let mut rest = frames;
    let mut kept = FrameList::empty();
    let ghost mut i: int = 0;
    let count = rest.len();
    assert(all.len() == count);
    while rest.len() > 0
        invariant
            0 <= i <= all.len(),
            all.len() <= usize::MAX,
            optional_frame_views(rest@) == all.skip(i),
            kept.items() == kept_frames(all.take(i)),
            kept.items().len() <= i,
        decreases rest.len(),
    {
        let ghost old_rest = rest@;
        let item = rest.remove(0);
        proof {
            assert(optional_frame_views(old_rest).len() == old_rest.len());
            assert(i < all.len());
            assert(optional_frame_views(old_rest)[0] == all.skip(i)[0]);
            assert(all.take(i + 1).drop_last() =~= all.take(i));
            assert(all.take(i + 1).last() == all[i]);
        }
        match item {
            Some(f) => {
                let mut f = f;
                swap_red_blue(&mut f.pixels);
                kept.push_frame(f);
            },
            None => {},
        }
        proof {
            i = i + 1;
            assert(rest@ =~= old_rest.subrange(1, old_rest.len() as int));
            assert forall|k: int| 0 <= k < rest@.len() implies optional_frame_views(rest@)[k]
                == all.skip(i)[k] by {
                assert(rest@[k] == old_rest[k + 1]);
                assert(optional_frame_views(old_rest)[k + 1] == all.skip(i - 1)[k + 1]);
            }
            assert(optional_frame_views(rest@) =~= all.skip(i));
        }
    }
    proof {
        assert(all.take(i) =~= all);
    }
    kept
}

proof fn lemma_kept_frames_len(s: Seq<Option<FrameData>>)
    ensures
        kept_frames(s).len() <= s.len(),
    decreases s.len(),
{
    if s.len() > 0 {
        lemma_kept_frames_len(s.drop_last());
    }
}

proof fn lemma_gif_items_len(bytes: Seq<u8>, n: nat)
    ensures
        gif_items(bytes, n).len() <= n,
    decreases n,
{
    if n > 0 {
        lemma_gif_items_len(bytes, (n - 1) as nat);
    }
}

/// Once the stream has ended, further calls add nothing.
proof fn lemma_gif_items_stay(bytes: Seq<u8>, k: nat, m: nat)
    requires
        k <= m,
        gif_items(bytes, k).len() < k,
    ensures
        gif_items(bytes, m) == gif_items(bytes, k),
    decreases m,
{
    if m > k {
        lemma_gif_items_stay(bytes, k, (m - 1) as nat);
    }
}

/// Decodes a GIF: the frames that decode, in order, as BGRA; an error when none does.
/// The frame iterator is called at most once per byte of data.
pub fn decode_gif(bytes: &[u8]) -> (res: Result<FrameList, DecodeError>)
    ensures
        animation_result(gif_stream(bytes@), res, DecodeError::NoGifFrames),
{
    let mut cursor = match open_gif(bytes) {
        Ok(c) => c,
        Err(e) => return Err(DecodeError::Image(e)),
    };
    let limit = bytes.len();
    let mut kept = FrameList::empty();
    let mut calls: usize = 0;
    let mut ended = false;
    while !ended && calls < limit
        invariant
            cursor.source() == bytes@,
            cursor.calls() == calls,
            calls <= limit,
            limit == bytes@.len(),
            ended ==> gif_items(bytes@, calls as nat).len() < calls,
            !ended ==> gif_items(bytes@, calls as nat).len() == calls,
            kept.items() == kept_frames(gif_items(bytes@, calls as nat)),
        decreases limit - calls,
    {
        let ghost before = gif_items(bytes@, calls as nat);
        let item = next_gif_frame(&mut cursor);
        proof {
            assert(gif_items(bytes@, (calls + 1) as nat) == match gif_frame_at(bytes@, calls as nat) {
                None => before,
                Some(i) => before.push(i),
            });
        }
        match item {
            None => {
                ended = true;
            },
            Some(None) => {
                proof {
                    let after = before.push(None::<FrameData>);
                    assert(after.drop_last() =~= before);
                }
            },
            Some(Some(f)) => {
                let ghost fv = f@;
                proof {
                    lemma_kept_frames_len(before);
                    lemma_gif_items_len(bytes@, calls as nat);
                }
                let mut f = f;
                swap_red_blue(&mut f.pixels);
                kept.push_frame(f);
                proof {
                    let after = before.push(Some(fv));
                    assert(after.drop_last() =~= before);
                }
            },
        }
        calls = calls + 1;
    }
    proof {
        if ended {
            lemma_gif_items_stay(bytes@, calls as nat, limit as nat);
        }
    }
    if kept.len() == 0 {
        return Err(DecodeError::NoGifFrames);
    }
    Ok(kept)
}

/// Decodes a WebP: an animation as the frames that decode, in order, as BGRA (an error
/// when none does); a still image as one BGRA frame.
pub fn decode_webp(bytes: &[u8]) -> (res: Result<FrameList, DecodeError>)
    ensures
        !has_webp_magic(bytes@) ==> res matches Err(DecodeError::Image(_)),
        match decoded_webp_animated(bytes@) {
            None => res matches Err(DecodeError::Image(_)),
            Some(true) => animation_result(
                decoded_webp_frames(bytes@),
                res,
                DecodeError::NoWebPFrames,
            ),
            Some(false) => still_result(decoded_webp_still(bytes@), res),
        },
{
    let animated = match webp_animated(bytes) {
        Ok(a) => a,
        Err(e) => return Err(DecodeError::Image(e)),
    };
    if animated {
        let frames = match webp_frames(bytes) {
            Ok(frames) => frames,
            Err(e) => return Err(DecodeError::Image(e)),
        };
        let kept = keep_frames(frames);
        if kept.len() == 0 {
            return Err(DecodeError::NoWebPFrames);
        }
        Ok(kept)
    } else {
        match webp_still(bytes) {
            Ok(img) => Ok(still_frames(img)),
            Err(e) => Err(DecodeError::Image(e)),
        }
    }
}

/// A still image as its single BGRA frame.
pub fn still_frames(img: RgbaImage) -> (frames: FrameList)
    ensures
        frames.items() == seq![still_frame(img@)],
        frames.items().len() == 1,
        frames.items()[0].width == img.width && frames.items()[0].height == img.height,
        frames.items()[0].left == 0 && frames.items()[0].top == 0,
        frames.items()[0].delay_numer == 0 && frames.items()[0].delay_denom == 1,
        is_bgra_of(frames.items()[0].pixels, img.pixels@),
{
    proof {
        lemma_swap_red_blue_is_bgra(img.pixels@);
    }
    let mut pixels = img.pixels;
    swap_red_blue(&mut pixels);
    let mut frames = FrameList::empty();
    frames.push_frame(
        DecodedFrame {
            width: img.width,
            height: img.height,
            left: 0,
            top: 0,
            delay_numer: 0,
            delay_denom: 1,
            pixels,
        },
    );
    assert(frames.items() =~= seq![still_frame(img@)]);
    frames
}

/// Decodes the bytes of a source image into BGRA frames: GIF and WebP through their own
/// decoders, any other recognised format as one still frame.
pub fn decode_image(bytes: &[u8]) -> (res: Result<FrameList, DecodeError>)
    ensures
        match format_kind_of(bytes@) {
            None => res matches Err(DecodeError::UnsupportedFormat),
            Some(ImageFormatKind::Gif) => animation_result(
                gif_stream(bytes@),
                res,
                DecodeError::NoGifFrames,
            ),
            Some(ImageFormatKind::WebP) => match decoded_webp_animated(bytes@) {
                None => res matches Err(DecodeError::Image(_)),
                Some(true) => animation_result(
                    decoded_webp_frames(bytes@),
                    res,
                    DecodeError::NoWebPFrames,
                ),
                Some(false) => still_result(decoded_webp_still(bytes@), res),
            },
            Some(ImageFormatKind::Other) => still_result(decoded_still_rgba(bytes@), res),
        },
{
    match guess_format_kind(bytes) {
        None => Err(DecodeError::UnsupportedFormat),
        Some(ImageFormatKind::Gif) => decode_gif(bytes),
        Some(ImageFormatKind::WebP) => decode_webp(bytes),
        Some(ImageFormatKind::Other) => match load_still_rgba(bytes) {
            Ok(img) => Ok(still_frames(img)),
            Err(e) => Err(DecodeError::Image(e)),
        },
    }
}

} // verus!
