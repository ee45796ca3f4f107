use image::codecs::gif::GifEncoder;
use image::{Delay, Frame, ImageFormat, Rgba, RgbaImage};
use squash::decode::{decode_gif, decode_image, decode_webp, DecodeError};
use squash::pixels::swap_red_blue;
use std::io::Cursor;

fn encode(img: &RgbaImage, format: ImageFormat) -> Vec<u8> {
    let mut out = Cursor::new(Vec::new());
    img.write_to(&mut out, format).unwrap();
    out.into_inner()
}

fn two_frame_gif() -> Vec<u8> {
    let mut out = Vec::new();
    {
        let mut enc = GifEncoder::new(&mut out);
        let red = RgbaImage::from_pixel(2, 1, Rgba([255, 0, 0, 255]));
        let blue = RgbaImage::from_pixel(2, 1, Rgba([0, 0, 255, 255]));
        enc.encode_frames(vec![
            Frame::from_parts(red, 0, 0, Delay::from_numer_denom_ms(100, 1)),
            Frame::from_parts(blue, 0, 0, Delay::from_numer_denom_ms(200, 1)),
        ])
        .unwrap();
    }
    out
}

#[test]
fn swap_exchanges_red_and_blue_of_whole_pixels() {
    let mut p = vec![1u8, 2, 3, 4, 5, 6, 7, 8, 9, 10];
    swap_red_blue(&mut p);
    assert_eq!(p, vec![3, 2, 1, 4, 7, 6, 5, 8, 9, 10]);
}

#[test]
fn swap_twice_gives_the_pixels_back() {
    let orig: Vec<u8> = (0u8..23).collect();
    let mut p = orig.clone();
    swap_red_blue(&mut p);
    assert_ne!(p, orig);
    swap_red_blue(&mut p);
    assert_eq!(p, orig);
}

#[test]
fn swap_of_short_data_changes_nothing() {
    let mut p = vec![1u8, 2, 3];
    swap_red_blue(&mut p);
    assert_eq!(p, vec![1, 2, 3]);
    let mut e: Vec<u8> = Vec::new();
    swap_red_blue(&mut e);
    assert!(e.is_empty());
}

#[test]
fn png_becomes_one_bgra_frame() {
    let img = RgbaImage::from_pixel(3, 2, Rgba([255, 10, 20, 200]));
    let frames = match decode_image(&encode(&img, ImageFormat::Png)) {
        Ok(f) => f.into_vec(),
        Err(_) => panic!("decoding failed"),
    };
    assert_eq!(frames.len(), 1);
    let f = &frames[0];
    assert_eq!((f.width, f.height, f.left, f.top), (3, 2, 0, 0));
    assert_eq!((f.delay_numer, f.delay_denom), (0, 1));
    assert_eq!(f.pixels.len(), 24);
    assert_eq!(&f.pixels[0..4], &[20, 10, 255, 200]);
}

#[test]
fn gif_frames_are_kept_in_order() {
    let bytes = two_frame_gif();
    let frames = match decode_image(&bytes) {
        Ok(f) => f.into_vec(),
        Err(_) => panic!("decoding failed"),
    };
    assert_eq!(frames.len(), 2);
    assert_eq!((frames[0].width, frames[0].height), (2, 1));
    assert_eq!((frames[0].delay_numer, frames[0].delay_denom), (100, 1));
    assert_eq!(&frames[0].pixels[0..4], &[0, 0, 255, 255]);
    assert_eq!((frames[1].delay_numer, frames[1].delay_denom), (200, 1));
    assert_eq!(&frames[1].pixels[0..4], &[255, 0, 0, 255]);
    let direct = match decode_gif(&bytes) {
        Ok(f) => f.into_vec(),
        Err(_) => panic!("decoding failed"),
    };
    assert_eq!(direct.len(), 2);
}

#[test]
fn still_webp_becomes_one_bgra_frame() {
    let img = RgbaImage::from_pixel(2, 2, Rgba([1, 2, 3, 255]));
    let bytes = encode(&img, ImageFormat::WebP);
    for res in [decode_webp(&bytes), decode_image(&bytes)] {
        let frames = match res {
            Ok(f) => f.into_vec(),
            Err(_) => panic!("decoding failed"),
        };
        assert_eq!(frames.len(), 1);
        assert_eq!((frames[0].width, frames[0].height), (2, 2));
        assert_eq!(&frames[0].pixels[0..4], &[3, 2, 1, 255]);
    }
}

#[test]
fn unknown_data_is_unsupported() {
    assert!(matches!(decode_image(b"not an image at all"), Err(DecodeError::UnsupportedFormat)));
    assert!(matches!(decode_image(&[]), Err(DecodeError::UnsupportedFormat)));
}

#[test]
fn broken_gif_is_an_image_error() {
    assert!(matches!(decode_image(b"GIF89a"), Err(DecodeError::Image(_))));
}

#[test]
fn broken_png_is_an_image_error() {
    let mut bytes = encode(&RgbaImage::from_pixel(4, 4, Rgba([0, 0, 0, 255])), ImageFormat::Png);
    bytes.truncate(20);
    assert!(matches!(decode_image(&bytes), Err(DecodeError::Image(_))));
}

#[test]
fn broken_webp_is_an_image_error() {
    assert!(matches!(decode_image(b"RIFF\x04\x00\x00\x00WEBP"), Err(DecodeError::Image(_))));
}

#[test]
fn gif_header_without_image_data_is_an_image_error() {
    let bytes: Vec<u8> = vec![b'G', b'I', b'F', b'8', b'9', b'a', 1, 0, 1, 0, 0, 0, 0, 0x3b];
    assert!(matches!(decode_image(&bytes), Err(DecodeError::Image(_))));
}

fn decoded(width: u32, pixels: Vec<u8>) -> squash::decode::DecodedFrame {
    squash::decode::DecodedFrame {
        width,
        height: 1,
        left: 1,
        top: 2,
        delay_numer: 30,
        delay_denom: 1,
        pixels,
    }
}

#[test]
fn failed_frames_are_skipped_and_kept_ones_turned_bgra() {
    let kept = squash::decode::keep_frames(vec![
        Some(decoded(1, vec![1, 2, 3, 4])),
        None,
        Some(decoded(2, vec![5, 6, 7, 8, 9, 10, 11, 12])),
        None,
    ]);
    assert_eq!(kept.len(), 2);
    let kept = kept.into_vec();
    assert_eq!(kept[0].pixels, vec![3, 2, 1, 4]);
    assert_eq!(kept[1].pixels, vec![7, 6, 5, 8, 11, 10, 9, 12]);
    assert_eq!((kept[1].width, kept[1].left, kept[1].top, kept[1].delay_numer), (2, 1, 2, 30));
    assert_eq!(squash::decode::keep_frames(vec![None, None]).len(), 0);
}

#[test]
fn still_image_is_one_frame_without_delay() {
    let frames = squash::decode::still_frames(squash::decode::RgbaImage {
        width: 1,
        height: 1,
        pixels: vec![10, 20, 30, 40],
    });
    assert_eq!(frames.len(), 1);
    let frames = frames.into_vec();
    assert_eq!(frames[0].pixels, vec![30, 20, 10, 40]);
    assert_eq!((frames[0].left, frames[0].top, frames[0].delay_numer, frames[0].delay_denom), (0, 0, 0, 1));
}

fn chunk(tag: &[u8; 4], payload: &[u8]) -> Vec<u8> {
    let mut c = tag.to_vec();
    c.extend_from_slice(&(payload.len() as u32).to_le_bytes());
    c.extend_from_slice(payload);
    if payload.len() % 2 == 1 {
        c.push(0);
    }
    c
}

fn u24(v: u32) -> [u8; 3] {
    [v as u8, (v >> 8) as u8, (v >> 16) as u8]
}

/// The `VP8L` chunk of a lossless still WebP, header included.
fn lossless_chunk(img: &RgbaImage) -> Vec<u8> {
    let file = encode(img, ImageFormat::WebP);
    let mut pos = 12;
    while pos + 8 <= file.len() {
        let size = u32::from_le_bytes([file[pos + 4], file[pos + 5], file[pos + 6], file[pos + 7]]) as usize;
        let end = pos + 8 + size + size % 2;
        if &file[pos..pos + 4] == b"VP8L" {
            return file[pos..end.min(file.len())].to_vec();
        }
        pos = end;
    }
    panic!("no VP8L chunk");
}

fn two_frame_webp() -> Vec<u8> {
    let red = RgbaImage::from_pixel(2, 2, Rgba([255, 0, 0, 255]));
    let green = RgbaImage::from_pixel(2, 2, Rgba([0, 255, 0, 255]));
    animated_webp(&[lossless_chunk(&red), lossless_chunk(&green)])
}

fn animated_webp(frame_chunks: &[Vec<u8>]) -> Vec<u8> {
    let mut vp8x = vec![0x02 | 0x10, 0, 0, 0];
    vp8x.extend_from_slice(&u24(1));
    vp8x.extend_from_slice(&u24(1));
    let anim = [0u8, 0, 0, 0, 0, 0];
    let mut body = b"WEBP".to_vec();
    body.extend(chunk(b"VP8X", &vp8x));
    body.extend(chunk(b"ANIM", &anim));
    for frame_chunk in frame_chunks {
        let mut anmf = Vec::new();
        anmf.extend_from_slice(&u24(0));
        anmf.extend_from_slice(&u24(0));
        anmf.extend_from_slice(&u24(1));
        anmf.extend_from_slice(&u24(1));
        anmf.extend_from_slice(&u24(50));
        anmf.push(0);
        anmf.extend_from_slice(frame_chunk);
        body.extend(chunk(b"ANMF", &anmf));
    }
    let mut file = b"RIFF".to_vec();
    file.extend_from_slice(&(body.len() as u32).to_le_bytes());
    file.extend(body);
    file
}

#[test]
fn animated_webp_frames_are_kept_in_order() {
    let bytes = two_frame_webp();
    for res in [decode_webp(&bytes), decode_image(&bytes)] {
        let frames = match res {
            Ok(f) => f.into_vec(),
            Err(DecodeError::Image(e)) => panic!("image error {:?}", e),
            Err(_) => panic!("decoding failed"),
        };
        assert_eq!(frames.len(), 2);
        assert_eq!((frames[0].width, frames[0].height), (2, 2));
        // Frames are composited onto the canvas, which may round a channel by one.
        let p = &frames[0].pixels;
        assert!(p[0] <= 1 && p[1] <= 1 && p[2] >= 254 && p[3] >= 254, "{:?}", &p[0..4]);
        let q = &frames[1].pixels;
        assert!(q[0] <= 1 && q[1] >= 254 && q[2] <= 1 && q[3] >= 254, "{:?}", &q[0..4]);
    }
}

#[test]
fn animated_webp_without_decodable_frames_is_reported() {
    let garbage = chunk(b"VP8L", &[0x2f, 0xff, 0xff, 0xff, 0xff, 0x00, 0x01, 0x02]);
    let bytes = animated_webp(&[garbage.clone(), garbage]);
    match decode_image(&bytes) {
        Err(DecodeError::NoWebPFrames) => {}
        Err(DecodeError::Image(e)) => panic!("image error {:?}", e),
        Ok(f) => panic!("frames {}", f.len()),
        Err(_) => panic!("other"),
    }
}

#[test]
fn truncated_gif_decoding_returns() {
    let bytes = two_frame_gif();
    for cut in 0..bytes.len() {
        let res = decode_image(&bytes[..cut]);
        if let Ok(frames) = res {
            assert!(frames.len() <= 2);
        }
    }
    let without_trailer = match decode_gif(&bytes[..bytes.len() - 1]) {
        Ok(f) => f.into_vec(),
        Err(_) => panic!("decoding failed"),
    };
    assert_eq!(without_trailer.len(), 2);
}

#[test]
fn text_is_not_an_image() {
    assert!(matches!(decode_image(b"hello world"), Err(DecodeError::UnsupportedFormat)));
    assert!(matches!(decode_image(b"GIF88a"), Err(DecodeError::UnsupportedFormat)));
    assert!(matches!(decode_image(b"P8"), Err(DecodeError::UnsupportedFormat)));
}

#[test]
fn known_signature_with_broken_data_is_an_image_error() {
    for bytes in [&b"BM"[..], b"P6 junk", b"II*\x00", b"qoif", b"farbfeld"] {
        assert!(matches!(decode_image(bytes), Err(DecodeError::Image(_))));
    }
}

#[test]
fn webp_decoder_refuses_data_without_the_signature() {
    assert!(matches!(decode_webp(b"RIFF\x04\x00\x00\x00WEBQ"), Err(DecodeError::Image(_))));
    assert!(matches!(decode_webp(b"hello world"), Err(DecodeError::Image(_))));
}
