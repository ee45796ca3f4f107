use squash::sbmc::{
    cache_decision, read_cache, read_i64_le, read_u32_le, write_cache, write_i64_le, write_u32_le, ByteReader,
    CacheDecision, CacheError, CacheFrame, RenderFrame, CACHE_MAGIC, CACHE_VERSION,
};

fn frame(width: i32, height: i32, dn: u32, dd: u32, bytes: Option<Vec<u8>>) -> RenderFrame {
    RenderFrame { width, height, delay_numer: dn, delay_denom: dd, bytes }
}

fn header(mtime: i64, count: u32) -> Vec<u8> {
    let mut v = b"SBMCDKCF".to_vec();
    v.extend_from_slice(&1u32.to_le_bytes());
    v.extend_from_slice(&mtime.to_le_bytes());
    v.extend_from_slice(&count.to_le_bytes());
    v
}

fn assert_frame(f: &CacheFrame, w: u32, h: u32, dn: u32, dd: u32, pixels: &[u8]) {
    assert_eq!(f.width, w);
    assert_eq!(f.height, h);
    assert_eq!(f.delay_numer, dn);
    assert_eq!(f.delay_denom, dd);
    assert_eq!(f.pixels.as_slice(), pixels);
}

#[test]
fn magic_and_version_constants() {
    assert_eq!(&CACHE_MAGIC, b"SBMCDKCF");
    assert_eq!(CACHE_VERSION, 1);
}

#[test]
fn u32_and_i64_little_endian() {
    let mut w = Vec::new();
    write_u32_le(&mut w, 0x0403_0201);
    write_i64_le(&mut w, -2);
    write_i64_le(&mut w, i64::MIN);
    write_i64_le(&mut w, i64::MAX);
    assert_eq!(&w[0..4], &[1, 2, 3, 4]);
    assert_eq!(&w[4..12], &[0xfe, 0xff, 0xff, 0xff, 0xff, 0xff, 0xff, 0xff]);
    assert_eq!(&w[12..20], &i64::MIN.to_le_bytes());
    assert_eq!(&w[20..28], &i64::MAX.to_le_bytes());
    let mut r = ByteReader::new(&w);
    assert_eq!(read_u32_le(&mut r), Ok(0x0403_0201));
    assert_eq!(read_i64_le(&mut r), Ok(-2));
    assert_eq!(read_i64_le(&mut r), Ok(i64::MIN));
    assert_eq!(read_i64_le(&mut r), Ok(i64::MAX));
    assert_eq!(r.position(), 28);
    assert_eq!(read_u32_le(&mut r), Err(CacheError::UnexpectedEof));
    assert_eq!(r.position(), 28);
}

#[test]
fn short_read_consumes_nothing() {
    let data = [1u8, 2, 3];
    let mut r = ByteReader::new(&data);
    assert_eq!(read_u32_le(&mut r), Err(CacheError::UnexpectedEof));
    assert_eq!(r.position(), 0);
    assert_eq!(r.read_exact(3).unwrap(), &[1, 2, 3]);
}

#[test]
fn empty_image_header_layout() {
    let bytes = write_cache(Some(5), &[]);
    assert_eq!(bytes, header(5, 0));
    assert_eq!(bytes.len(), 24);
}

#[test]
fn unknown_mtime_is_written_as_zero() {
    let bytes = write_cache(None, &[]);
    assert_eq!(bytes, header(0, 0));
}

#[test]
fn frame_record_layout() {
    let px: Vec<u8> = (0u8..8).collect();
    let bytes = write_cache(Some(-1), &[frame(2, 1, 10, 1, Some(px.clone()))]);
    let mut expected = header(-1, 1);
    for v in [2u32, 1, 10, 1, 8] {
        expected.extend_from_slice(&v.to_le_bytes());
    }
    expected.extend_from_slice(&px);
    assert_eq!(bytes, expected);
}

#[test]
fn negative_sizes_and_missing_bytes_are_stored_as_zero() {
    let bytes = write_cache(Some(1), &[frame(-3, -7, 0, 1, None)]);
    let mut expected = header(1, 1);
    for v in [0u32, 0, 0, 1, 0] {
        expected.extend_from_slice(&v.to_le_bytes());
    }
    assert_eq!(bytes, expected);
    let frames = read_cache(&bytes, Some(1)).unwrap().unwrap().into_vec();
    assert_eq!(frames.len(), 1);
    assert_frame(&frames[0], 0, 0, 0, 1, &[]);
}

#[test]
fn roundtrip_keeps_frames() {
    let a: Vec<u8> = (0..16).collect();
    let b: Vec<u8> = (100..108).collect();
    let frames = vec![frame(2, 2, 40, 1, Some(a.clone())), frame(1, 2, 3, 2, Some(b.clone()))];
    let bytes = write_cache(Some(1_700_000_000), &frames);
    let back = read_cache(&bytes, Some(1_700_000_000)).unwrap().unwrap().into_vec();
    assert_eq!(back.len(), 2);
    assert_frame(&back[0], 2, 2, 40, 1, &a);
    assert_frame(&back[1], 1, 2, 3, 2, &b);
}

#[test]
fn trailing_bytes_are_ignored() {
    let mut bytes = write_cache(Some(3), &[frame(1, 1, 0, 1, Some(vec![9, 8, 7, 6]))]);
    bytes.extend_from_slice(&[0xaa, 0xbb]);
    let back = read_cache(&bytes, Some(3)).unwrap().unwrap().into_vec();
    assert_eq!(back.len(), 1);
    assert_frame(&back[0], 1, 1, 0, 1, &[9, 8, 7, 6]);
}

#[test]
fn other_mtime_is_stale() {
    let bytes = write_cache(Some(10), &[frame(1, 1, 0, 1, Some(vec![1, 2, 3, 4]))]);
    assert!(matches!(read_cache(&bytes, Some(11)), Ok(None)));
    assert!(matches!(read_cache(&bytes, None), Ok(None)));
}

#[test]
fn stale_is_decided_before_frames_are_read() {
    let mut bytes = header(10, 5);
    bytes.truncate(20);
    assert!(matches!(read_cache(&bytes, Some(11)), Ok(None)));
    assert!(matches!(read_cache(&bytes, Some(10)), Err(CacheError::UnexpectedEof)));
}

#[test]
fn bad_magic_is_an_error() {
    let mut bytes = header(0, 0);
    bytes[0] = b'X';
    assert!(matches!(read_cache(&bytes, Some(0)), Err(CacheError::BadMagic)));
    let mut last = header(0, 0);
    last[7] = b'G';
    assert!(matches!(read_cache(&last, Some(0)), Err(CacheError::BadMagic)));
}

#[test]
fn other_version_is_an_error() {
    let mut bytes = header(0, 0);
    bytes[8] = 2;
    assert!(matches!(read_cache(&bytes, Some(0)), Err(CacheError::UnsupportedVersion)));
}

#[test]
fn truncated_data_is_an_error() {
    assert!(matches!(read_cache(&[], Some(0)), Err(CacheError::UnexpectedEof)));
    assert!(matches!(read_cache(b"SBMC", Some(0)), Err(CacheError::UnexpectedEof)));
    assert!(matches!(read_cache(b"SBMCDKCF\x01\x00", Some(0)), Err(CacheError::UnexpectedEof)));
    let full = write_cache(Some(4), &[frame(1, 1, 0, 1, Some(vec![1, 2, 3, 4]))]);
    for cut in [21, 30, 44, 46] {
        assert!(
            matches!(read_cache(&full[..cut], Some(4)), Err(CacheError::UnexpectedEof)),
            "cut at {}",
            cut
        );
    }
}

#[test]
fn short_pixel_data_is_a_bad_frame() {
    let bytes = write_cache(Some(2), &[frame(2, 2, 0, 1, Some(vec![0; 15]))]);
    assert!(matches!(
        read_cache(&bytes, Some(2)),
        Err(CacheError::BadFrame { width: 2, height: 2 })
    ));
}

#[test]
fn extra_pixel_data_is_accepted() {
    let bytes = write_cache(Some(2), &[frame(1, 1, 0, 1, Some(vec![1, 2, 3, 4, 5]))]);
    let back = read_cache(&bytes, Some(2)).unwrap().unwrap().into_vec();
    assert_frame(&back[0], 1, 1, 0, 1, &[1, 2, 3, 4, 5]);
}

#[test]
fn huge_dimensions_are_a_bad_frame() {
    let bytes = write_cache(Some(2), &[frame(i32::MAX, i32::MAX, 0, 1, Some(vec![0; 4]))]);
    assert!(matches!(read_cache(&bytes, Some(2)), Err(CacheError::BadFrame { .. })));
}

#[test]
fn cache_reads_decide_between_use_decode_and_removal() {
    let bytes = write_cache(Some(5), &[frame(1, 1, 10, 1, Some(vec![1, 2, 3, 4]))]);
    assert_eq!(cache_decision(&Some(read_cache(&bytes, Some(5)))), CacheDecision::Use);
    assert_eq!(cache_decision(&Some(read_cache(&bytes, Some(6)))), CacheDecision::Decode);
    assert_eq!(cache_decision(&Some(read_cache(&bytes, None))), CacheDecision::Decode);
    assert_eq!(cache_decision(&Some(read_cache(b"junk", Some(5)))), CacheDecision::RemoveAndDecode);
    assert_eq!(cache_decision(&None), CacheDecision::RemoveAndDecode);
}
