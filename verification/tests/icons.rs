use audio_core::icons::{
    adler32, base64_fits, png_sizes_ok, bgra_pixels_to_png, crc32, data_url_from_base64, encode_png_rgba, extract_icon_png, png_data_url,
    swap_red_blue_in_place, zlib_stored_stream, IconStep,
};
use audio_core::error::AudioError;

const RED_PIXEL_PNG: [u8; 73] = [
    137, 80, 78, 71, 13, 10, 26, 10, 0, 0, 0, 13, 73, 72, 68, 82, 0, 0, 0, 1, 0, 0, 0, 1, 8, 6, 0, 0, 0, 31, 21, 196,
    137, 0, 0, 0, 16, 73, 68, 65, 84, 120, 1, 1, 5, 0, 250, 255, 0, 255, 0, 0, 255, 5, 0, 1, 255, 250, 92, 136, 209, 0,
    0, 0, 0, 73, 69, 78, 68, 174, 66, 96, 130,
];

#[test]
fn crc32_check_value() {
    assert_eq!(crc32(b"123456789"), 0xCBF4_3926);
    assert_eq!(crc32(b""), 0);
}

#[test]
fn adler32_check_value() {
    assert_eq!(adler32(b"Wikipedia"), 0x11E6_0398);
    assert_eq!(adler32(b""), 1);
}

#[test]
fn adler32_reduces_large_sums() {
    let data = vec![255u8; 100_000];
    // A = 1 + 255 * 100000 mod 65521, B = sum of the prefix A sums mod 65521.
    let mut a: u64 = 1;
    let mut b: u64 = 0;
    for _ in 0..100_000 {
        a = (a + 255) % 65521;
        b = (b + a) % 65521;
    }
    assert_eq!(adler32(&data), ((b << 16) | a) as u32);
}

#[test]
fn zlib_stream_of_three_bytes() {
    assert_eq!(zlib_stored_stream(b"abc"), vec![120, 1, 1, 3, 0, 252, 255, 97, 98, 99, 2, 77, 1, 39]);
}

#[test]
fn zlib_stream_of_nothing_has_no_block() {
    assert_eq!(zlib_stored_stream(b""), vec![120, 1, 0, 0, 0, 1]);
}

#[test]
fn zlib_stream_splits_blocks_of_65535_bytes() {
    let raw = vec![0u8; 70_000];
    let z = zlib_stored_stream(&raw);
    assert_eq!(z.len(), 70_016);
    assert_eq!(&z[..7], &[120, 1, 0, 255, 255, 0, 0]);
    let second = 2 + 5 + 65_535;
    assert_eq!(&z[second..second + 5], &[1, 0x71, 0x11, 0x8e, 0xee]);
}

#[test]
fn png_of_one_red_pixel() {
    let png = encode_png_rgba(&[255, 0, 0, 255], 1, 1).unwrap();
    assert_eq!(png, RED_PIXEL_PNG.to_vec());
}

#[test]
fn png_of_two_by_two_pixels_has_expected_size() {
    let rgba: Vec<u8> = (1..=16).collect();
    let png = encode_png_rgba(&rgba, 2, 2).unwrap();
    assert_eq!(png.len(), 86);
    assert_eq!(&png[..8], &[137, 80, 78, 71, 13, 10, 26, 10]);
    assert_eq!(&png[png.len() - 12..], &[0, 0, 0, 0, 73, 69, 78, 68, 174, 66, 96, 130]);
}

#[test]
fn png_ignores_bytes_after_the_image() {
    let png = encode_png_rgba(&[255, 0, 0, 255, 9, 9, 9, 9], 1, 1).unwrap();
    assert_eq!(png, RED_PIXEL_PNG.to_vec());
}

#[test]
fn swap_turns_bgra_into_rgba() {
    let mut px = vec![1, 2, 3, 4, 5, 6, 7, 8, 9, 10];
    swap_red_blue_in_place(&mut px);
    assert_eq!(px, vec![3, 2, 1, 4, 7, 6, 5, 8, 9, 10]);
}

#[test]
fn bgra_blue_pixel_is_encoded_as_red() {
    let png = bgra_pixels_to_png(vec![0, 0, 255, 255], 1, 1).unwrap();
    assert_eq!(png, RED_PIXEL_PNG.to_vec());
}

#[test]
fn data_url_prefix() {
    assert_eq!(data_url_from_base64("AQID"), "data:image/png;base64,AQID");
}

#[test]
fn png_data_url_encodes_with_base64() {
    assert_eq!(png_data_url(&[1, 2, 3]), "data:image/png;base64,AQID");
    assert_eq!(png_data_url(b"ab"), "data:image/png;base64,YWI=");
    assert_eq!(png_data_url(&[]), "data:image/png;base64,");
    let url = png_data_url(&RED_PIXEL_PNG);
    assert!(url.starts_with("data:image/png;base64,iVBORw0KGgoAAAANSUhEUgAAAAEAAAABCAYAAAAf"));
    assert_eq!(url.len(), "data:image/png;base64,".len() + 100);
}

#[test]
fn shell_item_icon_is_used_when_not_empty() {
    match extract_icon_png(Ok(vec![1, 2])) {
        IconStep::Done(b) => assert_eq!(b, vec![1, 2]),
        IconStep::TryFileInfo => panic!("expected the shell item icon"),
    }
}

#[test]
fn empty_or_failed_shell_item_falls_back() {
    assert!(matches!(extract_icon_png(Ok(vec![])), IconStep::TryFileInfo));
    assert!(matches!(extract_icon_png(Err(AudioError::Message("x".to_string()))), IconStep::TryFileInfo));
}

#[test]
fn encodable_sizes() {
    assert!(png_sizes_ok(16, 2, 2));
    assert!(!png_sizes_ok(15, 2, 2));
    assert!(png_sizes_ok(0, 0, 0));
    assert!(!png_sizes_ok(usize::MAX, u32::MAX, 1));
    assert!(!png_sizes_ok(usize::MAX, 70_000, 70_000));
    assert!(base64_fits(0));
    assert!(base64_fits(1_000_000));
    assert!(!base64_fits(usize::MAX));
}

fn inflate_stored_zlib(z: &[u8]) -> Vec<u8> {
    assert_eq!(z[0], 0x78);
    assert_eq!((z[0] as u32 * 256 + z[1] as u32) % 31, 0);
    let mut i = 2;
    let mut out = Vec::new();
    loop {
        let header = z[i];
        assert_eq!((header >> 1) & 3, 0);
        let len = z[i + 1] as usize + 256 * z[i + 2] as usize;
        let nlen = z[i + 3] as usize + 256 * z[i + 4] as usize;
        assert_eq!(len + nlen, 65535);
        out.extend_from_slice(&z[i + 5..i + 5 + len]);
        i += 5 + len;
        if header & 1 == 1 {
            break;
        }
    }
    assert_eq!(i + 4, z.len());
    assert_eq!(&z[i..], &adler32(&out).to_be_bytes()[..]);
    out
}

#[test]
fn png_image_data_inflates_back_to_its_rows() {
    let (w, h) = (3u32, 2u32);
    let rgba: Vec<u8> = (0..(w * h * 4) as u8).collect();
    let png = encode_png_rgba(&rgba, w, h).unwrap();
    assert_eq!(&png[37..41], b"IDAT");
    let len = u32::from_be_bytes([png[33], png[34], png[35], png[36]]) as usize;
    let rows = inflate_stored_zlib(&png[41..41 + len]);
    let row_len = (w * 4) as usize;
    assert_eq!(rows.len(), h as usize * (row_len + 1));
    for y in 0..h as usize {
        assert_eq!(rows[y * (row_len + 1)], 0);
        assert_eq!(&rows[y * (row_len + 1) + 1..(y + 1) * (row_len + 1)], &rgba[y * row_len..(y + 1) * row_len]);
    }
}

fn read_be32(b: &[u8], i: usize) -> usize {
    u32::from_be_bytes([b[i], b[i + 1], b[i + 2], b[i + 3]]) as usize
}

/// The tag, data and end of the chunk at `off`, its CRC checked.
fn chunk_at(b: &[u8], off: usize) -> (&[u8], &[u8], usize) {
    let len = read_be32(b, off);
    let tag = &b[off + 4..off + 8];
    let data = &b[off + 8..off + 8 + len];
    let mut covered = tag.to_vec();
    covered.extend_from_slice(data);
    assert_eq!(read_be32(b, off + 8 + len) as u32, crc32(&covered));
    (tag, data, off + 12 + len)
}

#[test]
fn encoded_png_is_well_formed_on_a_small_image() {
    let (w, h) = (2u32, 3u32);
    let rgba: Vec<u8> = (0..(w * h * 4) as u8).map(|b| b.wrapping_mul(7)).collect();
    let png = encode_png_rgba(&rgba, w, h).unwrap();
    assert_eq!(&png[..8], &[137u8, 80, 78, 71, 13, 10, 26, 10][..]);
    let (t1, d1, n1) = chunk_at(&png, 8);
    assert_eq!(t1, b"IHDR");
    assert_eq!(read_be32(d1, 0), w as usize);
    assert_eq!(read_be32(d1, 4), h as usize);
    assert_eq!(&d1[8..], &[8u8, 6, 0, 0, 0][..]);
    let (t2, d2, n2) = chunk_at(&png, n1);
    assert_eq!(t2, b"IDAT");
    let rows = inflate_stored_zlib(d2);
    let row_len = (w * 4) as usize;
    for y in 0..h as usize {
        assert_eq!(rows[y * (row_len + 1)], 0);
        assert_eq!(&rows[y * (row_len + 1) + 1..(y + 1) * (row_len + 1)], &rgba[y * row_len..(y + 1) * row_len]);
    }
    let (t3, d3, n3) = chunk_at(&png, n2);
    assert_eq!(t3, b"IEND");
    assert!(d3.is_empty());
    assert_eq!(n3, png.len());
}

#[test]
fn png_data_url_pads_the_last_group() {
    assert_eq!(png_data_url(b"a"), "data:image/png;base64,YQ==");
    assert_eq!(png_data_url(b"abcd"), "data:image/png;base64,YWJjZA==");
    assert_eq!(png_data_url(&[0xfb, 0xff, 0xbf]), "data:image/png;base64,+/+/");
}
