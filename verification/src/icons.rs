//! Application icons as PNG data URLs: a minimal PNG encoder (stored zlib
//! blocks, CRC-32 and Adler-32) over 32-bit pixels, and the data URL.

use vstd::prelude::*;
use vstd::arithmetic::div_mod::lemma_add_mod_noop;
use crate::error::Result;
use crate::text::{push_str, string_from_chars};

verus! {

// ---------------------------------------------------------------------------
// Byte encodings
// ---------------------------------------------------------------------------

/// The big-endian bytes of a 32-bit value.
pub open spec fn be32(x: u32) -> Seq<u8> {
    seq![
        ((x >> 24u32) & 0xffu32) as u8,
        ((x >> 16u32) & 0xffu32) as u8,
        ((x >> 8u32) & 0xffu32) as u8,
        (x & 0xffu32) as u8,
    ]
}

/// The little-endian bytes of a 16-bit value.
pub open spec fn le16(x: u16) -> Seq<u8> {
    seq![(x & 0xffu16) as u8, ((x >> 8u16) & 0xffu16) as u8]
}

fn push_be32(out: &mut Vec<u8>, x: u32)
    ensures
        final(out)@ == old(out)@ + be32(x),
{
    out.push(((x >> 24u32) & 0xffu32) as u8);
    out.push(((x >> 16u32) & 0xffu32) as u8);
    out.push(((x >> 8u32) & 0xffu32) as u8);
    out.push((x & 0xffu32) as u8);
    assert(final(out)@ =~= old(out)@ + be32(x));
}

fn push_le16(out: &mut Vec<u8>, x: u16)
    ensures
        final(out)@ == old(out)@ + le16(x),
{
    out.push((x & 0xffu16) as u8);
    out.push(((x >> 8u16) & 0xffu16) as u8);
    assert(final(out)@ =~= old(out)@ + le16(x));
}

/// Appends `src[start..end]` to `out`.
fn append_range(out: &mut Vec<u8>, src: &[u8], start: usize, end: usize)
    requires
        start <= end <= src@.len(),
    ensures
        final(out)@ == old(out)@ + src@.subrange(start as int, end as int),
{
    let mut i: usize = start;
    while i < end
        invariant
            start <= i <= end <= src@.len(),
            out@ == old(out)@ + src@.subrange(start as int, i as int),
        decreases end - i,
    {
        out.push(src[i]);
        assert(src@.subrange(start as int, i + 1) =~= src@.subrange(start as int, i as int).push(src@[i as int]));
        i += 1;
    }
}

// ---------------------------------------------------------------------------
// CRC-32 (reflected, polynomial 0xEDB88320)
// ---------------------------------------------------------------------------

/// One bit step of the reflected CRC-32 register.
pub open spec fn crc_shift(c: u32) -> u32 {
    (c >> 1u32) ^ (if c & 1u32 != 0 { 0xEDB88320u32 } else { 0u32 })
}

/// `k` bit steps of the register.
pub open spec fn crc_shifts(c: u32, k: nat) -> u32
    decreases k,
{
    if k == 0 {
        c
    } else {
        crc_shift(crc_shifts(c, (k - 1) as nat))
    }
}

/// The register after one more byte.
pub open spec fn crc_byte(c: u32, b: u8) -> u32 {
    crc_shifts(c ^ (b as u32), 8)
}

/// The register after all bytes of `s`, starting from all ones.
pub open spec fn crc_register(s: Seq<u8>) -> u32
    decreases s.len(),
{
    if s.len() == 0 {
        0xFFFF_FFFFu32
    } else {
        crc_byte(crc_register(s.drop_last()), s.last())
    }
}

/// The CRC-32 of `s`: the final register, inverted.
pub open spec fn crc32_of(s: Seq<u8>) -> u32 {
    !crc_register(s)
}

/// The CRC-32 of `data`.
pub fn crc32(data: &[u8]) -> (r: u32)
    ensures
        r == crc32_of(data@),
{
    let mut crc: u32 = 0xFFFF_FFFF;
    let mut i: usize = 0;
    while i < data.len()
        invariant
            i <= data@.len(),
            crc == crc_register(data@.take(i as int)),
        decreases data@.len() - i,
    {
        let b: u8 = data[i];
        crc = crc ^ (b as u32);
        let ghost start: u32 = crc;
        let mut k: u32 = 0;
        while k < 8
            invariant
                k <= 8,
                crc == crc_shifts(start, k as nat),
            decreases 8 - k,
        {
            let mask: u32 = if crc & 1u32 != 0 { 0xEDB88320u32 } else { 0u32 };
            crc = (crc >> 1u32) ^ mask;
            k += 1;
        }
        assert(data@.take(i + 1).drop_last() =~= data@.take(i as int));
        i += 1;
    }
    assert(data@.take(data@.len() as int) =~= data@);
    !crc
}

// ---------------------------------------------------------------------------
// Adler-32
// ---------------------------------------------------------------------------

/// The Adler-32 modulus.
pub const ADLER_MOD: u32 = 65521;

/// The sum of the bytes of `s`.
pub open spec fn byte_sum(s: Seq<u8>) -> int
    decreases s.len(),
{
    if s.len() == 0 {
        0
    } else {
        byte_sum(s.drop_last()) + s.last()
    }
}

/// The Adler-32 `A` sum before reduction: one plus the sum of the bytes.
pub open spec fn adler_a_total(s: Seq<u8>) -> int {
    1 + byte_sum(s)
}

/// The Adler-32 `B` sum before reduction: the sum of the `A` sums of every
/// non-empty prefix.
pub open spec fn adler_b_total(s: Seq<u8>) -> int
    decreases s.len(),
{
    if s.len() == 0 {
        0
    } else {
        adler_b_total(s.drop_last()) + adler_a_total(s)
    }
}

/// The Adler-32 checksum of `s`: `B mod 65521` in the high half, `A mod
/// 65521` in the low half.
pub open spec fn adler32_of(s: Seq<u8>) -> u32 {
    ((adler_b_total(s) % 65521) * 65536 + adler_a_total(s) % 65521) as u32
}

/// The Adler-32 checksum of `data`.
pub fn adler32(data: &[u8]) -> (r: u32)
    ensures
        r == adler32_of(data@),
{
    let mut a: u32 = 1;
    let mut b: u32 = 0;
    let mut i: usize = 0;
    while i < data.len()
        invariant
            i <= data@.len(),
            a < 65521,
            b < 65521,
            a == adler_a_total(data@.take(i as int)) % 65521,
            b == adler_b_total(data@.take(i as int)) % 65521,
        decreases data@.len() - i,
    {
        let byte: u8 = data[i];
        let ghost prev = data@.take(i as int);
        let ghost next = data@.take(i + 1);
        assert(next.drop_last() =~= prev);
        assert(next.last() == byte);
        a = (a + byte as u32) % ADLER_MOD;
        b = (b + a) % ADLER_MOD;
        proof {
            lemma_add_mod_noop(adler_a_total(prev), byte as int, 65521);
            assert((byte as int) % 65521 == byte as int);
            assert(adler_a_total(next) == adler_a_total(prev) + byte);
            lemma_add_mod_noop(adler_b_total(prev), adler_a_total(next), 65521);
            assert(adler_b_total(next) == adler_b_total(prev) + adler_a_total(next));
        }
        i += 1;
    }
    assert(data@.take(data@.len() as int) =~= data@);
    assert((b << 16u32) | a == b * 65536 + a) by (bit_vector)
        requires
            a < 65536,
            b < 65536,
    ;
    (b << 16u32) | a
}


// ---------------------------------------------------------------------------
// Zlib stream of stored (uncompressed) deflate blocks
// ---------------------------------------------------------------------------

/// The largest payload of one stored block.
pub const MAX_STORED_BLOCK: usize = 65535;

/// How many bytes the stored block that starts at `off` carries.
pub open spec fn stored_take(raw: Seq<u8>, off: int) -> int {
    if raw.len() - off < 65535 { raw.len() - off } else { 65535 }
}

/// The stored block that starts at `off`: its final-block flag, its length
/// and the length's complement, little-endian, then the bytes.
pub open spec fn stored_block(raw: Seq<u8>, off: int) -> Seq<u8> {
    let take = stored_take(raw, off);
    seq![if off + take >= raw.len() { 1u8 } else { 0u8 }]
        + le16(take as u16)
        + le16(!(take as u16))
        + raw.subrange(off, off + take)
}

/// The stored blocks that carry `raw[off..]`, each of at most 65535 bytes;
/// the last one has the final-block flag.
pub open spec fn stored_blocks(raw: Seq<u8>, off: int) -> Seq<u8>
    decreases raw.len() - off,
{
    if off < 0 || off >= raw.len() {
        Seq::empty()
    } else {
        stored_block(raw, off) + stored_blocks(raw, off + stored_take(raw, off))
    }
}

/// The zlib stream of `raw`: header `78 01`, the stored blocks, and the
/// Adler-32 of `raw`, big-endian.
pub open spec fn zlib_stored(raw: Seq<u8>) -> Seq<u8> {
    seq![0x78u8, 0x01u8] + stored_blocks(raw, 0) + be32(adler32_of(raw))
}

/// Wraps `raw` in a zlib stream of stored deflate blocks.
pub fn zlib_stored_stream(raw: &[u8]) -> (r: Vec<u8>)
    ensures
        r@ == zlib_stored(raw@),
{
    let mut zlib: Vec<u8> = Vec::new();
    zlib.push(0x78u8);
    zlib.push(0x01u8);
    let mut offset: usize = 0;
    while offset < raw.len()
        invariant
            offset <= raw@.len(),
            zlib@ + stored_blocks(raw@, offset as int) == seq![0x78u8, 0x01u8] + stored_blocks(raw@, 0),
        decreases raw@.len() - offset,
    {
        let remaining: usize = raw.len() - offset;
        let take: usize = if remaining < MAX_STORED_BLOCK { remaining } else { MAX_STORED_BLOCK };
        let is_last: bool = offset + take >= raw.len();
        let ghost before = zlib@;
        zlib.push(if is_last { 1u8 } else { 0u8 });
        let len: u16 = take as u16;
        let nlen: u16 = !len;
        push_le16(&mut zlib, len);
        push_le16(&mut zlib, nlen);
        append_range(&mut zlib, raw, offset, offset + take);
        proof {
            assert(zlib@ =~= before + stored_block(raw@, offset as int));
            assert(stored_blocks(raw@, offset as int) == stored_block(raw@, offset as int) + stored_blocks(
                raw@,
                offset + take,
            ));
            assert(before + stored_blocks(raw@, offset as int) =~= zlib@ + stored_blocks(raw@, offset + take));
        }
        offset += take;
    }
    proof {
        assert(stored_blocks(raw@, offset as int) =~= Seq::<u8>::empty());
        assert(zlib@ + stored_blocks(raw@, offset as int) =~= zlib@);
    }
    let checksum: u32 = adler32(raw);
    push_be32(&mut zlib, checksum);
    zlib
}


// ---------------------------------------------------------------------------
// PNG
// ---------------------------------------------------------------------------

/// The PNG file signature.
pub open spec fn png_signature() -> Seq<u8> {
    seq![137u8, 80u8, 78u8, 71u8, 13u8, 10u8, 26u8, 10u8]
}

/// The chunk tags, as bytes.
pub open spec fn tag_ihdr() -> Seq<u8> {
    seq![73u8, 72u8, 68u8, 82u8]
}

pub open spec fn tag_idat() -> Seq<u8> {
    seq![73u8, 68u8, 65u8, 84u8]
}

pub open spec fn tag_iend() -> Seq<u8> {
    seq![73u8, 69u8, 78u8, 68u8]
}

/// A PNG chunk: the data length (as a 32-bit value), the tag, the data, and
/// the CRC-32 of tag and data.
pub open spec fn png_chunk(tag: Seq<u8>, data: Seq<u8>) -> Seq<u8> {
    be32(data.len() as u32) + tag + data + be32(crc32_of(tag + data))
}

/// The header data: width, height, 8-bit depth, RGBA colour type, default
/// compression, filter and interlace.
pub open spec fn ihdr_data(width: u32, height: u32) -> Seq<u8> {
    be32(width) + be32(height) + seq![8u8, 6u8, 0u8, 0u8, 0u8]
}

/// The filtered image data: each of the first `rows` rows of `row_len`
/// bytes, preceded by filter type 0.
pub open spec fn scanlines(rgba: Seq<u8>, row_len: int, rows: int) -> Seq<u8>
    decreases rows,
{
    if rows <= 0 {
        Seq::empty()
    } else {
        scanlines(rgba, row_len, rows - 1) + seq![0u8] + rgba.subrange((rows - 1) * row_len, rows * row_len)
    }
}

/// The PNG file of a `width` x `height` RGBA image whose rows are stored one
/// after another in `rgba`.
pub open spec fn png_file(rgba: Seq<u8>, width: u32, height: u32) -> Seq<u8> {
    png_signature()
        + png_chunk(tag_ihdr(), ihdr_data(width, height))
        + png_chunk(tag_idat(), zlib_stored(scanlines(rgba, width * 4, height as int)))
        + png_chunk(tag_iend(), Seq::empty())
}

/// Whether the sizes of a `width` x `height` image fit the 32-bit arithmetic
/// of the encoder and `len` bytes hold its pixels.
pub open spec fn png_sizes_fit(len: int, width: u32, height: u32) -> bool {
    &&& width * 4 + 1 <= u32::MAX
    &&& (width * 4 + 1) * height <= u32::MAX
    &&& (width as int) * (height as int) * 4 <= len
}

/// Whether a `width` x `height` image with `len` bytes of pixels can be
/// encoded (see `png_sizes_fit`).
pub fn png_sizes_ok(len: usize, width: u32, height: u32) -> (r: bool)
    ensures
        r == png_sizes_fit(len as int, width, height),
{
    let w: u128 = width as u128;
    let h: u128 = height as u128;
    let row: u128 = w * 4 + 1;
    assert(row * h <= 0x4_0000_0000 * 0x1_0000_0000) by (nonlinear_arith)
        requires
            row <= 0x4_0000_0000,
            h <= 0x1_0000_0000,
    ;
    assert(w * h <= 0x1_0000_0000 * 0x1_0000_0000) by (nonlinear_arith)
        requires
            w <= 0x1_0000_0000,
            h <= 0x1_0000_0000,
    ;
    let fits_row: bool = row <= u32::MAX as u128;
    let fits_rows: bool = row * h <= u32::MAX as u128;
    let fits_len: bool = w * h * 4 <= len as u128;
    proof {
        assert((w * 4 + 1) * h == (width * 4 + 1) * height);
        assert(w * h * 4 == (width as int) * (height as int) * 4);
    }
    fits_row && fits_rows && fits_len
}

/// Appends the chunk `tag`/`data` to `out`.
fn append_chunk(out: &mut Vec<u8>, tag: &[u8], data: &[u8])
    ensures
        final(out)@ == old(out)@ + png_chunk(tag@, data@),
{
    push_be32(out, data.len() as u32);
    append_range(out, tag, 0, tag.len());
    append_range(out, data, 0, data.len());
    let mut crc_data: Vec<u8> = Vec::new();
    append_range(&mut crc_data, tag, 0, tag.len());
    append_range(&mut crc_data, data, 0, data.len());
    let crc: u32 = crc32(crc_data.as_slice());
    push_be32(out, crc);
    proof {
        assert(tag@.subrange(0, tag@.len() as int) =~= tag@);
        assert(data@.subrange(0, data@.len() as int) =~= data@);
        assert(crc_data@ =~= tag@ + data@);
        assert(final(out)@ =~= old(out)@ + png_chunk(tag@, data@));
    }
}

proof fn lemma_row_bounds(y: int, rows: int, row_len: int, len: int)
    requires
        0 <= y < rows,
        0 <= row_len,
        rows * row_len <= len,
    ensures
        0 <= y * row_len,
        y * row_len + row_len == (y + 1) * row_len,
        (y + 1) * row_len <= len,
{
    assert(y * row_len + row_len == (y + 1) * row_len) by (nonlinear_arith);
    assert(0 <= y * row_len) by (nonlinear_arith)
        requires
            0 <= y,
            0 <= row_len,
    ;
    assert((y + 1) * row_len <= rows * row_len) by (nonlinear_arith)
        requires
            y + 1 <= rows,
            0 <= row_len,
    ;
}

/// Encodes `width` x `height` RGBA pixels, row after row, as a PNG file with
/// a single stored-zlib `IDAT` chunk.
pub fn encode_png_rgba(rgba: &[u8], width: u32, height: u32) -> (r: Result<Vec<u8>>)
    requires
        png_sizes_fit(rgba@.len() as int, width, height),
    ensures
        r matches Ok(png) && png@ == png_file(rgba@, width, height),
{
    let row_len: usize = (width * 4) as usize;
    let rows: usize = height as usize;
    proof {
        assert((width as int) * (height as int) * 4 == (width * 4) * (height as int)) by (nonlinear_arith);
    }
    let total: usize = rgba.len();
    let mut raw: Vec<u8> = Vec::new();
    let mut y: usize = 0;
    while y < rows
        invariant
            total == rgba@.len(),
            y <= rows,
            rows == height,
            row_len == width * 4,
            (row_len as int) * (rows as int) <= rgba@.len(),
            raw@ == scanlines(rgba@, row_len as int, y as int),
        decreases rows - y,
    {
        proof {
            lemma_row_bounds(y as int, rows as int, row_len as int, rgba@.len() as int);
            assert((rows as int) * (row_len as int) == (row_len as int) * (rows as int)) by (nonlinear_arith);
        }
        raw.push(0u8);
        let start: usize = y * row_len;
        let end: usize = start + row_len;
        append_range(&mut raw, rgba, start, end);
        proof {
            assert(raw@ =~= scanlines(rgba@, row_len as int, y + 1));
        }
        y += 1;
    }
    let zlib: Vec<u8> = zlib_stored_stream(raw.as_slice());

    let mut out: Vec<u8> = Vec::new();
    out.push(137u8);
    out.push(80u8);
    out.push(78u8);
    out.push(71u8);
    out.push(13u8);
    out.push(10u8);
    out.push(26u8);
    out.push(10u8);
    let mut ihdr: Vec<u8> = Vec::new();
    push_be32(&mut ihdr, width);
    push_be32(&mut ihdr, height);
    ihdr.push(8u8);
    ihdr.push(6u8);
    ihdr.push(0u8);
    ihdr.push(0u8);
    ihdr.push(0u8);
    let ihdr_tag: Vec<u8> = vec![73u8, 72u8, 68u8, 82u8];
    let idat_tag: Vec<u8> = vec![73u8, 68u8, 65u8, 84u8];
    let iend_tag: Vec<u8> = vec![73u8, 69u8, 78u8, 68u8];
    let empty: Vec<u8> = Vec::new();
    let ghost sig = out@;
    append_chunk(&mut out, ihdr_tag.as_slice(), ihdr.as_slice());
    append_chunk(&mut out, idat_tag.as_slice(), zlib.as_slice());
    append_chunk(&mut out, iend_tag.as_slice(), empty.as_slice());
    proof {
        assert(sig =~= png_signature());
        assert(ihdr@ =~= ihdr_data(width, height));
        assert(ihdr_tag@ =~= tag_ihdr());
        assert(idat_tag@ =~= tag_idat());
        assert(iend_tag@ =~= tag_iend());
        assert(empty@ =~= Seq::<u8>::empty());
        assert(out@ =~= png_file(rgba@, width, height));
    }
    Ok(out)
}


/// `s` with the first and third byte of every complete 4-byte pixel
/// exchanged (BGRA to RGBA); a trailing partial pixel is left as it is.
pub open spec fn swap_red_blue(s: Seq<u8>) -> Seq<u8> {
    Seq::new(
        s.len(),
        |i: int|
            if i < (s.len() / 4) * 4 {
                if i % 4 == 0 {
                    s[i + 2]
                } else if i % 4 == 2 {
                    s[i - 2]
                } else {
                    s[i]
                }
            } else {
                s[i]
            },
    )
}

/// Turns BGRA pixels into RGBA pixels in place.
pub fn swap_red_blue_in_place(pixels: &mut Vec<u8>)
    ensures
        final(pixels)@ == swap_red_blue(old(pixels)@),
{
    let ghost orig = pixels@;
    let len: usize = pixels.len();
    let mut i: usize = 0;
    while len - i >= 4
        invariant
            len == orig.len(),
            pixels@.len() == len,
            i <= len,
            i % 4 == 0,
            forall|j: int| 0 <= j < i ==> pixels@[j] == #[trigger] swap_red_blue(orig)[j],
            forall|j: int| i <= j < len ==> #[trigger] pixels@[j] == orig[j],
        decreases len - i,
    {
        let first: u8 = pixels[i];
        let third: u8 = pixels[i + 2];
        pixels.set(i, third);
        pixels.set(i + 2, first);
        i += 4;
    }
    assert(i == (len / 4) * 4);
    assert(pixels@ =~= swap_red_blue(orig));
}

/// Encodes the 32-bit BGRA pixels of a top-down bitmap as a PNG file.
pub fn bgra_pixels_to_png(pixels: Vec<u8>, width: u32, height: u32) -> (r: Result<Vec<u8>>)
    requires
        png_sizes_fit(pixels@.len() as int, width, height),
    ensures
        r matches Ok(png) && png@ == png_file(swap_red_blue(pixels@), width, height),
{
    let mut pixels = pixels;
    swap_red_blue_in_place(&mut pixels);
    encode_png_rgba(pixels.as_slice(), width, height)
}

// ---------------------------------------------------------------------------
// Data URL
// ---------------------------------------------------------------------------

/// The character of a 6-bit value in the standard base64 alphabet
/// (RFC 4648, table 1): `A`-`Z`, `a`-`z`, `0`-`9`, `+`, `/`.
pub open spec fn base64_digit(v: int) -> char {
    if v < 26 {
        (65 + v) as char
    } else if v < 52 {
        (97 + v - 26) as char
    } else if v < 62 {
        (48 + v - 52) as char
    } else if v == 62 {
        '+'
    } else {
        '/'
    }
}

/// The standard padded base64 text of `bytes` (RFC 4648, section 4): each
/// group of three bytes, read as 24 bits, gives four digits of six bits; a
/// final group of one or two bytes is filled with zero bits and padded with
/// `=` to four characters.
pub open spec fn base64_standard(bytes: Seq<u8>) -> Seq<char>
    decreases bytes.len(),
{
    if bytes.len() == 0 {
        Seq::empty()
    } else if bytes.len() == 1 {
        let a = bytes[0] as int;
        seq![base64_digit(a / 4), base64_digit((a % 4) * 16), '=', '=']
    } else if bytes.len() == 2 {
        let a = bytes[0] as int;
        let b = bytes[1] as int;
        seq![base64_digit(a / 4), base64_digit((a % 4) * 16 + b / 16), base64_digit((b % 16) * 4), '=']
    } else {
        let a = bytes[0] as int;
        let b = bytes[1] as int;
        let c = bytes[2] as int;
        seq![
            base64_digit(a / 4),
            base64_digit((a % 4) * 16 + b / 16),
            base64_digit((b % 16) * 4 + c / 64),
            base64_digit(c % 64),
        ] + base64_standard(bytes.subrange(3, bytes.len() as int))
    }
}

/// The length of padded base64 text for `n` bytes: four characters for
/// every started group of three bytes.
pub open spec fn base64_padded_len(n: int) -> int {
    (n / 3) * 4 + (if n % 3 > 0 { 4int } else { 0int })
}

/// Whether the base64 text of `len` bytes has a length that fits `usize`.
pub fn base64_fits(len: usize) -> (r: bool)
    ensures
        r == (base64_padded_len(len as int) <= usize::MAX),
{
    let n: u128 = len as u128;
    let out: u128 = (n / 3) * 4 + (if n % 3 > 0 { 4 } else { 0 });
    out <= usize::MAX as u128
}

/// Calls `base64::Engine::encode` on `base64::engine::general_purpose::STANDARD`.
/// Trusted: `STANDARD` is the engine of the standard alphabet with padding,
/// so the result is the RFC 4648 base64 text of `bytes` (`base64_standard`);
/// the call panics when the padded length overflows `usize`, which
/// `requires` rules out.
#[verifier::external_body]
fn base64_encode(bytes: &[u8]) -> (r: String)
    requires
        base64_padded_len(bytes@.len() as int) <= usize::MAX,
    ensures
        r@ == base64_standard(bytes@),
{
    base64::Engine::encode(&base64::engine::general_purpose::STANDARD, bytes)
}

/// The prefix of a PNG data URL.
pub open spec fn png_data_url_prefix() -> Seq<char> {
    "data:image/png;base64,"@
}

/// The PNG data URL whose payload is the base64 text `encoded`.
pub fn data_url_from_base64(encoded: &str) -> (r: String)
    ensures
        r@ == png_data_url_prefix() + encoded@,
{
    let mut v: Vec<char> = Vec::new();
    push_str(&mut v, "data:image/png;base64,");
    push_str(&mut v, encoded);
    string_from_chars(&v)
}

/// The PNG data URL of the PNG file `png`.
pub fn png_data_url(png: &[u8]) -> (r: String)
    requires
        base64_padded_len(png@.len() as int) <= usize::MAX,
    ensures
        r@ == png_data_url_prefix() + base64_standard(png@),
{
    let encoded: String = base64_encode(png);
    data_url_from_base64(encoded.as_str())
}


// ---------------------------------------------------------------------------
// Choosing the icon source
// ---------------------------------------------------------------------------

/// What to do after asking the shell item image factory for an icon.
#[derive(Debug)]
pub enum IconStep {
    /// The shell item gave a non-empty PNG: use it.
    Done(Vec<u8>),
    /// Fall back to the icon of `SHGetFileInfoW`.
    TryFileInfo,
}

/// Decides on the result of the shell item extraction: a non-empty PNG is
/// used; an error or an empty PNG falls back to `SHGetFileInfoW`.
pub fn extract_icon_png(shell_item: Result<Vec<u8>>) -> (r: IconStep)
    ensures
        match shell_item {
            Ok(bytes) => if bytes@.len() > 0 {
                r matches IconStep::Done(b) && b@ == bytes@
            } else {
                r is TryFileInfo
            },
            Err(_) => r is TryFileInfo,
        },
{
    match shell_item {
        Ok(bytes) => {
            if bytes.len() > 0 {
                IconStep::Done(bytes)
            } else {
                IconStep::TryFileInfo
            }
        },
        Err(_) => IconStep::TryFileInfo,
    }
}

} // verus!
