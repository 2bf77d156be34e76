//! A minimal PNG encoder for RGBA screenshots: zlib "stored" (uncompressed)
//! deflate blocks, with the CRC-32 and Adler-32 checksums the formats need.

use vstd::prelude::*;

verus! {

/// The reflected CRC-32 polynomial (ISO 3309, as PNG uses it).
pub const CRC32_POLY: u32 = 0xEDB8_8320;

/// The Adler-32 modulus.
pub const ADLER_MOD: u32 = 65521;

/// One bit step of the CRC register.
pub open spec fn crc_bit(c: u32) -> u32 {
    if c & 1 != 0 {
        (c >> 1u32) ^ CRC32_POLY
    } else {
        c >> 1u32
    }
}

/// `n` bit steps.
pub open spec fn crc_bits(c: u32, n: nat) -> u32
    decreases n,
{
    if n == 0 {
        c
    } else {
        crc_bit(crc_bits(c, (n - 1) as nat))
    }
}

/// The CRC register after feeding one byte.
pub open spec fn crc_byte(c: u32, b: u8) -> u32 {
    crc_bits(c ^ (b as u32), 8)
}

/// The CRC register after feeding `data`, starting from `c`.
pub open spec fn crc_update(c: u32, data: Seq<u8>) -> u32
    decreases data.len(),
{
    if data.len() == 0 {
        c
    } else {
        crc_byte(crc_update(c, data.drop_last()), data.last())
    }
}

/// CRC-32 of `data`: the register starts at all ones and is complemented at
/// the end.
pub open spec fn crc32_spec(data: Seq<u8>) -> u32 {
    !crc_update(0xFFFF_FFFFu32, data)
}

/// Standard CRC-32 (ISO 3309 / PNG).
pub fn crc32(data: &[u8]) -> (crc: u32)
    ensures
        crc == crc32_spec(data@),
{
    let mut crc: u32 = 0xFFFF_FFFF;
    let n = data.len();
    let mut i: usize = 0;
    while i < n
        invariant
            n == data@.len(),
            i <= n,
            crc == crc_update(0xFFFF_FFFFu32, data@.take(i as int)),
        decreases n - i,
    {
        let ghost before = crc;
        crc = crc ^ (data[i] as u32);
        let mut k: u32 = 0;
        while k < 8
            invariant
                k <= 8,
                crc == crc_bits(before ^ (data@[i as int] as u32), k as nat),
            decreases 8 - k,
        {
            if crc & 1 != 0 {
                crc = (crc >> 1u32) ^ CRC32_POLY;
            } else {
                crc = crc >> 1u32;
            }
            k = k + 1;
        }
        assert(data@.take(i + 1).drop_last() =~= data@.take(i as int));
        i = i + 1;
    }
    assert(data@.take(n as int) =~= data@);
    !crc
}

/// The Adler-32 sums `(a, b)` after `data`.
pub open spec fn adler_sums(data: Seq<u8>) -> (u32, u32)
    decreases data.len(),
{
    if data.len() == 0 {
        (1, 0)
    } else {
        let (a0, b0) = adler_sums(data.drop_last());
        let a = ((a0 + data.last()) % (ADLER_MOD as int)) as u32;
        let b = ((b0 + a) % (ADLER_MOD as int)) as u32;
        (a, b)
    }
}

/// Adler-32 of `data`: `b` in the high half, `a` in the low half.
pub open spec fn adler32_spec(data: Seq<u8>) -> u32 {
    let (a, b) = adler_sums(data);
    (b << 16u32) | a
}

proof fn lemma_adler_sums_bound(data: Seq<u8>)
    ensures
        adler_sums(data).0 < ADLER_MOD,
        adler_sums(data).1 < ADLER_MOD,
    decreases data.len(),
{
    if data.len() > 0 {
        lemma_adler_sums_bound(data.drop_last());
    }
}

/// Adler-32 checksum (the zlib trailer).
pub fn adler32(data: &[u8]) -> (sum: u32)
    ensures
        sum == adler32_spec(data@),
{
    let mut a: u32 = 1;
    let mut b: u32 = 0;
    let n = data.len();
    let mut i: usize = 0;
    while i < n
        invariant
            n == data@.len(),
            i <= n,
            (a, b) == adler_sums(data@.take(i as int)),
            a < ADLER_MOD,
            b < ADLER_MOD,
        decreases n - i,
    {
        a = (a + data[i] as u32) % ADLER_MOD;
        b = (b + a) % ADLER_MOD;
        assert(data@.take(i + 1).drop_last() =~= data@.take(i as int));
        i = i + 1;
    }
    assert(data@.take(n as int) =~= data@);
    (b << 16u32) | a
}


/// A 32-bit value, most significant byte first.
pub open spec fn be32(x: u32) -> Seq<u8> {
    seq![(x >> 24u32) as u8, (x >> 16u32) as u8, (x >> 8u32) as u8, x as u8]
}

/// A 16-bit value, least significant byte first.
pub open spec fn le16(x: u16) -> Seq<u8> {
    seq![x as u8, (x >> 8u16) as u8]
}

fn push_be32(out: &mut Vec<u8>, x: u32)
    ensures
        final(out)@ == old(out)@ + be32(x),
{
    out.push((x >> 24u32) as u8);
    out.push((x >> 16u32) as u8);
    out.push((x >> 8u32) as u8);
    out.push(x as u8);
    assert(final(out)@ =~= old(out)@ + be32(x));
}

fn push_le16(out: &mut Vec<u8>, x: u16)
    ensures
        final(out)@ == old(out)@ + le16(x),
{
    out.push(x as u8);
    out.push((x >> 8u16) as u8);
    assert(final(out)@ =~= old(out)@ + le16(x));
}

fn push_bytes(out: &mut Vec<u8>, data: &[u8], from: usize, to: usize)
    requires
        from <= to <= data@.len(),
    ensures
        final(out)@ == old(out)@ + data@.subrange(from as int, to as int),
{
    let ghost o = out@;
    let mut i = from;
    while i < to
        invariant
            from <= i <= to,
            to <= data@.len(),
            out@ == o + data@.subrange(from as int, i as int),
        decreases to - i,
    {
        out.push(data[i]);
        assert(data@.subrange(from as int, i + 1) =~= data@.subrange(from as int, i as int).push(data@[i as int]));
        i = i + 1;
    }
}

/// A PNG chunk: the length of its data (big-endian), its type, its data, and
/// the CRC-32 of type and data.
pub open spec fn chunk(ty: Seq<u8>, data: Seq<u8>) -> Seq<u8> {
    be32(data.len() as u32) + ty + data + be32(crc32_spec(ty + data))
}

/// Appends a PNG chunk.
pub fn write_chunk(out: &mut Vec<u8>, chunk_type: &[u8; 4], data: &[u8])
    ensures
        final(out)@ == old(out)@ + chunk(chunk_type@, data@),
{
    let len = data.len() as u32;
    push_be32(out, len);
    push_bytes(out, chunk_type.as_slice(), 0, 4);
    push_bytes(out, data, 0, data.len());
    let mut crc_data: Vec<u8> = Vec::new();
    push_bytes(&mut crc_data, chunk_type.as_slice(), 0, 4);
    push_bytes(&mut crc_data, data, 0, data.len());
    let crc = crc32(crc_data.as_slice());
    push_be32(out, crc);
    assert(chunk_type@.subrange(0, 4) =~= chunk_type@);
    assert(data@.subrange(0, data@.len() as int) =~= data@);
    assert(final(out)@ =~= old(out)@ + chunk(chunk_type@, data@));
}


/// The scanlines of an image whose rows are `w4` bytes: each row preceded by
/// filter type 0 (none).
pub open spec fn raw_rows(rgba: Seq<u8>, w4: nat, h: nat) -> Seq<u8>
    decreases h,
{
    if h == 0 {
        Seq::empty()
    } else {
        raw_rows(rgba, w4, (h - 1) as nat) + seq![0u8] + rgba.subrange((h - 1) * w4, (h * w4) as int)
    }
}

/// The largest payload of a stored deflate block.
pub const MAX_STORED: usize = 65535;

/// Stored deflate blocks carrying `raw[offset..]`: each block is its final
/// flag, its length and the length's complement (little-endian), then up to
/// 65535 bytes.
#[verifier::opaque]
pub open spec fn stored_blocks(raw: Seq<u8>, offset: nat) -> Seq<u8>
    decreases raw.len() - offset,
{
    if offset >= raw.len() {
        Seq::empty()
    } else {
        let remaining = (raw.len() - offset) as nat;
        let size: nat = if remaining < MAX_STORED { remaining } else { MAX_STORED as nat };
        let last = offset + size >= raw.len();
        seq![if last { 1u8 } else { 0u8 }] + le16(size as u16) + le16(!(size as u16))
            + raw.subrange(offset as int, (offset + size) as int) + stored_blocks(raw, offset + size)
    }
}

/// A zlib stream of stored blocks: header `78 01`, the blocks, and the
/// Adler-32 of the data.
#[verifier::opaque]
pub open spec fn zlib_stored(raw: Seq<u8>) -> Seq<u8> {
    seq![0x78u8, 0x01u8] + stored_blocks(raw, 0) + be32(adler32_spec(raw))
}

/// What a decoder reads from a run of stored deflate blocks: each block's
/// payload, up to and including the block flagged final, which must end
/// the run; `None` for anything malformed (a block type other than stored,
/// a length whose complement does not match, a short payload).
pub open spec fn inflate_stored(z: Seq<u8>) -> Option<Seq<u8>>
    decreases z.len(),
{
    if z.len() < 5 {
        None
    } else {
        let len = z[1] as nat + 256 * (z[2] as nat);
        let nlen = z[3] as nat + 256 * (z[4] as nat);
        if z[0] > 1 || len + nlen != 65535 || z.len() < 5 + len {
            None
        } else if z[0] == 1 {
            if z.len() == 5 + len {
                Some(z.subrange(5, (5 + len) as int))
            } else {
                None
            }
        } else {
            match inflate_stored(z.subrange((5 + len) as int, z.len() as int)) {
                Some(r) => Some(z.subrange(5, (5 + len) as int) + r),
                None => None,
            }
        }
    }
}

proof fn lemma_le16_value(x: u16)
    ensures
        (x as u8) as nat + 256 * ((x >> 8u16) as u8) as nat == x as nat,
        ((!x) as u8) as nat + 256 * (((!x) >> 8u16) as u8) as nat == 65535 - x as nat,
{
    let y = !x;
    assert((x as u8) as int + 256 * ((x >> 8u16) as u8) as int == x as int) by (bit_vector);
    assert((y as u8) as int + 256 * ((y >> 8u16) as u8) as int == y as int) by (bit_vector);
    assert(y as int == 65535 - x as int) by (bit_vector)
        requires
            y == !x,
    ;
}

/// Stored blocks read back as the bytes they were written from, whatever
/// their number (each carries at most 65535 bytes).
#[verifier::spinoff_prover]
#[verifier::rlimit(40)]
pub proof fn lemma_stored_blocks_inflate(raw: Seq<u8>, offset: nat)
    requires
        offset < raw.len(),
    ensures
        inflate_stored(stored_blocks(raw, offset)) == Some(raw.subrange(offset as int, raw.len() as int)),
    decreases raw.len() - offset,
{
    reveal_with_fuel(inflate_stored, 1);
    reveal_with_fuel(stored_blocks, 1);
    let remaining = (raw.len() - offset) as nat;
    let size: nat = if remaining < MAX_STORED { remaining } else { MAX_STORED as nat };
    let last = offset + size >= raw.len();
    let s16 = size as u16;
    let flag: u8 = if last { 1u8 } else { 0u8 };
    let payload = raw.subrange(offset as int, (offset + size) as int);
    let rest = stored_blocks(raw, offset + size);
    let z = stored_blocks(raw, offset);
    let hdr = seq![flag] + le16(s16) + le16(!s16);
    assert(z == hdr + payload + rest);
    lemma_le16_value(s16);
    assert(s16 as nat == size);
    assert(z[0] == flag);
    assert(z[1] == s16 as u8);
    assert(z[2] == (s16 >> 8u16) as u8);
    assert(z[3] == (!s16) as u8);
    assert(z[4] == ((!s16) >> 8u16) as u8);
    assert(z.subrange(5, (5 + size) as int) =~= payload);
    assert(z.subrange((5 + size) as int, z.len() as int) =~= rest);
    if last {
        assert(offset + size == raw.len());
        assert(rest.len() == 0);
    } else {
        lemma_stored_blocks_inflate(raw, offset + size);
        assert(payload + raw.subrange((offset + size) as int, raw.len() as int) =~= raw.subrange(
            offset as int,
            raw.len() as int,
        ));
    }
}

/// The zlib stream: a header `78 01` (deflate, 32K window) that passes
/// its check (`(CMF * 256 + FLG) % 31 == 0`), stored blocks that
/// read back as the data, and the data's Adler-32 last. Holds for any
/// non-empty data (with none, no block is written).
pub proof fn lemma_zlib_stored_round_trip(raw: Seq<u8>)
    requires
        raw.len() > 0,
    ensures
        zlib_stored(raw).len() >= 6,
        zlib_stored(raw)[0] == 0x78u8,
        (zlib_stored(raw)[0] as int * 256 + zlib_stored(raw)[1] as int) % 31 == 0,
        zlib_stored(raw).subrange(zlib_stored(raw).len() - 4, zlib_stored(raw).len() as int) == be32(
            adler32_spec(raw),
        ),
        inflate_stored(zlib_stored(raw).subrange(2, zlib_stored(raw).len() - 4)) == Some(raw),
{
    lemma_zlib_layout(raw);
    lemma_stored_blocks_read_back(raw);
    lemma_zlib_parts(raw, zlib_stored(raw), stored_blocks(raw, 0), be32(adler32_spec(raw)));
}

proof fn lemma_zlib_layout(raw: Seq<u8>)
    ensures
        zlib_stored(raw) == seq![0x78u8, 0x01u8] + stored_blocks(raw, 0) + be32(adler32_spec(raw)),
{
    reveal(zlib_stored);
}

proof fn lemma_stored_blocks_read_back(raw: Seq<u8>)
    requires
        raw.len() > 0,
    ensures
        inflate_stored(stored_blocks(raw, 0)) == Some(raw),
{
    lemma_stored_blocks_inflate(raw, 0);
    assert(raw.subrange(0, raw.len() as int) =~= raw);
}

proof fn lemma_zlib_parts(raw: Seq<u8>, z: Seq<u8>, blocks: Seq<u8>, tail: Seq<u8>)
    requires
        z == seq![0x78u8, 0x01u8] + blocks + tail,
        tail.len() == 4,
        inflate_stored(blocks) == Some(raw),
    ensures
        z.len() >= 6,
        z[0] == 0x78u8,
        (z[0] as int * 256 + z[1] as int) % 31 == 0,
        z.subrange(z.len() - 4, z.len() as int) == tail,
        inflate_stored(z.subrange(2, z.len() - 4)) == Some(raw),
{
    let head = seq![0x78u8, 0x01u8];
    assert(z[0] == head[0] && z[1] == head[1]);
    assert(z.subrange(2, z.len() - 4) =~= blocks);
    assert(z.subrange(z.len() - 4, z.len() as int) =~= tail);
}

/// Converting BGRA to RGBA twice gives the pixels back.
pub proof fn lemma_swap_red_blue_involution(p: Seq<u8>)
    ensures
        swap_red_blue(swap_red_blue(p)) == p,
{
    assert(swap_red_blue(swap_red_blue(p)) =~= p);
}

/// The PNG signature.
pub open spec fn png_signature() -> Seq<u8> {
    seq![137u8, 80, 78, 71, 13, 10, 26, 10]
}

/// The IHDR data: width, height, bit depth 8, color type 6 (RGBA), deflate,
/// no filter method, no interlace.
pub open spec fn ihdr(width: u32, height: u32) -> Seq<u8> {
    be32(width) + be32(height) + seq![8u8, 6, 0, 0, 0]
}

pub open spec fn tag_ihdr() -> Seq<u8> {
    seq![73u8, 72, 68, 82]
}

pub open spec fn tag_idat() -> Seq<u8> {
    seq![73u8, 68, 65, 84]
}

pub open spec fn tag_iend() -> Seq<u8> {
    seq![73u8, 69, 78, 68]
}

/// The PNG file of an RGBA image.
pub open spec fn png_rgba(width: u32, height: u32, rgba: Seq<u8>) -> Seq<u8> {
    png_signature() + chunk(tag_ihdr(), ihdr(width, height)) + chunk(
        tag_idat(),
        zlib_stored(raw_rows(rgba, 4 * width as nat, height as nat)),
    ) + chunk(tag_iend(), Seq::empty())
}

/// The scanlines of the image, each with filter byte 0.
fn scanlines(width: u32, height: u32, rgba: &[u8]) -> (raw: Vec<u8>)
    requires
        4 * (width as int) * (height as int) <= rgba@.len(),
        4 * (width as int) + 1 <= usize::MAX,
    ensures
        raw@ == raw_rows(rgba@, 4 * width as nat, height as nat),
{
    let w4 = (width as usize) * 4;
    let mut raw: Vec<u8> = Vec::new();
    let mut y: u32 = 0;
    let mut start: usize = 0;
    let total = rgba.len();
    while y < height
        invariant
            total == rgba@.len(),
            y <= height,
            w4 == 4 * width as nat,
            4 * (width as int) * (height as int) <= rgba@.len(),
            start == (y as int) * w4,
            raw@ == raw_rows(rgba@, w4 as nat, y as nat),
        decreases height - y,
    {
        assert((y as int + 1) * w4 <= (height as int) * w4) by (nonlinear_arith)
            requires
                y < height,
        ;
        assert((height as int) * w4 == 4 * (width as int) * (height as int)) by (nonlinear_arith)
            requires
                w4 == 4 * width as nat,
        ;
        assert((y as int + 1) * w4 == (y as int) * w4 + w4) by (nonlinear_arith);
        raw.push(0u8);
        let end = start + w4;
        push_bytes(&mut raw, rgba, start, end);
        start = end;
        y = y + 1;
    }
    raw
}

/// The stored deflate blocks of `raw`.
fn stored(raw: &Vec<u8>) -> (out: Vec<u8>)
    ensures
        out@ == stored_blocks(raw@, 0),
{
    let mut out: Vec<u8> = Vec::new();
    let n = raw.len();
    let mut offset: usize = 0;
    while offset < n
        invariant
            n == raw@.len(),
            offset <= n,
            out@ + stored_blocks(raw@, offset as nat) == stored_blocks(raw@, 0),
        decreases n - offset,
    {
        proof {
            reveal_with_fuel(stored_blocks, 1);
        }
        let remaining = n - offset;
        let block_size = if remaining < MAX_STORED { remaining } else { MAX_STORED };
        let is_last = offset + block_size >= n;
        let ghost before = out@;
        out.push(if is_last { 1u8 } else { 0u8 });
        let len16 = block_size as u16;
        push_le16(&mut out, len16);
        push_le16(&mut out, !len16);
        push_bytes(&mut out, raw.as_slice(), offset, offset + block_size);
        assert(out@ =~= before + (seq![if is_last { 1u8 } else { 0u8 }] + le16(block_size as u16) + le16(
            !(block_size as u16),
        ) + raw@.subrange(offset as int, (offset + block_size) as int)));
        offset = offset + block_size;
    }
    assert(out@ + stored_blocks(raw@, offset as nat) =~= out@) by {
        reveal_with_fuel(stored_blocks, 1);
    }
    out
}

/// Encodes RGBA pixels (rows top to bottom, 4 bytes per pixel) as a PNG
/// file whose image data is zlib with uncompressed blocks.
pub fn encode_png_rgba(width: u32, height: u32, rgba: &[u8]) -> (png: Vec<u8>)
    requires
        4 * (width as int) * (height as int) <= rgba@.len(),
        4 * (width as int) + 1 <= usize::MAX,
    ensures
        png@ == png_rgba(width, height, rgba@),
{
    let mut out: Vec<u8> = Vec::new();
    let sig: [u8; 8] = [137, 80, 78, 71, 13, 10, 26, 10];
    push_bytes(&mut out, sig.as_slice(), 0, 8);
    assert(sig@.subrange(0, 8) =~= png_signature());

    let mut ihdr_data: Vec<u8> = Vec::new();
    push_be32(&mut ihdr_data, width);
    push_be32(&mut ihdr_data, height);
    ihdr_data.push(8); // bit depth
    ihdr_data.push(6); // color type: RGBA
    ihdr_data.push(0); // compression method
    ihdr_data.push(0); // filter method
    ihdr_data.push(0); // interlace method
    assert(ihdr_data@ =~= ihdr(width, height));
    let t_ihdr: [u8; 4] = [73, 72, 68, 82];
    assert(t_ihdr@ =~= tag_ihdr());
    write_chunk(&mut out, &t_ihdr, ihdr_data.as_slice());

    let raw = scanlines(width, height, rgba);
    let mut zlib: Vec<u8> = Vec::new();
    zlib.push(0x78); // CMF: deflate, 32K window
    zlib.push(0x01); // FLG: check bits
    let blocks = stored(&raw);
    push_bytes(&mut zlib, blocks.as_slice(), 0, blocks.len());
    let adler = adler32(raw.as_slice());
    push_be32(&mut zlib, adler);
    assert(blocks@.subrange(0, blocks@.len() as int) =~= blocks@);
    assert(zlib@ =~= zlib_stored(raw@)) by {
        reveal(zlib_stored);
    }
    let t_idat: [u8; 4] = [73, 68, 65, 84];
    assert(t_idat@ =~= tag_idat());
    write_chunk(&mut out, &t_idat, zlib.as_slice());

    let t_iend: [u8; 4] = [73, 69, 78, 68];
    assert(t_iend@ =~= tag_iend());
    let empty: Vec<u8> = Vec::new();
    write_chunk(&mut out, &t_iend, empty.as_slice());
    assert(empty@ =~= Seq::<u8>::empty());
    assert(out@ =~= png_rgba(width, height, rgba@));
    out
}


/// Pixels with the first and third byte of each 4-byte group exchanged
/// (BGRA to RGBA and back).
pub open spec fn swap_red_blue(p: Seq<u8>) -> Seq<u8> {
    Seq::new(
        p.len(),
        |i: int|
            if i % 4 == 0 && i + 2 < p.len() {
                p[i + 2]
            } else if i % 4 == 2 {
                p[i - 2]
            } else {
                p[i]
            },
    )
}

/// Converts BGRA pixels to RGBA in place.
pub fn bgra_to_rgba(pixels: &mut Vec<u8>)
    requires
        old(pixels)@.len() % 4 != 1,
        old(pixels)@.len() % 4 != 2,
    ensures
        final(pixels)@ == swap_red_blue(old(pixels)@),
{
    let n = pixels.len();
    let mut i: usize = 0;
    while i < n
        invariant
            n == pixels@.len(),
            n == old(pixels)@.len(),
            n % 4 != 1,
            n % 4 != 2,
            i % 4 == 0 || i == n,
            i <= n,
            forall|j: int|
                0 <= j < n ==> #[trigger] pixels@[j] == if j < i {
                    swap_red_blue(old(pixels)@)[j]
                } else {
                    old(pixels)@[j]
                },
        decreases n - i,
    {
        let b = pixels[i];
        let r = pixels[i + 2];
        pixels.set(i, r);
        pixels.set(i + 2, b);
        if n - i <= 4 {
            i = n;
        } else {
            i = i + 4;
        }
    }
    assert(pixels@ =~= swap_red_blue(old(pixels)@));
}


/// A screenshot as PNG: the window's BGRA pixels (rows top to bottom)
/// converted to RGBA and encoded.
pub fn png_from_bgra(width: u32, height: u32, pixels: Vec<u8>) -> (png: Vec<u8>)
    requires
        pixels@.len() == 4 * (width as int) * (height as int),
        4 * (width as int) + 1 <= usize::MAX,
    ensures
        png@ == png_rgba(width, height, swap_red_blue(pixels@)),
{
    let mut pixels = pixels;
    proof {
        let k = (width as int) * (height as int);
        assert(4 * (width as int) * (height as int) == k * 4) by (nonlinear_arith)
            requires
                k == (width as int) * (height as int),
        ;
        vstd::arithmetic::div_mod::lemma_mod_multiples_basic(k, 4);
    }
    bgra_to_rgba(&mut pixels);
    encode_png_rgba(width, height, pixels.as_slice())
}

/// The size of a window rectangle, when it has an area.
pub fn window_size(left: i32, top: i32, right: i32, bottom: i32) -> (r: Option<(u32, u32)>)
    requires
        i32::MIN <= right - left <= i32::MAX,
        i32::MIN <= bottom - top <= i32::MAX,
    ensures
        r == (if right - left > 0 && bottom - top > 0 {
            Some(((right - left) as u32, (bottom - top) as u32))
        } else {
            None
        }),
{
    let width = right - left;
    let height = bottom - top;
    if width <= 0 || height <= 0 {
        None
    } else {
        Some((width as u32, height as u32))
    }
}

/// The PNG of a captured window: none when no scanline was copied, else
/// the BGRA pixels (rows top to bottom) encoded.
pub fn screenshot_png(width: u32, height: u32, pixels: Vec<u8>, lines_copied: i32) -> (png: Option<Vec<u8>>)
    requires
        pixels@.len() == 4 * (width as int) * (height as int),
        4 * (width as int) + 1 <= usize::MAX,
    ensures
        lines_copied == 0 ==> png is None,
        lines_copied != 0 ==> (png matches Some(p) && p@ == png_rgba(width, height, swap_red_blue(pixels@))),
{
    if lines_copied == 0 {
        None
    } else {
        Some(png_from_bgra(width, height, pixels))
    }
}

/// Four bytes read most significant first.
pub open spec fn read_be32(p: Seq<u8>, at: int) -> int {
    p[at] * 0x100_0000 + p[at + 1] * 0x1_0000 + p[at + 2] * 0x100 + p[at + 3]
}

proof fn lemma_be32_reads_back(x: u32)
    ensures
        read_be32(be32(x), 0) == x,
{
    let b0 = (x >> 24u32) as u8;
    let b1 = (x >> 16u32) as u8;
    let b2 = (x >> 8u32) as u8;
    let b3 = x as u8;
    assert(b0 as u32 * 0x100_0000u32 + b1 as u32 * 0x1_0000u32 + b2 as u32 * 0x100u32 + b3 as u32 == x)
        by (bit_vector)
        requires
            b0 == (x >> 24u32) as u8,
            b1 == (x >> 16u32) as u8,
            b2 == (x >> 8u32) as u8,
            b3 == x as u8,
    ;
}

/// The file starts with the PNG signature and an IHDR chunk of 13 bytes
/// whose data reads back the width, then the height, then bit depth 8 and
/// colour type 6 (RGBA), with no interlacing.
pub proof fn lemma_png_header(width: u32, height: u32, rgba: Seq<u8>)
    ensures
        ({
            let p = png_rgba(width, height, rgba);
            &&& p.len() > 33
            &&& p.take(8) == seq![137u8, 80, 78, 71, 13, 10, 26, 10]
            &&& read_be32(p, 8) == 13
            &&& p.subrange(12, 16) == seq![73u8, 72, 68, 82]
            &&& read_be32(p, 16) == width
            &&& read_be32(p, 20) == height
            &&& p[24] == 8 && p[25] == 6 && p[26] == 0 && p[27] == 0 && p[28] == 0
            &&& p.subrange(37, 41) == seq![73u8, 68, 65, 84]
            &&& p.subrange(p.len() - 12, p.len() as int) == seq![0u8, 0, 0, 0, 73, 69, 78, 68] + be32(
                crc32_spec(seq![73u8, 69, 78, 68]),
            )
        }),
{
    let p = png_rgba(width, height, rgba);
    let h = ihdr(width, height);
    lemma_be32_reads_back(width);
    lemma_be32_reads_back(height);
    lemma_be32_reads_back(13);
    let c = chunk(tag_ihdr(), h);
    assert(h.len() == 13);
    assert(c.subrange(0, 4) == be32(13));
    assert(p.subrange(0, 8 + c.len() as int) =~= png_signature() + c);
    assert(forall|k: int| 0 <= k < 4 ==> p[8 + k] == be32(13)[k]);
    assert(forall|k: int| 0 <= k < 4 ==> p[16 + k] == be32(width)[k]);
    assert(forall|k: int| 0 <= k < 4 ==> p[20 + k] == be32(height)[k]);
    assert(p.take(8) =~= seq![137u8, 80, 78, 71, 13, 10, 26, 10]);
    assert(p.subrange(12, 16) =~= seq![73u8, 72, 68, 82]);
    let idat = chunk(tag_idat(), zlib_stored(raw_rows(rgba, 4 * width as nat, height as nat)));
    let iend = chunk(tag_iend(), Seq::empty());
    assert(c.len() == 25);
    assert(p == png_signature() + c + idat + iend);
    assert(p.subrange(37, 41) =~= idat.subrange(4, 8));
    assert(idat.subrange(4, 8) =~= tag_idat());
    assert(iend =~= seq![0u8, 0, 0, 0, 73, 69, 78, 68] + be32(crc32_spec(seq![73u8, 69, 78, 68]))) by {
        assert(tag_iend() + Seq::<u8>::empty() =~= seq![73u8, 69, 78, 68]);
        assert(be32(0) =~= seq![0u8, 0, 0, 0]) by {
            assert((0u32 >> 24u32) as u8 == 0 && (0u32 >> 16u32) as u8 == 0 && (0u32 >> 8u32) as u8 == 0)
                by (bit_vector);
        }
    }
    assert(p.subrange(p.len() - 12, p.len() as int) =~= iend);
}

/// Each scanline is filter byte 0 followed by that row of pixels, rows in
/// order from the top.
pub proof fn lemma_raw_rows_layout(rgba: Seq<u8>, w4: nat, h: nat, r: nat, j: nat)
    requires
        h * w4 <= rgba.len(),
        r < h,
        j < w4,
    ensures
        raw_rows(rgba, w4, h).len() == h * (w4 + 1),
        raw_rows(rgba, w4, h)[(r * (w4 + 1)) as int] == 0,
        raw_rows(rgba, w4, h)[(r * (w4 + 1) + 1 + j) as int] == rgba[(r * w4 + j) as int],
    decreases h,
{
    lemma_raw_rows_len(rgba, w4, h);
    let prev = raw_rows(rgba, w4, (h - 1) as nat);
    assert((h - 1) * w4 + w4 == h * w4) by (nonlinear_arith);
    assert((h - 1) * (w4 + 1) + (w4 + 1) == h * (w4 + 1)) by (nonlinear_arith);
    assert((h - 1) * w4 <= h * w4) by (nonlinear_arith);
    assert(0 <= (h - 1) * w4) by (nonlinear_arith) requires h >= 1;
    lemma_raw_rows_len(rgba, w4, (h - 1) as nat);
    let row = rgba.subrange((h - 1) * w4, (h * w4) as int);
    assert(raw_rows(rgba, w4, h) == prev + seq![0u8] + row);
    let hm = (h - 1) as nat;
    assert(hm * (w4 + 1) + (w4 + 1) == h * (w4 + 1)) by (nonlinear_arith)
        requires
            hm + 1 == h,
    ;
    assert(hm * w4 + w4 == h * w4) by (nonlinear_arith)
        requires
            hm + 1 == h,
    ;
    assert(prev.len() == hm * (w4 + 1));
    if r < h - 1 {
        assert((r + 1) * (w4 + 1) <= (h - 1) * (w4 + 1)) by (nonlinear_arith)
            requires
                r + 1 <= h - 1,
        ;
        assert((r + 1) * w4 <= (h - 1) * w4) by (nonlinear_arith)
            requires
                r + 1 <= h - 1,
        ;
        assert(r * (w4 + 1) + (w4 + 1) == (r + 1) * (w4 + 1)) by (nonlinear_arith);
        assert(r * w4 + w4 == (r + 1) * w4) by (nonlinear_arith);
        lemma_raw_rows_layout(rgba, w4, (h - 1) as nat, r, j);
    } else {
        assert(r == h - 1);
        assert(r * (w4 + 1) == (h - 1) * (w4 + 1));
    }
}

proof fn lemma_raw_rows_len(rgba: Seq<u8>, w4: nat, h: nat)
    requires
        h * w4 <= rgba.len(),
    ensures
        raw_rows(rgba, w4, h).len() == h * (w4 + 1),
    decreases h,
{
    if h > 0 {
        assert((h - 1) * w4 + w4 == h * w4) by (nonlinear_arith);
        assert((h - 1) * (w4 + 1) + (w4 + 1) == h * (w4 + 1)) by (nonlinear_arith);
        assert((h - 1) * w4 <= h * w4) by (nonlinear_arith);
        assert(0 <= (h - 1) * w4) by (nonlinear_arith) requires h >= 1;
        lemma_raw_rows_len(rgba, w4, (h - 1) as nat);
        assert(rgba.subrange((h - 1) * w4, (h * w4) as int).len() == w4);
        let hm = (h - 1) as nat;
        assert(hm * (w4 + 1) + (w4 + 1) == h * (w4 + 1)) by (nonlinear_arith)
            requires
                hm + 1 == h,
        ;
        assert(raw_rows(rgba, w4, h).len() == raw_rows(rgba, w4, hm).len() + 1 + w4);
    } else {
        assert(h * (w4 + 1) == 0) by (nonlinear_arith)
            requires
                h == 0,
        ;
    }
}

/// Converting BGRA to RGBA exchanges the first and third byte of every
/// whole pixel and keeps green and alpha.
pub proof fn lemma_swap_red_blue_pixels(p: Seq<u8>, k: int)
    requires
        0 <= k,
        4 * k + 4 <= p.len(),
    ensures
        swap_red_blue(p).len() == p.len(),
        swap_red_blue(p)[4 * k] == p[4 * k + 2],
        swap_red_blue(p)[4 * k + 1] == p[4 * k + 1],
        swap_red_blue(p)[4 * k + 2] == p[4 * k],
        swap_red_blue(p)[4 * k + 3] == p[4 * k + 3],
{
    assert((4 * k) % 4 == 0) by (nonlinear_arith) requires 0 <= k;
    assert((4 * k + 1) % 4 == 1) by (nonlinear_arith) requires 0 <= k;
    assert((4 * k + 2) % 4 == 2) by (nonlinear_arith) requires 0 <= k;
    assert((4 * k + 3) % 4 == 3) by (nonlinear_arith) requires 0 <= k;
}

} // verus!
