use perry::png::{adler32, bgra_to_rgba, crc32, encode_png_rgba, png_from_bgra, screenshot_png, window_size, write_chunk};

fn be32(b: &[u8]) -> u32 {
    u32::from_be_bytes([b[0], b[1], b[2], b[3]])
}

/// Reads back the payload of stored deflate blocks.
fn inflate_stored(mut z: &[u8]) -> Vec<u8> {
    let mut out = Vec::new();
    loop {
        let last = z[0] == 1;
        let len = u16::from_le_bytes([z[1], z[2]]) as usize;
        let nlen = u16::from_le_bytes([z[3], z[4]]);
        assert_eq!(nlen, !(len as u16));
        out.extend_from_slice(&z[5..5 + len]);
        z = &z[5 + len..];
        if last {
            assert!(z.is_empty());
            return out;
        }
    }
}

/// The chunks of a PNG file: type and data, checking each CRC.
fn chunks(png: &[u8]) -> Vec<([u8; 4], Vec<u8>)> {
    assert_eq!(&png[..8], &[137, 80, 78, 71, 13, 10, 26, 10]);
    let mut rest = &png[8..];
    let mut out = Vec::new();
    while !rest.is_empty() {
        let len = be32(rest) as usize;
        let ty = [rest[4], rest[5], rest[6], rest[7]];
        let data = rest[8..8 + len].to_vec();
        assert_eq!(be32(&rest[8 + len..]), crc32(&rest[4..8 + len]));
        out.push((ty, data));
        rest = &rest[12 + len..];
    }
    out
}

#[test]
fn crc32_known_values() {
    assert_eq!(crc32(b"IEND"), 0xAE42_6082);
    assert_eq!(crc32(b""), 0);
    assert_eq!(crc32(b"123456789"), 0xCBF4_3926);
}

#[test]
fn adler32_known_values() {
    assert_eq!(adler32(b"Wikipedia"), 0x11E6_0398);
    assert_eq!(adler32(b""), 1);
}

#[test]
fn chunk_layout() {
    let mut out = vec![9u8];
    write_chunk(&mut out, b"IEND", &[]);
    assert_eq!(out, vec![9, 0, 0, 0, 0, 73, 69, 78, 68, 0xAE, 0x42, 0x60, 0x82]);
}

#[test]
fn one_pixel_png() {
    let png = encode_png_rgba(1, 1, &[255, 0, 0, 255]);
    let cs = chunks(&png);
    assert_eq!(cs.len(), 3);
    assert_eq!(&cs[0].0, b"IHDR");
    assert_eq!(cs[0].1, vec![0, 0, 0, 1, 0, 0, 0, 1, 8, 6, 0, 0, 0]);
    assert_eq!(&cs[1].0, b"IDAT");
    let z = &cs[1].1;
    assert_eq!(&z[..2], &[0x78, 0x01]);
    assert_eq!((0x78u32 * 256 + 0x01) % 31, 0);
    let raw = inflate_stored(&z[2..z.len() - 4]);
    assert_eq!(raw, vec![0, 255, 0, 0, 255]);
    assert_eq!(be32(&z[z.len() - 4..]), adler32(&raw));
    assert_eq!(&cs[2].0, b"IEND");
    assert!(cs[2].1.is_empty());
}

#[test]
fn large_image_spans_several_stored_blocks() {
    let (w, h) = (200u32, 100u32);
    let rgba: Vec<u8> = (0..w * h * 4).map(|i| (i % 251) as u8).collect();
    let png = encode_png_rgba(w, h, &rgba);
    let cs = chunks(&png);
    let z = &cs[1].1;
    let raw = inflate_stored(&z[2..z.len() - 4]);
    assert_eq!(raw.len(), ((w * 4 + 1) * h) as usize);
    assert!(raw.len() > 65535);
    for y in 0..h as usize {
        let row = &raw[y * (w as usize * 4 + 1)..(y + 1) * (w as usize * 4 + 1)];
        assert_eq!(row[0], 0);
        assert_eq!(&row[1..], &rgba[y * w as usize * 4..(y + 1) * w as usize * 4]);
    }
}

#[test]
fn bgra_pixels_become_rgba() {
    let mut p = vec![1, 2, 3, 4, 5, 6, 7, 8];
    bgra_to_rgba(&mut p);
    assert_eq!(p, vec![3, 2, 1, 4, 7, 6, 5, 8]);
    bgra_to_rgba(&mut p);
    assert_eq!(p, vec![1, 2, 3, 4, 5, 6, 7, 8]);
    let png = png_from_bgra(1, 1, vec![10, 20, 30, 40]);
    assert_eq!(png, encode_png_rgba(1, 1, &[30, 20, 10, 40]));
}

#[test]
fn screenshot_decisions() {
    assert_eq!(window_size(10, 20, 110, 70), Some((100, 50)));
    assert_eq!(window_size(10, 20, 10, 70), None);
    assert_eq!(window_size(10, 20, 110, 5), None);
    assert_eq!(screenshot_png(1, 1, vec![0, 0, 0, 0], 0), None);
    assert_eq!(screenshot_png(1, 1, vec![10, 20, 30, 40], 1), Some(encode_png_rgba(1, 1, &[30, 20, 10, 40])));
}
