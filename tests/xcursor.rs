use xcb_dl_util::xcursor::{parse_cursor_file, XcbCursorError, XcbCursorImage};

const MAGIC: u32 = 0x72756358;
const IMAGE: u32 = 0xfffd0002;

fn put(out: &mut Vec<u8>, v: u32) {
    out.extend_from_slice(&v.to_le_bytes());
}

/// A file with one table entry per `(kind, size)` and, for each, a chunk of
/// `width x height` pixels; the width of entry `i` is `i + 1` so that the
/// decoded images tell which entry they came from.
fn file_with(entries: &[(u32, u32)], height: u32) -> Vec<u8> {
    let mut out = Vec::new();
    put(&mut out, MAGIC);
    put(&mut out, 16);
    put(&mut out, 1);
    put(&mut out, entries.len() as u32);
    let mut position = 16 + 12 * entries.len() as u32;
    let mut chunks = Vec::new();
    for (i, (kind, size)) in entries.iter().enumerate() {
        put(&mut out, *kind);
        put(&mut out, *size);
        put(&mut out, position);
        let width = i as u32 + 1;
        let mut chunk = Vec::new();
        for v in [36, IMAGE, *size, 1, width, height, 0, 0, 50] {
            put(&mut chunk, v);
        }
        for p in 0..width * height {
            put(&mut chunk, 0xff000000 | p);
        }
        position += chunk.len() as u32;
        chunks.push(chunk);
    }
    for c in chunks {
        out.extend_from_slice(&c);
    }
    out
}

fn widths(images: &[XcbCursorImage]) -> Vec<u16> {
    images.iter().map(|i| i.width).collect()
}

#[test]
fn target_16_selects_both_size_16_entries() {
    let data = file_with(&[(IMAGE, 8), (IMAGE, 16), (IMAGE, 16), (IMAGE, 32)], 1);
    let images = parse_cursor_file(&data, 16).unwrap();
    assert_eq!(widths(&images), vec![2, 3]);
}

#[test]
fn target_20_prefers_size_16_over_size_32() {
    let data = file_with(&[(IMAGE, 8), (IMAGE, 16), (IMAGE, 16), (IMAGE, 32)], 1);
    let images = parse_cursor_file(&data, 20).unwrap();
    assert_eq!(widths(&images), vec![2, 3]);
}

#[test]
fn round_trip_returns_best_matching_image_entries() {
    let entries = [(IMAGE, 24), (7, 48), (IMAGE, 48), (IMAGE, 32), (IMAGE, 48), (IMAGE, 64)];
    let data = file_with(&entries, 2);
    let images = parse_cursor_file(&data, 50).unwrap();
    assert_eq!(widths(&images), vec![3, 5]);
    for img in &images {
        assert_eq!(img.height, 2);
        assert_eq!(img.delay, 50);
        assert_eq!(img.pixels.len(), img.width as usize * 2);
    }
    assert_eq!(images[0].pixels, vec![0xff000000, 0xff000001, 0xff000002, 0xff000003, 0xff000004, 0xff000005]);
}

#[test]
fn non_image_entries_are_ignored() {
    let data = file_with(&[(7, 16), (IMAGE, 40)], 1);
    let images = parse_cursor_file(&data, 16).unwrap();
    assert_eq!(widths(&images), vec![2]);
}

#[test]
fn empty_table_parses_to_no_images() {
    let data = file_with(&[], 1);
    assert!(parse_cursor_file(&data, 24).unwrap().is_empty());
}

#[test]
fn wrong_magic_is_not_an_xcursor_file() {
    let mut data = Vec::new();
    put(&mut data, 0x12345678);
    put(&mut data, 16);
    assert!(matches!(parse_cursor_file(&data, 24), Err(XcbCursorError::NotAnXcursorFile)));
}

#[test]
fn short_header_length_is_not_an_xcursor_file() {
    let mut data = file_with(&[(IMAGE, 24)], 1);
    data[4] = 12;
    assert!(matches!(parse_cursor_file(&data, 24), Err(XcbCursorError::NotAnXcursorFile)));
}

#[test]
fn table_of_70000_entries_is_oversized() {
    let mut data = Vec::new();
    put(&mut data, MAGIC);
    put(&mut data, 16);
    put(&mut data, 1);
    put(&mut data, 70000);
    assert!(matches!(parse_cursor_file(&data, 24), Err(XcbCursorError::OversizedXcursorFile)));
}

#[test]
fn width_above_65535_is_corrupt() {
    let mut data = file_with(&[(IMAGE, 24)], 1);
    let width_at = 16 + 12 + 16;
    data[width_at..width_at + 4].copy_from_slice(&70000u32.to_le_bytes());
    assert!(matches!(parse_cursor_file(&data, 24), Err(XcbCursorError::CorruptXcursorFile)));
}

#[test]
fn missing_pixels_are_an_io_error() {
    let mut data = file_with(&[(IMAGE, 24)], 3);
    data.truncate(data.len() - 4);
    assert!(matches!(parse_cursor_file(&data, 24), Err(XcbCursorError::Io)));
}

#[test]
fn file_shorter_than_a_header_is_an_io_error() {
    assert!(matches!(parse_cursor_file(&[0x58, 0x63], 24), Err(XcbCursorError::Io)));
}

#[test]
fn header_padding_is_skipped() {
    let mut data = Vec::new();
    put(&mut data, MAGIC);
    put(&mut data, 20);
    put(&mut data, 1);
    put(&mut data, 1);
    put(&mut data, 0xdeadbeef);
    put(&mut data, IMAGE);
    put(&mut data, 24);
    put(&mut data, 32);
    for v in [36, IMAGE, 24, 1, 1, 1, 4, 5, 9] {
        put(&mut data, v);
    }
    put(&mut data, 0x80402010);
    let images = parse_cursor_file(&data, 24).unwrap();
    assert_eq!(images.len(), 1);
    assert_eq!((images[0].xhot, images[0].yhot, images[0].delay), (4, 5, 9));
    assert_eq!(images[0].pixels, vec![0x80402010]);
}
