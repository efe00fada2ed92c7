//! The Xcursor file format: a header, a table of contents, and image chunks,
//! all made of little-endian 32-bit fields.
//!
//! Parsing keeps only the image entries of the table whose nominal size is
//! closest to the requested one. All entries tied at that distance are kept,
//! in table order: they are the frames of an animated cursor.

use crate::bytes::{le_u32, read_u32_le, read_u32s_le};
use crate::error::XcbError;
use vstd::prelude::*;

verus! {

pub const XCURSOR_MAGIC: u32 = 0x72756358;

/// The table-of-contents type of an image chunk.
pub const XCURSOR_IMAGE_TYPE: u32 = 0xfffd0002;

/// The smallest header length a file may declare.
pub const HEADER_SIZE: u32 = 16;

/// The largest number of table-of-contents entries a file may declare.
pub const MAX_TOC_ENTRIES: u32 = 0x10000;

/// Stands for "no image entry seen yet"; larger than any distance of two
/// 32-bit sizes.
pub const NO_FIT: u64 = 0x1_0000_0000;

/// The size of an image chunk's header: nine 32-bit fields.
pub const IMAGE_HEADER_SIZE: u32 = 36;

#[derive(Clone, Debug)]
#[non_exhaustive]
pub enum XcbCursorError {
    /// The file could not be read, or it ends before a field it declares.
    Io,
    Xcb(XcbError),
    NotAnXcursorFile,
    OversizedXcursorFile,
    EmptyXcursorFile,
    CorruptXcursorFile,
    NotFound,
    ImageCursorNotSupported,
}

/// One decoded cursor image: `pixels` holds `width * height` premultiplied
/// ARGB values, row by row.
#[derive(Default, Clone, Debug)]
pub struct XcbCursorImage {
    pub width: u16,
    pub height: u16,
    pub xhot: u16,
    pub yhot: u16,
    pub delay: u32,
    pub pixels: Vec<u32>,
}

/// One table-of-contents entry.
#[derive(Clone, Copy, Debug, PartialEq, Eq, Structural)]
pub struct TocEntry {
    pub kind: u32,
    pub size: u32,
    pub position: u32,
}

pub open spec fn header_len(b: Seq<u8>) -> int {
    le_u32(b, 4)
}

pub open spec fn toc_count(b: Seq<u8>) -> int {
    le_u32(b, 12)
}

/// Entry `i` of the table, which starts at the declared header length.
pub open spec fn toc_entry(b: Seq<u8>, i: int) -> TocEntry {
    let at = header_len(b) + 12 * i;
    TocEntry {
        kind: le_u32(b, at) as u32,
        size: le_u32(b, at + 4) as u32,
        position: le_u32(b, at + 8) as u32,
    }
}

pub open spec fn toc(b: Seq<u8>) -> Seq<TocEntry> {
    Seq::new(toc_count(b) as nat, |i: int| toc_entry(b, i))
}

/// How far an entry's nominal size is from the requested one.
pub open spec fn fit(e: TocEntry, target: u32) -> int {
    if e.size >= target {
        e.size - target
    } else {
        target - e.size
    }
}

pub open spec fn is_image(e: TocEntry) -> bool {
    e.kind == XCURSOR_IMAGE_TYPE
}

/// The smallest distance of an image entry of `es`, or `NO_FIT` if it has none.
pub open spec fn min_fit(es: Seq<TocEntry>, target: u32) -> int
    decreases es.len(),
{
    if es.len() == 0 {
        NO_FIT as int
    } else {
        let m = min_fit(es.drop_last(), target);
        if is_image(es.last()) && fit(es.last(), target) < m {
            fit(es.last(), target)
        } else {
            m
        }
    }
}

/// The positions of the image entries at distance `best`, in table order.
pub open spec fn fit_positions(es: Seq<TocEntry>, target: u32, best: int) -> Seq<u32> {
    es.filter_map(
        |e: TocEntry|
            if is_image(e) && fit(e, target) == best {
                Some(e.position)
            } else {
                None
            },
    )
}

/// The positions of the image chunks that a parse for `target` decodes.
pub open spec fn selected_positions(b: Seq<u8>, target: u32) -> Seq<u32> {
    fit_positions(toc(b), target, min_fit(toc(b), target))
}

/// Why the header or the table of contents is unusable, if it is.
pub open spec fn header_error(b: Seq<u8>) -> Option<XcbCursorError> {
    if b.len() < 8 {
        Some(XcbCursorError::Io)
    } else if le_u32(b, 0) != XCURSOR_MAGIC || header_len(b) < HEADER_SIZE {
        Some(XcbCursorError::NotAnXcursorFile)
    } else if b.len() < 16 {
        Some(XcbCursorError::Io)
    } else if toc_count(b) > MAX_TOC_ENTRIES {
        Some(XcbCursorError::OversizedXcursorFile)
    } else if toc_count(b) > 0 && header_len(b) + 12 * toc_count(b) > b.len() {
        Some(XcbCursorError::Io)
    } else {
        None
    }
}

/// Field `k` of the image chunk at `p`: 4 is the width, 5 the height, 6 and 7
/// the hotspot, 8 the delay.
pub open spec fn image_field(b: Seq<u8>, p: int, k: int) -> int {
    le_u32(b, p + 4 * k)
}

/// Why the image chunk at `p` cannot be decoded, if it cannot.
pub open spec fn image_error(b: Seq<u8>, p: int) -> Option<XcbCursorError> {
    if p + IMAGE_HEADER_SIZE > b.len() {
        Some(XcbCursorError::Io)
    } else if image_field(b, p, 4) > 0xffff || image_field(b, p, 5) > 0xffff || image_field(b, p, 6)
        > 0xffff || image_field(b, p, 7) > 0xffff {
        Some(XcbCursorError::CorruptXcursorFile)
    } else if p + IMAGE_HEADER_SIZE + 4 * (image_field(b, p, 4) * image_field(b, p, 5)) > b.len() {
        Some(XcbCursorError::Io)
    } else {
        None
    }
}

/// The error of the first chunk of `ps` that cannot be decoded.
pub open spec fn images_error(b: Seq<u8>, ps: Seq<u32>) -> Option<XcbCursorError>
    decreases ps.len(),
{
    if ps.len() == 0 {
        None
    } else {
        match images_error(b, ps.drop_last()) {
            Some(e) => Some(e),
            None => image_error(b, ps.last() as int),
        }
    }
}

/// Why parsing `b` for `target` fails, if it does.
pub open spec fn cursor_file_error(b: Seq<u8>, target: u32) -> Option<XcbCursorError> {
    match header_error(b) {
        Some(e) => Some(e),
        None => images_error(b, selected_positions(b, target)),
    }
}

/// `img` holds the image chunk at `p`.
pub open spec fn image_decoded(b: Seq<u8>, p: int, img: XcbCursorImage) -> bool {
    let w = image_field(b, p, 4);
    let h = image_field(b, p, 5);
    &&& img.width == w
    &&& img.height == h
    &&& img.xhot == image_field(b, p, 6)
    &&& img.yhot == image_field(b, p, 7)
    &&& img.delay == image_field(b, p, 8)
    &&& img.pixels@.len() == w * h
    &&& forall|k: int| 0 <= k < w * h ==> #[trigger] img.pixels@[k] as int == le_u32(b, p + IMAGE_HEADER_SIZE + 4 * k)
}

proof fn lemma_no_fit_below(es: Seq<TocEntry>, target: u32, f: int)
    requires
        f < min_fit(es, target),
    ensures
        fit_positions(es, target, f) == Seq::<u32>::empty(),
    decreases es.len(),
{
    if es.len() > 0 {
        lemma_no_fit_below(es.drop_last(), target, f);
    }
}

proof fn lemma_error_prefix(b: Seq<u8>, ps: Seq<u32>, n: int)
    requires
        0 <= n <= ps.len(),
        images_error(b, ps.take(n)) is Some,
    ensures
        images_error(b, ps) == images_error(b, ps.take(n)),
    decreases ps.len() - n,
{
    if n < ps.len() {
        assert(ps.take(n + 1).drop_last() =~= ps.take(n));
        lemma_error_prefix(b, ps, n + 1);
    } else {
        assert(ps.take(n) =~= ps);
    }
}

/// The 16-bit value of `v`, or `CorruptXcursorFile` if it does not fit.
fn u32_to_u16(v: u32) -> (r: Result<u16, XcbCursorError>)
    ensures
        v <= 0xffff ==> r == Ok::<u16, XcbCursorError>(v as u16),
        v > 0xffff ==> r matches Err(XcbCursorError::CorruptXcursorFile),
{
    if v <= 0xffff {
        Ok(v as u16)
    } else {
        Err(XcbCursorError::CorruptXcursorFile)
    }
}

/// Reads entry `i` of a table whose bounds the header check has vouched for.
fn read_toc_entry(data: &[u8], header: usize, i: usize) -> (r: TocEntry)
    requires
        header_error(data@) is None,
        header == header_len(data@),
        i < toc_count(data@),
    ensures
        r == toc_entry(data@, i as int),
{
    let len = data.len();
    proof {
        let n = toc_count(data@);
        assert(n > 0);
        assert(header + 12 * n <= data@.len());
        assert(header + 12 * i + 12 <= header + 12 * n) by (nonlinear_arith)
            requires
                i < n,
        ;
        assert(len == data@.len());
    }
    let at = header + 12 * i;
    TocEntry {
        kind: read_u32_le(data, at),
        size: read_u32_le(data, at + 4),
        position: read_u32_le(data, at + 8),
    }
}

/// The table-of-contents positions of the image entries closest in size to
/// `target`. The header must already have been checked.
fn select_images(data: &[u8], target: u32) -> (r: Vec<u32>)
    requires
        header_error(data@) is None,
    ensures
        r@ == selected_positions(data@, target),
{
    let ghost b = data@;
    let header = read_u32_le(data, 4) as usize;
    let ntoc = read_u32_le(data, 12) as usize;
    let mut positions: Vec<u32> = Vec::new();
    let mut best: u64 = NO_FIT;
    let mut i: usize = 0;
    while i < ntoc
        invariant
            b == data@,
            header_error(b) is None,
            header == header_len(b),
            ntoc == toc_count(b),
            i <= ntoc,
            best == min_fit(toc(b).take(i as int), target),
            positions@ == fit_positions(toc(b).take(i as int), target, best as int),
        decreases ntoc - i,
    {
        let entry = read_toc_entry(data, header, i);
        let ghost prev = toc(b).take(i as int);
        let ghost e = toc(b)[i as int];
        assert(toc(b).take(i + 1).drop_last() =~= prev);
        assert(toc(b).take(i + 1).last() == e);
        if entry.kind == XCURSOR_IMAGE_TYPE {
            let f: u64 = if entry.size >= target {
                (entry.size - target) as u64
            } else {
                (target - entry.size) as u64
            };
            if f < best {
                proof {
                    lemma_no_fit_below(prev, target, f as int);
                }
                best = f;
                positions = Vec::new();
            }
            if f == best {
                positions.push(entry.position);
            }
        }
        i = i + 1;
    }
    assert(toc(b).take(ntoc as int) =~= toc(b));
    positions
}

/// Decodes the image chunk at `p`.
fn read_image(data: &[u8], p: u32) -> (r: Result<XcbCursorImage, XcbCursorError>)
    ensures
        r matches Err(e) ==> image_error(data@, p as int) == Some(e),
        r matches Ok(img) ==> image_error(data@, p as int) is None && image_decoded(data@, p as int, img),
{
    if p as u64 + IMAGE_HEADER_SIZE as u64 > data.len() as u64 {
        return Err(XcbCursorError::Io);
    }
    let at = p as usize;
    let width = read_u32_le(data, at + 16);
    let height = read_u32_le(data, at + 20);
    let xhot = read_u32_le(data, at + 24);
    let yhot = read_u32_le(data, at + 28);
    let delay = read_u32_le(data, at + 32);
    let (width, height, xhot, yhot) = match (u32_to_u16(width), u32_to_u16(height), u32_to_u16(xhot), u32_to_u16(yhot)) {
        (Ok(w), Ok(h), Ok(x), Ok(y)) => (w, h, x, y),
        _ => return Err(XcbCursorError::CorruptXcursorFile),
    };
    proof {
        assert(width as u64 * height as u64 <= 0xffff * 0xffff) by (nonlinear_arith)
            requires
                width <= 0xffff,
                height <= 0xffff,
        ;
    }
    let count: u64 = width as u64 * height as u64;
    if p as u64 + IMAGE_HEADER_SIZE as u64 + 4 * count > data.len() as u64 {
        return Err(XcbCursorError::Io);
    }
    let pixels = read_u32s_le(data, at + 36, count as usize);
    Ok(XcbCursorImage { width, height, xhot, yhot, delay, pixels })
}

/// Parses an Xcursor file and decodes the images whose nominal size is
/// closest to `target` (all of them where several tie), in table order.
///
/// Fails with `NotAnXcursorFile` on a wrong magic number or a declared
/// header shorter than 16 bytes, with `OversizedXcursorFile` when the table
/// declares more than 0x10000 entries, with `CorruptXcursorFile` when a
/// selected image's width, height or hotspot does not fit 16 bits, and with
/// `Io` where the data ends before a field that is read. An empty result is
/// a successful parse.
pub fn parse_cursor_file(data: &[u8], target: u32) -> (r: Result<Vec<XcbCursorImage>, XcbCursorError>)
    ensures
        r is Err <==> cursor_file_error(data@, target) is Some,
        r matches Err(e) ==> cursor_file_error(data@, target) == Some(e),
        r matches Ok(v) ==> {
            &&& v@.len() == selected_positions(data@, target).len()
            &&& forall|k: int|
                0 <= k < v@.len() ==> image_decoded(data@, selected_positions(data@, target)[k] as int, #[trigger] v@[k])
        },
{
    if data.len() < 8 {
        return Err(XcbCursorError::Io);
    }
    let magic = read_u32_le(data, 0);
    let header = read_u32_le(data, 4);
    if magic != XCURSOR_MAGIC || header < HEADER_SIZE {
        return Err(XcbCursorError::NotAnXcursorFile);
    }
    if data.len() < 16 {
        return Err(XcbCursorError::Io);
    }
    let ntoc = read_u32_le(data, 12);
    if ntoc > MAX_TOC_ENTRIES {
        return Err(XcbCursorError::OversizedXcursorFile);
    }
    if ntoc > 0 && header as u64 + 12 * ntoc as u64 > data.len() as u64 {
        return Err(XcbCursorError::Io);
    }
    let positions = select_images(data, target);
    let ghost ps = positions@;
    let mut images: Vec<XcbCursorImage> = Vec::with_capacity(positions.len());
    let mut k: usize = 0;
    while k < positions.len()
        invariant
            ps == positions@,
            ps == selected_positions(data@, target),
            header_error(data@) is None,
            k <= ps.len(),
            images_error(data@, ps.take(k as int)) is None,
            images@.len() == k,
            forall|j: int| 0 <= j < k ==> image_decoded(data@, ps[j] as int, #[trigger] images@[j]),
        decreases ps.len() - k,
    {
        assert(ps.take(k + 1).drop_last() =~= ps.take(k as int));
        assert(ps.take(k + 1).last() == ps[k as int]);
        match read_image(data, positions[k]) {
            Err(e) => {
                proof {
                    lemma_error_prefix(data@, ps, k + 1);
                }
                return Err(e);
            },
            Ok(img) => {
                images.push(img);
            },
        }
        k = k + 1;
    }
    assert(ps.take(ps.len() as int) =~= ps);
    Ok(images)
}


proof fn lemma_min_fit_bounds(es: Seq<TocEntry>, target: u32)
    ensures
        forall|i: int| 0 <= i < es.len() && is_image(#[trigger] es[i]) ==> min_fit(es, target) <= fit(es[i], target),
        (exists|i: int| 0 <= i < es.len() && is_image(#[trigger] es[i])) ==> exists|j: int|
            0 <= j < es.len() && is_image(#[trigger] es[j]) && fit(es[j], target) == min_fit(es, target),
        (forall|i: int| 0 <= i < es.len() ==> !is_image(#[trigger] es[i])) ==> min_fit(es, target) == NO_FIT,
    decreases es.len(),
{
    if es.len() > 0 {
        let init = es.drop_last();
        let last = es.len() - 1;
        lemma_min_fit_bounds(init, target);
        assert(es[last] == es.last());
        assert forall|i: int| 0 <= i < es.len() && is_image(#[trigger] es[i]) implies min_fit(es, target) <= fit(es[i], target) by {
            if i < last {
                assert(init[i] == es[i]);
            }
        }
        if forall|i: int| 0 <= i < es.len() ==> !is_image(#[trigger] es[i]) {
            assert forall|i: int| 0 <= i < init.len() implies !is_image(#[trigger] init[i]) by {
                assert(init[i] == es[i]);
            }
        }
        if exists|i: int| 0 <= i < es.len() && is_image(#[trigger] es[i]) {
            if is_image(es.last()) && fit(es.last(), target) < min_fit(init, target) {
                assert(is_image(es[last]) && fit(es[last], target) == min_fit(es, target));
            } else if exists|i: int| 0 <= i < init.len() && is_image(#[trigger] init[i]) {
                let j = choose|j: int| 0 <= j < init.len() && is_image(#[trigger] init[j]) && fit(init[j], target) == min_fit(init, target);
                assert(es[j] == init[j]);
                assert(is_image(es[j]) && fit(es[j], target) == min_fit(es, target));
            } else {
                let i = choose|i: int| 0 <= i < es.len() && is_image(#[trigger] es[i]);
                if i < last {
                    assert(init[i] == es[i]);
                }
                assert(min_fit(init, target) == NO_FIT);
                assert(fit(es.last(), target) < NO_FIT);
            }
        }
    }
}

proof fn lemma_fit_positions_source(es: Seq<TocEntry>, target: u32, best: int)
    ensures
        forall|k: int| 0 <= k < fit_positions(es, target, best).len() ==> exists|i: int|
            0 <= i < es.len() && is_image(#[trigger] es[i]) && fit(es[i], target) == best && es[i].position
                == #[trigger] fit_positions(es, target, best)[k],
    decreases es.len(),
{
    if es.len() > 0 {
        let init = es.drop_last();
        lemma_fit_positions_source(init, target, best);
        let r = fit_positions(es, target, best);
        let ri = fit_positions(init, target, best);
        if is_image(es.last()) && fit(es.last(), target) == best {
            assert(r =~= ri + seq![es.last().position]);
        } else {
            assert(r =~= ri);
        }
        assert forall|k: int| 0 <= k < r.len() implies exists|i: int|
            0 <= i < es.len() && is_image(#[trigger] es[i]) && fit(es[i], target) == best && es[i].position == #[trigger] r[k] by {
            if k < ri.len() {
                assert(r[k] == ri[k]);
                let i = choose|i: int| 0 <= i < init.len() && is_image(#[trigger] init[i]) && fit(init[i], target) == best
                    && init[i].position == ri[k];
                assert(es[i] == init[i]);
            } else {
                assert(es[es.len() - 1] == es.last());
            }
        }
    }
}

/// Best-fit selection: no image entry of the table is closer to the
/// requested size than the selected distance, some image entry is at that
/// distance whenever the table has one, and each selected position is that
/// of an image entry at exactly that distance.
pub proof fn lemma_best_fit_selection(b: Seq<u8>, target: u32)
    ensures
        forall|i: int| 0 <= i < toc(b).len() && is_image(#[trigger] toc(b)[i]) ==> min_fit(toc(b), target) <= fit(toc(b)[i], target),
        (exists|i: int| 0 <= i < toc(b).len() && is_image(#[trigger] toc(b)[i])) ==> exists|j: int|
            0 <= j < toc(b).len() && is_image(#[trigger] toc(b)[j]) && fit(toc(b)[j], target) == min_fit(toc(b), target),
        forall|k: int| 0 <= k < selected_positions(b, target).len() ==> exists|i: int|
            0 <= i < toc(b).len() && is_image(#[trigger] toc(b)[i]) && fit(toc(b)[i], target) == min_fit(toc(b), target)
                && toc(b)[i].position == #[trigger] selected_positions(b, target)[k],
{
    lemma_min_fit_bounds(toc(b), target);
    lemma_fit_positions_source(toc(b), target, min_fit(toc(b), target));
}

/// A file whose first four bytes are not the magic number is rejected as
/// not an Xcursor file, whatever follows its first eight bytes.
pub proof fn lemma_bad_magic_rejected(head: Seq<u8>, rest: Seq<u8>, target: u32)
    requires
        head.len() == 8,
        le_u32(head, 0) != XCURSOR_MAGIC,
    ensures
        cursor_file_error(head + rest, target) == Some(XcbCursorError::NotAnXcursorFile),
{
    let b = head + rest;
    assert(b[0] == head[0] && b[1] == head[1] && b[2] == head[2] && b[3] == head[3]);
}

/// A table that declares more than 0x10000 entries is rejected as oversized,
/// whether or not the file holds any of them.
pub proof fn lemma_oversized_toc_rejected(b: Seq<u8>, target: u32)
    requires
        b.len() >= 16,
        le_u32(b, 0) == XCURSOR_MAGIC,
        header_len(b) >= HEADER_SIZE,
        toc_count(b) > MAX_TOC_ENTRIES,
    ensures
        cursor_file_error(b, target) == Some(XcbCursorError::OversizedXcursorFile),
{
}

/// When the first selected image declares a width above 65535, the file is
/// rejected as corrupt.
pub proof fn lemma_wide_image_rejected(b: Seq<u8>, target: u32)
    requires
        header_error(b) is None,
        selected_positions(b, target).len() > 0,
        selected_positions(b, target)[0] + IMAGE_HEADER_SIZE <= b.len(),
        image_field(b, selected_positions(b, target)[0] as int, 4) > 0xffff,
    ensures
        cursor_file_error(b, target) == Some(XcbCursorError::CorruptXcursorFile),
{
    let ps = selected_positions(b, target);
    assert(ps.take(1).drop_last() =~= Seq::<u32>::empty());
    assert(images_error(b, Seq::<u32>::empty()) is None);
    assert(ps.take(1).last() == ps[0]);
    assert(image_error(b, ps[0] as int) == Some(XcbCursorError::CorruptXcursorFile));
    assert(images_error(b, ps.take(1)) == Some(XcbCursorError::CorruptXcursorFile));
    lemma_error_prefix(b, ps, 1);
}


/// The four bytes of `v`, least significant first.
pub open spec fn le_bytes(v: u32) -> Seq<u8> {
    seq![(v % 256) as u8, ((v / 256) % 256) as u8, ((v / 65536) % 256) as u8, (v / 16777216) as u8]
}

/// A sequence of 32-bit words laid out little-endian.
pub open spec fn words_bytes(ws: Seq<u32>) -> Seq<u8> {
    Seq::new(4 * ws.len(), |k: int| le_bytes(ws[k / 4])[k % 4])
}

/// Where the image chunk of entry `i` of a synthetic file of `n` entries
/// starts: after the header, the table and `i` chunks of 36 bytes.
pub open spec fn chunk_position(n: int, i: int) -> u32 {
    (16 + 12 * n + 36 * i) as u32
}

/// Word `j` of a synthetic file: a header, one image entry per size, and for
/// each entry an image chunk of width and height 0.
pub open spec fn synthetic_word(sizes: Seq<u32>, j: int) -> u32 {
    let n = sizes.len() as int;
    if j == 0 {
        XCURSOR_MAGIC
    } else if j == 1 {
        HEADER_SIZE
    } else if j == 2 {
        1
    } else if j == 3 {
        n as u32
    } else if j < 4 + 3 * n {
        let i = (j - 4) / 3;
        let f = (j - 4) % 3;
        if f == 0 {
            XCURSOR_IMAGE_TYPE
        } else if f == 1 {
            sizes[i]
        } else {
            chunk_position(n, i)
        }
    } else {
        let i = (j - 4 - 3 * n) / 9;
        let f = (j - 4 - 3 * n) % 9;
        if f == 0 {
            IMAGE_HEADER_SIZE
        } else if f == 1 {
            XCURSOR_IMAGE_TYPE
        } else if f == 2 {
            sizes[i]
        } else if f == 3 {
            1
        } else {
            0
        }
    }
}

/// A minimal Xcursor file with one image entry of each nominal size.
pub open spec fn synthetic_file(sizes: Seq<u32>) -> Seq<u8> {
    words_bytes(Seq::new((4 + 12 * sizes.len()) as nat, |j: int| synthetic_word(sizes, j)))
}

/// The table of contents that [`synthetic_file`] encodes.
pub open spec fn synthetic_toc(sizes: Seq<u32>) -> Seq<TocEntry> {
    Seq::new(
        sizes.len(),
        |i: int| TocEntry { kind: XCURSOR_IMAGE_TYPE, size: sizes[i], position: chunk_position(sizes.len() as int, i) },
    )
}

proof fn lemma_le_bytes(v: u32)
    ensures
        le_u32(le_bytes(v), 0) == v,
{
    let x = v as int;
    vstd::arithmetic::div_mod::lemma_fundamental_div_mod(x, 256);
    vstd::arithmetic::div_mod::lemma_fundamental_div_mod(x / 256, 256);
    vstd::arithmetic::div_mod::lemma_fundamental_div_mod(x / 65536, 256);
    vstd::arithmetic::div_mod::lemma_div_denominator(x, 256, 256);
    vstd::arithmetic::div_mod::lemma_div_denominator(x, 65536, 256);
    assert(x / 16777216 < 256);
}

proof fn lemma_words_bytes(ws: Seq<u32>, j: int)
    requires
        0 <= j < ws.len(),
    ensures
        le_u32(words_bytes(ws), 4 * j) == ws[j],
{
    let b = words_bytes(ws);
    assert((4 * j) / 4 == j && (4 * j) % 4 == 0);
    assert((4 * j + 1) / 4 == j && (4 * j + 1) % 4 == 1);
    assert((4 * j + 2) / 4 == j && (4 * j + 2) % 4 == 2);
    assert((4 * j + 3) / 4 == j && (4 * j + 3) % 4 == 3);
    lemma_le_bytes(ws[j]);
    let l = le_bytes(ws[j]);
    assert(b[4 * j] == l[0] && b[4 * j + 1] == l[1] && b[4 * j + 2] == l[2] && b[4 * j + 3] == l[3]);
}

proof fn lemma_synthetic_word_at(sizes: Seq<u32>, j: int)
    requires
        sizes.len() <= MAX_TOC_ENTRIES,
        0 <= j < 4 + 12 * sizes.len(),
    ensures
        le_u32(synthetic_file(sizes), 4 * j) == synthetic_word(sizes, j),
{
    let ws = Seq::new((4 + 12 * sizes.len()) as nat, |j: int| synthetic_word(sizes, j));
    lemma_words_bytes(ws, j);
}

proof fn lemma_images_error_none(b: Seq<u8>, ps: Seq<u32>)
    requires
        forall|k: int| 0 <= k < ps.len() ==> image_error(b, #[trigger] ps[k] as int) is None,
    ensures
        images_error(b, ps) is None,
    decreases ps.len(),
{
    if ps.len() > 0 {
        let init = ps.drop_last();
        assert forall|k: int| 0 <= k < init.len() implies image_error(b, #[trigger] init[k] as int) is None by {
            assert(init[k] == ps[k]);
        }
        lemma_images_error_none(b, init);
        assert(image_error(b, ps[ps.len() - 1] as int) is None);
    }
}

proof fn lemma_synthetic_header(sizes: Seq<u32>)
    requires
        sizes.len() <= MAX_TOC_ENTRIES,
    ensures
        synthetic_file(sizes).len() == 16 + 48 * sizes.len(),
        header_len(synthetic_file(sizes)) == 16,
        toc_count(synthetic_file(sizes)) == sizes.len(),
        header_error(synthetic_file(sizes)) is None,
{
    lemma_synthetic_word_at(sizes, 0);
    lemma_synthetic_word_at(sizes, 1);
    lemma_synthetic_word_at(sizes, 3);
}

proof fn lemma_synthetic_entry(sizes: Seq<u32>, i: int)
    requires
        sizes.len() <= MAX_TOC_ENTRIES,
        0 <= i < sizes.len(),
    ensures
        toc_entry(synthetic_file(sizes), i) == synthetic_toc(sizes)[i],
{
    let j = 4 + 3 * i;
    lemma_synthetic_header(sizes);
    lemma_synthetic_word_at(sizes, j);
    lemma_synthetic_word_at(sizes, j + 1);
    lemma_synthetic_word_at(sizes, j + 2);
    assert((j - 4) / 3 == i && (j - 4) % 3 == 0);
    assert((j + 1 - 4) / 3 == i && (j + 1 - 4) % 3 == 1);
    assert((j + 2 - 4) / 3 == i && (j + 2 - 4) % 3 == 2);
    assert(synthetic_word(sizes, j) == XCURSOR_IMAGE_TYPE);
    assert(synthetic_word(sizes, j + 1) == sizes[i]);
    assert(synthetic_word(sizes, j + 2) == chunk_position(sizes.len() as int, i));
    assert(16 + 12 * i == 4 * j);
}

proof fn lemma_synthetic_zero_field(sizes: Seq<u32>, i: int, f: int)
    requires
        sizes.len() <= MAX_TOC_ENTRIES,
        0 <= i < sizes.len(),
        4 <= f <= 8,
    ensures
        image_field(synthetic_file(sizes), chunk_position(sizes.len() as int, i) as int, f) == 0,
{
    let n = sizes.len() as int;
    let j = 4 + 3 * n + 9 * i + f;
    lemma_synthetic_word_at(sizes, j);
    assert((j - 4 - 3 * n) / 9 == i && (j - 4 - 3 * n) % 9 == f);
    assert(synthetic_word(sizes, j) == 0);
    assert(chunk_position(n, i) as int + 4 * f == 4 * j);
}

proof fn lemma_synthetic_chunk(sizes: Seq<u32>, i: int)
    requires
        sizes.len() <= MAX_TOC_ENTRIES,
        0 <= i < sizes.len(),
    ensures
        image_error(synthetic_file(sizes), chunk_position(sizes.len() as int, i) as int) is None,
{
    lemma_synthetic_header(sizes);
    lemma_synthetic_zero_field(sizes, i, 4);
    lemma_synthetic_zero_field(sizes, i, 5);
    lemma_synthetic_zero_field(sizes, i, 6);
    lemma_synthetic_zero_field(sizes, i, 7);
}

/// Round trip: a synthetic file with one image entry per size decodes
/// without error, its table is exactly the encoded one, and the images
/// decoded for `target` are the chunks of the image entries whose sizes are
/// closest to `target`, in table order.
pub proof fn lemma_synthetic_round_trip(sizes: Seq<u32>, target: u32)
    requires
        sizes.len() <= MAX_TOC_ENTRIES,
    ensures
        cursor_file_error(synthetic_file(sizes), target) is None,
        toc(synthetic_file(sizes)) == synthetic_toc(sizes),
        selected_positions(synthetic_file(sizes), target) == fit_positions(
            synthetic_toc(sizes),
            target,
            min_fit(synthetic_toc(sizes), target),
        ),
        forall|k: int| 0 <= k < selected_positions(synthetic_file(sizes), target).len() ==> exists|i: int|
            0 <= i < sizes.len() && fit(synthetic_toc(sizes)[i], target) == min_fit(synthetic_toc(sizes), target)
                && #[trigger] selected_positions(synthetic_file(sizes), target)[k] == chunk_position(sizes.len() as int, i),
{
    let n = sizes.len() as int;
    let b = synthetic_file(sizes);
    let st = synthetic_toc(sizes);
    lemma_synthetic_header(sizes);
    assert forall|i: int| 0 <= i < n implies #[trigger] toc(b)[i] == st[i] by {
        lemma_synthetic_entry(sizes, i);
    }
    assert(toc(b) =~= st);
    let sel = selected_positions(b, target);
    lemma_fit_positions_source(st, target, min_fit(st, target));
    assert forall|k: int| 0 <= k < sel.len() implies image_error(b, #[trigger] sel[k] as int) is None by {
        let i = choose|i: int| 0 <= i < st.len() && is_image(#[trigger] st[i]) && fit(st[i], target) == min_fit(st, target)
            && st[i].position == sel[k];
        lemma_synthetic_chunk(sizes, i);
    }
    lemma_images_error_none(b, sel);
    assert forall|k: int| 0 <= k < sel.len() implies exists|i: int|
        0 <= i < sizes.len() && fit(st[i], target) == min_fit(st, target) && #[trigger] sel[k] == chunk_position(n, i) by {
        let i = choose|i: int| 0 <= i < st.len() && is_image(#[trigger] st[i]) && fit(st[i], target) == min_fit(st, target)
            && st[i].position == sel[k];
    }
}

} // verus!
