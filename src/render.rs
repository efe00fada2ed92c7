//! Picture formats of the Render extension and how a wanted format is
//! matched against those the server offers.

use vstd::prelude::*;

verus! {

/// The picture type of formats with direct color channels.
pub const PICT_TYPE_DIRECT: u8 = 1;

/// Feature bits: which fields of a wanted format must match.
pub const FEATURE_ID: u16 = 1 << 0;
pub const FEATURE_TYPE: u16 = 1 << 1;
pub const FEATURE_DEPTH: u16 = 1 << 2;
pub const FEATURE_RED_SHIFT: u16 = 1 << 3;
pub const FEATURE_RED_MASK: u16 = 1 << 4;
pub const FEATURE_GREEN_SHIFT: u16 = 1 << 5;
pub const FEATURE_GREEN_MASK: u16 = 1 << 6;
pub const FEATURE_BLUE_SHIFT: u16 = 1 << 7;
pub const FEATURE_BLUE_MASK: u16 = 1 << 8;
pub const FEATURE_ALPHA_SHIFT: u16 = 1 << 9;
pub const FEATURE_ALPHA_MASK: u16 = 1 << 10;
pub const FEATURE_COLORMAP: u16 = 1 << 11;

/// The standard formats every Render server offers.
#[derive(Copy, Clone, Debug, Eq, PartialEq, Structural)]
pub enum XcbPictFormat {
    Argb32,
    Rgb24,
    A8,
    A4,
    A1,
}

/// The channel layout of a direct format.
#[derive(Copy, Clone, Debug, Default, Eq, PartialEq, Structural)]
pub struct DirectFormat {
    pub red_shift: u16,
    pub red_mask: u16,
    pub green_shift: u16,
    pub green_mask: u16,
    pub blue_shift: u16,
    pub blue_mask: u16,
    pub alpha_shift: u16,
    pub alpha_mask: u16,
}

/// A picture format as the server describes it.
#[derive(Copy, Clone, Debug, Default, Eq, PartialEq, Structural)]
pub struct PictFormatInfo {
    pub id: u32,
    pub type_: u8,
    pub depth: u8,
    pub direct: DirectFormat,
    pub colormap: u32,
}

pub open spec fn direct(
    red_shift: u16,
    red_mask: u16,
    green_shift: u16,
    green_mask: u16,
    blue_shift: u16,
    blue_mask: u16,
    alpha_shift: u16,
    alpha_mask: u16,
) -> DirectFormat {
    DirectFormat { red_shift, red_mask, green_shift, green_mask, blue_shift, blue_mask, alpha_shift, alpha_mask }
}

/// The description of a standard format, and the fields that identify it.
pub open spec fn standard_format(f: XcbPictFormat) -> (PictFormatInfo, u16) {
    let color = FEATURE_TYPE | FEATURE_DEPTH | FEATURE_RED_SHIFT | FEATURE_RED_MASK | FEATURE_GREEN_SHIFT
        | FEATURE_GREEN_MASK | FEATURE_BLUE_SHIFT | FEATURE_BLUE_MASK;
    let alpha_only = FEATURE_TYPE | FEATURE_DEPTH | FEATURE_RED_MASK | FEATURE_GREEN_MASK | FEATURE_BLUE_MASK
        | FEATURE_ALPHA_SHIFT | FEATURE_ALPHA_MASK;
    match f {
        XcbPictFormat::Argb32 => (
            PictFormatInfo { id: 0, type_: PICT_TYPE_DIRECT, depth: 32, direct: direct(16, 0xff, 8, 0xff, 0, 0xff, 24, 0xff), colormap: 0 },
            color | FEATURE_ALPHA_SHIFT | FEATURE_ALPHA_MASK,
        ),
        XcbPictFormat::Rgb24 => (
            PictFormatInfo { id: 0, type_: PICT_TYPE_DIRECT, depth: 24, direct: direct(16, 0xff, 8, 0xff, 0, 0xff, 0, 0), colormap: 0 },
            color | FEATURE_ALPHA_MASK,
        ),
        XcbPictFormat::A8 => (
            PictFormatInfo { id: 0, type_: PICT_TYPE_DIRECT, depth: 8, direct: direct(0, 0, 0, 0, 0, 0, 0, 0xff), colormap: 0 },
            alpha_only,
        ),
        XcbPictFormat::A4 => (
            PictFormatInfo { id: 0, type_: PICT_TYPE_DIRECT, depth: 4, direct: direct(0, 0, 0, 0, 0, 0, 0, 0x0f), colormap: 0 },
            alpha_only,
        ),
        XcbPictFormat::A1 => (
            PictFormatInfo { id: 0, type_: PICT_TYPE_DIRECT, depth: 1, direct: direct(0, 0, 0, 0, 0, 0, 0, 0x01), colormap: 0 },
            alpha_only,
        ),
    }
}

impl XcbPictFormat {
    /// The description of this format and the fields that identify it.
    pub fn info(self) -> (r: (PictFormatInfo, u16))
        ensures
            r == standard_format(self),
    {
        let color = FEATURE_TYPE | FEATURE_DEPTH | FEATURE_RED_SHIFT | FEATURE_RED_MASK | FEATURE_GREEN_SHIFT
            | FEATURE_GREEN_MASK | FEATURE_BLUE_SHIFT | FEATURE_BLUE_MASK;
        let alpha_only = FEATURE_TYPE | FEATURE_DEPTH | FEATURE_RED_MASK | FEATURE_GREEN_MASK | FEATURE_BLUE_MASK
            | FEATURE_ALPHA_SHIFT | FEATURE_ALPHA_MASK;
        let (depth, d, features) = match self {
            XcbPictFormat::Argb32 => (
                32,
                DirectFormat { red_shift: 16, red_mask: 0xff, green_shift: 8, green_mask: 0xff, blue_shift: 0, blue_mask: 0xff, alpha_shift: 24, alpha_mask: 0xff },
                color | FEATURE_ALPHA_SHIFT | FEATURE_ALPHA_MASK,
            ),
            XcbPictFormat::Rgb24 => (
                24,
                DirectFormat { red_shift: 16, red_mask: 0xff, green_shift: 8, green_mask: 0xff, blue_shift: 0, blue_mask: 0xff, alpha_shift: 0, alpha_mask: 0 },
                color | FEATURE_ALPHA_MASK,
            ),
            XcbPictFormat::A8 => (
                8,
                DirectFormat { red_shift: 0, red_mask: 0, green_shift: 0, green_mask: 0, blue_shift: 0, blue_mask: 0, alpha_shift: 0, alpha_mask: 0xff },
                alpha_only,
            ),
            XcbPictFormat::A4 => (
                4,
                DirectFormat { red_shift: 0, red_mask: 0, green_shift: 0, green_mask: 0, blue_shift: 0, blue_mask: 0, alpha_shift: 0, alpha_mask: 0x0f },
                alpha_only,
            ),
            XcbPictFormat::A1 => (
                1,
                DirectFormat { red_shift: 0, red_mask: 0, green_shift: 0, green_mask: 0, blue_shift: 0, blue_mask: 0, alpha_shift: 0, alpha_mask: 0x01 },
                alpha_only,
            ),
        };
        (PictFormatInfo { id: 0, type_: PICT_TYPE_DIRECT, depth, direct: d, colormap: 0 }, features)
    }
}

/// `actual` agrees with `want` on every field that `features` selects.
pub open spec fn format_matches(want: PictFormatInfo, features: u16, actual: PictFormatInfo) -> bool {
    &&& (features & FEATURE_ID != 0 ==> want.id == actual.id)
    &&& (features & FEATURE_TYPE != 0 ==> want.type_ == actual.type_)
    &&& (features & FEATURE_DEPTH != 0 ==> want.depth == actual.depth)
    &&& (features & FEATURE_RED_SHIFT != 0 ==> want.direct.red_shift == actual.direct.red_shift)
    &&& (features & FEATURE_RED_MASK != 0 ==> want.direct.red_mask == actual.direct.red_mask)
    &&& (features & FEATURE_GREEN_SHIFT != 0 ==> want.direct.green_shift == actual.direct.green_shift)
    &&& (features & FEATURE_GREEN_MASK != 0 ==> want.direct.green_mask == actual.direct.green_mask)
    &&& (features & FEATURE_BLUE_SHIFT != 0 ==> want.direct.blue_shift == actual.direct.blue_shift)
    &&& (features & FEATURE_BLUE_MASK != 0 ==> want.direct.blue_mask == actual.direct.blue_mask)
    &&& (features & FEATURE_ALPHA_SHIFT != 0 ==> want.direct.alpha_shift == actual.direct.alpha_shift)
    &&& (features & FEATURE_ALPHA_MASK != 0 ==> want.direct.alpha_mask == actual.direct.alpha_mask)
    &&& (features & FEATURE_COLORMAP != 0 ==> want.colormap == actual.colormap)
}

fn matches(want: &PictFormatInfo, features: u16, actual: &PictFormatInfo) -> (r: bool)
    ensures
        r == format_matches(*want, features, *actual),
{
    (features & FEATURE_ID == 0 || want.id == actual.id)
        && (features & FEATURE_TYPE == 0 || want.type_ == actual.type_)
        && (features & FEATURE_DEPTH == 0 || want.depth == actual.depth)
        && (features & FEATURE_RED_SHIFT == 0 || want.direct.red_shift == actual.direct.red_shift)
        && (features & FEATURE_RED_MASK == 0 || want.direct.red_mask == actual.direct.red_mask)
        && (features & FEATURE_GREEN_SHIFT == 0 || want.direct.green_shift == actual.direct.green_shift)
        && (features & FEATURE_GREEN_MASK == 0 || want.direct.green_mask == actual.direct.green_mask)
        && (features & FEATURE_BLUE_SHIFT == 0 || want.direct.blue_shift == actual.direct.blue_shift)
        && (features & FEATURE_BLUE_MASK == 0 || want.direct.blue_mask == actual.direct.blue_mask)
        && (features & FEATURE_ALPHA_SHIFT == 0 || want.direct.alpha_shift == actual.direct.alpha_shift)
        && (features & FEATURE_ALPHA_MASK == 0 || want.direct.alpha_mask == actual.direct.alpha_mask)
        && (features & FEATURE_COLORMAP == 0 || want.colormap == actual.colormap)
}

/// The first of `formats[k..]` that matches `want` on `features`.
pub open spec fn first_match(formats: Seq<PictFormatInfo>, want: PictFormatInfo, features: u16, k: int) -> Option<PictFormatInfo>
    decreases formats.len() - k,
{
    if k < 0 || k >= formats.len() {
        None
    } else if format_matches(want, features, formats[k]) {
        Some(formats[k])
    } else {
        first_match(formats, want, features, k + 1)
    }
}

/// The first of the server's formats that agrees with `want` on every field
/// that `features` selects.
pub fn find_format(formats: &[PictFormatInfo], want: &PictFormatInfo, features: u16) -> (r: Option<PictFormatInfo>)
    ensures
        r == first_match(formats@, *want, features, 0),
{
    let mut k: usize = 0;
    while k < formats.len()
        invariant
            k <= formats@.len(),
            first_match(formats@, *want, features, 0) == first_match(formats@, *want, features, k as int),
        decreases formats@.len() - k,
    {
        if matches(want, features, &formats[k]) {
            return Some(formats[k]);
        }
        k = k + 1;
    }
    None
}

/// The first of the server's formats that is the standard format `format`.
pub fn find_standard_format(formats: &[PictFormatInfo], format: XcbPictFormat) -> (r: Option<PictFormatInfo>)
    ensures
        r == first_match(formats@, standard_format(format).0, standard_format(format).1, 0),
{
    let (want, features) = format.info();
    find_format(formats, &want, features)
}

} // verus!
