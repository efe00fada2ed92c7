use xcb_dl_util::property::{check_property_chunk, XcbGetPropertyError};
use xcb_dl_util::format::XcbDataType;
use xcb_dl_util::bytes::parse_u32;
use xcb_dl_util::theme::{core_cursor_glyph, cursor_paths, parse_inherits, resource_defaults, ATOM_STRING};

fn names(v: Option<Vec<Vec<u8>>>) -> Option<Vec<String>> {
    v.map(|l| l.into_iter().map(|n| String::from_utf8(n).unwrap()).collect())
}

#[test]
fn xcursor_size_wins_over_xft_dpi() {
    let r = resource_defaults(1920, 1080, ATOM_STRING, 8, b"Xft.dpi:\t96\nXcursor.size: 32\n");
    assert_eq!(r.size, 32);
}

#[test]
fn xft_dpi_scales_by_16_over_72() {
    let r = resource_defaults(1920, 1080, ATOM_STRING, 8, b"Xft.dpi: 96");
    assert_eq!(r.size, 21);
}

#[test]
fn screen_size_is_the_last_resort() {
    let r = resource_defaults(1920, 1080, ATOM_STRING, 8, b"Xft.dpi: 0\nXcursor.size: big\n");
    assert_eq!(r.size, 22);
    assert!(r.theme.is_none());
}

#[test]
fn theme_loses_leading_blanks_and_last_line_counts() {
    let r = resource_defaults(100, 100, ATOM_STRING, 8, b"Xcursor.theme: one\nXcursor.theme: \t breeze_cursors\n*foreground: x");
    assert_eq!(r.theme.unwrap(), b"breeze_cursors".to_vec());
    assert_eq!(r.size, 2);
}

#[test]
fn property_of_wrong_type_is_ignored() {
    let r = resource_defaults(480, 960, 4, 8, b"Xcursor.size: 32");
    assert_eq!((r.theme, r.size), (None, 10));
    let r = resource_defaults(480, 960, ATOM_STRING, 16, b"Xcursor.size: 32");
    assert_eq!(r.size, 10);
}

#[test]
fn decimal_parsing() {
    assert_eq!(parse_u32(b" 42 \t"), Some(42));
    assert_eq!(parse_u32(b"+7"), Some(7));
    assert_eq!(parse_u32(b"4294967295"), Some(u32::MAX));
    assert_eq!(parse_u32(b"4294967296"), None);
    assert_eq!(parse_u32(b""), None);
    assert_eq!(parse_u32(b"+"), None);
    assert_eq!(parse_u32(b"-1"), None);
    assert_eq!(parse_u32(b"1 2"), None);
}

#[test]
fn inherits_line_lists_parents_in_order() {
    assert_eq!(names(parse_inherits(b"[Icon Theme]\nInherits=dark;light\n")), Some(vec!["dark".into(), "light".into()]));
    assert_eq!(
        names(parse_inherits(b"Inherits \t = a, b\tc;;\nInherits=z\n")),
        Some(vec!["a".into(), "b".into(), "c".into()])
    );
}

#[test]
fn lines_without_inherits_give_none() {
    assert_eq!(names(parse_inherits(b"[Icon Theme]\nName=x\nInheritsX=y\nInherits\n")), None);
    assert_eq!(names(parse_inherits(b"")), None);
}

#[test]
fn search_path_expands_home() {
    let r = cursor_paths(Some(b"/a:~/b:"), Some(b"/home/u"));
    assert_eq!(r, vec![b"/a".to_vec(), b"/home/u/b".to_vec(), Vec::new()]);
    let r = cursor_paths(Some(b"~/b:/c"), None);
    assert_eq!(r, vec![b"/c".to_vec()]);
}

#[test]
fn default_search_path_has_five_directories() {
    let r = cursor_paths(None, Some(b"/h"));
    assert_eq!(r.len(), 5);
    assert_eq!(r[0], b"/h/.local/share/icons".to_vec());
    assert_eq!(r[2], b"/usr/share/icons".to_vec());
}

#[test]
fn core_glyph_names() {
    assert_eq!(core_cursor_glyph(b"X_cursor"), Some(0));
    assert_eq!(core_cursor_glyph(b"left_ptr"), Some(34));
    assert_eq!(core_cursor_glyph(b"xterm"), Some(76));
    assert_eq!(core_cursor_glyph(b"pointer"), None);
}

#[test]
fn data_type_bits() {
    assert_eq!(<u8 as XcbDataType>::xcb_bits(), 8);
    assert_eq!(<i16 as XcbDataType>::xcb_bits(), 16);
    assert_eq!(<u32 as XcbDataType>::xcb_bits(), 32);
}

#[test]
fn property_chunks() {
    assert!(matches!(check_property_chunk(31, 8, 0, 0, 0), Err(XcbGetPropertyError::Unset)));
    assert!(matches!(
        check_property_chunk(31, 8, 4, 32, 0),
        Err(XcbGetPropertyError::InvalidPropertyType { expected: 31, actual: 4 })
    ));
    assert!(matches!(
        check_property_chunk(31, 8, 31, 16, 0),
        Err(XcbGetPropertyError::InvalidPropertyFormat { expected: 8, actual: 16 })
    ));
    assert!(matches!(check_property_chunk(31, 8, 31, 8, 12), Ok(true)));
    assert!(matches!(check_property_chunk(31, 8, 31, 8, 0), Ok(false)));
}
