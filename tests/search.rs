use xcb_dl_util::search::{find_cursor, CursorSource, ThemeDirInfo};

fn dir(dir: usize, theme: &str, has_cursor: bool, index: Option<&str>) -> ThemeDirInfo {
    ThemeDirInfo {
        dir,
        theme: theme.as_bytes().to_vec(),
        has_cursor,
        index: index.map(|i| i.as_bytes().to_vec()),
    }
}

fn file_of(r: Option<CursorSource>) -> Option<(usize, String)> {
    match r {
        Some(CursorSource::File { dir, theme }) => Some((dir, String::from_utf8(theme).unwrap())),
        _ => None,
    }
}

#[test]
fn inherits_tries_dark_then_light() {
    let snap = vec![
        dir(0, "mine", false, Some("Inherits=dark;light\n")),
        dir(1, "light", true, None),
        dir(0, "dark", false, None),
    ];
    assert_eq!(file_of(find_cursor(&snap, 2, b"left_ptr", Some(b"mine"), true)), Some((1, "light".into())));
    let snap = vec![
        dir(0, "mine", false, Some("Inherits=dark;light\n")),
        dir(1, "light", true, None),
        dir(1, "dark", true, None),
    ];
    assert_eq!(file_of(find_cursor(&snap, 2, b"left_ptr", Some(b"mine"), true)), Some((1, "dark".into())));
}

#[test]
fn inheritance_is_depth_first() {
    let snap = vec![
        dir(0, "mine", false, Some("Inherits=dark;light\n")),
        dir(0, "dark", false, Some("Inherits=base\n")),
        dir(0, "light", true, None),
        dir(1, "base", true, None),
    ];
    assert_eq!(file_of(find_cursor(&snap, 2, b"watch", Some(b"mine"), true)), Some((1, "base".into())));
}

#[test]
fn first_directory_holding_the_cursor_wins() {
    let snap = vec![dir(2, "mine", true, None), dir(1, "mine", true, None)];
    assert_eq!(file_of(find_cursor(&snap, 3, b"watch", Some(b"mine"), true)), Some((1, "mine".into())));
}

#[test]
fn cyclic_inheritance_ends_in_the_core_font() {
    let snap = vec![dir(0, "a", false, Some("Inherits=b")), dir(0, "b", false, Some("Inherits=a"))];
    let r = find_cursor(&snap, 1, b"watch", Some(b"a"), true);
    assert!(matches!(r, Some(CursorSource::CoreGlyph(75))));
}

#[test]
fn default_theme_is_the_second_try() {
    let snap = vec![dir(0, "default", true, None)];
    assert_eq!(file_of(find_cursor(&snap, 1, b"hand2", Some(b"other"), true)), Some((0, "default".into())));
    assert_eq!(file_of(find_cursor(&snap, 1, b"hand2", None, true)), Some((0, "default".into())));
}

#[test]
fn core_theme_uses_the_core_font() {
    let snap = vec![dir(0, "core", true, None)];
    assert!(matches!(find_cursor(&snap, 1, b"hand2", Some(b"core"), true), Some(CursorSource::CoreGlyph(30))));
}

#[test]
fn without_image_cursors_only_the_core_font_counts() {
    let snap = vec![dir(0, "mine", true, None)];
    assert!(matches!(find_cursor(&snap, 1, b"hand2", Some(b"mine"), false), Some(CursorSource::CoreGlyph(30))));
    assert!(find_cursor(&snap, 1, b"no_such_cursor", Some(b"mine"), false).is_none());
}

#[test]
fn unknown_name_without_files_is_not_found() {
    let snap: Vec<ThemeDirInfo> = Vec::new();
    assert!(find_cursor(&snap, 0, b"no_such_cursor", Some(b"mine"), true).is_none());
}
