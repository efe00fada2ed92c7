//! Cursor theme settings: the defaults that the server's resource database
//! announces, the directories searched for themes, the parent themes that a
//! theme index names, and the glyphs of the core cursor font.

use crate::bytes::{
    bytes_eq, copy_range, decimal_u32, find_byte, next_byte, parse_u32, skip_blanks, skip_blanks_from,
};
use vstd::prelude::*;
use vstd::string::StringSliceAdditionalSpecFns;

verus! {

/// The atom of the `STRING` property type.
pub const ATOM_STRING: u32 = 31;

/// The views of a list of byte strings.
pub open spec fn views(vs: Seq<Vec<u8>>) -> Seq<Seq<u8>> {
    Seq::new(vs.len(), |i: int| vs[i]@)
}

pub open spec fn opt_view(o: Option<Vec<u8>>) -> Option<Seq<u8>> {
    match o {
        Some(v) => Some(v@),
        None => None,
    }
}

/// What the resource database says of cursors: the theme, and the last
/// parsed `Xcursor.size` and `Xft.dpi` values (a value that does not parse
/// counts as absent).
pub struct ResourceScan {
    pub theme: Option<Seq<u8>>,
    pub xcursor_size: Option<u32>,
    pub xft_dpi: Option<u32>,
}

/// The effect of one `name: value` line of the resource database.
pub open spec fn apply_resource_line(line: Seq<u8>, st: ResourceScan) -> ResourceScan {
    let c = next_byte(line, 0, 0x3a);
    if c >= line.len() {
        st
    } else {
        let name = line.subrange(0, c);
        let value = line.subrange(c + 1, line.len() as int);
        if name == "Xcursor.theme".spec_bytes() {
            ResourceScan { theme: Some(value.subrange(skip_blanks(value, 0), value.len() as int)), ..st }
        } else if name == "Xcursor.size".spec_bytes() {
            ResourceScan { xcursor_size: decimal_u32(value), ..st }
        } else if name == "Xft.dpi".spec_bytes() {
            ResourceScan { xft_dpi: decimal_u32(value), ..st }
        } else {
            st
        }
    }
}

/// The scan of the lines of `s` from index `from` on, starting in state `st`.
pub open spec fn scan_resources(s: Seq<u8>, from: int, st: ResourceScan) -> ResourceScan
    decreases s.len() + 1 - from,
{
    if from < 0 || from > s.len() {
        st
    } else {
        let end = next_byte(s, from, 0x0a);
        let st2 = apply_resource_line(s.subrange(from, end), st);
        if end >= s.len() || end < from {
            st2
        } else {
            scan_resources(s, end + 1, st2)
        }
    }
}

/// The cursor size that a scan gives: `Xcursor.size` when set; else a
/// nonzero `Xft.dpi` scaled by 16/72; else `fallback`.
pub open spec fn resolved_size(st: ResourceScan, fallback: u32) -> u32 {
    match st.xcursor_size {
        Some(n) => n,
        None => match st.xft_dpi {
            Some(d) => if d > 0 {
                (d * 16 / 72) as u32
            } else {
                fallback
            },
            None => fallback,
        },
    }
}

/// The default theme and cursor size of a context.
#[derive(Clone, Debug)]
pub struct ResourceDefaults {
    pub theme: Option<Vec<u8>>,
    pub size: u32,
}

/// The cursor size derived from the screen alone: its smaller side over 48.
pub open spec fn screen_cursor_size(width: u16, height: u16) -> u32 {
    (if width < height {
        width
    } else {
        height
    }) as u32 / 48
}

/// What the defaults are, given the screen and the resource-manager
/// property of its root window (its type, format and value).
pub open spec fn defaults_spec(width: u16, height: u16, ty: u32, format: u8, value: Seq<u8>) -> (Option<Seq<u8>>, u32) {
    let fallback = screen_cursor_size(width, height);
    if ty == ATOM_STRING && format == 8 {
        let st = scan_resources(value, 0, ResourceScan { theme: None, xcursor_size: None, xft_dpi: None });
        (st.theme, resolved_size(st, fallback))
    } else {
        (None, fallback)
    }
}

fn scan_line(s: &[u8], from: usize, end: usize, theme: &mut Option<Vec<u8>>, xcursor_size: &mut Option<u32>, xft_dpi: &mut Option<u32>)
    requires
        from <= end <= s@.len(),
    ensures
        apply_resource_line(
            s@.subrange(from as int, end as int),
            ResourceScan { theme: opt_view(*old(theme)), xcursor_size: *old(xcursor_size), xft_dpi: *old(xft_dpi) },
        ) == (ResourceScan { theme: opt_view(*final(theme)), xcursor_size: *final(xcursor_size), xft_dpi: *final(xft_dpi) }),
{
    let line = copy_range(s, from, end);
    let c = find_byte(line.as_slice(), 0, 0x3a);
    if c >= line.len() {
        return;
    }
    let name = copy_range(line.as_slice(), 0, c);
    let value = copy_range(line.as_slice(), c + 1, line.len());
    if bytes_eq(name.as_slice(), "Xcursor.theme".as_bytes()) {
        let start = skip_blanks_from(value.as_slice(), 0);
        *theme = Some(copy_range(value.as_slice(), start, value.len()));
    } else if bytes_eq(name.as_slice(), "Xcursor.size".as_bytes()) {
        *xcursor_size = parse_u32(value.as_slice());
    } else if bytes_eq(name.as_slice(), "Xft.dpi".as_bytes()) {
        *xft_dpi = parse_u32(value.as_slice());
    }
}

/// Reads the defaults of a context from its screen size and the value of
/// the root window's resource-manager property.
///
/// The property counts only when it is a `STRING` of 8-bit units. Its lines
/// are `name: value`; the last `Xcursor.theme`, `Xcursor.size` and `Xft.dpi`
/// lines count. The size is `Xcursor.size` when it parses, else a nonzero
/// `Xft.dpi` times 16/72, else the smaller screen side over 48.
pub fn resource_defaults(width: u16, height: u16, ty: u32, format: u8, value: &[u8]) -> (r: ResourceDefaults)
    ensures
        (opt_view(r.theme), r.size) == defaults_spec(width, height, ty, format, value@),
{
    let fallback: u32 = (if width < height { width } else { height }) as u32 / 48;
    if !(ty == ATOM_STRING && format == 8) {
        return ResourceDefaults { theme: None, size: fallback };
    }
    let mut theme: Option<Vec<u8>> = None;
    let mut xcursor_size: Option<u32> = None;
    let mut xft_dpi: Option<u32> = None;
    let ghost init = ResourceScan { theme: None, xcursor_size: None, xft_dpi: None };
    let mut from: usize = 0;
    loop
        invariant
            from <= value@.len(),
            scan_resources(value@, 0, init) == scan_resources(
                value@,
                from as int,
                ResourceScan { theme: opt_view(theme), xcursor_size, xft_dpi },
            ),
        ensures
            scan_resources(value@, 0, init) == (ResourceScan { theme: opt_view(theme), xcursor_size, xft_dpi }),
        decreases value@.len() - from,
    {
        let end = find_byte(value, from, 0x0a);
        scan_line(value, from, end, &mut theme, &mut xcursor_size, &mut xft_dpi);
        if end >= value.len() {
            break;
        }
        from = end + 1;
    }
    let size = match xcursor_size {
        Some(n) => n,
        None => match xft_dpi {
            Some(d) => if d > 0 {
                (d as u64 * 16 / 72) as u32
            } else {
                fallback
            },
            None => fallback,
        },
    };
    ResourceDefaults { theme, size }
}

/// When the resource database sets `Xcursor.size`, that value is the
/// cursor size, whatever `Xft.dpi` says.
pub proof fn lemma_xcursor_size_preferred(st: ResourceScan, fallback: u32)
    requires
        st.xcursor_size is Some,
    ensures
        resolved_size(st, fallback) == st.xcursor_size->Some_0,
{
}


/// A separator in the list of parent themes.
pub open spec fn is_name_sep(c: u8) -> bool {
    c == 0x20 || c == 0x09 || c == 0x0a || c == 0x3b || c == 0x2c
}

/// The end of the name that starts at `from`.
pub open spec fn word_end(s: Seq<u8>, from: int) -> int
    decreases s.len() - from,
{
    if from >= s.len() || is_name_sep(s[from]) {
        from
    } else {
        word_end(s, from + 1)
    }
}

proof fn lemma_word_end_bounds(s: Seq<u8>, from: int)
    requires
        0 <= from <= s.len(),
    ensures
        from <= word_end(s, from) <= s.len(),
    decreases s.len() - from,
{
    if from < s.len() && !is_name_sep(s[from]) {
        lemma_word_end_bounds(s, from + 1);
    }
}

/// The non-empty names of `s` from index `from` on, in order.
pub open spec fn names_from(s: Seq<u8>, from: int) -> Seq<Seq<u8>>
    decreases s.len() - from,
{
    if from < 0 || from >= s.len() {
        Seq::empty()
    } else if is_name_sep(s[from]) {
        names_from(s, from + 1)
    } else {
        let e = word_end(s, from + 1);
        if e > from && e <= s.len() {
            seq![s.subrange(from, e)] + names_from(s, e)
        } else {
            Seq::empty()
        }
    }
}

/// The parent themes that one line names, if it is an `Inherits` line:
/// the word `Inherits`, optional blanks, `=`, then the names.
pub open spec fn inherits_line(line: Seq<u8>) -> Option<Seq<Seq<u8>>> {
    if line.len() >= 8 && line.subrange(0, 8) == "Inherits".spec_bytes() {
        let k = skip_blanks(line, 8);
        if k < line.len() && line[k] == 0x3d {
            Some(names_from(line, k + 1))
        } else {
            None
        }
    } else {
        None
    }
}

/// The parent themes that the first `Inherits` line of `s` at or after
/// `from` names; later such lines are ignored.
pub open spec fn inherits_in(s: Seq<u8>, from: int) -> Option<Seq<Seq<u8>>>
    decreases s.len() + 1 - from,
{
    if from < 0 || from >= s.len() {
        None
    } else {
        let end = next_byte(s, from, 0x0a);
        match inherits_line(s.subrange(from, end)) {
            Some(n) => Some(n),
            None => if end >= s.len() || end < from {
                None
            } else {
                inherits_in(s, end + 1)
            },
        }
    }
}

fn names_in(s: &[u8], from: usize) -> (r: Vec<Vec<u8>>)
    requires
        from <= s@.len(),
    ensures
        views(r@) == names_from(s@, from as int),
{
    let mut names: Vec<Vec<u8>> = Vec::new();
    let mut i = from;
    while i < s.len()
        invariant
            from <= i <= s@.len(),
            names_from(s@, from as int) == views(names@) + names_from(s@, i as int),
        decreases s@.len() - i,
    {
        let c = s[i];
        if c == 0x20 || c == 0x09 || c == 0x0a || c == 0x3b || c == 0x2c {
            i = i + 1;
        } else {
            let mut e = i + 1;
            proof {
                lemma_word_end_bounds(s@, i + 1);
            }
            while e < s.len() && !(s[e] == 0x20 || s[e] == 0x09 || s[e] == 0x0a || s[e] == 0x3b || s[e] == 0x2c)
                invariant
                    i < e <= s@.len(),
                    word_end(s@, i + 1) == word_end(s@, e as int),
                decreases s@.len() - e,
            {
                e = e + 1;
            }
            let word = copy_range(s, i, e);
            let ghost before = views(names@);
            names.push(word);
            assert(views(names@) =~= before + seq![s@.subrange(i as int, e as int)]);
            i = e;
        }
    }
    assert(names_from(s@, i as int) =~= Seq::<Seq<u8>>::empty());
    assert(views(names@) + Seq::<Seq<u8>>::empty() =~= views(names@));
    names
}

fn inherits_of_line(s: &[u8], from: usize, end: usize) -> (r: Option<Vec<Vec<u8>>>)
    requires
        from <= end <= s@.len(),
    ensures
        match r {
            Some(v) => inherits_line(s@.subrange(from as int, end as int)) == Some(views(v@)),
            None => inherits_line(s@.subrange(from as int, end as int)) is None,
        },
{
    let line = copy_range(s, from, end);
    if line.len() < 8 {
        return None;
    }
    let head = copy_range(line.as_slice(), 0, 8);
    if !bytes_eq(head.as_slice(), "Inherits".as_bytes()) {
        return None;
    }
    let k = skip_blanks_from(line.as_slice(), 8);
    if k < line.len() && line[k] == 0x3d {
        Some(names_in(line.as_slice(), k + 1))
    } else {
        None
    }
}

/// The parent themes that a theme index names: the names on its first
/// `Inherits` line, separated by blanks, newlines, semicolons or commas.
/// `None` when no line declares them.
pub fn parse_inherits(content: &[u8]) -> (r: Option<Vec<Vec<u8>>>)
    ensures
        match r {
            Some(v) => inherits_in(content@, 0) == Some(views(v@)),
            None => inherits_in(content@, 0) is None,
        },
{
    let mut from: usize = 0;
    while from < content.len()
        invariant
            from <= content@.len(),
            inherits_in(content@, 0) == inherits_in(content@, from as int),
        decreases content@.len() - from,
    {
        let end = find_byte(content, from, 0x0a);
        match inherits_of_line(content, from, end) {
            Some(v) => {
                return Some(v);
            },
            None => {
                if end >= content.len() {
                    return None;
                }
                from = end + 1;
            },
        }
    }
    None
}

/// The directories searched for themes when no override is given.
pub const XCURSOR_PATH_DEFAULT: &'static str =
    "~/.local/share/icons:~/.icons:/usr/share/icons:/usr/share/pixmaps:/usr/X11R6/lib/X11/icons";

/// The directories that a colon-separated list names from index `from` on.
/// An entry that starts with `~` has it replaced by the home directory, and
/// is dropped when there is none.
pub open spec fn path_entries(s: Seq<u8>, from: int, home: Option<Seq<u8>>) -> Seq<Seq<u8>>
    decreases s.len() + 1 - from,
{
    if from < 0 || from > s.len() {
        Seq::empty()
    } else {
        let end = next_byte(s, from, 0x3a);
        let seg = s.subrange(from, end);
        let here = if seg.len() > 0 && seg[0] == 0x7e {
            match home {
                Some(h) => seq![h + seg.drop_first()],
                None => Seq::empty(),
            }
        } else {
            seq![seg]
        };
        if end >= s.len() || end < from {
            here
        } else {
            here + path_entries(s, end + 1, home)
        }
    }
}

pub open spec fn opt_slice_view(o: Option<&[u8]>) -> Option<Seq<u8>> {
    match o {
        Some(v) => Some(v@),
        None => None,
    }
}

fn expand_entry(s: &[u8], from: usize, end: usize, home: Option<&[u8]>, out: &mut Vec<Vec<u8>>)
    requires
        from <= end <= s@.len(),
    ensures
        views(final(out)@) == views(old(out)@) + ({
            let seg = s@.subrange(from as int, end as int);
            if seg.len() > 0 && seg[0] == 0x7e {
                match opt_slice_view(home) {
                    Some(h) => seq![h + seg.drop_first()],
                    None => Seq::<Seq<u8>>::empty(),
                }
            } else {
                seq![seg]
            }
        }),
{
    let ghost before = views(out@);
    if from < end && s[from] == 0x7e {
        match home {
            Some(h) => {
                let mut full = copy_range(h, 0, h.len());
                let mut rest = copy_range(s, from + 1, end);
                assert(full@ =~= h@);
                let ghost hv = full@;
                full.append(&mut rest);
                assert(full@ =~= hv + s@.subrange(from as int, end as int).drop_first());
                out.push(full);
                assert(views(out@) =~= before + seq![full@]);
            },
            None => {
                assert(views(out@) =~= before + Seq::<Seq<u8>>::empty());
            },
        }
    } else {
        let seg = copy_range(s, from, end);
        out.push(seg);
        assert(views(out@) =~= before + seq![s@.subrange(from as int, end as int)]);
    }
}

/// The theme search path: `list` (or [`XCURSOR_PATH_DEFAULT`] when there is
/// none) split at colons, with a leading `~` expanded to `home`.
pub fn cursor_paths(list: Option<&[u8]>, home: Option<&[u8]>) -> (r: Vec<Vec<u8>>)
    ensures
        views(r@) == path_entries(
            match list {
                Some(l) => l@,
                None => XCURSOR_PATH_DEFAULT.spec_bytes(),
            },
            0,
            opt_slice_view(home),
        ),
{
    let s: &[u8] = match list {
        Some(l) => l,
        None => XCURSOR_PATH_DEFAULT.as_bytes(),
    };
    let ghost h = opt_slice_view(home);
    let mut paths: Vec<Vec<u8>> = Vec::new();
    let mut from: usize = 0;
    loop
        invariant_except_break
            path_entries(s@, 0, h) == views(paths@) + path_entries(s@, from as int, h),
        invariant
            from <= s@.len(),
            h == opt_slice_view(home),
        ensures
            path_entries(s@, 0, h) == views(paths@),
        decreases s@.len() - from,
    {
        let end = find_byte(s, from, 0x3a);
        let ghost before = views(paths@);
        expand_entry(s, from, end, home, &mut paths);
        if end >= s.len() {
            assert(path_entries(s@, 0, h) =~= views(paths@));
            break;
        }
        assert(path_entries(s@, 0, h) =~= views(paths@) + path_entries(s@, end + 1, h));
        from = end + 1;
    }
    paths
}

/// The number of glyphs of the core cursor font that have names.
pub const CORE_CURSOR_COUNT: usize = 77;

/// The names of the core cursor font's glyphs; glyph `i` is at index `i`.
pub open spec fn core_cursor_names() -> Seq<&'static str> {
    seq![
        "X_cursor",
        "arrow",
        "based_arrow_down",
        "based_arrow_up",
        "boat",
        "bogosity",
        "bottom_left_corner",
        "bottom_right_corner",
        "bottom_side",
        "bottom_tee",
        "box_spiral",
        "center_ptr",
        "circle",
        "clock",
        "coffee_mug",
        "cross",
        "cross_reverse",
        "crosshair",
        "diamond_cross",
        "dot",
        "dotbox",
        "double_arrow",
        "draft_large",
        "draft_small",
        "draped_box",
        "exchange",
        "fleur",
        "gobbler",
        "gumby",
        "hand1",
        "hand2",
        "heart",
        "icon",
        "iron_cross",
        "left_ptr",
        "left_side",
        "left_tee",
        "leftbutton",
        "ll_angle",
        "lr_angle",
        "man",
        "middlebutton",
        "mouse",
        "pencil",
        "pirate",
        "plus",
        "question_arrow",
        "right_ptr",
        "right_side",
        "right_tee",
        "rightbutton",
        "rtl_logo",
        "sailboat",
        "sb_down_arrow",
        "sb_h_double_arrow",
        "sb_left_arrow",
        "sb_right_arrow",
        "sb_up_arrow",
        "sb_v_double_arrow",
        "shuttle",
        "sizing",
        "spider",
        "spraycan",
        "star",
        "target",
        "tcross",
        "top_left_arrow",
        "top_left_corner",
        "top_right_corner",
        "top_side",
        "top_tee",
        "trek",
        "ul_angle",
        "umbrella",
        "ur_angle",
        "watch",
        "xterm",
    ]
}

/// The first glyph at or after `i` whose name is `name`.
pub open spec fn core_glyph_from(name: Seq<u8>, i: int) -> Option<u16>
    decreases CORE_CURSOR_COUNT - i,
{
    if i < 0 || i >= CORE_CURSOR_COUNT {
        None
    } else if core_cursor_names()[i].spec_bytes() == name {
        Some(i as u16)
    } else {
        core_glyph_from(name, i + 1)
    }
}

/// The glyph of the core cursor font named `name`, if there is one.
pub open spec fn core_glyph(name: Seq<u8>) -> Option<u16> {
    core_glyph_from(name, 0)
}

/// The glyph of the core cursor font named `name`, if there is one.
pub fn core_cursor_glyph(name: &[u8]) -> (r: Option<u16>)
    ensures
        r == core_glyph(name@),
        r matches Some(i) ==> i < CORE_CURSOR_COUNT && core_cursor_names()[i as int].spec_bytes() == name@,
        r is None ==> forall|i: int| 0 <= i < CORE_CURSOR_COUNT ==> #[trigger] core_cursor_names()[i].spec_bytes() != name@,
{
    let names: [&'static str; CORE_CURSOR_COUNT] = [
        "X_cursor",
        "arrow",
        "based_arrow_down",
        "based_arrow_up",
        "boat",
        "bogosity",
        "bottom_left_corner",
        "bottom_right_corner",
        "bottom_side",
        "bottom_tee",
        "box_spiral",
        "center_ptr",
        "circle",
        "clock",
        "coffee_mug",
        "cross",
        "cross_reverse",
        "crosshair",
        "diamond_cross",
        "dot",
        "dotbox",
        "double_arrow",
        "draft_large",
        "draft_small",
        "draped_box",
        "exchange",
        "fleur",
        "gobbler",
        "gumby",
        "hand1",
        "hand2",
        "heart",
        "icon",
        "iron_cross",
        "left_ptr",
        "left_side",
        "left_tee",
        "leftbutton",
        "ll_angle",
        "lr_angle",
        "man",
        "middlebutton",
        "mouse",
        "pencil",
        "pirate",
        "plus",
        "question_arrow",
        "right_ptr",
        "right_side",
        "right_tee",
        "rightbutton",
        "rtl_logo",
        "sailboat",
        "sb_down_arrow",
        "sb_h_double_arrow",
        "sb_left_arrow",
        "sb_right_arrow",
        "sb_up_arrow",
        "sb_v_double_arrow",
        "shuttle",
        "sizing",
        "spider",
        "spraycan",
        "star",
        "target",
        "tcross",
        "top_left_arrow",
        "top_left_corner",
        "top_right_corner",
        "top_side",
        "top_tee",
        "trek",
        "ul_angle",
        "umbrella",
        "ur_angle",
        "watch",
        "xterm",
    ];
    assert(names@ =~= core_cursor_names());
    let mut i: usize = 0;
    while i < CORE_CURSOR_COUNT
        invariant
            i <= CORE_CURSOR_COUNT,
            names@ == core_cursor_names(),
            forall|k: int| 0 <= k < i ==> #[trigger] core_cursor_names()[k].spec_bytes() != name@,
            core_glyph(name@) == core_glyph_from(name@, i as int),
        decreases CORE_CURSOR_COUNT - i,
    {
        if bytes_eq(names[i].as_bytes(), name) {
            return Some(i as u16);
        }
        i = i + 1;
    }
    None
}

} // verus!
