//! Resolution of a cursor name within a theme and the themes it inherits.
//!
//! The search runs over a snapshot of the theme directories: for each search
//! path entry and theme directory found there, whether it holds the cursor
//! file and what its `index.theme` says. A theme is tried in every search
//! directory in order; if none holds the cursor, the parents named by the
//! first index with an `Inherits` line are tried in order, depth first. A
//! theme already on the current inheritance chain is skipped, so a cyclic
//! inheritance graph ends the search instead of recursing forever.

use crate::bytes::{bytes_eq, copy_range};
use crate::theme::{core_cursor_glyph, core_glyph, inherits_in, opt_slice_view, parse_inherits, views};
use vstd::prelude::*;
use vstd::string::StringSliceAdditionalSpecFns;

verus! {

/// What the file system shows of one theme directory `<dirs[dir]>/<theme>`.
#[derive(Clone, Debug)]
pub struct ThemeDirInfo {
    /// The index of the search path entry that holds the directory.
    pub dir: usize,
    pub theme: Vec<u8>,
    /// `<dirs[dir]>/<theme>/cursors/<name>` can be opened.
    pub has_cursor: bool,
    /// The contents of `<dirs[dir]>/<theme>/index.theme`, if it can be read.
    pub index: Option<Vec<u8>>,
}

/// Where a cursor comes from.
#[derive(Clone, Debug)]
pub enum CursorSource {
    /// The cursor file of `theme` under search path entry `dir`.
    File { dir: usize, theme: Vec<u8> },
    /// A glyph of the core cursor font.
    CoreGlyph(u16),
}

/// The model of a [`CursorSource`].
pub enum SourceView {
    File(int, Seq<u8>),
    CoreGlyph(u16),
}

pub open spec fn source_view(s: CursorSource) -> SourceView {
    match s {
        CursorSource::File { dir, theme } => SourceView::File(dir as int, theme@),
        CursorSource::CoreGlyph(g) => SourceView::CoreGlyph(g),
    }
}

pub open spec fn opt_source_view(s: Option<CursorSource>) -> Option<SourceView> {
    match s {
        Some(s) => Some(source_view(s)),
        None => None,
    }
}

/// The first snapshot entry at or after `k` for `theme` under entry `dir`.
pub open spec fn entry_from(snap: Seq<ThemeDirInfo>, k: int, dir: int, theme: Seq<u8>) -> Option<ThemeDirInfo>
    decreases snap.len() - k,
{
    if k < 0 || k >= snap.len() {
        None
    } else if snap[k].dir == dir && snap[k].theme@ == theme {
        Some(snap[k])
    } else {
        entry_from(snap, k + 1, dir, theme)
    }
}

pub open spec fn has_cursor(snap: Seq<ThemeDirInfo>, dir: int, theme: Seq<u8>) -> bool {
    match entry_from(snap, 0, dir, theme) {
        Some(e) => e.has_cursor,
        None => false,
    }
}

pub open spec fn index_parents(snap: Seq<ThemeDirInfo>, dir: int, theme: Seq<u8>) -> Option<Seq<Seq<u8>>> {
    match entry_from(snap, 0, dir, theme) {
        Some(e) => match e.index {
            Some(c) => inherits_in(c@, 0),
            None => None,
        },
        None => None,
    }
}

/// The first search directory at or after `d` that holds the cursor of `theme`.
pub open spec fn cursor_dir_from(snap: Seq<ThemeDirInfo>, n_dirs: int, theme: Seq<u8>, d: int) -> Option<int>
    decreases n_dirs - d,
{
    if d < 0 || d >= n_dirs {
        None
    } else if has_cursor(snap, d, theme) {
        Some(d)
    } else {
        cursor_dir_from(snap, n_dirs, theme, d + 1)
    }
}

/// The parents named by the first index of `theme` at or after directory
/// `d` that has an `Inherits` line.
pub open spec fn parents_from(snap: Seq<ThemeDirInfo>, n_dirs: int, theme: Seq<u8>, d: int) -> Option<Seq<Seq<u8>>>
    decreases n_dirs - d,
{
    if d < 0 || d >= n_dirs {
        None
    } else if index_parents(snap, d, theme) is Some {
        index_parents(snap, d, theme)
    } else {
        parents_from(snap, n_dirs, theme, d + 1)
    }
}

/// Resolves `name` in `theme`, whose ancestors on the current inheritance
/// chain are `chain`; `depth` bounds how many more inheritance levels may
/// be entered.
pub open spec fn resolve(
    snap: Seq<ThemeDirInfo>,
    n_dirs: int,
    name: Seq<u8>,
    theme: Seq<u8>,
    chain: Seq<Seq<u8>>,
    depth: nat,
) -> Option<SourceView>
    decreases depth, 0nat,
{
    if theme == "core".spec_bytes() && core_glyph(name) is Some {
        Some(SourceView::CoreGlyph(core_glyph(name)->Some_0))
    } else if n_dirs <= 0 {
        None
    } else {
        match cursor_dir_from(snap, n_dirs, theme, 0) {
            Some(d) => Some(SourceView::File(d, theme)),
            None => if depth == 0 {
                None
            } else {
                match parents_from(snap, n_dirs, theme, 0) {
                    Some(ps) => resolve_parents(snap, n_dirs, name, ps, 0, chain.push(theme), (depth - 1) as nat),
                    None => None,
                }
            },
        }
    }
}

/// The first success among parents `ps[k..]`, skipping those on `chain`.
pub open spec fn resolve_parents(
    snap: Seq<ThemeDirInfo>,
    n_dirs: int,
    name: Seq<u8>,
    ps: Seq<Seq<u8>>,
    k: int,
    chain: Seq<Seq<u8>>,
    depth: nat,
) -> Option<SourceView>
    decreases depth, 1 + ps.len() - k,
{
    if k < 0 || k >= ps.len() {
        None
    } else if chain.contains(ps[k]) {
        resolve_parents(snap, n_dirs, name, ps, k + 1, chain, depth)
    } else {
        match resolve(snap, n_dirs, name, ps[k], chain, depth) {
            Some(r) => Some(r),
            None => resolve_parents(snap, n_dirs, name, ps, k + 1, chain, depth),
        }
    }
}

fn find_entry(snap: &[ThemeDirInfo], dir: usize, theme: &[u8]) -> (r: Option<usize>)
    ensures
        match r {
            Some(k) => k < snap@.len() && entry_from(snap@, 0, dir as int, theme@) == Some(snap@[k as int]),
            None => entry_from(snap@, 0, dir as int, theme@) is None,
        },
{
    let mut k: usize = 0;
    while k < snap.len()
        invariant
            k <= snap@.len(),
            entry_from(snap@, 0, dir as int, theme@) == entry_from(snap@, k as int, dir as int, theme@),
        decreases snap@.len() - k,
    {
        if snap[k].dir == dir && bytes_eq(snap[k].theme.as_slice(), theme) {
            return Some(k);
        }
        k = k + 1;
    }
    None
}

fn cursor_dir(snap: &[ThemeDirInfo], n_dirs: usize, theme: &[u8]) -> (r: Option<usize>)
    ensures
        match r {
            Some(d) => cursor_dir_from(snap@, n_dirs as int, theme@, 0) == Some(d as int),
            None => cursor_dir_from(snap@, n_dirs as int, theme@, 0) is None,
        },
{
    let mut d: usize = 0;
    while d < n_dirs
        invariant
            d <= n_dirs,
            cursor_dir_from(snap@, n_dirs as int, theme@, 0) == cursor_dir_from(snap@, n_dirs as int, theme@, d as int),
        decreases n_dirs - d,
    {
        match find_entry(snap, d, theme) {
            Some(k) => {
                if snap[k].has_cursor {
                    return Some(d);
                }
            },
            None => {},
        }
        d = d + 1;
    }
    None
}

fn parent_themes(snap: &[ThemeDirInfo], n_dirs: usize, theme: &[u8]) -> (r: Option<Vec<Vec<u8>>>)
    ensures
        match r {
            Some(v) => parents_from(snap@, n_dirs as int, theme@, 0) == Some(views(v@)),
            None => parents_from(snap@, n_dirs as int, theme@, 0) is None,
        },
{
    let mut d: usize = 0;
    while d < n_dirs
        invariant
            d <= n_dirs,
            parents_from(snap@, n_dirs as int, theme@, 0) == parents_from(snap@, n_dirs as int, theme@, d as int),
        decreases n_dirs - d,
    {
        match find_entry(snap, d, theme) {
            Some(k) => {
                match &snap[k].index {
                    Some(content) => {
                        match parse_inherits(content.as_slice()) {
                            Some(v) => {
                                return Some(v);
                            },
                            None => {},
                        }
                    },
                    None => {},
                }
            },
            None => {},
        }
        d = d + 1;
    }
    None
}

fn chain_contains(chain: &Vec<Vec<u8>>, theme: &[u8]) -> (r: bool)
    ensures
        r == views(chain@).contains(theme@),
{
    let mut i: usize = 0;
    while i < chain.len()
        invariant
            i <= chain@.len(),
            forall|j: int| 0 <= j < i ==> #[trigger] views(chain@)[j] != theme@,
        decreases chain@.len() - i,
    {
        if bytes_eq(chain[i].as_slice(), theme) {
            assert(views(chain@)[i as int] == theme@);
            return true;
        }
        i = i + 1;
    }
    false
}

fn resolve_theme(
    snap: &[ThemeDirInfo],
    n_dirs: usize,
    name: &[u8],
    theme: &[u8],
    chain: &mut Vec<Vec<u8>>,
    depth: usize,
) -> (r: Option<CursorSource>)
    ensures
        opt_source_view(r) == resolve(snap@, n_dirs as int, name@, theme@, views(old(chain)@), depth as nat),
        views(final(chain)@) == views(old(chain)@),
    decreases depth, 0nat,
{
    if bytes_eq(theme, "core".as_bytes()) {
        match core_cursor_glyph(name) {
            Some(g) => {
                return Some(CursorSource::CoreGlyph(g));
            },
            None => {},
        }
    }
    if n_dirs == 0 {
        return None;
    }
    match cursor_dir(snap, n_dirs, theme) {
        Some(d) => {
            let t = copy_range(theme, 0, theme.len());
            assert(t@ =~= theme@);
            Some(CursorSource::File { dir: d, theme: t })
        },
        None => {
            if depth == 0 {
                return None;
            }
            match parent_themes(snap, n_dirs, theme) {
                Some(ps) => {
                    let ghost before = views(chain@);
                    let t = copy_range(theme, 0, theme.len());
                    assert(t@ =~= theme@);
                    chain.push(t);
                    assert(views(chain@) =~= before.push(theme@));
                    let r = resolve_parent_list(snap, n_dirs, name, &ps, 0, chain, depth - 1);
                    let ghost during = views(chain@);
                    chain.pop();
                    assert(views(chain@) =~= during.drop_last());
                    r
                },
                None => None,
            }
        },
    }
}

fn resolve_parent_list(
    snap: &[ThemeDirInfo],
    n_dirs: usize,
    name: &[u8],
    ps: &Vec<Vec<u8>>,
    k: usize,
    chain: &mut Vec<Vec<u8>>,
    depth: usize,
) -> (r: Option<CursorSource>)
    requires
        k <= ps@.len(),
    ensures
        opt_source_view(r) == resolve_parents(snap@, n_dirs as int, name@, views(ps@), k as int, views(old(chain)@), depth as nat),
        views(final(chain)@) == views(old(chain)@),
    decreases depth, 1 + ps@.len() - k,
{
    if k >= ps.len() {
        return None;
    }
    if chain_contains(chain, ps[k].as_slice()) {
        return resolve_parent_list(snap, n_dirs, name, ps, k + 1, chain, depth);
    }
    match resolve_theme(snap, n_dirs, name, ps[k].as_slice(), chain, depth) {
        Some(r) => Some(r),
        None => resolve_parent_list(snap, n_dirs, name, ps, k + 1, chain, depth),
    }
}

/// Where the cursor `name` comes from, for `theme` (if any) and the search
/// path entries `0..n_dirs` that `snap` describes.
///
/// With image cursors available, `theme` is resolved and, failing that, the
/// theme `default`; the depth of inheritance is bounded by the number of
/// snapshot entries, which no chain of distinct themes exceeds. Otherwise,
/// or when neither resolves, the core font glyph of that name is used.
pub open spec fn find_cursor_spec(
    snap: Seq<ThemeDirInfo>,
    n_dirs: int,
    name: Seq<u8>,
    theme: Option<Seq<u8>>,
    images_supported: bool,
) -> Option<SourceView> {
    let depth = snap.len();
    let themed = if images_supported {
        let first = match theme {
            Some(t) => resolve(snap, n_dirs, name, t, Seq::empty(), depth),
            None => None,
        };
        match first {
            Some(r) => Some(r),
            None => resolve(snap, n_dirs, name, "default".spec_bytes(), Seq::empty(), depth),
        }
    } else {
        None
    };
    match themed {
        Some(r) => Some(r),
        None => match core_glyph(name) {
            Some(g) => Some(SourceView::CoreGlyph(g)),
            None => None,
        },
    }
}

/// Finds the source of cursor `name` as [`find_cursor_spec`] describes;
/// `None` means that the cursor cannot be found.
pub fn find_cursor(
    snap: &[ThemeDirInfo],
    n_dirs: usize,
    name: &[u8],
    theme: Option<&[u8]>,
    images_supported: bool,
) -> (r: Option<CursorSource>)
    ensures
        opt_source_view(r) == find_cursor_spec(snap@, n_dirs as int, name@, opt_slice_view(theme), images_supported),
{
    let mut chain: Vec<Vec<u8>> = Vec::new();
    assert(views(chain@) =~= Seq::<Seq<u8>>::empty());
    let depth = snap.len();
    if images_supported {
        let first = match theme {
            Some(t) => resolve_theme(snap, n_dirs, name, t, &mut chain, depth),
            None => None,
        };
        if first.is_some() {
            return first;
        }
        let second = resolve_theme(snap, n_dirs, name, "default".as_bytes(), &mut chain, depth);
        if second.is_some() {
            return second;
        }
    }
    match core_cursor_glyph(name) {
        Some(g) => Some(CursorSource::CoreGlyph(g)),
        None => None,
    }
}

/// Inheritance is searched depth first in the order the index lists the
/// parents: when a theme holds no cursor file of its own and its first
/// `Inherits` line names `first` then `second` (neither on the chain), the result
/// is that of `first`, and that of `second` only where `first` and all it inherits
/// yield nothing.
pub proof fn lemma_parents_in_order(
    snap: Seq<ThemeDirInfo>,
    n_dirs: int,
    name: Seq<u8>,
    theme: Seq<u8>,
    chain: Seq<Seq<u8>>,
    depth: nat,
    first: Seq<u8>,
    second: Seq<u8>,
)
    requires
        !(theme == "core".spec_bytes() && core_glyph(name) is Some),
        n_dirs > 0,
        depth > 0,
        cursor_dir_from(snap, n_dirs, theme, 0) is None,
        parents_from(snap, n_dirs, theme, 0) == Some(seq![first, second]),
        !chain.push(theme).contains(first),
        !chain.push(theme).contains(second),
    ensures
        resolve(snap, n_dirs, name, theme, chain, depth) == match resolve(
            snap,
            n_dirs,
            name,
            first,
            chain.push(theme),
            (depth - 1) as nat,
        ) {
            Some(r) => Some(r),
            None => resolve(snap, n_dirs, name, second, chain.push(theme), (depth - 1) as nat),
        },
{
    let ps = seq![first, second];
    let c = chain.push(theme);
    let d = (depth - 1) as nat;
    assert(ps[0] == first && ps[1] == second);
    assert(resolve_parents(snap, n_dirs, name, ps, 2, c, d) is None);
    assert(resolve_parents(snap, n_dirs, name, ps, 1, c, d) == match resolve(snap, n_dirs, name, second, c, d) {
        Some(r) => Some(r),
        None => None::<SourceView>,
    });
}

} // verus!
