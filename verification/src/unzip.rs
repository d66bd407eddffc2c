//! Reading zip archives: which entries are extracted, where, and with what contents.
//!
//! The archive format, and the sanitized path of each entry, are read by the `zip`
//! crate; this module decides which entries become which files and directories,
//! and when a single top-level directory is stripped. Writing the tree to disk is
//! left to the caller.

use vstd::prelude::*;
use crate::text::{is_prefix, is_suffix, starts_with, ends_with};

verus! {

/// The names of the entries of the zip archive `archive`, in the order of its
/// central directory, or `None` when `archive` is not a zip archive that the `zip`
/// crate can open.
pub uninterp spec fn zip_names(archive: Seq<u8>) -> Option<Seq<Seq<char>>>;

/// The decompressed contents of entry `index` of the zip archive `archive`, or
/// `None` when the `zip` crate cannot open the archive, find that entry or read it.
pub uninterp spec fn zip_entry_data(archive: Seq<u8>, index: int) -> Option<Seq<u8>>;

/// Opens `archive` with `zip::ZipArchive::new` and lists its entry names with
/// `ZipArchive::file_names` (central directory order, which is also the index order
/// of `ZipArchive::by_index`). Claimed: the result is [`zip_names`] of the bytes.
#[verifier::external_body]
fn read_zip_names(archive: &Vec<u8>) -> (r: Option<Vec<String>>)
    ensures
        match r {
            Some(v) => zip_names(archive@) == Some(v.deep_view()),
            None => zip_names(archive@) is None,
        },
{
    match zip::ZipArchive::new(std::io::Cursor::new(archive.as_slice())) {
        Ok(a) => Some(a.file_names().map(String::from).collect()),
        Err(_) => None,
    }
}

/// Opens `archive` with `zip::ZipArchive::new`, takes entry `index` with
/// `ZipArchive::by_index` and reads it to the end. Claimed: the result is
/// [`zip_entry_data`] of the bytes and the index.
#[verifier::external_body]
fn read_zip_entry(archive: &Vec<u8>, index: usize) -> (r: Option<Vec<u8>>)
    ensures
        match r {
            Some(v) => zip_entry_data(archive@, index as int) == Some(v@),
            None => zip_entry_data(archive@, index as int) is None,
        },
{
    let mut a = match zip::ZipArchive::new(std::io::Cursor::new(archive.as_slice())) {
        Ok(a) => a,
        Err(_) => return None,
    };
    let mut file = match a.by_index(index) {
        Ok(f) => f,
        Err(_) => return None,
    };
    let mut out = Vec::new();
    match std::io::Read::read_to_end(&mut file, &mut out) {
        Ok(_) => Some(out),
        Err(_) => None,
    }
}

/// Why an archive could not be read.
#[derive(Debug, PartialEq, Eq, Structural)]
pub enum UnzipError {
    /// The bytes are not a zip archive.
    InvalidArchive,
    /// The contents of a file entry could not be read.
    UnreadableEntry,
}

/// A file or directory to create when extracting: its path relative to the
/// destination, as components, and the file's contents (`None` for a directory).
pub struct ZipItem {
    pub path: Vec<String>,
    pub contents: Option<Vec<u8>>,
}

impl View for ZipItem {
    type V = (Seq<Seq<char>>, Option<Seq<u8>>);

    open spec fn view(&self) -> (Seq<Seq<char>>, Option<Seq<u8>>) {
        (
            self.path.deep_view(),
            match self.contents {
                Some(c) => Some(c@),
                None => None,
            },
        )
    }
}

/// A path component that names something: not empty, not `.` and not `..`.
pub open spec fn is_normal(p: Seq<char>) -> bool {
    &&& p.len() > 0
    &&& !(p.len() == 1 && p[0] == '.')
    &&& !(p.len() == 2 && p[0] == '.' && p[1] == '.')
}

/// A path separator: `/`, or `\` as on Windows.
pub open spec fn is_separator(c: char) -> bool {
    c == '/' || c == '\\'
}

/// Reading a path from the left: the components completed so far, the
/// component being read, and whether a NUL character has ended the path.
pub struct Split {
    pub done: Seq<Seq<char>>,
    pub cur: Seq<char>,
    pub stopped: bool,
}

/// One character more of a path.
pub open spec fn split_step(st: Split, c: char) -> Split {
    if st.stopped {
        st
    } else if c == '\0' {
        Split { stopped: true, ..st }
    } else if is_separator(c) {
        Split {
            done: if is_normal(st.cur) { st.done.push(st.cur) } else { st.done },
            cur: Seq::empty(),
            stopped: false,
        }
    } else {
        Split { cur: st.cur.push(c), ..st }
    }
}

/// The state after reading all of `s`.
pub open spec fn split_state(s: Seq<char>) -> Split
    decreases s.len(),
{
    if s.len() == 0 {
        Split { done: Seq::empty(), cur: Seq::empty(), stopped: false }
    } else {
        split_step(split_state(s.drop_last()), s.last())
    }
}

/// The components of a path: cut at its first NUL character, split at `/` and `\`,
/// keeping only the components that name something (empty, `.` and `..` components
/// are dropped).
pub open spec fn components(name: Seq<char>) -> Seq<Seq<char>> {
    let st = split_state(name);
    if is_normal(st.cur) {
        st.done.push(st.cur)
    } else {
        st.done
    }
}

/// A component holds no separator (`/` or `\`) and no NUL character.
pub open spec fn plain_component(p: Seq<char>) -> bool {
    forall|k: int| 0 <= k < p.len() ==> !is_separator(#[trigger] p[k]) && p[k] != '\0'
}

/// Every component of `path` names something and holds no separator.
pub open spec fn plain_path(path: Seq<Seq<char>>) -> bool {
    forall|k: int| 0 <= k < path.len() ==> is_normal(#[trigger] path[k]) && plain_component(path[k])
}

proof fn lemma_split_state_plain(s: Seq<char>)
    ensures
        forall|k: int|
            0 <= k < split_state(s).done.len() ==> is_normal(#[trigger] split_state(s).done[k])
                && plain_component(split_state(s).done[k]),
        plain_component(split_state(s).cur),
    decreases s.len(),
{
    if s.len() > 0 {
        lemma_split_state_plain(s.drop_last());
        let prev = split_state(s.drop_last());
        let c = s.last();
        if !prev.stopped && !(c == '\0') && !is_separator(c) {
            assert forall|k: int| 0 <= k < prev.cur.push(c).len() implies !is_separator(
                #[trigger] prev.cur.push(c)[k],
            ) && prev.cur.push(c)[k] != '\0' by {
                if k < prev.cur.len() {
                    assert(prev.cur.push(c)[k] == prev.cur[k]);
                }
            }
        }
    }
}

/// The components of any name are plain: each names something (it is neither
/// empty, `.` nor `..`) and holds no separator.
pub proof fn lemma_components_are_plain(name: Seq<char>)
    ensures
        plain_path(components(name)),
{
    lemma_split_state_plain(name);
}

/// The name has no part that a path could read as a drive or a network share
/// prefix: it holds no `:` and does not start with two separators.
pub open spec fn no_prefix(name: Seq<char>) -> bool {
    &&& forall|k: int| 0 <= k < name.len() ==> (#[trigger] name[k]) != ':'
    &&& !(name.len() >= 2 && is_separator(name[0]) && is_separator(name[1]))
}

/// Whether the `zip` crate opens entry `index` of `archive`:
/// `zip::ZipArchive::new` accepts the bytes and `ZipArchive::by_index_raw` finds
/// the entry and its data.
pub uninterp spec fn entry_openable(archive: Seq<u8>, index: int) -> bool;

/// Opens `archive` with `zip::ZipArchive::new`, takes entry `index` with
/// `ZipArchive::by_index_raw` and splits its `ZipFile::mangled_name` into
/// components. `mangled_name` (`ZipFileData::file_name_sanitized`) cuts the name at
/// its first NUL, turns the separator foreign to the system into the system's own,
/// and keeps the normal components of the resulting path. Claimed: the result is
/// there exactly when [`entry_openable`]; every component names something (it is
/// not empty, `.` or `..`) and holds no `/`, `\` or NUL; and for an entry name with
/// no drive or share prefix ([`no_prefix`]) the components are the name's
/// [`components`]. Not claimed: the components of names with such a prefix, which
/// depend on the system.
#[verifier::external_body]
fn read_entry_path(archive: &Vec<u8>, index: usize) -> (r: Option<Vec<String>>)
    ensures
        (r is Some) == entry_openable(archive@, index as int),
        match r {
            Some(v) => {
                &&& plain_path(v.deep_view())
                &&& (zip_names(archive@) is Some && index < zip_names(archive@)->0.len() && no_prefix(
                    zip_names(archive@)->0[index as int],
                )) ==> v.deep_view() == components(zip_names(archive@)->0[index as int])
            },
            None => true,
        },
{
    let mut a = zip::ZipArchive::new(std::io::Cursor::new(archive.as_slice())).ok()?;
    let file = a.by_index_raw(index).ok()?;
    let path = file.mangled_name();
    Some(path.components().map(|c| c.as_os_str().to_string_lossy().into_owned()).collect())
}

/// The archive holds a single top-level directory: the first entry is a directory
/// (its name ends in `/`) and every other entry lies below it.
pub open spec fn has_toplevel_spec(names: Seq<Seq<char>>) -> bool {
    &&& names.len() > 0
    &&& is_suffix("/"@, names[0])
    &&& forall|i: int| 1 <= i < names.len() ==> is_prefix(names[0], #[trigger] names[i])
}

/// The components of a path without its first one.
pub open spec fn stripped(path: Seq<Seq<char>>) -> Seq<Seq<char>> {
    if path.len() > 0 {
        path.drop_first()
    } else {
        path
    }
}

/// Where an entry whose path has the components `path` goes, with or without its
/// first component.
pub open spec fn placed(path: Seq<Seq<char>>, strip: bool) -> Seq<Seq<char>> {
    if strip {
        stripped(path)
    } else {
        path
    }
}

/// The items for the first `n` entries, named `names`, whose paths have the
/// components `paths`: an entry that cannot be opened fails the whole; entries
/// placed at an empty path (such as the top-level directory itself when stripping)
/// are skipped, names ending in `/` become directories, and the other entries become
/// files with their contents (a file whose contents cannot be read fails the whole).
pub open spec fn items_upto(
    archive: Seq<u8>,
    names: Seq<Seq<char>>,
    paths: Seq<Seq<Seq<char>>>,
    strip: bool,
    n: nat,
) -> Option<Seq<(Seq<Seq<char>>, Option<Seq<u8>>)>>
    decreases n,
{
    if n == 0 {
        Some(Seq::empty())
    } else {
        match items_upto(archive, names, paths, strip, (n - 1) as nat) {
            None => None,
            Some(prev) => {
                let path = placed(paths[n - 1], strip);
                if !entry_openable(archive, n - 1) {
                    None
                } else if path.len() == 0 {
                    Some(prev)
                } else if is_suffix("/"@, names[n - 1]) {
                    Some(prev.push((path, None)))
                } else {
                    match zip_entry_data(archive, n - 1) {
                        Some(d) => Some(prev.push((path, Some(d)))),
                        None => None,
                    }
                }
            },
        }
    }
}

/// The components of each of `names`.
pub open spec fn sanitized(names: Seq<Seq<char>>) -> Seq<Seq<Seq<char>>> {
    names.map_values(|n: Seq<char>| components(n))
}

/// `paths` could be the paths the `zip` crate gives the entries `names`: one plain
/// path per entry, which is the entry's [`components`] where the name has no
/// drive or share prefix.
pub open spec fn possible_paths(names: Seq<Seq<char>>, paths: Seq<Seq<Seq<char>>>) -> bool {
    &&& paths.len() == names.len()
    &&& forall|k: int| 0 <= k < paths.len() ==> plain_path(#[trigger] paths[k])
    &&& forall|k: int| 0 <= k < paths.len() && no_prefix(#[trigger] names[k]) ==> paths[k] == components(names[k])
}

/// Extracting `archive`, with each entry's first path component dropped where
/// `strip`, gives `outcome` when its entries' paths are `paths`.
pub open spec fn extracts_with(
    archive: Seq<u8>,
    strip: bool,
    outcome: Result<Seq<(Seq<Seq<char>>, Option<Seq<u8>>)>, UnzipError>,
    paths: Seq<Seq<Seq<char>>>,
) -> bool {
    match zip_names(archive) {
        None => outcome == Err::<Seq<(Seq<Seq<char>>, Option<Seq<u8>>)>, UnzipError>(UnzipError::InvalidArchive),
        Some(names) => {
            &&& possible_paths(names, paths)
            &&& match items_upto(archive, names, paths, strip, names.len()) {
                Some(items) => outcome == Ok::<Seq<(Seq<Seq<char>>, Option<Seq<u8>>)>, UnzipError>(items),
                None => outcome == Err::<Seq<(Seq<Seq<char>>, Option<Seq<u8>>)>, UnzipError>(
                    UnzipError::UnreadableEntry,
                ),
            }
        },
    }
}

/// `outcome` is what extracting `archive` gives, with each entry's first path
/// component dropped where `strip`, for paths of its entries that the `zip` crate
/// can give (see [`extracts_with`]; where no entry name has a prefix, the paths and
/// so the outcome are fixed, see [`lemma_extraction_exact`]).
pub open spec fn extraction(
    archive: Seq<u8>,
    strip: bool,
    outcome: Result<Seq<(Seq<Seq<char>>, Option<Seq<u8>>)>, UnzipError>,
) -> bool {
    exists|paths: Seq<Seq<Seq<char>>>| #[trigger] extracts_with(archive, strip, outcome, paths)
}

/// The items as plain values: each one's path components and contents.
pub open spec fn item_views(items: Seq<ZipItem>) -> Seq<(Seq<Seq<char>>, Option<Seq<u8>>)> {
    items.map_values(|i: ZipItem| i@)
}

/// The outcome of an extraction, with its items as plain values.
pub open spec fn outcome_view(r: Result<Vec<ZipItem>, UnzipError>) -> Result<
    Seq<(Seq<Seq<char>>, Option<Seq<u8>>)>,
    UnzipError,
> {
    match r {
        Ok(items) => Ok(item_views(items@)),
        Err(e) => Err(e),
    }
}

/// Whether the archive with entry names `names` holds a single top-level directory
/// (see [`has_toplevel_spec`]).
pub fn has_toplevel(names: &Vec<String>) -> (r: bool)
    ensures
        r == has_toplevel_spec(names.deep_view()),
{
    if names.len() == 0 {
        return false;
    }
    if !ends_with(names[0].as_str(), "/") {
        return false;
    }
    let mut i: usize = 1;
    while i < names.len()
        invariant
            0 < names.len(),
            1 <= i <= names.len(),
            forall|k: int| 1 <= k < i ==> is_prefix(names.deep_view()[0], #[trigger] names.deep_view()[k]),
        decreases names.len() - i,
    {
        if !starts_with(names[i].as_str(), names[0].as_str()) {
            assert(!is_prefix(names.deep_view()[0], names.deep_view()[i as int]));
            return false;
        }
        i = i + 1;
    }
    true
}

/// A path without its top-level component.
pub fn strip_toplevel(path: &Vec<String>) -> (r: Vec<String>)
    ensures
        r.deep_view() == stripped(path.deep_view()),
{
    let mut out: Vec<String> = Vec::new();
    let mut i: usize = 1;
    while i < path.len()
        invariant
            1 <= i,
            path.len() > 0 ==> i <= path.len(),
            path.len() > 0 ==> out.deep_view() =~= path.deep_view().subrange(1, i as int),
            path.len() == 0 ==> out.deep_view() =~= Seq::<Seq<char>>::empty(),
        decreases path.len() - i,
    {
        let ghost before = out.deep_view();
        out.push(path[i].clone());
        assert(out.deep_view() =~= before.push(path.deep_view()[i as int]));
        i = i + 1;
    }
    if path.len() > 0 {
        assert(path.deep_view().subrange(1, path.len() as int) =~= path.deep_view().drop_first());
    }
    out
}

/// Where the entry called `name`, whose path has the components `path`, is
/// extracted, and whether it is a directory (its name ends in `/`); `None` for an
/// entry placed at an empty path, such as the top-level directory itself when
/// `strip`, which is skipped.
pub fn entry_layout(path: Vec<String>, name: &str, strip: bool) -> (r: Option<(Vec<String>, bool)>)
    ensures
        match r {
            None => placed(path.deep_view(), strip).len() == 0,
            Some((p, is_dir)) => {
                &&& p.deep_view() == placed(path.deep_view(), strip)
                &&& p.len() > 0
                &&& is_dir == is_suffix("/"@, name@)
            },
        },
{
    let p = if strip {
        strip_toplevel(&path)
    } else {
        path
    };
    if p.len() > 0 {
        Some((p, ends_with(name, "/")))
    } else {
        None
    }
}

/// Stripping keeps the path's components plain.
proof fn lemma_placed_plain(path: Seq<Seq<char>>, strip: bool)
    requires
        plain_path(path),
    ensures
        plain_path(placed(path, strip)),
{
    if strip && path.len() > 0 {
        assert forall|k: int| 0 <= k < path.drop_first().len() implies is_normal(
            #[trigger] path.drop_first()[k],
        ) && plain_component(path.drop_first()[k]) by {
            assert(path.drop_first()[k] == path[k + 1]);
        }
    }
}

/// The items of `archive`, stripping each entry's first component where `strip`
/// (see [`extraction`]): `InvalidArchive` exactly when the `zip` crate cannot open
/// the bytes, `UnreadableEntry` exactly when an entry cannot be opened or a file's
/// contents cannot be read.
#[verifier::rlimit(40)]
pub fn extract(archive: &Vec<u8>, strip: bool) -> (r: Result<Vec<ZipItem>, UnzipError>)
    ensures
        extraction(archive@, strip, outcome_view(r)),
{
    let names = match read_zip_names(archive) {
        Some(n) => n,
        None => {
            assert(extracts_with(archive@, strip, outcome_view(Err(UnzipError::InvalidArchive)), Seq::empty()));
            return Err(UnzipError::InvalidArchive);
        },
    };
    let ghost nv = names.deep_view();
    let ghost mut paths: Seq<Seq<Seq<char>>> = Seq::empty();
    let mut items: Vec<ZipItem> = Vec::new();
    let mut i: usize = 0;
    while i < names.len()
        invariant
            i <= names.len(),
            nv == names.deep_view(),
            zip_names(archive@) == Some(nv),
            paths.len() == i,
            forall|k: int| 0 <= k < paths.len() ==> plain_path(#[trigger] paths[k]),
            forall|k: int| 0 <= k < paths.len() && no_prefix(#[trigger] nv[k]) ==> paths[k] == components(nv[k]),
            items_upto(archive@, nv, paths, strip, i as nat) == Some(item_views(items@)),
        decreases names.len() - i,
    {
        let ghost tail = sanitized(nv.skip(i + 1 as int));
        let path = match read_entry_path(archive, i) {
            Some(p) => p,
            None => {
                proof {
                    let next = paths.push(components(nv[i as int]));
                    lemma_components_are_plain(nv[i as int]);
                    assert(next[i as int] == components(nv[i as int]));
                    lemma_failure(archive@, nv, paths, next, tail, strip, i as nat);
                }
                return Err(UnzipError::UnreadableEntry);
            },
        };
        let ghost pv = path.deep_view();
        let ghost next = paths.push(pv);
        proof {
            lemma_items_prefix(archive@, nv, paths, next, strip, i as nat);
        }
        if let Some((p, is_dir)) = entry_layout(path, names[i].as_str(), strip) {
            let ghost before = item_views(items@);
            if is_dir {
                items.push(ZipItem { path: p, contents: None });
            } else {
                match read_zip_entry(archive, i) {
                    Some(d) => {
                        items.push(ZipItem { path: p, contents: Some(d) });
                    },
                    None => {
                        proof {
                            lemma_failure(archive@, nv, paths, next, tail, strip, i as nat);
                        }
                        return Err(UnzipError::UnreadableEntry);
                    },
                }
            }
            assert(item_views(items@) =~= before.push(items@.last()@));
        }
        proof {
            paths = next;
        }
        i = i + 1;
    }
    assert(extracts_with(archive@, strip, outcome_view(Ok(items)), paths));
    Ok(items)
}

/// Entry `n` fails the extraction, whatever the paths of the entries after it: a
/// full set of possible paths then fails it.
proof fn lemma_failure(
    archive: Seq<u8>,
    names: Seq<Seq<char>>,
    paths: Seq<Seq<Seq<char>>>,
    next: Seq<Seq<Seq<char>>>,
    tail: Seq<Seq<Seq<char>>>,
    strip: bool,
    n: nat,
)
    requires
        zip_names(archive) == Some(names),
        n < names.len(),
        paths.len() == n,
        next.len() == n + 1,
        forall|k: int| 0 <= k < n ==> next[k] == paths[k],
        forall|k: int| 0 <= k <= n ==> plain_path(#[trigger] next[k]),
        forall|k: int| 0 <= k <= n && no_prefix(#[trigger] names[k]) ==> next[k] == components(names[k]),
        tail == sanitized(names.skip(n + 1 as int)),
        items_upto(archive, names, next, strip, n + 1) is None,
    ensures
        extraction(
            archive,
            strip,
            Err::<Seq<(Seq<Seq<char>>, Option<Seq<u8>>)>, UnzipError>(UnzipError::UnreadableEntry),
        ),
{
    let full = next + tail;
    assert forall|k: int| 0 <= k < full.len() implies plain_path(#[trigger] full[k]) by {
        if k > n {
            assert(full[k] == components(names[k]));
            lemma_components_are_plain(names[k]);
        }
    }
    assert forall|k: int| 0 <= k < full.len() && no_prefix(#[trigger] names[k]) implies full[k]
        == components(names[k]) by {
        if k > n {
            assert(full[k] == components(names.skip(n + 1 as int)[k - n - 1]));
        }
    }
    lemma_items_prefix(archive, names, next, full, strip, n + 1);
    lemma_items_stay_failed(archive, names, full, strip, n + 1, names.len());
    assert(extracts_with(
        archive,
        strip,
        Err::<Seq<(Seq<Seq<char>>, Option<Seq<u8>>)>, UnzipError>(UnzipError::UnreadableEntry),
        full,
    ));
}

/// Once an entry fails the extraction, the whole extraction fails.
proof fn lemma_items_stay_failed(
    archive: Seq<u8>,
    names: Seq<Seq<char>>,
    paths: Seq<Seq<Seq<char>>>,
    strip: bool,
    n: nat,
    m: nat,
)
    requires
        n <= m,
        items_upto(archive, names, paths, strip, n) is None,
    ensures
        items_upto(archive, names, paths, strip, m) is None,
    decreases m - n,
{
    if n < m {
        lemma_items_stay_failed(archive, names, paths, strip, n + 1, m);
    }
}

/// The items for the first `n` entries depend only on the first `n` paths.
proof fn lemma_items_prefix(
    archive: Seq<u8>,
    names: Seq<Seq<char>>,
    a: Seq<Seq<Seq<char>>>,
    b: Seq<Seq<Seq<char>>>,
    strip: bool,
    n: nat,
)
    requires
        n <= a.len(),
        n <= b.len(),
        forall|k: int| 0 <= k < n ==> a[k] == b[k],
    ensures
        items_upto(archive, names, a, strip, n) == items_upto(archive, names, b, strip, n),
    decreases n,
{
    if n > 0 {
        lemma_items_prefix(archive, names, a, b, strip, (n - 1) as nat);
    }
}

/// Whether an unzip with `strip_toplevel` strips the first component of each entry:
/// only when asked to and the archive holds a single top-level directory.
pub open spec fn unzip_strips(archive: Seq<u8>, strip_toplevel: bool) -> bool {
    strip_toplevel && match zip_names(archive) {
        Some(names) => has_toplevel_spec(names),
        None => false,
    }
}

/// An archive is stripped only when it is one directory: as soon as an entry after
/// the first does not start with the first entry's name, nothing is stripped and
/// unzipping keeps every entry's full path, whatever was asked. When the first
/// entry is a directory below which every other entry lies, asking to strip strips.
pub proof fn lemma_strips_only_single_directories(
    archive: Seq<u8>,
    strip_toplevel: bool,
    outcome: Result<Seq<(Seq<Seq<char>>, Option<Seq<u8>>)>, UnzipError>,
)
    ensures
        (zip_names(archive) matches Some(names) && exists|i: int|
            1 <= i < names.len() && !is_prefix(names[0], #[trigger] names[i])) ==> {
            &&& !has_toplevel_spec(zip_names(archive)->0)
            &&& !unzip_strips(archive, strip_toplevel)
            &&& (extraction(archive, unzip_strips(archive, strip_toplevel), outcome) ==> extraction(
                archive,
                false,
                outcome,
            ))
        },
        (zip_names(archive) matches Some(names) && names.len() > 0 && is_suffix("/"@, names[0])
            && forall|i: int| 1 <= i < names.len() ==> is_prefix(names[0], #[trigger] names[i]))
            ==> unzip_strips(archive, strip_toplevel) == strip_toplevel,
        zip_names(archive) is None ==> !unzip_strips(archive, strip_toplevel),
{
}

/// Unzips `archive`: when `strip_toplevel` is set and the archive holds a single
/// top-level directory, the contents of that directory are extracted instead;
/// otherwise every entry keeps its full path.
pub fn unzip(archive: &Vec<u8>, strip_toplevel: bool) -> (r: Result<Vec<ZipItem>, UnzipError>)
    ensures
        extraction(archive@, unzip_strips(archive@, strip_toplevel), outcome_view(r)),
{
    let names = match read_zip_names(archive) {
        Some(n) => n,
        None => return extract(archive, false),
    };
    let strip = strip_toplevel && has_toplevel(&names);
    extract(archive, strip)
}

/// Where no entry name has a drive or share prefix, extraction is fixed: it gives
/// the items laid out from the names' own [`components`], or fails exactly when
/// that layout fails.
pub proof fn lemma_extraction_exact(
    archive: Seq<u8>,
    strip: bool,
    outcome: Result<Seq<(Seq<Seq<char>>, Option<Seq<u8>>)>, UnzipError>,
)
    requires
        extraction(archive, strip, outcome),
        zip_names(archive) matches Some(names) && forall|k: int| 0 <= k < names.len() ==> no_prefix(#[trigger] names[k]),
    ensures
        ({
            let names = zip_names(archive)->0;
            match items_upto(archive, names, sanitized(names), strip, names.len()) {
                Some(items) => outcome == Ok::<Seq<(Seq<Seq<char>>, Option<Seq<u8>>)>, UnzipError>(items),
                None => outcome == Err::<Seq<(Seq<Seq<char>>, Option<Seq<u8>>)>, UnzipError>(
                    UnzipError::UnreadableEntry,
                ),
            }
        }),
{
    let names = zip_names(archive)->0;
    let paths = choose|paths: Seq<Seq<Seq<char>>>| #[trigger] extracts_with(archive, strip, outcome, paths);
    assert(extracts_with(archive, strip, outcome, paths));
    assert(paths =~= sanitized(names)) by {
        assert forall|k: int| 0 <= k < paths.len() implies paths[k] == sanitized(names)[k] by {
            assert(no_prefix(names[k]));
        }
    }
}

/// Extracted items stay inside the destination: every component of every item's
/// path names something (it is neither empty, `.` nor `..`) and holds no separator.
pub proof fn lemma_extracted_paths_plain(
    archive: Seq<u8>,
    strip: bool,
    items: Seq<(Seq<Seq<char>>, Option<Seq<u8>>)>,
)
    requires
        extraction(archive, strip, Ok::<Seq<(Seq<Seq<char>>, Option<Seq<u8>>)>, UnzipError>(items)),
    ensures
        forall|j: int| 0 <= j < items.len() ==> plain_path(#[trigger] items[j].0),
{
    let outcome = Ok::<Seq<(Seq<Seq<char>>, Option<Seq<u8>>)>, UnzipError>(items);
    let paths = choose|paths: Seq<Seq<Seq<char>>>| #[trigger] extracts_with(archive, strip, outcome, paths);
    let names = zip_names(archive)->0;
    assert(extracts_with(archive, strip, outcome, paths));
    assert(items_upto(archive, names, paths, strip, names.len()) == Some(items));
    lemma_items_plain(archive, names, paths, strip, names.len(), items);
}

proof fn lemma_items_plain(
    archive: Seq<u8>,
    names: Seq<Seq<char>>,
    paths: Seq<Seq<Seq<char>>>,
    strip: bool,
    n: nat,
    items: Seq<(Seq<Seq<char>>, Option<Seq<u8>>)>,
)
    requires
        n <= paths.len(),
        forall|k: int| 0 <= k < paths.len() ==> plain_path(#[trigger] paths[k]),
        items_upto(archive, names, paths, strip, n) == Some(items),
    ensures
        forall|j: int| 0 <= j < items.len() ==> plain_path(#[trigger] items[j].0),
    decreases n,
{
    if n > 0 {
        let prev = items_upto(archive, names, paths, strip, (n - 1) as nat)->0;
        lemma_items_plain(archive, names, paths, strip, (n - 1) as nat, prev);
        lemma_placed_plain(paths[n - 1], strip);
        assert forall|j: int| 0 <= j < items.len() implies plain_path(#[trigger] items[j].0) by {
            if j < prev.len() {
                assert(items[j] == prev[j]);
            }
        }
    }
}

/// An archive that is not a single top-level directory, such as one made of a lone
/// file, is never stripped: unzipping it keeps every entry's full path.
pub proof fn lemma_lone_file_not_stripped(archive: Seq<u8>, strip_toplevel: bool)
    requires
        zip_names(archive) matches Some(names) && names.len() > 0 && !is_suffix("/"@, names[0]),
    ensures
        !unzip_strips(archive, strip_toplevel),
{
}

} // verus!
