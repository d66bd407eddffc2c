//! Which unpacker an archive needs, by the extension of its file name.

use vstd::prelude::*;
use crate::text::{chars_of, string_of, same_text};

verus! {

/// The position of the last `.` in `s`.
pub open spec fn last_dot(s: Seq<char>) -> Option<int>
    decreases s.len(),
{
    if s.len() == 0 {
        None
    } else if s.last() == '.' {
        Some(s.len() - 1)
    } else {
        last_dot(s.drop_last())
    }
}

/// The extension of a file name, as `Path::extension` reads it: what follows the
/// last `.`, unless that `.` is the name's first character.
pub open spec fn extension(name: Seq<char>) -> Option<Seq<char>> {
    match last_dot(name) {
        Some(k) => if k > 0 {
            Some(name.subrange(k + 1, name.len() as int))
        } else {
            None
        },
        None => None,
    }
}

/// How an archive is unpacked.
#[derive(Debug, PartialEq, Eq, Structural)]
pub enum ArchiveKind {
    /// A gzip-compressed tar archive.
    TarGz,
    /// A zip archive.
    Zip,
    /// Anything else, which cannot be unpacked.
    Unsupported,
}

pub open spec fn archive_kind_spec(file_name: Seq<char>) -> ArchiveKind {
    match extension(file_name) {
        Some(e) => if e == "gz"@ {
            ArchiveKind::TarGz
        } else if e == "zip"@ {
            ArchiveKind::Zip
        } else {
            ArchiveKind::Unsupported
        },
        None => ArchiveKind::Unsupported,
    }
}

fn extension_of(name: &Vec<char>) -> (r: Option<Vec<char>>)
    ensures
        match r {
            Some(e) => extension(name@) == Some(e@),
            None => extension(name@) is None,
        },
{
    let mut k: usize = name.len();
    assert(name@.subrange(0, k as int) =~= name@);
    while k > 0
        invariant
            k <= name.len(),
            last_dot(name@) == last_dot(name@.subrange(0, k as int)),
        decreases k,
    {
        assert(name@.subrange(0, k as int).drop_last() =~= name@.subrange(0, k - 1));
        if name[k - 1] == '.' {
            if k - 1 == 0 {
                return None;
            }
            let mut ext: Vec<char> = Vec::new();
            let mut j: usize = k;
            while j < name.len()
                invariant
                    k <= j <= name.len(),
                    ext@ =~= name@.subrange(k as int, j as int),
                decreases name.len() - j,
            {
                ext.push(name[j]);
                j = j + 1;
            }
            return Some(ext);
        }
        k = k - 1;
    }
    None
}

/// Which unpacker the archive called `file_name` (the last component of its path)
/// needs, by its extension: `gz` archives are tar archives, `zip` archives are zip
/// archives, and nothing else is supported.
pub fn archive_kind(file_name: &str) -> (r: ArchiveKind)
    ensures
        r == archive_kind_spec(file_name@),
{
    let name = chars_of(file_name);
    match extension_of(&name) {
        None => ArchiveKind::Unsupported,
        Some(e) => {
            let ext = string_of(&e);
            if same_text(ext.as_str(), "gz") {
                ArchiveKind::TarGz
            } else if same_text(ext.as_str(), "zip") {
                ArchiveKind::Zip
            } else {
                ArchiveKind::Unsupported
            }
        },
    }
}

/// How an archive is unpacked into a directory.
#[derive(Debug, PartialEq, Eq, Structural)]
pub enum UnpackMethod {
    /// Decompress it and unpack the tar archive as it is.
    Tar,
    /// Unzip it, stripping a single top-level directory where `strip_toplevel`.
    Zip { strip_toplevel: bool },
}

/// How the archive called `file_name` is unpacked when asked to strip a top-level
/// directory or not: only zip archives are stripped.
pub open spec fn unpack_method_spec(file_name: Seq<char>, strip_toplevel: bool) -> UnpackMethod {
    match archive_kind_spec(file_name) {
        ArchiveKind::TarGz => UnpackMethod::Tar,
        _ => UnpackMethod::Zip { strip_toplevel },
    }
}

/// How the archive called `file_name` is unpacked (see [`unpack_method_spec`]).
/// Only tar and zip archives can be unpacked.
pub fn unpack_method(file_name: &str, strip_toplevel: bool) -> (r: UnpackMethod)
    requires
        archive_kind_spec(file_name@) != ArchiveKind::Unsupported,
    ensures
        r == unpack_method_spec(file_name@, strip_toplevel),
{
    match archive_kind(file_name) {
        ArchiveKind::TarGz => UnpackMethod::Tar,
        _ => UnpackMethod::Zip { strip_toplevel },
    }
}

/// `.tar.gz` archives are unpacked whole: asking to strip a top-level directory
/// does not change how they are unpacked.
pub proof fn lemma_tar_ignores_strip(path: Seq<char>)
    requires
        archive_kind_spec(path) == ArchiveKind::TarGz,
    ensures
        unpack_method_spec(path, true) == unpack_method_spec(path, false),
        unpack_method_spec(path, true) == UnpackMethod::Tar,
{
}

} // verus!
