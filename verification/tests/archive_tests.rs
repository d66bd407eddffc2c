use eslauncher2::archive::{archive_kind, unpack_method, ArchiveKind, UnpackMethod};
use eslauncher2::unzip::{entry_layout, extract, has_toplevel, strip_toplevel, unzip, UnzipError};
use std::io::Write;

fn strings(v: &[&str]) -> Vec<String> {
    v.iter().map(|s| s.to_string()).collect()
}

fn zip_of(entries: &[(&str, Option<&[u8]>)]) -> Vec<u8> {
    let mut buf = std::io::Cursor::new(Vec::new());
    {
        let mut w = zip::ZipWriter::new(&mut buf);
        let opts = zip::write::SimpleFileOptions::default()
            .compression_method(zip::CompressionMethod::Stored);
        for (name, contents) in entries {
            match contents {
                Some(c) => {
                    w.start_file(*name, opts).unwrap();
                    w.write_all(c).unwrap();
                }
                None => {
                    w.add_directory(*name, opts).unwrap();
                }
            }
        }
        w.finish().unwrap();
    }
    buf.into_inner()
}

#[test]
fn entry_names_split_into_plain_components() {
    let archive = zip_of(&[
        ("a/b/c.txt", Some(b"1")),
        ("dir\\sub\\f", Some(b"2")),
        ("./x/../y//z", Some(b"3")),
        ("top/", None),
    ]);
    let items = unzip(&archive, false).unwrap();
    assert_eq!(items.len(), 4);
    assert_eq!(items[0].path, strings(&["a", "b", "c.txt"]));
    assert_eq!(items[1].path, strings(&["dir", "sub", "f"]));
    assert_eq!(items[2].path, strings(&["x", "y", "z"]));
    assert_eq!(items[3].path, strings(&["top"]));
    assert!(items[3].contents.is_none());
}

#[test]
fn a_single_top_level_directory_is_detected() {
    assert!(has_toplevel(&strings(&["top/", "top/a", "top/b/c"])));
    assert!(has_toplevel(&strings(&["top/"])));
    assert!(!has_toplevel(&strings(&["only-file"])));
    assert!(!has_toplevel(&Vec::new()));
    assert!(!has_toplevel(&strings(&["a", "ab/c"])));
    assert!(!has_toplevel(&strings(&["top/a", "top/b"])));
    assert!(!has_toplevel(&strings(&["a/x", "b/y"])));
    assert!(!has_toplevel(&strings(&["top/a", "other"])));
}

#[test]
fn stripping_drops_the_first_component() {
    assert_eq!(strip_toplevel(&strings(&["top", "a", "b"])), strings(&["a", "b"]));
    assert!(strip_toplevel(&strings(&["top"])).is_empty());
    assert!(strip_toplevel(&Vec::new()).is_empty());
}

#[test]
fn unzip_strips_a_top_level_directory_when_asked() {
    let archive = zip_of(&[
        ("game/", None),
        ("game/data/", None),
        ("game/data/a.txt", Some(b"A")),
        ("game/run", Some(b"#!")),
    ]);
    let items = unzip(&archive, true).unwrap();
    assert_eq!(items.len(), 3);
    assert_eq!(items[0].path, strings(&["data"]));
    assert!(items[0].contents.is_none());
    assert_eq!(items[1].path, strings(&["data", "a.txt"]));
    assert_eq!(items[1].contents.as_deref(), Some(&b"A"[..]));
    assert_eq!(items[2].path, strings(&["run"]));

    let kept = unzip(&archive, false).unwrap();
    assert_eq!(kept.len(), 4);
    assert_eq!(kept[0].path, strings(&["game"]));
    assert_eq!(kept[2].path, strings(&["game", "data", "a.txt"]));
}

#[test]
fn unzip_keeps_paths_without_a_top_level_directory() {
    let archive = zip_of(&[("a/x", Some(b"1")), ("b/y", Some(b"2"))]);
    let items = unzip(&archive, true).unwrap();
    assert_eq!(items.len(), 2);
    assert_eq!(items[0].path, strings(&["a", "x"]));
    assert_eq!(items[1].path, strings(&["b", "y"]));
    // extracting with stripping forced drops the first component regardless
    let forced = extract(&archive, true).unwrap();
    assert_eq!(forced[0].path, strings(&["x"]));
    assert_eq!(forced[1].path, strings(&["y"]));
}

#[test]
fn unzip_refuses_bytes_that_are_no_archive() {
    assert_eq!(unzip(&vec![0, 1, 2, 3], true).err(), Some(UnzipError::InvalidArchive));
    assert_eq!(extract(&Vec::new(), false).err(), Some(UnzipError::InvalidArchive));
}

#[test]
fn archives_are_recognized_by_extension() {
    assert_eq!(archive_kind("EndlessSky-linux.tar.gz"), ArchiveKind::TarGz);
    assert_eq!(archive_kind("EndlessSky-win64.zip"), ArchiveKind::Zip);
    assert_eq!(archive_kind("x.dmg"), ArchiveKind::Unsupported);
    assert_eq!(archive_kind("b.ZIP"), ArchiveKind::Unsupported);
    assert_eq!(archive_kind(".zip"), ArchiveKind::Unsupported);
    assert_eq!(archive_kind("x.tar.gz\\.zip"), ArchiveKind::Zip);
    assert_eq!(archive_kind("file."), ArchiveKind::Unsupported);
    assert_eq!(archive_kind("noextension"), ArchiveKind::Unsupported);
}

#[test]
fn entry_layouts() {
    assert_eq!(entry_layout(strings(&["top"]), "top/", true), None);
    assert_eq!(entry_layout(strings(&["top"]), "top/", false), Some((strings(&["top"]), true)));
    assert_eq!(entry_layout(strings(&["top", "data"]), "top/data/", true), Some((strings(&["data"]), true)));
    assert_eq!(
        entry_layout(strings(&["top", "data", "a.txt"]), "top/data/a.txt", true),
        Some((strings(&["data", "a.txt"]), false))
    );
    assert_eq!(entry_layout(Vec::new(), "./", false), None);
}

#[test]
fn a_lone_file_is_extracted_whole() {
    let archive = zip_of(&[("README.txt", Some(b"hello"))]);
    let items = unzip(&archive, true).unwrap();
    assert_eq!(items.len(), 1);
    assert_eq!(items[0].path, strings(&["README.txt"]));
    assert_eq!(items[0].contents.as_deref(), Some(&b"hello"[..]));
}

#[test]
fn a_name_that_merely_starts_like_another_is_not_below_it() {
    let archive = zip_of(&[("a", Some(b"1")), ("ab/c", Some(b"2"))]);
    let items = unzip(&archive, true).unwrap();
    assert_eq!(items.len(), 2);
    assert_eq!(items[0].path, strings(&["a"]));
    assert_eq!(items[1].path, strings(&["ab", "c"]));
}

#[test]
fn entry_paths_are_sanitized() {
    let archive = zip_of(&[("../up/./x.txt", Some(b"x")), ("/abs/y", Some(b"y"))]);
    let items = unzip(&archive, false).unwrap();
    assert_eq!(items.len(), 2);
    assert_eq!(items[0].path, strings(&["up", "x.txt"]));
    assert_eq!(items[1].path, strings(&["abs", "y"]));
}

#[test]
fn tar_archives_are_never_stripped() {
    assert_eq!(unpack_method("es.tar.gz", true), UnpackMethod::Tar);
    assert_eq!(unpack_method("es.tar.gz", false), UnpackMethod::Tar);
    assert_eq!(unpack_method("es.zip", true), UnpackMethod::Zip { strip_toplevel: true });
    assert_eq!(unpack_method("es.zip", false), UnpackMethod::Zip { strip_toplevel: false });
}
