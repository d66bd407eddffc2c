use eslauncher2::plugins::{
    retrieve_plugins, scan_plugins, AvailablePlugin, DownloadError, InstalledPlugin, Plugin,
    PluginDirEntry,
};
use eslauncher2::plugins_frame::{
    cache_file_name, Plugin as FramePlugin, PluginAction, PluginMessage, PluginRow, PluginState,
    PluginsFrameState,
};
use eslauncher2::style::Icon;
use eslauncher2::unzip::UnzipError;
use std::io::Write;

fn available(name: &str, version: &str) -> AvailablePlugin {
    AvailablePlugin {
        name: name.to_string(),
        url: format!("https://github.com/someone/{}", name),
        version: version.to_string(),
        icon_url: None,
        author: "someone".to_string(),
        description: "a plug-in".to_string(),
    }
}

fn installed(name: &str, version: &str) -> InstalledPlugin {
    InstalledPlugin { name: name.to_string(), version: version.to_string() }
}

fn zip_of(entries: &[(&str, Option<&[u8]>)]) -> Vec<u8> {
    let mut buf = std::io::Cursor::new(Vec::new());
    {
        let mut w = zip::ZipWriter::new(&mut buf);
        let opts = zip::write::SimpleFileOptions::default()
            .compression_method(zip::CompressionMethod::Stored);
        for (name, contents) in entries {
            match contents {
                Some(c) => {
                    w.start_file(*name, opts).unwrap();
                    w.write_all(c).unwrap();
                }
                None => {
                    w.add_directory(*name, opts).unwrap();
                }
            }
        }
        w.finish().unwrap();
    }
    buf.into_inner()
}

#[test]
fn download_url_points_at_the_version_archive() {
    let a = available("World Forge", "1.2");
    assert_eq!(a.download_url(), "https://github.com/someone/World Forge/archive/1.2.zip");
}

#[test]
fn merge_pairs_by_name_and_keeps_unclaimed_installed() {
    let avail = vec![available("a", "2"), available("b", "1")];
    let inst = vec![installed("c", "3"), installed("a", "1"), installed("a", "0")];
    let merged = retrieve_plugins(avail, inst);
    assert_eq!(merged.len(), 3);
    assert_eq!(merged[0].available.as_ref().unwrap().name, "a");
    assert_eq!(merged[0].installed.as_ref().unwrap().version, "1");
    assert_eq!(merged[1].available.as_ref().unwrap().name, "b");
    assert!(merged[1].installed.is_none());
    assert!(merged[2].available.is_none());
    assert_eq!(merged[2].installed.as_ref().unwrap().name, "c");
}

#[test]
fn merge_pairs_a_duplicate_available_plugin_with_nothing() {
    let merged = retrieve_plugins(
        vec![available("a", "2"), available("a", "3")],
        vec![installed("a", "1")],
    );
    assert_eq!(merged.len(), 2);
    assert!(merged[0].installed.is_some());
    assert!(merged[1].installed.is_none());
}

#[test]
fn plugin_accessors() {
    let p = Plugin { installed: Some(installed("x", "1")), available: Some(available("X", "2")) };
    assert_eq!(p.name(), "X");
    assert!(p.is_installed());
    assert!(p.is_available());
    assert_eq!(p.versions(), (Some("1".to_string()), Some("2".to_string())));
    let q = Plugin { installed: Some(installed("x", "1")), available: None };
    assert_eq!(q.name(), "x");
    assert!(!q.is_available());
}

#[test]
fn scan_reports_unknown_versions_and_skips_unreadable_names() {
    let entries = vec![
        PluginDirEntry { name: Some("a".to_string()), version: Some("1.0".to_string()) },
        PluginDirEntry { name: None, version: Some("2.0".to_string()) },
        PluginDirEntry { name: Some("b".to_string()), version: None },
    ];
    let found = scan_plugins(entries);
    assert_eq!(found.len(), 2);
    assert_eq!((found[0].name.as_str(), found[0].version.as_str()), ("a", "1.0"));
    assert_eq!((found[1].name.as_str(), found[1].version.as_str()), ("b", "unknown"));
}

#[test]
fn plugin_download_strips_the_top_level_directory() {
    let archive = zip_of(&[
        ("plugin-1.2/", None),
        ("plugin-1.2/data/", None),
        ("plugin-1.2/data/ships.txt", Some(b"ship")),
    ]);
    let a = available("plugin", "1.2");
    let d = a.download(&archive).unwrap();
    assert_eq!(d.installed.name, "plugin");
    assert_eq!(d.installed.version, "1.2");
    assert_eq!(d.items.len(), 2);
    assert_eq!(d.items[0].path, vec!["data".to_string()]);
    assert!(d.items[0].contents.is_none());
    assert_eq!(d.items[1].path, vec!["data".to_string(), "ships.txt".to_string()]);
    assert_eq!(d.items[1].contents.as_deref(), Some(&b"ship"[..]));
}

#[test]
fn plugin_download_refuses_garbage() {
    let a = available("plugin", "1.2");
    assert!(matches!(a.download(&vec![1, 2, 3]), Err(UnzipError::InvalidArchive)));
}

#[test]
fn frame_plugin_state_machine() {
    let espim = Plugin { installed: None, available: Some(available("p", "1")) };
    let mut p = FramePlugin::new(espim.clone(), None);
    assert_eq!(p.name, "p");
    match p.update(PluginMessage::Install) {
        PluginAction::Install(e) => assert_eq!(e.available.unwrap().version, "1"),
        _ => panic!("expected an install"),
    }
    assert!(matches!(p.state, PluginState::Working));
    assert!(matches!(p.update(PluginMessage::Install), PluginAction::Nothing));
    assert!(matches!(p.update(PluginMessage::Remove), PluginAction::Nothing));
    assert!(matches!(p.update(PluginMessage::WorkFinished(espim)), PluginAction::Nothing));
    assert!(matches!(p.state, PluginState::Idle { .. }));
    assert!(matches!(p.update(PluginMessage::Remove), PluginAction::Remove(_)));
}

#[test]
fn frame_routes_messages_by_name() {
    let a = FramePlugin::new(Plugin { installed: None, available: Some(available("a", "1")) }, None);
    let b = FramePlugin::new(Plugin { installed: None, available: Some(available("b", "1")) }, None);
    let mut frame = PluginsFrameState::from(vec![a, b]);
    assert!(frame.update_plugin("zzz", PluginMessage::Install).is_none());
    assert!(matches!(frame.update_plugin("b", PluginMessage::Install), Some(PluginAction::Install(_))));
    match &frame {
        PluginsFrameState::Ready { plugins } => {
            assert!(matches!(plugins[0].state, PluginState::Idle { .. }));
            assert!(matches!(plugins[1].state, PluginState::Working));
        }
        PluginsFrameState::Loading => panic!("expected a loaded frame"),
    }
    let mut loading = PluginsFrameState::Loading;
    assert!(loading.update_plugin("a", PluginMessage::Install).is_none());
}

#[test]
fn cache_file_names_replace_unsafe_characters() {
    let p = Plugin { installed: Some(installed("My Plug/in", "1.0")), available: Some(available("My Plug/in", "2.0")) };
    assert_eq!(cache_file_name(&p).unwrap(), "My_Plug_in-1.0");
    let q = Plugin { installed: None, available: Some(available("a_b-c.d", "v2")) };
    assert_eq!(cache_file_name(&q).unwrap(), "a_b-c.d-v2");
}

#[test]
fn installed_plugins_live_in_the_plugin_directory() {
    let p = installed("World Forge", "1.0");
    assert_eq!(p.path("/home/u/.local/share/endless-sky/plugins"), "/home/u/.local/share/endless-sky/plugins/World Forge");
    assert_eq!(p.path("/plugins/"), "/plugins/World Forge");
    assert_eq!(p.path(""), "World Forge");
}

#[test]
fn downloading_installs_the_available_version() {
    let archive = zip_of(&[("wf-2.0/", None), ("wf-2.0/data.txt", Some(b"d"))]);
    let mut p = Plugin { installed: Some(installed("wf", "1.0")), available: Some(available("wf", "2.0")) };
    let items = p.download(&archive).unwrap();
    assert_eq!(items.len(), 1);
    assert_eq!(items[0].path, vec!["data.txt".to_string()]);
    let (installed_version, available_version) = p.versions();
    assert_eq!(installed_version, available_version);
    assert_eq!(installed_version, Some("2.0".to_string()));
    assert_eq!(p.name(), "wf");
}

#[test]
fn downloading_needs_an_available_plugin_and_an_archive() {
    let mut local = Plugin { installed: Some(installed("x", "1")), available: None };
    assert!(matches!(local.download(&vec![]), Err(DownloadError::NotAvailable)));
    let mut p = Plugin { installed: None, available: Some(available("y", "1")) };
    assert!(matches!(p.download(&vec![9, 9]), Err(DownloadError::Archive(UnzipError::InvalidArchive))));
    assert!(p.installed.is_none());
}

#[test]
fn plugin_rows_show_versions_and_buttons() {
    let both = FramePlugin::new(Plugin { installed: Some(installed("p", "1")), available: Some(available("p", "2")) }, None);
    match both.row() {
        PluginRow::Idle { installed, available, install, remove } => {
            assert_eq!(installed, "Installed: 1");
            assert_eq!(available, "Available: 2");
            assert!(matches!(install, (Icon::Update, Some(PluginMessage::Install))));
            assert!(matches!(remove, (Icon::Delete, Some(PluginMessage::Remove))));
        }
        PluginRow::Working { .. } => panic!("an idle plug-in shows its buttons"),
    }
    let local = FramePlugin::new(Plugin { installed: Some(installed("q", "unknown")), available: None }, None);
    match local.row() {
        PluginRow::Idle { installed, available, install, remove } => {
            assert_eq!(installed, "Installed: unknown");
            assert_eq!(available, "Unavailable");
            assert!(matches!(install, (Icon::Update, None)));
            assert!(matches!(remove, (Icon::Delete, Some(PluginMessage::Remove))));
        }
        PluginRow::Working { .. } => panic!("an idle plug-in shows its buttons"),
    }
    let mut fresh = FramePlugin::new(Plugin { installed: None, available: Some(available("r", "3")) }, None);
    match fresh.row() {
        PluginRow::Idle { installed, remove, .. } => {
            assert_eq!(installed, "Not installed");
            assert!(matches!(remove, (Icon::Delete, None)));
        }
        PluginRow::Working { .. } => panic!("an idle plug-in shows its buttons"),
    }
    fresh.update(PluginMessage::Install);
    match fresh.row() {
        PluginRow::Working { label } => assert_eq!(label, "Working..."),
        PluginRow::Idle { .. } => panic!("a plug-in being installed shows that it is working"),
    }
}
