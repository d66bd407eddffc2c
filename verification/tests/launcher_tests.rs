use eslauncher2::instance::InstanceAction;
use eslauncher2::launcher::{instance_messages_after, instance_messages_before, WorkOutcome};
use eslauncher2::launcher::plugin_messages_after;
use eslauncher2::launcher::{dialog_button_message, move_dir_dialog_spec, move_done_dialog_spec, move_failed_dialog_spec, move_in_progress_dialog_spec};
use eslauncher2::launcher::{folder_button, install_dir_label, music_button, reset_button};
use eslauncher2::style::{icon_glyph, Icon};
use eslauncher2::frames::{AdvancedFrame, AdvancedFrameOpen, AdvancedMessage, InstanceFrameHolder};
use eslauncher2::install_frame::{InstallFrameMessage, InstallFrameOutcome, InstanceSource, InstanceSourceType};
use eslauncher2::instance::{Instance, InstanceMessage, InstanceState, InstanceType, Progress};
use eslauncher2::launcher::{
    add_instance, from_instances, move_dir_dialog_content, move_done_content,
    move_in_progress_content, music_state_after, music_step, name_less, remove_instance,
    should_queue_song, DialogSpec, Fade, InstancesMap, Launcher, LauncherAction, Message,
    MusicCommand, MusicState, Tab,
};
use eslauncher2::logger::{accepts, enabled, level_name, log_line, log_style, should_log, LogLevel, LogStyle};
use eslauncher2::plugins::{AvailablePlugin, Plugin as EspimPlugin};
use eslauncher2::plugins_frame::{Plugin as FramePlugin, PluginAction, PluginMessage, PluginsFrameState};
use eslauncher2::settings::{settings_update, SelectableTheme, Settings, SettingsAction, SettingsMessage};
use eslauncher2::style::ButtonStyle;

fn inst(name: &str, state: InstanceState) -> Instance {
    Instance::new(
        format!("/games/{}", name),
        format!("/games/{}/endless-sky", name),
        name.to_string(),
        "1".to_string(),
        InstanceType::Linux,
        InstanceSource { identifier: String::new(), source_type: InstanceSourceType::Continuous },
        state,
    )
}

fn names(m: &InstancesMap) -> Vec<String> {
    m.values().iter().map(|i| i.name.clone()).collect()
}

fn launcher() -> Launcher {
    Launcher::new(Settings::with_install_dir("/data/instances".to_string()), InstancesMap::new())
}

#[test]
fn instances_stay_in_name_order() {
    let mut m = InstancesMap::new();
    assert!(m.is_empty());
    assert!(m.insert(inst("zeta", InstanceState::Ready)).is_none());
    assert!(m.insert(inst("alpha", InstanceState::Ready)).is_none());
    assert!(m.insert(inst("Beta", InstanceState::Ready)).is_none());
    assert_eq!(names(&m), vec!["Beta", "alpha", "zeta"]);
    let mut newer = inst("alpha", InstanceState::Ready);
    newer.version = "2".to_string();
    let old = m.insert(newer).unwrap();
    assert_eq!(old.version, "1");
    assert_eq!(m.len(), 3);
    assert_eq!(m.get("alpha").unwrap().version, "2");
    assert!(m.get("gamma").is_none());
    assert_eq!(m.remove("zeta").unwrap().name, "zeta");
    assert!(m.remove("zeta").is_none());
    assert_eq!(names(&m), vec!["Beta", "alpha"]);
}

#[test]
fn names_compare_as_strings_do() {
    for (a, b) in [("a", "b"), ("B", "a"), ("ab", "a"), ("a", "ab"), ("", "x"), ("x", "x"), ("é", "z")] {
        assert_eq!(name_less(a, b), a < b, "{:?} < {:?}", a, b);
    }
}

#[test]
fn loading_keeps_the_last_instance_of_a_name() {
    let mut second = inst("a", InstanceState::Ready);
    second.version = "2".to_string();
    let m = from_instances(vec![inst("b", InstanceState::Ready), inst("a", InstanceState::Ready), second]);
    assert_eq!(names(&m), vec!["a", "b"]);
    assert_eq!(m.get("a").unwrap().version, "2");
}

#[test]
fn adding_and_removing_instances() {
    let mut m = InstancesMap::new();
    assert!(!add_instance(&mut m, inst("new", InstanceState::Working(Progress::default()))));
    assert!(add_instance(&mut m, inst("new", InstanceState::Ready)));
    assert!(m.get("new").unwrap().state.is_ready());
    assert!(!remove_instance(&mut m, None));
    assert_eq!(m.len(), 1);
    assert!(remove_instance(&mut m, Some("new")));
    assert!(m.is_empty());
}

#[test]
fn instance_messages_reach_the_named_instance() {
    let mut m = InstancesMap::new();
    m.insert(inst("a", InstanceState::Ready));
    assert!(m.update_instance("missing", InstanceMessage::Update).is_none());
    let r = m.update_instance("a", InstanceMessage::StateChanged(InstanceState::Playing));
    assert!(r.is_some());
    assert!(m.get("a").unwrap().state.is_playing());
}

#[test]
fn music_commands() {
    assert_eq!(music_state_after(MusicCommand::Pause, MusicState::Playing), MusicState::Paused);
    assert_eq!(music_state_after(MusicCommand::WeakPause, MusicState::Playing), MusicState::Playing);
    assert_eq!(music_step(MusicState::Playing, MusicCommand::WeakPause), (MusicState::Playing, Fade::Out));
    assert_eq!(music_step(MusicState::Playing, MusicCommand::WeakPlay), (MusicState::Playing, Fade::In));
    assert_eq!(music_step(MusicState::Paused, MusicCommand::WeakPlay), (MusicState::Paused, Fade::Keep));
    assert_eq!(music_step(MusicState::Paused, MusicCommand::Play), (MusicState::Playing, Fade::In));
    assert_eq!(music_step(MusicState::Playing, MusicCommand::Pause), (MusicState::Paused, Fade::Out));
    // a game run between a weak pause and a weak play leaves the setting alone
    let (s, _) = music_step(MusicState::Paused, MusicCommand::WeakPause);
    let (s, f) = music_step(s, MusicCommand::WeakPlay);
    assert_eq!((s, f), (MusicState::Paused, Fade::Keep));
    assert!(should_queue_song(MusicState::Playing, true));
    assert!(!should_queue_song(MusicState::Paused, true));
    assert!(!should_queue_song(MusicState::Playing, false));
    assert_eq!(MusicState::default(), MusicState::Playing);
}

#[test]
fn dialog_texts() {
    assert_eq!(move_dir_dialog_content(0), "Should ESLauncher move your instances to the new folder?");
    assert_eq!(
        move_dir_dialog_content(3),
        "Should ESLauncher move your instances to the new folder?\nWARNING: Found 3 existing items in the directory.\nIf you select Yes, these will be deleted!\nIf you select No, ESLauncher2 might run into problems later."
    );
    assert_eq!(move_in_progress_content(2, 10, 1), "Moving install dir, please be patient...\n13 items");
    assert_eq!(move_done_content(120, 7), "Success!\n Moved 120 files, 7 folders");
}

#[test]
fn the_window_routes_instance_messages() {
    let mut l = launcher();
    assert!(matches!(l.update(Message::AddInstance(inst("a", InstanceState::Ready))), LauncherAction::SaveInstances));
    assert!(matches!(
        l.update(Message::AddInstance(inst("b", InstanceState::Working(Progress::default())))),
        LauncherAction::Nothing
    ));
    assert_eq!(names(&l.instances), vec!["a", "b"]);
    match l.update(Message::InstanceMessage("a".to_string(), InstanceMessage::Folder)) {
        LauncherAction::Instance(name, eslauncher2::instance::InstanceAction::OpenFolder(p)) => {
            assert_eq!(name, "a");
            assert_eq!(p, "/games/a");
        }
        _ => panic!("expected the folder of a"),
    }
    assert!(matches!(
        l.update(Message::InstanceMessage("zz".to_string(), InstanceMessage::Update)),
        LauncherAction::MissingInstance(n) if n == "zz"
    ));
    assert!(matches!(l.update(Message::RemoveInstance(Some("a".to_string()))), LauncherAction::SaveInstances));
    assert!(matches!(l.update(Message::RemoveInstance(None)), LauncherAction::Nothing));
    assert_eq!(names(&l.instances), vec!["b"]);
    assert!(matches!(l.update(Message::ReloadInstances), LauncherAction::ReloadInstances));
}

#[test]
fn the_window_routes_plugin_messages() {
    let mut l = launcher();
    assert!(matches!(
        l.update(Message::PluginMessage("p".to_string(), PluginMessage::Install)),
        LauncherAction::Nothing
    ));
    let a = AvailablePlugin {
        name: "p".to_string(),
        url: "https://github.com/x/p".to_string(),
        version: "1".to_string(),
        icon_url: None,
        author: "x".to_string(),
        description: "d".to_string(),
    };
    let fp = FramePlugin::new(EspimPlugin { installed: None, available: Some(a) }, None);
    assert!(matches!(l.update(Message::PluginFrameLoaded(vec![fp])), LauncherAction::Nothing));
    assert!(matches!(
        l.update(Message::PluginMessage("p".to_string(), PluginMessage::Install)),
        LauncherAction::Plugin(n, PluginAction::Install(_)) if n == "p"
    ));
    assert!(matches!(
        l.update(Message::PluginMessage("q".to_string(), PluginMessage::Install)),
        LauncherAction::MissingPlugin(n) if n == "q"
    ));
    assert!(matches!(l.plugins_frame, PluginsFrameState::Ready { .. }));
}

#[test]
fn the_window_keeps_tabs_music_logs_and_dialogs() {
    let mut l = launcher();
    assert_eq!(l.active_tab, Tab::Instances);
    l.update(Message::TabSelected(Tab::Plugins));
    assert_eq!(l.active_tab, Tab::Plugins);
    assert!(matches!(l.update(Message::MusicMessage(MusicCommand::Pause)), LauncherAction::Music(MusicCommand::Pause)));
    assert_eq!(l.settings.music_state, MusicState::Paused);
    l.update(Message::MusicMessage(MusicCommand::WeakPlay));
    assert_eq!(l.settings.music_state, MusicState::Paused);
    l.update(Message::Log("INFO    [x] hello".to_string()));
    assert_eq!(l.log_buffer, vec!["INFO    [x] hello".to_string()]);
    let spec = DialogSpec {
        title: None,
        content: move_dir_dialog_content(0),
        buttons: vec![("Cancel".to_string(), Message::Dummy)],
    };
    l.update(Message::OpenDialog(spec));
    assert!(l.dialog.is_some());
    let next = l.update(Message::DialogClosed(Box::new(Message::TabSelected(Tab::Settings))));
    assert!(l.dialog.is_none());
    match next {
        LauncherAction::Dispatch(m) => {
            l.update(m);
        }
        _ => panic!("expected the dialog's choice"),
    }
    assert_eq!(l.active_tab, Tab::Settings);
    assert!(matches!(l.update(Message::Dummy), LauncherAction::Nothing));
    assert!(matches!(l.update(Message::FontLoaded), LauncherAction::Nothing));
}

#[test]
fn the_window_forwards_form_and_settings_messages() {
    let mut l = launcher();
    l.update(Message::InstallFrameMessage(InstallFrameMessage::NameChanged("n".to_string())));
    assert_eq!(l.install_frame.name, "n");
    assert!(matches!(
        l.update(Message::InstallFrameMessage(InstallFrameMessage::StartInstallation(InstanceType::Linux))),
        LauncherAction::InstallForm(InstallFrameOutcome::Install(_))
    ));
    assert!(matches!(
        l.update(Message::SettingsMessage(SettingsMessage::SetInstallPath("/elsewhere".to_string()))),
        LauncherAction::Settings(SettingsAction::ReloadInstances)
    ));
    assert_eq!(l.settings.install_dir, "/elsewhere");
}

#[test]
fn settings_tab() {
    let mut s = Settings::with_install_dir("/d".to_string());
    assert!(matches!(settings_update(&mut s, SettingsMessage::RequestInstallPath), SettingsAction::PickFolder));
    assert!(matches!(
        settings_update(&mut s, SettingsMessage::MoveInstallPath("/e".to_string())),
        SettingsAction::MoveInstallDir(p) if p == "/e"
    ));
    assert_eq!(s.install_dir, "/d");
    settings_update(&mut s, SettingsMessage::ThemePreviewed(Some(SelectableTheme::Preset("Dark".to_string()))));
    assert!(matches!(&s.theme_preview, Some(SelectableTheme::Preset(n)) if n == "Dark"));
    assert!(matches!(s.theme, SelectableTheme::Autodetect));
    assert!(matches!(
        settings_update(&mut s, SettingsMessage::ThemeSelected(SelectableTheme::Preset("Nord".to_string()))),
        SettingsAction::Save
    ));
    assert!(s.theme_preview.is_none());
    assert_eq!(s.theme.name(), Some("Nord".to_string()));
}

#[test]
fn themes_read_back_by_name() {
    let known = vec!["Light".to_string(), "Dark".to_string(), "Nord".to_string()];
    assert!(matches!(SelectableTheme::from(None, &known), SelectableTheme::Autodetect));
    let dark = SelectableTheme::from(Some("Dark".to_string()), &known);
    assert_eq!(dark.name(), Some("Dark".to_string()));
    let odd = SelectableTheme::from(Some("Neon".to_string()), &known);
    assert_eq!(odd.name(), Some("Light".to_string()));
    let back = SelectableTheme::from(dark.name(), &known);
    assert_eq!(back.name(), dark.name());
    assert_eq!(SelectableTheme::Autodetect.name(), None);
    assert_eq!(SelectableTheme::Autodetect.label(), "Detect from System");
    assert_eq!(dark.label(), "Dark");
    assert!(matches!(SelectableTheme::default(), SelectableTheme::Autodetect));
}

#[test]
fn advanced_settings() {
    let mut f = AdvancedFrame::new(inst("old", InstanceState::Ready));
    assert_eq!(f.old_name, "old");
    f.update(AdvancedMessage::NameTextInputChanged("renamed".to_string()));
    f.update(AdvancedMessage::ArgsTextInputChanged("-d".to_string()));
    assert_eq!(f.instance.as_ref().unwrap().name, "renamed");
    assert_eq!(f.old_name, "old");
    assert_eq!(f.args, "-d");
    let empty = AdvancedFrame::default();
    assert!(empty.instance.is_none() && empty.old_name.is_empty() && empty.args.is_empty());
    let mut holder = InstanceFrameHolder::default();
    assert!(holder.instances_frame.instances.is_empty());
    assert!(holder.shown_advanced().is_none());
    holder.advanced_frame_open = AdvancedFrameOpen::Open(f);
    assert_eq!(holder.shown_advanced().unwrap().args, "-d");
}

#[test]
fn log_filtering_and_lines() {
    assert!(enabled(LogLevel::Error) && enabled(LogLevel::Warn) && enabled(LogLevel::Info));
    assert!(!enabled(LogLevel::Debug) && !enabled(LogLevel::Trace));
    assert!(should_log(None));
    assert!(should_log(Some("eslauncher2::install")));
    assert!(!should_log(Some("wgpu_core::device")));
    assert!(!should_log(Some("ureq::unit")));
    assert!(!should_log(Some("iced_winit::application")));
    assert!(!accepts(LogLevel::Debug, Some("eslauncher2")));
    assert!(accepts(LogLevel::Warn, None));
    assert_eq!(level_name(LogLevel::Warn), "WARN");
    assert_eq!(log_line(LogLevel::Info, Some("eslauncher2::github"), "hi"), "INFO    [eslauncher2::github] hi");
    assert_eq!(log_line(LogLevel::Error, None, "bad"), "ERROR   [unknown] bad");
    assert_eq!(log_style(&log_line(LogLevel::Warn, None, "w")), LogStyle::Warning);
    assert_eq!(log_style("ERROR x"), LogStyle::Error);
    assert_eq!(log_style("INFO x"), LogStyle::Plain);
}

#[test]
fn buttons_look_like_text_by_default() {
    assert_eq!(ButtonStyle::default(), ButtonStyle::Text);
}

fn comps(v: &[&str]) -> Vec<String> {
    v.iter().map(|s| s.to_string()).collect()
}

#[test]
fn instances_follow_a_moved_install_directory() {
    let (path, exe, inside) = eslauncher2::settings::relocated(
        &comps(&["/", "old", "instances", "main"]),
        &comps(&["/", "old", "instances", "main", "bin", "endless-sky"]),
        &comps(&["/", "new"]),
    );
    assert_eq!(path, comps(&["/", "new", "main"]));
    assert_eq!(exe, comps(&["/", "new", "bin", "endless-sky"]));
    assert!(inside);
    let (path, exe, inside) = eslauncher2::settings::relocated(
        &comps(&["/", "old", "main"]),
        &comps(&["/", "elsewhere", "game"]),
        &comps(&["/", "new"]),
    );
    assert_eq!(path, comps(&["/", "new", "main"]));
    assert_eq!(exe, comps(&["/", "elsewhere", "game"]));
    assert!(!inside);
}

#[test]
fn saved_instances_load_back_unchanged() {
    let mut m = InstancesMap::new();
    for n in ["delta", "Alpha", "charlie", "bravo"] {
        m.insert(inst(n, InstanceState::Ready));
    }
    let saved: Vec<Instance> = m.values().clone();
    let again = from_instances(saved);
    assert_eq!(names(&again), names(&m));
    assert_eq!(names(&again), vec!["Alpha", "bravo", "charlie", "delta"]);
}

#[test]
fn messages_around_instance_work() {
    let play = InstanceAction::Play {
        path: "/games/a".to_string(),
        executable: "/games/a/es".to_string(),
        name: "a".to_string(),
        debug: false,
    };
    let before = instance_messages_before(&play);
    assert_eq!(before.len(), 2);
    assert!(matches!(&before[0], Message::InstanceMessage(n, InstanceMessage::StateChanged(InstanceState::Playing)) if n == "a"));
    assert!(matches!(&before[1], Message::MusicMessage(MusicCommand::WeakPause)));
    let after = instance_messages_after(&play, WorkOutcome::Finished);
    assert!(matches!(&after[0], Message::MusicMessage(MusicCommand::WeakPlay)));
    assert!(matches!(&after[1], Message::InstanceMessage(n, InstanceMessage::StateChanged(InstanceState::Ready)) if n == "a"));

    let update = InstanceAction::Update(inst("u", InstanceState::Ready));
    let before = instance_messages_before(&update);
    assert!(matches!(&before[0], Message::InstanceMessage(n, InstanceMessage::StateChanged(InstanceState::Working(p))) if n == "u" && p.status == "Updating"));
    let mut newer = inst("u", InstanceState::Ready);
    newer.version = "2".to_string();
    let done = instance_messages_after(&update, WorkOutcome::Updated(newer));
    assert!(matches!(&done[0], Message::AddInstance(i) if i.version == "2"));
    let failed = instance_messages_after(&update, WorkOutcome::Failed);
    assert!(matches!(&failed[0], Message::InstanceMessage(n, InstanceMessage::StateChanged(InstanceState::Ready)) if n == "u"));

    let delete = InstanceAction::Delete { path: "/games/d".to_string(), name: "d".to_string() };
    assert!(instance_messages_before(&delete).is_empty());
    let gone = instance_messages_after(&delete, WorkOutcome::Finished);
    assert!(matches!(&gone[0], Message::RemoveInstance(Some(n)) if n == "d"));
    assert!(instance_messages_after(&InstanceAction::OpenFolder("/x".to_string()), WorkOutcome::Finished).is_empty());
}

#[test]
fn messages_after_plugin_work() {
    let e = EspimPlugin {
        installed: None,
        available: Some(AvailablePlugin {
            name: "p".to_string(),
            url: "u".to_string(),
            version: "1".to_string(),
            icon_url: None,
            author: "a".to_string(),
            description: "d".to_string(),
        }),
    };
    let r = plugin_messages_after(&"p".to_string(), &PluginAction::Install(e.clone()), e.clone());
    assert_eq!(r.len(), 1);
    assert!(matches!(&r[0], Message::PluginMessage(n, PluginMessage::WorkFinished(_)) if n == "p"));
    assert!(plugin_messages_after(&"p".to_string(), &PluginAction::Remove(e.clone()), e).is_empty());
}

#[test]
fn dialogs_of_the_settings_tab() {
    let d = move_dir_dialog_spec("/new".to_string(), 2);
    assert!(d.title.is_none());
    assert!(d.content.starts_with("Should ESLauncher move your instances to the new folder?"));
    assert!(d.content.contains("WARNING: Found 2 existing items"));
    let labels: Vec<&str> = d.buttons.iter().map(|b| b.0.as_str()).collect();
    assert_eq!(labels, vec!["Yes", "No", "Cancel"]);
    assert!(matches!(&d.buttons[0].1, Message::SettingsMessage(SettingsMessage::MoveInstallPath(p)) if p == "/new"));
    assert!(matches!(&d.buttons[1].1, Message::SettingsMessage(SettingsMessage::SetInstallPath(p)) if p == "/new"));
    assert!(matches!(&d.buttons[2].1, Message::Dummy));
    match dialog_button_message(d, 1) {
        Message::DialogClosed(m) => assert!(matches!(*m, Message::SettingsMessage(SettingsMessage::SetInstallPath(_)))),
        _ => panic!("expected the dialog to close"),
    }
    let quiet = move_dir_dialog_spec("/new".to_string(), 0);
    assert!(!quiet.content.contains("WARNING"));
    let p = move_in_progress_dialog_spec(1, 2, 3);
    assert_eq!(p.content, "Moving install dir, please be patient...\n6 items");
    assert!(p.buttons.is_empty());
    let done = move_done_dialog_spec(4, 5);
    assert_eq!(done.content, "Success!\n Moved 4 files, 5 folders");
    assert!(matches!(&done.buttons[0].1, Message::ReloadInstances));
    let failed = move_failed_dialog_spec("disk full");
    assert_eq!(failed.title.as_deref(), Some("Error"));
    assert_eq!(failed.content, "An error occured during the operation:\ndisk full");
}

#[test]
fn window_buttons() {
    assert_eq!(music_button(MusicState::Playing), (Icon::Pause, MusicCommand::Pause));
    assert_eq!(music_button(MusicState::Paused), (Icon::Play, MusicCommand::Play));
    assert_ne!(icon_glyph(Icon::Pause), icon_glyph(Icon::Play));
}

#[test]
fn settings_tab_buttons() {
    let default_dir = strs(&["d", "instances"]);
    assert!(reset_button(&strs(&["d", "instances"]), &default_dir, "/d/instances".to_string(), 0).is_none());
    match reset_button(&strs(&["elsewhere"]), &default_dir, "/d/instances".to_string(), 2) {
        Some((Icon::Reset, Message::OpenDialog(d))) => {
            assert!(d.title.is_none());
            assert!(d.content.contains("WARNING: Found 2 existing items"));
            assert!(matches!(&d.buttons[0].1,
                Message::SettingsMessage(SettingsMessage::MoveInstallPath(p)) if p == "/d/instances"));
        }
        _ => panic!("expected a reset button that opens the move dialog"),
    }
    assert!(matches!(folder_button(), (Icon::Folder, Message::SettingsMessage(SettingsMessage::RequestInstallPath))));
    assert_eq!(install_dir_label("/d/instances"), "Installing to /d/instances");
}

#[test]
fn the_open_dialog_is_shown() {
    let mut l = launcher();
    assert!(l.shown_dialog().is_none());
    l.dialog = Some(move_failed_dialog_spec("oops"));
    let shown = l.shown_dialog().unwrap();
    assert_eq!(shown.title.as_deref(), Some("Error"));
    assert_eq!(shown.content, "An error occured during the operation:\noops");
}

fn strs(v: &[&str]) -> Vec<String> {
    v.iter().map(|s| s.to_string()).collect()
}
