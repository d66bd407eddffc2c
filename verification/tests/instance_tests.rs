use eslauncher2::github::ReleaseAsset;
use eslauncher2::install::{
    check_new_version, choose_artifact, continuous_artifact_url, find_archive_path,
    needs_unpack_after_patch, normalize_source, patched_instance, plan_install, post_install,
    pr_number, update_strategy, BuildArtifact, InstallError, PostInstall, UpdateStrategy,
};
use eslauncher2::install_frame::{
    default_instance_type, find_blacklisted, InstallFrame, InstallFrameMessage,
    InstallFrameOutcome, InstanceSource, InstanceSourceType, Platform,
};
use eslauncher2::instance::{
    provisional_instance, send_progress_message, Instance, InstanceAction, InstanceControls,
    InstanceMessage, InstanceState, InstanceType, Progress,
};
use eslauncher2::style::Icon;

fn source(t: InstanceSourceType, id: &str) -> InstanceSource {
    InstanceSource { identifier: id.to_string(), source_type: t }
}

fn instance(name: &str, t: InstanceType, src: InstanceSource) -> Instance {
    Instance::new(
        format!("/games/{}", name),
        format!("/games/{}/endless-sky", name),
        name.to_string(),
        "v0.10.0".to_string(),
        t,
        src,
        InstanceState::Ready,
    )
}

fn asset(name: &str) -> ReleaseAsset {
    ReleaseAsset { id: 1, name: name.to_string(), browser_download_url: format!("https://dl/{}", name) }
}

#[test]
fn archives_match_their_kind() {
    assert!(InstanceType::MacOS.archive_matches("EndlessSky-macos.zip"));
    assert!(InstanceType::MacOS.archive_matches("Endless.Sky.dmg"));
    assert!(InstanceType::Windows.archive_matches("EndlessSky-win64-continuous.zip"));
    assert!(!InstanceType::Windows.archive_matches("EndlessSky-win32.zip"));
    assert!(InstanceType::Linux.archive_matches("endless-sky.tar.gz"));
    assert!(!InstanceType::Linux.archive_matches("endless-sky.tar.gz.sig"));
    assert!(InstanceType::AppImage.archive_matches("Endless_Sky-x86_64.AppImage"));
    assert!(!InstanceType::Unknown.archive_matches("anything"));
}

#[test]
fn executables_of_each_kind() {
    assert_eq!(InstanceType::MacOS.executable(), Some("Endless Sky.app/Contents/MacOS/Endless Sky"));
    assert_eq!(InstanceType::Windows.executable(), Some("Endless Sky.exe"));
    assert_eq!(InstanceType::Linux.executable(), Some("endless-sky"));
    assert_eq!(InstanceType::AppImage.executable(), Some("endless-sky.AppImage"));
    assert_eq!(InstanceType::Unknown.executable(), None);
}

#[test]
fn progress_builders_and_counter() {
    let p = Progress::from("Downloading").done(Some(5)).total(Some(10)).units("MB");
    assert_eq!(p.status, "Downloading");
    assert_eq!(p.counter(), Some("5/10MB".to_string()));
    let q = Progress::from("Patching").done(Some(3)).total(None).total_approx(true);
    assert_eq!(q.counter(), Some("3/~?".to_string()));
    let r = Progress::from("Extracting archive");
    assert_eq!(r.counter(), None);
    assert!(!r.total_approx && r.units.is_none() && r.total.is_none());
    let d = Progress::default();
    assert_eq!(d.status, "");
}

#[test]
fn instance_messages_and_actions() {
    let mut i = instance("main", InstanceType::Linux, source(InstanceSourceType::Continuous, ""));
    assert!(i.buttons_enabled());
    match i.update(InstanceMessage::Play(true)) {
        InstanceAction::Play { path, executable, name, debug } => {
            assert_eq!(path, "/games/main");
            assert_eq!(executable, "/games/main/endless-sky");
            assert_eq!(name, "main");
            assert!(debug);
        }
        _ => panic!("expected a play action"),
    }
    assert!(matches!(i.update(InstanceMessage::Folder), InstanceAction::OpenFolder(p) if p == "/games/main"));
    assert!(matches!(i.update(InstanceMessage::Delete), InstanceAction::Delete { name, .. } if name == "main"));
    assert!(matches!(i.update(InstanceMessage::Update), InstanceAction::Update(u) if u.name == "main"));
    assert!(i.state.is_ready());
    let (name, msg) = send_progress_message("main", Progress::from("Downloading"));
    assert_eq!(name, "main");
    assert!(matches!(i.update(msg), InstanceAction::Nothing));
    assert!(i.state.is_working());
    assert!(!i.buttons_enabled());
    assert!(matches!(i.update(InstanceMessage::StateChanged(InstanceState::Playing)), InstanceAction::Nothing));
    assert!(i.state.is_playing());
}

#[test]
fn instance_labels() {
    let mut i = instance("x", InstanceType::Windows, source(InstanceSourceType::PR, "4242"));
    assert_eq!(i.source_label(), "Source: PR 4242");
    assert_eq!(i.version_label(), "Version: v0.10.0");
    i.version = "0123456789abcdef0123456789abcdef0123456789".to_string();
    assert_eq!(i.version_label(), "Version: 0123456789abcdef0123456789abcdef");
}

#[test]
fn provisional_instances_are_working() {
    let p = provisional_instance(
        "/games/new".to_string(),
        "new".to_string(),
        InstanceType::AppImage,
        source(InstanceSourceType::Release, "v0.10.2"),
    );
    assert_eq!(p.executable, "provisional");
    assert_eq!(p.version, "v0.10.2");
    assert!(p.state.is_working());
}

#[test]
fn sources_are_normalized() {
    let pr = normalize_source(source(InstanceSourceType::PR, "#1234"));
    assert_eq!(pr.identifier, "1234");
    let release = normalize_source(source(InstanceSourceType::Release, "0.9.16"));
    assert_eq!(release.identifier, "v0.9.16");
    let again = normalize_source(release);
    assert_eq!(again.identifier, "v0.9.16");
    let cont = normalize_source(source(InstanceSourceType::Continuous, "#v"));
    assert_eq!(cont.identifier, "#v");
}

#[test]
fn the_first_matching_artifact_is_chosen() {
    let assets = vec![asset("EndlessSky-win64.zip"), asset("endless-sky.tar.gz"), asset("other.tar.gz")];
    let a = choose_artifact(assets, InstanceType::Linux).unwrap();
    assert_eq!(a.name, "endless-sky.tar.gz");
    let none = choose_artifact(vec![asset("x.zip")], InstanceType::AppImage);
    assert_eq!(none.err().map(|_| ()), Some(()));
    let builds = vec![BuildArtifact { file_name: "EndlessSky-win64.zip".to_string() }];
    assert!(choose_artifact(builds, InstanceType::Windows).is_ok());
    let unknown = choose_artifact(vec![asset("anything")], InstanceType::Unknown);
    assert!(matches!(unknown, Err(InstallError::NoMatchingArtifact)));
}

#[test]
fn what_happens_after_a_download() {
    assert_eq!(post_install(InstanceType::AppImage, "/x/a.AppImage", false), PostInstall::RenameToExecutable);
    assert_eq!(post_install(InstanceType::MacOS, "/x/Endless.Sky.dmg", true), PostInstall::ProcessDmg);
    assert_eq!(post_install(InstanceType::MacOS, "/x/mac.zip", true), PostInstall::Unpack { strip_toplevel: false });
    assert_eq!(post_install(InstanceType::Windows, "/x/win64.zip", false), PostInstall::Unpack { strip_toplevel: true });
}

#[test]
fn install_plans() {
    let plan = plan_install(InstanceType::Windows, source(InstanceSourceType::Release, "0.10.0")).unwrap();
    assert_eq!(plan.executable, "Endless Sky.exe");
    assert_eq!(plan.source.identifier, "v0.10.0");
    let refused = plan_install(InstanceType::Unknown, source(InstanceSourceType::Continuous, ""));
    assert!(matches!(refused, Err(InstallError::UnknownType)));
}

#[test]
fn pull_request_numbers() {
    assert_eq!(pr_number("4242"), Ok(4242));
    assert_eq!(pr_number("+7"), Ok(7));
    assert_eq!(pr_number("65536"), Err(InstallError::InvalidPrNumber));
    assert_eq!(pr_number("#12"), Err(InstallError::InvalidPrNumber));
}

#[test]
fn the_local_archive_is_found() {
    let files = vec![
        "/games/x/Endless Sky.exe".to_string(),
        "/games/x/EndlessSky-win64.zip".to_string(),
        "/games/x/EndlessSky-win64-old.zip".to_string(),
    ];
    assert_eq!(find_archive_path(&files, InstanceType::Windows), Ok("/games/x/EndlessSky-win64.zip".to_string()));
    assert_eq!(find_archive_path(&files, InstanceType::Linux), Err(InstallError::NoLocalArchive));
}

#[test]
fn update_strategies() {
    let c = instance("c", InstanceType::Linux, source(InstanceSourceType::Continuous, "abc"));
    assert_eq!(update_strategy(&c), Ok(UpdateStrategy::Incremental));
    let r = instance("r", InstanceType::Linux, source(InstanceSourceType::Release, "v1"));
    assert_eq!(update_strategy(&r), Ok(UpdateStrategy::CheckRelease));
    let p = instance("p", InstanceType::Linux, source(InstanceSourceType::PR, "99"));
    assert_eq!(update_strategy(&p), Ok(UpdateStrategy::CheckPr(99)));
    let bad = instance("b", InstanceType::Linux, source(InstanceSourceType::PR, "x"));
    assert_eq!(update_strategy(&bad), Err(InstallError::InvalidPrNumber));
    let unknown = instance("u", InstanceType::Unknown, source(InstanceSourceType::PR, "x"));
    assert_eq!(update_strategy(&unknown), Err(InstallError::UnknownType));
}

#[test]
fn updates_only_when_newer() {
    assert_eq!(check_new_version(&"v2".to_string(), &"v1".to_string()), Ok(()));
    assert_eq!(check_new_version(&"v1".to_string(), &"v1".to_string()), Err(InstallError::AlreadyLatest));
}

#[test]
fn continuous_patching() {
    assert_eq!(
        continuous_artifact_url("EndlessSky-win64.zip"),
        "https://ci.mcofficer.me/job/EndlessSky-continuous-bitar/lastBuild/artifact/EndlessSky-win64.zip"
    );
    assert!(needs_unpack_after_patch("/games/x/EndlessSky-win64.zip"));
    assert!(!needs_unpack_after_patch("/games/x/endless-sky.AppImage"));
    let i = instance("c", InstanceType::Linux, source(InstanceSourceType::Continuous, ""));
    let p = patched_instance(&i, "deadbeef".to_string());
    assert_eq!(p.version, "deadbeef");
    assert_eq!(p.name, "c");
}

#[test]
fn the_install_form() {
    let mut f = InstallFrame::default();
    assert!(!f.can_install());
    assert!(matches!(f.update(InstallFrameMessage::NameChanged("  ".to_string())), InstallFrameOutcome::Nothing));
    assert!(!f.can_install());
    assert!(matches!(
        f.update(InstallFrameMessage::NameChanged("a/b:c".to_string())),
        InstallFrameOutcome::RejectedName(':')
    ));
    assert_eq!(f.name, "  ");
    assert!(matches!(f.update(InstallFrameMessage::NameChanged("newest".to_string())), InstallFrameOutcome::Nothing));
    assert!(f.can_install());
    f.update(InstallFrameMessage::SourceTypeChanged(InstanceSourceType::PR));
    f.update(InstallFrameMessage::SourceIdentifierChanged("#77".to_string()));
    match f.update(InstallFrameMessage::StartInstallation(InstanceType::AppImage)) {
        InstallFrameOutcome::Install(req) => {
            assert_eq!(req.name, "newest");
            assert_eq!(req.instance_type, InstanceType::AppImage);
            assert_eq!(req.source.identifier, "#77");
            assert_eq!(req.source.source_type, InstanceSourceType::PR);
        }
        _ => panic!("expected an install request"),
    }
    assert_eq!(find_blacklisted("ok name"), None);
    assert_eq!(find_blacklisted("100%|x"), Some('|'));
}

#[test]
fn default_kinds_per_platform() {
    assert_eq!(default_instance_type(Platform::Windows), InstanceType::Windows);
    assert_eq!(default_instance_type(Platform::Linux), InstanceType::AppImage);
    assert_eq!(default_instance_type(Platform::MacOS), InstanceType::MacOS);
    assert_eq!(default_instance_type(Platform::Other), InstanceType::MacOS);
}

#[test]
fn instance_rows_show_buttons_or_work() {
    let src = source(InstanceSourceType::Continuous, "continuous");
    let mut i = instance("main", InstanceType::Linux, src);
    match i.controls() {
        InstanceControls::Buttons { debug, play, update, folder, delete } => {
            assert!(matches!(debug, (Icon::Debug, Some(InstanceMessage::Play(true)))));
            assert!(matches!(play, (Icon::Play, Some(InstanceMessage::Play(false)))));
            assert!(matches!(update, (Icon::Update, Some(InstanceMessage::Update))));
            assert!(matches!(folder, (Icon::Reset, InstanceMessage::Folder)));
            assert!(matches!(delete, (Icon::Delete, Some(InstanceMessage::Delete))));
        }
        _ => panic!("a ready instance shows its buttons"),
    }
    i.state = InstanceState::Playing;
    match i.controls() {
        InstanceControls::Buttons { debug, play, update, folder, delete } => {
            assert!(debug.1.is_none() && play.1.is_none() && update.1.is_none() && delete.1.is_none());
            assert!(matches!(folder, (Icon::Reset, InstanceMessage::Folder)));
        }
        _ => panic!("a playing instance shows disabled buttons"),
    }
    i.state = InstanceState::Working(Progress::from("Downloading").done(Some(5)).total(Some(10)).units("MB"));
    match i.controls() {
        InstanceControls::Working { status, bar, counter } => {
            assert_eq!(status, "Downloading");
            assert_eq!(bar, Some((5, 10)));
            assert_eq!(counter, Some("5/10MB".to_string()));
        }
        _ => panic!("a working instance shows its status in place of the buttons"),
    }
}
