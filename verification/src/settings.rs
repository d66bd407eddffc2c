//! The launcher's settings: the music setting, the colour theme and the directory
//! the instances are installed to, and how the settings tab changes them.
//!
//! A theme is named by its name; which names exist is up to the caller, who knows
//! the themes that the window toolkit offers.

use vstd::prelude::*;
use crate::launcher::MusicState;
use crate::text::same_text;

verus! {

/// The colour theme: the system's, or one chosen by name.
pub enum SelectableTheme {
    Autodetect,
    Preset(String),
}

impl Default for SelectableTheme {
    fn default() -> (r: Self)
        ensures
            r is Autodetect,
    {
        SelectableTheme::Autodetect
    }
}

/// The theme that stands in for a saved theme name that no theme has.
pub open spec fn fallback_theme_name() -> Seq<char> {
    "Light"@
}

/// The theme that a saved setting names: none saved means the system's theme, a
/// known name that theme, and an unknown name the fallback theme.
pub open spec fn theme_from_spec(value: Option<Seq<char>>, known: Seq<Seq<char>>) -> Option<Seq<char>> {
    match value {
        None => None,
        Some(s) => if known.contains(s) {
            Some(s)
        } else {
            Some(fallback_theme_name())
        },
    }
}

/// The names in `v`, as sequences of characters.
pub open spec fn names_of(v: Seq<String>) -> Seq<Seq<char>> {
    v.map_values(|k: String| k@)
}

/// The theme's name, or `None` for the system's theme.
pub open spec fn theme_name_spec(t: SelectableTheme) -> Option<Seq<char>> {
    match t {
        SelectableTheme::Autodetect => None,
        SelectableTheme::Preset(n) => Some(n@),
    }
}

impl SelectableTheme {
    /// Reads a saved theme setting; `known` are the names of the themes there are.
    pub fn from(value: Option<String>, known: &Vec<String>) -> (r: Self)
        ensures
            theme_name_spec(r) == theme_from_spec(
                match value {
                    Some(s) => Some(s@),
                    None => None,
                },
                names_of(known@),
            ),
    {
        match value {
            None => SelectableTheme::Autodetect,
            Some(s) => {
                let ghost names = names_of(known@);
                let mut i: usize = 0;
                while i < known.len()
                    invariant
                        i <= known.len(),
                        names == names_of(known@),
                        value == Some(s),
                        forall|j: int| 0 <= j < i ==> names[j] != s@,
                    decreases known.len() - i,
                {
                    if same_text(known[i].as_str(), s.as_str()) {
                        proof {
                            assert(names.len() == known.len());
                            assert(names[i as int] == s@);
                            assert(names.contains(s@));
                        }
                        return SelectableTheme::Preset(s);
                    }
                    i = i + 1;
                }
                proof {
                    reveal_strlit("Light");
                }
                SelectableTheme::Preset(String::from_str("Light"))
            },
        }
    }

    /// The name under which the theme is saved; `None` for the system's theme.
    pub fn name(&self) -> (r: Option<String>)
        ensures
            match r {
                Some(s) => theme_name_spec(*self) == Some(s@),
                None => theme_name_spec(*self) is None,
            },
    {
        match self {
            SelectableTheme::Autodetect => None,
            SelectableTheme::Preset(n) => Some(n.clone()),
        }
    }

    /// The label shown in the theme picker.
    pub fn label(&self) -> (r: String)
        ensures
            r@ == match *self {
                SelectableTheme::Autodetect => "Detect from System"@,
                SelectableTheme::Preset(n) => n@,
            },
    {
        match self {
            SelectableTheme::Autodetect => String::from_str("Detect from System"),
            SelectableTheme::Preset(n) => n.clone(),
        }
    }
}

/// A theme saved under a known name reads back as the same theme, and the system's
/// theme reads back as itself.
pub proof fn lemma_theme_round_trip(t: SelectableTheme, known: Seq<Seq<char>>)
    requires
        match t {
            SelectableTheme::Autodetect => true,
            SelectableTheme::Preset(n) => known.contains(n@),
        },
    ensures
        theme_from_spec(theme_name_spec(t), known) == theme_name_spec(t),
{
}

/// The launcher's settings.
pub struct Settings {
    pub music_state: MusicState,
    pub theme: SelectableTheme,
    /// A theme shown while the user hovers over it in the picker; not saved.
    pub theme_preview: Option<SelectableTheme>,
    pub install_dir: String,
}

impl Settings {
    /// The settings used when none are saved: music playing, the system's theme, and
    /// `install_dir` (the `instances` directory in the launcher's data directory).
    pub fn with_install_dir(install_dir: String) -> (r: Self)
        ensures
            r.music_state == MusicState::Playing,
            r.theme is Autodetect,
            r.theme_preview is None,
            r.install_dir == install_dir,
    {
        Settings {
            music_state: MusicState::Playing,
            theme: SelectableTheme::Autodetect,
            theme_preview: None,
            install_dir,
        }
    }
}

pub enum SettingsMessage {
    ThemeSelected(SelectableTheme),
    ThemePreviewed(Option<SelectableTheme>),
    RequestInstallPath,
    SetInstallPath(String),
    MoveInstallPath(String),
}

/// What the settings tab asks of the launcher after a message.
pub enum SettingsAction {
    /// Ask the user for a folder; a chosen folder opens the dialog that asks whether
    /// to move the instances there.
    PickFolder,
    /// Reload the instances from the new install directory.
    ReloadInstances,
    /// Move the install directory to this folder, reporting progress in a dialog.
    MoveInstallDir(String),
    /// Save the settings.
    Save,
}

/// The settings after a message of the settings tab: a new install directory is
/// taken, a chosen theme replaces the theme and ends the preview, a previewed theme
/// is only shown.
pub open spec fn settings_updated(s: Settings, message: SettingsMessage) -> Settings {
    match message {
        SettingsMessage::SetInstallPath(p) => Settings { install_dir: p, ..s },
        SettingsMessage::ThemeSelected(t) => Settings { theme: t, theme_preview: None, ..s },
        SettingsMessage::ThemePreviewed(t) => Settings { theme_preview: t, ..s },
        _ => s,
    }
}

/// What the settings tab asks for after a message: a folder to be picked, the
/// instances reloaded from a new install directory, the install directory moved,
/// or (after a theme change) the settings saved.
pub open spec fn settings_action(message: SettingsMessage) -> SettingsAction {
    match message {
        SettingsMessage::RequestInstallPath => SettingsAction::PickFolder,
        SettingsMessage::SetInstallPath(_) => SettingsAction::ReloadInstances,
        SettingsMessage::MoveInstallPath(p) => SettingsAction::MoveInstallDir(p),
        _ => SettingsAction::Save,
    }
}

/// Applies a message of the settings tab (see [`settings_updated`] and
/// [`settings_action`]).
pub fn settings_update(settings: &mut Settings, message: SettingsMessage) -> (r: SettingsAction)
    ensures
        *final(settings) == settings_updated(*old(settings), message),
        r == settings_action(message),
{
    match message {
        SettingsMessage::RequestInstallPath => SettingsAction::PickFolder,
        SettingsMessage::SetInstallPath(p) => {
            settings.install_dir = p;
            SettingsAction::ReloadInstances
        },
        SettingsMessage::MoveInstallPath(p) => SettingsAction::MoveInstallDir(p),
        SettingsMessage::ThemeSelected(t) => {
            settings.theme_preview = None;
            settings.theme = t;
            SettingsAction::Save
        },
        SettingsMessage::ThemePreviewed(t) => {
            settings.theme_preview = t;
            SettingsAction::Save
        },
    }
}

/// `p` is a prefix of `s`, component by component.
pub open spec fn is_component_prefix(p: Seq<Seq<char>>, s: Seq<Seq<char>>) -> bool {
    p.len() <= s.len() && s.subrange(0, p.len() as int) =~= p
}

/// Appends the components of `src` from position `from` on to `out`.
fn append_components(out: &mut Vec<String>, src: &Vec<String>, from: usize)
    requires
        from <= src.len(),
    ensures
        final(out).deep_view() == old(out).deep_view() + src.deep_view().skip(from as int),
{
    let ghost start = out.deep_view();
    let mut j: usize = from;
    while j < src.len()
        invariant
            from <= j <= src.len(),
            out.deep_view() =~= start + src.deep_view().subrange(from as int, j as int),
        decreases src.len() - j,
    {
        let ghost before = out.deep_view();
        out.push(src[j].clone());
        assert(out.deep_view() =~= before.push(src.deep_view()[j as int]));
        j = j + 1;
    }
    assert(src.deep_view().subrange(from as int, src.len() as int) =~= src.deep_view().skip(from as int));
}

/// Where an instance's files are once the install directory has moved to `dest`,
/// all paths given as their components: the instance directory is `dest` joined
/// with the directory's name (its last component); an executable that lay inside
/// the instance directory is put at `dest` joined with its path relative to the
/// instance directory (as the move does, without the directory's name in between),
/// and one that did not lie inside it stays where it was, which the third result
/// reports as `false`.
pub fn relocated(path: &Vec<String>, executable: &Vec<String>, dest: &Vec<String>) -> (r: (
    Vec<String>,
    Vec<String>,
    bool,
))
    requires
        path.len() > 0,
    ensures
        r.0.deep_view() == dest.deep_view().push(path.deep_view().last()),
        r.2 == is_component_prefix(path.deep_view(), executable.deep_view()),
        r.2 ==> r.1.deep_view() == dest.deep_view() + executable.deep_view().skip(path.len() as int),
        !r.2 ==> r.1.deep_view() == executable.deep_view(),
{
    let mut new_path: Vec<String> = Vec::new();
    append_components(&mut new_path, dest, 0);
    append_components(&mut new_path, path, path.len() - 1);
    proof {
        assert(dest.deep_view().skip(0) =~= dest.deep_view());
        assert(path.deep_view().skip(path.len() - 1) =~= seq![path.deep_view().last()]);
    }
    let mut inside = path.len() <= executable.len();
    let mut k: usize = 0;
    while inside && k < path.len()
        invariant
            inside ==> path.len() <= executable.len(),
            k <= path.len(),
            inside ==> forall|j: int| 0 <= j < k ==> path.deep_view()[j] == executable.deep_view()[j],
            !inside ==> !is_component_prefix(path.deep_view(), executable.deep_view()),
        decreases path.len() - k,
    {
        if !same_text(path[k].as_str(), executable[k].as_str()) {
            proof {
                assert(path.deep_view()[k as int] != executable.deep_view()[k as int]);
                if is_component_prefix(path.deep_view(), executable.deep_view()) {
                    assert(executable.deep_view().subrange(0, path.len() as int)[k as int]
                        == executable.deep_view()[k as int]);
                }
            }
            inside = false;
        }
        k = k + 1;
    }
    let mut new_exe: Vec<String> = Vec::new();
    if inside {
        assert(executable.deep_view().subrange(0, path.len() as int) =~= path.deep_view());
        append_components(&mut new_exe, dest, 0);
        append_components(&mut new_exe, executable, path.len());
        assert(dest.deep_view().skip(0) =~= dest.deep_view());
    } else {
        append_components(&mut new_exe, executable, 0);
        assert(executable.deep_view().skip(0) =~= executable.deep_view());
    }
    (new_path, new_exe, inside)
}

} // verus!
