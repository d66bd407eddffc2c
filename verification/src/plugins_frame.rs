//! The plug-in tab: its list of plug-ins, what their buttons start, and where their
//! icons are cached.

use vstd::prelude::*;
use crate::plugins::Plugin as EspimPlugin;
use crate::text::{join_str, same_text};
use crate::style::Icon;

verus! {

/// What a plug-in of the tab is doing.
pub enum PluginState {
    Working,
    Idle { espim_plugin: EspimPlugin },
}

pub enum PluginMessage {
    Install,
    Remove,
    WorkFinished(EspimPlugin),
}

/// A plug-in as the tab shows it.
pub struct Plugin {
    pub state: PluginState,
    pub name: String,
    pub icon_bytes: Option<Vec<u8>>,
}

/// The work that a button of a plug-in starts.
pub enum PluginAction {
    Nothing,
    /// Download and install this plug-in; the plug-in is working meanwhile.
    Install(EspimPlugin),
    /// Delete this plug-in from the plug-in directory.
    Remove(EspimPlugin),
}

/// The plug-in after a message: an install makes an idle plug-in work, finished work
/// makes it idle again with the plug-in that the work produced.
pub open spec fn plugin_updated(p: Plugin, message: PluginMessage) -> Plugin {
    match message {
        PluginMessage::Install => match p.state {
            PluginState::Idle { .. } => Plugin { state: PluginState::Working, ..p },
            PluginState::Working => p,
        },
        PluginMessage::Remove => p,
        PluginMessage::WorkFinished(e) => Plugin { state: PluginState::Idle { espim_plugin: e }, ..p },
    }
}

/// The work a message starts: installing or removing happens only while idle.
pub open spec fn plugin_action(p: Plugin, message: PluginMessage) -> PluginAction {
    match message {
        PluginMessage::Install => match p.state {
            PluginState::Idle { espim_plugin } => PluginAction::Install(espim_plugin),
            PluginState::Working => PluginAction::Nothing,
        },
        PluginMessage::Remove => match p.state {
            PluginState::Idle { espim_plugin } => PluginAction::Remove(espim_plugin),
            PluginState::Working => PluginAction::Nothing,
        },
        PluginMessage::WorkFinished(_) => PluginAction::Nothing,
    }
}

impl Plugin {
    /// A plug-in of the tab for the plug-in `p`, listed under its name, idle.
    pub fn new(p: EspimPlugin, icon_bytes: Option<Vec<u8>>) -> (r: Self)
        requires
            p.wf(),
        ensures
            r.name@ == p.spec_name(),
            r.state == (PluginState::Idle { espim_plugin: p }),
            r.icon_bytes == icon_bytes,
    {
        let name = p.name().clone();
        Plugin { state: PluginState::Idle { espim_plugin: p }, name, icon_bytes }
    }

    pub fn update(&mut self, message: PluginMessage) -> (r: PluginAction)
        ensures
            *final(self) == plugin_updated(*old(self), message),
            r == plugin_action(*old(self), message),
    {
        match message {
            PluginMessage::Install => {
                match &self.state {
                    PluginState::Idle { espim_plugin } => {
                        let p = espim_plugin.clone();
                        self.state = PluginState::Working;
                        PluginAction::Install(p)
                    },
                    PluginState::Working => PluginAction::Nothing,
                }
            },
            PluginMessage::Remove => {
                match &self.state {
                    PluginState::Idle { espim_plugin } => PluginAction::Remove(espim_plugin.clone()),
                    PluginState::Working => PluginAction::Nothing,
                }
            },
            PluginMessage::WorkFinished(p) => {
                self.state = PluginState::Idle { espim_plugin: p };
                PluginAction::Nothing
            },
        }
    }
}

/// A plug-in keeps its name and icon through every message; installing makes an
/// idle plug-in work and starts the install of its plug-in, a working plug-in
/// ignores it, and finished work makes the plug-in idle with the plug-in the work
/// produced.
pub proof fn lemma_plugin_update(p: Plugin, message: PluginMessage)
    ensures
        plugin_updated(p, message).name == p.name,
        plugin_updated(p, message).icon_bytes == p.icon_bytes,
        (message is Install && p.state is Idle) ==> {
            &&& plugin_updated(p, message).state is Working
            &&& plugin_action(p, message) == PluginAction::Install(p.state->espim_plugin)
        },
        message is Install && p.state is Working ==> plugin_updated(p, message) == p
            && plugin_action(p, message) is Nothing,
        (message is WorkFinished) ==> plugin_updated(p, message).state == (PluginState::Idle {
            espim_plugin: message->WorkFinished_0,
        }),
{
}

/// Removing works on every idle plug-in, installed or not: it starts the removal of
/// exactly the plug-in the row shows and leaves the row as it is; a working plug-in
/// ignores it.
pub proof fn lemma_remove_starts_removal(p: Plugin, e: EspimPlugin)
    ensures
        p.state == (PluginState::Idle { espim_plugin: e }) ==> plugin_action(p, PluginMessage::Remove)
            == PluginAction::Remove(e),
        p.state is Working ==> plugin_action(p, PluginMessage::Remove) is Nothing,
        plugin_updated(p, PluginMessage::Remove) == p,
{
}

/// The line about the installed version: `Installed: {version}` (`unknown` where
/// the version is not known), or `Not installed`.
pub open spec fn installed_label(e: EspimPlugin) -> Seq<char> {
    match e.installed {
        Some(i) => "Installed: "@ + i.version@,
        None => "Not installed"@,
    }
}

/// The line about the available version: `Available: {version}`, or `Unavailable`.
pub open spec fn available_label(e: EspimPlugin) -> Seq<char> {
    match e.available {
        Some(a) => "Available: "@ + a.version@,
        None => "Unavailable"@,
    }
}

/// What the row of a plug-in shows below its name.
pub enum PluginRow {
    /// The installed and available versions, and the install and remove buttons,
    /// each with its icon and the message it sends when pressed (`None` for a
    /// button that cannot be pressed).
    Idle {
        installed: String,
        available: String,
        install: (Icon, Option<PluginMessage>),
        remove: (Icon, Option<PluginMessage>),
    },
    /// The plug-in is being worked on; no buttons are shown.
    Working { label: String },
}

impl Plugin {
    /// What the row of this plug-in shows: an idle plug-in can be installed when the
    /// index offers it and removed when it is installed.
    pub fn row(&self) -> (r: PluginRow)
        ensures
            match self.state {
                PluginState::Idle { espim_plugin: e } => r matches PluginRow::Idle { installed, available, install, remove } && {
                    &&& installed@ == installed_label(e)
                    &&& available@ == available_label(e)
                    &&& install == (Icon::Update, if e.available is Some {
                        Some(PluginMessage::Install)
                    } else {
                        None::<PluginMessage>
                    })
                    &&& remove == (Icon::Delete, if e.installed is Some {
                        Some(PluginMessage::Remove)
                    } else {
                        None::<PluginMessage>
                    })
                },
                PluginState::Working => r matches PluginRow::Working { label } && label@ == "Working..."@,
            },
    {
        proof {
            reveal_strlit("Installed: ");
            reveal_strlit("Not installed");
            reveal_strlit("Available: ");
            reveal_strlit("Unavailable");
            reveal_strlit("Working...");
        }
        match &self.state {
            PluginState::Idle { espim_plugin } => {
                let installed = match &espim_plugin.installed {
                    Some(i) => join_str("Installed: ", i.version.as_str()),
                    None => String::from_str("Not installed"),
                };
                let available = match &espim_plugin.available {
                    Some(a) => join_str("Available: ", a.version.as_str()),
                    None => String::from_str("Unavailable"),
                };
                let install = if espim_plugin.available.is_some() {
                    Some(PluginMessage::Install)
                } else {
                    None
                };
                let remove = if espim_plugin.installed.is_some() {
                    Some(PluginMessage::Remove)
                } else {
                    None
                };
                PluginRow::Idle { installed, available, install: (Icon::Update, install), remove: (Icon::Delete, remove) }
            },
            PluginState::Working => PluginRow::Working { label: String::from_str("Working...") },
        }
    }
}

/// A working plug-in cannot be installed again until its work has finished.
pub proof fn lemma_no_install_while_working(p: Plugin)
    requires
        p.state is Working,
    ensures
        plugin_action(p, PluginMessage::Install) is Nothing,
        plugin_updated(p, PluginMessage::Install) == p,
{
}

/// The plug-in tab: loading, then the list of plug-ins.
pub enum PluginsFrameState {
    Loading,
    Ready { plugins: Vec<Plugin> },
}

/// The position of the first plug-in called `name`.
pub open spec fn first_plugin_named(ps: Seq<Plugin>, name: Seq<char>) -> Option<int>
    decreases ps.len(),
{
    if ps.len() == 0 {
        None
    } else if ps[0].name@ == name {
        Some(0)
    } else {
        match first_plugin_named(ps.drop_first(), name) {
            Some(k) => Some(k + 1),
            None => None,
        }
    }
}

impl PluginsFrameState {
    /// The tab once the plug-ins are loaded.
    pub fn from(plugins: Vec<Plugin>) -> (r: Self)
        ensures
            r matches PluginsFrameState::Ready { plugins: ps } && ps@ == plugins@,
    {
        PluginsFrameState::Ready { plugins }
    }

    /// Hands a message to the first plug-in called `name`; `None` while loading or
    /// when no plug-in has that name.
    pub fn update_plugin(&mut self, name: &str, message: PluginMessage) -> (r: Option<PluginAction>)
        ensures
            match *old(self) {
                PluginsFrameState::Loading => r is None && *final(self) == *old(self),
                PluginsFrameState::Ready { plugins } => match first_plugin_named(plugins@, name@) {
                    None => r is None && *final(self) == *old(self),
                    Some(k) => {
                        &&& r == Some(plugin_action(plugins@[k], message))
                        &&& *final(self) matches PluginsFrameState::Ready { plugins: ps }
                        &&& ps@ == plugins@.update(k, plugin_updated(plugins@[k], message))
                    },
                },
            },
    {
        let mut state = PluginsFrameState::Loading;
        std::mem::swap(&mut state, self);
        let ghost start = state;
        let (next, r) = match state {
            PluginsFrameState::Loading => (PluginsFrameState::Loading, None),
            PluginsFrameState::Ready { plugins } => {
                let (ps, r) = update_first_named(plugins, name, message);
                (PluginsFrameState::Ready { plugins: ps }, r)
            },
        };
        *self = next;
        r
    }
}

proof fn lemma_first_plugin_named(ps: Seq<Plugin>, name: Seq<char>)
    ensures
        first_plugin_named(ps, name) matches Some(k) ==> 0 <= k < ps.len() && ps[k].name@ == name,
    decreases ps.len(),
{
    if ps.len() > 0 {
        lemma_first_plugin_named(ps.drop_first(), name);
    }
}

/// Hands a message to the first plug-in called `name` in `plugins`.
fn update_first_named(plugins: Vec<Plugin>, name: &str, message: PluginMessage) -> (r: (
    Vec<Plugin>,
    Option<PluginAction>,
))
    ensures
        match first_plugin_named(plugins@, name@) {
            None => r.1 is None && r.0 == plugins,
            Some(k) => {
                &&& r.1 == Some(plugin_action(plugins@[k], message))
                &&& r.0@ == plugins@.update(k, plugin_updated(plugins@[k], message))
            },
        },
{
    proof {
        lemma_first_plugin_named(plugins@, name@);
    }
    let ghost before = plugins@;
    let mut ps = plugins;
    let mut k: usize = 0;
    assert(before.skip(0) =~= before);
    while k < ps.len()
        invariant
            ps == plugins,
            ps@ == before,
            before == plugins@,
            k <= ps.len(),
            first_plugin_named(before, name@) == match first_plugin_named(before.skip(k as int), name@) {
                Some(j) => Some(j + k),
                None => None,
            },
        decreases ps.len() - k,
    {
        assert(before.skip(k as int).drop_first() =~= before.skip(k + 1));
        assert(before.skip(k as int)[0] == before[k as int]);
        if same_text(ps[k].name.as_str(), name) {
            let mut p = ps.remove(k);
            let action = p.update(message);
            ps.insert(k, p);
            assert(ps@ =~= before.update(k as int, plugin_updated(before[k as int], message)));
            return (ps, Some(action));
        }
        k = k + 1;
    }
    assert(before.skip(k as int) =~= Seq::<Plugin>::empty());
    (ps, None)
}

/// The text `text` with every match of the regular expression `pattern` replaced
/// by `replacement`, as `regex::Regex::replace_all` computes it; `None` when
/// `regex::Regex::new` rejects the pattern.
pub uninterp spec fn regex_replaced(pattern: Seq<char>, text: Seq<char>, replacement: Seq<char>) -> Option<
    Seq<char>,
>;

/// Compiles `pattern` with `regex::Regex::new` and applies `Regex::replace_all`.
/// Claimed: the result is [`regex_replaced`] of the three arguments.
#[verifier::external_body]
fn regex_replace_all(pattern: &str, text: &str, replacement: &str) -> (r: Option<String>)
    ensures
        match r {
            Some(s) => regex_replaced(pattern@, text@, replacement@) == Some(s@),
            None => regex_replaced(pattern@, text@, replacement@) is None,
        },
{
    match regex::Regex::new(pattern) {
        Ok(re) => Some(re.replace_all(text, replacement).into_owned()),
        Err(_) => None,
    }
}

/// The version under which a plug-in's icon is cached: the installed one, else the
/// available one.
pub open spec fn cached_version(p: EspimPlugin) -> Seq<char> {
    match p.installed {
        Some(i) => i.version@,
        None => match p.available {
            Some(a) => a.version@,
            None => Seq::empty(),
        },
    }
}

/// The pattern of characters not allowed in a cache file name: all but word
/// characters, `.` and `-`.
pub open spec fn cache_name_pattern() -> Seq<char> {
    "[^\\w.-]"@
}

/// The name of the file in the icon cache that holds a plug-in's icon:
/// `{name}-{version}` with every character that is not a word character, `.` or `-`
/// replaced by `_`.
pub fn cache_file_name(p: &EspimPlugin) -> (r: Option<String>)
    requires
        p.wf(),
    ensures
        match r {
            Some(s) => regex_replaced(
                cache_name_pattern(),
                p.spec_name() + "-"@ + cached_version(*p),
                "_"@,
            ) == Some(s@),
            None => regex_replaced(
                cache_name_pattern(),
                p.spec_name() + "-"@ + cached_version(*p),
                "_"@,
            ) is None,
        },
{
    let versions = p.versions();
    let version = match versions.0 {
        Some(v) => v,
        None => match versions.1 {
            Some(v) => v,
            None => {
                assert(false);
                String::new()
            },
        },
    };
    let a = join_str(p.name().as_str(), "-");
    let desired = join_str(a.as_str(), version.as_str());
    regex_replace_all("[^\\w.-]", desired.as_str(), "_")
}

} // verus!
