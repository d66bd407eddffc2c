//! Instances: installed copies of Endless Sky, their kinds, their progress while
//! work is done on them, and what the launcher does when one of their buttons is
//! pressed.

use vstd::prelude::*;
use crate::install_frame::{InstanceSource, InstanceSourceType};
use crate::style::Icon;
use crate::text::{join_str, chars_of, string_of, decimal, u64_to_decimal, str_contains, ends_with,
    contains, is_suffix};

verus! {

/// The kind of build an instance is.
#[derive(Debug, Clone, Copy, PartialEq, Eq, Structural)]
pub enum InstanceType {
    MacOS,
    Windows,
    Linux,
    AppImage,
    Unknown,
}

/// Whether a release asset or build artifact called `name` is a build of kind `t`.
pub open spec fn archive_matches_spec(t: InstanceType, name: Seq<char>) -> bool {
    match t {
        InstanceType::MacOS => contains(name, "mac"@) || is_suffix(".dmg"@, name),
        InstanceType::Windows => contains(name, "win64"@),
        InstanceType::Linux => is_suffix(".tar.gz"@, name),
        InstanceType::AppImage => contains(name, ".AppImage"@),
        InstanceType::Unknown => false,
    }
}

/// Where the executable of a build of kind `t` lies inside the instance directory.
pub open spec fn executable_spec(t: InstanceType) -> Option<Seq<char>> {
    match t {
        InstanceType::MacOS => Some("Endless Sky.app/Contents/MacOS/Endless Sky"@),
        InstanceType::Windows => Some("Endless Sky.exe"@),
        InstanceType::Linux => Some("endless-sky"@),
        InstanceType::AppImage => Some("endless-sky.AppImage"@),
        InstanceType::Unknown => None,
    }
}

impl InstanceType {
    /// Whether the archive called `archive_name` is a build of this kind (see
    /// [`archive_matches_spec`]).
    pub fn archive_matches(self, archive_name: &str) -> (r: bool)
        ensures
            r == archive_matches_spec(self, archive_name@),
    {
        match self {
            InstanceType::MacOS => str_contains(archive_name, "mac") || ends_with(archive_name, ".dmg"),
            InstanceType::Windows => str_contains(archive_name, "win64"),
            InstanceType::Linux => ends_with(archive_name, ".tar.gz"),
            InstanceType::AppImage => str_contains(archive_name, ".AppImage"),
            InstanceType::Unknown => false,
        }
    }

    /// The executable's path inside the instance directory (see [`executable_spec`]).
    pub fn executable(self) -> (r: Option<&'static str>)
        ensures
            match r {
                Some(s) => executable_spec(self) == Some(s@),
                None => executable_spec(self) is None,
            },
    {
        match self {
            InstanceType::MacOS => Some("Endless Sky.app/Contents/MacOS/Endless Sky"),
            InstanceType::Windows => Some("Endless Sky.exe"),
            InstanceType::Linux => Some("endless-sky"),
            InstanceType::AppImage => Some("endless-sky.AppImage"),
            InstanceType::Unknown => None,
        }
    }
}

/// The progress of work on an instance: a status line, how much is done out of
/// how much, in which units, and whether the total is only an estimate.
pub struct Progress {
    pub status: String,
    pub done: Option<u32>,
    pub total: Option<u32>,
    pub units: Option<String>,
    pub total_approx: bool,
}

impl Clone for Progress {
    fn clone(&self) -> (r: Self)
        ensures
            r == *self,
    {
        Progress {
            status: self.status.clone(),
            done: self.done,
            total: self.total,
            units: match &self.units {
                Some(u) => Some(u.clone()),
                None => None,
            },
            total_approx: self.total_approx,
        }
    }
}

impl Default for Progress {
    /// An empty status with nothing known.
    fn default() -> (r: Self)
        ensures
            r.status@ == Seq::<char>::empty(),
            r.done is None,
            r.total is None,
            r.units is None,
            !r.total_approx,
    {
        Progress { status: String::new(), done: None, total: None, units: None, total_approx: false }
    }
}

impl Progress {
    /// A progress with the status line `status` and nothing else known.
    pub fn from(status: &str) -> (r: Self)
        ensures
            r.status@ == status@,
            r.done is None,
            r.total is None,
            r.units is None,
            !r.total_approx,
    {
        Progress {
            status: String::from_str(status),
            done: None,
            total: None,
            units: None,
            total_approx: false,
        }
    }

    /// The same progress with the total set.
    pub fn total(self, total: Option<u32>) -> (r: Self)
        ensures
            r == (Progress { total, ..self }),
    {
        let mut p = self;
        p.total = total;
        p
    }

    /// The same progress with the amount done set.
    pub fn done(self, done: Option<u32>) -> (r: Self)
        ensures
            r == (Progress { done, ..self }),
    {
        let mut p = self;
        p.done = done;
        p
    }

    /// The same progress with the units set.
    pub fn units(self, units: &str) -> (r: Self)
        ensures
            r.units matches Some(u) && u@ == units@,
            r.status == self.status,
            r.done == self.done,
            r.total == self.total,
            r.total_approx == self.total_approx,
    {
        let mut p = self;
        p.units = Some(String::from_str(units));
        p
    }

    /// The same progress with the estimate flag set.
    pub fn total_approx(self, total_approx: bool) -> (r: Self)
        ensures
            r == (Progress { total_approx, ..self }),
    {
        let mut p = self;
        p.total_approx = total_approx;
        p
    }

    /// The counter shown under the status line, `{done}/{~}{total}{units}`, where `~`
    /// marks an estimated total and `?` stands for an unknown one; `None` when
    /// nothing is known to be done.
    pub open spec fn spec_counter(&self) -> Option<Seq<char>> {
        match self.done {
            None => None,
            Some(d) => Some(
                decimal(d as nat) + "/"@ + (if self.total_approx {
                    "~"@
                } else {
                    Seq::<char>::empty()
                }) + (match self.total {
                    Some(t) => decimal(t as nat),
                    None => "?"@,
                }) + (match self.units {
                    Some(u) => u@,
                    None => Seq::<char>::empty(),
                }),
            ),
        }
    }

    /// The counter shown under the status line (see [`Progress::spec_counter`]).
    pub fn counter(&self) -> (r: Option<String>)
        ensures
            match r {
                Some(s) => self.spec_counter() == Some(s@),
                None => self.spec_counter() is None,
            },
    {
        match self.done {
            None => None,
            Some(d) => {
                let n = u64_to_decimal(d as u64);
                let mut s = join_str(n.as_str(), "/");
                if self.total_approx {
                    s = join_str(s.as_str(), "~");
                } else {
                    proof {
                        assert(s@ + Seq::<char>::empty() =~= s@);
                    }
                }
                let t = match self.total {
                    Some(t) => u64_to_decimal(t as u64),
                    None => String::from_str("?"),
                };
                s = join_str(s.as_str(), t.as_str());
                match &self.units {
                    Some(u) => {
                        s = join_str(s.as_str(), u.as_str());
                    },
                    None => {
                        proof {
                            assert(s@ + Seq::<char>::empty() =~= s@);
                        }
                    },
                }
                Some(s)
            },
        }
    }
}

/// What an instance is doing.
pub enum InstanceState {
    Playing,
    Working(Progress),
    Ready,
}

impl Clone for InstanceState {
    fn clone(&self) -> (r: Self)
        ensures
            r == *self,
    {
        match self {
            InstanceState::Playing => InstanceState::Playing,
            InstanceState::Working(p) => InstanceState::Working(p.clone()),
            InstanceState::Ready => InstanceState::Ready,
        }
    }
}

impl Default for InstanceState {
    /// A new instance is ready.
    fn default() -> (r: Self)
        ensures
            r is Ready,
    {
        InstanceState::Ready
    }
}

impl InstanceState {
    pub fn is_playing(&self) -> (r: bool)
        ensures
            r == self is Playing,
    {
        match self {
            InstanceState::Playing => true,
            _ => false,
        }
    }

    pub fn is_working(&self) -> (r: bool)
        ensures
            r == self is Working,
    {
        match self {
            InstanceState::Working(_) => true,
            _ => false,
        }
    }

    pub fn is_ready(&self) -> (r: bool)
        ensures
            r == self is Ready,
    {
        match self {
            InstanceState::Ready => true,
            _ => false,
        }
    }
}

/// An installed copy of Endless Sky.
pub struct Instance {
    pub state: InstanceState,
    pub path: String,
    pub executable: String,
    pub name: String,
    pub version: String,
    pub instance_type: InstanceType,
    pub source: InstanceSource,
}

impl Clone for Instance {
    fn clone(&self) -> (r: Self)
        ensures
            r == *self,
    {
        Instance {
            state: self.state.clone(),
            path: self.path.clone(),
            executable: self.executable.clone(),
            name: self.name.clone(),
            version: self.version.clone(),
            instance_type: self.instance_type,
            source: self.source.clone(),
        }
    }
}

/// A button of an instance was pressed, or its state changed.
pub enum InstanceMessage {
    Play(bool),
    Update,
    Folder,
    Delete,
    StateChanged(InstanceState),
}

/// The work that a message of an instance starts.
pub enum InstanceAction {
    Nothing,
    /// Run the executable (with `-d` when `debug`), logging into the instance
    /// directory; the instance is playing meanwhile.
    Play { path: String, executable: String, name: String, debug: bool },
    /// Update this instance; it is working meanwhile.
    Update(Instance),
    /// Show the instance directory.
    OpenFolder(String),
    /// Delete the instance directory, then forget the instance.
    Delete { path: String, name: String },
}

/// The instance after a message: only a change of state changes it.
pub open spec fn updated(i: Instance, message: InstanceMessage) -> Instance {
    match message {
        InstanceMessage::StateChanged(s) => Instance { state: s, ..i },
        _ => i,
    }
}

/// The work that a message starts on instance `i`.
pub open spec fn action_of(i: Instance, message: InstanceMessage) -> InstanceAction {
    match message {
        InstanceMessage::Play(debug) => InstanceAction::Play {
            path: i.path,
            executable: i.executable,
            name: i.name,
            debug,
        },
        InstanceMessage::Update => InstanceAction::Update(i),
        InstanceMessage::Folder => InstanceAction::OpenFolder(i.path),
        InstanceMessage::Delete => InstanceAction::Delete { path: i.path, name: i.name },
        InstanceMessage::StateChanged(_) => InstanceAction::Nothing,
    }
}

/// Each button acts on the instance it belongs to: deleting removes the instance
/// directory (the one the folder button opens, not the executable) and forgets the
/// instance by its name; playing runs that instance's executable with its directory;
/// updating updates that very instance. None of the buttons changes the instance;
/// only a state change does, and it changes nothing but the state.
pub proof fn lemma_actions_target_the_instance(i: Instance, debug: bool, s: InstanceState)
    ensures
        action_of(i, InstanceMessage::Delete) == (InstanceAction::Delete { path: i.path, name: i.name }),
        action_of(i, InstanceMessage::Folder) == InstanceAction::OpenFolder(i.path),
        action_of(i, InstanceMessage::Play(debug)) == (InstanceAction::Play {
            path: i.path,
            executable: i.executable,
            name: i.name,
            debug,
        }),
        action_of(i, InstanceMessage::Update) == InstanceAction::Update(i),
        action_of(i, InstanceMessage::StateChanged(s)) is Nothing,
        updated(i, InstanceMessage::Delete) == i,
        updated(i, InstanceMessage::Folder) == i,
        updated(i, InstanceMessage::Play(debug)) == i,
        updated(i, InstanceMessage::Update) == i,
        updated(i, InstanceMessage::StateChanged(s)) == (Instance { state: s, ..i }),
{
}

/// Which builds are of which kind: a name containing `mac` or ending in `.dmg` is a
/// macOS build, one containing `win64` a Windows build, one ending in `.tar.gz` a
/// Linux build, one containing `.AppImage` an AppImage; nothing is a build of
/// unknown kind.
pub proof fn lemma_build_kinds(name: Seq<char>)
    ensures
        contains(name, "mac"@) ==> archive_matches_spec(InstanceType::MacOS, name),
        is_suffix(".dmg"@, name) ==> archive_matches_spec(InstanceType::MacOS, name),
        contains(name, "win64"@) ==> archive_matches_spec(InstanceType::Windows, name),
        is_suffix(".tar.gz"@, name) ==> archive_matches_spec(InstanceType::Linux, name),
        contains(name, ".AppImage"@) ==> archive_matches_spec(InstanceType::AppImage, name),
        !archive_matches_spec(InstanceType::Unknown, name),
        archive_matches_spec(InstanceType::MacOS, name) ==> contains(name, "mac"@) || is_suffix(".dmg"@, name),
        archive_matches_spec(InstanceType::Windows, name) ==> contains(name, "win64"@),
        archive_matches_spec(InstanceType::Linux, name) ==> is_suffix(".tar.gz"@, name),
        archive_matches_spec(InstanceType::AppImage, name) ==> contains(name, ".AppImage"@),
{
}

impl Instance {
    pub fn new(
        path: String,
        executable: String,
        name: String,
        version: String,
        instance_type: InstanceType,
        source: InstanceSource,
        state: InstanceState,
    ) -> (r: Self)
        ensures
            r == (Instance { state, path, executable, name, version, instance_type, source }),
    {
        Instance { state, path, executable, name, version, instance_type, source }
    }

    /// Applies a message of this instance: a change of state is recorded, a pressed
    /// button starts its work and leaves the instance as it is. The messages sent
    /// as that work starts and ends are those of
    /// [`crate::launcher::instance_messages_before`] and
    /// [`crate::launcher::instance_messages_after`].
    pub fn update(&mut self, message: InstanceMessage) -> (r: InstanceAction)
        ensures
            *final(self) == updated(*old(self), message),
            r == action_of(*old(self), message),
    {
        match message {
            InstanceMessage::Play(debug) => InstanceAction::Play {
                path: self.path.clone(),
                executable: self.executable.clone(),
                name: self.name.clone(),
                debug,
            },
            InstanceMessage::Update => InstanceAction::Update(self.clone()),
            InstanceMessage::Folder => InstanceAction::OpenFolder(self.path.clone()),
            InstanceMessage::Delete => InstanceAction::Delete {
                path: self.path.clone(),
                name: self.name.clone(),
            },
            InstanceMessage::StateChanged(s) => {
                self.state = s;
                InstanceAction::Nothing
            },
        }
    }

    /// The version line: `Version: ` and at most the first 32 characters of the version.
    pub fn version_label(&self) -> (r: String)
        ensures
            r@ == "Version: "@ + (if self.version@.len() <= 32 {
                self.version@
            } else {
                self.version@.subrange(0, 32)
            }),
    {
        let c = chars_of(self.version.as_str());
        let mut shown: Vec<char> = Vec::new();
        let mut i: usize = 0;
        while i < c.len() && i < 32
            invariant
                i <= c.len(),
                i <= 32,
                shown@ =~= c@.subrange(0, i as int),
            decreases c.len() - i,
        {
            shown.push(c[i]);
            i = i + 1;
        }
        assert(c@ == self.version@);
        if c.len() <= 32 {
            assert(c@.subrange(0, i as int) =~= c@);
        }
        let v = string_of(&shown);
        join_str("Version: ", v.as_str())
    }

    /// The source line: `Source: {type} {identifier}`.
    pub fn source_label(&self) -> (r: String)
        ensures
            r@ == "Source: "@ + self.source.source_type.spec_label() + " "@ + self.source.identifier@,
    {
        let a = join_str("Source: ", self.source.source_type.label());
        let b = join_str(a.as_str(), " ");
        join_str(b.as_str(), self.source.identifier.as_str())
    }

    /// The buttons of an instance can be pressed only while it is ready.
    pub fn buttons_enabled(&self) -> (r: bool)
        ensures
            r == self.state is Ready,
    {
        self.state.is_ready()
    }

    /// What the row of this instance shows beside its labels: while it works, the
    /// status of the work in place of the buttons; otherwise its buttons (see
    /// [`InstanceControls`]).
    pub fn controls(&self) -> (r: InstanceControls)
        ensures
            match self.state {
                InstanceState::Working(p) => r matches InstanceControls::Working { status, bar, counter } && {
                    &&& status@ == p.status@
                    &&& bar == (match (p.done, p.total) {
                        (Some(d), Some(t)) => Some((d, t)),
                        _ => None,
                    })
                    &&& match counter {
                        Some(c) => p.spec_counter() == Some(c@),
                        None => p.spec_counter() is None,
                    }
                },
                _ => r == (InstanceControls::Buttons {
                    debug: (Icon::Debug, pressable(self.state, InstanceMessage::Play(true))),
                    play: (Icon::Play, pressable(self.state, InstanceMessage::Play(false))),
                    update: (Icon::Update, pressable(self.state, InstanceMessage::Update)),
                    folder: (Icon::Reset, InstanceMessage::Folder),
                    delete: (Icon::Delete, pressable(self.state, InstanceMessage::Delete)),
                }),
            },
    {
        match &self.state {
            InstanceState::Working(p) => {
                let bar = match (p.done, p.total) {
                    (Some(d), Some(t)) => Some((d, t)),
                    _ => None,
                };
                InstanceControls::Working { status: p.status.clone(), bar, counter: p.counter() }
            },
            _ => {
                let ready = self.state.is_ready();
                InstanceControls::Buttons {
                    debug: (Icon::Debug, if ready { Some(InstanceMessage::Play(true)) } else { None }),
                    play: (Icon::Play, if ready { Some(InstanceMessage::Play(false)) } else { None }),
                    update: (Icon::Update, if ready { Some(InstanceMessage::Update) } else { None }),
                    folder: (Icon::Reset, InstanceMessage::Folder),
                    delete: (Icon::Delete, if ready { Some(InstanceMessage::Delete) } else { None }),
                }
            },
        }
    }
}

/// The message a button sends when pressed, or `None` while the instance is not
/// ready and the button cannot be pressed.
pub open spec fn pressable(state: InstanceState, message: InstanceMessage) -> Option<InstanceMessage> {
    if state is Ready {
        Some(message)
    } else {
        None
    }
}

/// What the row of an instance shows beside its name, version and source.
pub enum InstanceControls {
    /// The buttons, each with its icon and the message it sends when pressed
    /// (`None` for a button that cannot be pressed); the folder button can always be
    /// pressed.
    Buttons {
        debug: (Icon, Option<InstanceMessage>),
        play: (Icon, Option<InstanceMessage>),
        update: (Icon, Option<InstanceMessage>),
        folder: (Icon, InstanceMessage),
        delete: (Icon, Option<InstanceMessage>),
    },
    /// Work in progress: its status line, a progress bar of the amount done out of
    /// the total when both are known, and its counter.
    Working { status: String, bar: Option<(u32, u32)>, counter: Option<String> },
}

/// The placeholder shown while an instance is being installed: named as requested,
/// its version the source's identifier, working with an empty progress.
pub fn provisional_instance(
    path: String,
    name: String,
    instance_type: InstanceType,
    source: InstanceSource,
) -> (r: Instance)
    ensures
        r.path == path,
        r.executable@ == "provisional"@,
        r.name == name,
        r.version == source.identifier,
        r.instance_type == instance_type,
        r.source == source,
        (r.state matches InstanceState::Working(p) && p.status@ == Seq::<char>::empty() && p.done is None
            && p.total is None && p.units is None && !p.total_approx),
{
    let version = source.identifier.clone();
    Instance::new(
        path,
        String::from_str("provisional"),
        name,
        version,
        instance_type,
        source,
        InstanceState::Working(Progress::default()),
    )
}

/// The message that reports progress on the instance `instance_name` to the launcher
/// window: that instance changes to working with this progress.
pub fn send_progress_message(instance_name: &str, progress: Progress) -> (r: (String, InstanceMessage))
    ensures
        r.0@ == instance_name@,
        r.1 == InstanceMessage::StateChanged(InstanceState::Working(progress)),
{
    (String::from_str(instance_name), InstanceMessage::StateChanged(InstanceState::Working(progress)))
}

} // verus!
