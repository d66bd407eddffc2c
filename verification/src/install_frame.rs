//! The install form: the instance's name, where it comes from, and when it may be
//! installed.

use vstd::prelude::*;
use crate::instance::InstanceType;
use crate::text::chars_of;

verus! {

/// Characters that an instance name may not hold. This does not cover every case:
/// the install can still fail on particularly exotic characters.
pub open spec fn is_blacklisted(c: char) -> bool {
    c == '/' || c == '\\' || c == ':' || c == '*' || c == '?' || c == '"' || c == '<' || c == '>'
        || c == '|' || c == '%'
}

pub fn is_blacklisted_exec(c: char) -> (b: bool)
    ensures
        b == is_blacklisted(c),
{
    c == '/' || c == '\\' || c == ':' || c == '*' || c == '?' || c == '"' || c == '<' || c == '>'
        || c == '|' || c == '%'
}

/// `char::is_whitespace`: the characters with the Unicode `White_Space` property.
pub open spec fn is_whitespace(c: char) -> bool {
    ('\u{9}' <= c && c <= '\u{d}') || c == ' ' || c == '\u{85}' || c == '\u{a0}' || c == '\u{1680}'
        || ('\u{2000}' <= c && c <= '\u{200a}') || c == '\u{2028}' || c == '\u{2029}' || c
        == '\u{202f}' || c == '\u{205f}' || c == '\u{3000}'
}

pub fn is_whitespace_exec(c: char) -> (b: bool)
    ensures
        b == is_whitespace(c),
{
    ('\u{9}' <= c && c <= '\u{d}') || c == ' ' || c == '\u{85}' || c == '\u{a0}' || c == '\u{1680}'
        || ('\u{2000}' <= c && c <= '\u{200a}') || c == '\u{2028}' || c == '\u{2029}' || c
        == '\u{202f}' || c == '\u{205f}' || c == '\u{3000}'
}

/// Where an instance comes from.
#[derive(Debug, Clone, Copy, PartialEq, Eq, Structural)]
pub enum InstanceSourceType {
    Release,
    Continuous,
    PR,
}

impl InstanceSourceType {
    /// The name under which the source type is shown (its `Debug` rendering).
    pub open spec fn spec_label(self) -> Seq<char> {
        match self {
            InstanceSourceType::Release => "Release"@,
            InstanceSourceType::Continuous => "Continuous"@,
            InstanceSourceType::PR => "PR"@,
        }
    }

    pub fn label(self) -> (r: &'static str)
        ensures
            r@ == self.spec_label(),
    {
        match self {
            InstanceSourceType::Release => "Release",
            InstanceSourceType::Continuous => "Continuous",
            InstanceSourceType::PR => "PR",
        }
    }
}

/// A source type and the release tag, commit or pull request number it names.
pub struct InstanceSource {
    pub identifier: String,
    pub source_type: InstanceSourceType,
}

impl Clone for InstanceSource {
    fn clone(&self) -> (r: Self)
        ensures
            r == *self,
    {
        InstanceSource { identifier: self.identifier.clone(), source_type: self.source_type }
    }
}

impl Default for InstanceSource {
    /// The continuous build, with no identifier.
    fn default() -> (r: Self)
        ensures
            r.identifier@ == Seq::<char>::empty(),
            r.source_type == InstanceSourceType::Continuous,
    {
        InstanceSource { identifier: String::new(), source_type: InstanceSourceType::Continuous }
    }
}

/// The install form's contents.
pub struct InstallFrame {
    pub name: String,
    pub source: InstanceSource,
}

impl Default for InstallFrame {
    fn default() -> (r: Self)
        ensures
            r.name@ == Seq::<char>::empty(),
            r.source.identifier@ == Seq::<char>::empty(),
            r.source.source_type == InstanceSourceType::Continuous,
    {
        InstallFrame { name: String::new(), source: InstanceSource::default() }
    }
}

pub enum InstallFrameMessage {
    SourceTypeChanged(InstanceSourceType),
    NameChanged(String),
    SourceIdentifierChanged(String),
    StartInstallation(InstanceType),
}

/// An instance to install: its name, type and source.
pub struct InstallRequest {
    pub name: String,
    pub instance_type: InstanceType,
    pub source: InstanceSource,
}

/// What the form asks of the launcher after a message.
pub enum InstallFrameOutcome {
    Nothing,
    /// The new name was refused because of this character (the last offending one).
    RejectedName(char),
    /// Install this instance (into the install directory, under its name).
    Install(InstallRequest),
}

/// The position of the last blacklisted character of `s`.
pub open spec fn last_blacklisted(s: Seq<char>) -> Option<int>
    decreases s.len(),
{
    if s.len() == 0 {
        None
    } else if is_blacklisted(s.last()) {
        Some(s.len() - 1)
    } else {
        last_blacklisted(s.drop_last())
    }
}

proof fn lemma_last_blacklisted(s: Seq<char>)
    ensures
        match last_blacklisted(s) {
            Some(k) => 0 <= k < s.len() && is_blacklisted(s[k]) && forall|j: int|
                k < j < s.len() ==> !is_blacklisted(s[j]),
            None => forall|j: int| 0 <= j < s.len() ==> !is_blacklisted(s[j]),
        },
    decreases s.len(),
{
    if s.len() > 0 && !is_blacklisted(s.last()) {
        lemma_last_blacklisted(s.drop_last());
        assert forall|j: int| 0 <= j < s.len() - 1 implies s[j] == s.drop_last()[j] by {}
    }
}

/// The last blacklisted character of `name`, if there is one.
pub fn find_blacklisted(name: &str) -> (r: Option<char>)
    ensures
        match last_blacklisted(name@) {
            Some(k) => r == Some(name@[k]),
            None => r is None,
        },
{
    let c = chars_of(name);
    let mut k: usize = c.len();
    assert(c@.subrange(0, k as int) =~= c@);
    while k > 0
        invariant
            k <= c.len(),
            c@ == name@,
            last_blacklisted(c@) == last_blacklisted(c@.subrange(0, k as int)),
        decreases k,
    {
        assert(c@.subrange(0, k as int).drop_last() =~= c@.subrange(0, k - 1));
        if is_blacklisted_exec(c[k - 1]) {
            return Some(c[k - 1]);
        }
        k = k - 1;
    }
    None
}

/// A name is acceptable when it holds no blacklisted character.
pub proof fn lemma_accepted_names_are_clean(name: Seq<char>)
    ensures
        last_blacklisted(name) is None <==> forall|j: int|
            0 <= j < name.len() ==> !is_blacklisted(#[trigger] name[j]),
{
    lemma_last_blacklisted(name);
}

/// `s` holds a character that is not whitespace (`s.trim()` is not empty).
pub open spec fn has_visible(s: Seq<char>) -> bool {
    exists|i: int| 0 <= i < s.len() && !is_whitespace(#[trigger] s[i])
}

/// The form after a message: a new source type or identifier replaces the old one,
/// and a new name replaces the old one unless it holds a blacklisted character.
pub open spec fn form_updated(f: InstallFrame, message: InstallFrameMessage) -> InstallFrame {
    match message {
        InstallFrameMessage::StartInstallation(_) => f,
        InstallFrameMessage::SourceTypeChanged(t) => InstallFrame {
            source: InstanceSource { source_type: t, ..f.source },
            ..f
        },
        InstallFrameMessage::NameChanged(n) => match last_blacklisted(n@) {
            Some(_) => f,
            None => InstallFrame { name: n, ..f },
        },
        InstallFrameMessage::SourceIdentifierChanged(id) => InstallFrame {
            source: InstanceSource { identifier: id, ..f.source },
            ..f
        },
    }
}

/// What the form asks for after a message: starting an install asks to install the
/// named instance from the chosen source; a refused name reports its last
/// blacklisted character.
pub open spec fn form_outcome(f: InstallFrame, message: InstallFrameMessage) -> InstallFrameOutcome {
    match message {
        InstallFrameMessage::StartInstallation(t) => InstallFrameOutcome::Install(
            InstallRequest { name: f.name, instance_type: t, source: f.source },
        ),
        InstallFrameMessage::NameChanged(n) => match last_blacklisted(n@) {
            Some(k) => InstallFrameOutcome::RejectedName(n@[k]),
            None => InstallFrameOutcome::Nothing,
        },
        _ => InstallFrameOutcome::Nothing,
    }
}

impl InstallFrame {
    /// The install button is enabled once the name is more than whitespace.
    pub fn can_install(&self) -> (r: bool)
        ensures
            r == has_visible(self.name@),
    {
        let c = chars_of(self.name.as_str());
        let mut i: usize = 0;
        while i < c.len()
            invariant
                i <= c.len(),
                c@ == self.name@,
                forall|j: int| 0 <= j < i ==> is_whitespace(#[trigger] c@[j]),
            decreases c.len() - i,
        {
            if !is_whitespace_exec(c[i]) {
                assert(!is_whitespace(c@[i as int]));
                return true;
            }
            i = i + 1;
        }
        false
    }

    /// Applies a message of the form (see [`form_updated`] and [`form_outcome`]).
    pub fn update(&mut self, message: InstallFrameMessage) -> (r: InstallFrameOutcome)
        ensures
            *final(self) == form_updated(*old(self), message),
            r == form_outcome(*old(self), message),
    {
        match message {
            InstallFrameMessage::StartInstallation(t) => {
                InstallFrameOutcome::Install(
                    InstallRequest {
                        name: self.name.clone(),
                        instance_type: t,
                        source: self.source.clone(),
                    },
                )
            },
            InstallFrameMessage::SourceTypeChanged(t) => {
                self.source.source_type = t;
                InstallFrameOutcome::Nothing
            },
            InstallFrameMessage::NameChanged(n) => {
                match find_blacklisted(n.as_str()) {
                    Some(c) => InstallFrameOutcome::RejectedName(c),
                    None => {
                        self.name = n;
                        InstallFrameOutcome::Nothing
                    },
                }
            },
            InstallFrameMessage::SourceIdentifierChanged(id) => {
                self.source.identifier = id;
                InstallFrameOutcome::Nothing
            },
        }
    }
}

/// The system the launcher runs on.
#[derive(Debug, Clone, Copy, PartialEq, Eq, Structural)]
pub enum Platform {
    Windows,
    Linux,
    MacOS,
    Other,
}

/// The kind of build the install button installs on `platform`.
pub fn default_instance_type(platform: Platform) -> (r: InstanceType)
    ensures
        r == (match platform {
            Platform::Windows => InstanceType::Windows,
            Platform::Linux => InstanceType::AppImage,
            _ => InstanceType::MacOS,
        }),
{
    match platform {
        Platform::Windows => InstanceType::Windows,
        Platform::Linux => InstanceType::AppImage,
        _ => InstanceType::MacOS,
    }
}

} // verus!
