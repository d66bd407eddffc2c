//! The launcher window's own state: its tabs, the music, the instances it knows
//! (by name, in name order), and the texts of its dialogs.

use vstd::prelude::*;
use crate::instance::{Instance, InstanceAction, InstanceMessage, InstanceState, Progress, updated, action_of};
use crate::plugins::Plugin as EspimPlugin;
use crate::style::Icon;
use crate::text::{join_str, chars_of, decimal, u64_to_decimal, same_text};
use crate::install_frame::{
    InstallFrame, InstallFrameMessage, InstallFrameOutcome, InstanceSourceType, form_updated,
    form_outcome,
};
use crate::plugins_frame::{
    PluginsFrameState, PluginMessage, PluginAction, Plugin as FramePlugin, first_plugin_named,
    plugin_action, plugin_updated,
};
use crate::settings::{
    Settings, SettingsMessage, SettingsAction, settings_update, settings_updated, settings_action,
};

verus! {

/// The source of the messages that background work sends to the launcher window.
pub struct MessageReceiver {}

#[derive(Debug, Clone, Copy, PartialEq, Eq, Structural)]
pub enum Tab {
    Instances,
    Plugins,
    Settings,
}

#[derive(Debug, Clone, Copy, PartialEq, Eq, Structural)]
pub enum MusicCommand {
    /// Pause the music (the user asked to).
    Pause,
    /// Play the music (the user asked to).
    Play,
    /// Fade the music out while a game runs, without changing the setting.
    WeakPause,
    /// Fade the music back in after a game, if the setting says it plays.
    WeakPlay,
}

#[derive(Debug, Clone, Copy, PartialEq, Eq, Structural)]
pub enum MusicState {
    Playing,
    Paused,
}

impl Default for MusicState {
    fn default() -> (r: Self)
        ensures
            r == MusicState::Playing,
    {
        MusicState::Playing
    }
}

/// The music setting after a command: only the user's own commands change it.
pub open spec fn music_state_after_spec(cmd: MusicCommand, state: MusicState) -> MusicState {
    match cmd {
        MusicCommand::Pause => MusicState::Paused,
        MusicCommand::Play => MusicState::Playing,
        _ => state,
    }
}

pub fn music_state_after(cmd: MusicCommand, state: MusicState) -> (r: MusicState)
    ensures
        r == music_state_after_spec(cmd, state),
{
    match cmd {
        MusicCommand::Pause => MusicState::Paused,
        MusicCommand::Play => MusicState::Playing,
        _ => state,
    }
}

/// What the music player does with its sound.
#[derive(Debug, Clone, Copy, PartialEq, Eq, Structural)]
pub enum Fade {
    In,
    Out,
    Keep,
}

/// The music player's reaction to a command: its new state and the fade to run.
/// A weak pause fades out but keeps the state, so that the weak play that follows
/// fades back in only if the music was playing.
pub fn music_step(state: MusicState, cmd: MusicCommand) -> (r: (MusicState, Fade))
    ensures
        r.0 == music_state_after_spec(cmd, state),
        r.1 == (match cmd {
            MusicCommand::Pause => Fade::Out,
            MusicCommand::Play => Fade::In,
            MusicCommand::WeakPause => Fade::Out,
            MusicCommand::WeakPlay => if state == MusicState::Playing {
                Fade::In
            } else {
                Fade::Keep
            },
        }),
{
    match cmd {
        MusicCommand::Pause => (MusicState::Paused, Fade::Out),
        MusicCommand::Play => (MusicState::Playing, Fade::In),
        MusicCommand::WeakPause => (state, Fade::Out),
        MusicCommand::WeakPlay => if state == MusicState::Playing {
            (state, Fade::In)
        } else {
            (state, Fade::Keep)
        },
    }
}

/// A game run between a weak pause and a weak play leaves the music as it was.
pub proof fn lemma_weak_commands_keep_setting(state: MusicState)
    ensures
        music_state_after_spec(
            MusicCommand::WeakPlay,
            music_state_after_spec(MusicCommand::WeakPause, state),
        ) == state,
{
}

/// The music player queues the song again when it plays and has run out of sound.
pub fn should_queue_song(state: MusicState, sink_empty: bool) -> (r: bool)
    ensures
        r == (state == MusicState::Playing && sink_empty),
{
    state == MusicState::Playing && sink_empty
}

/// The order of names: lexicographic by character, a proper prefix first. On valid
/// UTF-8 this is the byte order in which `String`s compare.
pub open spec fn name_lt(a: Seq<char>, b: Seq<char>) -> bool
    decreases a.len(),
{
    if a.len() == 0 {
        b.len() > 0
    } else if b.len() == 0 {
        false
    } else if a[0] != b[0] {
        a[0] < b[0]
    } else {
        name_lt(a.drop_first(), b.drop_first())
    }
}

pub proof fn lemma_name_lt_irreflexive(a: Seq<char>)
    ensures
        !name_lt(a, a),
    decreases a.len(),
{
    if a.len() > 0 {
        lemma_name_lt_irreflexive(a.drop_first());
    }
}

pub proof fn lemma_name_lt_asymmetric(a: Seq<char>, b: Seq<char>)
    ensures
        name_lt(a, b) ==> !name_lt(b, a),
    decreases a.len(),
{
    if a.len() > 0 && b.len() > 0 && a[0] == b[0] {
        lemma_name_lt_asymmetric(a.drop_first(), b.drop_first());
    }
}

pub proof fn lemma_name_lt_transitive(a: Seq<char>, b: Seq<char>, c: Seq<char>)
    ensures
        name_lt(a, b) && name_lt(b, c) ==> name_lt(a, c),
    decreases a.len(),
{
    if a.len() > 0 && b.len() > 0 && c.len() > 0 {
        lemma_name_lt_transitive(a.drop_first(), b.drop_first(), c.drop_first());
    }
}

pub proof fn lemma_name_lt_total(a: Seq<char>, b: Seq<char>)
    ensures
        a != b ==> name_lt(a, b) || name_lt(b, a),
    decreases a.len(),
{
    if a.len() > 0 && b.len() > 0 && a[0] == b[0] {
        lemma_name_lt_total(a.drop_first(), b.drop_first());
        if a.drop_first() == b.drop_first() {
            assert(a =~= seq![a[0]] + a.drop_first());
            assert(b =~= seq![b[0]] + b.drop_first());
        }
    } else if a.len() == 0 && b.len() == 0 {
        assert(a =~= b);
    }
}

/// Compares two names in the order of [`name_lt`].
pub fn name_less(a: &str, b: &str) -> (r: bool)
    ensures
        r == name_lt(a@, b@),
{
    let x = chars_of(a);
    let y = chars_of(b);
    let mut i: usize = 0;
    assert(x@.skip(0) =~= x@);
    assert(y@.skip(0) =~= y@);
    while i < x.len() && i < y.len() && x[i] == y[i]
        invariant
            i <= x.len(),
            i <= y.len(),
            name_lt(x@, y@) == name_lt(x@.skip(i as int), y@.skip(i as int)),
        decreases x.len() - i,
    {
        assert(x@.skip(i as int).drop_first() =~= x@.skip(i + 1));
        assert(y@.skip(i as int).drop_first() =~= y@.skip(i + 1));
        i = i + 1;
    }
    assert(x@.skip(0) =~= x@);
    assert(y@.skip(0) =~= y@);
    if i == x.len() {
        i < y.len()
    } else if i == y.len() {
        false
    } else {
        x[i] < y[i]
    }
}

/// Every instance's name comes before the next one's: the names are sorted and unique.
pub open spec fn sorted(s: Seq<Instance>) -> bool {
    forall|i: int, j: int| 0 <= i < j < s.len() ==> name_lt(s[i].name@, s[j].name@)
}

/// The instance called `k` in `s`, if there is one (the first, were there several).
pub open spec fn lookup(s: Seq<Instance>, k: Seq<char>) -> Option<Instance>
    decreases s.len(),
{
    if s.len() == 0 {
        None
    } else if s[0].name@ == k {
        Some(s[0])
    } else {
        lookup(s.drop_first(), k)
    }
}

/// `s` with `x` put in the place of its name: replacing the instance of that name,
/// or inserted before the first instance whose name comes after it.
pub open spec fn inserted(s: Seq<Instance>, x: Instance) -> Seq<Instance>
    decreases s.len(),
{
    if s.len() == 0 {
        seq![x]
    } else if s[0].name@ == x.name@ {
        seq![x] + s.drop_first()
    } else if name_lt(x.name@, s[0].name@) {
        seq![x] + s
    } else {
        seq![s[0]] + inserted(s.drop_first(), x)
    }
}

/// `s` without the (first) instance called `k`.
pub open spec fn removed(s: Seq<Instance>, k: Seq<char>) -> Seq<Instance>
    decreases s.len(),
{
    if s.len() == 0 {
        s
    } else if s[0].name@ == k {
        s.drop_first()
    } else {
        seq![s[0]] + removed(s.drop_first(), k)
    }
}

proof fn lemma_sorted_tail(s: Seq<Instance>)
    requires
        sorted(s),
        s.len() > 0,
    ensures
        sorted(s.drop_first()),
        forall|j: int| 0 <= j < s.drop_first().len() ==> name_lt(s[0].name@, #[trigger] s.drop_first()[j].name@),
{
    assert forall|i: int, j: int| 0 <= i < j < s.drop_first().len() implies name_lt(
        s.drop_first()[i].name@,
        s.drop_first()[j].name@,
    ) by {
        assert(s.drop_first()[i] == s[i + 1]);
        assert(s.drop_first()[j] == s[j + 1]);
    }
    assert forall|j: int| 0 <= j < s.drop_first().len() implies name_lt(
        s[0].name@,
        #[trigger] s.drop_first()[j].name@,
    ) by {
        assert(s.drop_first()[j] == s[j + 1]);
    }
}

proof fn lemma_sorted_cons(x: Instance, t: Seq<Instance>)
    requires
        sorted(t),
        forall|j: int| 0 <= j < t.len() ==> name_lt(x.name@, #[trigger] t[j].name@),
    ensures
        sorted(seq![x] + t),
{
    let s = seq![x] + t;
    assert forall|i: int, j: int| 0 <= i < j < s.len() implies name_lt(s[i].name@, s[j].name@) by {
        assert(s[j] == t[j - 1]);
        if i > 0 {
            assert(s[i] == t[i - 1]);
        }
    }
}

/// Every instance of `inserted(s, x)` is `x` or an instance of `s`.
proof fn lemma_inserted_members(s: Seq<Instance>, x: Instance)
    ensures
        forall|j: int|
            0 <= j < inserted(s, x).len() ==> #[trigger] inserted(s, x)[j] == x || exists|i: int|
                0 <= i < s.len() && s[i] == inserted(s, x)[j],
    decreases s.len(),
{
    let r = inserted(s, x);
    if s.len() > 0 {
        if s[0].name@ == x.name@ {
            assert forall|j: int| 0 <= j < r.len() implies #[trigger] r[j] == x || exists|i: int|
                0 <= i < s.len() && s[i] == r[j] by {
                if j > 0 {
                    assert(s[j] == r[j]);
                }
            }
        } else if name_lt(x.name@, s[0].name@) {
            assert forall|j: int| 0 <= j < r.len() implies #[trigger] r[j] == x || exists|i: int|
                0 <= i < s.len() && s[i] == r[j] by {
                if j > 0 {
                    assert(s[j - 1] == r[j]);
                }
            }
        } else {
            let t = s.drop_first();
            lemma_inserted_members(t, x);
            assert forall|j: int| 0 <= j < r.len() implies #[trigger] r[j] == x || exists|i: int|
                0 <= i < s.len() && s[i] == r[j] by {
                if j == 0 {
                    assert(s[0] == r[0]);
                } else {
                    assert(r[j] == inserted(t, x)[j - 1]);
                    if inserted(t, x)[j - 1] != x {
                        let i = choose|i: int| 0 <= i < t.len() && t[i] == inserted(t, x)[j - 1];
                        assert(s[i + 1] == r[j]);
                    }
                }
            }
        }
    }
}

/// Putting an instance in keeps the names sorted.
pub proof fn lemma_inserted_sorted(s: Seq<Instance>, x: Instance)
    requires
        sorted(s),
    ensures
        sorted(inserted(s, x)),
    decreases s.len(),
{
    if s.len() > 0 {
        let t = s.drop_first();
        lemma_sorted_tail(s);
        if s[0].name@ == x.name@ {
            lemma_sorted_cons(x, t);
        } else if name_lt(x.name@, s[0].name@) {
            assert forall|j: int| 0 <= j < s.len() implies name_lt(x.name@, #[trigger] s[j].name@) by {
                if j > 0 {
                    lemma_name_lt_transitive(x.name@, s[0].name@, s[j].name@);
                }
            }
            lemma_sorted_cons(x, s);
        } else {
            lemma_name_lt_total(x.name@, s[0].name@);
            lemma_inserted_sorted(t, x);
            lemma_inserted_members(t, x);
            assert forall|j: int| 0 <= j < inserted(t, x).len() implies name_lt(
                s[0].name@,
                #[trigger] inserted(t, x)[j].name@,
            ) by {
                if inserted(t, x)[j] != x {
                    let i = choose|i: int| 0 <= i < t.len() && t[i] == inserted(t, x)[j];
                    assert(name_lt(s[0].name@, t[i].name@));
                }
            }
            lemma_sorted_cons(s[0], inserted(t, x));
        }
    }
}

/// Taking an instance out keeps the names sorted.
pub proof fn lemma_removed_sorted(s: Seq<Instance>, k: Seq<char>)
    requires
        sorted(s),
    ensures
        sorted(removed(s, k)),
        forall|j: int| 0 <= j < removed(s, k).len() ==> exists|i: int|
            0 <= i < s.len() && s[i] == #[trigger] removed(s, k)[j],
    decreases s.len(),
{
    if s.len() > 0 {
        let t = s.drop_first();
        lemma_sorted_tail(s);
        let r = removed(s, k);
        if s[0].name@ == k {
            assert forall|j: int| 0 <= j < r.len() implies exists|i: int|
                0 <= i < s.len() && s[i] == #[trigger] r[j] by {
                assert(s[j + 1] == r[j]);
            }
        } else {
            lemma_removed_sorted(t, k);
            assert forall|j: int| 0 <= j < removed(t, k).len() implies name_lt(
                s[0].name@,
                #[trigger] removed(t, k)[j].name@,
            ) by {
                let i = choose|i: int| 0 <= i < t.len() && t[i] == removed(t, k)[j];
            }
            lemma_sorted_cons(s[0], removed(t, k));
            assert forall|j: int| 0 <= j < r.len() implies exists|i: int|
                0 <= i < s.len() && s[i] == #[trigger] r[j] by {
                if j == 0 {
                    assert(s[0] == r[0]);
                } else {
                    assert(r[j] == removed(t, k)[j - 1]);
                    let i = choose|i: int| 0 <= i < t.len() && t[i] == removed(t, k)[j - 1];
                    assert(s[i + 1] == r[j]);
                }
            }
        }
    }
}

/// In sorted instances, a name that comes before the first one is not there.
proof fn lemma_lookup_absent_before(s: Seq<Instance>, k: Seq<char>)
    requires
        sorted(s),
        s.len() > 0,
        name_lt(k, s[0].name@),
    ensures
        lookup(s, k) is None,
    decreases s.len(),
{
    lemma_name_lt_irreflexive(k);
    let t = s.drop_first();
    assert(s[0].name@ != k);
    if t.len() > 0 {
        lemma_sorted_tail(s);
        assert(name_lt(s[0].name@, t[0].name@));
        lemma_name_lt_transitive(k, s[0].name@, t[0].name@);
        lemma_lookup_absent_before(t, k);
    } else {
        assert(lookup(t, k) is None);
    }
}

/// Taking out an instance put in under a new name leaves the instances as they were.
pub proof fn lemma_remove_undoes_insert(s: Seq<Instance>, x: Instance)
    requires
        lookup(s, x.name@) is None,
    ensures
        removed(inserted(s, x), x.name@) == s,
    decreases s.len(),
{
    if s.len() == 0 {
        assert(seq![x].drop_first() =~= s);
    } else if name_lt(x.name@, s[0].name@) {
        assert((seq![x] + s).drop_first() =~= s);
    } else {
        let t = s.drop_first();
        lemma_remove_undoes_insert(t, x);
        assert((seq![s[0]] + inserted(t, x)).drop_first() =~= inserted(t, x));
        assert(seq![s[0]] + t =~= s);
    }
}

/// A write is read back: after putting an instance in, its name finds it.
pub proof fn lemma_lookup_inserted_same(s: Seq<Instance>, x: Instance)
    ensures
        lookup(inserted(s, x), x.name@) == Some(x),
    decreases s.len(),
{
    if s.len() > 0 && s[0].name@ != x.name@ && !name_lt(x.name@, s[0].name@) {
        lemma_inserted_members(s.drop_first(), x);
        lemma_lookup_inserted_same(s.drop_first(), x);
        assert((seq![s[0]] + inserted(s.drop_first(), x)).drop_first() =~= inserted(s.drop_first(), x));
    }
}

/// Putting an instance in leaves every other name as it was.
pub proof fn lemma_lookup_inserted_other(s: Seq<Instance>, x: Instance, k: Seq<char>)
    requires
        k != x.name@,
    ensures
        lookup(inserted(s, x), k) == lookup(s, k),
    decreases s.len(),
{
    let r = inserted(s, x);
    if s.len() == 0 {
        assert(r[0] == x);
        assert(r.drop_first() =~= Seq::<Instance>::empty());
        assert(lookup(r.drop_first(), k) is None);
    } else if s[0].name@ == x.name@ {
        assert(r[0] == x);
        assert(r.drop_first() =~= s.drop_first());
    } else if name_lt(x.name@, s[0].name@) {
        assert(r[0] == x);
        assert(r.drop_first() =~= s);
    } else {
        lemma_lookup_inserted_other(s.drop_first(), x, k);
        assert(r[0] == s[0]);
        assert(r.drop_first() =~= inserted(s.drop_first(), x));
    }
}

/// A removed name is gone (the names being unique).
pub proof fn lemma_lookup_removed_same(s: Seq<Instance>, k: Seq<char>)
    requires
        sorted(s),
    ensures
        lookup(removed(s, k), k) is None,
    decreases s.len(),
{
    if s.len() > 0 {
        let t = s.drop_first();
        lemma_sorted_tail(s);
        if s[0].name@ == k {
            if t.len() > 0 {
                lemma_lookup_absent_before(t, k);
            }
        } else {
            lemma_lookup_removed_same(t, k);
            assert((seq![s[0]] + removed(t, k)).drop_first() =~= removed(t, k));
        }
    }
}

/// Removing a name leaves every other name as it was.
pub proof fn lemma_lookup_removed_other(s: Seq<Instance>, k: Seq<char>, other: Seq<char>)
    requires
        sorted(s),
        other != k,
    ensures
        lookup(removed(s, k), other) == lookup(s, other),
    decreases s.len(),
{
    if s.len() > 0 {
        let t = s.drop_first();
        lemma_sorted_tail(s);
        if s[0].name@ != k {
            lemma_lookup_removed_other(t, k, other);
            assert((seq![s[0]] + removed(t, k)).drop_first() =~= removed(t, k));
        }
    }
}

/// The instances the launcher knows, keyed by name and kept in name order (the
/// order in which they are shown and saved).
pub struct InstancesMap {
    entries: Vec<Instance>,
}

impl InstancesMap {
    #[verifier::type_invariant]
    spec fn inv(self) -> bool {
        sorted(self.entries@)
    }

    /// The instances, in name order.
    pub closed spec fn view(&self) -> Seq<Instance> {
        self.entries@
    }

    pub fn new() -> (r: Self)
        ensures
            r@ == Seq::<Instance>::empty(),
    {
        InstancesMap { entries: Vec::new() }
    }

    /// The instances in name order: sorted by name, each name once.
    pub fn values(&self) -> (r: &Vec<Instance>)
        ensures
            r@ == self@,
            sorted(r@),
    {
        proof {
            use_type_invariant(self);
        }
        &self.entries
    }

    pub fn len(&self) -> (r: usize)
        ensures
            r == self@.len(),
    {
        self.entries.len()
    }

    pub fn is_empty(&self) -> (r: bool)
        ensures
            r == (self@.len() == 0),
    {
        self.entries.len() == 0
    }

    /// The instance called `name`.
    pub fn get(&self, name: &str) -> (r: Option<&Instance>)
        ensures
            match r {
                Some(i) => lookup(self@, name@) == Some(*i),
                None => lookup(self@, name@) is None,
            },
    {
        let mut k: usize = 0;
        assert(self.entries@.skip(0) =~= self.entries@);
        while k < self.entries.len()
            invariant
                k <= self.entries.len(),
                lookup(self.entries@, name@) == lookup(self.entries@.skip(k as int), name@),
            decreases self.entries.len() - k,
        {
            assert(self.entries@.skip(k as int).drop_first() =~= self.entries@.skip(k + 1));
            assert(self.entries@.skip(k as int)[0] == self.entries@[k as int]);
            if same_text(self.entries[k].name.as_str(), name) {
                return Some(&self.entries[k]);
            }
            k = k + 1;
        }
        None
    }

    /// Puts `instance` in under its name, replacing an instance of that name; returns
    /// the replaced one.
    #[verifier::rlimit(30)]
    pub fn insert(&mut self, instance: Instance) -> (r: Option<Instance>)
        ensures
            final(self)@ == inserted(old(self)@, instance),
            sorted(final(self)@),
            r == lookup(old(self)@, instance.name@),
    {
        proof {
            use_type_invariant(&*self);
        }
        let ghost s = self.entries@;
        let mut out: Vec<Instance> = Vec::new();
        let mut k: usize = 0;
        let mut replaced: Option<Instance> = None;
        let mut placed = false;
        assert(s.skip(0) =~= s);
        while k < self.entries.len()
            invariant
                s == self.entries@,
                sorted(s),
                k <= s.len(),
                !placed ==> inserted(s, instance) == out@ + inserted(s.skip(k as int), instance),
                !placed ==> lookup(s, instance.name@) == lookup(s.skip(k as int), instance.name@),
                placed ==> out@ == inserted(s, instance).subrange(0, out@.len() as int) && inserted(
                    s,
                    instance,
                ) == out@ + s.skip(k as int),
                placed ==> replaced == lookup(s, instance.name@),
                !placed ==> replaced is None,
            decreases s.len() - k,
        {
            let ghost rest = s.skip(k as int);
            assert(rest.drop_first() =~= s.skip(k + 1));
            assert(rest[0] == s[k as int]);
            if placed {
                out.push(self.entries[k].clone());
                assert(s.skip(k as int) =~= seq![s[k as int]] + s.skip(k + 1));
            } else if self.entries[k].name == instance.name {
                replaced = Some(self.entries[k].clone());
                assert(lookup(rest, instance.name@) == Some(s[k as int]));
                out.push(instance.clone());
                placed = true;
            } else if name_less(instance.name.as_str(), self.entries[k].name.as_str()) {
                proof {
                    lemma_sorted_tail_skip(s, k as int);
                    lemma_lookup_absent_before(rest, instance.name@);
                }
                out.push(instance.clone());
                out.push(self.entries[k].clone());
                placed = true;
                assert(rest =~= seq![s[k as int]] + s.skip(k + 1));
            } else {
                out.push(self.entries[k].clone());
            }
            k = k + 1;
        }
        if !placed {
            assert(s.skip(k as int) =~= Seq::<Instance>::empty());
            assert(lookup(s.skip(k as int), instance.name@) is None);
            out.push(instance);
        }
        proof {
            if placed {
                assert(s.skip(k as int) =~= Seq::<Instance>::empty());
            }
            assert(out@ =~= inserted(s, instance));
            lemma_inserted_sorted(s, instance);
        }
        self.entries = out;
        replaced
    }

    /// Takes the instance called `name` out; returns it.
    #[verifier::rlimit(30)]
    pub fn remove(&mut self, name: &str) -> (r: Option<Instance>)
        ensures
            final(self)@ == removed(old(self)@, name@),
            sorted(final(self)@),
            r == lookup(old(self)@, name@),
    {
        proof {
            use_type_invariant(&*self);
        }
        let ghost s = self.entries@;
        let mut out: Vec<Instance> = Vec::new();
        let mut k: usize = 0;
        let mut taken: Option<Instance> = None;
        assert(s.skip(0) =~= s);
        while k < self.entries.len()
            invariant
                s == self.entries@,
                k <= s.len(),
                taken is None ==> removed(s, name@) == out@ + removed(s.skip(k as int), name@),
                taken is None ==> lookup(s, name@) == lookup(s.skip(k as int), name@),
                taken is Some ==> removed(s, name@) == out@ + s.skip(k as int),
                taken is Some ==> taken == lookup(s, name@),
            decreases s.len() - k,
        {
            let ghost rest = s.skip(k as int);
            assert(rest.drop_first() =~= s.skip(k + 1));
            assert(rest[0] == s[k as int]);
            if taken.is_none() && same_text(self.entries[k].name.as_str(), name) {
                taken = Some(self.entries[k].clone());
            } else {
                out.push(self.entries[k].clone());
                assert(s.skip(k as int) =~= seq![s[k as int]] + s.skip(k + 1));
            }
            k = k + 1;
        }
        proof {
            assert(s.skip(k as int) =~= Seq::<Instance>::empty());
            assert(out@ =~= removed(s, name@));
            lemma_removed_sorted(s, name@);
        }
        self.entries = out;
        taken
    }

    /// Hands a message to the instance called `name`; `None` when there is none.
    pub fn update_instance(&mut self, name: &str, message: InstanceMessage) -> (r: Option<InstanceAction>)
        ensures
            match lookup(old(self)@, name@) {
                None => r is None && final(self)@ == old(self)@,
                Some(i) => {
                    &&& r == Some(action_of(i, message))
                    &&& final(self)@ == inserted(removed(old(self)@, name@), updated(i, message))
                },
            },
    {
        match self.remove(name) {
            None => {
                proof {
                    lemma_removed_absent(old(self)@, name@);
                }
                None
            },
            Some(mut inst) => {
                let action = inst.update(message);
                self.insert(inst);
                Some(action)
            },
        }
    }
}

proof fn lemma_sorted_tail_skip(s: Seq<Instance>, k: int)
    requires
        sorted(s),
        0 <= k <= s.len(),
    ensures
        sorted(s.skip(k)),
{
    assert forall|i: int, j: int| 0 <= i < j < s.skip(k).len() implies name_lt(
        s.skip(k)[i].name@,
        s.skip(k)[j].name@,
    ) by {
        assert(s.skip(k)[i] == s[i + k]);
        assert(s.skip(k)[j] == s[j + k]);
    }
}

/// Removing a name that is not there changes nothing.
proof fn lemma_removed_absent(s: Seq<Instance>, k: Seq<char>)
    requires
        lookup(s, k) is None,
    ensures
        removed(s, k) == s,
    decreases s.len(),
{
    if s.len() > 0 {
        lemma_removed_absent(s.drop_first(), k);
        assert(seq![s[0]] + s.drop_first() =~= s);
    }
}

/// What the launcher does when an instance is added (installed, updated, or placed
/// while it installs): it is put in under its name, and the instances are saved
/// when the added one is ready.
pub fn add_instance(instances: &mut InstancesMap, instance: Instance) -> (save: bool)
    ensures
        final(instances)@ == inserted(old(instances)@, instance),
        save == instance.state is Ready,
{
    let ready = instance.state.is_ready();
    instances.insert(instance);
    ready
}

/// What the launcher does when an instance is removed: it is forgotten and the
/// instances are saved; `None` changes nothing.
pub fn remove_instance(instances: &mut InstancesMap, name: Option<&str>) -> (save: bool)
    ensures
        match name {
            Some(n) => final(instances)@ == removed(old(instances)@, n@) && save,
            None => final(instances)@ == old(instances)@ && !save,
        },
{
    match name {
        Some(n) => {
            instances.remove(n);
            true
        },
        None => false,
    }
}

/// The instances loaded from the saved list, each put in by name in turn (so a later
/// instance of a name replaces an earlier one).
pub open spec fn loaded(list: Seq<Instance>) -> Seq<Instance>
    decreases list.len(),
{
    if list.len() == 0 {
        Seq::empty()
    } else {
        inserted(loaded(list.drop_last()), list.last())
    }
}

/// Putting in an instance whose name comes after all others appends it.
proof fn lemma_inserted_last(t: Seq<Instance>, x: Instance)
    requires
        sorted(t.push(x)),
    ensures
        inserted(t, x) == t.push(x),
    decreases t.len(),
{
    if t.len() > 0 {
        let s = t.push(x);
        assert(s[0] == t[0]);
        assert(s[t.len() as int] == x);
        assert(name_lt(t[0].name@, x.name@));
        lemma_name_lt_irreflexive(x.name@);
        lemma_name_lt_asymmetric(t[0].name@, x.name@);
        let rest = t.drop_first();
        assert forall|i: int, j: int| 0 <= i < j < rest.push(x).len() implies name_lt(
            rest.push(x)[i].name@,
            rest.push(x)[j].name@,
        ) by {
            assert(rest.push(x)[i] == s[i + 1]);
            assert(rest.push(x)[j] == s[j + 1]);
        }
        lemma_inserted_last(rest, x);
        assert(seq![t[0]] + rest.push(x) =~= t.push(x));
    } else {
        assert(seq![x] =~= t.push(x));
    }
}

/// What is saved is loaded back: the instances, saved in name order and loaded
/// again, are the same instances in the same order.
pub proof fn lemma_load_saved(s: Seq<Instance>)
    requires
        sorted(s),
    ensures
        loaded(s) == s,
    decreases s.len(),
{
    if s.len() > 0 {
        let init = s.drop_last();
        assert forall|i: int, j: int| 0 <= i < j < init.len() implies name_lt(
            init[i].name@,
            init[j].name@,
        ) by {
            assert(init[i] == s[i]);
            assert(init[j] == s[j]);
        }
        lemma_load_saved(init);
        assert(init.push(s.last()) =~= s);
        lemma_inserted_last(init, s.last());
    } else {
        assert(loaded(s) =~= s);
    }
}

/// The instances of `list` loaded into a map (see [`loaded`]).
pub fn from_instances(list: Vec<Instance>) -> (r: InstancesMap)
    ensures
        r@ == loaded(list@),
{
    let mut m = InstancesMap::new();
    let mut k: usize = 0;
    while k < list.len()
        invariant
            k <= list.len(),
            m@ == loaded(list@.subrange(0, k as int)),
        decreases list.len() - k,
    {
        assert(list@.subrange(0, k + 1).drop_last() =~= list@.subrange(0, k as int));
        m.insert(list[k].clone());
        k = k + 1;
    }
    assert(list@.subrange(0, k as int) =~= list@);
    m
}

/// The question asked before the install directory is changed; it warns when the
/// new directory already holds `items` entries, which moving would delete.
pub open spec fn move_dir_question(items: nat) -> Seq<char> {
    "Should ESLauncher move your instances to the new folder?"@ + if items > 0 {
        "\nWARNING: Found "@ + decimal(items) + " existing items in the directory.\nIf you select Yes, these will be deleted!\nIf you select No, ESLauncher2 might run into problems later."@
    } else {
        Seq::empty()
    }
}

pub fn move_dir_dialog_content(items: usize) -> (r: String)
    ensures
        r@ == move_dir_question(items as nat),
{
    let q = "Should ESLauncher move your instances to the new folder?";
    if items > 0 {
        let n = u64_to_decimal(items as u64);
        let a = join_str("\nWARNING: Found ", n.as_str());
        let b = join_str(
            a.as_str(),
            " existing items in the directory.\nIf you select Yes, these will be deleted!\nIf you select No, ESLauncher2 might run into problems later.",
        );
        join_str(q, b.as_str())
    } else {
        let r = String::from_str(q);
        proof {
            assert(r@ + Seq::<char>::empty() =~= r@);
        }
        r
    }
}

/// The text shown while the install directory is moved, with the number of entries
/// copied so far.
pub fn move_in_progress_content(dirs: u64, files: u64, symlinks: u64) -> (r: String)
    requires
        dirs + files + symlinks <= u64::MAX,
    ensures
        r@ == "Moving install dir, please be patient...\n"@ + decimal((dirs + files + symlinks) as nat)
            + " items"@,
{
    let n = u64_to_decimal(dirs + files + symlinks);
    let a = join_str("Moving install dir, please be patient...\n", n.as_str());
    join_str(a.as_str(), " items")
}

/// The text shown once the install directory has moved.
pub fn move_done_content(files: u64, dirs: u64) -> (r: String)
    ensures
        r@ == "Success!\n Moved "@ + decimal(files as nat) + " files, "@ + decimal(dirs as nat)
            + " folders"@,
{
    let f = u64_to_decimal(files);
    let d = u64_to_decimal(dirs);
    let a = join_str("Success!\n Moved ", f.as_str());
    let b = join_str(a.as_str(), " files, ");
    let c = join_str(b.as_str(), d.as_str());
    join_str(c.as_str(), " folders")
}

/// A dialog shown over the window: an optional title, its text, and its buttons,
/// each with the message it sends when pressed.
pub struct DialogSpec {
    pub title: Option<String>,
    pub content: String,
    pub buttons: Vec<(String, Message)>,
}

/// The messages the launcher window handles.
pub enum Message {
    InstallFrameMessage(InstallFrameMessage),
    InstanceMessage(String, InstanceMessage),
    PluginMessage(String, PluginMessage),
    SettingsMessage(SettingsMessage),
    AddInstance(Instance),
    RemoveInstance(Option<String>),
    ReloadInstances,
    Dummy,
    FontLoaded,
    MusicMessage(MusicCommand),
    TabSelected(Tab),
    PluginFrameLoaded(Vec<FramePlugin>),
    Log(String),
    OpenDialog(DialogSpec),
    DialogClosed(Box<Message>),
}

/// What the launcher window asks of its caller after a message.
pub enum LauncherAction {
    Nothing,
    /// What the install form asked for.
    InstallForm(InstallFrameOutcome),
    /// The work that a message started for the instance of that name.
    Instance(String, InstanceAction),
    /// A message came for an instance that does not exist (to be logged as an error).
    MissingInstance(String),
    /// The work that a message started for the plug-in of that name.
    Plugin(String, PluginAction),
    /// A message came for a plug-in that does not exist (to be logged as an error).
    MissingPlugin(String),
    /// What the settings tab asked for.
    Settings(SettingsAction),
    /// Save the instances.
    SaveInstances,
    /// Load the instances again from the install directory.
    ReloadInstances,
    /// Hand the command to the music player and save the settings.
    Music(MusicCommand),
    /// Handle this message next (the choice made in a dialog that was closed).
    Dispatch(Message),
}

/// The launcher window's state.
pub struct Launcher {
    pub install_frame: InstallFrame,
    pub instances: InstancesMap,
    pub plugins_frame: PluginsFrameState,
    pub settings: Settings,
    pub log_buffer: Vec<String>,
    pub active_tab: Tab,
    pub dialog: Option<DialogSpec>,
}

impl Launcher {
    /// The window as it opens: an empty install form, the instances loaded from the
    /// install directory, the plug-ins still loading, the instances tab in front, no
    /// log and no dialog.
    pub fn new(settings: Settings, instances: InstancesMap) -> (r: Self)
        ensures
            r.install_frame.name@ == Seq::<char>::empty(),
            r.install_frame.source.identifier@ == Seq::<char>::empty(),
            r.install_frame.source.source_type == InstanceSourceType::Continuous,
            r.instances == instances,
            r.plugins_frame is Loading,
            r.settings == settings,
            r.log_buffer@ == Seq::<String>::empty(),
            r.active_tab == Tab::Instances,
            r.dialog is None,
    {
        Launcher {
            install_frame: InstallFrame::default(),
            instances,
            plugins_frame: PluginsFrameState::Loading,
            settings,
            log_buffer: Vec::new(),
            active_tab: Tab::Instances,
            dialog: None,
        }
    }

    /// Handles one message. Each message changes at most the part of the window it
    /// is about, and says in its action what the caller is to do.
    #[verifier::rlimit(30)]
    pub fn update(&mut self, message: Message) -> (r: LauncherAction)
        ensures
            match message {
                Message::InstallFrameMessage(m) => {
                    &&& r == LauncherAction::InstallForm(form_outcome(old(self).install_frame, m))
                    &&& *final(self) == (Launcher {
                        install_frame: form_updated(old(self).install_frame, m),
                        ..*old(self)
                    })
                },
                Message::InstanceMessage(name, m) => match lookup(old(self).instances@, name@) {
                    None => {
                        &&& r == LauncherAction::MissingInstance(name)
                        &&& final(self).instances@ == old(self).instances@
                        &&& *final(self) == (Launcher { instances: final(self).instances, ..*old(self) })
                    },
                    Some(i) => {
                        &&& r == LauncherAction::Instance(name, action_of(i, m))
                        &&& final(self).instances@ == inserted(
                            removed(old(self).instances@, name@),
                            updated(i, m),
                        )
                        &&& *final(self) == (Launcher { instances: final(self).instances, ..*old(self) })
                    },
                },
                Message::PluginMessage(name, m) => match old(self).plugins_frame {
                    PluginsFrameState::Loading => r is Nothing && *final(self) == *old(self),
                    PluginsFrameState::Ready { plugins } => match first_plugin_named(plugins@, name@) {
                        None => r == LauncherAction::MissingPlugin(name) && *final(self) == *old(self),
                        Some(k) => {
                            &&& r == LauncherAction::Plugin(name, plugin_action(plugins@[k], m))
                            &&& final(self).plugins_frame matches PluginsFrameState::Ready { plugins: ps }
                            &&& ps@ == plugins@.update(k, plugin_updated(plugins@[k], m))
                            &&& *final(self) == (Launcher {
                                plugins_frame: final(self).plugins_frame,
                                ..*old(self)
                            })
                        },
                    },
                },
                Message::SettingsMessage(m) => {
                    &&& r == LauncherAction::Settings(settings_action(m))
                    &&& *final(self) == (Launcher {
                        settings: settings_updated(old(self).settings, m),
                        ..*old(self)
                    })
                },
                Message::AddInstance(i) => {
                    &&& final(self).instances@ == inserted(old(self).instances@, i)
                    &&& *final(self) == (Launcher { instances: final(self).instances, ..*old(self) })
                    &&& if i.state is Ready {
                        r is SaveInstances
                    } else {
                        r is Nothing
                    }
                },
                Message::RemoveInstance(Some(name)) => {
                    &&& final(self).instances@ == removed(old(self).instances@, name@)
                    &&& *final(self) == (Launcher { instances: final(self).instances, ..*old(self) })
                    &&& r is SaveInstances
                },
                Message::RemoveInstance(None) => r is Nothing && *final(self) == *old(self),
                Message::ReloadInstances => r is ReloadInstances && *final(self) == *old(self),
                Message::Dummy => r is Nothing && *final(self) == *old(self),
                Message::FontLoaded => r is Nothing && *final(self) == *old(self),
                Message::MusicMessage(cmd) => {
                    &&& r == LauncherAction::Music(cmd)
                    &&& *final(self) == (Launcher {
                        settings: Settings {
                            music_state: music_state_after_spec(cmd, old(self).settings.music_state),
                            ..old(self).settings
                        },
                        ..*old(self)
                    })
                },
                Message::TabSelected(t) => {
                    &&& r is Nothing
                    &&& *final(self) == (Launcher { active_tab: t, ..*old(self) })
                },
                Message::PluginFrameLoaded(ps) => {
                    &&& r is Nothing
                    &&& final(self).plugins_frame matches PluginsFrameState::Ready { plugins: q }
                    &&& q@ == ps@
                    &&& *final(self) == (Launcher { plugins_frame: final(self).plugins_frame, ..*old(self) })
                },
                Message::Log(line) => {
                    &&& r is Nothing
                    &&& final(self).log_buffer@ == old(self).log_buffer@.push(line)
                    &&& *final(self) == (Launcher { log_buffer: final(self).log_buffer, ..*old(self) })
                },
                Message::OpenDialog(d) => {
                    &&& r is Nothing
                    &&& *final(self) == (Launcher { dialog: Some(d), ..*old(self) })
                },
                Message::DialogClosed(m) => {
                    &&& r == LauncherAction::Dispatch(*m)
                    &&& *final(self) == (Launcher { dialog: None, ..*old(self) })
                },
            },
    {
        match message {
            Message::InstallFrameMessage(m) => {
                let o = self.install_frame.update(m);
                LauncherAction::InstallForm(o)
            },
            Message::InstanceMessage(name, m) => {
                match self.instances.update_instance(name.as_str(), m) {
                    None => LauncherAction::MissingInstance(name),
                    Some(a) => LauncherAction::Instance(name, a),
                }
            },
            Message::PluginMessage(name, m) => {
                if let PluginsFrameState::Loading = self.plugins_frame {
                    LauncherAction::Nothing
                } else {
                    match self.plugins_frame.update_plugin(name.as_str(), m) {
                        None => LauncherAction::MissingPlugin(name),
                        Some(a) => LauncherAction::Plugin(name, a),
                    }
                }
            },
            Message::SettingsMessage(m) => {
                let a = settings_update(&mut self.settings, m);
                LauncherAction::Settings(a)
            },
            Message::AddInstance(i) => {
                if add_instance(&mut self.instances, i) {
                    LauncherAction::SaveInstances
                } else {
                    LauncherAction::Nothing
                }
            },
            Message::RemoveInstance(name) => {
                match name {
                    Some(n) => {
                        self.instances.remove(n.as_str());
                        LauncherAction::SaveInstances
                    },
                    None => LauncherAction::Nothing,
                }
            },
            Message::ReloadInstances => LauncherAction::ReloadInstances,
            Message::Dummy => LauncherAction::Nothing,
            Message::FontLoaded => LauncherAction::Nothing,
            Message::MusicMessage(cmd) => {
                self.settings.music_state = music_state_after(cmd, self.settings.music_state);
                LauncherAction::Music(cmd)
            },
            Message::TabSelected(t) => {
                self.active_tab = t;
                LauncherAction::Nothing
            },
            Message::PluginFrameLoaded(ps) => {
                self.plugins_frame = PluginsFrameState::from(ps);
                LauncherAction::Nothing
            },
            Message::Log(line) => {
                self.log_buffer.push(line);
                LauncherAction::Nothing
            },
            Message::OpenDialog(d) => {
                self.dialog = Some(d);
                LauncherAction::Nothing
            },
            Message::DialogClosed(m) => {
                self.dialog = None;
                LauncherAction::Dispatch(*m)
            },
        }
    }
}

/// The music button: playing music shows the pause icon and pauses; paused music
/// shows the play icon and plays.
pub fn music_button(state: MusicState) -> (r: (Icon, MusicCommand))
    ensures
        r == (match state {
            MusicState::Playing => (Icon::Pause, MusicCommand::Pause),
            MusicState::Paused => (Icon::Play, MusicCommand::Play),
        }),
{
    match state {
        MusicState::Playing => (Icon::Pause, MusicCommand::Pause),
        MusicState::Paused => (Icon::Play, MusicCommand::Play),
    }
}

impl Launcher {
    /// The dialog shown over the window: the open one, with its title, its text
    /// and its buttons (see [`dialog_button_message`]), or none.
    pub fn shown_dialog(&self) -> (r: Option<&DialogSpec>)
        ensures
            match self.dialog {
                Some(d) => r == Some(&d),
                None => r is None,
            },
    {
        match &self.dialog {
            Some(d) => Some(d),
            None => None,
        }
    }
}

/// The label of the settings tab's install directory row.
pub fn install_dir_label(install_dir: &str) -> (r: String)
    ensures
        r@ == "Installing to "@ + install_dir@,
{
    join_str("Installing to ", install_dir)
}

/// The folder button of the settings tab: it asks for a new install directory.
pub fn folder_button() -> (r: (Icon, Message))
    ensures
        r == (Icon::Folder, Message::SettingsMessage(SettingsMessage::RequestInstallPath)),
{
    (Icon::Folder, Message::SettingsMessage(SettingsMessage::RequestInstallPath))
}

/// Whether two paths, given as their components, are the same path.
fn same_components(a: &Vec<String>, b: &Vec<String>) -> (r: bool)
    ensures
        r == (a.deep_view() == b.deep_view()),
{
    if a.len() != b.len() {
        assert(a.deep_view().len() != b.deep_view().len());
        return false;
    }
    let mut i: usize = 0;
    while i < a.len()
        invariant
            a.len() == b.len(),
            i <= a.len(),
            forall|k: int| 0 <= k < i ==> a.deep_view()[k] == b.deep_view()[k],
        decreases a.len() - i,
    {
        if !same_text(a[i].as_str(), b[i].as_str()) {
            assert(a.deep_view()[i as int] != b.deep_view()[i as int]);
            return false;
        }
        i = i + 1;
    }
    assert(a.deep_view() =~= b.deep_view());
    true
}

/// The reset button of the settings tab, shown only when the install directory
/// (given as its path components) is not the default one, `default_dir`: it opens
/// the dialog asking whether to move the instances back to `default_dir_text`,
/// which holds `default_items` entries.
pub fn reset_button(
    install_dir: &Vec<String>,
    default_dir: &Vec<String>,
    default_dir_text: String,
    default_items: usize,
) -> (r: Option<(Icon, Message)>)
    ensures
        install_dir.deep_view() == default_dir.deep_view() ==> r is None,
        install_dir.deep_view() != default_dir.deep_view() ==> (r matches Some((icon, Message::OpenDialog(d)))
            && icon == Icon::Reset && is_move_dir_dialog(d, default_dir_text, default_items as nat)),
{
    if same_components(install_dir, default_dir) {
        None
    } else {
        Some((Icon::Reset, Message::OpenDialog(move_dir_dialog_spec(default_dir_text, default_items))))
    }
}

/// `d` is the dialog asking whether to move the instances to `new_dir`, which
/// holds `items` entries: no title, the question, and the buttons "Yes" (move
/// them), "No" (only switch to the new directory) and "Cancel" (do nothing).
pub open spec fn is_move_dir_dialog(d: DialogSpec, new_dir: String, items: nat) -> bool {
    &&& d.title is None
    &&& d.content@ == move_dir_question(items)
    &&& d.buttons@.len() == 3
    &&& d.buttons@[0].0@ == "Yes"@
    &&& d.buttons@[0].1 == Message::SettingsMessage(SettingsMessage::MoveInstallPath(new_dir))
    &&& d.buttons@[1].0@ == "No"@
    &&& d.buttons@[1].1 == Message::SettingsMessage(SettingsMessage::SetInstallPath(new_dir))
    &&& d.buttons@[2].0@ == "Cancel"@
    &&& d.buttons@[2].1 == Message::Dummy
}

/// The message that button `i` of the dialog `d` sends when pressed: the dialog
/// closes and the button's own message follows.
pub fn dialog_button_message(d: DialogSpec, i: usize) -> (r: Message)
    requires
        i < d.buttons.len(),
    ensures
        r matches Message::DialogClosed(m) && *m == d.buttons@[i as int].1,
{
    let mut buttons = d.buttons;
    let (_, m) = buttons.remove(i);
    Message::DialogClosed(Box::new(m))
}

/// The dialog asking whether to move the instances to the new install directory
/// `new_dir`, which holds `items` entries (see [`is_move_dir_dialog`]).
pub fn move_dir_dialog_spec(new_dir: String, items: usize) -> (r: DialogSpec)
    ensures
        is_move_dir_dialog(r, new_dir, items as nat),
{
    let content = move_dir_dialog_content(items);
    let other = new_dir.clone();
    let buttons = vec![
        (String::from_str("Yes"), Message::SettingsMessage(SettingsMessage::MoveInstallPath(other))),
        (String::from_str("No"), Message::SettingsMessage(SettingsMessage::SetInstallPath(new_dir))),
        (String::from_str("Cancel"), Message::Dummy),
    ];
    proof {
        reveal_strlit("Yes");
        reveal_strlit("No");
        reveal_strlit("Cancel");
    }
    DialogSpec { title: None, content, buttons }
}

/// The dialog shown while the install directory is moved: the number of entries
/// copied so far, and no buttons.
pub fn move_in_progress_dialog_spec(dirs: u64, files: u64, symlinks: u64) -> (r: DialogSpec)
    requires
        dirs + files + symlinks <= u64::MAX,
    ensures
        r.title is None,
        r.content@ == "Moving install dir, please be patient...\n"@ + decimal((dirs + files + symlinks) as nat)
            + " items"@,
        r.buttons@.len() == 0,
{
    DialogSpec { title: None, content: move_in_progress_content(dirs, files, symlinks), buttons: Vec::new() }
}

/// The dialog shown once the install directory has moved; closing it reloads the
/// instances.
pub fn move_done_dialog_spec(files: u64, dirs: u64) -> (r: DialogSpec)
    ensures
        r.title is None,
        r.content@ == "Success!\n Moved "@ + decimal(files as nat) + " files, "@ + decimal(dirs as nat)
            + " folders"@,
        r.buttons@.len() == 1,
        r.buttons@[0].0@ == "Close"@,
        r.buttons@[0].1 == Message::ReloadInstances,
{
    let buttons = vec![(String::from_str("Close"), Message::ReloadInstances)];
    proof {
        reveal_strlit("Close");
    }
    DialogSpec { title: None, content: move_done_content(files, dirs), buttons }
}

/// The dialog shown when moving the install directory failed with `error`.
pub fn move_failed_dialog_spec(error: &str) -> (r: DialogSpec)
    ensures
        r.title matches Some(t) && t@ == "Error"@,
        r.content@ == "An error occured during the operation:\n"@ + error@,
        r.buttons@.len() == 1,
        r.buttons@[0].0@ == "Close"@,
        r.buttons@[0].1 == Message::Dummy,
{
    let buttons = vec![(String::from_str("Close"), Message::Dummy)];
    proof {
        reveal_strlit("Close");
    }
    DialogSpec {
        title: Some(String::from_str("Error")),
        content: join_str("An error occured during the operation:\n", error),
        buttons,
    }
}

/// How work started on an instance ended.
pub enum WorkOutcome {
    /// The work ran (a game was played, a folder deleted or not, a folder shown).
    Finished,
    /// The update produced this instance.
    Updated(Instance),
    /// The update failed.
    Failed,
}

/// The messages sent as work on an instance starts: a game being played makes the
/// instance playing and fades the music out; an update makes it work on
/// "Updating".
pub fn instance_messages_before(action: &InstanceAction) -> (r: Vec<Message>)
    ensures
        match *action {
            InstanceAction::Play { name, .. } => r@ == seq![
                Message::InstanceMessage(name, InstanceMessage::StateChanged(InstanceState::Playing)),
                Message::MusicMessage(MusicCommand::WeakPause),
            ],
            InstanceAction::Update(i) => {
                &&& r@.len() == 1
                &&& r@[0] matches Message::InstanceMessage(n, InstanceMessage::StateChanged(InstanceState::Working(p)))
                &&& n == i.name
                &&& p.status@ == "Updating"@
                &&& p.done is None && p.total is None && p.units is None && !p.total_approx
            },
            _ => r@.len() == 0,
        },
{
    let mut r: Vec<Message> = Vec::new();
    match action {
        InstanceAction::Play { name, .. } => {
            r.push(Message::InstanceMessage(name.clone(), InstanceMessage::StateChanged(InstanceState::Playing)));
            r.push(Message::MusicMessage(MusicCommand::WeakPause));
        },
        InstanceAction::Update(i) => {
            r.push(
                Message::InstanceMessage(
                    i.name.clone(),
                    InstanceMessage::StateChanged(InstanceState::Working(Progress::from("Updating"))),
                ),
            );
            proof {
                reveal_strlit("Updating");
            }
        },
        _ => {},
    }
    r
}

/// The messages sent once work on an instance has ended: after a game the music
/// fades back in and the instance is ready; an update puts in the updated instance,
/// or makes the instance ready again when it failed; a deleted instance is
/// forgotten, whether or not its folder could be removed.
pub fn instance_messages_after(action: &InstanceAction, outcome: WorkOutcome) -> (r: Vec<Message>)
    ensures
        match *action {
            InstanceAction::Play { name, .. } => r@ == seq![
                Message::MusicMessage(MusicCommand::WeakPlay),
                Message::InstanceMessage(name, InstanceMessage::StateChanged(InstanceState::Ready)),
            ],
            InstanceAction::Update(i) => match outcome {
                WorkOutcome::Updated(j) => r@ == seq![Message::AddInstance(j)],
                _ => r@ == seq![
                    Message::InstanceMessage(i.name, InstanceMessage::StateChanged(InstanceState::Ready)),
                ],
            },
            InstanceAction::Delete { name, .. } => r@ == seq![Message::RemoveInstance(Some(name))],
            _ => r@.len() == 0,
        },
{
    let mut r: Vec<Message> = Vec::new();
    match action {
        InstanceAction::Play { name, .. } => {
            r.push(Message::MusicMessage(MusicCommand::WeakPlay));
            r.push(Message::InstanceMessage(name.clone(), InstanceMessage::StateChanged(InstanceState::Ready)));
        },
        InstanceAction::Update(i) => match outcome {
            WorkOutcome::Updated(j) => r.push(Message::AddInstance(j)),
            _ => r.push(Message::InstanceMessage(i.name.clone(), InstanceMessage::StateChanged(InstanceState::Ready))),
        },
        InstanceAction::Delete { name, .. } => r.push(Message::RemoveInstance(Some(name.clone()))),
        _ => {},
    }
    r
}

/// The messages sent once a plug-in's work has ended: an install hands the plug-in
/// of that name the plug-in it produced, which makes it idle again.
pub fn plugin_messages_after(name: &String, action: &PluginAction, result: EspimPlugin) -> (r: Vec<Message>)
    ensures
        match *action {
            PluginAction::Install(_) => r@ == seq![Message::PluginMessage(*name, PluginMessage::WorkFinished(result))],
            _ => r@.len() == 0,
        },
{
    let mut r: Vec<Message> = Vec::new();
    match action {
        PluginAction::Install(_) => r.push(Message::PluginMessage(name.clone(), PluginMessage::WorkFinished(result))),
        _ => {},
    }
    r
}

} // verus!
