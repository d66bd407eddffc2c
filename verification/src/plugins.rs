//! Plug-in bookkeeping: the plug-ins that the index offers, the ones found on
//! disk, and how the two lists are paired up by name.

use vstd::prelude::*;
use crate::text::{join_str, chars_of};
use crate::unzip::{extract, extraction, item_views, UnzipError, ZipItem};

verus! {

/// A plug-in found in the Endless Sky plug-in directory.
pub struct InstalledPlugin {
    pub name: String,
    pub version: String,
}

/// The path of the entry `name` inside the directory `dir`: joined with a `/`,
/// unless `dir` is empty or already ends with one.
pub open spec fn child_path(dir: Seq<char>, name: Seq<char>) -> Seq<char> {
    if dir.len() == 0 || dir.last() == '/' {
        dir + name
    } else {
        dir + seq!['/'] + name
    }
}

impl InstalledPlugin {
    /// Where the plug-in lives: its directory inside the plug-in directory.
    pub fn path(&self, plugin_dir: &str) -> (r: String)
        ensures
            r@ == child_path(plugin_dir@, self.name@),
    {
        let dir = chars_of(plugin_dir);
        if dir.len() == 0 || dir[dir.len() - 1] == '/' {
            join_str(plugin_dir, self.name.as_str())
        } else {
            let d = join_str(plugin_dir, "/");
            proof {
                reveal_strlit("/");
            }
            join_str(d.as_str(), self.name.as_str())
        }
    }
}

/// A plug-in offered by the plug-in index.
pub struct AvailablePlugin {
    pub name: String,
    pub url: String,
    pub version: String,
    pub icon_url: Option<String>,
    pub author: String,
    pub description: String,
}

/// A plug-in as the launcher shows it: installed, available, or both.
pub struct Plugin {
    pub installed: Option<InstalledPlugin>,
    pub available: Option<AvailablePlugin>,
}

/// One entry of the plug-in directory as the file system reported it:
/// `name` is `None` when the entry could not be read or its name is not UTF-8,
/// `version` is `None` when its `.version` file could not be read.
pub struct PluginDirEntry {
    pub name: Option<String>,
    pub version: Option<String>,
}

/// A copy of an optional string.
fn copy_opt_string(s: &Option<String>) -> (r: Option<String>)
    ensures
        r == *s,
{
    match s {
        Some(x) => Some(x.clone()),
        None => None,
    }
}

impl Clone for InstalledPlugin {
    fn clone(&self) -> (r: Self)
        ensures
            r == *self,
    {
        InstalledPlugin { name: self.name.clone(), version: self.version.clone() }
    }
}

impl Clone for AvailablePlugin {
    fn clone(&self) -> (r: Self)
        ensures
            r == *self,
    {
        AvailablePlugin {
            name: self.name.clone(),
            url: self.url.clone(),
            version: self.version.clone(),
            icon_url: copy_opt_string(&self.icon_url),
            author: self.author.clone(),
            description: self.description.clone(),
        }
    }
}

impl Clone for Plugin {
    fn clone(&self) -> (r: Self)
        ensures
            r == *self,
    {
        Plugin {
            installed: match &self.installed {
                Some(i) => Some(i.clone()),
                None => None,
            },
            available: match &self.available {
                Some(a) => Some(a.clone()),
                None => None,
            },
        }
    }
}

/// The index of the first installed plug-in called `name`, if there is one.
pub open spec fn first_named(inst: Seq<InstalledPlugin>, name: Seq<char>) -> Option<int> {
    if exists|k: int| 0 <= k < inst.len() && inst[k].name@ == name {
        Some(
            choose|k: int|
                0 <= k < inst.len() && inst[k].name@ == name && forall|j: int|
                    0 <= j < k ==> inst[j].name@ != name,
        )
    } else {
        None
    }
}

/// The installed plug-ins that are not called `name`, in their order.
pub open spec fn without_named(inst: Seq<InstalledPlugin>, name: Seq<char>) -> Seq<InstalledPlugin>
    decreases inst.len(),
{
    if inst.len() == 0 {
        Seq::empty()
    } else {
        let rest = without_named(inst.drop_last(), name);
        if inst.last().name@ == name {
            rest
        } else {
            rest.push(inst.last())
        }
    }
}

/// The installed plug-ins that no available one claimed, each shown on its own.
pub open spec fn installed_only(inst: Seq<InstalledPlugin>) -> Seq<Plugin> {
    inst.map_values(|i: InstalledPlugin| Plugin { installed: Some(i), available: None })
}

/// The plug-in list built from the index and the plug-in directory: each available
/// plug-in in index order, paired with the first installed plug-in of the same name
/// (every installed plug-in of that name is then taken out of the running), and
/// after them the installed plug-ins that no available one claimed, in directory order.
pub open spec fn merged(avail: Seq<AvailablePlugin>, inst: Seq<InstalledPlugin>) -> Seq<Plugin>
    decreases avail.len(),
{
    if avail.len() == 0 {
        installed_only(inst)
    } else {
        let a = avail[0];
        seq![Plugin { installed: paired_with(inst, a.name@), available: Some(a) }] + merged(
            avail.drop_first(),
            unclaimed_after(inst, a.name@),
        )
    }
}

/// The installed plug-in that an available plug-in called `name` is paired with.
pub open spec fn paired_with(inst: Seq<InstalledPlugin>, name: Seq<char>) -> Option<InstalledPlugin> {
    match first_named(inst, name) {
        Some(k) => Some(inst[k]),
        None => None,
    }
}

/// The installed plug-ins still unclaimed once an available plug-in called `name`
/// has been paired.
pub open spec fn unclaimed_after(inst: Seq<InstalledPlugin>, name: Seq<char>) -> Seq<InstalledPlugin> {
    match first_named(inst, name) {
        Some(k) => without_named(inst, name),
        None => inst,
    }
}

proof fn lemma_merged_unfold(avail: Seq<AvailablePlugin>, inst: Seq<InstalledPlugin>)
    requires
        avail.len() > 0,
    ensures
        merged(avail, inst) == seq![Plugin { installed: paired_with(inst, avail[0].name@), available: Some(avail[0]) }]
            + merged(avail.drop_first(), unclaimed_after(inst, avail[0].name@)),
{
}

/// One step of the pairing loop: the `i`-th available plug-in moves from the part
/// still to merge to the part already merged.
proof fn lemma_merge_step(
    avail: Seq<AvailablePlugin>,
    i: int,
    inst: Seq<InstalledPlugin>,
    done: Seq<Plugin>,
    total: Seq<Plugin>,
)
    requires
        0 <= i < avail.len(),
        total == done + merged(avail.skip(i), inst),
    ensures
        total == done.push(Plugin { installed: paired_with(inst, avail[i].name@), available: Some(avail[i]) })
            + merged(avail.skip(i + 1), unclaimed_after(inst, avail[i].name@)),
{
    let rest = avail.skip(i);
    assert(rest[0] == avail[i]);
    assert(rest.drop_first() =~= avail.skip(i + 1));
    lemma_merged_unfold(rest, inst);
    let p = Plugin { installed: paired_with(inst, avail[i].name@), available: Some(avail[i]) };
    let tail = merged(avail.skip(i + 1), unclaimed_after(inst, avail[i].name@));
    assert(done + (seq![p] + tail) =~= done.push(p) + tail);
}

/// `p` holds an installed plug-in called `name`.
pub open spec fn has_installed_named(p: Plugin, name: Seq<char>) -> bool {
    match p.installed {
        Some(i) => i.name@ == name,
        None => false,
    }
}

impl Plugin {
    /// Every plug-in is installed, available, or both.
    pub open spec fn wf(&self) -> bool {
        self.installed is Some || self.available is Some
    }

    /// The name under which the plug-in is listed.
    pub open spec fn spec_name(&self) -> Seq<char> {
        match &self.available {
            Some(a) => a.name@,
            None => match &self.installed {
                Some(i) => i.name@,
                None => Seq::empty(),
            },
        }
    }

    /// The name under which the plug-in is listed: the index's name if the index
    /// offers it, else the name of its directory.
    pub fn name(&self) -> (r: &String)
        requires
            self.wf(),
        ensures
            r@ == self.spec_name(),
    {
        match &self.available {
            Some(a) => &a.name,
            None => match &self.installed {
                Some(i) => &i.name,
                None => {
                    assert(false);
                    &self.installed.as_ref().unwrap().name
                },
            },
        }
    }

    pub fn is_installed(&self) -> (r: bool)
        ensures
            r == self.installed is Some,
    {
        self.installed.is_some()
    }

    pub fn is_available(&self) -> (r: bool)
        ensures
            r == self.available is Some,
    {
        self.available.is_some()
    }

    /// The installed version and the available version, where there is one.
    pub open spec fn versions_spec(&self) -> (Option<String>, Option<String>) {
        (
            match self.installed {
                Some(i) => Some(i.version),
                None => None,
            },
            match self.available {
                Some(a) => Some(a.version),
                None => None,
            },
        )
    }

    /// The installed version and the available version, where there is one.
    pub fn versions(&self) -> (r: (Option<String>, Option<String>))
        ensures
            r == self.versions_spec(),
    {
        let installed = match &self.installed {
            Some(i) => Some(i.version.clone()),
            None => None,
        };
        let available = match &self.available {
            Some(a) => Some(a.version.clone()),
            None => None,
        };
        (installed, available)
    }
}

impl AvailablePlugin {
    /// Where the index's archive of this plug-in's version can be downloaded:
    /// `{url}/archive/{version}.zip`.
    pub fn download_url(&self) -> (r: String)
        ensures
            r@ == self.url@ + "/archive/"@ + self.version@ + ".zip"@,
    {
        let a = join_str(self.url.as_str(), "/archive/");
        let b = join_str(a.as_str(), self.version.as_str());
        join_str(b.as_str(), ".zip")
    }
}


proof fn lemma_least_named(inst: Seq<InstalledPlugin>, name: Seq<char>, w: int)
    requires
        0 <= w < inst.len(),
        inst[w].name@ == name,
    ensures
        exists|k: int|
            0 <= k < inst.len() && inst[k].name@ == name && forall|j: int|
                0 <= j < k ==> inst[j].name@ != name,
    decreases w,
{
    if exists|j: int| 0 <= j < w && inst[j].name@ == name {
        let j = choose|j: int| 0 <= j < w && inst[j].name@ == name;
        lemma_least_named(inst, name, j);
    } else {
        assert(0 <= w < inst.len() && inst[w].name@ == name && forall|j: int|
            0 <= j < w ==> inst[j].name@ != name);
    }
}

/// What [`first_named`] finds: the earliest plug-in of that name, or none when no
/// plug-in has it.
pub proof fn lemma_first_named(inst: Seq<InstalledPlugin>, name: Seq<char>)
    ensures
        match first_named(inst, name) {
            Some(k) => 0 <= k < inst.len() && inst[k].name@ == name && forall|j: int|
                0 <= j < k ==> inst[j].name@ != name,
            None => forall|j: int| 0 <= j < inst.len() ==> inst[j].name@ != name,
        },
{
    if exists|k: int| 0 <= k < inst.len() && inst[k].name@ == name {
        let w = choose|k: int| 0 <= k < inst.len() && inst[k].name@ == name;
        lemma_least_named(inst, name, w);
    }
}

/// Every installed plug-in whose name differs from `name` survives [`without_named`],
/// and nothing called `name` does.
pub proof fn lemma_without_named(inst: Seq<InstalledPlugin>, name: Seq<char>)
    ensures
        forall|j: int|
            0 <= j < inst.len() && inst[j].name@ != name ==> exists|m: int|
                0 <= m < without_named(inst, name).len() && #[trigger] without_named(inst, name)[m]
                    == inst[j],
        forall|m: int|
            0 <= m < without_named(inst, name).len() ==> (#[trigger] without_named(inst, name)[m]).name@
                != name,
    decreases inst.len(),
{
    if inst.len() > 0 {
        let init = inst.drop_last();
        lemma_without_named(init, name);
        let rest = without_named(init, name);
        assert forall|j: int| 0 <= j < inst.len() && inst[j].name@ != name implies exists|m: int|
            0 <= m < without_named(inst, name).len() && #[trigger] without_named(inst, name)[m]
                == inst[j] by {
            if j < inst.len() - 1 {
                assert(init[j] == inst[j]);
                let m = choose|m: int| 0 <= m < rest.len() && #[trigger] rest[m] == init[j];
                assert(without_named(inst, name)[m] == inst[j]);
            } else {
                let m = rest.len() as int;
                assert(without_named(inst, name)[m] == inst[j]);
            }
        }
    }
}

/// Every plug-in of the merged list is installed or available.
pub proof fn lemma_merged_wf(avail: Seq<AvailablePlugin>, inst: Seq<InstalledPlugin>)
    ensures
        forall|k: int| 0 <= k < merged(avail, inst).len() ==> (#[trigger] merged(avail, inst)[k]).wf(),
    decreases avail.len(),
{
    if avail.len() > 0 {
        let a = avail[0];
        let rest_inst = unclaimed_after(inst, a.name@);
        lemma_merged_wf(avail.drop_first(), rest_inst);
        assert forall|k: int| 0 <= k < merged(avail, inst).len() implies (#[trigger] merged(
            avail,
            inst,
        )[k]).wf() by {
            if k > 0 {
                assert(merged(avail, inst)[k] == merged(avail.drop_first(), rest_inst)[k - 1]);
            }
        }
    }
}

/// The merged list starts with the available plug-ins, in index order, each paired
/// with an installed plug-in of its own name or with none.
pub proof fn lemma_merged_available(avail: Seq<AvailablePlugin>, inst: Seq<InstalledPlugin>)
    ensures
        merged(avail, inst).len() >= avail.len(),
        forall|k: int|
            0 <= k < avail.len() ==> (#[trigger] merged(avail, inst)[k]).available == Some(avail[k]),
        forall|k: int|
            0 <= k < avail.len() ==> match (#[trigger] merged(avail, inst)[k]).installed {
                Some(p) => p.name@ == avail[k].name@,
                None => true,
            },
        forall|k: int|
            avail.len() <= k < merged(avail, inst).len() ==> (#[trigger] merged(avail, inst)[k]).available
                is None,
    decreases avail.len(),
{
    if avail.len() > 0 {
        let a = avail[0];
        lemma_first_named(inst, a.name@);
        let rest_inst = unclaimed_after(inst, a.name@);
        let tail = avail.drop_first();
        lemma_merged_available(tail, rest_inst);
        assert forall|k: int| 0 <= k < merged(avail, inst).len() && k > 0 implies merged(avail, inst)[k]
            == merged(tail, rest_inst)[k - 1] by {}
        assert forall|k: int| 0 < k < avail.len() implies avail[k] == tail[k - 1] by {}
    }
}

/// `m` holds an installed plug-in called `name`.
pub open spec fn keeps_name(m: Seq<Plugin>, name: Seq<char>) -> bool {
    exists|k: int| 0 <= k < m.len() && has_installed_named(#[trigger] m[k], name)
}

/// No installed plug-in goes missing: each one's name is the name of an installed
/// plug-in in the merged list.
pub proof fn lemma_merged_keeps_installed(avail: Seq<AvailablePlugin>, inst: Seq<InstalledPlugin>)
    ensures
        forall|j: int| 0 <= j < inst.len() ==> keeps_name(merged(avail, inst), #[trigger] inst[j].name@),
    decreases avail.len(),
{
    let m = merged(avail, inst);
    if avail.len() == 0 {
        assert forall|j: int| 0 <= j < inst.len() implies keeps_name(m, #[trigger] inst[j].name@) by {
            assert(has_installed_named(m[j], inst[j].name@));
        }
    } else {
        let a = avail[0];
        lemma_first_named(inst, a.name@);
        lemma_without_named(inst, a.name@);
        let rest_inst = unclaimed_after(inst, a.name@);
        let tail = avail.drop_first();
        lemma_merged_keeps_installed(tail, rest_inst);
        let mt = merged(tail, rest_inst);
        assert(m == seq![m[0]] + mt);
        assert forall|j: int| 0 <= j < inst.len() implies keeps_name(m, #[trigger] inst[j].name@) by {
            if inst[j].name@ == a.name@ {
                assert(has_installed_named(m[0], inst[j].name@));
            } else {
                let r = if first_named(inst, a.name@) is Some {
                    choose|r: int|
                        0 <= r < without_named(inst, a.name@).len() && #[trigger] without_named(
                            inst,
                            a.name@,
                        )[r] == inst[j]
                } else {
                    j
                };
                assert(0 <= r < rest_inst.len() && rest_inst[r] == inst[j]);
                assert(keeps_name(mt, rest_inst[r].name@));
                let k = choose|k: int| 0 <= k < mt.len() && has_installed_named(#[trigger] mt[k], rest_inst[r].name@);
                assert(m[k + 1] == mt[k]);
                assert(has_installed_named(m[k + 1], inst[j].name@));
            }
        }
    }
}

/// Finds the first installed plug-in called `name`.
fn find_named(inst: &Vec<InstalledPlugin>, name: &String) -> (r: Option<usize>)
    ensures
        match r {
            Some(k) => first_named(inst@, name@) == Some(k as int) && k < inst@.len() && inst@[k as int].name@
                == name@,
            None => first_named(inst@, name@) is None,
        },
{
    let mut k: usize = 0;
    while k < inst.len()
        invariant
            k <= inst.len(),
            forall|j: int| 0 <= j < k ==> inst@[j].name@ != name@,
        decreases inst.len() - k,
    {
        if inst[k].name == *name {
            let ghost w = k as int;
            assert(0 <= w < inst@.len() && inst@[w].name@ == name@ && forall|j: int|
                0 <= j < w ==> inst@[j].name@ != name@);
            let ghost c = choose|c: int|
                0 <= c < inst@.len() && inst@[c].name@ == name@ && forall|j: int|
                    0 <= j < c ==> inst@[j].name@ != name@;
            assert(c == w) by {
                if c < w {
                    assert(inst@[c].name@ != name@);
                } else if w < c {
                    assert(inst@[w].name@ != name@);
                }
            }
            return Some(k);
        }
        k = k + 1;
    }
    None
}

/// The installed plug-ins that are not called `name`.
fn remove_named(inst: &Vec<InstalledPlugin>, name: &String) -> (r: Vec<InstalledPlugin>)
    ensures
        r@ == without_named(inst@, name@),
{
    let mut out: Vec<InstalledPlugin> = Vec::new();
    let mut k: usize = 0;
    while k < inst.len()
        invariant
            k <= inst.len(),
            out@ == without_named(inst@.subrange(0, k as int), name@),
        decreases inst.len() - k,
    {
        assert(inst@.subrange(0, k + 1).drop_last() =~= inst@.subrange(0, k as int));
        if inst[k].name != *name {
            out.push(inst[k].clone());
        }
        k = k + 1;
    }
    assert(inst@.subrange(0, inst.len() as int) =~= inst@);
    out
}

/// Pairs the plug-ins that the index offers with the ones found on disk (see
/// [`merged`]).
#[verifier::rlimit(30)]
pub fn retrieve_plugins(available: Vec<AvailablePlugin>, installed: Vec<InstalledPlugin>) -> (r: Vec<
    Plugin,
>)
    ensures
        r@ == merged(available@, installed@),
        forall|k: int| 0 <= k < r@.len() ==> (#[trigger] r@[k]).wf(),
{
    let ghost all_installed = installed@;
    let mut installed = installed;
    let mut plugins: Vec<Plugin> = Vec::new();
    let mut i: usize = 0;
    assert(available@.skip(0) =~= available@);
    while i < available.len()
        invariant
            i <= available.len(),
            merged(available@, all_installed) == plugins@ + merged(available@.skip(i as int), installed@),
        decreases available.len() - i,
    {
        let a = available[i].clone();
        let found = find_named(&installed, &a.name);
        let ghost cur = installed@;
        let paired = match found {
            Some(k) => {
                let p = installed[k].clone();
                installed = remove_named(&installed, &a.name);
                Some(p)
            },
            None => None,
        };
        proof {
            lemma_merge_step(available@, i as int, cur, plugins@, merged(available@, all_installed));
        }
        plugins.push(Plugin { installed: paired, available: Some(a) });
        i = i + 1;
    }
    let ghost head = plugins@;
    assert(available@.skip(i as int) =~= Seq::<AvailablePlugin>::empty());
    let mut k: usize = 0;
    while k < installed.len()
        invariant
            k <= installed.len(),
            merged(available@, all_installed) == head + installed_only(installed@),
            plugins@ =~= head + installed_only(installed@.subrange(0, k as int)),
        decreases installed.len() - k,
    {
        plugins.push(Plugin { installed: Some(installed[k].clone()), available: None });
        k = k + 1;
        assert(installed_only(installed@.subrange(0, k as int)) =~= installed_only(
            installed@.subrange(0, k - 1),
        ).push(Plugin { installed: Some(installed@[k - 1]), available: None }));
    }
    assert(installed@.subrange(0, k as int) =~= installed@);
    proof {
        lemma_merged_wf(available@, all_installed);
    }
    plugins
}


/// The name and version of each installed plug-in.
pub open spec fn installed_views(ps: Seq<InstalledPlugin>) -> Seq<(Seq<char>, Seq<char>)> {
    ps.map_values(|p: InstalledPlugin| (p.name@, p.version@))
}

/// The plug-ins that a scan of the plug-in directory reports: every entry whose name
/// could be read, in directory order, with the version from its `.version` file or
/// `unknown` where that file could not be read.
pub open spec fn scanned(entries: Seq<PluginDirEntry>) -> Seq<(Seq<char>, Seq<char>)>
    decreases entries.len(),
{
    if entries.len() == 0 {
        Seq::empty()
    } else {
        let rest = scanned(entries.drop_last());
        match entries.last().name {
            Some(n) => rest.push(
                (
                    n@,
                    match entries.last().version {
                        Some(v) => v@,
                        None => "unknown"@,
                    },
                ),
            ),
            None => rest,
        }
    }
}

/// Turns the entries of the plug-in directory into installed plug-ins (see [`scanned`]).
#[verifier::rlimit(30)]
pub fn scan_plugins(entries: Vec<PluginDirEntry>) -> (r: Vec<InstalledPlugin>)
    ensures
        installed_views(r@) == scanned(entries@),
{
    let mut out: Vec<InstalledPlugin> = Vec::new();
    let mut k: usize = 0;
    while k < entries.len()
        invariant
            k <= entries.len(),
            installed_views(out@) =~= scanned(entries@.subrange(0, k as int)),
        decreases entries.len() - k,
    {
        assert(entries@.subrange(0, k + 1).drop_last() =~= entries@.subrange(0, k as int));
        let e = &entries[k];
        match &e.name {
            Some(n) => {
                let version = match &e.version {
                    Some(v) => v.clone(),
                    None => String::from_str("unknown"),
                };
                out.push(InstalledPlugin { name: n.clone(), version });
                assert(installed_views(out@) =~= installed_views(out@.drop_last()).push(
                    (n@, version@),
                ));
            },
            None => {},
        }
        k = k + 1;
    }
    assert(entries@.subrange(0, k as int) =~= entries@);
    out
}


/// What installing a downloaded plug-in archive amounts to: the files and directories
/// to create in the plug-in's directory (the archive's top-level directory is
/// dropped), and the record of the installed plug-in, whose version is also written
/// to the `.version` file of that directory.
pub struct PluginDownload {
    pub items: Vec<ZipItem>,
    pub installed: InstalledPlugin,
}

/// Why a plug-in could not be installed.
#[derive(Debug, PartialEq, Eq, Structural)]
pub enum DownloadError {
    /// The index does not offer the plug-in.
    NotAvailable,
    /// The downloaded archive could not be unpacked.
    Archive(UnzipError),
}

/// The plug-in once its available version has been installed.
pub open spec fn downloaded(p: Plugin) -> Plugin {
    match p.available {
        Some(a) => Plugin {
            installed: Some(InstalledPlugin { name: a.name, version: a.version }),
            available: p.available,
        },
        None => p,
    }
}

impl Plugin {
    /// Installs the available version of the plug-in from its downloaded archive
    /// (see [`AvailablePlugin::download`]): gives the entries to write into the
    /// plug-in's directory, and records the plug-in as installed at that version.
    /// Nothing changes when the plug-in is not available or the archive cannot be
    /// unpacked.
    pub fn download(&mut self, archive: &Vec<u8>) -> (r: Result<Vec<ZipItem>, DownloadError>)
        ensures
            match old(self).available {
                None => r is Err && r->Err_0 is NotAvailable && *final(self) == *old(self),
                Some(a) => match r {
                    Ok(items) => {
                        &&& extraction(archive@, true, Ok(item_views(items@)))
                        &&& *final(self) == downloaded(*old(self))
                    },
                    Err(DownloadError::Archive(u)) => {
                        &&& extraction(archive@, true, Err(u))
                        &&& *final(self) == *old(self)
                    },
                    Err(DownloadError::NotAvailable) => false,
                },
            },
    {
        match &self.available {
            None => Err(DownloadError::NotAvailable),
            Some(a) => match a.download(archive) {
                Ok(d) => {
                    self.installed = Some(d.installed);
                    Ok(d.items)
                },
                Err(e) => Err(DownloadError::Archive(e)),
            },
        }
    }
}

/// Once a plug-in has been downloaded it is installed, at the version the index
/// offers, under the name it was listed under.
pub proof fn lemma_downloaded_versions_agree(p: Plugin)
    requires
        p.available is Some,
    ensures
        downloaded(p).wf(),
        downloaded(p).installed is Some,
        downloaded(p).versions_spec().0 == downloaded(p).versions_spec().1,
        downloaded(p).spec_name() == p.spec_name(),
{
}

impl AvailablePlugin {
    /// Unpacks the archive downloaded from [`AvailablePlugin::download_url`]: every
    /// entry goes into the plug-in's directory without the first component of its
    /// path (the directory that GitHub wraps the sources in), and the plug-in is
    /// recorded as installed at the version the index offers. Fails exactly as
    /// extracting the archive does (see [`extraction`]).
    pub fn download(&self, archive: &Vec<u8>) -> (r: Result<PluginDownload, UnzipError>)
        ensures
            match r {
                Ok(d) => {
                    &&& extraction(archive@, true, Ok(item_views(d.items@)))
                    &&& d.installed.name == self.name
                    &&& d.installed.version == self.version
                },
                Err(e) => extraction(archive@, true, Err(e)),
            },
    {
        match extract(archive, true) {
            Ok(items) => Ok(
                PluginDownload {
                    items,
                    installed: InstalledPlugin { name: self.name.clone(), version: self.version.clone() },
                },
            ),
            Err(e) => Err(e),
        }
    }
}

} // verus!
