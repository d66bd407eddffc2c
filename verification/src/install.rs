//! Installing and updating instances: which source is meant, which artifact is
//! downloaded, what is done with it once downloaded, and when an update is needed.
//!
//! Downloading, unpacking and running are up to the caller.

use vstd::prelude::*;
use crate::github::Artifact;
use crate::install_frame::{InstanceSource, InstanceSourceType};
use crate::instance::{Instance, InstanceType, archive_matches_spec, executable_spec};
use crate::text::{chars_of, join_str, string_of, str_contains, ends_with, contains, is_suffix,
    parse_u16, parse_unsigned};

verus! {

/// Work handed to a background worker: installing the game into `destination`
/// under the name `name`, as an AppImage or not.
pub enum Work {
    Install { destination: String, name: String, appimage: bool },
}

/// Why an instance cannot be installed or updated.
#[derive(Debug, PartialEq, Eq, Structural)]
pub enum InstallError {
    /// Builds of unknown kind can be neither installed nor updated.
    UnknownType,
    /// No artifact is a build of the instance's kind.
    NoMatchingArtifact,
    /// The pull request number is not a `u16`.
    InvalidPrNumber,
    /// No file of the instance directory is an archive of the instance's kind.
    NoLocalArchive,
    /// The newest version is the one installed.
    AlreadyLatest,
}

/// The identifier as installing reads it: a pull request number loses a leading
/// `#`, and a release tag gains a leading `v` where it has none.
pub open spec fn normalized_identifier(t: InstanceSourceType, id: Seq<char>) -> Seq<char> {
    if t == InstanceSourceType::PR && id.len() > 0 && id[0] == '#' {
        id.drop_first()
    } else if t == InstanceSourceType::Release && !(id.len() > 0 && id[0] == 'v') {
        seq!['v'] + id
    } else {
        id
    }
}

/// The source with its identifier normalized (see [`normalized_identifier`]).
pub fn normalize_source(source: InstanceSource) -> (r: InstanceSource)
    ensures
        r.source_type == source.source_type,
        r.identifier@ == normalized_identifier(source.source_type, source.identifier@),
{
    let c = chars_of(source.identifier.as_str());
    let starts_hash = c.len() > 0 && c[0] == '#';
    let starts_v = c.len() > 0 && c[0] == 'v';
    if source.source_type == InstanceSourceType::PR && starts_hash {
        let mut rest: Vec<char> = Vec::new();
        let mut i: usize = 1;
        while i < c.len()
            invariant
                1 <= i <= c.len(),
                c@ == source.identifier@,
                rest@ =~= c@.subrange(1, i as int),
            decreases c.len() - i,
        {
            rest.push(c[i]);
            i = i + 1;
        }
        assert(c@.subrange(1, c.len() as int) =~= c@.drop_first());
        InstanceSource { identifier: string_of(&rest), source_type: source.source_type }
    } else if source.source_type == InstanceSourceType::Release && !starts_v {
        proof {
            reveal_strlit("v");
            assert("v"@ =~= seq!['v']);
        }
        InstanceSource { identifier: join_str("v", source.identifier.as_str()), source_type: source.source_type }
    } else {
        source
    }
}

/// Release tags are normalized once and for all: normalizing again changes nothing.
pub proof fn lemma_release_normalization_idempotent(id: Seq<char>)
    ensures
        normalized_identifier(
            InstanceSourceType::Release,
            normalized_identifier(InstanceSourceType::Release, id),
        ) == normalized_identifier(InstanceSourceType::Release, id),
        ({
            let n = normalized_identifier(InstanceSourceType::Release, id);
            n.len() > 0 && n[0] == 'v'
        }),
{
}

/// A pull request's identifier loses a leading `#` and nothing else: an identifier
/// that does not start with `#` is kept as it is, and one that does is the `#`
/// followed by the normalized identifier. Identifiers of continuous builds are never
/// changed; a release tag gains a leading `v` exactly when it has none.
pub proof fn lemma_identifier_normalization(id: Seq<char>)
    ensures
        !(id.len() > 0 && id[0] == '#') ==> normalized_identifier(InstanceSourceType::PR, id) == id,
        (id.len() > 0 && id[0] == '#') ==> seq!['#'] + normalized_identifier(InstanceSourceType::PR, id)
            == id,
        normalized_identifier(InstanceSourceType::Continuous, id) == id,
        (id.len() > 0 && id[0] == 'v') ==> normalized_identifier(InstanceSourceType::Release, id) == id,
        !(id.len() > 0 && id[0] == 'v') ==> normalized_identifier(InstanceSourceType::Release, id)
            == seq!['v'] + id,
{
    if id.len() > 0 && id[0] == '#' {
        assert(seq!['#'] + id.drop_first() =~= id);
    }
}

/// `artifacts[k]` is the first artifact that is a build of kind `t`.
pub open spec fn is_first_match<A: Artifact>(artifacts: Seq<A>, t: InstanceType, k: int) -> bool {
    &&& 0 <= k < artifacts.len()
    &&& archive_matches_spec(t, artifacts[k].spec_name())
    &&& forall|j: int| 0 <= j < k ==> !archive_matches_spec(t, (#[trigger] artifacts[j]).spec_name())
}

/// A build is chosen for its kind whenever one is offered: the first artifact whose
/// name contains `mac` is chosen for a macOS install unless an earlier one also
/// matches, and an artifact is passed over only when its name does not match.
pub proof fn lemma_mac_builds_are_found<A: Artifact>(artifacts: Seq<A>, k: int)
    requires
        0 <= k < artifacts.len(),
        contains(artifacts[k].spec_name(), "mac"@),
        forall|j: int| 0 <= j < k ==> !contains((#[trigger] artifacts[j]).spec_name(), "mac"@)
            && !is_suffix(".dmg"@, artifacts[j].spec_name()),
    ensures
        is_first_match(artifacts, InstanceType::MacOS, k),
{
}

/// The first artifact that is a build of kind `instance_type`.
pub fn choose_artifact<A: Artifact>(artifacts: Vec<A>, instance_type: InstanceType) -> (r: Result<
    A,
    InstallError,
>)
    ensures
        match r {
            Ok(a) => exists|k: int| is_first_match(artifacts@, instance_type, k) && #[trigger] artifacts@[k]
                == a,
            Err(e) => e == InstallError::NoMatchingArtifact && forall|j: int|
                0 <= j < artifacts@.len() ==> !archive_matches_spec(
                    instance_type,
                    (#[trigger] artifacts@[j]).spec_name(),
                ),
        },
{
    let ghost all = artifacts@;
    let mut list = artifacts;
    let mut k: usize = 0;
    while k < list.len()
        invariant
            list@ == all,
            all == artifacts@,
            k <= list.len(),
            forall|j: int| 0 <= j < k ==> !archive_matches_spec(instance_type, (#[trigger] all[j]).spec_name()),
        decreases list.len() - k,
    {
        if instance_type.archive_matches(list[k].name()) {
            let a = list.remove(k);
            assert(is_first_match(all, instance_type, k as int));
            return Ok(a);
        }
        k = k + 1;
    }
    Err(InstallError::NoMatchingArtifact)
}

/// An instance of unknown kind never finds an artifact.
pub proof fn lemma_unknown_matches_nothing(name: Seq<char>)
    ensures
        !archive_matches_spec(InstanceType::Unknown, name),
{
}

/// What is done with a downloaded build.
#[derive(Debug, PartialEq, Eq, Structural)]
pub enum PostInstall {
    /// The download is the executable itself: move it to the executable's path.
    RenameToExecutable,
    /// Mount the disk image and copy the application out of it.
    ProcessDmg,
    /// Unpack the archive into the instance directory, stripping a single top-level
    /// directory of zip archives when `strip_toplevel`.
    Unpack { strip_toplevel: bool },
}

/// What to do with the downloaded file `archive_path` of a build of kind
/// `instance_type`, on macOS when `macos`.
pub fn post_install(instance_type: InstanceType, archive_path: &str, macos: bool) -> (r: PostInstall)
    ensures
        r == (if instance_type == InstanceType::AppImage {
            PostInstall::RenameToExecutable
        } else if macos && contains(archive_path@, "dmg"@) {
            PostInstall::ProcessDmg
        } else {
            PostInstall::Unpack { strip_toplevel: !macos }
        }),
{
    if instance_type == InstanceType::AppImage {
        PostInstall::RenameToExecutable
    } else if macos && str_contains(archive_path, "dmg") {
        PostInstall::ProcessDmg
    } else {
        PostInstall::Unpack { strip_toplevel: !macos }
    }
}

/// How an install proceeds: the normalized source, and the executable's path
/// inside the instance directory.
pub struct InstallPlan {
    pub source: InstanceSource,
    pub executable: &'static str,
}

/// Checks an install request: builds of unknown kind cannot be installed; the
/// source's identifier is normalized.
pub fn plan_install(instance_type: InstanceType, source: InstanceSource) -> (r: Result<
    InstallPlan,
    InstallError,
>)
    ensures
        match r {
            Ok(p) => {
                &&& instance_type != InstanceType::Unknown
                &&& executable_spec(instance_type) == Some(p.executable@)
                &&& p.source.source_type == source.source_type
                &&& p.source.identifier@ == normalized_identifier(source.source_type, source.identifier@)
            },
            Err(e) => instance_type == InstanceType::Unknown && e == InstallError::UnknownType,
        },
{
    match instance_type.executable() {
        None => Err(InstallError::UnknownType),
        Some(exe) => Ok(InstallPlan { source: normalize_source(source), executable: exe }),
    }
}

/// Where the build of an install is fetched from, and what its version is.
#[derive(Debug, PartialEq, Eq)]
pub enum BuildFetch {
    /// The asset of the GitHub release tagged `tag`. The installed version is
    /// `version` where it is given; otherwise (the continuous release, whose tag
    /// moves) it is the commit that the tag points at when the asset is fetched.
    ReleaseAsset { tag: String, version: Option<String> },
    /// The build artifact of pull request `number`; the installed version is the
    /// head commit of the pull request.
    PrArtifact { number: u16 },
}

/// Where the build of an install from the (normalized) `source` is fetched from: the
/// continuous release by its `continuous` tag, a release by its tag, which is also
/// its version, a pull request by its number (`InvalidPrNumber` when the identifier
/// is not one).
pub fn build_fetch(source: &InstanceSource) -> (r: Result<BuildFetch, InstallError>)
    ensures
        match source.source_type {
            InstanceSourceType::Continuous => r matches Ok(BuildFetch::ReleaseAsset { tag, version })
                && tag@ == "continuous"@ && version is None,
            InstanceSourceType::Release => r matches Ok(BuildFetch::ReleaseAsset { tag, version })
                && tag@ == source.identifier@ && (version matches Some(v) && v@ == source.identifier@),
            InstanceSourceType::PR => match parse_unsigned(source.identifier@, u16::MAX as nat) {
                Some(n) => r matches Ok(BuildFetch::PrArtifact { number }) && number == n,
                None => r == Err::<BuildFetch, InstallError>(InstallError::InvalidPrNumber),
            },
        },
{
    match source.source_type {
        InstanceSourceType::Continuous => Ok(
            BuildFetch::ReleaseAsset { tag: String::from_str("continuous"), version: None },
        ),
        InstanceSourceType::Release => Ok(
            BuildFetch::ReleaseAsset {
                tag: source.identifier.clone(),
                version: Some(source.identifier.clone()),
            },
        ),
        InstanceSourceType::PR => match pr_number(source.identifier.as_str()) {
            Ok(number) => Ok(BuildFetch::PrArtifact { number }),
            Err(e) => Err(e),
        },
    }
}

/// The pull request number of a (normalized) identifier.
pub fn pr_number(identifier: &str) -> (r: Result<u16, InstallError>)
    ensures
        match r {
            Ok(n) => parse_unsigned(identifier@, u16::MAX as nat) == Some(n as nat),
            Err(e) => e == InstallError::InvalidPrNumber && parse_unsigned(identifier@, u16::MAX as nat)
                is None,
        },
{
    match parse_u16(identifier) {
        Some(n) => Ok(n),
        None => Err(InstallError::InvalidPrNumber),
    }
}

/// `candidates[k]` is the first file of the instance directory that is an archive
/// of kind `t`.
pub open spec fn is_first_archive(candidates: Seq<String>, t: InstanceType, k: int) -> bool {
    &&& 0 <= k < candidates.len()
    &&& archive_matches_spec(t, candidates[k]@)
    &&& forall|j: int| 0 <= j < k ==> !archive_matches_spec(t, (#[trigger] candidates[j])@)
}

/// The archive an instance was installed from, among the paths of the files of its
/// directory (in the order the directory lists them).
pub fn find_archive_path(candidates: &Vec<String>, instance_type: InstanceType) -> (r: Result<
    String,
    InstallError,
>)
    ensures
        match r {
            Ok(p) => exists|k: int|
                is_first_archive(candidates@, instance_type, k) && #[trigger] candidates@[k] == p,
            Err(e) => e == InstallError::NoLocalArchive && forall|j: int|
                0 <= j < candidates@.len() ==> !archive_matches_spec(
                    instance_type,
                    (#[trigger] candidates@[j])@,
                ),
        },
{
    let mut k: usize = 0;
    while k < candidates.len()
        invariant
            k <= candidates.len(),
            forall|j: int|
                0 <= j < k ==> !archive_matches_spec(instance_type, (#[trigger] candidates@[j])@),
        decreases candidates.len() - k,
    {
        if instance_type.archive_matches(candidates[k].as_str()) {
            assert(is_first_archive(candidates@, instance_type, k as int));
            return Ok(candidates[k].clone());
        }
        k = k + 1;
    }
    Err(InstallError::NoLocalArchive)
}

/// How an instance is brought up to date.
#[derive(Debug, PartialEq, Eq, Structural)]
pub enum UpdateStrategy {
    /// Continuous builds are patched in place from the build server (falling back to
    /// a reinstall).
    Incremental,
    /// Reinstall if the head of pull request `n` has moved.
    CheckPr(u16),
    /// Reinstall if a newer release exists.
    CheckRelease,
}

/// How `instance` is updated.
pub fn update_strategy(instance: &Instance) -> (r: Result<UpdateStrategy, InstallError>)
    ensures
        match r {
            Ok(s) => instance.instance_type != InstanceType::Unknown && match instance.source.source_type {
                InstanceSourceType::Continuous => s == UpdateStrategy::Incremental,
                InstanceSourceType::Release => s == UpdateStrategy::CheckRelease,
                InstanceSourceType::PR => s matches UpdateStrategy::CheckPr(n) && parse_unsigned(
                    instance.source.identifier@,
                    u16::MAX as nat,
                ) == Some(n as nat),
            },
            Err(e) => {
                ||| instance.instance_type == InstanceType::Unknown && e == InstallError::UnknownType
                ||| instance.instance_type != InstanceType::Unknown && instance.source.source_type
                    == InstanceSourceType::PR && e == InstallError::InvalidPrNumber && parse_unsigned(
                    instance.source.identifier@,
                    u16::MAX as nat,
                ) is None
            },
        },
{
    if instance.instance_type == InstanceType::Unknown {
        return Err(InstallError::UnknownType);
    }
    match instance.source.source_type {
        InstanceSourceType::Continuous => Ok(UpdateStrategy::Incremental),
        InstanceSourceType::Release => Ok(UpdateStrategy::CheckRelease),
        InstanceSourceType::PR => match pr_number(instance.source.identifier.as_str()) {
            Ok(n) => Ok(UpdateStrategy::CheckPr(n)),
            Err(e) => Err(e),
        },
    }
}

/// Whether an update is due: it is when the newest version differs from the
/// installed one.
pub fn check_new_version(latest: &String, installed: &String) -> (r: Result<(), InstallError>)
    ensures
        match r {
            Ok(()) => latest@ != installed@,
            Err(e) => latest@ == installed@ && e == InstallError::AlreadyLatest,
        },
{
    if *latest == *installed {
        Err(InstallError::AlreadyLatest)
    } else {
        Ok(())
    }
}

/// A file of a continuous build on the build server.
pub struct BuildArtifact {
    pub file_name: String,
}

impl Artifact for BuildArtifact {
    open spec fn spec_name(&self) -> Seq<char> {
        self.file_name@
    }

    /// Build server artifacts are never reported expired.
    open spec fn spec_expired(&self) -> bool {
        false
    }

    fn name(&self) -> (r: &str) {
        self.file_name.as_str()
    }

    fn expired(&self) -> (r: bool) {
        false
    }
}

/// Where the build server offers the newest continuous build's file `artifact_name`.
pub fn continuous_artifact_url(artifact_name: &str) -> (r: String)
    ensures
        r@ == "https://ci.mcofficer.me/job/EndlessSky-continuous-bitar/lastBuild/artifact/"@
            + artifact_name@,
{
    join_str("https://ci.mcofficer.me/job/EndlessSky-continuous-bitar/lastBuild/artifact/", artifact_name)
}

/// After patching a continuous build in place, the archive is unpacked unless it is
/// the AppImage itself.
pub fn needs_unpack_after_patch(archive_path: &str) -> (r: bool)
    ensures
        r == !is_suffix(".AppImage"@, archive_path@),
{
    !ends_with(archive_path, ".AppImage")
}

/// The instance once its continuous build has been patched to `version`.
pub fn patched_instance(instance: &Instance, version: String) -> (r: Instance)
    ensures
        r == (Instance { version, ..*instance }),
{
    let mut r = instance.clone();
    r.version = version;
    r
}

} // verus!
