//! Wine for macOS: which published builds the launcher offers and installs,
//! the names of the Endfield module sets made for them, and the install
//! itself, step by step, with the outside work of each step left to the
//! caller.

use vstd::prelude::*;

use crate::api_types::ProtonReleaseInfo;
use crate::error::AppError;
use crate::text::{chars_of, ends_with, has_prefix, has_suffix, push_str, starts_with, string_of, trim, trimmed};

verus! {

/// Where the module sets are published: one release per Wine version.
pub const MODULES_REPO: &'static str = "AugustLigh/LLauncher";

pub const MODULES_TAG_PREFIX: &'static str = "wine-modules-";

/// The Wine version installed by default and flagged as recommended.
pub const RECOMMENDED_WINE_TAG: &'static str = "11.16";

/// The file beside a bundle that records the DXMT version put into it.
pub const DXMT_MARKER: &'static str = "dxmt.version";

/// The file beside a bundle that records the Endfield module set put into it.
pub const MODULES_MARKER: &'static str = "endfield-modules.version";

/// A Wine Staging tarball for macOS (each release also carries a
/// wine-devel one, and checksum files).
pub open spec fn staging_asset(name: Seq<char>) -> bool {
    starts_with(name, "wine-staging-"@) && ends_with(name, "-osx64.tar.xz"@)
}

pub fn is_wine_staging_asset(name: &str) -> (b: bool)
    ensures
        b == staging_asset(name@),
{
    let v = chars_of(name);
    let p = chars_of("wine-staging-");
    let s = chars_of("-osx64.tar.xz");
    has_prefix(v.as_slice(), p.as_slice()) && has_suffix(v.as_slice(), s.as_slice())
}

/// A DXMT release's builtin tarball.
pub open spec fn dxmt_asset(name: Seq<char>) -> bool {
    starts_with(name, "dxmt-"@) && ends_with(name, "-builtin.tar.gz"@)
}

pub fn is_dxmt_asset(name: &str) -> (b: bool)
    ensures
        b == dxmt_asset(name@),
{
    let v = chars_of(name);
    let p = chars_of("dxmt-");
    let s = chars_of("-builtin.tar.gz");
    has_prefix(v.as_slice(), p.as_slice()) && has_suffix(v.as_slice(), s.as_slice())
}

/// The module archive built for one Wine version.
pub open spec fn module_set_asset(wine_tag: Seq<char>) -> Seq<char> {
    "endfield-wine-modules-"@ + wine_tag + "-macos.tar.xz"@
}

/// The release tag of the module set for one Wine version.
pub open spec fn module_set_tag(wine_tag: Seq<char>) -> Seq<char> {
    MODULES_TAG_PREFIX@ + wine_tag
}

/// The directory one Wine release is installed into.
pub open spec fn install_dir(wine_tag: Seq<char>) -> Seq<char> {
    "wine-staging-"@ + wine_tag
}

/// The module archive built for one Wine version.
pub fn modules_asset_name(wine_tag: &str) -> (r: String)
    ensures
        r@ == module_set_asset(wine_tag@),
{
    let mut v: Vec<char> = Vec::new();
    push_str(&mut v, "endfield-wine-modules-");
    push_str(&mut v, wine_tag);
    push_str(&mut v, "-macos.tar.xz");
    string_of(v.as_slice())
}

/// The release tag of the module set for one Wine version.
pub fn modules_release_tag(wine_tag: &str) -> (r: String)
    ensures
        r@ == module_set_tag(wine_tag@),
{
    let mut v: Vec<char> = Vec::new();
    push_str(&mut v, MODULES_TAG_PREFIX);
    push_str(&mut v, wine_tag);
    string_of(v.as_slice())
}

/// The Wine version a module-set release tag is for, if it is one.
pub fn module_set_version(release_tag: &str) -> (r: Option<String>)
    ensures
        match r {
            Some(v) => starts_with(release_tag@, MODULES_TAG_PREFIX@) && v@ == release_tag@.skip(
                MODULES_TAG_PREFIX@.len() as int,
            ),
            None => !starts_with(release_tag@, MODULES_TAG_PREFIX@),
        },
{
    let v = chars_of(release_tag);
    let p = chars_of(MODULES_TAG_PREFIX);
    if has_prefix(v.as_slice(), p.as_slice()) {
        let rest = crate::text::slice_of(v.as_slice(), p.len(), v.len());
        assert(rest@ =~= release_tag@.skip(MODULES_TAG_PREFIX@.len() as int));
        Some(string_of(rest.as_slice()))
    } else {
        None
    }
}

/// The directory one Wine release is installed into.
pub fn install_dir_name(wine_tag: &str) -> (r: String)
    ensures
        r@ == install_dir(wine_tag@),
{
    let mut v: Vec<char> = Vec::new();
    push_str(&mut v, "wine-staging-");
    push_str(&mut v, wine_tag);
    string_of(v.as_slice())
}

/// What a marker file records: its text trimmed, nothing when that is empty.
pub fn marker_value(content: &str) -> (r: Option<String>)
    ensures
        match r {
            Some(v) => v@ == trim(content@) && v@.len() > 0,
            None => trim(content@).len() == 0,
        },
{
    let v = chars_of(content);
    let t = trimmed(v.as_slice());
    if t.len() == 0 {
        None
    } else {
        Some(string_of(t.as_slice()))
    }
}

/// What a marker file that may not exist records.
pub open spec fn marker_of(content: Option<String>) -> Option<Seq<char>> {
    match content {
        Some(c) => if trim(c@).len() > 0 {
            Some(trim(c@))
        } else {
            None
        },
        None => None,
    }
}

/// The first marker recorded among `contents`, read nearest first.
pub open spec fn first_marker_in(contents: Seq<Option<String>>) -> Option<Seq<char>>
    decreases contents.len(),
{
    if contents.len() == 0 {
        None
    } else {
        match marker_of(contents[0]) {
            Some(v) => Some(v),
            None => first_marker_in(contents.drop_first()),
        }
    }
}

/// The version a bundle records, from the marker files of the directories
/// that hold it, nearest first (`None` where a directory has none): the
/// first one that records anything.
pub fn first_marker(contents: &[Option<String>]) -> (r: Option<String>)
    ensures
        match r {
            Some(v) => first_marker_in(contents@) == Some(v@),
            None => first_marker_in(contents@) is None,
        },
{
    let mut i: usize = 0;
    assert(contents@.skip(0) =~= contents@);
    while i < contents.len()
        invariant
            i <= contents@.len(),
            first_marker_in(contents@) == first_marker_in(contents@.skip(i as int)),
        decreases contents.len() - i,
    {
        assert(contents@.skip(i as int)[0] == contents@[i as int]);
        assert(contents@.skip(i as int).drop_first() =~= contents@.skip(i + 1));
        if let Some(c) = &contents[i] {
            if let Some(v) = marker_value(c.as_str()) {
                return Some(v);
            }
        }
        i = i + 1;
    }
    None
}

/// The builds, in the order published, for which a module set exists.
pub open spec fn offered_from(builds: Seq<ProtonReleaseInfo>, sets: Seq<Seq<char>>) -> Seq<ProtonReleaseInfo> {
    builds.filter(|b: ProtonReleaseInfo| sets.contains(b.tag_name@))
}

/// The Wine builds the launcher offers: those published *and* with a module
/// set, in the order published; none at all is an error.
pub fn offered_releases(builds: Vec<ProtonReleaseInfo>, sets: &[String]) -> (r: Result<Vec<ProtonReleaseInfo>, AppError>)
    ensures
        match r {
            Ok(v) => v@.len() > 0 && v@ == offered_from(builds@, crate::text::string_views(sets@)),
            Err(e) => e == AppError::ProtonDownloadFailed(e->ProtonDownloadFailed_0) && e->ProtonDownloadFailed_0@
                == NO_OFFERED_BUILD@ && offered_from(builds@, crate::text::string_views(sets@)).len() == 0,
        },
{
    let ghost sv = crate::text::string_views(sets@);
    let ghost pred = |b: ProtonReleaseInfo| sv.contains(b.tag_name@);
    let mut out: Vec<ProtonReleaseInfo> = Vec::new();
    let mut builds = builds;
    let ghost orig = builds@;
    let n = builds.len();
    let mut i: usize = 0;
    while i < n
        invariant
            i <= n,
            n == orig.len(),
            builds@ == orig.skip(i as int),
            pred == (|b: ProtonReleaseInfo| sv.contains(b.tag_name@)),
            sv == crate::text::string_views(sets@),
            out@ == orig.take(i as int).filter(pred),
        decreases n - i,
    {
        let b = builds.remove(0);
        assert(b == orig[i as int]);
        assert(builds@ =~= orig.skip(i + 1));
        proof {
            assert(orig.take(i + 1) =~= orig.take(i as int).push(orig[i as int]));
            orig.take(i as int).lemma_filter_push(orig[i as int], pred);
        }
        let mut found = false;
        let mut k: usize = 0;
        while k < sets.len()
            invariant
                k <= sets@.len(),
                sv == crate::text::string_views(sets@),
                found <==> exists|j: int| 0 <= j < k && sv[j] == b.tag_name@,
            decreases sets.len() - k,
        {
            assert(sv[k as int] == sets@[k as int]@);
            if crate::text::same_text(sets[k].as_str(), b.tag_name.as_str()) {
                found = true;
            }
            k = k + 1;
        }
        assert(found == sv.contains(b.tag_name@));
        if found {
            out.push(b);
        }
        i = i + 1;
    }
    assert(orig.take(n as int) =~= orig);
    if out.len() == 0 {
        let mut m: Vec<char> = Vec::new();
        push_str(&mut m, NO_OFFERED_BUILD);
        return Err(AppError::ProtonDownloadFailed(string_of(m.as_slice())));
    }
    Ok(out)
}

pub const NO_OFFERED_BUILD: &'static str = "No Wine build with a published Endfield module set was found";

/// `i` is the build installed when nothing is chosen: the recommended one
/// while it is offered, else the first one offered.
pub open spec fn default_pick(releases: Seq<ProtonReleaseInfo>, i: int) -> bool {
    &&& 0 <= i < releases.len()
    &&& releases[i].tag_name@ == RECOMMENDED_WINE_TAG@ || (i == 0 && forall|j: int|
        0 <= j < releases.len() ==> releases[j].tag_name@ != RECOMMENDED_WINE_TAG@)
    &&& forall|j: int| 0 <= j < i ==> releases[j].tag_name@ != RECOMMENDED_WINE_TAG@
}

pub open spec fn default_index(releases: Seq<ProtonReleaseInfo>) -> int {
    choose|i: int| default_pick(releases, i)
}

/// At most one build is the default one.
pub proof fn lemma_default_pick_unique(releases: Seq<ProtonReleaseInfo>, i: int, k: int)
    requires
        default_pick(releases, i),
        default_pick(releases, k),
    ensures
        i == k,
{
    if i < k {
        assert(releases[i].tag_name@ != RECOMMENDED_WINE_TAG@);
    } else if k < i {
        assert(releases[k].tag_name@ != RECOMMENDED_WINE_TAG@);
    }
}

/// The build installed when nothing is chosen: the recommended one while it
/// is offered, else the first one offered.
pub fn default_release(releases: &[ProtonReleaseInfo]) -> (r: usize)
    requires
        releases@.len() > 0,
    ensures
        default_pick(releases@, r as int),
        r == default_index(releases@),
{
    let mut i: usize = 0;
    while i < releases.len()
        invariant
            i <= releases@.len(),
            forall|j: int| 0 <= j < i ==> releases@[j].tag_name@ != RECOMMENDED_WINE_TAG@,
        decreases releases.len() - i,
    {
        if crate::text::same_text(releases[i].tag_name.as_str(), RECOMMENDED_WINE_TAG) {
            proof {
                lemma_default_pick_unique(releases@, i as int, default_index(releases@));
            }
            return i;
        }
        i = i + 1;
    }
    proof {
        lemma_default_pick_unique(releases@, 0, default_index(releases@));
    }
    0
}

/// Why an install stops when no module set is published for its build.
pub open spec fn no_module_set_text(wine_tag: Seq<char>) -> Seq<char> {
    "No Endfield module set is published for Wine "@ + wine_tag + " (release "@ + module_set_tag(wine_tag)
        + " has no "@ + module_set_asset(wine_tag) + ")"@
}

pub const NO_DXMT_ASSET: &'static str = "No DXMT builtin asset found";

pub const NO_WINE_BUNDLE: &'static str = "Extracted archive holds no Wine bundle";

pub const NO_DXMT_PAYLOAD: &'static str = "Extracted DXMT archive holds no winemetal.so";

pub const NO_MODULES_PAYLOAD: &'static str = "Extracted module archive holds no ntdll.so";

/// How far a Wine install has come. Each state but the last two waits for
/// the answer to the action that led into it.
#[derive(Debug, Clone)]
pub enum WineInstallState {
    /// Nothing done yet; `requested` is the build the user picked, if any.
    Start { requested: Option<ProtonReleaseInfo>, apple_silicon: bool },
    /// The published builds and module sets are being listed.
    ChoosingRelease { apple_silicon: bool },
    /// The module set for `wine` is being looked up, before the large download.
    AwaitModuleSet { wine: ProtonReleaseInfo, apple_silicon: bool },
    /// Apple silicon: is Rosetta 2 there?
    AwaitRosettaProbe { wine: ProtonReleaseInfo, modules: ProtonReleaseInfo },
    /// Apple silicon: Rosetta 2 is being installed.
    AwaitRosettaInstall { wine: ProtonReleaseInfo, modules: ProtonReleaseInfo },
    /// The install directory is being cleared and made.
    AwaitInstallDir { wine: ProtonReleaseInfo, modules: ProtonReleaseInfo, apple_silicon: bool },
    /// Wine is being downloaded and unpacked; its bundle is looked for.
    AwaitWineBundle { wine: ProtonReleaseInfo, modules: ProtonReleaseInfo, apple_silicon: bool },
    /// Apple silicon: the latest DXMT release is being looked up.
    AwaitDxmtRelease { wine: ProtonReleaseInfo, modules: ProtonReleaseInfo, bundle: String },
    /// Apple silicon: DXMT is being downloaded and unpacked.
    AwaitDxmtPayload {
        wine: ProtonReleaseInfo,
        modules: ProtonReleaseInfo,
        bundle: String,
        dxmt: ProtonReleaseInfo,
    },
    /// Apple silicon: DXMT is being copied into the bundle.
    AwaitDxmtInstalled { wine: ProtonReleaseInfo, modules: ProtonReleaseInfo, bundle: String },
    /// The module set is being downloaded and unpacked.
    AwaitModulesPayload { wine: ProtonReleaseInfo, modules: ProtonReleaseInfo, bundle: String },
    /// The modules are being copied into the bundle.
    AwaitModulesInstalled { wine: ProtonReleaseInfo, bundle: String },
    Finished,
    Failed,
}

/// What the outside world answers to the last action.
#[derive(Debug, Clone)]
pub enum WineInstallEvent {
    /// Go: the answer to nothing, for the first step.
    Begin,
    /// The published Wine Staging builds, newest first, and the Wine
    /// versions a module set exists for.
    Releases { builds: Vec<ProtonReleaseInfo>, module_sets: Vec<String> },
    /// The module-set release, as read for its named archive.
    ModuleSet(Option<ProtonReleaseInfo>),
    /// Whether Rosetta 2 can run x86-64 code.
    Rosetta(bool),
    /// The action asked for is done.
    Done,
    /// The unpacked Wine bundle, if one was found.
    WineBundle(Option<String>),
    /// The latest DXMT release, as read for its builtin tarball.
    DxmtRelease(Option<ProtonReleaseInfo>),
    /// The unpacked DXMT files, if found.
    DxmtPayload(Option<String>),
    /// The unpacked module files, if found.
    ModulesPayload(Option<String>),
    /// The action failed outside.
    Failed(AppError),
}

/// What the outside world is asked to do next.
#[derive(Debug, Clone)]
pub enum WineInstallAction {
    /// List the published Wine Staging builds and the module sets.
    ListReleases,
    /// Read the module-set release `release_tag` for its `asset_name` archive.
    FetchModuleSet { release_tag: String, asset_name: String },
    /// Ask whether Rosetta 2 is installed.
    ProbeRosetta,
    /// Install Rosetta 2.
    InstallRosetta,
    /// Remove what an earlier install left in `dir_name`, and make it anew.
    PrepareInstallDir { dir_name: String },
    /// Download `release` into `dir_name`, unpack it there and find its bundle.
    DownloadWine { release: ProtonReleaseInfo, dir_name: String },
    /// Read the latest DXMT release for its builtin tarball.
    FetchDxmt,
    /// Download DXMT `release` and unpack it.
    DownloadDxmt { release: ProtonReleaseInfo },
    /// Copy DXMT from `payload` into `bundle`, and record `version` in the
    /// DXMT marker of `dir_name`.
    InstallDxmt { payload: String, bundle: String, dir_name: String, version: String },
    /// Download the module set `release` into `dir_name` and unpack it.
    DownloadModules { release: ProtonReleaseInfo, dir_name: String },
    /// Copy the modules from `payload` into `bundle`, and record `version`
    /// in the module marker of `dir_name`.
    InstallModules { payload: String, bundle: String, dir_name: String, version: String },
    /// The install is done: `wine_dir` is the bundle, `version` the Wine tag.
    Complete { wine_dir: String, version: String },
    /// Stop with this outside failure.
    Fail(AppError),
    /// Stop: the install cannot go on, for this reason.
    Refuse(String),
    /// The event answered nothing that was asked; nothing to do.
    Idle,
}

/// An action as its text fields read.
pub enum WineStep {
    ListReleases,
    FetchModuleSet { release_tag: Seq<char>, asset_name: Seq<char> },
    ProbeRosetta,
    InstallRosetta,
    PrepareInstallDir { dir_name: Seq<char> },
    DownloadWine { release: ProtonReleaseInfo, dir_name: Seq<char> },
    FetchDxmt,
    DownloadDxmt { release: ProtonReleaseInfo },
    InstallDxmt { payload: Seq<char>, bundle: Seq<char>, dir_name: Seq<char>, version: Seq<char> },
    DownloadModules { release: ProtonReleaseInfo, dir_name: Seq<char> },
    InstallModules { payload: Seq<char>, bundle: Seq<char>, dir_name: Seq<char>, version: Seq<char> },
    Complete { wine_dir: Seq<char>, version: Seq<char> },
    Fail(AppError),
    Refuse(Seq<char>),
    Idle,
}

impl View for WineInstallAction {
    type V = WineStep;

    open spec fn view(&self) -> WineStep {
        match self {
            WineInstallAction::ListReleases => WineStep::ListReleases,
            WineInstallAction::FetchModuleSet { release_tag, asset_name } => WineStep::FetchModuleSet {
                release_tag: release_tag@,
                asset_name: asset_name@,
            },
            WineInstallAction::ProbeRosetta => WineStep::ProbeRosetta,
            WineInstallAction::InstallRosetta => WineStep::InstallRosetta,
            WineInstallAction::PrepareInstallDir { dir_name } => WineStep::PrepareInstallDir {
                dir_name: dir_name@,
            },
            WineInstallAction::DownloadWine { release, dir_name } => WineStep::DownloadWine {
                release: *release,
                dir_name: dir_name@,
            },
            WineInstallAction::FetchDxmt => WineStep::FetchDxmt,
            WineInstallAction::DownloadDxmt { release } => WineStep::DownloadDxmt { release: *release },
            WineInstallAction::InstallDxmt { payload, bundle, dir_name, version } => WineStep::InstallDxmt {
                payload: payload@,
                bundle: bundle@,
                dir_name: dir_name@,
                version: version@,
            },
            WineInstallAction::DownloadModules { release, dir_name } => WineStep::DownloadModules {
                release: *release,
                dir_name: dir_name@,
            },
            WineInstallAction::InstallModules { payload, bundle, dir_name, version } => WineStep::InstallModules {
                payload: payload@,
                bundle: bundle@,
                dir_name: dir_name@,
                version: version@,
            },
            WineInstallAction::Complete { wine_dir, version } => WineStep::Complete {
                wine_dir: wine_dir@,
                version: version@,
            },
            WineInstallAction::Fail(e) => WineStep::Fail(*e),
            WineInstallAction::Refuse(m) => WineStep::Refuse(m@),
            WineInstallAction::Idle => WineStep::Idle,
        }
    }
}

/// Look up the module set for `wine`.
pub open spec fn ask_module_set(wine: ProtonReleaseInfo, apple_silicon: bool) -> (WineInstallState, WineStep) {
    (
        WineInstallState::AwaitModuleSet { wine, apple_silicon },
        WineStep::FetchModuleSet {
            release_tag: module_set_tag(wine.tag_name@),
            asset_name: module_set_asset(wine.tag_name@),
        },
    )
}

/// Clear and make the directory `wine` goes into.
pub open spec fn ask_install_dir(wine: ProtonReleaseInfo, modules: ProtonReleaseInfo, apple_silicon: bool) -> (
    WineInstallState,
    WineStep,
) {
    (
        WineInstallState::AwaitInstallDir { wine, modules, apple_silicon },
        WineStep::PrepareInstallDir { dir_name: install_dir(wine.tag_name@) },
    )
}

/// Download and unpack the module set, the last stage.
pub open spec fn ask_modules(wine: ProtonReleaseInfo, modules: ProtonReleaseInfo, bundle: String) -> (
    WineInstallState,
    WineStep,
) {
    (
        WineInstallState::AwaitModulesPayload { wine, modules, bundle },
        WineStep::DownloadModules { release: modules, dir_name: install_dir(wine.tag_name@) },
    )
}

pub open spec fn refuse(reason: Seq<char>) -> (WineInstallState, WineStep) {
    (WineInstallState::Failed, WineStep::Refuse(reason))
}

pub open spec fn is_over(state: WineInstallState) -> bool {
    state is Finished || state is Failed
}

/// One step of a Wine install. In order: the build (the one asked for, else
/// the default among those with a module set); its module set, looked up
/// before the large Wine download; on Apple silicon, Rosetta 2 when it is
/// missing; the directory `wine-staging-<tag>`, cleared of what an earlier
/// install left; Wine itself and its bundle; on Apple silicon alone, DXMT,
/// installed with its marker; the modules last, with theirs; then the
/// bundle and the tag. Any outside failure stops the install.
pub open spec fn wine_install_next(state: WineInstallState, event: WineInstallEvent) -> (WineInstallState, WineStep) {
    match (state, event) {
        (_, WineInstallEvent::Failed(e)) => if is_over(state) {
            (state, WineStep::Idle)
        } else {
            (WineInstallState::Failed, WineStep::Fail(e))
        },
        (WineInstallState::Start { requested, apple_silicon }, WineInstallEvent::Begin) => match requested {
            Some(wine) => ask_module_set(wine, apple_silicon),
            None => (WineInstallState::ChoosingRelease { apple_silicon }, WineStep::ListReleases),
        },
        (
            WineInstallState::ChoosingRelease { apple_silicon },
            WineInstallEvent::Releases { builds, module_sets },
        ) => {
            let offered = offered_from(builds@, crate::text::string_views(module_sets@));
            if offered.len() == 0 {
                refuse(NO_OFFERED_BUILD@)
            } else {
                ask_module_set(offered[default_index(offered)], apple_silicon)
            }
        },
        (WineInstallState::AwaitModuleSet { wine, apple_silicon }, WineInstallEvent::ModuleSet(found)) => match found {
            None => refuse(no_module_set_text(wine.tag_name@)),
            Some(modules) => if apple_silicon {
                (WineInstallState::AwaitRosettaProbe { wine, modules }, WineStep::ProbeRosetta)
            } else {
                ask_install_dir(wine, modules, false)
            },
        },
        (WineInstallState::AwaitRosettaProbe { wine, modules }, WineInstallEvent::Rosetta(present)) => if present {
            ask_install_dir(wine, modules, true)
        } else {
            (WineInstallState::AwaitRosettaInstall { wine, modules }, WineStep::InstallRosetta)
        },
        (WineInstallState::AwaitRosettaInstall { wine, modules }, WineInstallEvent::Done) => ask_install_dir(
            wine,
            modules,
            true,
        ),
        (WineInstallState::AwaitInstallDir { wine, modules, apple_silicon }, WineInstallEvent::Done) => (
            WineInstallState::AwaitWineBundle { wine, modules, apple_silicon },
            WineStep::DownloadWine { release: wine, dir_name: install_dir(wine.tag_name@) },
        ),
        (
            WineInstallState::AwaitWineBundle { wine, modules, apple_silicon },
            WineInstallEvent::WineBundle(found),
        ) => match found {
            None => refuse(NO_WINE_BUNDLE@),
            Some(bundle) => if apple_silicon {
                (WineInstallState::AwaitDxmtRelease { wine, modules, bundle }, WineStep::FetchDxmt)
            } else {
                ask_modules(wine, modules, bundle)
            },
        },
        (WineInstallState::AwaitDxmtRelease { wine, modules, bundle }, WineInstallEvent::DxmtRelease(found)) => match found {
            None => refuse(NO_DXMT_ASSET@),
            Some(dxmt) => (
                WineInstallState::AwaitDxmtPayload { wine, modules, bundle, dxmt },
                WineStep::DownloadDxmt { release: dxmt },
            ),
        },
        (
            WineInstallState::AwaitDxmtPayload { wine, modules, bundle, dxmt },
            WineInstallEvent::DxmtPayload(found),
        ) => match found {
            None => refuse(NO_DXMT_PAYLOAD@),
            Some(payload) => (
                WineInstallState::AwaitDxmtInstalled { wine, modules, bundle },
                WineStep::InstallDxmt {
                    payload: payload@,
                    bundle: bundle@,
                    dir_name: install_dir(wine.tag_name@),
                    version: dxmt.tag_name@,
                },
            ),
        },
        (WineInstallState::AwaitDxmtInstalled { wine, modules, bundle }, WineInstallEvent::Done) => ask_modules(
            wine,
            modules,
            bundle,
        ),
        (
            WineInstallState::AwaitModulesPayload { wine, modules, bundle },
            WineInstallEvent::ModulesPayload(found),
        ) => match found {
            None => refuse(NO_MODULES_PAYLOAD@),
            Some(payload) => (
                WineInstallState::AwaitModulesInstalled { wine, bundle },
                WineStep::InstallModules {
                    payload: payload@,
                    bundle: bundle@,
                    dir_name: install_dir(wine.tag_name@),
                    version: modules.tag_name@,
                },
            ),
        },
        (WineInstallState::AwaitModulesInstalled { wine, bundle }, WineInstallEvent::Done) => (
            WineInstallState::Finished,
            WineStep::Complete { wine_dir: bundle@, version: wine.tag_name@ },
        ),
        _ => (state, WineStep::Idle),
    }
}

/// A state of an install on a Mac without Apple silicon.
pub open spec fn intel_path(s: WineInstallState) -> bool {
    match s {
        WineInstallState::Start { apple_silicon, .. } => !apple_silicon,
        WineInstallState::ChoosingRelease { apple_silicon } => !apple_silicon,
        WineInstallState::AwaitModuleSet { apple_silicon, .. } => !apple_silicon,
        WineInstallState::AwaitInstallDir { apple_silicon, .. } => !apple_silicon,
        WineInstallState::AwaitWineBundle { apple_silicon, .. } => !apple_silicon,
        WineInstallState::AwaitModulesPayload { .. } => true,
        WineInstallState::AwaitModulesInstalled { .. } => true,
        WineInstallState::Finished => true,
        WineInstallState::Failed => true,
        _ => false,
    }
}

/// The steps only an Apple silicon Mac takes.
pub open spec fn apple_silicon_step(a: WineStep) -> bool {
    a is ProbeRosetta || a is InstallRosetta || a is FetchDxmt || a is DownloadDxmt || a is InstallDxmt
}

/// Without Apple silicon, no step of an install asks for Rosetta 2 or DXMT,
/// whatever the answers, and the install stays on that path.
pub proof fn lemma_intel_skips_rosetta_and_dxmt(s: WineInstallState, e: WineInstallEvent)
    requires
        intel_path(s),
    ensures
        intel_path(wine_install_next(s, e).0),
        !apple_silicon_step(wine_install_next(s, e).1),
{
}

/// A finished or stopped install stays as it is, whatever comes.
pub proof fn lemma_install_over_stays_over(s: WineInstallState, e: WineInstallEvent)
    requires
        is_over(s),
    ensures
        wine_install_next(s, e) == (s, WineStep::Idle),
{
}

/// An install completes only once its modules are in, and with the bundle
/// found and the tag of the build it installed.
pub proof fn lemma_install_completes_with_its_bundle(s: WineInstallState, e: WineInstallEvent)
    requires
        wine_install_next(s, e).1 is Complete,
    ensures
        s matches WineInstallState::AwaitModulesInstalled { wine, bundle } && e is Done
            && wine_install_next(s, e).1 == (WineStep::Complete { wine_dir: bundle@, version: wine.tag_name@ }),
        wine_install_next(s, e).0 is Finished,
{
}

fn text(s: &str) -> (r: String)
    ensures
        r@ == s@,
{
    let mut v: Vec<char> = Vec::new();
    push_str(&mut v, s);
    string_of(v.as_slice())
}

fn module_set_step(wine: ProtonReleaseInfo, apple_silicon: bool) -> (r: (WineInstallState, WineInstallAction))
    ensures
        (r.0, r.1@) == ask_module_set(wine, apple_silicon),
{
    let release_tag = modules_release_tag(wine.tag_name.as_str());
    let asset_name = modules_asset_name(wine.tag_name.as_str());
    (
        WineInstallState::AwaitModuleSet { wine, apple_silicon },
        WineInstallAction::FetchModuleSet { release_tag, asset_name },
    )
}

fn install_dir_step(wine: ProtonReleaseInfo, modules: ProtonReleaseInfo, apple_silicon: bool) -> (r: (
    WineInstallState,
    WineInstallAction,
))
    ensures
        (r.0, r.1@) == ask_install_dir(wine, modules, apple_silicon),
{
    let dir_name = install_dir_name(wine.tag_name.as_str());
    (WineInstallState::AwaitInstallDir { wine, modules, apple_silicon }, WineInstallAction::PrepareInstallDir { dir_name })
}

fn modules_step(wine: ProtonReleaseInfo, modules: ProtonReleaseInfo, bundle: String) -> (r: (
    WineInstallState,
    WineInstallAction,
))
    ensures
        (r.0, r.1@) == ask_modules(wine, modules, bundle),
{
    let dir_name = install_dir_name(wine.tag_name.as_str());
    let release = modules.duplicate();
    (WineInstallState::AwaitModulesPayload { wine, modules, bundle }, WineInstallAction::DownloadModules { release, dir_name })
}


/// One step of a Wine install: from where it stands and what the outside
/// world answered, where it stands next and what to do.
pub fn wine_install_step(state: WineInstallState, event: WineInstallEvent) -> (r: (WineInstallState, WineInstallAction))
    ensures
        (r.0, r.1@) == wine_install_next(state, event),
{
    if let WineInstallEvent::Failed(e) = event {
        return match state {
            WineInstallState::Finished => (WineInstallState::Finished, WineInstallAction::Idle),
            WineInstallState::Failed => (WineInstallState::Failed, WineInstallAction::Idle),
            _ => (WineInstallState::Failed, WineInstallAction::Fail(e)),
        };
    }
    match (state, event) {
        (WineInstallState::Start { requested, apple_silicon }, WineInstallEvent::Begin) => match requested {
            Some(wine) => module_set_step(wine, apple_silicon),
            None => (WineInstallState::ChoosingRelease { apple_silicon }, WineInstallAction::ListReleases),
        },
        (
            WineInstallState::ChoosingRelease { apple_silicon },
            WineInstallEvent::Releases { builds, module_sets },
        ) => match offered_releases(builds, module_sets.as_slice()) {
            Err(_) => (WineInstallState::Failed, WineInstallAction::Refuse(text(NO_OFFERED_BUILD))),
            Ok(offered) => {
                let i = default_release(offered.as_slice());
                let mut offered = offered;
                let wine = offered.remove(i);
                module_set_step(wine, apple_silicon)
            },
        },
        (WineInstallState::AwaitModuleSet { wine, apple_silicon }, WineInstallEvent::ModuleSet(found)) => match found {
            None => {
                let mut m: Vec<char> = Vec::new();
                push_str(&mut m, "No Endfield module set is published for Wine ");
                push_str(&mut m, wine.tag_name.as_str());
                push_str(&mut m, " (release ");
                let tag = modules_release_tag(wine.tag_name.as_str());
                push_str(&mut m, tag.as_str());
                push_str(&mut m, " has no ");
                let asset = modules_asset_name(wine.tag_name.as_str());
                push_str(&mut m, asset.as_str());
                push_str(&mut m, ")");
                (WineInstallState::Failed, WineInstallAction::Refuse(string_of(m.as_slice())))
            },
            Some(modules) => if apple_silicon {
                (WineInstallState::AwaitRosettaProbe { wine, modules }, WineInstallAction::ProbeRosetta)
            } else {
                install_dir_step(wine, modules, false)
            },
        },
        (WineInstallState::AwaitRosettaProbe { wine, modules }, WineInstallEvent::Rosetta(present)) => if present {
            install_dir_step(wine, modules, true)
        } else {
            (WineInstallState::AwaitRosettaInstall { wine, modules }, WineInstallAction::InstallRosetta)
        },
        (WineInstallState::AwaitRosettaInstall { wine, modules }, WineInstallEvent::Done) => install_dir_step(
            wine,
            modules,
            true,
        ),
        (WineInstallState::AwaitInstallDir { wine, modules, apple_silicon }, WineInstallEvent::Done) => {
            let dir_name = install_dir_name(wine.tag_name.as_str());
            let release = wine.duplicate();
            (
                WineInstallState::AwaitWineBundle { wine, modules, apple_silicon },
                WineInstallAction::DownloadWine { release, dir_name },
            )
        },
        (
            WineInstallState::AwaitWineBundle { wine, modules, apple_silicon },
            WineInstallEvent::WineBundle(found),
        ) => match found {
            None => (WineInstallState::Failed, WineInstallAction::Refuse(text(NO_WINE_BUNDLE))),
            Some(bundle) => if apple_silicon {
                (WineInstallState::AwaitDxmtRelease { wine, modules, bundle }, WineInstallAction::FetchDxmt)
            } else {
                modules_step(wine, modules, bundle)
            },
        },
        (WineInstallState::AwaitDxmtRelease { wine, modules, bundle }, WineInstallEvent::DxmtRelease(found)) => match found {
            None => (WineInstallState::Failed, WineInstallAction::Refuse(text(NO_DXMT_ASSET))),
            Some(dxmt) => {
                let release = dxmt.duplicate();
                (
                    WineInstallState::AwaitDxmtPayload { wine, modules, bundle, dxmt },
                    WineInstallAction::DownloadDxmt { release },
                )
            },
        },
        (
            WineInstallState::AwaitDxmtPayload { wine, modules, bundle, dxmt },
            WineInstallEvent::DxmtPayload(found),
        ) => match found {
            None => (WineInstallState::Failed, WineInstallAction::Refuse(text(NO_DXMT_PAYLOAD))),
            Some(payload) => {
                let dir_name = install_dir_name(wine.tag_name.as_str());
                let into = bundle.clone();
                (
                    WineInstallState::AwaitDxmtInstalled { wine, modules, bundle },
                    WineInstallAction::InstallDxmt { payload, bundle: into, dir_name, version: dxmt.tag_name },
                )
            },
        },
        (WineInstallState::AwaitDxmtInstalled { wine, modules, bundle }, WineInstallEvent::Done) => modules_step(
            wine,
            modules,
            bundle,
        ),
        (
            WineInstallState::AwaitModulesPayload { wine, modules, bundle },
            WineInstallEvent::ModulesPayload(found),
        ) => match found {
            None => (WineInstallState::Failed, WineInstallAction::Refuse(text(NO_MODULES_PAYLOAD))),
            Some(payload) => {
                let dir_name = install_dir_name(wine.tag_name.as_str());
                let into = bundle.clone();
                (
                    WineInstallState::AwaitModulesInstalled { wine, bundle },
                    WineInstallAction::InstallModules { payload, bundle: into, dir_name, version: modules.tag_name },
                )
            },
        },
        (WineInstallState::AwaitModulesInstalled { wine, bundle }, WineInstallEvent::Done) => (
            WineInstallState::Finished,
            WineInstallAction::Complete { wine_dir: bundle, version: wine.tag_name },
        ),
        (state, _) => (state, WineInstallAction::Idle),
    }
}

} // verus!
