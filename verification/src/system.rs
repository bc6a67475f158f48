//! What the host offers the game: the compatibility layer (DWProton on
//! Linux, Wine on macOS) and the optional wrappers, and which DWProton
//! releases the launcher installs. The app probes the host; this module
//! decides what the probes mean.

use vstd::prelude::*;

use crate::api_types::ProtonReleaseInfo;
use crate::error::AppError;
use crate::paths::{join, join_path};
use crate::text::{chars_of, ends_with, has_sub, push_str, split, split_chars, string_of, to_owned_string};

verus! {

/// The DWProton release installed by default: the last stable 10.x build,
/// since 11.x cannot run the game.
pub const RECOMMENDED_DWPROTON_TAG: &'static str = "dwproton-10.0-26";

#[derive(Debug, Clone)]
pub struct SystemCheck {
    /// `linux`, `macos` or `windows`.
    pub platform: String,
    pub has_proton: bool,
    pub has_ntsync: bool,
    pub has_gamemode: bool,
    pub has_mangohud: bool,
    pub has_gamescope: bool,
    pub has_vkbasalt: bool,
    pub proton_path: String,
    pub has_rosetta: bool,
    pub dxmt_version: String,
    pub wine_patch_version: String,
}

/// What the app found on a Linux host.
#[derive(Debug, Clone, Copy)]
pub struct LinuxHost {
    /// `<proton_dir>/proton` exists.
    pub proton_exists: bool,
    pub ntsync: bool,
    pub gamemode: bool,
    pub mangohud: bool,
    pub gamescope: bool,
    pub vkbasalt: bool,
}

/// Linux: Proton is ready when a directory is configured and holds `proton`.
pub fn check_system(settings: &crate::settings::AppSettings, host: LinuxHost) -> (r: SystemCheck)
    ensures
        r.platform@ == "linux"@,
        r.has_proton == (settings.proton_dir@.len() > 0 && host.proton_exists),
        r.proton_path@ == (if r.has_proton { join_path(settings.proton_dir@, "proton"@) } else { Seq::empty() }),
        r.has_ntsync == host.ntsync && r.has_gamemode == host.gamemode && r.has_mangohud == host.mangohud
            && r.has_gamescope == host.gamescope && r.has_vkbasalt == host.vkbasalt,
        r.has_rosetta,
        r.dxmt_version@.len() == 0 && r.wine_patch_version@.len() == 0,
{
    let has_proton = settings.proton_dir.as_str().unicode_len() > 0 && host.proton_exists;
    SystemCheck {
        platform: to_owned_string("linux"),
        has_proton,
        has_ntsync: host.ntsync,
        has_gamemode: host.gamemode,
        has_mangohud: host.mangohud,
        has_gamescope: host.gamescope,
        has_vkbasalt: host.vkbasalt,
        proton_path: if has_proton {
            join(settings.proton_dir.as_str(), "proton")
        } else {
            String::new()
        },
        has_rosetta: true,
        dxmt_version: String::new(),
        wine_patch_version: String::new(),
    }
}

/// macOS: Wine is the only thing that can be missing; what went into it is
/// reported beside it. No wrapper exists there, and nothing like ntsync is
/// looked for.
pub fn check_system_macos(wine: Option<String>, rosetta: bool, dxmt: Option<String>, modules: Option<String>) -> (r: SystemCheck)
    ensures
        r.platform@ == "macos"@,
        r.has_proton == (wine matches Some(w) && w@.len() > 0),
        r.proton_path@ == (match wine {
            Some(w) => w@,
            None => Seq::empty(),
        }),
        r.has_ntsync && !r.has_gamemode && !r.has_mangohud && !r.has_gamescope && !r.has_vkbasalt,
        r.has_rosetta == rosetta,
        r.dxmt_version@ == (match dxmt {
            Some(v) => v@,
            None => Seq::empty(),
        }),
        r.wine_patch_version@ == (match modules {
            Some(v) => v@,
            None => Seq::empty(),
        }),
{
    let proton_path = match wine {
        Some(w) => w,
        None => String::new(),
    };
    let has_proton = proton_path.as_str().unicode_len() > 0;
    SystemCheck {
        platform: to_owned_string("macos"),
        has_proton,
        has_ntsync: true,
        has_gamemode: false,
        has_mangohud: false,
        has_gamescope: false,
        has_vkbasalt: false,
        proton_path,
        has_rosetta: rosetta,
        dxmt_version: match dxmt {
            Some(v) => v,
            None => String::new(),
        },
        wine_patch_version: match modules {
            Some(v) => v,
            None => String::new(),
        },
    }
}

/// Windows: the game runs natively, so nothing is missing.
pub fn check_system_windows() -> (r: SystemCheck)
    ensures
        r.platform@ == "windows"@,
        r.has_proton && r.has_ntsync && r.has_rosetta,
        !r.has_gamemode && !r.has_mangohud && !r.has_gamescope && !r.has_vkbasalt,
        r.proton_path@.len() == 0 && r.dxmt_version@.len() == 0 && r.wine_patch_version@.len() == 0,
{
    SystemCheck {
        platform: to_owned_string("windows"),
        has_proton: true,
        has_ntsync: true,
        has_gamemode: false,
        has_mangohud: false,
        has_gamescope: false,
        has_vkbasalt: false,
        proton_path: String::new(),
        has_rosetta: true,
        dxmt_version: String::new(),
        wine_patch_version: String::new(),
    }
}

/// The compatibility layer the picker recommends on this platform.
pub fn recommended_proton_tag(macos: bool) -> (r: &'static str)
    ensures
        r@ == (if macos { crate::wine::RECOMMENDED_WINE_TAG@ } else { RECOMMENDED_DWPROTON_TAG@ }),
{
    if macos {
        crate::wine::RECOMMENDED_WINE_TAG
    } else {
        RECOMMENDED_DWPROTON_TAG
    }
}

/// The DWProton release installed by default: the pinned one while the
/// releases list offers it, else the newest (the list comes newest first),
/// so a tag that vanished upstream never breaks first-run setup.
pub fn recommended_release(releases: &[ProtonReleaseInfo]) -> (r: Result<usize, AppError>)
    ensures
        r is Err <==> releases@.len() == 0,
        r matches Err(e) ==> e == AppError::ProtonDownloadFailed(e->ProtonDownloadFailed_0)
            && e->ProtonDownloadFailed_0@ == "No DWProton releases found"@,
        r matches Ok(i) ==> i < releases@.len() && (forall|j: int|
            0 <= j < i ==> releases@[j].tag_name@ != RECOMMENDED_DWPROTON_TAG@) && (releases@[i as int].tag_name@
            == RECOMMENDED_DWPROTON_TAG@ || (i == 0 && forall|j: int|
            0 <= j < releases@.len() ==> releases@[j].tag_name@ != RECOMMENDED_DWPROTON_TAG@)),
{
    let mut i: usize = 0;
    while i < releases.len()
        invariant
            i <= releases@.len(),
            forall|j: int| 0 <= j < i ==> releases@[j].tag_name@ != RECOMMENDED_DWPROTON_TAG@,
        decreases releases.len() - i,
    {
        if crate::text::same_text(releases[i].tag_name.as_str(), RECOMMENDED_DWPROTON_TAG) {
            return Ok(i);
        }
        i = i + 1;
    }
    if releases.len() == 0 {
        Err(AppError::ProtonDownloadFailed(to_owned_string("No DWProton releases found")))
    } else {
        Ok(0)
    }
}

/// Where an unpacked DWProton build keeps its `proton` script: the first
/// directory among `children` (each with whether it holds `proton`) that
/// does, else `base` itself when it does.
pub fn proton_dir_choice(children: &[(String, bool)], base: &str, base_has_proton: bool) -> (r: Result<String, AppError>)
    ensures
        match r {
            Ok(dir) => (exists|i: int|
                0 <= i < children@.len() && children@[i].1 && dir@ == children@[i].0@ && forall|j: int|
                    0 <= j < i ==> !(#[trigger] children@[j]).1) || ((forall|j: int|
                0 <= j < children@.len() ==> !(#[trigger] children@[j]).1) && base_has_proton && dir@ == base@),
            Err(e) => (forall|j: int| 0 <= j < children@.len() ==> !(#[trigger] children@[j]).1) && !base_has_proton
                && e == AppError::ProtonDownloadFailed(e->ProtonDownloadFailed_0)
                && e->ProtonDownloadFailed_0@ == "Could not find proton executable in extracted files"@,
        },
{
    let mut i: usize = 0;
    while i < children.len()
        invariant
            i <= children@.len(),
            forall|j: int| 0 <= j < i ==> !(#[trigger] children@[j]).1,
        decreases children.len() - i,
    {
        if children[i].1 {
            return Ok(to_owned_string(children[i].0.as_str()));
        }
        i = i + 1;
    }
    if base_has_proton {
        Ok(to_owned_string(base))
    } else {
        Err(AppError::ProtonDownloadFailed(to_owned_string("Could not find proton executable in extracted files")))
    }
}

/// A DWProton release's x86-64 tarball.
pub open spec fn dwproton_asset(name: Seq<char>) -> bool {
    has_sub(name, "x86_64"@) && ends_with(name, ".tar.xz"@)
}

pub fn is_dwproton_asset(name: &str) -> (b: bool)
    ensures
        b == dwproton_asset(name@),
{
    let v = chars_of(name);
    let a = chars_of("x86_64");
    let s = chars_of(".tar.xz");
    crate::text::contains_sub(v.as_slice(), a.as_slice()) && crate::text::has_suffix(v.as_slice(), s.as_slice())
}

/// The date part of an ISO 8601 time stamp: what precedes the first `T`.
pub open spec fn date_of(stamp: Seq<char>) -> Seq<char> {
    split(stamp, 'T')[0]
}

/// One release as the releases API describes it: what is read of it.
#[derive(Debug, Clone)]
pub struct ReleaseSource {
    pub tag_name: Option<String>,
    /// `None` when the release has no asset list.
    pub assets: Option<Vec<AssetSource>>,
    pub published_at: Option<String>,
    pub created_at: Option<String>,
}

#[derive(Debug, Clone)]
pub struct AssetSource {
    pub name: Option<String>,
    pub browser_download_url: Option<String>,
    pub size: Option<u64>,
}

/// Which asset of a release a listing wants.
#[derive(Debug, Clone)]
pub enum AssetKind {
    /// A DWProton x86-64 tarball.
    DwProton,
    /// A Wine Staging tarball for macOS.
    WineStaging,
    /// A DXMT builtin tarball.
    DxmtBuiltin,
    /// The asset of exactly this name.
    Named(String),
}

pub open spec fn kind_wants(kind: AssetKind, name: Seq<char>) -> bool {
    match kind {
        AssetKind::DwProton => dwproton_asset(name),
        AssetKind::WineStaging => crate::wine::staging_asset(name),
        AssetKind::DxmtBuiltin => crate::wine::dxmt_asset(name),
        AssetKind::Named(n) => name == n@,
    }
}

fn wants(kind: &AssetKind, name: &str) -> (b: bool)
    ensures
        b == kind_wants(*kind, name@),
{
    match kind {
        AssetKind::DwProton => is_dwproton_asset(name),
        AssetKind::WineStaging => crate::wine::is_wine_staging_asset(name),
        AssetKind::DxmtBuiltin => crate::wine::is_dxmt_asset(name),
        AssetKind::Named(n) => crate::text::same_text(name, n.as_str()),
    }
}

pub open spec fn asset_wanted_by(kind: AssetKind, a: AssetSource) -> bool {
    a.name matches Some(n) && kind_wants(kind, n@)
}

/// `i` is the first asset of `a` of the wanted kind.
pub open spec fn first_wanted_by(kind: AssetKind, a: Seq<AssetSource>, i: int) -> bool {
    &&& 0 <= i < a.len()
    &&& asset_wanted_by(kind, a[i])
    &&& forall|j: int| 0 <= j < i ==> !asset_wanted_by(kind, #[trigger] a[j])
}

pub open spec fn asset_wanted(a: AssetSource) -> bool {
    asset_wanted_by(AssetKind::DwProton, a)
}

/// `i` is the first asset of `a` that the DWProton picker wants.
pub open spec fn first_wanted(a: Seq<AssetSource>, i: int) -> bool {
    first_wanted_by(AssetKind::DwProton, a, i)
}

/// The stamp a release is dated by: its publication, else its creation.
pub open spec fn release_stamp(r: ReleaseSource) -> Seq<char> {
    match (r.published_at, r.created_at) {
        (Some(p), _) => p@,
        (None, Some(c)) => c@,
        (None, None) => Seq::empty(),
    }
}

/// What the picker lists of asset `i` of release `r`.
pub open spec fn listed_as(info: ProtonReleaseInfo, r: ReleaseSource, a: AssetSource) -> bool {
    &&& r.tag_name matches Some(t) && info.tag_name@ == t@
    &&& a.browser_download_url matches Some(u) && info.download_url@ == u@
    &&& a.name matches Some(n) && info.file_name@ == n@
    &&& info.size == (match a.size {
        Some(s) => s,
        None => 0,
    })
    &&& info.published_at@ == date_of(release_stamp(r))
}

/// The release as the picker lists it: its tag, its first x86-64 tarball,
/// and its publication (or creation) date; nothing without a tag, an asset
/// list, such an asset, or that asset's download URL.
pub fn parse_release(r: &ReleaseSource) -> (out: Option<ProtonReleaseInfo>)
    ensures
        (r.tag_name is None || r.assets is None) ==> out is None,
        match r.assets {
            Some(a) => {
                &&& (forall|j: int| 0 <= j < a@.len() ==> !asset_wanted(#[trigger] a@[j])) ==> out is None
                &&& forall|i: int|
                    r.tag_name is Some && #[trigger] first_wanted(a@, i) ==> (out is Some
                        <==> a@[i].browser_download_url is Some)
                &&& out matches Some(info) ==> exists|i: int|
                    first_wanted(a@, i) && listed_as(info, *r, #[trigger] a@[i])
            },
            None => out is None,
        },
{
    parse_release_of(r, &AssetKind::DwProton)
}

/// The release as a listing of `kind` sees it: its tag, its first asset of
/// that kind, and its publication (or creation) date; nothing without a tag,
/// an asset list, such an asset, or that asset's download URL.
pub fn parse_release_of(r: &ReleaseSource, kind: &AssetKind) -> (out: Option<ProtonReleaseInfo>)
    ensures
        (r.tag_name is None || r.assets is None) ==> out is None,
        match r.assets {
            Some(a) => {
                &&& (forall|j: int| 0 <= j < a@.len() ==> !asset_wanted_by(*kind, #[trigger] a@[j])) ==> out is None
                &&& forall|i: int|
                    r.tag_name is Some && #[trigger] first_wanted_by(*kind, a@, i) ==> (out is Some
                        <==> a@[i].browser_download_url is Some)
                &&& out matches Some(info) ==> exists|i: int|
                    first_wanted_by(*kind, a@, i) && listed_as(info, *r, #[trigger] a@[i])
            },
            None => out is None,
        },
{
    let tag = match &r.tag_name {
        Some(t) => t,
        None => return None,
    };
    let assets = match &r.assets {
        Some(a) => a,
        None => return None,
    };
    let mut i: usize = 0;
    while i < assets.len()
        invariant
            i <= assets@.len(),
            forall|j: int| 0 <= j < i ==> !asset_wanted_by(*kind, #[trigger] assets@[j]),
        ensures
            i <= assets@.len(),
            forall|j: int| 0 <= j < i ==> !asset_wanted_by(*kind, #[trigger] assets@[j]),
            i < assets@.len() ==> asset_wanted_by(*kind, assets@[i as int]),
        decreases assets.len() - i,
    {
        let wanted = match &assets[i].name {
            Some(n) => wants(kind, n.as_str()),
            None => false,
        };
        if wanted {
            break;
        }
        i = i + 1;
    }
    if i == assets.len() {
        return None;
    }
    let a = &assets[i];
    assert(first_wanted_by(*kind, assets@, i as int));
    let url = match &a.browser_download_url {
        Some(u) => to_owned_string(u.as_str()),
        None => return None,
    };
    let name = match &a.name {
        Some(n) => to_owned_string(n.as_str()),
        None => return None,
    };
    let stamp: &str = match &r.published_at {
        Some(p) => p.as_str(),
        None => match &r.created_at {
            Some(c) => c.as_str(),
            None => "",
        },
    };
    let sv = chars_of(stamp);
    let parts = split_chars(sv.as_slice(), 'T');
    proof {
        crate::text::lemma_split_nonempty(stamp@, 'T');
        if r.published_at is None && r.created_at is None {
            reveal_strlit("");
        }
    }
    assert(crate::text::views(parts@)[0] == parts@[0]@);
    let date = string_of(parts[0].as_slice());
    let info = ProtonReleaseInfo {
        tag_name: to_owned_string(tag.as_str()),
        download_url: url,
        file_name: name,
        size: match a.size {
            Some(s) => s,
            None => 0,
        },
        published_at: date,
    };
    assert(stamp@ == release_stamp(*r));
    assert(listed_as(info, *r, assets@[i as int]));
    Some(info)
}

} // verus!
