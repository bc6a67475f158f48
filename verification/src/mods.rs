//! The Endfield modding setup: EFMI on top of 3DMigoto, installed as a
//! `d3d11.dll` proxy next to the game. This module holds which archive
//! entries are installed and how, where the release assets are found, and
//! how the loader is parked out of a normal launch's way and brought back
//! for a modded one.

use vstd::prelude::*;

use crate::paths::{join, join_path};
use crate::text::{chars_of, eq_ic, eq_ignore_case, push_str, split, starts_with, string_of, uppercase};

verus! {

/// The 3DMigoto proxy DLL, next to `Endfield.exe`.
pub const LOADER_DLL: &'static str = "d3d11.dll";

/// 3DMigoto's configuration file.
pub const LOADER_INI: &'static str = "d3dx.ini";

/// Where 3DMigoto looks for mods, one directory per mod.
pub const MODS_SUBDIR: &'static str = "Mods";

/// The game file the loader replaces with its own build.
pub const COMPILER_DLL: &'static str = "d3dcompiler_47.dll";

/// Suffix of a game file moved aside so an uninstall can put it back.
pub const BACKUP_SUFFIX: &'static str = ".llauncher-orig";

/// Suffix of a loader file parked out of the game's reach.
pub const PARKED_SUFFIX: &'static str = ".llauncher-off";

/// The 3DMigoto binaries EFMI runs on.
pub const LIBS_REPO: &'static str = "SpectrumQT/XXMI-Libs-Package";

/// The Endfield half: `d3dx.ini` and the `Core/EFMI` scripts.
pub const EFMI_REPO: &'static str = "SpectrumQT/EFMI-Package";

/// What the launcher knows about the mod setup in the game directory.
#[derive(Debug, Clone)]
pub struct ModsStatus {
    pub loader_installed: bool,
    pub loader_configured: bool,
    pub efmi: bool,
    pub mods_dir: String,
    pub mod_count: usize,
    pub reshade_installed: bool,
    pub game_dir_missing: bool,
}

#[derive(Debug, Clone)]
pub struct LoaderInstallResult {
    pub version: String,
    pub files: usize,
}

/// The `Mods` directory 3DMigoto reads, next to the game executable.
pub fn mods_dir(game_dir: &str) -> (r: String)
    ensures
        r@ == join_path(game_dir@, MODS_SUBDIR@),
{
    join(game_dir, MODS_SUBDIR)
}

/// A file name with a suffix appended.
pub fn with_suffix(name: &str, suffix: &str) -> (r: String)
    ensures
        r@ == name@ + suffix@,
{
    let mut v = chars_of(name);
    push_str(&mut v, suffix);
    string_of(v.as_slice())
}

/// Archive entries deliberately not installed: the injector route, the
/// stereo helper that collides with Wine's nvapi, and documentation.
pub open spec fn skipped(rel: Seq<char>) -> bool {
    let lower = crate::text::lowercase(rel);
    ||| lower == "3dmloader.dll"@
    ||| lower == "nvapi64.dll"@
    ||| lower == "readme.md"@
    ||| lower == "license.gpl.txt"@
    ||| starts_with(lower, ".github/"@)
}

pub fn is_skipped(rel: &str) -> (b: bool)
    ensures
        b == skipped(rel@),
{
    let lower = crate::text::to_lowercase(rel);
    let l = lower.as_slice();
    let a = chars_of("3dmloader.dll");
    let b = chars_of("nvapi64.dll");
    let c = chars_of("readme.md");
    let d = chars_of("license.gpl.txt");
    let e = chars_of(".github/");
    crate::text::eq_chars(l, a.as_slice()) || crate::text::eq_chars(l, b.as_slice())
        || crate::text::eq_chars(l, c.as_slice()) || crate::text::eq_chars(l, d.as_slice())
        || crate::text::has_prefix(l, e.as_slice())
}

/// A game file the loader replaces: the original is moved aside instead of
/// destroyed.
pub fn needs_backup(rel: &str) -> (b: bool)
    ensures
        b == eq_ic(rel@, COMPILER_DLL@),
{
    let v = chars_of(rel);
    let c = chars_of(COMPILER_DLL);
    eq_ignore_case(v.as_slice(), c.as_slice())
}

/// A directory in `Mods` counts as an active mod unless 3DMigoto's
/// `DISABLED` prefix switches it off.
pub open spec fn active_mod(name: Seq<char>) -> bool {
    !starts_with(uppercase(name), "DISABLED"@)
}

pub fn is_active_mod(name: &str) -> (b: bool)
    ensures
        b == active_mod(name@),
{
    let up = crate::text::to_uppercase(name);
    let p = chars_of("DISABLED");
    !crate::text::has_prefix(up.as_slice(), p.as_slice())
}

/// An archive entry the unpack must not write: a file in `Mods` that is
/// already there (the user's own mod wins).
pub fn keeps_user_mod(rel: &str, target_exists: bool) -> (b: bool)
    ensures
        b == (starts_with(rel@, "Mods/"@) && target_exists),
{
    let v = chars_of(rel);
    let p = chars_of("Mods/");
    crate::text::has_prefix(v.as_slice(), p.as_slice()) && target_exists
}

} // verus!

verus! {

/// The files a launch may move, each holding some content or absent:
/// the loader DLL and its parked copy, the compiler in use, the loader's
/// compiler parked, and the game's own compiler set aside.
#[derive(Debug, Clone, Copy, PartialEq, Eq)]
pub struct LoaderFiles {
    pub dll: Option<u64>,
    pub dll_parked: Option<u64>,
    pub compiler: Option<u64>,
    pub compiler_parked: Option<u64>,
    pub compiler_original: Option<u64>,
}

/// One of those files.
#[derive(Debug, Clone, Copy, PartialEq, Eq)]
pub enum LoaderSlot {
    Dll,
    DllParked,
    Compiler,
    CompilerParked,
    CompilerOriginal,
}

/// A file operation in the game directory.
#[derive(Debug, Clone, Copy, PartialEq, Eq)]
pub enum FileMove {
    Remove(LoaderSlot),
    /// Rename the first onto the second, replacing it.
    Rename(LoaderSlot, LoaderSlot),
}

pub open spec fn get(s: LoaderFiles, k: LoaderSlot) -> Option<u64> {
    match k {
        LoaderSlot::Dll => s.dll,
        LoaderSlot::DllParked => s.dll_parked,
        LoaderSlot::Compiler => s.compiler,
        LoaderSlot::CompilerParked => s.compiler_parked,
        LoaderSlot::CompilerOriginal => s.compiler_original,
    }
}

pub open spec fn put(s: LoaderFiles, k: LoaderSlot, v: Option<u64>) -> LoaderFiles {
    match k {
        LoaderSlot::Dll => LoaderFiles { dll: v, ..s },
        LoaderSlot::DllParked => LoaderFiles { dll_parked: v, ..s },
        LoaderSlot::Compiler => LoaderFiles { compiler: v, ..s },
        LoaderSlot::CompilerParked => LoaderFiles { compiler_parked: v, ..s },
        LoaderSlot::CompilerOriginal => LoaderFiles { compiler_original: v, ..s },
    }
}

/// What a file operation does to the files.
pub open spec fn apply(s: LoaderFiles, m: FileMove) -> LoaderFiles {
    match m {
        FileMove::Remove(k) => put(s, k, None),
        FileMove::Rename(a, b) => put(put(s, b, get(s, a)), a, None),
    }
}

pub open spec fn apply_all(s: LoaderFiles, ms: Seq<FileMove>) -> LoaderFiles
    decreases ms.len(),
{
    if ms.len() == 0 {
        s
    } else {
        apply(apply_all(s, ms.drop_last()), ms.last())
    }
}

/// `from` moved to `to` when it exists; a copy already at `to` gives way.
pub open spec fn swapped_in(s: LoaderFiles, from: LoaderSlot, to: LoaderSlot) -> LoaderFiles {
    if get(s, from) is Some {
        put(put(s, to, get(s, from)), from, None)
    } else {
        s
    }
}

/// The files after preparing a launch. A modded launch brings the parked
/// loader back and, when the loader's compiler was parked, sets the game's
/// own aside and puts the loader's in place. A normal launch parks the
/// loader and, when the game's compiler was set aside, parks the loader's
/// compiler and restores the game's.
pub open spec fn prepared(s: LoaderFiles, with_mods: bool) -> LoaderFiles {
    if with_mods {
        let a = swapped_in(s, LoaderSlot::DllParked, LoaderSlot::Dll);
        if a.compiler_parked is Some {
            let b = if a.compiler is Some {
                LoaderFiles { compiler_original: a.compiler, compiler: None, ..a }
            } else {
                a
            };
            LoaderFiles { compiler: b.compiler_parked, compiler_parked: None, ..b }
        } else {
            a
        }
    } else {
        let a = swapped_in(s, LoaderSlot::Dll, LoaderSlot::DllParked);
        if a.compiler_original is Some {
            let b = swapped_in(a, LoaderSlot::Compiler, LoaderSlot::CompilerParked);
            LoaderFiles { compiler: b.compiler_original, compiler_original: None, ..b }
        } else {
            a
        }
    }
}

fn get_exec(s: &LoaderFiles, k: LoaderSlot) -> (r: Option<u64>)
    ensures
        r == get(*s, k),
{
    match k {
        LoaderSlot::Dll => s.dll,
        LoaderSlot::DllParked => s.dll_parked,
        LoaderSlot::Compiler => s.compiler,
        LoaderSlot::CompilerParked => s.compiler_parked,
        LoaderSlot::CompilerOriginal => s.compiler_original,
    }
}

fn put_exec(s: &mut LoaderFiles, k: LoaderSlot, v: Option<u64>)
    ensures
        *final(s) == put(*old(s), k, v),
{
    match k {
        LoaderSlot::Dll => s.dll = v,
        LoaderSlot::DllParked => s.dll_parked = v,
        LoaderSlot::Compiler => s.compiler = v,
        LoaderSlot::CompilerParked => s.compiler_parked = v,
        LoaderSlot::CompilerOriginal => s.compiler_original = v,
    }
}

fn step(moves: &mut Vec<FileMove>, cur: &mut LoaderFiles, Ghost(start): Ghost<LoaderFiles>, m: FileMove)
    requires
        apply_all(start, old(moves)@) == *old(cur),
    ensures
        final(moves)@ == old(moves)@.push(m),
        *final(cur) == apply(*old(cur), m),
        apply_all(start, final(moves)@) == *final(cur),
{
    let ghost m0 = moves@;
    moves.push(m);
    assert(moves@.drop_last() =~= m0);
    match m {
        FileMove::Remove(k) => put_exec(cur, k, None),
        FileMove::Rename(a, b) => {
            let v = get_exec(cur, a);
            put_exec(cur, b, v);
            put_exec(cur, a, None);
        },
    }
}

fn swap_in_moves(moves: &mut Vec<FileMove>, cur: &mut LoaderFiles, Ghost(start): Ghost<LoaderFiles>, from: LoaderSlot, to: LoaderSlot)
    requires
        apply_all(start, old(moves)@) == *old(cur),
        from != to,
    ensures
        *final(cur) == swapped_in(*old(cur), from, to),
        apply_all(start, final(moves)@) == *final(cur),
{
    let ghost c0 = *cur;
    if get_exec(cur, from).is_some() {
        if get_exec(cur, to).is_some() {
            step(moves, cur, Ghost(start), FileMove::Remove(to));
        }
        step(moves, cur, Ghost(start), FileMove::Rename(from, to));
    }
}

/// The file operations that prepare a launch, in order: applied to the
/// files as they are, they leave them as `prepared` says.
pub fn launch_moves(files: LoaderFiles, with_mods: bool) -> (r: Vec<FileMove>)
    ensures
        apply_all(files, r@) == prepared(files, with_mods),
{
    let mut moves: Vec<FileMove> = Vec::new();
    let mut cur = files;
    assert(apply_all(files, moves@) == cur);
    if with_mods {
        swap_in_moves(&mut moves, &mut cur, Ghost(files), LoaderSlot::DllParked, LoaderSlot::Dll);
        if cur.compiler_parked.is_some() {
            if cur.compiler.is_some() {
                step(&mut moves, &mut cur, Ghost(files), FileMove::Rename(LoaderSlot::Compiler, LoaderSlot::CompilerOriginal));
            }
            step(&mut moves, &mut cur, Ghost(files), FileMove::Rename(LoaderSlot::CompilerParked, LoaderSlot::Compiler));
        }
    } else {
        swap_in_moves(&mut moves, &mut cur, Ghost(files), LoaderSlot::Dll, LoaderSlot::DllParked);
        if cur.compiler_original.is_some() {
            swap_in_moves(&mut moves, &mut cur, Ghost(files), LoaderSlot::Compiler, LoaderSlot::CompilerParked);
            step(&mut moves, &mut cur, Ghost(files), FileMove::Rename(LoaderSlot::CompilerOriginal, LoaderSlot::Compiler));
        }
    }
    moves
}

/// Preparing the same kind of launch twice changes nothing the second time.
pub proof fn lemma_prepare_idempotent(s: LoaderFiles, with_mods: bool)
    ensures
        prepared(prepared(s, with_mods), with_mods) == prepared(s, with_mods),
{
}

/// A normal launch never sees the loader: no `d3d11.dll` of its, and no
/// compiler the loader displaced while the game's own was set aside.
pub proof fn lemma_normal_launch_hides_loader(s: LoaderFiles)
    ensures
        prepared(s, false).dll is None,
        prepared(s, false).compiler_original is None,
{
}

/// An installed loader parked for a normal launch and brought back for a
/// modded one is exactly as it was: same DLL, the loader's compiler in
/// place, the game's own set aside.
pub proof fn lemma_park_then_unpark(s: LoaderFiles)
    requires
        s.dll_parked is None,
        s.compiler_parked is None,
        s.compiler_original is Some ==> s.compiler is Some,
    ensures
        prepared(prepared(s, false), true) == s,
{
}

/// A parked loader brought back for a modded launch and parked again for a
/// normal one is exactly as it was.
pub proof fn lemma_unpark_then_park(s: LoaderFiles)
    requires
        s.dll is None,
        s.compiler_original is None,
        s.compiler_parked is Some ==> s.compiler is Some,
    ensures
        prepared(prepared(s, true), false) == s,
{
}

} // verus!

verus! {

/// An archive entry as the unpack sees it: its path with `/` separators
/// when the archive's own check (`enclosed_name`) accepts it, and whether
/// it is a directory.
#[derive(Debug, Clone)]
pub struct ArchiveEntry {
    pub path: Option<String>,
    pub is_dir: bool,
}

/// The components of a relative path: `/`-separated, empty ones and `.`
/// dropped.
pub open spec fn components(p: Seq<char>) -> Seq<Seq<char>> {
    split(p, '/').filter(|c: Seq<char>| c.len() > 0 && c != "."@)
}

/// The single top-level directory the first `k` entries share, or why there
/// is none: `(false, root)` while a wrapper is still possible, `(true, _)`
/// once an entry rules it out.
pub open spec fn root_scan(es: Seq<ArchiveEntry>, k: int) -> (bool, Option<Seq<char>>)
    decreases k,
{
    if k <= 0 {
        (false, None)
    } else {
        let (failed, root) = root_scan(es, k - 1);
        let e = es[k - 1];
        if failed {
            (true, None)
        } else {
            match e.path {
                None => (true, None),
                Some(p) => {
                    let cs = components(p@);
                    if cs.len() == 0 || (cs.len() == 1 && !e.is_dir) {
                        (true, None)
                    } else {
                        match root {
                            None => (false, Some(cs[0])),
                            Some(r) => if r == cs[0] {
                                (false, Some(r))
                            } else {
                                (true, None)
                            },
                        }
                    }
                },
            }
        }
    }
}

/// The single top-level directory an archive wraps everything in, if it has
/// one: every entry is under the same first component, and no file sits at
/// the root. A GitHub source zip has one; the release packages do not.
pub open spec fn common_root_of(es: Seq<ArchiveEntry>) -> Option<Seq<char>> {
    let (failed, root) = root_scan(es, es.len() as int);
    if failed {
        None
    } else {
        root
    }
}

fn components_of(p: &str) -> (r: Vec<Vec<char>>)
    ensures
        crate::text::views(r@) == components(p@),
{
    let v = chars_of(p);
    let parts = crate::text::split_chars(v.as_slice(), '/');
    let ghost pv = crate::text::views(parts@);
    let ghost pred = |c: Seq<char>| c.len() > 0 && c != "."@;
    let dot = chars_of(".");
    let mut out: Vec<Vec<char>> = Vec::new();
    let mut i: usize = 0;
    while i < parts.len()
        invariant
            i <= parts@.len(),
            pv == crate::text::views(parts@),
            pv == split(p@, '/'),
            dot@ == "."@,
            pred == (|c: Seq<char>| c.len() > 0 && c != "."@),
            crate::text::views(out@) == pv.take(i as int).filter(pred),
        decreases parts.len() - i,
    {
        proof {
            assert(pv.take(i + 1) =~= pv.take(i as int).push(pv[i as int]));
            pv.take(i as int).lemma_filter_push(pv[i as int], pred);
        }
        if parts[i].len() > 0 && !crate::text::eq_chars(parts[i].as_slice(), dot.as_slice()) {
            let ghost o0 = out@;
            let c = parts[i].clone();
            out.push(c);
            proof {
                crate::text::lemma_views_push(o0, c);
            }
        }
        i = i + 1;
    }
    assert(pv.take(i as int) =~= pv);
    out
}

pub fn common_root(entries: &[ArchiveEntry]) -> (r: Option<String>)
    ensures
        match r {
            Some(s) => common_root_of(entries@) == Some(s@),
            None => common_root_of(entries@) is None,
        },
{
    let mut root: Option<Vec<char>> = None;
    let mut i: usize = 0;
    while i < entries.len()
        invariant
            i <= entries@.len(),
            root_scan(entries@, i as int).0 == false,
            match root {
                Some(r) => root_scan(entries@, i as int).1 == Some(r@),
                None => root_scan(entries@, i as int).1 is None,
            },
        decreases entries.len() - i,
    {
        let e = &entries[i];
        let p = match &e.path {
            None => {
                proof {
                    lemma_root_scan_stays_failed(entries@, i + 1);
                }
                return None;
            },
            Some(p) => p,
        };
        let cs = components_of(p.as_str());
        if cs.len() == 0 || (cs.len() == 1 && !e.is_dir) {
            proof {
                lemma_root_scan_stays_failed(entries@, i + 1);
            }
            return None;
        }
        assert(crate::text::views(cs@)[0] == cs@[0]@);
        match &root {
            None => {
                root = Some(cs[0].clone());
            },
            Some(r) => {
                if !crate::text::eq_chars(r.as_slice(), cs[0].as_slice()) {
                    proof {
                        lemma_root_scan_stays_failed(entries@, i + 1);
                    }
                    return None;
                }
            },
        }
        i = i + 1;
    }
    match root {
        Some(r) => Some(string_of(r.as_slice())),
        None => None,
    }
}

/// Once an entry rules a wrapper out, no later entry brings it back.
proof fn lemma_root_scan_stays_failed(es: Seq<ArchiveEntry>, k: int)
    requires
        0 <= k <= es.len(),
        root_scan(es, k).0,
    ensures
        root_scan(es, es.len() as int).0,
    decreases es.len() - k,
{
    if k < es.len() {
        lemma_root_scan_stays_failed(es, k + 1);
    }
}

/// The release tag GitHub's `releases/latest` redirect lands on: the last
/// segment of the final URL, unless it is empty or still `latest`.
pub open spec fn tag_of_url(url: Seq<char>) -> Option<Seq<char>> {
    let t = split(url, '/').last();
    if t.len() == 0 || t == "latest"@ {
        None
    } else {
        Some(t)
    }
}

pub fn release_tag_from_url(url: &str) -> (r: Option<String>)
    ensures
        match r {
            Some(t) => tag_of_url(url@) == Some(t@),
            None => tag_of_url(url@) is None,
        },
{
    let v = chars_of(url);
    let segs = crate::text::split_chars(v.as_slice(), '/');
    proof {
        crate::text::lemma_split_nonempty(url@, '/');
    }
    let t = &segs[segs.len() - 1];
    assert(crate::text::views(segs@).last() == t@);
    let latest = chars_of("latest");
    if t.len() == 0 || crate::text::eq_chars(t.as_slice(), latest.as_slice()) {
        None
    } else {
        Some(string_of(t.as_slice()))
    }
}

/// The package a repository's release carries, by the standard naming.
pub open spec fn package_name_of(repo: Seq<char>) -> Seq<char> {
    if crate::text::has_sub(repo, "XXMI"@) {
        "XXMI-PACKAGE"@
    } else {
        "EFMI-PACKAGE"@
    }
}

/// The package download used when the GitHub API is unavailable:
/// `https://github.com/{repo}/releases/download/{tag}/{package}-{tag}.zip`.
pub fn fallback_package_url(repo: &str, tag: &str) -> (r: String)
    ensures
        r@ == "https://github.com/"@ + repo@ + "/releases/download/"@ + tag@ + "/"@ + package_name_of(repo@) + "-"@
            + tag@ + ".zip"@,
{
    let rv = chars_of(repo);
    let x = chars_of("XXMI");
    let pkg = if crate::text::contains_sub(rv.as_slice(), x.as_slice()) {
        "XXMI-PACKAGE"
    } else {
        "EFMI-PACKAGE"
    };
    let mut u: Vec<char> = Vec::new();
    push_str(&mut u, "https://github.com/");
    push_str(&mut u, repo);
    push_str(&mut u, "/releases/download/");
    push_str(&mut u, tag);
    push_str(&mut u, "/");
    push_str(&mut u, pkg);
    push_str(&mut u, "-");
    push_str(&mut u, tag);
    push_str(&mut u, ".zip");
    string_of(u.as_slice())
}

/// The release asset a package is downloaded from: a `.zip`, by name in
/// any case.
pub open spec fn zip_asset(name: Seq<char>) -> bool {
    crate::text::ends_with(crate::text::lowercase(name), ".zip"@)
}

pub fn is_zip_asset(name: &str) -> (b: bool)
    ensures
        b == zip_asset(name@),
{
    let l = crate::text::to_lowercase(name);
    let z = chars_of(".zip");
    crate::text::has_suffix(l.as_slice(), z.as_slice())
}

} // verus!

verus! {

/// What the unpack does with one archive entry.
#[derive(Debug, Clone)]
pub enum UnpackAction {
    /// The entry stays out of the game directory.
    Skip,
    /// Create this directory, relative to the game directory.
    Dir(String),
    /// Write this file, relative to the game directory, after setting the
    /// game's own copy aside when `backup_first`.
    File { rel: String, backup_first: bool },
}

/// An entry's path below the archive's wrapper directory (`root`), as
/// components: nothing when it is not under the wrapper.
pub open spec fn below_root(path: Seq<char>, root: Option<Seq<char>>) -> Option<Seq<Seq<char>>> {
    let cs = components(path);
    match root {
        Some(r) => if cs.len() > 0 && cs[0] == r {
            Some(cs.skip(1))
        } else {
            None
        },
        None => Some(cs),
    }
}

/// The unpack's decision for an entry: `path` is its name as the archive's
/// own check (`enclosed_name`) accepts it, `root` the wrapper directory if
/// the archive has one, `target_exists` whether the game directory already
/// holds the target. Entries outside the wrapper, empty ones and the
/// archive's own files stay out; a mod the user already has is never
/// overwritten; the game's compiler is backed up before the loader's
/// replaces it.
pub open spec fn unpack_action_of(
    path: Option<Seq<char>>,
    root: Option<Seq<char>>,
    is_dir: bool,
    target_exists: bool,
) -> Option<(Seq<char>, bool, bool)> {
    match path {
        None => None,
        Some(p) => match below_root(p, root) {
            None => None,
            Some(rel) => {
                let rel_text = crate::text::join(rel, "/"@);
                let key = crate::text::replace(rel_text, '\\', "/"@);
                if rel.len() == 0 || skipped(key) {
                    None
                } else if is_dir {
                    Some((rel_text, true, false))
                } else if starts_with(key, "Mods/"@) && target_exists {
                    None
                } else {
                    Some((rel_text, false, eq_ic(key, COMPILER_DLL@) && target_exists))
                }
            },
        },
    }
}

pub fn unpack_action(path: Option<&str>, root: Option<&str>, is_dir: bool, target_exists: bool) -> (r: UnpackAction)
    ensures
        match unpack_action_of(
            match path {
                Some(p) => Some(p@),
                None => None,
            },
            match root {
                Some(x) => Some(x@),
                None => None,
            },
            is_dir,
            target_exists,
        ) {
            None => r is Skip,
            Some((rel, true, _)) => r matches UnpackAction::Dir(d) && d@ == rel,
            Some((rel, false, backup)) => r matches UnpackAction::File { rel: f, backup_first: b } && f@ == rel
                && b == backup,
        },
{
    let p = match path {
        None => return UnpackAction::Skip,
        Some(p) => p,
    };
    let cs = components_of(p);
    let ghost csv = crate::text::views(cs@);
    let start: usize = match root {
        Some(r) => {
            let rv = chars_of(r);
            if cs.len() == 0 || !crate::text::eq_chars(cs[0].as_slice(), rv.as_slice()) {
                proof {
                    if cs@.len() > 0 {
                        assert(csv[0] == cs@[0]@);
                    }
                }
                return UnpackAction::Skip;
            }
            assert(csv[0] == cs@[0]@);
            1
        },
        None => 0,
    };
    let mut rel: Vec<Vec<char>> = Vec::new();
    let mut i: usize = start;
    while i < cs.len()
        invariant
            start <= i <= cs@.len(),
            csv == crate::text::views(cs@),
            crate::text::views(rel@) == csv.subrange(start as int, i as int),
        decreases cs.len() - i,
    {
        let ghost r0 = rel@;
        let c = cs[i].clone();
        rel.push(c);
        proof {
            crate::text::lemma_views_push(r0, c);
        }
        assert(crate::text::views(rel@) =~= csv.subrange(start as int, i + 1));
        i = i + 1;
    }
    assert(csv.subrange(start as int, cs@.len() as int) =~= csv.skip(start as int));
    assert(crate::text::views(rel@).len() == rel@.len());
    assert(below_root(
        p@,
        match root {
            Some(x) => Some(x@),
            None => None,
        },
    ) == Some(crate::text::views(rel@)));
    let slash = chars_of("/");
    let rel_text = crate::text::join_chars(rel.as_slice(), slash.as_slice());
    let key = crate::text::replace_chars(rel_text.as_slice(), '\\', slash.as_slice());
    let key_s = string_of(key.as_slice());
    if rel.len() == 0 || is_skipped(key_s.as_str()) {
        return UnpackAction::Skip;
    }
    if is_dir {
        return UnpackAction::Dir(string_of(rel_text.as_slice()));
    }
    if keeps_user_mod(key_s.as_str(), target_exists) {
        return UnpackAction::Skip;
    }
    let backup = needs_backup(key_s.as_str()) && target_exists;
    UnpackAction::File { rel: string_of(rel_text.as_slice()), backup_first: backup }
}

} // verus!

verus! {

/// The directories the loader's packages create, removed with the loader;
/// the user's `Mods` directory is not among them.
pub fn loader_dirs() -> (r: Vec<&'static str>)
    ensures
        r@.len() == 2,
        r@[0]@ == "Core"@,
        r@[1]@ == "ShaderFixes"@,
{
    let mut r: Vec<&'static str> = Vec::new();
    r.push("Core");
    r.push("ShaderFixes");
    r
}

/// The files a loader install or uninstall clears from the game directory,
/// once the directory is back as the game shipped it: the parked loader
/// and parked compiler, then the loader DLL and its configuration. The
/// user's `Mods` directory is never among them.
pub open spec fn loader_files_spec() -> Seq<Seq<char>> {
    seq![
        LOADER_DLL@ + PARKED_SUFFIX@,
        COMPILER_DLL@ + PARKED_SUFFIX@,
        LOADER_DLL@,
        LOADER_INI@,
    ]
}

pub fn loader_files_to_clear() -> (r: Vec<String>)
    ensures
        crate::text::string_views(r@) == loader_files_spec(),
{
    let mut r: Vec<String> = Vec::new();
    r.push(with_suffix(LOADER_DLL, PARKED_SUFFIX));
    r.push(with_suffix(COMPILER_DLL, PARKED_SUFFIX));
    r.push(crate::text::to_owned_string(LOADER_DLL));
    r.push(crate::text::to_owned_string(LOADER_INI));
    assert(crate::text::string_views(r@) =~= loader_files_spec());
    r
}

/// The entries of a zip archive held in `a`, in archive order: each
/// entry's name as the zip crate's `enclosed_name` gives it (nothing for a
/// name that would leave the target directory) and whether it is a
/// directory; nothing when `a` is no readable archive.
pub uninterp spec fn zip_entries(a: Seq<u8>) -> Option<Seq<(Option<Seq<char>>, bool)>>;

/// The data of entry `index` of the zip archive held in `a`; nothing when
/// it cannot be read.
pub uninterp spec fn zip_data(a: Seq<u8>, index: usize) -> Option<Seq<u8>>;

pub open spec fn opt_view(o: Option<String>) -> Option<Seq<char>> {
    match o {
        Some(s) => Some(s@),
        None => None,
    }
}

/// zip's `ZipArchive::new` on the bytes, then for each index `by_index`
/// giving `enclosed_name` (as text) and `is_dir`; the contract claims the
/// result is the name `zip_entries` of the bytes, and that an error (the
/// crate's message) comes exactly when that name gives nothing.
#[verifier::external_body]
fn zip_listing(bytes: &[u8]) -> (r: Result<Vec<(Option<String>, bool)>, String>)
    ensures
        match r {
            Ok(v) => zip_entries(bytes@) == Some(v@.map_values(|e: (Option<String>, bool)| (opt_view(e.0), e.1))),
            Err(_) => zip_entries(bytes@) is None,
        },
{
    let mut a = zip::ZipArchive::new(std::io::Cursor::new(bytes)).map_err(|e| e.to_string())?;
    (0..a.len())
        .map(|i| {
            a.by_index(i)
                .map(|e| (e.enclosed_name().map(|p| p.to_string_lossy().into_owned()), e.is_dir()))
                .map_err(|e| e.to_string())
        })
        .collect()
}

/// zip's `ZipArchive::new` on the bytes, then `by_index(index)` read to
/// the end; the contract claims the result is the name `zip_data` of the
/// bytes and the index, and that an error comes exactly when that name
/// gives nothing.
#[verifier::external_body]
fn zip_read(bytes: &[u8], index: usize) -> (r: Result<Vec<u8>, String>)
    ensures
        match r {
            Ok(d) => zip_data(bytes@, index) == Some(d@),
            Err(_) => zip_data(bytes@, index) is None,
        },
{
    let mut a = zip::ZipArchive::new(std::io::Cursor::new(bytes)).map_err(|e| e.to_string())?;
    let mut d = Vec::new();
    std::io::Read::read_to_end(&mut a.by_index(index).map_err(|e| e.to_string())?, &mut d).map_err(|e| e.to_string())?;
    Ok(d)
}

/// The entry as the unpack reads it: the enclosed name with backslashes
/// read as separators.
pub open spec fn listed_entry(e: (Option<Seq<char>>, bool), x: ArchiveEntry) -> bool {
    &&& x.is_dir == e.1
    &&& match e.0 {
        None => x.path is None,
        Some(p) => x.path matches Some(q) && q@ == crate::text::replace(p, '\\', "/"@),
    }
}

/// The entries of a loader package (a zip archive in `bytes`), for
/// `common_root` and `unpack_action`.
pub fn package_entries(bytes: &[u8]) -> (r: Result<Vec<ArchiveEntry>, crate::error::AppError>)
    ensures
        match zip_entries(bytes@) {
            None => r matches Err(crate::error::AppError::ExtractionFailed(_)),
            Some(es) => r matches Ok(v) && v@.len() == es.len() && forall|i: int|
                0 <= i < es.len() ==> listed_entry(es[i], #[trigger] v@[i]),
        },
{
    let listing = match zip_listing(bytes) {
        Ok(l) => l,
        Err(m) => return Err(crate::error::AppError::ExtractionFailed(m)),
    };
    let ghost es = listing@.map_values(|e: (Option<String>, bool)| (opt_view(e.0), e.1));
    let slash = chars_of("/");
    let mut out: Vec<ArchiveEntry> = Vec::new();
    let mut i: usize = 0;
    while i < listing.len()
        invariant
            i <= listing@.len(),
            es == listing@.map_values(|e: (Option<String>, bool)| (opt_view(e.0), e.1)),
            slash@ == "/"@,
            out@.len() == i,
            forall|k: int| 0 <= k < i ==> listed_entry(es[k], #[trigger] out@[k]),
        decreases listing.len() - i,
    {
        assert(es[i as int] == (opt_view(listing@[i as int].0), listing@[i as int].1));
        let path = match &listing[i].0 {
            Some(p) => {
                let v = chars_of(p.as_str());
                let r = crate::text::replace_chars(v.as_slice(), '\\', slash.as_slice());
                Some(string_of(r.as_slice()))
            },
            None => None,
        };
        out.push(ArchiveEntry { path, is_dir: listing[i].1 });
        i = i + 1;
    }
    Ok(out)
}

/// The data of entry `index` of a loader package.
pub fn package_file(bytes: &[u8], index: usize) -> (r: Result<Vec<u8>, crate::error::AppError>)
    ensures
        match zip_data(bytes@, index) {
            Some(d) => r matches Ok(x) && x@ == d,
            None => r matches Err(crate::error::AppError::ExtractionFailed(_)),
        },
{
    match zip_read(bytes, index) {
        Ok(d) => Ok(d),
        Err(m) => Err(crate::error::AppError::ExtractionFailed(m)),
    }
}

} // verus!
