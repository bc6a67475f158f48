//! OptiScaler: DLSS inputs handed to FSR or XeSS on GPUs without DLSS. The
//! launcher installs it next to the game under a proxy DLL name and tunes
//! its ini for the machine; this module holds that tuning, the rules for
//! which archive entries land where, and what an uninstall removes.

use vstd::prelude::*;
use crate::error::AppError;
use crate::text::same_text;

use crate::text::{
    chars_of, contains_sub, eq_ic, eq_ignore_case, has_sub, join, join_chars, push_all, push_str,
    split, split_chars, split_once, split_once_chars, string_of, strip_trailing, strip_trailing_chars,
    trim, trimmed, views, is_ws, trim_start, trim_end, find, lower, occurs_at,
};

verus! {

/// The name `OptiScaler.dll` is installed under: a loader name the project
/// supports, loaded by every Unity game and not on Windows' KnownDLLs list.
pub const PROXY_DLL: &'static str = "winmm.dll";

/// How the install is tuned for the machine it lands on.
#[derive(Debug, Clone, Copy, Default)]
pub struct InstallOptions {
    /// The game runs under Wine, where OptiScaler's ntdll hooks are the ones
    /// that catch the upscaler inputs.
    pub wine: bool,
    /// No NVIDIA driver and the Vulkan renderer: the GPU has to be spoofed at
    /// the Vulkan level for the game to offer DLSS at all.
    pub spoof_vulkan: bool,
}

/// What the launcher knows about OptiScaler in the game directory.
#[derive(Debug, Clone)]
pub struct OptiScalerStatus {
    pub installed: bool,
    pub version: String,
    pub game_dir_missing: bool,
}

/// The tuning for the host the launcher runs on: on Linux the game runs
/// under Wine, and without an NVIDIA driver its GPU is spoofed at the Vulkan
/// level; elsewhere nothing is changed.
pub fn host_options(linux: bool, nvidia_driver: bool) -> (r: InstallOptions)
    ensures
        r.wine == linux,
        r.spoof_vulkan == (linux && !nvidia_driver),
{
    InstallOptions { wine: linux, spoof_vulkan: linux && !nvidia_driver }
}

/// The GitHub repository OptiScaler is released from.
pub const REPO: &'static str = "optiscaler/OptiScaler";

/// A release asset that is the 7-Zip archive of the release, in any case.
pub open spec fn seven_zip_asset(name: Seq<char>) -> bool {
    crate::text::ends_with(crate::text::lowercase(name), ".7z"@)
}

/// Which asset of the latest release to download: the first 7-Zip
/// archive among `names`; the release is refused when it has none.
pub fn archive_asset(names: &[String]) -> (r: Result<usize, crate::error::AppError>)
    ensures
        match r {
            Ok(i) => i < names@.len() && seven_zip_asset(names@[i as int]@) && forall|j: int|
                0 <= j < i ==> !seven_zip_asset(#[trigger] names@[j]@),
            Err(e) => (forall|j: int| 0 <= j < names@.len() ==> !seven_zip_asset(#[trigger] names@[j]@)) && (e
                matches crate::error::AppError::Api(m) && m@ == "The latest "@ + REPO@ + " release has no .7z asset"@),
        },
{
    let mut i: usize = 0;
    while i < names.len()
        invariant
            i <= names@.len(),
            forall|j: int| 0 <= j < i ==> !seven_zip_asset(#[trigger] names@[j]@),
        decreases names.len() - i,
    {
        let l = crate::text::to_lowercase(names[i].as_str());
        let z = chars_of(".7z");
        if crate::text::has_suffix(l.as_slice(), z.as_slice()) {
            return Ok(i);
        }
        i = i + 1;
    }
    let mut m: Vec<char> = Vec::new();
    push_str(&mut m, "The latest ");
    push_str(&mut m, REPO);
    push_str(&mut m, " release has no .7z asset");
    Err(crate::error::AppError::Api(string_of(m.as_slice())))
}

/// The record of an install: the release tag, then every file written.
pub const MANIFEST: &'static str = "OptiScaler.llauncher-manifest";

/// The ini OptiScaler reads beside its DLL.
pub const INI: &'static str = "OptiScaler.ini";

/// The two files whose presence says OptiScaler is installed under the
/// launcher's proxy name: the proxy DLL and the ini beside it.
pub fn install_probe_paths(game_dir: &str) -> (r: (String, String))
    ensures
        r.0@ == crate::paths::join_path(game_dir@, PROXY_DLL@),
        r.1@ == crate::paths::join_path(game_dir@, INI@),
{
    (crate::paths::join(game_dir, PROXY_DLL), crate::paths::join(game_dir, INI))
}

/// Installed means both probe paths are regular files.
pub fn installed_from(proxy_is_file: bool, ini_is_file: bool) -> (b: bool)
    ensures
        b == (proxy_is_file && ini_is_file),
{
    proxy_is_file && ini_is_file
}

/// Is OptiScaler installed under the launcher's proxy name? A hand-made
/// install under another name is left alone. The two paths of
/// `install_probe_paths` are probed and `installed_from` decides; what the
/// probes answer rests on the disk, so the answer itself is not promised.
pub fn is_installed(game_dir: &str) -> bool {
    let (proxy, ini) = install_probe_paths(game_dir);
    installed_from(crate::paths::is_file(proxy.as_str()), crate::paths::is_file(ini.as_str()))
}

#[derive(Debug, Clone)]
pub struct InstallResult {
    pub version: String,
    pub files: usize,
}

// ---------------------------------------------------------------------------
// Editing an ini file
// ---------------------------------------------------------------------------

/// The text's lines as `set_ini_key` sees them: split at `\n`, each without
/// its trailing `\r`s.
pub open spec fn ini_pieces(ini: Seq<char>) -> Seq<Seq<char>> {
    split(ini, '\n').map_values(|l: Seq<char>| strip_trailing(l, '\r'))
}

/// The text ends with a newline: its last piece is empty.
pub open spec fn ends_with_newline(ini: Seq<char>) -> bool {
    ini_pieces(ini).last().len() == 0
}

/// The lines of the text, the empty piece after a final newline dropped.
pub open spec fn ini_lines(ini: Seq<char>) -> Seq<Seq<char>> {
    if ends_with_newline(ini) {
        ini_pieces(ini).drop_last()
    } else {
        ini_pieces(ini)
    }
}

/// The line ending the text already uses: CRLF if it has one anywhere.
pub open spec fn ini_eol(ini: Seq<char>) -> Seq<char> {
    if has_sub(ini, "\r\n"@) {
        "\r\n"@
    } else {
        "\n"@
    }
}

/// A section header: a line that starts with `[` once trimmed.
pub open spec fn is_header(l: Seq<char>) -> bool {
    trim(l).len() > 0 && trim(l)[0] == '['
}

/// A `key = value` line for `key`, compared trimmed and case-insensitively.
pub open spec fn is_key_line(l: Seq<char>, key: Seq<char>) -> bool {
    match split_once(trim(l), '=') {
        Some((k, _)) => eq_ic(trim(k), key),
        None => false,
    }
}

/// The first header at or after `k` that names the section `hdr`, or -1.
pub open spec fn section_start(ls: Seq<Seq<char>>, hdr: Seq<char>, k: int) -> int
    decreases ls.len() - k,
{
    if k < 0 || k >= ls.len() {
        -1
    } else if is_header(ls[k]) && eq_ic(trim(ls[k]), hdr) {
        k
    } else {
        section_start(ls, hdr, k + 1)
    }
}

/// The first header at or after `k`, or the number of lines.
pub open spec fn next_header(ls: Seq<Seq<char>>, k: int) -> int
    decreases ls.len() - k,
{
    if k < 0 || k >= ls.len() {
        ls.len() as int
    } else if is_header(ls[k]) {
        k
    } else {
        next_header(ls, k + 1)
    }
}

/// The first line for `key` in `[k, e)`, or -1.
pub open spec fn key_line(ls: Seq<Seq<char>>, key: Seq<char>, k: int, e: int) -> int
    decreases e - k,
{
    if k < 0 || k >= e || k >= ls.len() {
        -1
    } else if is_key_line(ls[k], key) {
        k
    } else {
        key_line(ls, key, k + 1, e)
    }
}

/// Where a new key goes in front of the header at `at`: before the blank
/// lines that pad that header.
pub open spec fn slot_before(ls: Seq<Seq<char>>, at: int) -> int
    decreases at,
{
    if at > 0 && at <= ls.len() && trim(ls[at - 1]).len() == 0 {
        slot_before(ls, at - 1)
    } else {
        at
    }
}

/// The lines once `key=value` is set in `[section]`: the key's line replaced
/// if the section has it, else the entry added at the end of the section
/// (before the blank lines padding the next header), else a new section,
/// set off by a blank line, at the end of the text.
pub open spec fn set_lines(ls: Seq<Seq<char>>, section: Seq<char>, key: Seq<char>, value: Seq<char>) -> Seq<Seq<char>> {
    let hdr = "["@ + section + "]"@;
    let entry = key + "="@ + value;
    let h = section_start(ls, hdr, 0);
    if h < 0 {
        (if ls.len() > 0 { ls.push(Seq::empty()) } else { ls }).push(hdr).push(entry)
    } else {
        let e = next_header(ls, h + 1);
        let r = key_line(ls, key, h + 1, e);
        if r >= 0 {
            ls.update(r, entry)
        } else if e < ls.len() {
            ls.insert(slot_before(ls, e), entry)
        } else {
            ls.push(entry)
        }
    }
}

/// The whole text after `set_ini_key`: the lines joined with the text's own
/// line ending, and a final line ending where the text had one.
pub open spec fn set_ini_text(ini: Seq<char>, section: Seq<char>, key: Seq<char>, value: Seq<char>) -> Seq<char> {
    join(set_lines(ini_lines(ini), section, key, value), ini_eol(ini)) + if ends_with_newline(ini) {
        ini_eol(ini)
    } else {
        Seq::empty()
    }
}

fn is_header_line(l: &[char]) -> (b: bool)
    ensures
        b == is_header(l@),
{
    let t = trimmed(l);
    t.len() > 0 && t[0] == '['
}

fn is_key(l: &[char], key: &[char]) -> (b: bool)
    ensures
        b == is_key_line(l@, key@),
{
    let t = trimmed(l);
    match split_once_chars(t.as_slice(), '=') {
        Some((k, _)) => {
            let kt = trimmed(k.as_slice());
            eq_ignore_case(kt.as_slice(), key)
        },
        None => false,
    }
}

fn lines_of_ini(ini: &[char]) -> (r: (Vec<Vec<char>>, bool))
    ensures
        views(r.0@) == ini_lines(ini@),
        r.1 == ends_with_newline(ini@),
{
    let pieces = split_chars(ini, '\n');
    let ghost pv = views(pieces@);
    let mut out: Vec<Vec<char>> = Vec::new();
    let mut i: usize = 0;
    while i < pieces.len()
        invariant
            i <= pieces@.len(),
            pv == views(pieces@),
            pv == split(ini@, '\n'),
            views(out@) == ini_pieces(ini@).take(i as int),
        decreases pieces.len() - i,
    {
        let ghost o0 = out@;
        let l = strip_trailing_chars(pieces[i].as_slice(), '\r');
        out.push(l);
        proof {
            crate::text::lemma_views_push(o0, l);
        }
        assert(views(out@) =~= ini_pieces(ini@).take(i + 1));
        i = i + 1;
    }
    assert(ini_pieces(ini@).take(i as int) =~= ini_pieces(ini@));
    proof {
        crate::text::lemma_split_nonempty(ini@, '\n');
    }
    let trailing = out[out.len() - 1].len() == 0;
    if trailing {
        let ghost o0 = out@;
        out.pop();
        assert(views(out@) =~= views(o0).drop_last());
    }
    (out, trailing)
}

/// Set `key=value` inside `[section]`, replacing the key if the section has
/// it and adding it to the section otherwise. Line endings are kept as
/// found; comments and order are untouched.
pub fn set_ini_key(ini: &str, section: &str, key: &str, value: &str) -> (r: String)
    ensures
        r@ == set_ini_text(ini@, section@, key@, value@),
{
    let text = chars_of(ini);
    let crlf_v = chars_of("\r\n");
    let crlf = contains_sub(text.as_slice(), crlf_v.as_slice());
    let eol = if crlf { chars_of("\r\n") } else { chars_of("\n") };
    let mut hdr: Vec<char> = Vec::new();
    push_str(&mut hdr, "[");
    push_str(&mut hdr, section);
    push_str(&mut hdr, "]");
    let keyv = chars_of(key);
    let mut entry: Vec<char> = Vec::new();
    push_str(&mut entry, key);
    push_str(&mut entry, "=");
    push_str(&mut entry, value);
    let (mut lines, trailing) = lines_of_ini(text.as_slice());
    let ghost ls = views(lines@);
    let n = lines.len();
    // The section's header.
    let mut h: usize = 0;
    while h < n && !(is_header_line(lines[h].as_slice()) && eq_ignore_case(
        trimmed(lines[h].as_slice()).as_slice(),
        hdr.as_slice(),
    ))
        invariant
            n == lines@.len(),
            ls == views(lines@),
            h <= n,
            section_start(ls, hdr@, 0) == section_start(ls, hdr@, h as int),
        decreases n - h,
    {
        h = h + 1;
    }
    let ghost hs = section_start(ls, hdr@, 0);
    if h == n {
        let ghost l0 = lines@;
        if n > 0 {
            lines.push(Vec::new());
        }
        lines.push(hdr);
        lines.push(entry);
        proof {
            assert(views(lines@) =~= set_lines(ls, section@, key@, value@));
        }
    } else {
        assert(hs == h);
        // The end of the section.
        let mut e: usize = h + 1;
        while e < n && !is_header_line(lines[e].as_slice())
            invariant
                n == lines@.len(),
                ls == views(lines@),
                h < e <= n,
                next_header(ls, h + 1) == next_header(ls, e as int),
            decreases n - e,
        {
            e = e + 1;
        }
        assert(next_header(ls, h + 1) == e);
        // The key's line inside the section.
        let mut k: usize = h + 1;
        while k < e && !is_key(lines[k].as_slice(), keyv.as_slice())
            invariant
                n == lines@.len(),
                ls == views(lines@),
                h < k <= e <= n,
                keyv@ == key@,
                key_line(ls, key@, h + 1, e as int) == key_line(ls, key@, k as int, e as int),
            decreases e - k,
        {
            assert(ls[k as int] == lines@[k as int]@);
            k = k + 1;
        }
        if k < e {
            assert(key_line(ls, key@, h + 1, e as int) == k);
            lines.set(k, entry);
            assert(views(lines@) =~= set_lines(ls, section@, key@, value@));
        } else if e < n {
            let mut at: usize = e;
            while at > 0 && trimmed(lines[at - 1].as_slice()).len() == 0
                invariant
                    n == lines@.len(),
                    ls == views(lines@),
                    at <= e < n,
                    slot_before(ls, e as int) == slot_before(ls, at as int),
                decreases at,
            {
                at = at - 1;
            }
            lines.insert(at, entry);
            assert(views(lines@) =~= set_lines(ls, section@, key@, value@));
        } else {
            lines.push(entry);
            assert(views(lines@) =~= set_lines(ls, section@, key@, value@));
        }
    }
    let mut out = join_chars(lines.as_slice(), eol.as_slice());
    if trailing {
        push_all(&mut out, eol.as_slice());
    }
    assert(out@ =~= set_ini_text(ini@, section@, key@, value@));
    string_of(out.as_slice())
}

} // verus!

verus! {

/// The settings the launcher applies on top of OptiScaler's defaults: the
/// ntdll hooks under Wine, Vulkan-level GPU spoofing without an NVIDIA
/// driver, and FSR 3.1 as the Vulkan upscaler.
pub open spec fn tune_text(ini: Seq<char>, o: InstallOptions) -> Seq<char> {
    let t1 = if o.wine {
        set_ini_text(ini, "Hooks"@, "UseNtdllHooks"@, "false"@)
    } else {
        ini
    };
    let t2 = if o.spoof_vulkan {
        set_ini_text(
            set_ini_text(t1, "Spoofing"@, "Vulkan"@, "true"@),
            "Spoofing"@,
            "VulkanExtensionSpoofing"@,
            "true"@,
        )
    } else {
        t1
    };
    set_ini_text(t2, "Upscalers"@, "VulkanUpscaler"@, "fsr31"@)
}

pub fn tune_ini(ini: &str, options: InstallOptions) -> (r: String)
    ensures
        r@ == tune_text(ini@, options),
{
    let mut text = crate::text::to_owned_string(ini);
    if options.wine {
        text = set_ini_key(text.as_str(), "Hooks", "UseNtdllHooks", "false");
    }
    if options.spoof_vulkan {
        text = set_ini_key(text.as_str(), "Spoofing", "Vulkan", "true");
        text = set_ini_key(text.as_str(), "Spoofing", "VulkanExtensionSpoofing", "true");
    }
    set_ini_key(text.as_str(), "Upscalers", "VulkanUpscaler", "fsr31")
}

// ---------------------------------------------------------------------------
// Archive entries
// ---------------------------------------------------------------------------

/// Archive entries that do not belong in the game directory: the archive's
/// own setup scripts and the loose text files at its top level.
pub open spec fn skipped(rel: Seq<char>) -> bool {
    let lower = crate::text::lowercase(rel);
    ||| lower == "setup_linux.sh"@
    ||| lower == "setup_windows.bat"@
    ||| crate::text::starts_with(lower, "!!"@)
    ||| (crate::text::ends_with(lower, ".txt"@) && crate::text::find(lower, '/') < 0)
}

pub fn is_skipped(rel: &str) -> (b: bool)
    ensures
        b == skipped(rel@),
{
    let lower = crate::text::to_lowercase(rel);
    let l = lower.as_slice();
    let a = chars_of("setup_linux.sh");
    let w = chars_of("setup_windows.bat");
    let bang = chars_of("!!");
    let txt = chars_of(".txt");
    crate::text::eq_chars(l, a.as_slice()) || crate::text::eq_chars(l, w.as_slice())
        || crate::text::has_prefix(l, bang.as_slice()) || (crate::text::has_suffix(l, txt.as_slice())
        && crate::text::find_opt(l, '/').is_none())
}

/// `s` without every leading copy of `p`, as `trim_start_matches`.
pub open spec fn strip_prefixes(s: Seq<char>, p: Seq<char>) -> Seq<char>
    decreases s.len(),
{
    if p.len() > 0 && crate::text::starts_with(s, p) {
        strip_prefixes(s.skip(p.len() as int), p)
    } else {
        s
    }
}

/// A relative name that stays inside the directory it is joined to: not
/// absolute, not `.`, and no `..` component.
pub open spec fn stays_inside(name: Seq<char>) -> bool {
    &&& !(name.len() > 0 && name[0] == '/')
    &&& name != "."@
    &&& !split(name, '/').contains(".."@)
}

/// Where an archive entry lands in the game directory, relative to it, or
/// nothing for an entry that stays out: backslashes read as separators,
/// leading `./` dropped, nothing empty, absolute or climbing out, none of
/// the archive's installer files, and `OptiScaler.dll` under the proxy name.
pub open spec fn entry_target_of(name: Seq<char>) -> Option<Seq<char>> {
    let n = strip_prefixes(crate::text::replace(name, '\\', "/"@), "./"@);
    if n.len() == 0 || !stays_inside(n) || skipped(n) {
        None
    } else if eq_ic(n, "OptiScaler.dll"@) {
        Some(PROXY_DLL@)
    } else {
        Some(n)
    }
}

fn strip_prefixes_chars(s: &[char], p: &[char]) -> (r: Vec<char>)
    requires
        p@.len() > 0,
    ensures
        r@ == strip_prefixes(s@, p@),
{
    let mut a: usize = 0;
    assert(s@.skip(0) =~= s@);
    loop
        invariant
            a <= s@.len(),
            p@.len() > 0,
            strip_prefixes(s@, p@) == strip_prefixes(s@.skip(a as int), p@),
        decreases s@.len() - a,
    {
        let rest = crate::text::slice_of(s, a, s.len());
        assert(rest@ =~= s@.skip(a as int));
        if !crate::text::has_prefix(rest.as_slice(), p) {
            return rest;
        }
        assert(s@.skip(a as int).skip(p@.len() as int) =~= s@.skip(a + p@.len()));
        a = a + p.len();
    }
}

fn has_dotdot(parts: &[Vec<char>]) -> (b: bool)
    ensures
        b == views(parts@).contains(".."@),
{
    let dd = chars_of("..");
    let mut i: usize = 0;
    while i < parts.len()
        invariant
            i <= parts@.len(),
            dd@ == ".."@,
            forall|j: int| 0 <= j < i ==> views(parts@)[j] != ".."@,
        decreases parts.len() - i,
    {
        if crate::text::eq_chars(parts[i].as_slice(), dd.as_slice()) {
            assert(views(parts@)[i as int] == ".."@);
            return true;
        }
        i = i + 1;
    }
    false
}

pub fn entry_target(name: &str) -> (r: Option<String>)
    ensures
        match r {
            Some(t) => entry_target_of(name@) == Some(t@),
            None => entry_target_of(name@) is None,
        },
{
    let v = chars_of(name);
    let slash = chars_of("/");
    let swapped = crate::text::replace_chars(v.as_slice(), '\\', slash.as_slice());
    let dot_slash = chars_of("./");
    proof {
        reveal_strlit("./");
    }
    let n = strip_prefixes_chars(swapped.as_slice(), dot_slash.as_slice());
    if n.len() == 0 {
        return None;
    }
    let dot = chars_of(".");
    let parts = split_chars(n.as_slice(), '/');
    if n[0] == '/' || crate::text::eq_chars(n.as_slice(), dot.as_slice()) || has_dotdot(parts.as_slice()) {
        return None;
    }
    let ns = string_of(n.as_slice());
    if is_skipped(ns.as_str()) {
        return None;
    }
    let dll = chars_of("OptiScaler.dll");
    if eq_ignore_case(n.as_slice(), dll.as_slice()) {
        Some(crate::text::to_owned_string(PROXY_DLL))
    } else {
        Some(ns)
    }
}

// ---------------------------------------------------------------------------
// The install manifest
// ---------------------------------------------------------------------------

/// The manifest of an install: the release tag, then one installed file per
/// line.
pub open spec fn manifest_of(tag: Seq<char>, written: Seq<Seq<char>>) -> Seq<char>
    decreases written.len(),
{
    if written.len() == 0 {
        tag + "\n"@
    } else {
        manifest_of(tag, written.drop_last()) + written.last() + "\n"@
    }
}

pub fn manifest_text(tag: &str, written: &[String]) -> (r: String)
    ensures
        r@ == manifest_of(tag@, crate::text::string_views(written@)),
{
    let mut m: Vec<char> = Vec::new();
    push_str(&mut m, tag);
    push_str(&mut m, "\n");
    let ghost wv = crate::text::string_views(written@);
    assert(m@ =~= manifest_of(tag@, wv.take(0)));
    let mut i: usize = 0;
    while i < written.len()
        invariant
            i <= written@.len(),
            wv == crate::text::string_views(written@),
            m@ == manifest_of(tag@, wv.take(i as int)),
        decreases written.len() - i,
    {
        assert(wv.take(i + 1).drop_last() =~= wv.take(i as int));
        push_str(&mut m, written[i].as_str());
        push_str(&mut m, "\n");
        i = i + 1;
    }
    assert(wv.take(i as int) =~= wv);
    string_of(m.as_slice())
}

/// The release tag a manifest records: its first line, trimmed; empty for
/// an empty manifest.
pub open spec fn manifest_version_of(m: Seq<char>) -> Seq<char> {
    if crate::text::lines(m).len() > 0 {
        trim(crate::text::lines(m)[0])
    } else {
        Seq::empty()
    }
}

pub fn manifest_version(manifest: &str) -> (r: String)
    ensures
        r@ == manifest_version_of(manifest@),
{
    let v = chars_of(manifest);
    let ls = crate::text::lines_chars(v.as_slice());
    if ls.len() > 0 {
        assert(views(ls@)[0] == ls@[0]@);
        let t = trimmed(ls[0].as_slice());
        string_of(t.as_slice())
    } else {
        String::new()
    }
}

} // verus!

verus! {

/// What a hand-made or manifest-less install may have left behind: the
/// files of the current release.
pub open spec fn known_files() -> Seq<Seq<char>> {
    seq![
        "OptiScaler.ini"@,
        "fakenvapi.ini"@,
        "fakenvapi.dll"@,
        "amd_fidelityfx_dx12.dll"@,
        "amd_fidelityfx_framegeneration_dx12.dll"@,
        "amd_fidelityfx_upscaler_dx12.dll"@,
        "amd_fidelityfx_vk.dll"@,
        "dlssg_to_fsr3_amd_is_better.dll"@,
        "libxell.dll"@,
        "libxess.dll"@,
        "libxess_dx11.dll"@,
        "libxess_fg.dll"@,
        "nvngx.dll"@,
        "setup_linux.sh"@,
        "setup_windows.bat"@,
        "remove_optiscaler.sh"@,
        "!! README_EXTRACT ALL FILES TO GAME FOLDER !!.txt"@,
    ]
}

/// The logs OptiScaler and its bundled helpers write at run time.
pub open spec fn log_files() -> Seq<Seq<char>> {
    seq!["OptiScaler.log"@, "fakenvapi.log"@, "dlssg_to_fsr3.log"@]
}

/// The directories OptiScaler creates itself, removed wholesale.
pub open spec fn known_dirs() -> Seq<Seq<char>> {
    seq!["D3D12_Optiscaler"@, "Licenses"@, "DlssOverrides"@, "OptiScaler"@]
}

/// The directories an uninstall removes wholesale: nothing of the user's
/// lives in them.
pub fn dirs_to_remove() -> (r: Vec<String>)
    ensures
        crate::text::string_views(r@) == known_dirs(),
{
    let mut v: Vec<String> = Vec::new();
    push_string(&mut v, "D3D12_Optiscaler");
    push_string(&mut v, "Licenses");
    push_string(&mut v, "DlssOverrides");
    push_string(&mut v, "OptiScaler");
    assert(crate::text::string_views(v@) =~= known_dirs());
    v
}

/// Every line but the first.
pub open spec fn after_first(ls: Seq<Seq<char>>) -> Seq<Seq<char>> {
    if ls.len() > 0 {
        ls.skip(1)
    } else {
        Seq::empty()
    }
}

pub open spec fn trimmed_all(ls: Seq<Seq<char>>) -> Seq<Seq<char>> {
    ls.map_values(|l: Seq<char>| trim(l))
}

pub open spec fn non_empty(ls: Seq<Seq<char>>) -> Seq<Seq<char>> {
    ls.filter(|l: Seq<char>| l.len() > 0)
}

/// The files an uninstall removes from the game directory, relative to it:
/// those the manifest lists (every line after the tag), or the known list
/// when there is no manifest, then the proxy and the logs; empty names left
/// out.
pub open spec fn files_to_remove_of(manifest: Option<Seq<char>>) -> Seq<Seq<char>> {
    let listed = match manifest {
        Some(m) => trimmed_all(after_first(crate::text::lines(m))),
        None => known_files(),
    };
    non_empty(listed + seq![PROXY_DLL@] + log_files())
}

fn push_string(v: &mut Vec<String>, s: &str)
    ensures
        crate::text::string_views(final(v)@) == crate::text::string_views(old(v)@).push(s@),
{
    let ghost v0 = v@;
    let t = crate::text::to_owned_string(s);
    v.push(t);
    proof {
        crate::text::lemma_string_views_push(v0, t);
    }
}

fn known_file_list() -> (r: Vec<String>)
    ensures
        crate::text::string_views(r@) == known_files(),
{
    let mut v: Vec<String> = Vec::new();
    push_string(&mut v, "OptiScaler.ini");
    push_string(&mut v, "fakenvapi.ini");
    push_string(&mut v, "fakenvapi.dll");
    push_string(&mut v, "amd_fidelityfx_dx12.dll");
    push_string(&mut v, "amd_fidelityfx_framegeneration_dx12.dll");
    push_string(&mut v, "amd_fidelityfx_upscaler_dx12.dll");
    push_string(&mut v, "amd_fidelityfx_vk.dll");
    push_string(&mut v, "dlssg_to_fsr3_amd_is_better.dll");
    push_string(&mut v, "libxell.dll");
    push_string(&mut v, "libxess.dll");
    push_string(&mut v, "libxess_dx11.dll");
    push_string(&mut v, "libxess_fg.dll");
    push_string(&mut v, "nvngx.dll");
    push_string(&mut v, "setup_linux.sh");
    push_string(&mut v, "setup_windows.bat");
    push_string(&mut v, "remove_optiscaler.sh");
    push_string(&mut v, "!! README_EXTRACT ALL FILES TO GAME FOLDER !!.txt");
    assert(crate::text::string_views(v@) =~= known_files());
    v
}

pub fn files_to_remove(manifest: Option<&str>) -> (r: Vec<String>)
    ensures
        crate::text::string_views(r@) == files_to_remove_of(
            match manifest {
                Some(m) => Some(m@),
                None => None,
            },
        ),
{
    let mut listed: Vec<String> = Vec::new();
    match manifest {
        Some(m) => {
            let v = chars_of(m);
            let ls = crate::text::lines_chars(v.as_slice());
            let ghost lv = views(ls@);
            let mut i: usize = 1;
            assert(trimmed_all(after_first(lv)).take(0) =~= crate::text::string_views(listed@));
            while i < ls.len()
                invariant
                    1 <= i <= ls@.len() || (ls@.len() == 0 && i == 1),
                    lv == views(ls@),
                    crate::text::string_views(listed@) == trimmed_all(after_first(lv)).take(i - 1),
                decreases ls.len() - i,
            {
                let ghost l0 = listed@;
                let t = trimmed(ls[i].as_slice());
                let ts = string_of(t.as_slice());
                listed.push(ts);
                proof {
                    crate::text::lemma_string_views_push(l0, ts);
                }
                assert(crate::text::string_views(listed@) =~= trimmed_all(after_first(lv)).take(i as int));
                i = i + 1;
            }
            assert(trimmed_all(after_first(lv)).take(i - 1) =~= trimmed_all(after_first(lv)));
        },
        None => {
            listed = known_file_list();
        },
    }
    let ghost base = crate::text::string_views(listed@);
    push_string(&mut listed, PROXY_DLL);
    push_string(&mut listed, "OptiScaler.log");
    push_string(&mut listed, "fakenvapi.log");
    push_string(&mut listed, "dlssg_to_fsr3.log");
    let ghost all = crate::text::string_views(listed@);
    assert(all =~= base + seq![PROXY_DLL@] + log_files());
    let mut out: Vec<String> = Vec::new();
    let mut i: usize = 0;
    while i < listed.len()
        invariant
            i <= listed@.len(),
            all == crate::text::string_views(listed@),
            crate::text::string_views(out@) == non_empty(all.take(i as int)),
        decreases listed.len() - i,
    {
        let ghost o0 = out@;
        assert(all.take(i + 1) =~= all.take(i as int).push(all[i as int]));
        proof {
            all.take(i as int).lemma_filter_push(all[i as int], |l: Seq<char>| l.len() > 0);
        }
        if listed[i].as_str().unicode_len() > 0 {
            let s = listed[i].clone();
            out.push(s);
            proof {
                crate::text::lemma_string_views_push(o0, s);
            }
        }
        i = i + 1;
    }
    assert(all.take(i as int) =~= all);
    out
}

} // verus!

verus! {

/// A key as the launcher writes it: not empty, no whitespace at either end,
/// no `=`, and not starting with `[`.
pub open spec fn plain_key(key: Seq<char>) -> bool {
    &&& key.len() > 0
    &&& !is_ws(key[0])
    &&& !is_ws(key.last())
    &&& key[0] != '['
    &&& forall|i: int| 0 <= i < key.len() ==> key[i] != '='
}

/// The header line of section `section`.
pub open spec fn header_of(section: Seq<char>) -> Seq<char> {
    "["@ + section + "]"@
}

/// The line `key=value`.
pub open spec fn entry_of(key: Seq<char>, value: Seq<char>) -> Seq<char> {
    key + "="@ + value
}

/// Line `l` opens the section whose header is `hdr`.
pub open spec fn opens(l: Seq<char>, hdr: Seq<char>) -> bool {
    is_header(l) && eq_ic(trim(l), hdr)
}

proof fn lemma_trim_end_prefix(s: Seq<char>, j: int)
    requires
        0 <= j < s.len(),
        !is_ws(s[j]),
    ensures
        j < trim_end(s).len() <= s.len(),
        trim_end(s) == s.take(trim_end(s).len() as int),
    decreases s.len(),
{
    if is_ws(s.last()) {
        lemma_trim_end_prefix(s.drop_last(), j);
        assert(s.drop_last().take(trim_end(s).len() as int) =~= s.take(trim_end(s).len() as int));
    } else {
        assert(s.take(s.len() as int) =~= s);
    }
}

proof fn lemma_trim_ends_kept(s: Seq<char>)
    requires
        s.len() > 0,
        !is_ws(s[0]),
        !is_ws(s.last()),
    ensures
        trim(s) == s,
{
}

proof fn lemma_eq_ic_refl(s: Seq<char>)
    ensures
        eq_ic(s, s),
{
}

/// The entry line is a line for its key, and no header.
proof fn lemma_entry_line(key: Seq<char>, value: Seq<char>)
    requires
        plain_key(key),
    ensures
        is_key_line(entry_of(key, value), key),
        !is_header(entry_of(key, value)),
{
    reveal_strlit("=");
    let e = entry_of(key, value);
    let n = key.len() as int;
    assert(e[0] == key[0]);
    assert(e[n] == '=');
    assert(trim_start(e) == e);
    lemma_trim_end_prefix(e, n);
    let t = trim(e);
    assert(t == e.take(t.len() as int));
    assert(t[0] == key[0]);
    assert forall|j: int| 0 <= j < n implies t[j] != '=' by {
        assert(t[j] == key[j]);
    }
    crate::text::lemma_find_at(t, '=', n);
    assert(t.take(n) =~= key);
    lemma_trim_ends_kept(key);
    lemma_eq_ic_refl(key);
}

/// A line for a plain key is no header.
proof fn lemma_key_line_not_header(l: Seq<char>, key: Seq<char>)
    requires
        plain_key(key),
        is_key_line(l, key),
    ensures
        !is_header(l),
{
    let t = trim(l);
    let k = find(t, '=');
    crate::text::lemma_find_bounds(t, '=');
    let kp = t.take(k);
    assert(trim(kp).len() == key.len());
    if is_header(l) {
        assert(k > 0) by {
            if k == 0 {
                assert(kp.len() == 0);
                assert(trim(kp) =~= Seq::<char>::empty());
            }
        }
        assert(kp[0] == '[');
        assert(trim_start(kp) == kp);
        lemma_trim_end_prefix(kp, 0);
        assert(trim(kp)[0] == '[');
        assert(lower(trim(kp)[0]) == lower(key[0]));
    }
}

/// The section's header line opens it.
proof fn lemma_header_opens(section: Seq<char>)
    ensures
        opens(header_of(section), header_of(section)),
{
    reveal_strlit("[");
    reveal_strlit("]");
    let h = header_of(section);
    assert(h[0] == '[');
    assert(h.last() == ']');
    lemma_trim_ends_kept(h);
    lemma_eq_ic_refl(h);
}

proof fn lemma_section_start(ls: Seq<Seq<char>>, hdr: Seq<char>, k: int)
    requires
        0 <= k,
    ensures
        ({
            let r = section_start(ls, hdr, k);
            ||| (r == -1 && forall|j: int| k <= j < ls.len() ==> !opens(#[trigger] ls[j], hdr))
            ||| (k <= r < ls.len() && opens(ls[r], hdr) && forall|j: int| k <= j < r ==> !opens(#[trigger] ls[j], hdr))
        }),
    decreases ls.len() - k,
{
    if k < ls.len() && !(is_header(ls[k]) && eq_ic(trim(ls[k]), hdr)) {
        lemma_section_start(ls, hdr, k + 1);
    }
}

proof fn lemma_next_header(ls: Seq<Seq<char>>, k: int)
    requires
        0 <= k <= ls.len(),
    ensures
        ({
            let r = next_header(ls, k);
            &&& k <= r <= ls.len()
            &&& r < ls.len() ==> is_header(ls[r])
            &&& forall|j: int| k <= j < r ==> !is_header(#[trigger] ls[j])
        }),
    decreases ls.len() - k,
{
    if k < ls.len() && !is_header(ls[k]) {
        lemma_next_header(ls, k + 1);
    }
}

proof fn lemma_key_line(ls: Seq<Seq<char>>, key: Seq<char>, k: int, e: int)
    requires
        0 <= k,
        e <= ls.len(),
    ensures
        ({
            let r = key_line(ls, key, k, e);
            ||| (r == -1 && forall|j: int| k <= j < e ==> !is_key_line(#[trigger] ls[j], key))
            ||| (k <= r < e && is_key_line(ls[r], key) && forall|j: int| k <= j < r ==> !is_key_line(#[trigger] ls[j], key))
        }),
    decreases e - k,
{
    if k < e && !is_key_line(ls[k], key) {
        lemma_key_line(ls, key, k + 1, e);
    }
}

/// `slot_before` stays after a non-blank line `h` below `at`.
proof fn lemma_slot_before(ls: Seq<Seq<char>>, h: int, at: int)
    requires
        0 <= h < at <= ls.len(),
        trim(ls[h]).len() > 0,
    ensures
        h < slot_before(ls, at) <= at,
    decreases at,
{
    if at > 0 && at <= ls.len() && trim(ls[at - 1]).len() == 0 {
        lemma_slot_before(ls, h, at - 1);
    }
}

/// Setting a key takes effect and setting it again changes nothing: for a
/// plain key, afterwards the section exists and the first line for the key
/// in it is `key=value`, and a second setting finds that line and rewrites
/// it unchanged, whatever the lines were.
pub proof fn lemma_set_lines_idempotent(ls: Seq<Seq<char>>, section: Seq<char>, key: Seq<char>, value: Seq<char>)
    requires
        plain_key(key),
    ensures
        ({
            let ls1 = set_lines(ls, section, key, value);
            let h1 = section_start(ls1, header_of(section), 0);
            let r1 = key_line(ls1, key, h1 + 1, next_header(ls1, h1 + 1));
            &&& 0 <= h1 < r1 < ls1.len()
            &&& ls1[r1] == entry_of(key, value)
        }),
        set_lines(set_lines(ls, section, key, value), section, key, value) == set_lines(ls, section, key, value),
{
    let hdr = header_of(section);
    let entry = entry_of(key, value);
    assert(hdr == "["@ + section + "]"@);
    assert(entry == key + "="@ + value);
    lemma_entry_line(key, value);
    lemma_header_opens(section);
    let ls1 = set_lines(ls, section, key, value);
    let h = section_start(ls, hdr, 0);
    lemma_section_start(ls, hdr, 0);
    lemma_section_start(ls1, hdr, 0);
    if h < 0 {
        let base = if ls.len() > 0 { ls.push(Seq::empty()) } else { ls };
        let n = base.len() as int;
        assert(ls1 == base.push(hdr).push(entry));
        assert(trim(Seq::<char>::empty()) =~= Seq::<char>::empty());
        assert forall|j: int| 0 <= j < n implies !opens(#[trigger] ls1[j], hdr) by {
            assert(ls1[j] == base[j]);
            if j < ls.len() {
                assert(base[j] == ls[j]);
            }
        }
        assert(ls1[n] == hdr);
        assert(section_start(ls1, hdr, 0) == n);
        lemma_next_header(ls1, n + 1);
        assert(ls1[n + 1] == entry);
        assert(next_header(ls1, n + 1) == n + 2);
        lemma_key_line(ls1, key, n + 1, n + 2);
        assert(key_line(ls1, key, n + 1, n + 2) == n + 1);
        assert(ls1.update(n + 1, entry) =~= ls1);
    } else {
        let e = next_header(ls, h + 1);
        lemma_next_header(ls, h + 1);
        let r = key_line(ls, key, h + 1, e);
        lemma_key_line(ls, key, h + 1, e);
        if r >= 0 {
            lemma_key_line_not_header(ls[r], key);
            assert(ls1 == ls.update(r, entry));
            assert forall|j: int| 0 <= j < h implies !opens(#[trigger] ls1[j], hdr) by {
                assert(ls1[j] == ls[j]);
            }
            assert(ls1[h] == ls[h]);
            assert(section_start(ls1, hdr, 0) == h);
            lemma_next_header(ls1, h + 1);
            assert forall|j: int| h + 1 <= j < e implies !is_header(#[trigger] ls1[j]) by {
                if j != r {
                    assert(ls1[j] == ls[j]);
                }
            }
            if e < ls.len() {
                assert(ls1[e] == ls[e]);
            }
            assert(next_header(ls1, h + 1) == e);
            lemma_key_line(ls1, key, h + 1, e);
            assert forall|j: int| h + 1 <= j < r implies !is_key_line(#[trigger] ls1[j], key) by {
                assert(ls1[j] == ls[j]);
            }
            assert(ls1[r] == entry);
            assert(key_line(ls1, key, h + 1, e) == r);
            assert(ls1.update(r, entry) =~= ls1);
        } else if e < ls.len() {
            assert(trim(ls[h]).len() > 0);
            lemma_slot_before(ls, h, e);
            let j = slot_before(ls, e);
            assert(ls1 == ls.insert(j, entry));
            assert forall|i: int| 0 <= i < h implies !opens(#[trigger] ls1[i], hdr) by {
                assert(ls1[i] == ls[i]);
            }
            assert(ls1[h] == ls[h]);
            assert(section_start(ls1, hdr, 0) == h);
            lemma_next_header(ls1, h + 1);
            assert forall|i: int| h + 1 <= i < e + 1 implies !is_header(#[trigger] ls1[i]) by {
                if i < j {
                    assert(ls1[i] == ls[i]);
                } else if i > j {
                    assert(ls1[i] == ls[i - 1]);
                }
            }
            assert(ls1[e + 1] == ls[e]);
            assert(next_header(ls1, h + 1) == e + 1);
            lemma_key_line(ls1, key, h + 1, e + 1);
            assert forall|i: int| h + 1 <= i < j implies !is_key_line(#[trigger] ls1[i], key) by {
                assert(ls1[i] == ls[i]);
            }
            assert(ls1[j] == entry);
            assert(key_line(ls1, key, h + 1, e + 1) == j);
            assert(ls1.update(j, entry) =~= ls1);
        } else {
            assert(ls1 == ls.push(entry));
            let n = ls.len() as int;
            assert forall|i: int| 0 <= i < h implies !opens(#[trigger] ls1[i], hdr) by {
                assert(ls1[i] == ls[i]);
            }
            assert(ls1[h] == ls[h]);
            assert(section_start(ls1, hdr, 0) == h);
            lemma_next_header(ls1, h + 1);
            assert forall|i: int| h + 1 <= i < n + 1 implies !is_header(#[trigger] ls1[i]) by {
                if i < n {
                    assert(ls1[i] == ls[i]);
                }
            }
            assert(next_header(ls1, h + 1) == n + 1);
            lemma_key_line(ls1, key, h + 1, n + 1);
            assert forall|i: int| h + 1 <= i < n implies !is_key_line(#[trigger] ls1[i], key) by {
                assert(ls1[i] == ls[i]);
            }
            assert(ls1[n] == entry);
            assert(key_line(ls1, key, h + 1, n + 1) == n);
            assert(ls1.update(n, entry) =~= ls1);
        }
    }
}

} // verus!

verus! {

/// A line as the ini editor keeps it: no line break, and no carriage return
/// at its end.
pub open spec fn clean_line(l: Seq<char>) -> bool {
    crate::text::free_of(l, '\n') && (l.len() == 0 || l.last() != '\r')
}

pub open spec fn all_clean(ls: Seq<Seq<char>>) -> bool {
    forall|i: int| 0 <= i < ls.len() ==> clean_line(#[trigger] ls[i])
}

proof fn lemma_strip_cr(l: Seq<char>)
    ensures
        strip_trailing(l, '\r').len() <= l.len(),
        strip_trailing(l, '\r') == l.take(strip_trailing(l, '\r').len() as int),
        strip_trailing(l, '\r').len() == 0 || strip_trailing(l, '\r').last() != '\r',
    decreases l.len(),
{
    if l.len() > 0 && l.last() == '\r' {
        lemma_strip_cr(l.drop_last());
        assert(l.drop_last().take(strip_trailing(l, '\r').len() as int) =~= l.take(
            strip_trailing(l, '\r').len() as int,
        ));
    } else {
        assert(l.take(l.len() as int) =~= l);
    }
}

/// A clean line with a carriage return (or nothing) after it strips back
/// to itself.
proof fn lemma_strip_cr_extra(l: Seq<char>, r: Seq<char>)
    requires
        clean_line(l),
        r == Seq::<char>::empty() || r == seq!['\r'],
    ensures
        strip_trailing(l + r, '\r') == l,
{
    assert(strip_trailing(l, '\r') == l);
    if r.len() > 0 {
        assert((l + r).last() == '\r');
        assert((l + r).drop_last() =~= l);
    } else {
        assert(l + r =~= l);
    }
}

/// Every line of a text is clean.
proof fn lemma_ini_lines_clean(ini: Seq<char>)
    ensures
        all_clean(ini_lines(ini)),
        ini_pieces(ini).len() >= 1,
{
    crate::text::lemma_split_nonempty(ini, '\n');
    crate::text::lemma_split_pieces_free(ini, '\n');
    let ps = split(ini, '\n');
    assert forall|i: int| 0 <= i < ini_pieces(ini).len() implies clean_line(#[trigger] ini_pieces(ini)[i]) by {
        lemma_strip_cr(ps[i]);
        let t = strip_trailing(ps[i], '\r');
        assert(t == ini_pieces(ini)[i]);
        assert forall|j: int| 0 <= j < t.len() implies t[j] != '\n' by {
            assert(t[j] == ps[i][j]);
        }
    }
    assert forall|i: int| 0 <= i < ini_lines(ini).len() implies clean_line(#[trigger] ini_lines(ini)[i]) by {
        assert(ini_lines(ini)[i] == ini_pieces(ini)[i]);
    }
}

/// Setting a key keeps the lines clean, leaves at least one line, and does
/// not leave an empty last line where there was none.
proof fn lemma_set_lines_shape(ls: Seq<Seq<char>>, section: Seq<char>, key: Seq<char>, value: Seq<char>)
    requires
        plain_key(key),
        all_clean(ls),
        crate::text::free_of(section, '\n'),
        crate::text::free_of(key, '\n'),
        crate::text::free_of(value, '\n'),
        crate::text::free_of(value, '\r'),
    ensures
        all_clean(set_lines(ls, section, key, value)),
        set_lines(ls, section, key, value).len() >= 1,
        ls.len() >= 1 && ls.last().len() > 0 ==> set_lines(ls, section, key, value).last().len() > 0,
{
    reveal_strlit("=");
    reveal_strlit("[");
    reveal_strlit("]");
    let hdr = header_of(section);
    let entry = entry_of(key, value);
    assert(hdr == "["@ + section + "]"@);
    assert(entry == key + "="@ + value);
    assert(clean_line(hdr)) by {
        assert forall|j: int| 0 <= j < hdr.len() implies hdr[j] != '\n' by {
            if 0 < j < hdr.len() - 1 {
                assert(hdr[j] == section[j - 1]);
            }
        }
    }
    assert(clean_line(entry)) by {
        assert forall|j: int| 0 <= j < entry.len() implies entry[j] != '\n' by {
            if j < key.len() {
                assert(entry[j] == key[j]);
            } else if j > key.len() {
                assert(entry[j] == value[j - key.len() - 1]);
            }
        }
        if value.len() > 0 {
            assert(entry.last() == value.last());
        }
    }
    assert(clean_line(Seq::<char>::empty()));
    lemma_set_lines_idempotent(ls, section, key, value);
    let ls1 = set_lines(ls, section, key, value);
    let h = section_start(ls, hdr, 0);
    if h < 0 {
        let base = if ls.len() > 0 { ls.push(Seq::empty()) } else { ls };
        assert(ls1 == base.push(hdr).push(entry));
        assert forall|i: int| 0 <= i < ls1.len() implies clean_line(#[trigger] ls1[i]) by {
            if i < ls.len() {
                assert(ls1[i] == ls[i]);
            }
        }
    } else {
        lemma_section_start(ls, hdr, 0);
        let e = next_header(ls, h + 1);
        lemma_next_header(ls, h + 1);
        let r = key_line(ls, key, h + 1, e);
        lemma_key_line(ls, key, h + 1, e);
        if r >= 0 {
            assert(ls1 == ls.update(r, entry));
            assert forall|i: int| 0 <= i < ls1.len() implies clean_line(#[trigger] ls1[i]) by {
                if i != r {
                    assert(ls1[i] == ls[i]);
                }
            }
        } else if e < ls.len() {
            lemma_slot_before(ls, h, e);
            let j = slot_before(ls, e);
            assert(ls1 == ls.insert(j, entry));
            assert forall|i: int| 0 <= i < ls1.len() implies clean_line(#[trigger] ls1[i]) by {
                if i < j {
                    assert(ls1[i] == ls[i]);
                } else if i > j {
                    assert(ls1[i] == ls[i - 1]);
                }
            }
            assert(ls1.last() == ls.last());
        } else {
            assert(ls1 == ls.push(entry));
            assert forall|i: int| 0 <= i < ls1.len() implies clean_line(#[trigger] ls1[i]) by {
                if i < ls.len() {
                    assert(ls1[i] == ls[i]);
                }
            }
        }
    }
}

/// The pieces of clean lines joined with a line ending strip back to the
/// lines.
proof fn lemma_pieces_of_join(ls: Seq<Seq<char>>, eol: Seq<char>)
    requires
        ls.len() >= 1,
        all_clean(ls),
        eol == "\r\n"@ || eol == "\n"@,
    ensures
        ini_pieces(join(ls, eol)) == ls,
        forall|i: int|
            0 <= i < split(join(ls, eol), '\n').len() - 1 ==> (#[trigger] split(join(ls, eol), '\n')[i]).len() == 0
                || split(join(ls, eol), '\n')[i].last() != '\r' || eol == "\r\n"@,
{
    reveal_strlit("\r\n");
    reveal_strlit("\n");
    let r: Seq<char> = if eol == "\r\n"@ { seq!['\r'] } else { Seq::empty() };
    assert(eol =~= r + seq!['\n']);
    assert forall|i: int| 0 <= i < ls.len() implies crate::text::free_of(#[trigger] ls[i], '\n') by {
        assert(clean_line(ls[i]));
    }
    crate::text::lemma_split_join(ls, r, '\n');
    let ps = split(join(ls, eol), '\n');
    assert forall|i: int| 0 <= i < ls.len() implies #[trigger] ini_pieces(join(ls, eol))[i] == ls[i] by {
        assert(clean_line(ls[i]));
        if i < ls.len() - 1 {
            lemma_strip_cr_extra(ls[i], r);
            assert(ps[i] == ls[i] + r);
        } else {
            lemma_strip_cr_extra(ls[i], Seq::empty());
            assert(ls[i] + Seq::<char>::empty() =~= ls[i]);
        }
    }
    assert(ini_pieces(join(ls, eol)) =~= ls);
    assert forall|i: int| 0 <= i < ps.len() - 1 implies (#[trigger] ps[i]).len() == 0 || ps[i].last() != '\r'
        || eol == "\r\n"@ by {
        if eol != "\r\n"@ {
            assert(ps[i] == ls[i] + r);
            assert(r.len() == 0);
            assert(ls[i] + r =~= ls[i]);
            assert(clean_line(ls[i]));
        }
    }
}

/// What a setting leaves of a text's form: its lines are the lines
/// `set_lines` gives, and it keeps the text's line ending and its final
/// newline or the lack of one. Holds for a plain key, and a section, key and
/// value without line breaks (and a value without carriage returns).
pub proof fn lemma_set_ini_repr(ini: Seq<char>, section: Seq<char>, key: Seq<char>, value: Seq<char>)
    requires
        plain_key(key),
        crate::text::free_of(section, '\n'),
        crate::text::free_of(key, '\n'),
        crate::text::free_of(value, '\n'),
        crate::text::free_of(value, '\r'),
    ensures
        ini_lines(set_ini_text(ini, section, key, value)) == set_lines(ini_lines(ini), section, key, value),
        ini_eol(set_ini_text(ini, section, key, value)) == ini_eol(ini),
        ends_with_newline(set_ini_text(ini, section, key, value)) == ends_with_newline(ini),
{
    reveal_strlit("\r\n");
    reveal_strlit("\n");
    let l0 = ini_lines(ini);
    let eol = ini_eol(ini);
    let nl = ends_with_newline(ini);
    lemma_ini_lines_clean(ini);
    lemma_set_lines_shape(l0, section, key, value);
    lemma_set_lines_idempotent(l0, section, key, value);
    let l1 = set_lines(l0, section, key, value);
    assert(l1.len() >= 2);
    let t = set_ini_text(ini, section, key, value);
    if nl {
        let m = l1.push(Seq::<char>::empty());
        crate::text::lemma_join_push(l1, eol, Seq::<char>::empty());
        assert(join(l1, eol) + eol + Seq::<char>::empty() =~= join(l1, eol) + eol);
        assert(t == join(m, eol));
        assert(all_clean(m)) by {
            assert forall|i: int| 0 <= i < m.len() implies clean_line(#[trigger] m[i]) by {
                if i < l1.len() {
                    assert(m[i] == l1[i]);
                }
            }
        }
        lemma_pieces_of_join(m, eol);
        assert(ini_pieces(t) == m);
        assert(ends_with_newline(t));
        assert(ini_lines(t) =~= l1);
        if eol == "\n"@ {
            crate::text::lemma_no_crlf(t);
        } else {
            assert(occurs_at(t, "\r\n"@, join(l1, eol).len() as int)) by {
                assert(t.subrange(join(l1, eol).len() as int, join(l1, eol).len() as int + 2) =~= eol);
            }
        }
    } else {
        assert(l0 == ini_pieces(ini));
        assert(t == join(l1, eol) + Seq::<char>::empty());
        assert(join(l1, eol) + Seq::<char>::empty() =~= join(l1, eol));
        lemma_pieces_of_join(l1, eol);
        assert(ini_pieces(t) == l1);
        assert(!ends_with_newline(t));
        assert(ini_lines(t) == l1);
        if eol == "\n"@ {
            crate::text::lemma_no_crlf(t);
        } else {
            let p = l1.drop_last();
            assert(join(l1, eol) == join(p, eol) + eol + l1.last());
            assert(occurs_at(t, "\r\n"@, join(p, eol).len() as int)) by {
                assert(t.subrange(join(p, eol).len() as int, join(p, eol).len() as int + 2) =~= eol);
            }
        }
    }
}

/// Setting a key in a text a second time gives the text the first setting
/// gave, line endings and final newline included. Holds for a plain key,
/// and a section, key and value without line breaks (and a value without
/// carriage returns).
pub proof fn lemma_set_ini_idempotent(ini: Seq<char>, section: Seq<char>, key: Seq<char>, value: Seq<char>)
    requires
        plain_key(key),
        crate::text::free_of(section, '\n'),
        crate::text::free_of(key, '\n'),
        crate::text::free_of(value, '\n'),
        crate::text::free_of(value, '\r'),
    ensures
        set_ini_text(set_ini_text(ini, section, key, value), section, key, value) == set_ini_text(
            ini,
            section,
            key,
            value,
        ),
{
    lemma_set_ini_repr(ini, section, key, value);
    lemma_set_lines_idempotent(ini_lines(ini), section, key, value);
}

} // verus!

verus! {

/// The row of the section's header, or -1.
pub open spec fn section_row(ls: Seq<Seq<char>>, section: Seq<char>) -> int {
    section_start(ls, header_of(section), 0)
}

/// The row of the first line for `key` in the section, or -1.
pub open spec fn entry_row(ls: Seq<Seq<char>>, section: Seq<char>, key: Seq<char>) -> int {
    let h = section_row(ls, section);
    key_line(ls, key, h + 1, next_header(ls, h + 1))
}

/// The lines hold `key=value` as the key's line in the section.
pub open spec fn has_entry(ls: Seq<Seq<char>>, section: Seq<char>, key: Seq<char>, value: Seq<char>) -> bool {
    &&& 0 <= section_row(ls, section)
    &&& 0 <= entry_row(ls, section, key) < ls.len()
    &&& ls[entry_row(ls, section, key)] == entry_of(key, value)
}

proof fn lemma_section_start_at(ls: Seq<Seq<char>>, hdr: Seq<char>, h: int)
    requires
        0 <= h < ls.len(),
        opens(ls[h], hdr),
        forall|j: int| 0 <= j < h ==> !opens(#[trigger] ls[j], hdr),
    ensures
        section_start(ls, hdr, 0) == h,
{
    lemma_section_start(ls, hdr, 0);
}

proof fn lemma_next_header_past(ls: Seq<Seq<char>>, k: int, m: int)
    requires
        0 <= k <= m < ls.len(),
        forall|j: int| k <= j <= m ==> !is_header(#[trigger] ls[j]),
    ensures
        m < next_header(ls, k) <= ls.len(),
{
    lemma_next_header(ls, k);
}

proof fn lemma_key_line_at(ls: Seq<Seq<char>>, key: Seq<char>, k: int, e: int, r: int)
    requires
        0 <= k <= r < e <= ls.len(),
        is_key_line(ls[r], key),
        forall|j: int| k <= j < r ==> !is_key_line(#[trigger] ls[j], key),
    ensures
        key_line(ls, key, k, e) == r,
{
    lemma_key_line(ls, key, k, e);
}

/// Where the entry stands: its section's header, the lines up to the
/// entry, and the entry's line itself.
proof fn lemma_has_facts(ls: Seq<Seq<char>>, section: Seq<char>, key: Seq<char>, value: Seq<char>)
    requires
        has_entry(ls, section, key, value),
    ensures
        ({
            let h = section_row(ls, section);
            let r = entry_row(ls, section, key);
            &&& 0 <= h < r < ls.len()
            &&& r < next_header(ls, h + 1)
            &&& opens(ls[h], header_of(section))
            &&& forall|j: int| 0 <= j < h ==> !opens(#[trigger] ls[j], header_of(section))
            &&& forall|j: int| h < j <= r ==> !is_header(#[trigger] ls[j])
            &&& forall|j: int| h < j < r ==> !is_key_line(#[trigger] ls[j], key)
            &&& is_key_line(ls[r], key)
        }),
{
    let hdr = header_of(section);
    lemma_section_start(ls, hdr, 0);
    let h = section_row(ls, section);
    lemma_next_header(ls, h + 1);
    let e = next_header(ls, h + 1);
    lemma_key_line(ls, key, h + 1, e);
}

/// Lines that hold the entry already are left as they are.
proof fn lemma_has_fixed(ls: Seq<Seq<char>>, section: Seq<char>, key: Seq<char>, value: Seq<char>)
    requires
        has_entry(ls, section, key, value),
    ensures
        set_lines(ls, section, key, value) == ls,
{
    let r = entry_row(ls, section, key);
    assert(ls.update(r, entry_of(key, value)) =~= ls);
}

/// Rewriting a line that is neither a header nor a line for the key, with
/// another such line, keeps the entry.
proof fn lemma_has_update(
    ls: Seq<Seq<char>>,
    section: Seq<char>,
    key: Seq<char>,
    value: Seq<char>,
    p: int,
    x: Seq<char>,
)
    requires
        has_entry(ls, section, key, value),
        0 <= p < ls.len(),
        !is_header(ls[p]),
        !is_key_line(ls[p], key),
        !is_header(x),
        !is_key_line(x, key),
    ensures
        has_entry(ls.update(p, x), section, key, value),
{
    lemma_has_facts(ls, section, key, value);
    let hdr = header_of(section);
    let h = section_row(ls, section);
    let r = entry_row(ls, section, key);
    let l2 = ls.update(p, x);
    assert forall|j: int| 0 <= j < h implies !opens(#[trigger] l2[j], hdr) by {
        if j != p {
            assert(l2[j] == ls[j]);
        }
    }
    assert(l2[h] == ls[h]);
    lemma_section_start_at(l2, hdr, h);
    assert forall|j: int| h + 1 <= j <= r implies !is_header(#[trigger] l2[j]) by {
        if j != p {
            assert(l2[j] == ls[j]);
        }
    }
    lemma_next_header_past(l2, h + 1, r);
    assert forall|j: int| h + 1 <= j < r implies !is_key_line(#[trigger] l2[j], key) by {
        if j != p {
            assert(l2[j] == ls[j]);
        }
    }
    assert(l2[r] == ls[r]);
    lemma_key_line_at(l2, key, h + 1, next_header(l2, h + 1), r);
}

/// Lines that agree with `ls` up to the entry keep it.
proof fn lemma_has_prefix(ls: Seq<Seq<char>>, l2: Seq<Seq<char>>, section: Seq<char>, key: Seq<char>, value: Seq<char>)
    requires
        has_entry(ls, section, key, value),
        entry_row(ls, section, key) < l2.len(),
        forall|i: int| 0 <= i <= entry_row(ls, section, key) ==> l2[i] == ls[i],
    ensures
        has_entry(l2, section, key, value),
{
    lemma_has_facts(ls, section, key, value);
    let hdr = header_of(section);
    let h = section_row(ls, section);
    let r = entry_row(ls, section, key);
    assert forall|j: int| 0 <= j < h implies !opens(#[trigger] l2[j], hdr) by {
        assert(l2[j] == ls[j]);
    }
    assert(l2[h] == ls[h]);
    lemma_section_start_at(l2, hdr, h);
    assert forall|j: int| h + 1 <= j <= r implies !is_header(#[trigger] l2[j]) by {
        assert(l2[j] == ls[j]);
    }
    lemma_next_header_past(l2, h + 1, r);
    assert forall|j: int| h + 1 <= j < r implies !is_key_line(#[trigger] l2[j], key) by {
        assert(l2[j] == ls[j]);
    }
    assert(l2[r] == ls[r]);
    lemma_key_line_at(l2, key, h + 1, next_header(l2, h + 1), r);
}

/// A line that is no header, put in at or before the section's header,
/// keeps the entry.
proof fn lemma_has_shift(
    ls: Seq<Seq<char>>,
    section: Seq<char>,
    key: Seq<char>,
    value: Seq<char>,
    j: int,
    x: Seq<char>,
)
    requires
        has_entry(ls, section, key, value),
        0 <= j <= section_row(ls, section),
        !is_header(x),
    ensures
        has_entry(ls.insert(j, x), section, key, value),
{
    lemma_has_facts(ls, section, key, value);
    let hdr = header_of(section);
    let h = section_row(ls, section);
    let r = entry_row(ls, section, key);
    let l2 = ls.insert(j, x);
    assert forall|i: int| 0 <= i < h + 1 implies !opens(#[trigger] l2[i], hdr) by {
        if i < j {
            assert(l2[i] == ls[i]);
        } else if i > j {
            assert(l2[i] == ls[i - 1]);
        }
    }
    assert(l2[h + 1] == ls[h]);
    lemma_section_start_at(l2, hdr, h + 1);
    assert forall|i: int| h + 2 <= i <= r + 1 implies !is_header(#[trigger] l2[i]) by {
        assert(l2[i] == ls[i - 1]);
    }
    lemma_next_header_past(l2, h + 2, r + 1);
    assert forall|i: int| h + 2 <= i < r + 1 implies !is_key_line(#[trigger] l2[i], key) by {
        assert(l2[i] == ls[i - 1]);
    }
    assert(l2[r + 1] == ls[r]);
    lemma_key_line_at(l2, key, h + 2, next_header(l2, h + 2), r + 1);
}


/// A line for a key is not blank.
proof fn lemma_key_line_nonblank(l: Seq<char>, key: Seq<char>)
    requires
        is_key_line(l, key),
    ensures
        trim(l).len() > 0,
{
    crate::text::lemma_find_bounds(trim(l), '=');
}

/// A line is a line for two keys only where they are equal but for case.
proof fn lemma_key_line_same(l: Seq<char>, ka: Seq<char>, kb: Seq<char>)
    requires
        is_key_line(l, ka),
        is_key_line(l, kb),
    ensures
        eq_ic(ka, kb),
{
    let t = trim(l);
    let k = find(t, '=');
    let kp = trim(t.take(k));
    assert(eq_ic(kp, ka));
    assert(eq_ic(kp, kb));
    assert forall|i: int| 0 <= i < ka.len() implies lower(#[trigger] ka[i]) == lower(kb[i]) by {
        assert(lower(kp[i]) == lower(ka[i]));
        assert(lower(kp[i]) == lower(kb[i]));
    }
}

/// Setting one key keeps the entry of another: with keys that differ other
/// than in case, `key_a=value_a` stays the line for `key_a` in its section
/// whatever `set_lines` does for `key_b`.
pub proof fn lemma_set_keeps_other(
    ls: Seq<Seq<char>>,
    section_a: Seq<char>,
    key_a: Seq<char>,
    value_a: Seq<char>,
    section_b: Seq<char>,
    key_b: Seq<char>,
    value_b: Seq<char>,
)
    requires
        plain_key(key_a),
        plain_key(key_b),
        !eq_ic(key_a, key_b),
        has_entry(ls, section_a, key_a, value_a),
    ensures
        has_entry(set_lines(ls, section_b, key_b, value_b), section_a, key_a, value_a),
{
    lemma_has_facts(ls, section_a, key_a, value_a);
    let ha = section_row(ls, section_a);
    let ra = entry_row(ls, section_a, key_a);
    let hdr = header_of(section_b);
    let entry = entry_of(key_b, value_b);
    assert(hdr == "["@ + section_b + "]"@);
    assert(entry == key_b + "="@ + value_b);
    lemma_entry_line(key_b, value_b);
    if is_key_line(entry, key_a) {
        lemma_key_line_same(entry, key_a, key_b);
    }
    let l2 = set_lines(ls, section_b, key_b, value_b);
    let hb = section_start(ls, hdr, 0);
    lemma_section_start(ls, hdr, 0);
    if hb < 0 {
        let base = ls.push(Seq::empty());
        assert(l2 == base.push(hdr).push(entry));
        assert forall|i: int| 0 <= i <= ra implies l2[i] == ls[i] by {
            assert(base[i] == ls[i]);
        }
        lemma_has_prefix(ls, l2, section_a, key_a, value_a);
    } else {
        let eb = next_header(ls, hb + 1);
        lemma_next_header(ls, hb + 1);
        let rb = key_line(ls, key_b, hb + 1, eb);
        lemma_key_line(ls, key_b, hb + 1, eb);
        if rb >= 0 {
            lemma_key_line_not_header(ls[rb], key_b);
            if is_key_line(ls[rb], key_a) {
                lemma_key_line_same(ls[rb], key_a, key_b);
            }
            assert(l2 == ls.update(rb, entry));
            lemma_has_update(ls, section_a, key_a, value_a, rb, entry);
        } else if eb < ls.len() {
            lemma_slot_before(ls, hb, eb);
            let j = slot_before(ls, eb);
            assert(l2 == ls.insert(j, entry));
            if j > ra {
                assert forall|i: int| 0 <= i <= ra implies l2[i] == ls[i] by {}
                lemma_has_prefix(ls, l2, section_a, key_a, value_a);
            } else {
                if ha == hb {
                    lemma_key_line_nonblank(ls[ra], key_a);
                    lemma_slot_before(ls, ra, eb);
                }
                lemma_has_shift(ls, section_a, key_a, value_a, j, entry);
            }
        } else {
            assert(l2 == ls.push(entry));
            assert forall|i: int| 0 <= i <= ra implies l2[i] == ls[i] by {}
            lemma_has_prefix(ls, l2, section_a, key_a, value_a);
        }
    }
}

/// `tune_text` on lines: the same settings in the same order.
pub open spec fn tune_lines(ls: Seq<Seq<char>>, o: InstallOptions) -> Seq<Seq<char>> {
    let l1 = if o.wine {
        set_lines(ls, "Hooks"@, "UseNtdllHooks"@, "false"@)
    } else {
        ls
    };
    let l2 = if o.spoof_vulkan {
        set_lines(
            set_lines(l1, "Spoofing"@, "Vulkan"@, "true"@),
            "Spoofing"@,
            "VulkanExtensionSpoofing"@,
            "true"@,
        )
    } else {
        l1
    };
    set_lines(l2, "Upscalers"@, "VulkanUpscaler"@, "fsr31"@)
}

/// A section, key and value that the ini editor's laws cover.
pub open spec fn tame_setting(section: Seq<char>, key: Seq<char>, value: Seq<char>) -> bool {
    &&& plain_key(key)
    &&& crate::text::free_of(section, '\n')
    &&& crate::text::free_of(key, '\n')
    &&& crate::text::free_of(value, '\n')
    &&& crate::text::free_of(value, '\r')
}

/// The launcher's own settings are tame, and their keys differ pairwise.
proof fn lemma_tuned_settings()
    ensures
        tame_setting("Hooks"@, "UseNtdllHooks"@, "false"@),
        tame_setting("Spoofing"@, "Vulkan"@, "true"@),
        tame_setting("Spoofing"@, "VulkanExtensionSpoofing"@, "true"@),
        tame_setting("Upscalers"@, "VulkanUpscaler"@, "fsr31"@),
        "UseNtdllHooks"@.len() == 13,
        "Vulkan"@.len() == 6,
        "VulkanExtensionSpoofing"@.len() == 23,
        "VulkanUpscaler"@.len() == 14,
{
    reveal_strlit("Hooks");
    reveal_strlit("UseNtdllHooks");
    reveal_strlit("false");
    reveal_strlit("Spoofing");
    reveal_strlit("Vulkan");
    reveal_strlit("true");
    reveal_strlit("VulkanExtensionSpoofing");
    reveal_strlit("Upscalers");
    reveal_strlit("VulkanUpscaler");
    reveal_strlit("fsr31");
}

/// The entry a setting leaves, as `has_entry` states it.
proof fn lemma_set_has(ls: Seq<Seq<char>>, section: Seq<char>, key: Seq<char>, value: Seq<char>)
    requires
        plain_key(key),
    ensures
        has_entry(set_lines(ls, section, key, value), section, key, value),
{
    lemma_set_lines_idempotent(ls, section, key, value);
}

/// Tuning lines that were tuned already leaves them as they are.
pub proof fn lemma_tune_lines_idempotent(ls: Seq<Seq<char>>, o: InstallOptions)
    ensures
        tune_lines(tune_lines(ls, o), o) == tune_lines(ls, o),
{
    lemma_tuned_settings();
    let w = ("Hooks"@, "UseNtdllHooks"@, "false"@);
    let v1 = ("Spoofing"@, "Vulkan"@, "true"@);
    let v2 = ("Spoofing"@, "VulkanExtensionSpoofing"@, "true"@);
    let u = ("Upscalers"@, "VulkanUpscaler"@, "fsr31"@);
    let l1 = if o.wine { set_lines(ls, w.0, w.1, w.2) } else { ls };
    let l2a = set_lines(l1, v1.0, v1.1, v1.2);
    let l2 = if o.spoof_vulkan { set_lines(l2a, v2.0, v2.1, v2.2) } else { l1 };
    let l3 = set_lines(l2, u.0, u.1, u.2);
    assert(l3 == tune_lines(ls, o));
    lemma_set_has(l2, u.0, u.1, u.2);
    if o.spoof_vulkan {
        lemma_set_has(l1, v1.0, v1.1, v1.2);
        lemma_set_has(l2a, v2.0, v2.1, v2.2);
        lemma_set_keeps_other(l2a, v1.0, v1.1, v1.2, v2.0, v2.1, v2.2);
        lemma_set_keeps_other(l2, v1.0, v1.1, v1.2, u.0, u.1, u.2);
        lemma_set_keeps_other(l2, v2.0, v2.1, v2.2, u.0, u.1, u.2);
    }
    if o.wine {
        lemma_set_has(ls, w.0, w.1, w.2);
        if o.spoof_vulkan {
            lemma_set_keeps_other(l1, w.0, w.1, w.2, v1.0, v1.1, v1.2);
            lemma_set_keeps_other(l2a, w.0, w.1, w.2, v2.0, v2.1, v2.2);
        }
        lemma_set_keeps_other(l2, w.0, w.1, w.2, u.0, u.1, u.2);
        lemma_has_fixed(l3, w.0, w.1, w.2);
    }
    if o.spoof_vulkan {
        lemma_has_fixed(l3, v1.0, v1.1, v1.2);
        lemma_has_fixed(l3, v2.0, v2.1, v2.2);
    }
    lemma_has_fixed(l3, u.0, u.1, u.2);
}

/// `tune_text` is `tune_lines` on the text's lines, laid out with the
/// text's line ending and final newline, which it keeps.
proof fn lemma_tune_repr(ini: Seq<char>, o: InstallOptions)
    ensures
        ini_lines(tune_text(ini, o)) == tune_lines(ini_lines(ini), o),
        ini_eol(tune_text(ini, o)) == ini_eol(ini),
        ends_with_newline(tune_text(ini, o)) == ends_with_newline(ini),
        tune_text(ini, o) == join(tune_lines(ini_lines(ini), o), ini_eol(ini)) + if ends_with_newline(ini) {
            ini_eol(ini)
        } else {
            Seq::empty()
        },
{
    lemma_tuned_settings();
    let t1 = if o.wine {
        set_ini_text(ini, "Hooks"@, "UseNtdllHooks"@, "false"@)
    } else {
        ini
    };
    if o.wine {
        lemma_set_ini_repr(ini, "Hooks"@, "UseNtdllHooks"@, "false"@);
    }
    let t2a = set_ini_text(t1, "Spoofing"@, "Vulkan"@, "true"@);
    let t2 = if o.spoof_vulkan {
        set_ini_text(t2a, "Spoofing"@, "VulkanExtensionSpoofing"@, "true"@)
    } else {
        t1
    };
    if o.spoof_vulkan {
        lemma_set_ini_repr(t1, "Spoofing"@, "Vulkan"@, "true"@);
        lemma_set_ini_repr(t2a, "Spoofing"@, "VulkanExtensionSpoofing"@, "true"@);
    }
    lemma_set_ini_repr(t2, "Upscalers"@, "VulkanUpscaler"@, "fsr31"@);
}

/// Tuning an ini that was tuned already leaves it as it is, with the same
/// options: installing OptiScaler over itself writes back the settings file
/// it found.
pub proof fn lemma_tune_idempotent(ini: Seq<char>, o: InstallOptions)
    ensures
        tune_text(tune_text(ini, o), o) == tune_text(ini, o),
{
    let y = tune_text(ini, o);
    lemma_tune_repr(ini, o);
    lemma_tune_repr(y, o);
    lemma_tune_lines_idempotent(ini_lines(ini), o);
}

/// The lines of a manifest: the tag, then each file written.
proof fn lemma_manifest_lines(tag: Seq<char>, written: Seq<Seq<char>>)
    requires
        crate::text::free_of(tag, '\n'),
        forall|i: int| 0 <= i < written.len() ==> crate::text::free_of(#[trigger] written[i], '\n'),
    ensures
        crate::text::lines(manifest_of(tag, written)) == seq![crate::text::strip_cr(tag)] + written.map_values(
            |l: Seq<char>| crate::text::strip_cr(l),
        ),
        manifest_of(tag, written).last() == '\n',
    decreases written.len(),
{
    reveal_strlit("\n");
    assert("\n"@ =~= seq!['\n']);
    if written.len() == 0 {
        let e = Seq::<char>::empty();
        crate::text::lemma_lines_append_line(e, tag);
        assert(e + tag + seq!['\n'] =~= tag + "\n"@);
        assert(crate::text::lines(e) =~= Seq::<Seq<char>>::empty());
        assert(seq![crate::text::strip_cr(tag)] + written.map_values(|l: Seq<char>| crate::text::strip_cr(l))
            =~= Seq::<Seq<char>>::empty().push(crate::text::strip_cr(tag)));
    } else {
        let w = written.drop_last();
        lemma_manifest_lines(tag, w);
        let m = manifest_of(tag, w);
        crate::text::lemma_lines_append_line(m, written.last());
        assert(m + written.last() + seq!['\n'] == manifest_of(tag, written));
        assert(seq![crate::text::strip_cr(tag)] + written.map_values(|l: Seq<char>| crate::text::strip_cr(l)) =~= (
        seq![crate::text::strip_cr(tag)] + w.map_values(|l: Seq<char>| crate::text::strip_cr(l))).push(
            crate::text::strip_cr(written.last()),
        ));
    }
}

/// The version read back from a manifest is the tag it was written with,
/// trimmed: for a tag and file names without line breaks.
pub proof fn lemma_manifest_version_round_trip(tag: Seq<char>, written: Seq<Seq<char>>)
    requires
        crate::text::free_of(tag, '\n'),
        forall|i: int| 0 <= i < written.len() ==> crate::text::free_of(#[trigger] written[i], '\n'),
    ensures
        manifest_version_of(manifest_of(tag, written)) == trim(tag),
{
    lemma_manifest_lines(tag, written);
    crate::text::lemma_trim_strip_cr(tag);
}

/// An uninstall removes the files the install recorded, each trimmed and
/// the empty names left out, then the proxy and the logs: for a tag and
/// file names without line breaks.
pub proof fn lemma_manifest_files_round_trip(tag: Seq<char>, written: Seq<Seq<char>>)
    requires
        crate::text::free_of(tag, '\n'),
        forall|i: int| 0 <= i < written.len() ==> crate::text::free_of(#[trigger] written[i], '\n'),
    ensures
        files_to_remove_of(Some(manifest_of(tag, written))) == non_empty(
            trimmed_all(written) + seq![PROXY_DLL@] + log_files(),
        ),
{
    lemma_manifest_lines(tag, written);
    let ls = crate::text::lines(manifest_of(tag, written));
    let stripped = written.map_values(|l: Seq<char>| crate::text::strip_cr(l));
    assert(after_first(ls) =~= stripped);
    assert forall|i: int| 0 <= i < written.len() implies #[trigger] trimmed_all(stripped)[i] == trimmed_all(
        written,
    )[i] by {
        crate::text::lemma_trim_strip_cr(written[i]);
    }
    assert(trimmed_all(stripped) =~= trimmed_all(written));
}

} // verus!

verus! {

/// The text of bytes that are valid UTF-8; nothing for any other bytes.
pub uninterp spec fn utf8_decoded(b: Seq<u8>) -> Option<Seq<char>>;

/// `std::str::from_utf8`: the text when the bytes are valid UTF-8, nothing
/// otherwise; the contract claims the result is the name `utf8_decoded` of
/// the bytes.
#[verifier::external_body]
fn utf8_text(b: &[u8]) -> (r: Option<String>)
    ensures
        match r {
            Some(t) => utf8_decoded(b@) == Some(t@),
            None => utf8_decoded(b@) is None,
        },
{
    std::str::from_utf8(b).ok().map(|t| t.to_string())
}

/// The entries of a 7-Zip archive held in `a`, in archive order: each
/// entry's name and whether it is a directory; nothing when `a` is no
/// readable archive.
pub uninterp spec fn seven_zip_entries(a: Seq<u8>) -> Option<Seq<(Seq<char>, bool)>>;

/// The data of the file `name` in the 7-Zip archive held in `a`; nothing
/// when it cannot be read.
pub uninterp spec fn seven_zip_data(a: Seq<u8>, name: Seq<char>) -> Option<Seq<u8>>;

/// sevenz-rust2's `ArchiveReader::new` (no password) on the bytes, then the
/// names and directory flags of `archive().files`; the contract claims the
/// result is the name `seven_zip_entries` of the bytes, and that an error
/// (the crate's message) comes exactly when that name gives nothing.
#[verifier::external_body]
fn seven_zip_listing(bytes: &[u8]) -> (r: Result<Vec<(String, bool)>, String>)
    ensures
        match r {
            Ok(v) => seven_zip_entries(bytes@) == Some(v@.map_values(|e: (String, bool)| (e.0@, e.1))),
            Err(_) => seven_zip_entries(bytes@) is None,
        },
{
    let reader = sevenz_rust2::ArchiveReader::new(std::io::Cursor::new(bytes), sevenz_rust2::Password::empty())
        .map_err(|e| e.to_string())?;
    Ok(reader.archive().files.iter().map(|f| (f.name().to_string(), f.is_directory())).collect())
}

/// sevenz-rust2's `ArchiveReader::read_file` on a reader over the bytes;
/// the contract claims the result is the name `seven_zip_data` of the
/// bytes and the file name, and that an error comes exactly when that name
/// gives nothing.
#[verifier::external_body]
fn seven_zip_read(bytes: &[u8], name: &str) -> (r: Result<Vec<u8>, String>)
    ensures
        match r {
            Ok(d) => seven_zip_data(bytes@, name@) == Some(d@),
            Err(_) => seven_zip_data(bytes@, name@) is None,
        },
{
    let mut reader = sevenz_rust2::ArchiveReader::new(std::io::Cursor::new(bytes), sevenz_rust2::Password::empty())
        .map_err(|e| e.to_string())?;
    reader.read_file(name).map_err(|e| e.to_string())
}

/// A file entry: its name in the archive and its data.
pub type FileData = (Seq<char>, Seq<u8>);

pub open spec fn file_views(v: Seq<(String, Vec<u8>)>) -> Seq<FileData> {
    v.map_values(|e: (String, Vec<u8>)| (e.0@, e.1@))
}

/// Some earlier write went to exactly `rel`.
pub open spec fn lands_on(w: Seq<FileData>, rel: Seq<char>) -> bool {
    exists|i: int| 0 <= i < w.len() && #[trigger] w[i].0 == rel
}

/// The ini entry `rel` finds a file already there (the user's ini, or one
/// this install wrote), which is kept: OptiScaler keeps the user's in-game
/// choices in it.
pub open spec fn keeps_ini(w: Seq<FileData>, rel: Seq<char>, ini_exists: bool) -> bool {
    eq_ic(rel, INI@) && ((rel == INI@ && ini_exists) || lands_on(w, rel))
}

/// What the archive's entries do to the game directory: the files written,
/// in order, and every name recorded for the manifest.
pub open spec fn install_walk(es: Seq<FileData>, ini_exists: bool) -> (Seq<FileData>, Seq<Seq<char>>)
    decreases es.len(),
{
    if es.len() == 0 {
        (Seq::empty(), Seq::empty())
    } else {
        let (w, n) = install_walk(es.drop_last(), ini_exists);
        match entry_target_of(es.last().0) {
            None => (w, n),
            Some(rel) => if keeps_ini(w, rel, ini_exists) {
                (w, n.push(rel))
            } else {
                (w.push((rel, es.last().1)), n.push(rel))
            },
        }
    }
}

/// The data last written to exactly `rel`.
pub open spec fn last_data(w: Seq<FileData>, rel: Seq<char>) -> Option<Seq<u8>>
    decreases w.len(),
{
    if w.len() == 0 {
        None
    } else if w.last().0 == rel {
        Some(w.last().1)
    } else {
        last_data(w.drop_last(), rel)
    }
}

/// The ini the install tunes: the one it wrote, else the user's.
pub open spec fn ini_text(w: Seq<FileData>, existing: Option<Seq<char>>) -> Option<Seq<char>> {
    match last_data(w, INI@) {
        Some(b) => utf8_decoded(b),
        None => existing,
    }
}

/// What an install leaves to be written: the files, the tuned ini, the
/// manifest, and how many names the manifest records.
#[derive(Debug, Clone)]
pub struct InstallOutput {
    pub files: Vec<(String, Vec<u8>)>,
    pub ini: String,
    pub manifest: String,
    pub count: usize,
}

/// The install of the archive's files `es` (with `existing` the user's ini,
/// if there is one) gives `r`.
pub open spec fn install_outcome(
    es: Seq<FileData>,
    tag: Seq<char>,
    o: InstallOptions,
    existing: Option<Seq<char>>,
    r: Result<InstallOutput, AppError>,
) -> bool {
    let (w, n) = install_walk(es, existing is Some);
    &&& last_data(w, PROXY_DLL@) is None ==> (r matches Err(AppError::ExtractionFailed(m)) && m@
        == "The OptiScaler archive has no OptiScaler.dll"@)
    &&& last_data(w, PROXY_DLL@) is Some && last_data(w, INI@) is None && existing is None ==> (r matches Err(
        AppError::ExtractionFailed(m),
    ) && m@ == "The OptiScaler archive has no OptiScaler.ini"@)
    &&& last_data(w, PROXY_DLL@) is Some && (last_data(w, INI@) matches Some(b) && utf8_decoded(b) is None)
        ==> (r matches Err(AppError::Io(m)) && m@ == "stream did not contain valid UTF-8"@)
    &&& (r is Ok <==> last_data(w, PROXY_DLL@) is Some && ini_text(w, existing) is Some)
    &&& r matches Ok(out) ==> {
        &&& file_views(out.files@) == w
        &&& out.manifest@ == manifest_of(tag, n)
        &&& out.count == n.len()
        &&& out.ini@ == tune_text(ini_text(w, existing).unwrap(), o)
    }
}

fn bytes_copy(b: &[u8]) -> (r: Vec<u8>)
    ensures
        r@ == b@,
{
    let mut r: Vec<u8> = Vec::new();
    let mut i: usize = 0;
    while i < b.len()
        invariant
            i <= b@.len(),
            r@ == b@.take(i as int),
        decreases b.len() - i,
    {
        r.push(b[i]);
        assert(r@ =~= b@.take(i + 1));
        i = i + 1;
    }
    assert(b@.take(i as int) =~= b@);
    r
}

fn lands(w: &Vec<(String, Vec<u8>)>, rel: &str) -> (b: bool)
    ensures
        b == lands_on(file_views(w@), rel@),
{
    let mut i: usize = 0;
    while i < w.len()
        invariant
            i <= w@.len(),
            forall|j: int| 0 <= j < i ==> #[trigger] file_views(w@)[j].0 != rel@,
        decreases w.len() - i,
    {
        assert(file_views(w@)[i as int].0 == w@[i as int].0@);
        if same_text(w[i].0.as_str(), rel) {
            return true;
        }
        i = i + 1;
    }
    false
}

fn last_written(w: &Vec<(String, Vec<u8>)>, rel: &str) -> (r: Option<Vec<u8>>)
    ensures
        match r {
            Some(d) => last_data(file_views(w@), rel@) == Some(d@),
            None => last_data(file_views(w@), rel@) is None,
        },
{
    let mut i: usize = w.len();
    let ghost fv = file_views(w@);
    assert(fv.take(w@.len() as int) =~= fv);
    while i > 0
        invariant
            i <= w@.len(),
            fv == file_views(w@),
            last_data(fv, rel@) == last_data(fv.take(i as int), rel@),
        decreases i,
    {
        let ghost t = fv.take(i as int);
        assert(t.drop_last() =~= fv.take(i - 1));
        assert(t.last() == (w@[i - 1].0@, w@[i - 1].1@));
        if same_text(w[i - 1].0.as_str(), rel) {
            return Some(bytes_copy(w[i - 1].1.as_slice()));
        }
        i = i - 1;
    }
    None
}

/// Lay out an install of OptiScaler from the archive's files `entries`
/// (names and data, in archive order), with `existing` the ini already in
/// the game directory, if any: which files to write where, the ini tuned
/// for `options`, and the manifest recording release `tag` and every name.
pub fn plan_install(entries: Vec<(String, Vec<u8>)>, tag: &str, options: InstallOptions, existing: Option<String>) -> (r: Result<InstallOutput, AppError>)
    ensures
        install_outcome(
            file_views(entries@),
            tag@,
            options,
            match existing {
                Some(t) => Some(t@),
                None => None,
            },
            r,
        ),
{
    let ghost es = file_views(entries@);
    let ini_exists = existing.is_some();
    let mut writes: Vec<(String, Vec<u8>)> = Vec::new();
    let mut written: Vec<String> = Vec::new();
    let mut i: usize = 0;
    assert(es.take(0) =~= Seq::<FileData>::empty());
    while i < entries.len()
        invariant
            i <= entries@.len(),
            es == file_views(entries@),
            ini_exists == existing is Some,
            (file_views(writes@), crate::text::string_views(written@)) == install_walk(es.take(i as int), ini_exists),
        decreases entries.len() - i,
    {
        let ghost t = es.take(i + 1);
        assert(t.drop_last() =~= es.take(i as int));
        assert(t.last() == (entries@[i as int].0@, entries@[i as int].1@));
        let ghost w0 = writes@;
        let ghost n0 = written@;
        match entry_target(entries[i].0.as_str()) {
            None => {},
            Some(rel) => {
                let keep = {
                    let rc = chars_of(rel.as_str());
                    let ic = chars_of(INI);
                    crate::text::eq_ignore_case(rc.as_slice(), ic.as_slice()) && ((same_text(rel.as_str(), INI)
                        && ini_exists) || lands(&writes, rel.as_str()))
                };
                let rel2 = crate::text::to_owned_string(rel.as_str());
                if !keep {
                    let d = bytes_copy(entries[i].1.as_slice());
                    writes.push((rel, d));
                    assert(file_views(writes@) =~= file_views(w0).push((rel2@, entries@[i as int].1@)));
                }
                written.push(rel2);
                proof {
                    crate::text::lemma_string_views_push(n0, rel2);
                }
            },
        }
        i = i + 1;
    }
    assert(es.take(i as int) =~= es);
    let ghost w = file_views(writes@);
    let ghost n = crate::text::string_views(written@);
    if last_written(&writes, PROXY_DLL).is_none() {
        return Err(AppError::ExtractionFailed(crate::text::to_owned_string("The OptiScaler archive has no OptiScaler.dll")));
    }
    let ini = match last_written(&writes, INI) {
        Some(b) => match utf8_text(b.as_slice()) {
            Some(t) => t,
            None => return Err(AppError::Io(crate::text::to_owned_string("stream did not contain valid UTF-8"))),
        },
        None => match existing {
            Some(t) => t,
            None => return Err(AppError::ExtractionFailed(crate::text::to_owned_string("The OptiScaler archive has no OptiScaler.ini"))),
        },
    };
    let manifest = manifest_text(tag, written.as_slice());
    let count = written.len();
    let tuned = tune_ini(ini.as_str(), options);
    Ok(InstallOutput { files: writes, ini: tuned, manifest, count })
}

} // verus!

verus! {

/// The files of a 7-Zip archive held in `a`, given its entries `ls`: each
/// non-directory entry's name and data, in order; nothing when one cannot
/// be read.
pub open spec fn archive_files(a: Seq<u8>, ls: Seq<(Seq<char>, bool)>) -> Option<Seq<FileData>>
    decreases ls.len(),
{
    if ls.len() == 0 {
        Some(Seq::empty())
    } else {
        match archive_files(a, ls.drop_last()) {
            None => None,
            Some(es) => if ls.last().1 {
                Some(es)
            } else {
                match seven_zip_data(a, ls.last().0) {
                    None => None,
                    Some(d) => Some(es.push((ls.last().0, d))),
                }
            },
        }
    }
}

/// Install OptiScaler from its release archive (`bytes`, a 7-Zip file):
/// read every file of the archive, then lay the install out as
/// `plan_install` does. An archive that cannot be read fails with the
/// reader's message.
pub fn install_from_archive(bytes: &[u8], tag: &str, options: InstallOptions, existing: Option<String>) -> (r: Result<InstallOutput, AppError>)
    ensures
        match seven_zip_entries(bytes@) {
            None => r matches Err(AppError::ExtractionFailed(_)),
            Some(ls) => match archive_files(bytes@, ls) {
                None => r matches Err(AppError::ExtractionFailed(_)),
                Some(es) => install_outcome(
                    es,
                    tag@,
                    options,
                    match existing {
                        Some(t) => Some(t@),
                        None => None,
                    },
                    r,
                ),
            },
        },
{
    let listing = match seven_zip_listing(bytes) {
        Ok(l) => l,
        Err(m) => return Err(AppError::ExtractionFailed(m)),
    };
    let ghost ls = listing@.map_values(|e: (String, bool)| (e.0@, e.1));
    let mut entries: Vec<(String, Vec<u8>)> = Vec::new();
    let mut i: usize = 0;
    assert(ls.take(0) =~= Seq::<(Seq<char>, bool)>::empty());
    while i < listing.len()
        invariant
            i <= listing@.len(),
            ls == listing@.map_values(|e: (String, bool)| (e.0@, e.1)),
            seven_zip_entries(bytes@) == Some(ls),
            archive_files(bytes@, ls.take(i as int)) == Some(file_views(entries@)),
        decreases listing.len() - i,
    {
        let ghost t = ls.take(i + 1);
        assert(t.drop_last() =~= ls.take(i as int));
        assert(t.last() == (listing@[i as int].0@, listing@[i as int].1));
        if !listing[i].1 {
            let ghost e0 = entries@;
            let d = match seven_zip_read(bytes, listing[i].0.as_str()) {
                Ok(d) => d,
                Err(m) => {
                    proof {
                        lemma_archive_files_none(bytes@, ls, i + 1);
                    }
                    return Err(AppError::ExtractionFailed(m));
                },
            };
            let name = crate::text::to_owned_string(listing[i].0.as_str());
            entries.push((name, d));
            assert(file_views(entries@) =~= file_views(e0).push((listing@[i as int].0@, d@)));
        }
        i = i + 1;
    }
    assert(ls.take(i as int) =~= ls);
    plan_install(entries, tag, options, existing)
}

/// Once a prefix of the entries cannot be read, the whole archive cannot.
proof fn lemma_archive_files_none(a: Seq<u8>, ls: Seq<(Seq<char>, bool)>, k: int)
    requires
        0 <= k <= ls.len(),
        archive_files(a, ls.take(k)) is None,
    ensures
        archive_files(a, ls) is None,
    decreases ls.len() - k,
{
    if k < ls.len() {
        assert(ls.take(k + 1).drop_last() =~= ls.take(k));
        lemma_archive_files_none(a, ls, k + 1);
    } else {
        assert(ls.take(k) =~= ls);
    }
}

} // verus!
