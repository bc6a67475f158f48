//! The debug report users attach to bug reports: a header describing the
//! system and the settings that matter, then the tails of both logs. The
//! app probes the system; this module lays the report out.

use vstd::prelude::*;

use crate::settings::AppSettings;
use crate::text::{chars_of, lines, push_all, push_str, starts_with, string_of, trimmed};

verus! {

pub open spec fn bool_text(b: bool) -> Seq<char> {
    if b {
        "true"@
    } else {
        "false"@
    }
}

fn push_bool(out: &mut Vec<char>, b: bool)
    ensures
        final(out)@ == old(out)@ + bool_text(b),
{
    if b {
        push_str(out, "true");
    } else {
        push_str(out, "false");
    }
}

/// `s`, or `fallback` when `s` is empty.
pub open spec fn or_else(s: Seq<char>, fallback: Seq<char>) -> Seq<char> {
    if s.len() == 0 {
        fallback
    } else {
        s
    }
}

fn push_or(out: &mut Vec<char>, s: &str, fallback: &str)
    ensures
        final(out)@ == old(out)@ + or_else(s@, fallback@),
{
    if s.unicode_len() == 0 {
        push_str(out, fallback);
    } else {
        push_str(out, s);
    }
}

/// `s` without every leading and trailing `"`.
pub open spec fn unquoted(s: Seq<char>) -> Seq<char> {
    crate::text::strip_trailing(crate::text::strip_leading(s, '"'), '"')
}

/// The distribution's name from `/etc/os-release`: the first
/// `PRETTY_NAME=` line, the prefix and the quotes around the value removed.
pub open spec fn pretty_name_of(os_release: Seq<char>) -> Option<Seq<char>> {
    let ls = lines(os_release);
    if exists|i: int| 0 <= i < ls.len() && starts_with(#[trigger] ls[i], "PRETTY_NAME="@) {
        let i = choose|i: int|
            0 <= i < ls.len() && starts_with(#[trigger] ls[i], "PRETTY_NAME="@) && forall|j: int|
                0 <= j < i ==> !starts_with(#[trigger] ls[j], "PRETTY_NAME="@);
        Some(unquoted(crate::optiscaler::strip_prefixes(ls[i], "PRETTY_NAME="@)))
    } else {
        None
    }
}

fn strip_quotes(s: &[char]) -> (r: Vec<char>)
    ensures
        r@ == unquoted(s@),
{
    let mut a: usize = 0;
    assert(s@.skip(0) =~= s@);
    while a < s.len() && s[a] == '"'
        invariant
            a <= s@.len(),
            crate::text::strip_leading(s@, '"') == crate::text::strip_leading(s@.skip(a as int), '"'),
        decreases s.len() - a,
    {
        assert(s@.skip(a as int).drop_first() =~= s@.skip(a + 1));
        a = a + 1;
    }
    let rest = crate::text::slice_of(s, a, s.len());
    assert(rest@ =~= s@.skip(a as int));
    crate::text::strip_trailing_chars(rest.as_slice(), '"')
}

pub fn pretty_name(os_release: &str) -> (r: Option<String>)
    ensures
        match r {
            Some(n) => pretty_name_of(os_release@) == Some(n@),
            None => pretty_name_of(os_release@) is None,
        },
{
    let v = chars_of(os_release);
    let ls = crate::text::lines_chars(v.as_slice());
    let key = chars_of("PRETTY_NAME=");
    proof {
        reveal_strlit("PRETTY_NAME=");
    }
    let mut i: usize = 0;
    while i < ls.len()
        invariant
            i <= ls@.len(),
            crate::text::views(ls@) == lines(os_release@),
            key@ == "PRETTY_NAME="@,
            key@.len() > 0,
            forall|j: int| 0 <= j < i ==> !starts_with(#[trigger] lines(os_release@)[j], "PRETTY_NAME="@),
        decreases ls.len() - i,
    {
        assert(lines(os_release@)[i as int] == ls@[i as int]@);
        if crate::text::has_prefix(ls[i].as_slice(), key.as_slice()) {
            let ghost ll = lines(os_release@);
            assert(starts_with(ll[i as int], "PRETTY_NAME="@));
            assert(forall|j: int| 0 <= j < i ==> !starts_with(#[trigger] ll[j], "PRETTY_NAME="@));
            let ghost chosen = choose|k: int|
                0 <= k < ll.len() && starts_with(#[trigger] ll[k], "PRETTY_NAME="@) && forall|j: int|
                    0 <= j < k ==> !starts_with(#[trigger] ll[j], "PRETTY_NAME="@);
            proof {
                if chosen < i {
                } else if chosen > i {
                    assert(!starts_with(ll[i as int], "PRETTY_NAME="@));
                }
            }
            assert(chosen == i);
            let mut a: usize = 0;
            let line = &ls[i];
            let ghost lv = line@;
            assert(lv == ll[i as int]);
            assert(pretty_name_of(os_release@) == Some(
                unquoted(crate::optiscaler::strip_prefixes(lv, "PRETTY_NAME="@)),
            ));
            assert(lv.skip(0) =~= lv);
            loop
                invariant
                    a <= lv.len(),
                    lv == line@,
                    key@ == "PRETTY_NAME="@,
                    key@.len() > 0,
                    pretty_name_of(os_release@) == Some(
                        unquoted(crate::optiscaler::strip_prefixes(lv, "PRETTY_NAME="@)),
                    ),
                    crate::optiscaler::strip_prefixes(lv, key@) == crate::optiscaler::strip_prefixes(lv.skip(a as int), key@),
                decreases lv.len() - a,
            {
                let rest = crate::text::slice_of(line.as_slice(), a, line.len());
                assert(rest@ =~= lv.skip(a as int));
                if !crate::text::has_prefix(rest.as_slice(), key.as_slice()) {
                    let q = strip_quotes(rest.as_slice());
                    return Some(string_of(q.as_slice()));
                }
                assert(lv.skip(a as int).skip(key@.len() as int) =~= lv.skip(a + key@.len()));
                a = a + key.len();
            }
        }
        i = i + 1;
    }
    None
}

/// What the app found out about a Linux system.
#[derive(Debug, Clone)]
pub struct LinuxProbe {
    pub os: String,
    pub kernel: String,
    pub desktop: String,
    pub session: String,
    pub gpu: String,
    pub ntsync: bool,
    pub flatpak: bool,
}

/// The report header on Linux.
pub open spec fn linux_header(version: Seq<char>, st: AppSettings, p: LinuxProbe) -> Seq<char> {
    "LLauncher "@ + version + "\nOS: "@ + p.os@ + " (kernel "@ + p.kernel@ + ")\nSession: "@ + p.desktop@ + " / "@
        + p.session@ + "\nGPU: "@ + or_else(p.gpu@, "unknown"@) + "\nProton: "@ + (match crate::diagnose::file_name_of(
        st.proton_dir@,
    ) {
        Some(n) => n,
        None => st.proton_dir@,
    }) + "\nGame version: "@ + or_else(st.installed_version@, "not installed"@) + "\nntsync: "@ + bool_text(p.ntsync)
        + "\nFlags: vulkan="@ + bool_text(st.use_native_vulkan) + " wayland="@ + bool_text(st.use_wayland)
        + " dxvk_async="@ + bool_text(st.use_dxvk_async) + " gamemode="@ + bool_text(st.use_gamemode)
        + " mangohud="@ + bool_text(st.use_mangohud) + " gamescope="@ + bool_text(st.use_gamescope) + " prime="@
        + bool_text(st.use_prime_offload) + " fsync_off="@ + bool_text(st.disable_fsync) + " esync_off="@
        + bool_text(st.disable_esync) + " sdl_input="@ + bool_text(st.use_sdl_input) + "\nFlatpak: "@ + bool_text(
        p.flatpak,
    )
}

/// The flags of the Linux report, from `fsync_off=` to `sdl_input=`, with
/// each sync switch written out.
spec fn sync_flags_text(fsync_off: bool, esync_off: bool) -> Seq<char> {
    " fsync_off="@ + (if fsync_off { "true"@ } else { "false"@ }) + " esync_off="@ + (if esync_off {
        "true"@
    } else {
        "false"@
    }) + " sdl_input="@
}

/// Regrouping a run of pieces.
proof fn lemma_regroup(
    a: Seq<char>,
    x1: Seq<char>,
    x2: Seq<char>,
    x3: Seq<char>,
    x4: Seq<char>,
    x5: Seq<char>,
    y1: Seq<char>,
    y2: Seq<char>,
    y3: Seq<char>,
)
    ensures
        a + x1 + x2 + x3 + x4 + x5 + y1 + y2 + y3 == a + (x1 + x2 + x3 + x4 + x5) + (y1 + y2 + y3),
{
    assert(a + x1 + x2 + x3 + x4 + x5 + y1 + y2 + y3 =~= a + (x1 + x2 + x3 + x4 + x5) + (y1 + y2 + y3));
}

/// The Linux report shows each sync switch under its own name: after
/// `fsync_off=` the value of `disable_fsync`, after `esync_off=` that of
/// `disable_esync`.
pub proof fn lemma_header_shows_sync_switches(version: Seq<char>, st: AppSettings, p: LinuxProbe)
    ensures
        crate::text::has_sub(
            linux_header(version, st, p),
            " fsync_off="@ + (if st.disable_fsync { "true"@ } else { "false"@ }) + " esync_off="@ + (if st.disable_esync {
                "true"@
            } else {
                "false"@
            }) + " sdl_input="@,
        ),
{
    let a = "LLauncher "@ + version + "\nOS: "@ + p.os@ + " (kernel "@ + p.kernel@ + ")\nSession: "@ + p.desktop@ + " / "@
        + p.session@ + "\nGPU: "@ + or_else(p.gpu@, "unknown"@) + "\nProton: "@ + (match crate::diagnose::file_name_of(
        st.proton_dir@,
    ) {
        Some(n) => n,
        None => st.proton_dir@,
    }) + "\nGame version: "@ + or_else(st.installed_version@, "not installed"@) + "\nntsync: "@ + bool_text(p.ntsync)
        + "\nFlags: vulkan="@ + bool_text(st.use_native_vulkan) + " wayland="@ + bool_text(st.use_wayland)
        + " dxvk_async="@ + bool_text(st.use_dxvk_async) + " gamemode="@ + bool_text(st.use_gamemode)
        + " mangohud="@ + bool_text(st.use_mangohud) + " gamescope="@ + bool_text(st.use_gamescope) + " prime="@
        + bool_text(st.use_prime_offload);
    let b = bool_text(st.use_sdl_input) + "\nFlatpak: "@ + bool_text(p.flatpak);
    lemma_regroup(
        a,
        " fsync_off="@,
        bool_text(st.disable_fsync),
        " esync_off="@,
        bool_text(st.disable_esync),
        " sdl_input="@,
        bool_text(st.use_sdl_input),
        "\nFlatpak: "@,
        bool_text(p.flatpak),
    );
    crate::text::lemma_has_sub_between(a, sync_flags_text(st.disable_fsync, st.disable_esync), b);
}

pub fn debug_header(version: &str, settings: &AppSettings, probe: &LinuxProbe) -> (r: String)
    ensures
        r@ == linux_header(version@, *settings, *probe),
{
    let mut o: Vec<char> = Vec::new();
    push_str(&mut o, "LLauncher ");
    assert(o@ =~= "LLauncher "@);
    push_str(&mut o, version);
    push_str(&mut o, "\nOS: ");
    push_str(&mut o, probe.os.as_str());
    push_str(&mut o, " (kernel ");
    push_str(&mut o, probe.kernel.as_str());
    push_str(&mut o, ")\nSession: ");
    push_str(&mut o, probe.desktop.as_str());
    push_str(&mut o, " / ");
    push_str(&mut o, probe.session.as_str());
    push_str(&mut o, "\nGPU: ");
    push_or(&mut o, probe.gpu.as_str(), "unknown");
    push_str(&mut o, "\nProton: ");
    match crate::diagnose::file_name(settings.proton_dir.as_str()) {
        Some(n) => push_all(&mut o, n.as_slice()),
        None => push_str(&mut o, settings.proton_dir.as_str()),
    }
    push_str(&mut o, "\nGame version: ");
    push_or(&mut o, settings.installed_version.as_str(), "not installed");
    push_str(&mut o, "\nntsync: ");
    push_bool(&mut o, probe.ntsync);
    push_str(&mut o, "\nFlags: vulkan=");
    push_bool(&mut o, settings.use_native_vulkan);
    push_str(&mut o, " wayland=");
    push_bool(&mut o, settings.use_wayland);
    push_str(&mut o, " dxvk_async=");
    push_bool(&mut o, settings.use_dxvk_async);
    push_str(&mut o, " gamemode=");
    push_bool(&mut o, settings.use_gamemode);
    push_str(&mut o, " mangohud=");
    push_bool(&mut o, settings.use_mangohud);
    push_str(&mut o, " gamescope=");
    push_bool(&mut o, settings.use_gamescope);
    push_str(&mut o, " prime=");
    push_bool(&mut o, settings.use_prime_offload);
    push_str(&mut o, " fsync_off=");
    push_bool(&mut o, settings.disable_fsync);
    push_str(&mut o, " esync_off=");
    push_bool(&mut o, settings.disable_esync);
    push_str(&mut o, " sdl_input=");
    push_bool(&mut o, settings.use_sdl_input);
    push_str(&mut o, "\nFlatpak: ");
    push_bool(&mut o, probe.flatpak);
    string_of(o.as_slice())
}

/// The report on Windows: the OS caption and the GPU names as the app's
/// PowerShell probe printed them, one per line.
pub open spec fn windows_header(version: Seq<char>, st: AppSettings, os: Seq<char>, gpu: Seq<char>) -> Seq<char> {
    "LLauncher "@ + version + "\nOS: "@ + or_else(os, "Windows (version unknown)"@) + "\nGPU: "@ + or_else(
        gpu,
        "unknown"@,
    ) + "\nGame version: "@ + or_else(st.installed_version@, "not installed"@) + "\nFlags: run_as_admin="@
        + bool_text(st.windows_run_as_admin) + " discord_rpc="@ + bool_text(st.use_discord_rpc) + " on_launch="@
        + st.on_launch_action@
}

pub fn windows_debug_header(version: &str, settings: &AppSettings, os: &str, gpu: &str) -> (r: String)
    ensures
        r@ == windows_header(version@, *settings, os@, gpu@),
{
    let mut o: Vec<char> = Vec::new();
    push_str(&mut o, "LLauncher ");
    assert(o@ =~= "LLauncher "@);
    push_str(&mut o, version);
    push_str(&mut o, "\nOS: ");
    push_or(&mut o, os, "Windows (version unknown)");
    push_str(&mut o, "\nGPU: ");
    push_or(&mut o, gpu, "unknown");
    push_str(&mut o, "\nGame version: ");
    push_or(&mut o, settings.installed_version.as_str(), "not installed");
    push_str(&mut o, "\nFlags: run_as_admin=");
    push_bool(&mut o, settings.windows_run_as_admin);
    push_str(&mut o, " discord_rpc=");
    push_bool(&mut o, settings.use_discord_rpc);
    push_str(&mut o, " on_launch=");
    push_str(&mut o, settings.on_launch_action.as_str());
    string_of(o.as_slice())
}

/// The whole report: the header, then the launcher log's tail, then the
/// launch log's.
pub fn build_debug_info(header: &str, launcher_log: &str, log_tail: &str) -> (r: String)
    ensures
        r@ == header@ + "\n"@ + "\n--- launcher.log tail ---\n"@ + launcher_log@ + "\n"@ + "\n--- launch.log tail ---\n"@
            + log_tail@,
{
    let mut o: Vec<char> = Vec::new();
    push_str(&mut o, header);
    push_str(&mut o, "\n");
    push_str(&mut o, "\n--- launcher.log tail ---\n");
    push_str(&mut o, launcher_log);
    push_str(&mut o, "\n");
    push_str(&mut o, "\n--- launch.log tail ---\n");
    push_str(&mut o, log_tail);
    assert(o@ =~= header@ + "\n"@ + "\n--- launcher.log tail ---\n"@ + launcher_log@ + "\n"@ + "\n--- launch.log tail ---\n"@
        + log_tail@);
    string_of(o.as_slice())
}

} // verus!
