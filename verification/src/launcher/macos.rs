//! macOS: the game is a Windows executable run through the Wine build the
//! launcher installed (or one the settings point at), in a prefix laid out
//! like the Linux one.

use vstd::prelude::*;

use crate::launcher::{
    env_entries, exports, opt_text, pair_views, parse_custom_env_vars, push_exports, push_when,
};
use crate::paths::{data_base_of, join, join_path};
use crate::settings::AppSettings;
use crate::text::{
    chars_of, inserted, lemma_inserted_at_end, lemma_inserted_extend, lines, push_all, push_str, shell_escape,
    shell_quoted, string_of, trim, trimmed,
};

verus! {

/// A usable Wine install: the loader that runs the game and, when it sits
/// next to the loader, the server that owns the prefix.
#[derive(Debug, Clone)]
pub struct WineInstall {
    pub wine: String,
    pub wineserver: Option<String>,
}

/// The first install in the list that could be resolved.
pub open spec fn first_found(v: Seq<Option<WineInstall>>) -> Option<WineInstall>
    decreases v.len(),
{
    if v.len() == 0 {
        None
    } else if v[0] is Some {
        v[0]
    } else {
        first_found(v.drop_first())
    }
}

/// Which Wine runs the game. `configured` is what the Wine setting resolves
/// to, `installed` what each of the launcher's own installs resolves to,
/// newest first. An explicit setting is never silently replaced: if it
/// points at nothing usable the answer is none, not some other Wine.
pub fn resolve_wine(
    settings: &AppSettings,
    configured: Option<WineInstall>,
    installed: Vec<Option<WineInstall>>,
) -> (r: Option<WineInstall>)
    ensures
        trim(settings.macos_wine_dir@).len() > 0 ==> r == configured,
        trim(settings.macos_wine_dir@).len() == 0 ==> r == first_found(installed@),
{
    let hv = chars_of(settings.macos_wine_dir.as_str());
    let hint = trimmed(hv.as_slice());
    if hint.len() > 0 {
        return configured;
    }
    let mut list = installed;
    let ghost all = list@;
    let mut i: usize = 0;
    let n = list.len();
    assert(all.skip(0) =~= all);
    while i < n
        invariant
            n == list@.len(),
            list@ == all,
            all == installed@,
            trim(settings.macos_wine_dir@).len() == 0,
            i <= n,
            first_found(all) == first_found(all.skip(i as int)),
        decreases n - i,
    {
        assert(all.skip(i as int).drop_first() =~= all.skip(i + 1));
        if list[i].is_some() {
            let found = list.remove(i);
            assert(found == all[i as int]);
            return found;
        }
        i = i + 1;
    }
    None
}

/// The loader paths a Wine setting may mean, in the order they are tried:
/// the `bin` directory itself, an install root above it, or a WineHQ
/// application bundle, each with `wine` (Wine 9+) before `wine64`.
pub open spec fn loader_candidates_of(path: Seq<char>) -> Seq<Seq<char>> {
    let dirs = seq![path, join_path(path, "bin"@), join_path(path, "Contents/Resources/wine/bin"@)];
    seq![
        join_path(dirs[0], "wine"@),
        join_path(dirs[0], "wine64"@),
        join_path(dirs[1], "wine"@),
        join_path(dirs[1], "wine64"@),
        join_path(dirs[2], "wine"@),
        join_path(dirs[2], "wine64"@),
    ]
}

pub fn loader_candidates(path: &str) -> (r: Vec<String>)
    ensures
        crate::text::string_views(r@) == loader_candidates_of(path@),
{
    let bin = join(path, "bin");
    let bundle = join(path, "Contents/Resources/wine/bin");
    let mut r: Vec<String> = Vec::new();
    r.push(join(path, "wine"));
    r.push(join(path, "wine64"));
    r.push(join(bin.as_str(), "wine"));
    r.push(join(bin.as_str(), "wine64"));
    r.push(join(bundle.as_str(), "wine"));
    r.push(join(bundle.as_str(), "wine64"));
    assert(crate::text::string_views(r@) =~= loader_candidates_of(path@));
    r
}

/// The Wine prefix base: `endfield` under the configured prefix directory,
/// else under the default one. The prefix proper is its `pfx`.
pub fn resolve_prefix_dir(settings: &AppSettings, game_path: &str) -> (r: String)
    ensures
        trim(settings.proton_prefix_dir@).len() > 0 ==> r@ == join_path(
            trim(settings.proton_prefix_dir@),
            "endfield"@,
        ),
        trim(settings.proton_prefix_dir@).len() == 0 ==> exists|d: Option<Seq<char>>, h: Option<Seq<char>>|
            r@ == join_path(join_path(data_base_of(d, h), "prefix"@), "endfield"@),
{
    let pv = chars_of(settings.proton_prefix_dir.as_str());
    let configured = trimmed(pv.as_slice());
    if configured.len() > 0 {
        let base = string_of(configured.as_slice());
        return join(base.as_str(), "endfield");
    }
    let base = crate::paths::default_proton_prefix_dir();
    join(base.as_str(), "endfield")
}

/// The environment every script run in the prefix starts with.
pub open spec fn env_script(st: AppSettings, prefix: Seq<char>, with_mods: bool) -> Seq<char> {
    "export WINEPREFIX="@ + shell_quoted(prefix) + "\n"@ + "export WINEDEBUG=-all\n"@ + opt_text(
        st.macos_advertise_avx,
        "export ROSETTA_ADVERTISE_AVX=1\n"@,
    ) + opt_text(st.macos_metal_hud, "export MTL_HUD_ENABLED=1\n"@) + opt_text(
        with_mods,
        "export WINEDLLOVERRIDES='d3d11=n,b;dxgi=n,b'\n"@,
    ) + exports(env_entries(lines(st.custom_env_vars@)))
}

/// The script with the Metal HUD switched off and on, around its HUD line.
proof fn lemma_metal_hud_script_parts(st: AppSettings, prefix: Seq<char>, with_mods: bool)
    ensures
        env_script(AppSettings { macos_metal_hud: false, ..st }, prefix, with_mods) == "export WINEPREFIX="@ + shell_quoted(prefix) + "\n"@ + "export WINEDEBUG=-all\n"@ + opt_text(st.macos_advertise_avx, "export ROSETTA_ADVERTISE_AVX=1\n"@) + Seq::<char>::empty() + opt_text(with_mods, "export WINEDLLOVERRIDES='d3d11=n,b;dxgi=n,b'\n"@) + exports(env_entries(lines(st.custom_env_vars@))),
        env_script(AppSettings { macos_metal_hud: true, ..st }, prefix, with_mods) == "export WINEPREFIX="@ + shell_quoted(prefix) + "\n"@ + "export WINEDEBUG=-all\n"@ + opt_text(st.macos_advertise_avx, "export ROSETTA_ADVERTISE_AVX=1\n"@) + "export MTL_HUD_ENABLED=1\n"@ + opt_text(with_mods, "export WINEDLLOVERRIDES='d3d11=n,b;dxgi=n,b'\n"@) + exports(env_entries(lines(st.custom_env_vars@))),
{
    assert(opt_text(false, "export MTL_HUD_ENABLED=1\n"@) =~= Seq::<char>::empty());
}

proof fn lemma_metal_hud_line_inserted(st: AppSettings, prefix: Seq<char>, with_mods: bool)
    ensures
        inserted(
            "export WINEPREFIX="@ + shell_quoted(prefix) + "\n"@ + "export WINEDEBUG=-all\n"@ + opt_text(st.macos_advertise_avx, "export ROSETTA_ADVERTISE_AVX=1\n"@) + Seq::<char>::empty() + opt_text(with_mods, "export WINEDLLOVERRIDES='d3d11=n,b;dxgi=n,b'\n"@) + exports(env_entries(lines(st.custom_env_vars@))),
            "export WINEPREFIX="@ + shell_quoted(prefix) + "\n"@ + "export WINEDEBUG=-all\n"@ + opt_text(st.macos_advertise_avx, "export ROSETTA_ADVERTISE_AVX=1\n"@) + "export MTL_HUD_ENABLED=1\n"@ + opt_text(with_mods, "export WINEDLLOVERRIDES='d3d11=n,b;dxgi=n,b'\n"@) + exports(env_entries(lines(st.custom_env_vars@))),
            "export MTL_HUD_ENABLED=1\n"@,
        ),
{
    let head = "export WINEPREFIX="@ + shell_quoted(prefix) + "\n"@ + "export WINEDEBUG=-all\n"@ + opt_text(st.macos_advertise_avx, "export ROSETTA_ADVERTISE_AVX=1\n"@);
    let line = "export MTL_HUD_ENABLED=1\n"@;
    lemma_inserted_at_end(head, line);
    lemma_inserted_extend(head + Seq::<char>::empty(), head + line, line, opt_text(with_mods, "export WINEDLLOVERRIDES='d3d11=n,b;dxgi=n,b'\n"@));
    lemma_inserted_extend(head + Seq::<char>::empty() + opt_text(with_mods, "export WINEDLLOVERRIDES='d3d11=n,b;dxgi=n,b'\n"@), head + line + opt_text(with_mods, "export WINEDLLOVERRIDES='d3d11=n,b;dxgi=n,b'\n"@), line, exports(env_entries(lines(st.custom_env_vars@))));
}

/// Switching the Metal HUD on puts exactly the line
/// `export MTL_HUD_ENABLED=1` into the macOS environment script and changes
/// nothing else in it.
pub proof fn lemma_metal_hud_switch_adds_its_line(st: AppSettings, prefix: Seq<char>, with_mods: bool)
    ensures
        inserted(
            env_script(AppSettings { macos_metal_hud: false, ..st }, prefix, with_mods),
            env_script(AppSettings { macos_metal_hud: true, ..st }, prefix, with_mods),
            "export MTL_HUD_ENABLED=1\n"@,
        ),
{
    lemma_metal_hud_script_parts(st, prefix, with_mods);
    lemma_metal_hud_line_inserted(st, prefix, with_mods);
}

fn env_script_chars(settings: &AppSettings, prefix: &str, with_mods: bool) -> (r: Vec<char>)
    ensures
        r@ == env_script(*settings, prefix@, with_mods),
{
    let mut s: Vec<char> = Vec::new();
    push_str(&mut s, "export WINEPREFIX=");
    assert(s@ =~= "export WINEPREFIX="@);
    let p = shell_escape(prefix);
    push_str(&mut s, p.as_str());
    push_str(&mut s, "\n");
    push_str(&mut s, "export WINEDEBUG=-all\n");
    push_when(&mut s, settings.macos_advertise_avx, "export ROSETTA_ADVERTISE_AVX=1\n");
    push_when(&mut s, settings.macos_metal_hud, "export MTL_HUD_ENABLED=1\n");
    push_when(&mut s, with_mods, "export WINEDLLOVERRIDES='d3d11=n,b;dxgi=n,b'\n");
    let entries = parse_custom_env_vars(settings.custom_env_vars.as_str());
    push_exports(&mut s, entries.as_slice());
    s
}

/// The environment preamble: the prefix pinned, Wine's debug channels off,
/// the Rosetta and Metal switches, the DLL override of a modded launch and
/// the user's own variables last, so they can override the rest.
pub fn build_env_script(settings: &AppSettings, prefix: &str, with_mods: bool) -> (r: String)
    ensures
        r@ == env_script(*settings, prefix@, with_mods),
{
    let v = env_script_chars(settings, prefix, with_mods);
    string_of(v.as_slice())
}

/// The renderer switch. DXMT translates Direct3D 11 only, so the game is
/// held there unless the settings ask for Vulkan; a modded launch always is.
pub open spec fn renderer(st: AppSettings, with_mods: bool) -> Seq<char> {
    if st.macos_native_vulkan && !with_mods {
        "-vulkan"@
    } else {
        "-force-d3d11"@
    }
}

pub fn renderer_args(settings: &AppSettings, with_mods: bool) -> (r: &'static str)
    ensures
        r@ == renderer(*settings, with_mods),
{
    if settings.macos_native_vulkan && !with_mods {
        "-vulkan"
    } else {
        "-force-d3d11"
    }
}

/// The message of a "no Wine" failure: a setting pointing at nothing is
/// told apart from a Mac with nothing installed, since the fix differs.
pub open spec fn wine_hint_text(st: AppSettings) -> Seq<char> {
    if trim(st.macos_wine_dir@).len() == 0 {
        "No Wine installation found. Download one in Settings > Wine: the launcher installs Wine Staging with the Endfield modules and DXMT."@
    } else {
        "No wine or wine64 binary under: "@ + trim(st.macos_wine_dir@)
    }
}

pub fn wine_hint(settings: &AppSettings) -> (r: String)
    ensures
        r@ == wine_hint_text(*settings),
{
    let hv = chars_of(settings.macos_wine_dir.as_str());
    let configured = trimmed(hv.as_slice());
    let mut m: Vec<char> = Vec::new();
    if configured.len() == 0 {
        push_str(
            &mut m,
            "No Wine installation found. Download one in Settings > Wine: the launcher installs Wine Staging with the Endfield modules and DXMT.",
        );
    } else {
        push_str(&mut m, "No wine or wine64 binary under: ");
        push_all(&mut m, configured.as_slice());
    }
    assert(m@ =~= wine_hint_text(*settings));
    string_of(m.as_slice())
}

/// The script that starts the game: the environment, a `cd` into the game
/// directory, then Wine on the executable's Unix path with the renderer
/// switch and the user's arguments, output sent to the launch log.
pub open spec fn launch_script_text(st: AppSettings, wine: Seq<char>, prefix: Seq<char>, log: Seq<char>, with_mods: bool) -> Seq<char> {
    env_script(st, prefix, with_mods) + "cd "@ + shell_quoted(st.game_dir@) + "\n"@ + "exec "@
        + shell_quoted(wine) + " "@ + shell_quoted(join_path(st.game_dir@, "Endfield.exe"@)) + " "@
        + renderer(st, with_mods) + opt_text(st.custom_launch_args@.len() > 0, " "@ + st.custom_launch_args@)
        + " > "@ + shell_quoted(log) + " 2>&1\n"@
}

pub fn launch_script(settings: &AppSettings, wine: &str, prefix: &str, log_path: &str, with_mods: bool) -> (r: String)
    ensures
        r@ == launch_script_text(*settings, wine@, prefix@, log_path@, with_mods),
{
    let mut s = env_script_chars(settings, prefix, with_mods);
    push_str(&mut s, "cd ");
    let g = shell_escape(settings.game_dir.as_str());
    push_str(&mut s, g.as_str());
    push_str(&mut s, "\n");
    push_str(&mut s, "exec ");
    let w = shell_escape(wine);
    push_str(&mut s, w.as_str());
    push_str(&mut s, " ");
    let exe = join(settings.game_dir.as_str(), "Endfield.exe");
    let e = shell_escape(exe.as_str());
    push_str(&mut s, e.as_str());
    push_str(&mut s, " ");
    push_str(&mut s, renderer_args(settings, with_mods));
    let custom = chars_of(settings.custom_launch_args.as_str());
    let ghost before = s@;
    if custom.len() > 0 {
        push_str(&mut s, " ");
        push_all(&mut s, custom.as_slice());
    }
    assert(s@ =~= before + opt_text(settings.custom_launch_args@.len() > 0, " "@ + settings.custom_launch_args@));
    push_str(&mut s, " > ");
    let l = shell_escape(log_path);
    push_str(&mut s, l.as_str());
    push_str(&mut s, " 2>&1\n");
    string_of(s.as_slice())
}

/// The script that runs a Wine tool in the prefix, output discarded.
pub open spec fn tool_script_text(st: AppSettings, wine: Seq<char>, prefix: Seq<char>, tool: Seq<char>) -> Seq<char> {
    env_script(st, prefix, false) + "exec "@ + shell_quoted(wine) + " "@ + shell_quoted(tool)
        + " > /dev/null 2>&1\n"@
}

pub fn tool_script(settings: &AppSettings, wine: &str, prefix: &str, tool: &str) -> (r: String)
    ensures
        r@ == tool_script_text(*settings, wine@, prefix@, tool@),
{
    let mut s = env_script_chars(settings, prefix, false);
    push_str(&mut s, "exec ");
    let w = shell_escape(wine);
    push_str(&mut s, w.as_str());
    push_str(&mut s, " ");
    let t = shell_escape(tool);
    push_str(&mut s, t.as_str());
    push_str(&mut s, " > /dev/null 2>&1\n");
    string_of(s.as_slice())
}

} // verus!
