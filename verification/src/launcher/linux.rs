//! Linux: the game is a Windows executable run through Proton inside a
//! prefix the launcher owns, started by a `bash` script that exports the
//! environment and wraps the Proton call in gamemode, gamescope or MangoHud.

use vstd::prelude::*;

use crate::launcher::{
    env_entries, exports, parse_custom_env_vars, pair_views, push_exports, push_when, opt_text,
};
use crate::paths::{data_base_of, join, join_path};
use crate::settings::AppSettings;
use crate::text::{
    chars_of, decimal, decimal_chars, join as join_seq, join_chars, lines, lowercase,
    parse_u32, parse_u32_spec, push_all, push_str, replace, replace_chars, same_text, contains_sub, has_sub, occurs_at,
    shell_escape, shell_quoted, split_once, split_once_chars, string_of, to_lowercase, trim,
    trimmed, views, inserted, lemma_inserted_at_end, lemma_inserted_extend,
};

verus! {

/// The shell lines a modded launch runs before the game: create the prefix
/// if it is missing, then give `Endfield.exe` the native `d3d11`/`dxgi` and
/// its helper processes the builtin ones, unless the prefix already has them.
pub const APPDEFAULTS_GUARD: &'static str = "if [ ! -f \"$STEAM_COMPAT_DATA_PATH/pfx/user.reg\" ]; then\n\
  \"$STEAM_COMPAT_CLIENT_INSTALL_PATH/proton\" run wineboot -u\n\
fi\n\
if [ -f \"$STEAM_COMPAT_DATA_PATH/pfx/user.reg\" ] && ! grep -q \"PlatformProcess.exe\" \"$STEAM_COMPAT_DATA_PATH/pfx/user.reg\"; then\n\
cat << 'EOF' >> \"$STEAM_COMPAT_DATA_PATH/pfx/user.reg\"\n\
\n\
[Software\\\\Wine\\\\AppDefaults\\\\Endfield.exe\\\\DllOverrides]\n\
\"d3d11\"=\"native,builtin\"\n\
\"dxgi\"=\"native,builtin\"\n\
\n\
[Software\\\\Wine\\\\AppDefaults\\\\PlatformProcess.exe\\\\DllOverrides]\n\
\"d3d11\"=\"builtin\"\n\
\"dxgi\"=\"builtin\"\n\
\n\
[Software\\\\Wine\\\\AppDefaults\\\\QtWebEngineProcess.exe\\\\DllOverrides]\n\
\"d3d11\"=\"builtin\"\n\
\"dxgi\"=\"builtin\"\n\
EOF\n\
fi\n";

pub open spec fn prime_lines() -> Seq<char> {
    "export DRI_PRIME=1\nexport __NV_PRIME_RENDER_OFFLOAD=1\nexport __VK_LAYER_NV_optimus=NVIDIA_only\nexport __GLX_VENDOR_LIBRARY_NAME=nvidia\n"@
}

/// The start of the environment preamble: the Proton paths and the
/// switches every launch sets.
pub open spec fn env_head(st: AppSettings, proton_dir: Seq<char>, compat: Seq<char>) -> Seq<char> {
    "unset PYTHONHOME PYTHONPATH\n"@
        + "export PROTON_USE_WINEALSA=1\nexport UMU_USE_STEAM=1\nexport STEAM_COMPAT_CLIENT_INSTALL_PATH="@
        + shell_quoted(proton_dir) + "\nexport STEAM_COMPAT_DATA_PATH="@ + shell_quoted(compat)
        + "\nexport PROTON_USE_WINED3D=0\nexport PROTON_USE_XALIA=0\n"@
        + opt_text(st.use_dxvk_async, "export DXVK_ASYNC=1\n"@)
        + opt_text(st.use_wayland, "export PROTON_ENABLE_WAYLAND=1\n"@)
}

/// `prefix` followed by the rest of the preamble: the optional switches
/// after the sync ones, then the user's own variables.
pub open spec fn env_tail_on(prefix: Seq<char>, st: AppSettings, with_mods: bool, ntsync: bool, optiscaler: bool) -> Seq<char> {
    prefix
        + opt_text(ntsync, "export PROTON_ENABLE_NTSYNC=1\n"@)
        + opt_text(st.use_canonical_hole, "export WINE_CANONICAL_HOLE='skip_volatile_check'\n"@)
        + opt_text(st.use_sdl_input, "export PROTON_PREFER_SDL=1\n"@)
        + opt_text(st.use_prime_offload, prime_lines())
        + opt_text(with_mods, APPDEFAULTS_GUARD@)
        + opt_text(optiscaler, "export WINEDLLOVERRIDES='winmm=n,b'\n"@)
        + opt_text(st.dlss_upgrade, "export PROTON_DLSS_UPGRADE=1\n"@)
        + opt_text(st.dlss_indicator, "export PROTON_DLSS_INDICATOR=1\n"@)
        + opt_text(st.use_vk_reflex, "export DXVK_NVAPI_VKREFLEX=1\n"@)
        + opt_text(st.use_vkbasalt, "export ENABLE_VKBASALT=1\n"@)
        + exports(env_entries(lines(st.custom_env_vars@)))
}

/// The environment preamble of every script run in the game's prefix.
/// `ntsync` says whether `/dev/ntsync` exists, `optiscaler` whether
/// OptiScaler sits in the game directory under its proxy name.
pub open spec fn env_script(
    st: AppSettings,
    proton_dir: Seq<char>,
    compat: Seq<char>,
    with_mods: bool,
    ntsync: bool,
    optiscaler: bool,
) -> Seq<char> {
    env_tail_on(
        env_head(st, proton_dir, compat)
            + opt_text(st.disable_fsync, "export PROTON_NO_FSYNC=1\n"@)
            + opt_text(st.disable_esync, "export PROTON_NO_ESYNC=1\n"@),
        st,
        with_mods,
        ntsync,
        optiscaler,
    )
}

/// Text put into a prefix stays put into what the rest of the preamble
/// is appended to.
proof fn lemma_tail_keeps_insertion(
    off: Seq<char>,
    on: Seq<char>,
    line: Seq<char>,
    st: AppSettings,
    with_mods: bool,
    ntsync: bool,
    optiscaler: bool,
)
    requires
        inserted(off, on, line),
    ensures
        inserted(env_tail_on(off, st, with_mods, ntsync, optiscaler), env_tail_on(on, st, with_mods, ntsync, optiscaler), line),
{
    let a = off;
    let b = on;
    lemma_inserted_extend(a, b, line, opt_text(ntsync, "export PROTON_ENABLE_NTSYNC=1\n"@));
    let a = a + opt_text(ntsync, "export PROTON_ENABLE_NTSYNC=1\n"@);
    let b = b + opt_text(ntsync, "export PROTON_ENABLE_NTSYNC=1\n"@);
    lemma_inserted_extend(a, b, line, opt_text(st.use_canonical_hole, "export WINE_CANONICAL_HOLE='skip_volatile_check'\n"@));
    let a = a + opt_text(st.use_canonical_hole, "export WINE_CANONICAL_HOLE='skip_volatile_check'\n"@);
    let b = b + opt_text(st.use_canonical_hole, "export WINE_CANONICAL_HOLE='skip_volatile_check'\n"@);
    lemma_inserted_extend(a, b, line, opt_text(st.use_sdl_input, "export PROTON_PREFER_SDL=1\n"@));
    let a = a + opt_text(st.use_sdl_input, "export PROTON_PREFER_SDL=1\n"@);
    let b = b + opt_text(st.use_sdl_input, "export PROTON_PREFER_SDL=1\n"@);
    lemma_inserted_extend(a, b, line, opt_text(st.use_prime_offload, prime_lines()));
    let a = a + opt_text(st.use_prime_offload, prime_lines());
    let b = b + opt_text(st.use_prime_offload, prime_lines());
    lemma_inserted_extend(a, b, line, opt_text(with_mods, APPDEFAULTS_GUARD@));
    let a = a + opt_text(with_mods, APPDEFAULTS_GUARD@);
    let b = b + opt_text(with_mods, APPDEFAULTS_GUARD@);
    lemma_inserted_extend(a, b, line, opt_text(optiscaler, "export WINEDLLOVERRIDES='winmm=n,b'\n"@));
    let a = a + opt_text(optiscaler, "export WINEDLLOVERRIDES='winmm=n,b'\n"@);
    let b = b + opt_text(optiscaler, "export WINEDLLOVERRIDES='winmm=n,b'\n"@);
    lemma_inserted_extend(a, b, line, opt_text(st.dlss_upgrade, "export PROTON_DLSS_UPGRADE=1\n"@));
    let a = a + opt_text(st.dlss_upgrade, "export PROTON_DLSS_UPGRADE=1\n"@);
    let b = b + opt_text(st.dlss_upgrade, "export PROTON_DLSS_UPGRADE=1\n"@);
    lemma_inserted_extend(a, b, line, opt_text(st.dlss_indicator, "export PROTON_DLSS_INDICATOR=1\n"@));
    let a = a + opt_text(st.dlss_indicator, "export PROTON_DLSS_INDICATOR=1\n"@);
    let b = b + opt_text(st.dlss_indicator, "export PROTON_DLSS_INDICATOR=1\n"@);
    lemma_inserted_extend(a, b, line, opt_text(st.use_vk_reflex, "export DXVK_NVAPI_VKREFLEX=1\n"@));
    let a = a + opt_text(st.use_vk_reflex, "export DXVK_NVAPI_VKREFLEX=1\n"@);
    let b = b + opt_text(st.use_vk_reflex, "export DXVK_NVAPI_VKREFLEX=1\n"@);
    lemma_inserted_extend(a, b, line, opt_text(st.use_vkbasalt, "export ENABLE_VKBASALT=1\n"@));
    let a = a + opt_text(st.use_vkbasalt, "export ENABLE_VKBASALT=1\n"@);
    let b = b + opt_text(st.use_vkbasalt, "export ENABLE_VKBASALT=1\n"@);
    lemma_inserted_extend(a, b, line, exports(env_entries(lines(st.custom_env_vars@))));
    let a = a + exports(env_entries(lines(st.custom_env_vars@)));
    let b = b + exports(env_entries(lines(st.custom_env_vars@)));
}

/// The parts of the preamble around the sync lines read no sync switch.
proof fn lemma_parts_ignore_sync(st: AppSettings, other: AppSettings, proton_dir: Seq<char>, compat: Seq<char>, prefix: Seq<char>, with_mods: bool, ntsync: bool, optiscaler: bool)
    requires
        other == (AppSettings { disable_fsync: other.disable_fsync, disable_esync: other.disable_esync, ..st }),
    ensures
        env_head(other, proton_dir, compat) == env_head(st, proton_dir, compat),
        env_tail_on(prefix, other, with_mods, ntsync, optiscaler) == env_tail_on(prefix, st, with_mods, ntsync, optiscaler),
{
}

/// The script with `disable_fsync` switched off and on, each as the rest of
/// the preamble appended to its start.
proof fn lemma_fsync_script_parts(
    st: AppSettings,
    proton_dir: Seq<char>,
    compat: Seq<char>,
    with_mods: bool,
    ntsync: bool,
    optiscaler: bool,
)
    ensures
        ({
            let line = "export PROTON_NO_FSYNC=1\n"@;
            &&& env_script(AppSettings { disable_fsync: false, ..st }, proton_dir, compat, with_mods, ntsync, optiscaler)
                == env_tail_on(env_head(st, proton_dir, compat) + Seq::<char>::empty() + opt_text(st.disable_esync, "export PROTON_NO_ESYNC=1\n"@), st, with_mods, ntsync, optiscaler)
            &&& env_script(AppSettings { disable_fsync: true, ..st }, proton_dir, compat, with_mods, ntsync, optiscaler)
                == env_tail_on(env_head(st, proton_dir, compat) + line + opt_text(st.disable_esync, "export PROTON_NO_ESYNC=1\n"@), st, with_mods, ntsync, optiscaler)
        }),
{
    let line = "export PROTON_NO_FSYNC=1\n"@;
    let off_st = AppSettings { disable_fsync: false, ..st };
    let on_st = AppSettings { disable_fsync: true, ..st };
    lemma_parts_ignore_sync(st, off_st, proton_dir, compat, env_head(st, proton_dir, compat) + Seq::<char>::empty() + opt_text(st.disable_esync, "export PROTON_NO_ESYNC=1\n"@), with_mods, ntsync, optiscaler);
    lemma_parts_ignore_sync(st, on_st, proton_dir, compat, env_head(st, proton_dir, compat) + line + opt_text(st.disable_esync, "export PROTON_NO_ESYNC=1\n"@), with_mods, ntsync, optiscaler);
    assert(opt_text(false, line) =~= Seq::<char>::empty());
}

proof fn lemma_fsync_line_inserted(
    st: AppSettings,
    proton_dir: Seq<char>,
    compat: Seq<char>,
    with_mods: bool,
    ntsync: bool,
    optiscaler: bool,
)
    ensures
        ({
            let line = "export PROTON_NO_FSYNC=1\n"@;
            inserted(
                env_tail_on(env_head(st, proton_dir, compat) + Seq::<char>::empty() + opt_text(st.disable_esync, "export PROTON_NO_ESYNC=1\n"@), st, with_mods, ntsync, optiscaler),
                env_tail_on(env_head(st, proton_dir, compat) + line + opt_text(st.disable_esync, "export PROTON_NO_ESYNC=1\n"@), st, with_mods, ntsync, optiscaler),
                line,
            )
        }),
{
    let line = "export PROTON_NO_FSYNC=1\n"@;
    let head = env_head(st, proton_dir, compat);
    let e = opt_text(st.disable_esync, "export PROTON_NO_ESYNC=1\n"@);
    lemma_inserted_at_end(head, line);
    lemma_inserted_extend(head + Seq::<char>::empty(), head + line, line, e);
    lemma_tail_keeps_insertion(env_head(st, proton_dir, compat) + Seq::<char>::empty() + opt_text(st.disable_esync, "export PROTON_NO_ESYNC=1\n"@), env_head(st, proton_dir, compat) + line + opt_text(st.disable_esync, "export PROTON_NO_ESYNC=1\n"@), line, st, with_mods, ntsync, optiscaler);
}

/// Switching `disable_fsync` on puts exactly the line
/// `export PROTON_NO_FSYNC=1` into the environment script and changes
/// nothing else in it.
pub proof fn lemma_fsync_switch_adds_its_line(
    st: AppSettings,
    proton_dir: Seq<char>,
    compat: Seq<char>,
    with_mods: bool,
    ntsync: bool,
    optiscaler: bool,
)
    ensures
        inserted(
            env_script(AppSettings { disable_fsync: false, ..st }, proton_dir, compat, with_mods, ntsync, optiscaler),
            env_script(AppSettings { disable_fsync: true, ..st }, proton_dir, compat, with_mods, ntsync, optiscaler),
            "export PROTON_NO_FSYNC=1\n"@,
        ),
{
    lemma_fsync_script_parts(st, proton_dir, compat, with_mods, ntsync, optiscaler);
    lemma_fsync_line_inserted(st, proton_dir, compat, with_mods, ntsync, optiscaler);
}

/// The script with `disable_esync` switched off and on, each as the rest of
/// the preamble appended to its start.
proof fn lemma_esync_script_parts(
    st: AppSettings,
    proton_dir: Seq<char>,
    compat: Seq<char>,
    with_mods: bool,
    ntsync: bool,
    optiscaler: bool,
)
    ensures
        ({
            let line = "export PROTON_NO_ESYNC=1\n"@;
            &&& env_script(AppSettings { disable_esync: false, ..st }, proton_dir, compat, with_mods, ntsync, optiscaler)
                == env_tail_on(env_head(st, proton_dir, compat) + opt_text(st.disable_fsync, "export PROTON_NO_FSYNC=1\n"@) + Seq::<char>::empty(), st, with_mods, ntsync, optiscaler)
            &&& env_script(AppSettings { disable_esync: true, ..st }, proton_dir, compat, with_mods, ntsync, optiscaler)
                == env_tail_on(env_head(st, proton_dir, compat) + opt_text(st.disable_fsync, "export PROTON_NO_FSYNC=1\n"@) + line, st, with_mods, ntsync, optiscaler)
        }),
{
    let line = "export PROTON_NO_ESYNC=1\n"@;
    let off_st = AppSettings { disable_esync: false, ..st };
    let on_st = AppSettings { disable_esync: true, ..st };
    lemma_parts_ignore_sync(st, off_st, proton_dir, compat, env_head(st, proton_dir, compat) + opt_text(st.disable_fsync, "export PROTON_NO_FSYNC=1\n"@) + Seq::<char>::empty(), with_mods, ntsync, optiscaler);
    lemma_parts_ignore_sync(st, on_st, proton_dir, compat, env_head(st, proton_dir, compat) + opt_text(st.disable_fsync, "export PROTON_NO_FSYNC=1\n"@) + line, with_mods, ntsync, optiscaler);
    assert(opt_text(false, line) =~= Seq::<char>::empty());
}

proof fn lemma_esync_line_inserted(
    st: AppSettings,
    proton_dir: Seq<char>,
    compat: Seq<char>,
    with_mods: bool,
    ntsync: bool,
    optiscaler: bool,
)
    ensures
        ({
            let line = "export PROTON_NO_ESYNC=1\n"@;
            inserted(
                env_tail_on(env_head(st, proton_dir, compat) + opt_text(st.disable_fsync, "export PROTON_NO_FSYNC=1\n"@) + Seq::<char>::empty(), st, with_mods, ntsync, optiscaler),
                env_tail_on(env_head(st, proton_dir, compat) + opt_text(st.disable_fsync, "export PROTON_NO_FSYNC=1\n"@) + line, st, with_mods, ntsync, optiscaler),
                line,
            )
        }),
{
    let line = "export PROTON_NO_ESYNC=1\n"@;
    let head = env_head(st, proton_dir, compat) + opt_text(st.disable_fsync, "export PROTON_NO_FSYNC=1\n"@);
    lemma_inserted_at_end(head, line);
    lemma_tail_keeps_insertion(env_head(st, proton_dir, compat) + opt_text(st.disable_fsync, "export PROTON_NO_FSYNC=1\n"@) + Seq::<char>::empty(), env_head(st, proton_dir, compat) + opt_text(st.disable_fsync, "export PROTON_NO_FSYNC=1\n"@) + line, line, st, with_mods, ntsync, optiscaler);
}

/// Switching `disable_esync` on puts exactly the line
/// `export PROTON_NO_ESYNC=1` into the environment script and changes
/// nothing else in it.
pub proof fn lemma_esync_switch_adds_its_line(
    st: AppSettings,
    proton_dir: Seq<char>,
    compat: Seq<char>,
    with_mods: bool,
    ntsync: bool,
    optiscaler: bool,
)
    ensures
        inserted(
            env_script(AppSettings { disable_esync: false, ..st }, proton_dir, compat, with_mods, ntsync, optiscaler),
            env_script(AppSettings { disable_esync: true, ..st }, proton_dir, compat, with_mods, ntsync, optiscaler),
            "export PROTON_NO_ESYNC=1\n"@,
        ),
{
    lemma_esync_script_parts(st, proton_dir, compat, with_mods, ntsync, optiscaler);
    lemma_esync_line_inserted(st, proton_dir, compat, with_mods, ntsync, optiscaler);
}

fn env_script_with(
    settings: &AppSettings,
    proton_dir: &str,
    compat_data: &str,
    with_mods: bool,
    ntsync: bool,
    optiscaler: bool,
) -> (r: Vec<char>)
    ensures
        r@ == env_script(*settings, proton_dir@, compat_data@, with_mods, ntsync, optiscaler),
{
    let mut s: Vec<char> = Vec::new();
    push_str(&mut s, "unset PYTHONHOME PYTHONPATH\n");
    assert(s@ =~= "unset PYTHONHOME PYTHONPATH\n"@);
    push_str(
        &mut s,
        "export PROTON_USE_WINEALSA=1\nexport UMU_USE_STEAM=1\nexport STEAM_COMPAT_CLIENT_INSTALL_PATH=",
    );
    let p = shell_escape(proton_dir);
    push_str(&mut s, p.as_str());
    push_str(&mut s, "\nexport STEAM_COMPAT_DATA_PATH=");
    let c = shell_escape(compat_data);
    push_str(&mut s, c.as_str());
    push_str(&mut s, "\nexport PROTON_USE_WINED3D=0\nexport PROTON_USE_XALIA=0\n");
    push_when(&mut s, settings.use_dxvk_async, "export DXVK_ASYNC=1\n");
    push_when(&mut s, settings.use_wayland, "export PROTON_ENABLE_WAYLAND=1\n");
    push_when(&mut s, settings.disable_fsync, "export PROTON_NO_FSYNC=1\n");
    push_when(&mut s, settings.disable_esync, "export PROTON_NO_ESYNC=1\n");
    push_when(&mut s, ntsync, "export PROTON_ENABLE_NTSYNC=1\n");
    push_when(&mut s, settings.use_canonical_hole, "export WINE_CANONICAL_HOLE='skip_volatile_check'\n");
    push_when(&mut s, settings.use_sdl_input, "export PROTON_PREFER_SDL=1\n");
    push_when(
        &mut s,
        settings.use_prime_offload,
        "export DRI_PRIME=1\nexport __NV_PRIME_RENDER_OFFLOAD=1\nexport __VK_LAYER_NV_optimus=NVIDIA_only\nexport __GLX_VENDOR_LIBRARY_NAME=nvidia\n",
    );
    push_when(&mut s, with_mods, APPDEFAULTS_GUARD);
    push_when(&mut s, optiscaler, "export WINEDLLOVERRIDES='winmm=n,b'\n");
    push_when(&mut s, settings.dlss_upgrade, "export PROTON_DLSS_UPGRADE=1\n");
    push_when(&mut s, settings.dlss_indicator, "export PROTON_DLSS_INDICATOR=1\n");
    push_when(&mut s, settings.use_vk_reflex, "export DXVK_NVAPI_VKREFLEX=1\n");
    push_when(&mut s, settings.use_vkbasalt, "export ENABLE_VKBASALT=1\n");
    let entries = parse_custom_env_vars(settings.custom_env_vars.as_str());
    push_exports(&mut s, entries.as_slice());
    s
}

/// The environment preamble of every script run in the game's prefix: the
/// game launch and the prefix tools see exactly the same variables.
pub fn build_env_script(
    settings: &AppSettings,
    compat_data: &str,
    with_mods: bool,
    ntsync: bool,
    optiscaler: bool,
) -> (r: String)
    ensures
        r@ == env_script(*settings, settings.proton_dir@, compat_data@, with_mods, ntsync, optiscaler),
{
    let v = env_script_with(settings, settings.proton_dir.as_str(), compat_data, with_mods, ntsync, optiscaler);
    string_of(v.as_slice())
}

} // verus!

verus! {

/// `WIDTHxHEIGHT` read as gamescope takes it: trimmed, lower-cased, split at
/// the first `x`, both sides positive decimal numbers.
pub open spec fn resolution(s: Seq<char>) -> Option<(u32, u32)> {
    match split_once(lowercase(trim(s)), 'x') {
        None => None,
        Some((w, h)) => match (parse_u32_spec(trim(w)), parse_u32_spec(trim(h))) {
            (Some(a), Some(b)) => if a > 0 && b > 0 {
                Some((a, b))
            } else {
                None
            },
            _ => None,
        },
    }
}

fn parse_res(s: &str) -> (r: Option<(u32, u32)>)
    ensures
        r == resolution(s@),
{
    let v = chars_of(s);
    let t = trimmed(v.as_slice());
    let ts = string_of(t.as_slice());
    let lower = to_lowercase(ts.as_str());
    match split_once_chars(lower.as_slice(), 'x') {
        None => None,
        Some((w, h)) => {
            let wt = trimmed(w.as_slice());
            let ht = trimmed(h.as_slice());
            match (parse_u32(wt.as_slice()), parse_u32(ht.as_slice())) {
                (Some(a), Some(b)) => if a > 0 && b > 0 {
                    Some((a, b))
                } else {
                    None
                },
                _ => None,
            }
        },
    }
}

/// One argument when `b` holds, none otherwise.
pub open spec fn piece(b: bool, p: Seq<char>) -> Seq<Seq<char>> {
    if b {
        seq![p]
    } else {
        seq![]
    }
}

pub open spec fn res_piece(r: Option<(u32, u32)>, wf: Seq<char>, hf: Seq<char>) -> Seq<Seq<char>> {
    match r {
        Some((w, h)) => seq![wf + decimal(w as nat) + hf + decimal(h as nat)],
        None => seq![],
    }
}

pub open spec fn mode_pieces(mode: Seq<char>) -> Seq<Seq<char>> {
    if mode == "borderless"@ {
        seq!["-b"@]
    } else if mode == "windowed"@ {
        seq![]
    } else {
        seq!["-f"@]
    }
}

pub open spec fn upscaler_pieces(up: Seq<char>) -> Seq<Seq<char>> {
    if up == "fsr"@ {
        seq!["-F fsr"@]
    } else if up == "nis"@ {
        seq!["-F nis"@]
    } else if up == "integer"@ {
        seq!["-S integer"@]
    } else if up == "stretch"@ {
        seq!["-S stretch"@]
    } else {
        seq![]
    }
}

/// The gamescope arguments the settings ask for, in the order gamescope
/// gets them. Unparsable resolutions and unknown modes are left out, so
/// gamescope falls back to its own defaults.
pub open spec fn gamescope_pieces(st: AppSettings) -> Seq<Seq<char>> {
    mode_pieces(st.gamescope_mode@)
        + res_piece(resolution(st.gamescope_render_res@), "-w "@, " -h "@)
        + res_piece(resolution(st.gamescope_output_res@), "-W "@, " -H "@)
        + piece(st.gamescope_fps_limit > 0, "-r "@ + decimal(st.gamescope_fps_limit as nat))
        + upscaler_pieces(st.gamescope_upscaler@)
        + piece(st.gamescope_hdr, "--hdr-enabled"@)
        + piece(st.use_mangohud, "--mangoapp"@)
        + piece(trim(st.gamescope_extra_args@).len() > 0, trim(st.gamescope_extra_args@))
}

pub open spec fn gamescope_text(st: AppSettings) -> Seq<char> {
    join_seq(gamescope_pieces(st), " "@)
}

fn push_piece(args: &mut Vec<Vec<char>>, b: bool, p: Vec<char>)
    ensures
        views(final(args)@) == views(old(args)@) + piece(b, p@),
{
    let ghost a0 = args@;
    if b {
        args.push(p);
        proof {
            crate::text::lemma_views_push(a0, p);
        }
        assert(views(args@) =~= views(a0) + piece(b, p@));
    } else {
        assert(views(args@) =~= views(a0) + piece(b, p@));
    }
}

fn str_chars(s: &str) -> (v: Vec<char>)
    ensures
        v@ == s@,
{
    chars_of(s)
}

fn res_arg(r: Option<(u32, u32)>, wf: &str, hf: &str) -> (out: (bool, Vec<char>))
    ensures
        piece(out.0, out.1@) == res_piece(r, wf@, hf@),
{
    match r {
        Some((w, h)) => {
            let mut v = chars_of(wf);
            let wd = decimal_chars(w as u64);
            push_all(&mut v, wd.as_slice());
            push_str(&mut v, hf);
            let hd = decimal_chars(h as u64);
            push_all(&mut v, hd.as_slice());
            (true, v)
        },
        None => (false, Vec::new()),
    }
}

/// The gamescope command-line arguments, space-separated.
pub fn build_gamescope_args(settings: &AppSettings) -> (r: String)
    ensures
        r@ == gamescope_text(*settings),
{
    let mut args: Vec<Vec<char>> = Vec::new();
    let mode = settings.gamescope_mode.as_str();
    if same_text(mode, "borderless") {
        push_piece(&mut args, true, str_chars("-b"));
    } else if same_text(mode, "windowed") {
        push_piece(&mut args, false, Vec::new());
    } else {
        push_piece(&mut args, true, str_chars("-f"));
    }
    assert(views(args@) =~= mode_pieces(settings.gamescope_mode@));
    let (b, p) = res_arg(parse_res(settings.gamescope_render_res.as_str()), "-w ", " -h ");
    push_piece(&mut args, b, p);
    let (b, p) = res_arg(parse_res(settings.gamescope_output_res.as_str()), "-W ", " -H ");
    push_piece(&mut args, b, p);
    let mut fps = str_chars("-r ");
    let fd = decimal_chars(settings.gamescope_fps_limit as u64);
    push_all(&mut fps, fd.as_slice());
    push_piece(&mut args, settings.gamescope_fps_limit > 0, fps);
    let ghost before_up = views(args@);
    let up = settings.gamescope_upscaler.as_str();
    if same_text(up, "fsr") {
        push_piece(&mut args, true, str_chars("-F fsr"));
    } else if same_text(up, "nis") {
        push_piece(&mut args, true, str_chars("-F nis"));
    } else if same_text(up, "integer") {
        push_piece(&mut args, true, str_chars("-S integer"));
    } else if same_text(up, "stretch") {
        push_piece(&mut args, true, str_chars("-S stretch"));
    } else {
        push_piece(&mut args, false, Vec::new());
    }
    assert(views(args@) =~= before_up + upscaler_pieces(settings.gamescope_upscaler@));
    push_piece(&mut args, settings.gamescope_hdr, str_chars("--hdr-enabled"));
    push_piece(&mut args, settings.use_mangohud, str_chars("--mangoapp"));
    let ev = chars_of(settings.gamescope_extra_args.as_str());
    let extra = trimmed(ev.as_slice());
    let has_extra = extra.len() > 0;
    push_piece(&mut args, has_extra, extra);
    assert(views(args@) =~= gamescope_pieces(*settings));
    let sp = str_chars(" ");
    let joined = join_chars(args.as_slice(), sp.as_slice());
    string_of(joined.as_slice())
}

/// No argument of `s` is two characters long.
spec fn none_of_two(s: Seq<Seq<char>>) -> bool {
    forall|i: int| 0 <= i < s.len() ==> (#[trigger] s[i]).len() != 2
}

proof fn lemma_none_of_two_add(a: Seq<Seq<char>>, b: Seq<Seq<char>>)
    requires
        none_of_two(a),
        none_of_two(b),
    ensures
        none_of_two(a + b),
{
    assert forall|i: int| 0 <= i < (a + b).len() implies (#[trigger] (a + b)[i]).len() != 2 by {
        if i < a.len() {
            assert((a + b)[i] == a[i]);
        } else {
            assert((a + b)[i] == b[i - a.len()]);
        }
    }
}

/// The window mode leads the gamescope arguments: `-b` for a borderless
/// window, `-f` for fullscreen (any mode but borderless or windowed), and
/// no mode flag for a window, where the only arguments that read `-b` or
/// `-f` are the user's own extra arguments.
pub proof fn lemma_gamescope_window_flag(st: AppSettings)
    ensures
        st.gamescope_mode@ == "borderless"@ ==> gamescope_pieces(st).len() > 0 && gamescope_pieces(st)[0] == "-b"@
            && gamescope_text(st).take(2) == "-b"@,
        st.gamescope_mode@ != "borderless"@ && st.gamescope_mode@ != "windowed"@ ==> gamescope_pieces(st).len() > 0
            && gamescope_pieces(st)[0] == "-f"@ && gamescope_text(st).take(2) == "-f"@,
        st.gamescope_mode@ == "windowed"@ ==> forall|i: int|
            0 <= i < gamescope_pieces(st).len() && (#[trigger] gamescope_pieces(st)[i] == "-b"@ || gamescope_pieces(st)[i]
                == "-f"@) ==> gamescope_pieces(st)[i] == trim(st.gamescope_extra_args@),
{
    reveal_strlit("-b");
    reveal_strlit("-f");
    let p = gamescope_pieces(st);
    if st.gamescope_mode@ != "windowed"@ {
        assert(p[0] == mode_pieces(st.gamescope_mode@)[0]);
        crate::text::lemma_join_starts_with_first(p, " "@);
    } else {
        reveal_strlit("windowed");
        reveal_strlit("borderless");
        assert("windowed"@ != "borderless"@) by {
            assert("windowed"@[0] != "borderless"@[0]);
        }
        reveal_strlit("-w ");
        reveal_strlit(" -h ");
        reveal_strlit("-W ");
        reveal_strlit(" -H ");
        reveal_strlit("-r ");
        reveal_strlit("-F fsr");
        reveal_strlit("-F nis");
        reveal_strlit("-S integer");
        reveal_strlit("-S stretch");
        reveal_strlit("--hdr-enabled");
        reveal_strlit("--mangoapp");
        let r1 = res_piece(resolution(st.gamescope_render_res@), "-w "@, " -h "@);
        let r2 = res_piece(resolution(st.gamescope_output_res@), "-W "@, " -H "@);
        let f = piece(st.gamescope_fps_limit > 0, "-r "@ + decimal(st.gamescope_fps_limit as nat));
        let u = upscaler_pieces(st.gamescope_upscaler@);
        let h = piece(st.gamescope_hdr, "--hdr-enabled"@);
        let m = piece(st.use_mangohud, "--mangoapp"@);
        let x = piece(trim(st.gamescope_extra_args@).len() > 0, trim(st.gamescope_extra_args@));
        let empty = Seq::<Seq<char>>::empty();
        assert(none_of_two(empty));
        assert(none_of_two(r1));
        assert(none_of_two(r2));
        assert(none_of_two(f));
        assert(none_of_two(u));
        assert(none_of_two(h));
        assert(none_of_two(m));
        lemma_none_of_two_add(empty, r1);
        lemma_none_of_two_add(empty + r1, r2);
        lemma_none_of_two_add(empty + r1 + r2, f);
        lemma_none_of_two_add(empty + r1 + r2 + f, u);
        lemma_none_of_two_add(empty + r1 + r2 + f + u, h);
        lemma_none_of_two_add(empty + r1 + r2 + f + u + h, m);
        let body = empty + r1 + r2 + f + u + h + m;
        assert(mode_pieces(st.gamescope_mode@) == empty);
        assert(p == body + x);
        assert forall|i: int|
            0 <= i < p.len() && (#[trigger] p[i] == "-b"@ || p[i] == "-f"@) implies p[i] == trim(st.gamescope_extra_args@) by {
            if i < body.len() {
                assert(p[i] == body[i]);
                assert(body[i].len() != 2);
            } else {
                assert(p[i] == x[i - body.len()]);
            }
        }
    }
}

/// The renderer switch: native Vulkan unless the launch is modded (3DMigoto
/// hooks Direct3D 11 only) or the settings ask for DirectX 11.
pub open spec fn renderer(st: AppSettings, with_mods: bool) -> Seq<char> {
    if st.use_native_vulkan && !with_mods {
        "-vulkan"@
    } else {
        "-force-d3d11"@
    }
}

pub fn renderer_args(settings: &AppSettings, with_mods: bool) -> (r: &'static str)
    ensures
        r@ == renderer(*settings, with_mods),
{
    if settings.use_native_vulkan && !with_mods {
        "-vulkan"
    } else {
        "-force-d3d11"
    }
}

/// The wrappers in front of Proton: the gamemode command (the user's own,
/// unquoted, or `gamemoderun`), then gamescope with its arguments, or
/// MangoHud when gamescope is off.
pub open spec fn wrappers(st: AppSettings) -> Seq<char> {
    opt_text(
        st.use_gamemode,
        (if trim(st.gamemode_command@).len() == 0 {
            "gamemoderun"@
        } else {
            trim(st.gamemode_command@)
        }) + " "@,
    ) + if st.use_gamescope {
        if gamescope_text(st).len() == 0 {
            "gamescope -- "@
        } else {
            "gamescope "@ + gamescope_text(st) + " -- "@
        }
    } else if st.use_mangohud {
        "mangohud "@
    } else {
        Seq::empty()
    }
}

/// The whole command line that starts the game.
pub open spec fn launch_cmd(st: AppSettings, proton: Seq<char>, wine: Seq<char>, with_mods: bool) -> Seq<char> {
    wrappers(st) + proton + " run "@ + wine + " "@ + renderer(st, with_mods) + opt_text(
        st.custom_launch_args@.len() > 0,
        " "@ + st.custom_launch_args@,
    )
}

/// The launch command line with its wrappers, the Proton call, the renderer
/// switch and the user's own arguments.
pub fn build_launch_cmd(settings: &AppSettings, proton_escaped: &str, wine_escaped: &str, with_mods: bool) -> (r: String)
    ensures
        r@ == launch_cmd(*settings, proton_escaped@, wine_escaped@, with_mods),
{
    let mut cmd: Vec<char> = Vec::new();
    if settings.use_gamemode {
        let gv = chars_of(settings.gamemode_command.as_str());
        let gm = trimmed(gv.as_slice());
        if gm.len() == 0 {
            push_str(&mut cmd, "gamemoderun");
        } else {
            push_all(&mut cmd, gm.as_slice());
        }
        push_str(&mut cmd, " ");
    }
    assert(cmd@ =~= opt_text(
        settings.use_gamemode,
        (if trim(settings.gamemode_command@).len() == 0 {
            "gamemoderun"@
        } else {
            trim(settings.gamemode_command@)
        }) + " "@,
    ));
    let ghost after_gm = cmd@;
    if settings.use_gamescope {
        let gs = build_gamescope_args(settings);
        if gs.as_str().unicode_len() == 0 {
            push_str(&mut cmd, "gamescope -- ");
        } else {
            push_str(&mut cmd, "gamescope ");
            push_str(&mut cmd, gs.as_str());
            push_str(&mut cmd, " -- ");
        }
    } else if settings.use_mangohud {
        push_str(&mut cmd, "mangohud ");
    }
    assert(cmd@ =~= wrappers(*settings));
    push_str(&mut cmd, proton_escaped);
    push_str(&mut cmd, " run ");
    push_str(&mut cmd, wine_escaped);
    push_str(&mut cmd, " ");
    let ghost before_r = cmd@;
    push_str(&mut cmd, renderer_args(settings, with_mods));
    let ghost before_c = cmd@;
    let custom = chars_of(settings.custom_launch_args.as_str());
    if custom.len() > 0 {
        push_str(&mut cmd, " ");
        push_all(&mut cmd, custom.as_slice());
    }
    assert(cmd@ =~= launch_cmd(*settings, proton_escaped@, wine_escaped@, with_mods));
    string_of(cmd.as_slice())
}

} // verus!

verus! {

/// The Proton prefix (`STEAM_COMPAT_DATA_PATH`) for the game: the legacy
/// `<game>/_proton` while it holds a `pfx`, else `endfield` under the
/// configured prefix directory, else under the default one.
pub fn resolve_prefix_dir(settings: &AppSettings, game_path: &str, legacy_prefix_exists: bool) -> (r: String)
    ensures
        legacy_prefix_exists ==> r@ == join_path(game_path@, "_proton"@),
        !legacy_prefix_exists && trim(settings.proton_prefix_dir@).len() > 0 ==> r@ == join_path(
            trim(settings.proton_prefix_dir@),
            "endfield"@,
        ),
        !legacy_prefix_exists && trim(settings.proton_prefix_dir@).len() == 0 ==> exists|
            d: Option<Seq<char>>,
            h: Option<Seq<char>>,
        | r@ == join_path(join_path(data_base_of(d, h), "prefix"@), "endfield"@),
{
    if legacy_prefix_exists {
        return join(game_path, "_proton");
    }
    let pv = chars_of(settings.proton_prefix_dir.as_str());
    let configured = trimmed(pv.as_slice());
    if configured.len() > 0 {
        let base = string_of(configured.as_slice());
        return join(base.as_str(), "endfield");
    }
    let base = crate::paths::default_proton_prefix_dir();
    join(base.as_str(), "endfield")
}

/// The executable's path as Wine sees it, on the `Z:` drive.
pub open spec fn wine_exe_path(exe: Seq<char>) -> Seq<char> {
    "Z:"@ + replace(exe, '/', "\\"@)
}

/// The script that starts the game: the environment (with `proton_dir` as
/// the Proton actually found), a `cd` into the game directory, and the
/// launch command with its output sent to the launch log.
pub open spec fn launch_script_text(
    st: AppSettings,
    proton_dir: Seq<char>,
    compat: Seq<char>,
    log: Seq<char>,
    with_mods: bool,
    ntsync: bool,
    optiscaler: bool,
) -> Seq<char> {
    let exe = join_path(st.game_dir@, "Endfield.exe"@);
    let proton = join_path(proton_dir, "proton"@);
    env_script(st, proton_dir, compat, with_mods, ntsync, optiscaler) + "cd "@ + shell_quoted(
        st.game_dir@,
    ) + "\n"@ + "exec "@ + launch_cmd(st, shell_quoted(proton), shell_quoted(wine_exe_path(exe)), with_mods)
        + " > "@ + shell_quoted(log) + " 2>&1\n"@
}

/// The `bash -c` script of a game launch.
pub fn launch_script(
    settings: &AppSettings,
    proton_dir: &str,
    compat_data: &str,
    log_path: &str,
    with_mods: bool,
    ntsync: bool,
    optiscaler: bool,
) -> (r: String)
    ensures
        r@ == launch_script_text(*settings, proton_dir@, compat_data@, log_path@, with_mods, ntsync, optiscaler),
{
    let mut s = env_script_with(settings, proton_dir, compat_data, with_mods, ntsync, optiscaler);
    push_str(&mut s, "cd ");
    let g = shell_escape(settings.game_dir.as_str());
    push_str(&mut s, g.as_str());
    push_str(&mut s, "\n");
    let exe = join(settings.game_dir.as_str(), "Endfield.exe");
    let ev = chars_of(exe.as_str());
    let bs = chars_of("\\");
    let swapped = replace_chars(ev.as_slice(), '/', bs.as_slice());
    let mut wine_path = chars_of("Z:");
    push_all(&mut wine_path, swapped.as_slice());
    let wine_path = string_of(wine_path.as_slice());
    let proton = join(proton_dir, "proton");
    let pe = shell_escape(proton.as_str());
    let we = shell_escape(wine_path.as_str());
    let cmd = build_launch_cmd(settings, pe.as_str(), we.as_str(), with_mods);
    push_str(&mut s, "exec ");
    push_str(&mut s, cmd.as_str());
    push_str(&mut s, " > ");
    let l = shell_escape(log_path);
    push_str(&mut s, l.as_str());
    push_str(&mut s, " 2>&1\n");
    string_of(s.as_slice())
}

/// The script that runs a Wine tool (winecfg, regedit, ...) in the game's
/// prefix, with the game's own environment and its output discarded.
pub open spec fn tool_script_text(
    st: AppSettings,
    proton_dir: Seq<char>,
    compat: Seq<char>,
    tool: Seq<char>,
    ntsync: bool,
    optiscaler: bool,
) -> Seq<char> {
    env_script(st, proton_dir, compat, false, ntsync, optiscaler) + "exec "@ + shell_quoted(
        join_path(proton_dir, "proton"@),
    ) + " run "@ + shell_quoted(tool) + " > /dev/null 2>&1\n"@
}

/// The `bash -c` script of a prefix tool.
pub fn tool_script(
    settings: &AppSettings,
    proton_dir: &str,
    compat_data: &str,
    tool: &str,
    ntsync: bool,
    optiscaler: bool,
) -> (r: String)
    ensures
        r@ == tool_script_text(*settings, proton_dir@, compat_data@, tool@, ntsync, optiscaler),
{
    let mut s = env_script_with(settings, proton_dir, compat_data, false, ntsync, optiscaler);
    push_str(&mut s, "exec ");
    let proton = join(proton_dir, "proton");
    let pe = shell_escape(proton.as_str());
    push_str(&mut s, pe.as_str());
    push_str(&mut s, " run ");
    let te = shell_escape(tool);
    push_str(&mut s, te.as_str());
    push_str(&mut s, " > /dev/null 2>&1\n");
    string_of(s.as_slice())
}

/// The flag that makes `wineserver` shut the prefix down: `-k9` sends its
/// clients SIGKILL instead of SIGINT.
pub fn wineserver_kill_flag(force: bool) -> (r: &'static str)
    ensures
        r@ == (if force { "-k9"@ } else { "-k"@ }),
{
    if force {
        "-k9"
    } else {
        "-k"
    }
}

} // verus!

verus! {

/// The section whose presence in the prefix's `user.reg` shows that the
/// per-executable DLL overrides are already there.
pub const APPDEFAULTS_MARKER: &'static str = "[Software\\\\Wine\\\\AppDefaults\\\\PlatformProcess.exe\\\\DllOverrides]";

/// The overrides appended to `user.reg` before a modded launch, in three
/// pieces around the marker section: the game takes the 3DMigoto
/// `d3d11`/`dxgi` proxies, its helper processes keep Wine's builtin ones.
pub const APPDEFAULTS_HEAD: &'static str = "\n\
[Software\\\\Wine\\\\AppDefaults\\\\Endfield.exe\\\\DllOverrides]\n\
\"d3d11\"=\"native,builtin\"\n\
\"dxgi\"=\"native,builtin\"\n\
\n";

pub const APPDEFAULTS_TAIL: &'static str = "\n\
\"d3d11\"=\"builtin\"\n\
\"dxgi\"=\"builtin\"\n\
\n\
[Software\\\\Wine\\\\AppDefaults\\\\QtWebEngineProcess.exe\\\\DllOverrides]\n\
\"d3d11\"=\"builtin\"\n\
\"dxgi\"=\"builtin\"\n";

/// The whole text of the overrides.
pub open spec fn appdefaults_entries() -> Seq<char> {
    APPDEFAULTS_HEAD@ + APPDEFAULTS_MARKER@ + APPDEFAULTS_TAIL@
}

/// What to append to a prefix's `user.reg` (its text is `user_reg`) so
/// that only the game loads the mod loader's DLLs: the overrides, unless
/// the file has them already.
pub fn appdefaults_to_append(user_reg: &str) -> (r: Option<String>)
    ensures
        r is None <==> has_sub(user_reg@, APPDEFAULTS_MARKER@),
        r matches Some(e) ==> e@ == appdefaults_entries(),
{
    let text = chars_of(user_reg);
    let marker = chars_of(APPDEFAULTS_MARKER);
    if contains_sub(text.as_slice(), marker.as_slice()) {
        None
    } else {
        let mut e: Vec<char> = Vec::new();
        push_str(&mut e, APPDEFAULTS_HEAD);
        push_str(&mut e, APPDEFAULTS_MARKER);
        push_str(&mut e, APPDEFAULTS_TAIL);
        Some(string_of(e.as_slice()))
    }
}

/// Adding the overrides is done once: a `user.reg` they were appended to
/// holds the marker, so the next check appends nothing.
pub proof fn lemma_appdefaults_once(user_reg: Seq<char>)
    ensures
        has_sub(user_reg + appdefaults_entries(), APPDEFAULTS_MARKER@),
{
    let m = APPDEFAULTS_MARKER@;
    let s = user_reg + appdefaults_entries();
    let i: int = (user_reg.len() + APPDEFAULTS_HEAD@.len()) as int;
    assert(s.subrange(i, i + m.len()) =~= m);
    assert(occurs_at(s, m, i));
}

} // verus!
