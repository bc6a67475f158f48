//! Windows: the game runs natively. The launcher picks its command line and
//! priority class; there is no Wine prefix here.

use vstd::prelude::*;

use crate::error::AppError;
use crate::paths::{data_base_of, join, join_path};
use crate::settings::AppSettings;
use crate::text::{chars_of, decimal, push_all, push_str, string_of, trim, trimmed};

verus! {

/// `ABOVE_NORMAL_PRIORITY_CLASS` from the Win32 API.
pub const ABOVE_NORMAL_PRIORITY_CLASS: u32 = 0x0000_8000;

/// The game's command line: `-vulkan` when the renderer toggle asks for it
/// and the launch is not modded, then the user's own arguments, trimmed.
pub open spec fn launch_args(st: AppSettings, with_mods: bool) -> Seq<char> {
    let vk = st.windows_use_vulkan && !with_mods;
    let extra = trim(st.custom_launch_args@);
    if vk && extra.len() > 0 {
        "-vulkan"@ + " "@ + extra
    } else if vk {
        "-vulkan"@
    } else {
        extra
    }
}

pub fn build_launch_args(settings: &AppSettings, with_mods: bool) -> (r: String)
    ensures
        r@ == launch_args(*settings, with_mods),
{
    let mut args: Vec<char> = Vec::new();
    let vk = settings.windows_use_vulkan && !with_mods;
    if vk {
        push_str(&mut args, "-vulkan");
    }
    let ev = chars_of(settings.custom_launch_args.as_str());
    let extra = trimmed(ev.as_slice());
    if extra.len() > 0 {
        if vk {
            push_str(&mut args, " ");
        }
        push_all(&mut args, extra.as_slice());
    }
    assert(args@ =~= launch_args(*settings, with_mods));
    string_of(args.as_slice())
}

/// The priority class the game is created in: above normal when asked for,
/// never high, otherwise none.
pub fn priority_flags(settings: &AppSettings) -> (r: u32)
    ensures
        r == (if settings.windows_high_priority { ABOVE_NORMAL_PRIORITY_CLASS } else { 0 }),
{
    if settings.windows_high_priority {
        ABOVE_NORMAL_PRIORITY_CLASS
    } else {
        0
    }
}

/// There is no Wine prefix on Windows; the prefix commands report this
/// directory, and nothing is ever created there.
pub fn resolve_prefix_dir(settings: &AppSettings, game_path: &str) -> (r: String)
    ensures
        exists|d: Option<Seq<char>>, h: Option<Seq<char>>| r@ == join_path(data_base_of(d, h), "prefix"@),
{
    let base = crate::paths::data_base();
    join(base.as_str(), "prefix")
}

/// The `taskkill` arguments that stop the game with everything it started:
/// a polite request, or with `force` the whole tree killed outright.
pub fn taskkill_args(pid: u32, force: bool) -> (r: Vec<String>)
    ensures
        r@.len() == (if force { 4int } else { 3 }),
        r@[0]@ == "/PID"@ && r@[1]@ == decimal(pid as nat) && r@[2]@ == "/T"@,
        force ==> r@[3]@ == "/F"@,
{
    let mut r: Vec<String> = Vec::new();
    r.push(crate::text::to_owned_string("/PID"));
    let d = crate::text::decimal_chars(pid as u64);
    r.push(string_of(d.as_slice()));
    r.push(crate::text::to_owned_string("/T"));
    if force {
        r.push(crate::text::to_owned_string("/F"));
    }
    r
}

/// No wineserver to reap on Windows.
pub fn shutdown_wineserver(settings: &AppSettings, force: bool) {
}

/// Wine tools do not exist on Windows.
pub fn run_prefix_tool(settings: &AppSettings, tool: &str) -> (r: Result<(), AppError>)
    ensures
        match r {
            Err(AppError::Unsupported(m)) => m@ == "Wine tool "@ + tool@,
            _ => false,
        },
{
    let mut m: Vec<char> = Vec::new();
    push_str(&mut m, "Wine tool ");
    push_str(&mut m, tool);
    Err(AppError::Unsupported(string_of(m.as_slice())))
}

} // verus!
