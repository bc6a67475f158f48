//! The user's settings, as stored in `settings.json`.

use vstd::prelude::*;

use crate::paths;
use crate::paths::{data_base_of, game_dir_of, join_path};
use crate::text::to_owned_string as lit;

verus! {


/// Every setting of the launcher. Fields the frontend does not send fall back
/// to the values `AppSettings::default` gives them.
#[derive(Debug, Clone)]
pub struct AppSettings {
    pub game_dir: String,
    pub download_dir: String,
    pub proton_dir: String,
    pub proton_prefix_dir: String,
    pub language: String,
    pub installed_version: String,
    pub use_gamemode: bool,
    /// The command that wraps the game when gamemode is on, arguments and
    /// all; empty for plain `gamemoderun`.
    pub gamemode_command: String,
    pub use_mangohud: bool,
    pub use_native_vulkan: bool,
    pub use_wayland: bool,
    pub use_dxvk_async: bool,
    pub on_launch_action: String,
    pub disable_fsync: bool,
    pub disable_esync: bool,
    pub download_speed_limit: u64,
    pub download_max_concurrent: u32,
    /// Keep the machine awake while a transfer runs.
    pub inhibit_sleep_on_download: bool,
    pub use_canonical_hole: bool,
    /// Route controllers through Proton's SDL input backend instead of its hidraw one.
    pub use_sdl_input: bool,
    pub custom_env_vars: String,
    pub custom_launch_args: String,
    pub autostart_initialized: bool,
    pub use_prime_offload: bool,
    pub use_discord_rpc: bool,
    pub use_gamescope: bool,
    /// gamescope window mode: `fullscreen`, `borderless` or `windowed`.
    pub gamescope_mode: String,
    /// Game render resolution as `WIDTHxHEIGHT`, empty for native.
    pub gamescope_render_res: String,
    /// gamescope output resolution as `WIDTHxHEIGHT`, empty for automatic.
    pub gamescope_output_res: String,
    /// Nested refresh rate / FPS cap for gamescope, 0 for none.
    pub gamescope_fps_limit: u32,
    /// Upscaler: `auto`, `fsr`, `nis`, `integer` or `stretch`.
    pub gamescope_upscaler: String,
    pub gamescope_hdr: bool,
    /// Extra raw arguments appended to the gamescope invocation.
    pub gamescope_extra_args: String,
    /// macOS: the Wine build that runs the game; empty for the launcher's most recent own install.
    pub macos_wine_dir: String,
    /// macOS: ask Rosetta to advertise AVX to translated code.
    pub macos_advertise_avx: bool,
    /// macOS: Metal's performance overlay.
    pub macos_metal_hud: bool,
    /// macOS: pass `-vulkan` instead of `-force-d3d11`.
    pub macos_native_vulkan: bool,
    /// Windows: start the game elevated right away.
    pub windows_run_as_admin: bool,
    /// Windows: pass `-vulkan` so the game drives its own Vulkan renderer.
    pub windows_use_vulkan: bool,
    /// Windows: register the game as "High performance" on the Graphics settings page.
    pub windows_prefer_dgpu: bool,
    /// Windows: "Optimizations for windowed games" on the game's graphics entry.
    pub windows_windowed_optimizations: bool,
    /// Windows: the High performance power plan for the length of a session.
    pub windows_high_perf_power: bool,
    /// Windows: start the game in the above-normal priority class.
    pub windows_high_priority: bool,
    /// Run the game through the vkBasalt post-processing layer.
    pub use_vkbasalt: bool,
    /// Linux: PROTON_DLSS_UPGRADE.
    pub dlss_upgrade: bool,
    /// Linux: PROTON_DLSS_INDICATOR.
    pub dlss_indicator: bool,
    /// Linux: DXVK_NVAPI_VKREFLEX.
    pub use_vk_reflex: bool,
    /// Show the "play with mods" action.
    pub mods_enabled: bool,
    /// Accumulated in-game time in seconds.
    pub total_playtime_secs: u64,
    /// Unix timestamp (seconds) of the last game launch, 0 for never.
    pub last_played: u64,
}

/// The settings a first run starts with, apart from the four directories,
/// which depend on the machine.
pub open spec fn is_default_apart_from_dirs(s: AppSettings) -> bool {
    &&& s.language@ == "en-us"@
    &&& s.installed_version@ == Seq::<char>::empty()
    &&& s.use_gamemode == false
    &&& s.gamemode_command@ == Seq::<char>::empty()
    &&& s.use_mangohud == false
    &&& s.use_native_vulkan == true
    &&& s.use_wayland == true
    &&& s.use_dxvk_async == false
    &&& s.on_launch_action@ == "hide"@
    &&& s.disable_fsync == false
    &&& s.disable_esync == false
    &&& s.download_speed_limit == 0
    &&& s.download_max_concurrent == 4
    &&& s.inhibit_sleep_on_download == true
    &&& s.use_canonical_hole == false
    &&& s.use_sdl_input == true
    &&& s.custom_env_vars@ == Seq::<char>::empty()
    &&& s.custom_launch_args@ == Seq::<char>::empty()
    &&& s.autostart_initialized == false
    &&& s.use_prime_offload == false
    &&& s.use_discord_rpc == false
    &&& s.use_gamescope == false
    &&& s.gamescope_mode@ == "fullscreen"@
    &&& s.gamescope_render_res@ == Seq::<char>::empty()
    &&& s.gamescope_output_res@ == Seq::<char>::empty()
    &&& s.gamescope_fps_limit == 0
    &&& s.gamescope_upscaler@ == "auto"@
    &&& s.gamescope_hdr == false
    &&& s.gamescope_extra_args@ == Seq::<char>::empty()
    &&& s.macos_wine_dir@ == Seq::<char>::empty()
    &&& s.macos_advertise_avx == true
    &&& s.macos_metal_hud == false
    &&& s.macos_native_vulkan == false
    &&& s.windows_run_as_admin == false
    &&& s.windows_use_vulkan == false
    &&& s.windows_prefer_dgpu == false
    &&& s.windows_windowed_optimizations == false
    &&& s.windows_high_perf_power == false
    &&& s.windows_high_priority == false
    &&& s.use_vkbasalt == false
    &&& s.dlss_upgrade == false
    &&& s.dlss_indicator == false
    &&& s.use_vk_reflex == false
    &&& s.mods_enabled == false
    &&& s.total_playtime_secs == 0
    &&& s.last_played == 0
}

impl Default for AppSettings {
    fn default() -> (s: Self)
        ensures
            is_default_apart_from_dirs(s),
            exists|h: Option<Seq<char>>| s.game_dir@ == game_dir_of(h),
            exists|h: Option<Seq<char>>| s.download_dir@ == join_path(game_dir_of(h), "_download"@),
            exists|d: Option<Seq<char>>, h: Option<Seq<char>>| s.proton_dir@ == join_path(data_base_of(d, h), "proton"@),
            exists|d: Option<Seq<char>>, h: Option<Seq<char>>| s.proton_prefix_dir@ == join_path(data_base_of(d, h), "prefix"@),
    {
        AppSettings {
            game_dir: paths::default_game_dir(),
            download_dir: paths::default_download_dir(),
            proton_dir: paths::default_proton_dir(),
            proton_prefix_dir: paths::default_proton_prefix_dir(),
            language: lit("en-us"),
            installed_version: String::new(),
            use_gamemode: false,
            gamemode_command: String::new(),
            use_mangohud: false,
            use_native_vulkan: true,
            use_wayland: true,
            use_dxvk_async: false,
            on_launch_action: lit("hide"),
            disable_fsync: false,
            disable_esync: false,
            download_speed_limit: 0,
            download_max_concurrent: 4,
            inhibit_sleep_on_download: true,
            use_canonical_hole: false,
            use_sdl_input: true,
            custom_env_vars: String::new(),
            custom_launch_args: String::new(),
            autostart_initialized: false,
            use_prime_offload: false,
            use_discord_rpc: false,
            use_gamescope: false,
            gamescope_mode: lit("fullscreen"),
            gamescope_render_res: String::new(),
            gamescope_output_res: String::new(),
            gamescope_fps_limit: 0,
            gamescope_upscaler: lit("auto"),
            gamescope_hdr: false,
            gamescope_extra_args: String::new(),
            macos_wine_dir: String::new(),
            macos_advertise_avx: true,
            macos_metal_hud: false,
            macos_native_vulkan: false,
            windows_run_as_admin: false,
            windows_use_vulkan: false,
            windows_prefer_dgpu: false,
            windows_windowed_optimizations: false,
            windows_high_perf_power: false,
            windows_high_priority: false,
            use_vkbasalt: false,
            dlss_upgrade: false,
            dlss_indicator: false,
            use_vk_reflex: false,
            mods_enabled: false,
            total_playtime_secs: 0,
            last_played: 0,
        }
    }
}

} // verus!

verus! {

/// The settings a save from the settings dialog stores. The dialog edits a
/// snapshot; what the backend owns (the installed version, play statistics,
/// autostart bookkeeping) may have moved on since, so those keep their
/// current values. While a transfer runs, the folders cannot change.
pub fn settings_to_save(current: &AppSettings, incoming: AppSettings, transfer_busy: bool) -> (r: Result<
    AppSettings,
    crate::error::AppError,
>)
    ensures
        ({
            let folders_changed = incoming.game_dir@ != current.game_dir@ || incoming.download_dir@
                != current.download_dir@ || incoming.proton_dir@ != current.proton_dir@ || incoming.proton_prefix_dir@
                != current.proton_prefix_dir@;
            &&& (transfer_busy && folders_changed) ==> (r matches Err(crate::error::AppError::Api(m))
                && m@ == "Wait for the current transfer before changing folders"@)
            &&& !(transfer_busy && folders_changed) ==> (r matches Ok(s) && s.installed_version@
                == current.installed_version@ && s.total_playtime_secs == current.total_playtime_secs
                && s.last_played == current.last_played && s.autostart_initialized
                == current.autostart_initialized && s == (AppSettings {
                installed_version: s.installed_version,
                total_playtime_secs: current.total_playtime_secs,
                last_played: current.last_played,
                autostart_initialized: current.autostart_initialized,
                ..incoming
            }))
        }),
{
    let same = crate::text::same_text(incoming.game_dir.as_str(), current.game_dir.as_str())
        && crate::text::same_text(incoming.download_dir.as_str(), current.download_dir.as_str())
        && crate::text::same_text(incoming.proton_dir.as_str(), current.proton_dir.as_str())
        && crate::text::same_text(incoming.proton_prefix_dir.as_str(), current.proton_prefix_dir.as_str());
    if transfer_busy && !same {
        return Err(
            crate::error::AppError::Api(
                crate::text::to_owned_string("Wait for the current transfer before changing folders"),
            ),
        );
    }
    let mut s = incoming;
    s.installed_version = crate::text::to_owned_string(current.installed_version.as_str());
    s.total_playtime_secs = current.total_playtime_secs;
    s.last_played = current.last_played;
    s.autostart_initialized = current.autostart_initialized;
    Ok(s)
}

/// The launcher content as served to the UI: the video backdrop dropped on
/// hosts that cannot play it, so the static image is shown instead.
pub fn strip_unplayable_video(content: &mut crate::api_types::LauncherContent, can_play_video: bool)
    ensures
        can_play_video ==> *final(content) == *old(content),
        !can_play_video ==> final(content).background.video_url@.len() == 0 && final(content).background.url
            == old(content).background.url && final(content).banners == old(content).banners
            && final(content).news_tabs == old(content).news_tabs && final(content).sidebars == old(content).sidebars
            && final(content).single_ent == old(content).single_ent,
{
    if !can_play_video && content.background.video_url.as_str().unicode_len() > 0 {
        content.background.video_url = String::new();
    }
}

} // verus!
