//! The data the launcher exchanges with the game's launcher API and with its
//! own frontend. Each type is plain data; the app side gives it its wire
//! format.

use vstd::prelude::*;

verus! {

/// A batch of content requests sent to the proxy endpoint.
#[derive(Debug)]
pub struct BatchProxyRequest {
    pub seq: Option<String>,
    pub proxy_reqs: Vec<ProxyReq>,
}

#[derive(Debug)]
pub struct ProxyReq {
    pub kind: String,
    pub get_latest_game_req: Option<GetLatestGameReq>,
    pub get_sidebar_req: Option<ContentReq>,
    pub get_single_ent_req: Option<ContentReq>,
    pub get_main_bg_image_req: Option<ContentReq>,
    pub get_banner_req: Option<ContentReq>,
    pub get_announcement_req: Option<ContentReq>,
}

#[derive(Debug)]
pub struct GetLatestGameReq {
    pub version: String,
    pub appcode: String,
    pub channel: String,
    pub sub_channel: String,
    pub device_id: String,
}

#[derive(Debug)]
pub struct ContentReq {
    pub appcode: String,
    pub language: String,
    pub channel: String,
    pub sub_channel: String,
    pub platform: String,
    pub source: String,
}

/// The full game package of a version.
#[derive(Debug, Clone)]
pub struct PackageInfo {
    pub packs: Vec<PackFile>,
    pub total_size: String,
    pub game_files_md5: String,
    pub file_path: String,
}

/// One part of the split game archive.
#[derive(Debug, Clone)]
pub struct PackFile {
    pub url: String,
    pub md5: String,
    pub package_size: String,
}

#[derive(Debug, Clone, Default)]
pub struct LauncherContent {
    pub background: BackgroundImage,
    pub banners: Vec<Banner>,
    pub news_tabs: Vec<NewsTab>,
    pub sidebars: Vec<Sidebar>,
    pub single_ent: Option<SingleEnt>,
}

#[derive(Debug, Clone, Default)]
pub struct BackgroundImage {
    pub url: String,
    pub video_url: String,
}

#[derive(Debug, Clone)]
pub struct Banner {
    pub url: String,
    pub jump_url: String,
}

#[derive(Debug, Clone)]
pub struct NewsTab {
    pub tab_name: String,
    pub announcements: Vec<Announcement>,
}

#[derive(Debug, Clone)]
pub struct Announcement {
    pub content: String,
    pub jump_url: String,
}

#[derive(Debug, Clone)]
pub struct Sidebar {
    pub media: String,
    pub jump_url: String,
    pub icon_url: String,
    pub sidebar_labels: Vec<SidebarLabel>,
}

#[derive(Debug, Clone)]
pub struct SidebarLabel {
    pub content: String,
    pub jump_url: String,
}

#[derive(Debug, Clone)]
pub struct SingleEnt {
    pub version_url: String,
    pub button_url: String,
    pub button_hover_url: String,
    pub jump_url: String,
}

/// A downloadable compatibility-layer release (DWProton, Wine).
#[derive(Debug, Clone)]
pub struct ProtonReleaseInfo {
    pub tag_name: String,
    pub download_url: String,
    pub file_name: String,
    pub size: u64,
    pub published_at: String,
}

impl ProtonReleaseInfo {
    /// A copy equal to this one in every field.
    pub fn duplicate(&self) -> (r: Self)
        ensures
            r == *self,
    {
        ProtonReleaseInfo {
            tag_name: self.tag_name.clone(),
            download_url: self.download_url.clone(),
            file_name: self.file_name.clone(),
            size: self.size,
            published_at: self.published_at.clone(),
        }
    }
}

/// An installed compatibility layer.
#[derive(Debug, Clone)]
pub struct InstalledProton {
    pub name: String,
    pub path: String,
    /// macOS: the DXMT version inside this Wine.
    pub dxmt: Option<String>,
    /// macOS: the Endfield module set inside this Wine.
    pub wine_patch: Option<String>,
}

#[derive(Debug, Clone)]
pub struct ProtonDownloadProgress {
    pub bytes_downloaded: u64,
    pub bytes_total: u64,
    pub speed_bps: u64,
    pub stage: String,
}

#[derive(Debug, Clone)]
pub struct ProtonDownloadComplete {
    pub proton_dir: String,
    pub version: String,
}

#[derive(Debug, Clone)]
pub struct DownloadProgress {
    pub file_index: usize,
    pub total_files: usize,
    pub file_name: String,
    pub bytes_downloaded: u64,
    pub bytes_total: u64,
    pub speed_bps: u64,
}

#[derive(Debug, Clone)]
pub struct DownloadFileComplete {
    pub file_index: usize,
    pub total_files: usize,
    pub file_name: String,
}

#[derive(Debug, Clone)]
pub struct ExtractProgress {
    pub percent: u8,
    pub bytes_processed: u64,
    pub bytes_total: u64,
    pub speed_bps: u64,
}

#[derive(Debug, Clone)]
pub struct DownloadComplete {
    pub version: String,
}

#[derive(Debug, Clone)]
pub struct DownloadError {
    pub message: String,
}

/// A launch that died: its exit code, the log tail, and the id of a known
/// failure signature when the log matched one.
#[derive(Debug, Clone)]
pub struct LaunchFailed {
    pub exit_code: Option<i32>,
    pub log_tail: String,
    pub hint: Option<String>,
}

#[derive(Debug, Clone)]
pub struct GameExited {
    pub exit_code: Option<i32>,
}

/// A launch refused because the server has a newer game version.
#[derive(Debug, Clone)]
pub struct UpdateRequired {
    pub installed_version: String,
    pub latest_version: String,
}

} // verus!
