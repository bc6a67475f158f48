//! What the home screen shows and what a play session leaves behind: the
//! game's install state, the checks around a launch, and the bookkeeping
//! when the game exits.

use vstd::prelude::*;

use crate::api_types::UpdateRequired;
use crate::error::AppError;
use crate::paths::{join, join_path};
use crate::settings::AppSettings;
use crate::text::{chars_of, push_str, same_text, string_of};

verus! {

/// The marker an interrupted download of ours leaves in the game directory.
pub fn incomplete_marker(game_dir: &str) -> (r: String)
    ensures
        r@ == join_path(game_dir@, ".llauncher_incomplete"@),
{
    join(game_dir, ".llauncher_incomplete")
}

/// A playable install we may not have made ourselves: the game binary is
/// there and no download of ours was interrupted.
pub fn has_existing_install(exe_exists: bool, marker_exists: bool) -> (b: bool)
    ensures
        b == (exe_exists && !marker_exists),
{
    exe_exists && !marker_exists
}

/// The game's state on the home screen.
#[derive(Debug, Clone)]
pub enum GameState {
    NotInstalled { latest_version: String },
    UpdateAvailable { installed_version: String, latest_version: String },
    Ready { version: String },
}

/// The state from what is on disk and what the server offers: not installed
/// while a download was interrupted, no version is recorded or the binary is
/// missing; an update only when the versions differ *and* the server has
/// packs to apply; ready otherwise.
pub fn determine_game_state(
    latest_version: String,
    marker_exists: bool,
    installed_version: &str,
    exe_exists: bool,
    packs_empty: bool,
) -> (r: GameState)
    ensures
        marker_exists || installed_version@.len() == 0 || !exe_exists ==> r == (GameState::NotInstalled {
            latest_version,
        }),
        !(marker_exists || installed_version@.len() == 0 || !exe_exists) && installed_version@
            != latest_version@ && !packs_empty ==> (r matches GameState::UpdateAvailable {
            installed_version: i,
            latest_version: l,
        } && i@ == installed_version@ && l == latest_version),
        !(marker_exists || installed_version@.len() == 0 || !exe_exists) && (installed_version@
            == latest_version@ || packs_empty) ==> (r matches GameState::Ready { version: v }
            && v@ == installed_version@),
{
    if marker_exists {
        return GameState::NotInstalled { latest_version };
    }
    if installed_version.unicode_len() == 0 || !exe_exists {
        return GameState::NotInstalled { latest_version };
    }
    if !same_text(installed_version, latest_version.as_str()) && !packs_empty {
        return GameState::UpdateAvailable {
            installed_version: crate::text::to_owned_string(installed_version),
            latest_version,
        };
    }
    GameState::Ready { version: crate::text::to_owned_string(installed_version) }
}

/// A launch goes ahead only when the game is not already running and the
/// server has no update pending; a failed state check does not block it.
pub fn check_launch(game_running: bool, state: Option<&GameState>) -> (r: Result<(), AppError>)
    ensures
        game_running ==> (r matches Err(AppError::Api(m)) && m@ == "Game is already running"@),
        !game_running ==> match state {
            Some(GameState::UpdateAvailable { installed_version: i, latest_version: l }) => (r matches Err(
                AppError::UpdateRequired { installed: ri, latest: rl },
            ) && ri@ == i@ && rl@ == l@),
            _ => r is Ok,
        },
{
    if game_running {
        return Err(AppError::Api(crate::text::to_owned_string("Game is already running")));
    }
    match state {
        Some(GameState::UpdateAvailable { installed_version, latest_version }) => {
            Err(
                AppError::UpdateRequired {
                    installed: crate::text::to_owned_string(installed_version.as_str()),
                    latest: crate::text::to_owned_string(latest_version.as_str()),
                },
            )
        },
        _ => Ok(()),
    }
}

/// A session shorter than this that ended with an exit status is a failed
/// launch, not a play session.
pub const QUICK_EXIT_MS: u64 = 3500;

/// What the launcher does once the game process is gone.
#[derive(Debug, Clone, Copy)]
pub struct SessionEnd {
    /// The process exited almost at once: a failed launch.
    pub quick_exit: bool,
    /// The session goes into the play journal.
    pub record_session: bool,
    /// The failure dialog is shown, with the log tail and any hint.
    pub report_failure: bool,
}

/// `exited` says whether an exit status was seen (a lost process has none),
/// `hint_found` whether the log matched a known failure signature, which
/// counts as a failed launch even past the quick-exit window.
pub fn session_end(exited: bool, elapsed_ms: u64, hint_found: bool) -> (r: SessionEnd)
    ensures
        r.quick_exit == (exited && elapsed_ms < QUICK_EXIT_MS),
        r.record_session == !r.quick_exit,
        r.report_failure == (exited && (r.quick_exit || hint_found)),
{
    let quick_exit = exited && elapsed_ms < QUICK_EXIT_MS;
    SessionEnd { quick_exit, record_session: !quick_exit, report_failure: exited && (quick_exit || hint_found) }
}

/// Playtime and the last-played time after a session; every other setting
/// is left as it was.
pub fn record_playtime(settings: &mut AppSettings, elapsed_secs: u64, start_unix: u64)
    requires
        old(settings).total_playtime_secs + elapsed_secs <= u64::MAX,
    ensures
        final(settings).total_playtime_secs == old(settings).total_playtime_secs + elapsed_secs,
        final(settings).last_played == start_unix,
        *final(settings) == (AppSettings {
            total_playtime_secs: final(settings).total_playtime_secs,
            last_played: start_unix,
            ..*old(settings)
        }),
{
    settings.total_playtime_secs = settings.total_playtime_secs + elapsed_secs;
    settings.last_played = start_unix;
}

/// Point the settings at an existing install: its directory, the
/// `_download` cache inside it, and the version recorded for it.
pub fn adopt_install(settings: &mut AppSettings, path: &str, version: &str)
    ensures
        final(settings).game_dir@ == path@,
        final(settings).download_dir@ == join_path(path@, "_download"@),
        final(settings).installed_version@ == version@,
        *final(settings) == (AppSettings {
            game_dir: final(settings).game_dir,
            download_dir: final(settings).download_dir,
            installed_version: final(settings).installed_version,
            ..*old(settings)
        }),
{
    settings.game_dir = crate::text::to_owned_string(path);
    settings.download_dir = join(path, "_download");
    settings.installed_version = crate::text::to_owned_string(version);
}

/// One completed play session.
#[derive(Debug, Clone, Copy)]
pub struct GameSession {
    /// Unix timestamp (seconds) when the session started.
    pub start: u64,
    pub duration_secs: u64,
}

/// The journal never holds more sessions than this.
pub const MAX_SESSIONS: usize = 1000;

/// The journal with one more session: appended at the end, the oldest
/// dropped beyond the cap.
pub open spec fn appended(journal: Seq<GameSession>, s: GameSession) -> Seq<GameSession> {
    let all = journal.push(s);
    if all.len() > MAX_SESSIONS {
        all.skip(all.len() - MAX_SESSIONS)
    } else {
        all
    }
}

pub fn append_session(journal: &mut Vec<GameSession>, session: GameSession)
    ensures
        final(journal)@ == appended(old(journal)@, session),
{
    journal.push(session);
    if journal.len() > MAX_SESSIONS {
        let excess = journal.len() - MAX_SESSIONS;
        let ghost all = journal@;
        let mut kept: Vec<GameSession> = Vec::new();
        let mut i: usize = excess;
        while i < journal.len()
            invariant
                excess <= i <= journal@.len(),
                journal@ == all,
                kept@ == all.subrange(excess as int, i as int),
            decreases journal.len() - i,
        {
            kept.push(journal[i]);
            i = i + 1;
            assert(kept@ =~= all.subrange(excess as int, i as int));
        }
        assert(kept@ =~= all.skip(excess as int));
        *journal = kept;
    }
}

/// Appending never lets the journal grow past its cap, and the newest
/// session is always its last entry.
pub proof fn lemma_journal_bounded(journal: Seq<GameSession>, s: GameSession)
    requires
        journal.len() <= MAX_SESSIONS,
    ensures
        appended(journal, s).len() <= MAX_SESSIONS,
        appended(journal, s).last() == s,
        appended(journal, s).len() == (if journal.len() < MAX_SESSIONS { journal.len() + 1 } else { MAX_SESSIONS as nat }),
{
}

/// Uninstalling needs a game to remove: the binary or an interrupted
/// download of ours.
pub fn check_uninstall(game_running: bool, exe_exists: bool, marker_exists: bool, game_dir: &str) -> (r: Result<(), AppError>)
    ensures
        game_running ==> (r matches Err(AppError::Api(m)) && m@ == "Cannot uninstall while the game is running"@),
        !game_running && !exe_exists && !marker_exists ==> (r matches Err(AppError::GameNotFound(m)) && m@
            == "No game installation found in "@ + game_dir@),
        !game_running && (exe_exists || marker_exists) ==> r is Ok,
{
    if game_running {
        return Err(AppError::Api(crate::text::to_owned_string("Cannot uninstall while the game is running")));
    }
    if !exe_exists && !marker_exists {
        let mut m: Vec<char> = Vec::new();
        push_str(&mut m, "No game installation found in ");
        push_str(&mut m, game_dir);
        return Err(AppError::GameNotFound(string_of(m.as_slice())));
    }
    Ok(())
}

/// Only a download cache that follows the `_download` naming is deleted:
/// the user may have pointed it at a shared folder.
pub fn is_launcher_cache(download_dir: &str) -> (b: bool)
    ensures
        b == (crate::diagnose::file_name_of(download_dir@) == Some("_download"@)),
{
    match crate::diagnose::file_name(download_dir) {
        Some(n) => {
            let d = chars_of("_download");
            crate::text::eq_chars(n.as_slice(), d.as_slice())
        },
        None => false,
    }
}

} // verus!
