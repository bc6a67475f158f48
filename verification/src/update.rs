//! Updating an installed game. The version check, the central-directory
//! read, the CRC pass and the downloads are I/O; between them this module
//! decides: stop when the transfer was cancelled, take the cheap per-file
//! route only when every engine file is known to be current, and record the
//! new version only when the route succeeded.

use vstd::prelude::*;

use crate::error::AppError;
use crate::settings::AppSettings;

verus! {

/// How an update is carried out.
#[derive(Debug, Clone, Copy, PartialEq, Eq)]
pub enum UpdateRoute {
    /// Only the changed game assets, file by file.
    Delta,
    /// The whole pack download.
    Full,
}

/// Between two steps of an update: a cancelled transfer ends it.
pub fn check_not_cancelled(cancelled: bool) -> (r: Result<(), AppError>)
    ensures
        cancelled ==> r matches Err(AppError::Cancelled),
        !cancelled ==> r is Ok,
{
    if cancelled {
        Err(AppError::Cancelled)
    } else {
        Ok(())
    }
}

/// The route, once the engine files were compared: `engine_current` is
/// `None` when the comparison could not be made, which counts as stale.
pub fn update_route(cancelled: bool, engine_current: Option<bool>) -> (r: Result<UpdateRoute, AppError>)
    ensures
        cancelled ==> r matches Err(AppError::Cancelled),
        !cancelled ==> r == Ok::<UpdateRoute, AppError>(
            if engine_current == Some(true) {
                UpdateRoute::Delta
            } else {
                UpdateRoute::Full
            },
        ),
{
    if cancelled {
        return Err(AppError::Cancelled);
    }
    match engine_current {
        Some(true) => Ok(UpdateRoute::Delta),
        _ => Ok(UpdateRoute::Full),
    }
}

/// After the route ran: a success records the version it installed (the
/// settings are then saved), a failure leaves the settings as they were and
/// is passed on.
pub fn finish_update(settings: &mut AppSettings, result: Result<String, AppError>) -> (r: Result<(), AppError>)
    ensures
        result matches Ok(v) ==> r is Ok && *final(settings) == (AppSettings { installed_version: v, ..*old(settings) }),
        result matches Err(e) ==> r == Err::<(), AppError>(e) && *final(settings) == *old(settings),
{
    match result {
        Ok(v) => {
            settings.installed_version = v;
            Ok(())
        },
        Err(e) => Err(e),
    }
}

} // verus!
