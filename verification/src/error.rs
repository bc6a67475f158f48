//! The launcher's error type. Failures of outside libraries (HTTP, I/O,
//! JSON) arrive here as their messages.

use vstd::prelude::*;

use crate::text::{decimal, decimal_chars, push_all, push_str, string_of};

verus! {

#[derive(Debug, Clone)]
pub enum AppError {
    Http(String),
    Io(String),
    Json(String),
    Api(String),
    Md5Mismatch { expected: String, actual: String },
    GameNotFound(String),
    ProtonNotFound(String),
    WineNotFound(String),
    TarNotFound,
    ExtractionFailed(String),
    ProtonDownloadFailed(String),
    Cancelled,
    /// A feature of another platform was invoked; the UI hides such controls.
    Unsupported(String),
    UpdateRequired { installed: String, latest: String },
    DiskSpace { path: String, needed_mib: u64, available_mib: u64 },
}

/// The text the user sees for an error.
pub open spec fn error_text(e: AppError) -> Seq<char> {
    match e {
        AppError::Http(m) => "HTTP error: "@ + m@,
        AppError::Io(m) => "IO error: "@ + m@,
        AppError::Json(m) => "JSON error: "@ + m@,
        AppError::Api(m) => "API error: "@ + m@,
        AppError::Md5Mismatch { expected, actual } => "MD5 mismatch: expected "@ + expected@ + ", got "@
            + actual@,
        AppError::GameNotFound(m) => "Game not found: "@ + m@,
        AppError::ProtonNotFound(m) => "Proton not found: "@ + m@,
        AppError::WineNotFound(m) => "Wine not found: "@ + m@,
        AppError::TarNotFound => "tar not found"@,
        AppError::ExtractionFailed(m) => "Extraction failed: "@ + m@,
        AppError::ProtonDownloadFailed(m) => "Proton download failed: "@ + m@,
        AppError::Cancelled => "Download cancelled"@,
        AppError::Unsupported(m) => "Not available on this platform: "@ + m@,
        AppError::UpdateRequired { installed, latest } => "Game update required (installed "@ + installed@
            + ", latest "@ + latest@ + ")"@,
        AppError::DiskSpace { path, needed_mib, available_mib } => "Not enough free disk space in "@ + path@
            + ": "@ + decimal(needed_mib as nat) + " MiB required, "@ + decimal(available_mib as nat)
            + " MiB available"@,
    }
}

impl AppError {
    /// The error as the user reads it.
    pub fn message(&self) -> (r: String)
        ensures
            r@ == error_text(*self),
    {
        let mut out: Vec<char> = Vec::new();
        match self {
            AppError::Http(m) => {
                push_str(&mut out, "HTTP error: ");
                push_str(&mut out, m.as_str());
            },
            AppError::Io(m) => {
                push_str(&mut out, "IO error: ");
                push_str(&mut out, m.as_str());
            },
            AppError::Json(m) => {
                push_str(&mut out, "JSON error: ");
                push_str(&mut out, m.as_str());
            },
            AppError::Api(m) => {
                push_str(&mut out, "API error: ");
                push_str(&mut out, m.as_str());
            },
            AppError::Md5Mismatch { expected, actual } => {
                push_str(&mut out, "MD5 mismatch: expected ");
                push_str(&mut out, expected.as_str());
                push_str(&mut out, ", got ");
                push_str(&mut out, actual.as_str());
            },
            AppError::GameNotFound(m) => {
                push_str(&mut out, "Game not found: ");
                push_str(&mut out, m.as_str());
            },
            AppError::ProtonNotFound(m) => {
                push_str(&mut out, "Proton not found: ");
                push_str(&mut out, m.as_str());
            },
            AppError::WineNotFound(m) => {
                push_str(&mut out, "Wine not found: ");
                push_str(&mut out, m.as_str());
            },
            AppError::TarNotFound => {
                push_str(&mut out, "tar not found");
            },
            AppError::ExtractionFailed(m) => {
                push_str(&mut out, "Extraction failed: ");
                push_str(&mut out, m.as_str());
            },
            AppError::ProtonDownloadFailed(m) => {
                push_str(&mut out, "Proton download failed: ");
                push_str(&mut out, m.as_str());
            },
            AppError::Cancelled => {
                push_str(&mut out, "Download cancelled");
            },
            AppError::Unsupported(m) => {
                push_str(&mut out, "Not available on this platform: ");
                push_str(&mut out, m.as_str());
            },
            AppError::UpdateRequired { installed, latest } => {
                push_str(&mut out, "Game update required (installed ");
                push_str(&mut out, installed.as_str());
                push_str(&mut out, ", latest ");
                push_str(&mut out, latest.as_str());
                push_str(&mut out, ")");
            },
            AppError::DiskSpace { path, needed_mib, available_mib } => {
                push_str(&mut out, "Not enough free disk space in ");
                push_str(&mut out, path.as_str());
                push_str(&mut out, ": ");
                let n = decimal_chars(*needed_mib);
                push_all(&mut out, n.as_slice());
                push_str(&mut out, " MiB required, ");
                let a = decimal_chars(*available_mib);
                push_all(&mut out, a.as_slice());
                push_str(&mut out, " MiB available");
            },
        }
        assert(out@ =~= error_text(*self));
        string_of(out.as_slice())
    }
}

} // verus!
