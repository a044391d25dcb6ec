use vstd::prelude::*;

verus! {

/// Immutable configuration, constructed once at startup and handed to the
/// vault; no component consults any ambient state.
pub struct Config {
    /// Largest accepted upload body, in bytes.
    pub body_max_size: usize,
    /// Download attempts (successful or not) allowed per file before it
    /// becomes permanently ineligible.
    pub max_download_attempts: u64,
    /// Uploads allowed per origin within one rolling window.
    pub max_uploads_per_window: u64,
    /// Length of the rolling rate-limit window, in seconds.
    pub upload_window_secs: u64,
    /// Seconds from upload until a file expires.
    pub lifetime_secs: u64,
    /// Whether one successful download permanently exhausts a file — the
    /// default for a secret-sharing use — or merely counts toward the
    /// attempt budget like a failure.
    pub one_shot_download: bool,
}

} // verus!
