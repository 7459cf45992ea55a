//! Generated names and the evidence that binds them to a pane.

use vstd::prelude::*;
use crate::domain::SessionId;
use crate::path::UnixPath;
use crate::text;

verus! {

/// A generated title bound to its source thread, so that a reused pane identity
/// cannot inherit it.
#[derive(Debug)]
pub struct GeneratedName {
    /// Source Codex thread identity.
    pub thread_id: String,
    /// Session of the pane during thread resolution.
    pub source_session: SessionId,
    /// Pane leader during thread resolution.
    pub source_pane_pid: u32,
    /// Whether the pane title itself proves the thread.
    pub stable_source_title: bool,
    /// Exact pane title that was resolved to the source thread.
    pub source_title: String,
    /// Exact pane directory used during thread resolution.
    pub source_cwd: UnixPath,
    /// Validated generated title.
    pub name: String,
    /// Unix time stored with the pane-local title.
    pub generated_at_unix: u64,
    /// Token of the explicit request that this name answers.
    pub auto_name_token: Option<String>,
}

impl GeneratedName {
    pub fn copy(&self) -> (r: GeneratedName)
        ensures
            r.thread_id@ == self.thread_id@,
            r.source_session@ == self.source_session@,
            r.source_pane_pid == self.source_pane_pid,
            r.stable_source_title == self.stable_source_title,
            r.source_title@ == self.source_title@,
            r.source_cwd@ == self.source_cwd@,
            r.name@ == self.name@,
            r.generated_at_unix == self.generated_at_unix,
            text::option_view(r.auto_name_token) == text::option_view(self.auto_name_token),
    {
        GeneratedName {
            thread_id: self.thread_id.clone(),
            source_session: self.source_session.clone(),
            source_pane_pid: self.source_pane_pid,
            stable_source_title: self.stable_source_title,
            source_title: self.source_title.clone(),
            source_cwd: self.source_cwd.clone(),
            name: self.name.clone(),
            generated_at_unix: self.generated_at_unix,
            auto_name_token: text::clone_option_text(&self.auto_name_token),
        }
    }
}

} // verus!
