//! The decisions of the desktop window around its background jobs.
//!
//! The window starts a job (a scan, a bundle run, or writing the profile),
//! runs it on a worker, and takes the worker's answer back. The worker and the
//! drawing are the program's part; here each step is a function from the
//! window's state and what happened to the next state and what to run.
use vstd::prelude::*;

use crate::config::{BundleMode, ScanConfig};
use crate::display::{is_preview_of, job_status, job_status_text, preview_text, JobKind};
use crate::options::chosen_root;
use crate::report::GenerationResult;
use crate::text::{chars_of, extend_str, owned, string_of, trim_end_chars, trim_start_chars};

verus! {

/// What a run was started with.
#[derive(Debug, Clone)]
pub struct RunContext {
    pub root: String,
    pub mode: BundleMode,
    pub budget: Option<usize>,
}

/// What the window shows about its jobs.
#[derive(Debug)]
pub struct JobState {
    /// The status line.
    pub status: String,
    /// The error to show, if any.
    pub error: Option<String>,
    /// The job under way, if any.
    pub running: Option<JobKind>,
    /// The start of the last bundle text.
    pub output_preview: String,
    /// The output path field.
    pub output_path: String,
    /// The last scan's result.
    pub last_result: Option<GenerationResult>,
    /// What the last scan was started with.
    pub last_run: Option<RunContext>,
    /// Where the profile was last written.
    pub last_profile_path: Option<String>,
}

/// What the worker (or its channel) reports.
pub enum JobEvent {
    /// A scan or bundle run finished.
    Generated {
        kind: JobKind,
        result: GenerationResult,
        run: RunContext,
        output_path: Option<String>,
        copied: bool,
        wrote_file: bool,
    },
    /// The profile was written at this path.
    ProfileInitialized(String),
    /// The job failed with this message.
    Failed(String),
    /// The worker went away without an answer.
    Disconnected,
}

/// The status line while a job of this kind runs.
pub open spec fn running_status(kind: JobKind) -> Seq<char> {
    match kind {
        JobKind::Inspect => "Scanning repository..."@,
        JobKind::Bundle => "Generating bundle..."@,
        JobKind::InitProfile => "Initializing profile..."@,
    }
}

fn running_status_text(kind: JobKind) -> (r: String)
    ensures
        r@ == running_status(kind),
{
    match kind {
        JobKind::Inspect => owned("Scanning repository..."),
        JobKind::Bundle => owned("Generating bundle..."),
        JobKind::InitProfile => owned("Initializing profile..."),
    }
}

/// Starts a scan or bundle run with the configuration the controls give
/// (or the message saying why there is none). Nothing starts while a job
/// runs; a configuration error is shown; otherwise the job is marked as
/// running, the error is cleared, the status says what runs, and the
/// configuration comes back for the worker.
pub fn start_job(state: &mut JobState, kind: JobKind, selected: std::result::Result<ScanConfig, String>) -> (r: Option<(ScanConfig, RunContext)>)
    ensures
        old(state).running is Some ==> (r is None && *final(state) == *old(state)),
        old(state).running is None ==> match selected {
            Err(e) => r is None && final(state).error == Some(e) && final(state).status
                == old(state).status && final(state).running is None,
            Ok(c) => final(state).running == Some(kind) && final(state).error is None
                && final(state).status@ == running_status(kind) && (r matches Some(plan) && plan.0
                == c && plan.1.root == c.root && plan.1.mode == c.mode && plan.1.budget
                == c.token_budget),
        },
        final(state).output_preview == old(state).output_preview,
        final(state).output_path == old(state).output_path,
        final(state).last_result == old(state).last_result,
        final(state).last_run == old(state).last_run,
        final(state).last_profile_path == old(state).last_profile_path,
{
    if state.running.is_some() {
        return None;
    }
    match selected {
        Err(e) => {
            state.error = Some(e);
            None
        },
        Ok(c) => {
            let run = RunContext { root: c.root.clone(), mode: c.mode, budget: c.token_budget };
            state.running = Some(kind);
            state.error = None;
            state.status = running_status_text(kind);
            Some((c, run))
        },
    }
}

/// Starts writing the profile into the repository the root field names.
/// Nothing starts while a job runs; an empty root is an error; otherwise the
/// job is marked as running and the trimmed root comes back for the worker.
pub fn start_init_profile(state: &mut JobState, root_field: &str) -> (r: Option<String>)
    ensures
        old(state).running is Some ==> (r is None && *final(state) == *old(state)),
        old(state).running is None ==> match chosen_root(root_field@) {
            None => r is None && final(state).status == old(state).status
                && final(state).running is None && (final(state).error matches Some(e) && e@
                == "Choose a repository root before initializing a profile."@),
            Some(root) => final(state).running == Some(JobKind::InitProfile)
                && final(state).error is None && final(state).status@ == running_status(
                JobKind::InitProfile,
            ) && (r matches Some(x) && x@ == root),
        },
        final(state).output_preview == old(state).output_preview,
        final(state).output_path == old(state).output_path,
        final(state).last_result == old(state).last_result,
        final(state).last_run == old(state).last_run,
        final(state).last_profile_path == old(state).last_profile_path,
{
    if state.running.is_some() {
        return None;
    }
    let trimmed = trim_start_chars(&trim_end_chars(&chars_of(root_field)));
    if trimmed.len() == 0 {
        state.error = Some(owned("Choose a repository root before initializing a profile."));
        return None;
    }
    state.running = Some(JobKind::InitProfile);
    state.error = None;
    state.status = running_status_text(JobKind::InitProfile);
    Some(string_of(&trimmed))
}

/// The message when the worker goes away.
pub open spec fn disconnected_message() -> Seq<char> {
    "Worker thread disconnected before returning a result."@
}

/// Takes the worker's answer. Every answer ends the job. A finished scan
/// sets the status line, the preview, the last result and run, and the
/// output path when one came back; a written profile says where; a failure
/// shows its message with a failed status; a lost worker shows that as an
/// error and leaves the status line.
pub fn on_job_event(state: &mut JobState, event: JobEvent)
    ensures
        final(state).running is None,
        match event {
            JobEvent::Generated { kind, result, run, output_path, copied, wrote_file } => {
                &&& final(state).error is None
                &&& final(state).status@ == job_status_text(
                    kind,
                    result.report.included_files@.len(),
                    result.report.total_tokens as nat,
                    wrote_file,
                    copied,
                )
                &&& is_preview_of(final(state).output_preview@, result.output.contents@)
                &&& final(state).last_result == Some(result)
                &&& final(state).last_run == Some(run)
                &&& final(state).output_path == match output_path {
                    Some(p) => p,
                    None => old(state).output_path,
                }
                &&& final(state).last_profile_path == old(state).last_profile_path
            },
            JobEvent::ProfileInitialized(path) => {
                &&& final(state).error is None
                &&& final(state).status@ == "Profile initialized at "@ + path@ + "."@
                &&& final(state).last_profile_path == Some(path)
                &&& final(state).output_preview == old(state).output_preview
                &&& final(state).output_path == old(state).output_path
                &&& final(state).last_result == old(state).last_result
                &&& final(state).last_run == old(state).last_run
            },
            JobEvent::Failed(message) => {
                &&& final(state).error == Some(message)
                &&& final(state).status@ == "The last operation failed."@
                &&& final(state).output_preview == old(state).output_preview
                &&& final(state).output_path == old(state).output_path
                &&& final(state).last_result == old(state).last_result
                &&& final(state).last_run == old(state).last_run
                &&& final(state).last_profile_path == old(state).last_profile_path
            },
            JobEvent::Disconnected => {
                &&& final(state).error matches Some(e) && e@ == disconnected_message()
                &&& final(state).status == old(state).status
                &&& final(state).output_preview == old(state).output_preview
                &&& final(state).output_path == old(state).output_path
                &&& final(state).last_result == old(state).last_result
                &&& final(state).last_run == old(state).last_run
                &&& final(state).last_profile_path == old(state).last_profile_path
            },
        },
{
    state.running = None;
    match event {
        JobEvent::Generated { kind, result, run, output_path, copied, wrote_file } => {
            state.error = None;
            state.status = job_status(
                kind,
                result.report.included_files.len(),
                result.report.total_tokens,
                wrote_file,
                copied,
            );
            state.output_preview = preview_text(result.output.contents.as_str());
            state.last_result = Some(result);
            state.last_run = Some(run);
            if let Some(p) = output_path {
                state.output_path = p;
            }
        },
        JobEvent::ProfileInitialized(path) => {
            state.error = None;
            let mut text = chars_of("Profile initialized at ");
            extend_str(&mut text, path.as_str());
            extend_str(&mut text, ".");
            state.status = string_of(&text);
            state.last_profile_path = Some(path);
        },
        JobEvent::Failed(message) => {
            state.error = Some(message);
            state.status = owned("The last operation failed.");
        },
        JobEvent::Disconnected => {
            state.error = Some(owned("Worker thread disconnected before returning a result."));
        },
    }
}

} // verus!
