//! What the scan found: per-file reports and the totals.
use vstd::prelude::*;

use crate::classify::opt_view;
use crate::format::BundleOutput;
use crate::sort::Keyed;

verus! {

/// Whether a file went into the bundle.
#[derive(Debug, Clone, Copy, PartialEq, Eq, Structural)]
pub enum FileStatus {
    Included,
    Excluded,
}

/// One file in the report.
#[derive(Debug, Clone)]
pub struct FileReport {
    pub path: String,
    pub bytes: usize,
    pub tokens: usize,
    pub language: Option<String>,
    pub status: FileStatus,
    pub reason: Option<String>,
}

/// A file report as plain values: path, bytes, tokens, language, status, reason.
pub type ReportView = (Seq<char>, usize, usize, Option<Seq<char>>, FileStatus, Option<Seq<char>>);

impl View for FileReport {
    type V = ReportView;

    open spec fn view(&self) -> ReportView {
        (self.path@, self.bytes, self.tokens, opt_view(self.language), self.status, opt_view(self.reason))
    }
}

impl Keyed for FileReport {
    open spec fn key(&self) -> Seq<char> {
        self.path@
    }

    fn key_str(&self) -> (r: &str) {
        self.path.as_str()
    }
}

impl FileReport {
    /// The report of an included file.
    pub fn included(path: String, bytes: usize, tokens: usize, language: Option<String>) -> (r: Self)
        ensures
            r@ == (path@, bytes, tokens, opt_view(language), FileStatus::Included, None::<Seq<char>>),
    {
        FileReport { path, bytes, tokens, language, status: FileStatus::Included, reason: None }
    }

    /// The report of an excluded file: no tokens, and the reason it was left out.
    pub fn excluded(path: String, bytes: usize, language: Option<String>, reason: String) -> (r: Self)
        ensures
            r@ == (path@, bytes, 0usize, opt_view(language), FileStatus::Excluded, Some(reason@)),
    {
        FileReport { path, bytes, tokens: 0, language, status: FileStatus::Excluded, reason: Some(reason) }
    }
}

/// The reports of a scan and their totals.
#[derive(Debug, Clone)]
pub struct BundleReport {
    pub included_files: Vec<FileReport>,
    pub excluded_files: Vec<FileReport>,
    pub total_bytes: usize,
    pub total_tokens: usize,
    pub warnings: Vec<String>,
}

/// The report views of a list of file reports.
pub open spec fn report_views(v: Seq<FileReport>) -> Seq<ReportView> {
    v.map_values(|r: FileReport| r@)
}

impl Default for BundleReport {
    fn default() -> (r: Self)
        ensures
            r.included_files@.len() == 0,
            r.excluded_files@.len() == 0,
            r.total_bytes == 0,
            r.total_tokens == 0,
            r.warnings@.len() == 0,
    {
        BundleReport {
            included_files: Vec::new(),
            excluded_files: Vec::new(),
            total_bytes: 0,
            total_tokens: 0,
            warnings: Vec::new(),
        }
    }
}

/// The bundle text together with the report it was made from.
#[derive(Debug, Clone)]
pub struct GenerationResult {
    pub output: BundleOutput,
    pub report: BundleReport,
}

} // verus!
