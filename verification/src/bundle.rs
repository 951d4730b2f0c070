//! Building the bundle from the files the walk found.
//!
//! The caller walks the tree and reads files; this module makes every
//! decision. For each candidate `scan_file` either decides the file at once
//! (it is left out) or asks for its contents, which `finish_file` turns into
//! the file's outcome. `generate_bundle` then puts the outcomes in path order,
//! adds up the totals and writes the bundle text.
use vstd::prelude::*;

use crate::classify::{classification, classify_candidate, opt_view, FileClassification};
use crate::config::ScanConfig;
use crate::discover::FileCandidate;
use crate::error::{CodeGrabberError, Result};
use crate::extract::{extract_file, extracted_text, is_extracted, ExtractedFile, ExtractedView};
use crate::format::{extracted_views, format_bundle, plain_bundle};
use crate::report::{report_views, BundleReport, FileReport, FileStatus, GenerationResult, ReportView};
use crate::sort::{
    is_sorted_by, law_sorted_by_orders_and_permutes, lemma_sorted_by_key_map, lemma_sorted_by_map,
    reversed, sort_by_key, sorted_by,
};
use crate::text::{join, join_strings};
use crate::tokenize::{token_count, token_encodes, token_error};

verus! {

/// What the scan made of one file.
pub enum FileOutcome {
    /// Left out of the bundle.
    Excluded(FileReport),
    /// Goes into the bundle.
    Included(ExtractedFile),
}

/// What the scan needs next for one file.
pub enum ScanStep {
    /// The file is decided without its contents.
    Decided(FileOutcome),
    /// The file goes in; its contents are needed (see `finish_file`).
    NeedsContent(FileClassification),
}

/// The report of a candidate that is left out for `reason`.
pub open spec fn excluded_report(c: FileCandidate, language: Option<Seq<char>>, reason: Seq<char>) -> ReportView {
    (c.rel_path@, c.size_bytes as usize, 0usize, language, FileStatus::Excluded, Some(reason))
}

/// The report of an included file.
pub open spec fn included_report(f: ExtractedView) -> ReportView {
    (f.0, f.3, f.4, f.1, FileStatus::Included, None)
}

/// The outcome of a candidate that classification leaves out, given the
/// first bytes of the file: it is reported with its reasons joined by `"; "`.
pub open spec fn left_out_outcome(config: ScanConfig, c: FileCandidate, head: Seq<u8>, o: FileOutcome) -> bool {
    let cl = classification(config, c, head);
    &&& !cl.2
    &&& o matches FileOutcome::Excluded(rep) && rep@ == excluded_report(c, cl.1, join(cl.4, "; "@))
}

/// The first step for a candidate: classify it (`head` is what one read of
/// up to 8192 bytes from the start of the file gave, when
/// `needs_content_sniff` asked for it; otherwise empty). A file that is left
/// out is reported with its reasons joined by `"; "`.
pub fn scan_file(config: &ScanConfig, candidate: &FileCandidate, head: &[u8]) -> (r: ScanStep)
    ensures
        ({
            let cl = classification(*config, *candidate, head@);
            &&& !cl.2 ==> (r matches ScanStep::Decided(o) && left_out_outcome(*config, *candidate, head@, o))
            &&& cl.2 ==> (r matches ScanStep::NeedsContent(c) && c@ == cl)
        }),
{
    let cl = classify_candidate(config, candidate, head);
    if !cl.included {
        let reason = join_strings(&cl.reasons, "; ");
        let rep = FileReport::excluded(
            candidate.rel_path.clone(),
            candidate.size_bytes as usize,
            cl.language.clone(),
            reason,
        );
        ScanStep::Decided(FileOutcome::Excluded(rep))
    } else {
        ScanStep::NeedsContent(cl)
    }
}

/// The outcome of an included candidate, given what reading the whole file
/// gave: a read error or text the tokenizer does not encode leaves it out
/// with the error's message as the reason; otherwise it goes in, extracted.
pub open spec fn finished_outcome(
    config: ScanConfig,
    candidate: FileCandidate,
    classification: FileClassification,
    content: std::result::Result<Vec<u8>, String>,
    r: FileOutcome,
) -> bool {
    match content {
        Err(m) => r matches FileOutcome::Excluded(rep) && rep@ == excluded_report(
            candidate,
            opt_view(classification.language),
            "I/O error: "@ + m@,
        ),
        Ok(raw) => {
            let text = extracted_text(config, candidate, classification, raw@);
            if token_encodes(config.tokenizer@, text.0) {
                r matches FileOutcome::Included(f) && is_extracted(
                    f@,
                    candidate,
                    classification,
                    raw@.len() as usize,
                    text.0,
                    text.1,
                    token_count(config.tokenizer@, text.0) as usize,
                )
            } else {
                r matches FileOutcome::Excluded(rep) && rep@ == excluded_report(
                    candidate,
                    opt_view(classification.language),
                    "tokenizer error: "@ + token_error(config.tokenizer@, text.0),
                )
            }
        },
    }
}

/// The second step for an included candidate, given what reading the whole
/// file gave: its bytes, or the message of the read error. The file goes in
/// exactly when its cleaned text is encoded by the tokenizer; a read error,
/// or text the tokenizer does not encode, leaves it out with the error's
/// message as the reason.
pub fn finish_file(
    config: &ScanConfig,
    candidate: &FileCandidate,
    classification: &FileClassification,
    content: &std::result::Result<Vec<u8>, String>,
) -> (r: FileOutcome)
    ensures
        finished_outcome(*config, *candidate, *classification, *content, r),
{
    match content {
        Err(m) => {
            let err = CodeGrabberError::Io(m.clone());
            FileOutcome::Excluded(
                FileReport::excluded(
                    candidate.rel_path.clone(),
                    candidate.size_bytes as usize,
                    classification.language.clone(),
                    err.message(),
                ),
            )
        },
        Ok(raw) => match extract_file(config, candidate, classification, raw.as_slice()) {
            Ok(f) => FileOutcome::Included(f),
            Err(err) => {
                let reason = err.message();
                let rep = FileReport::excluded(
                    candidate.rel_path.clone(),
                    candidate.size_bytes as usize,
                    classification.language.clone(),
                    reason,
                );
                assert(rep@ == excluded_report(
                    *candidate,
                    opt_view(classification.language),
                    "tokenizer error: "@ + crate::error::error_detail(err),
                ));
                FileOutcome::Excluded(rep)
            },
        },
    }
}

// ---------------------------------------------------------------------------
// The outcomes of a scan
// ---------------------------------------------------------------------------

/// The included files among the outcomes, in order.
pub open spec fn included_files(o: Seq<FileOutcome>) -> Seq<ExtractedView>
    decreases o.len(),
{
    if o.len() == 0 {
        Seq::empty()
    } else {
        let rest = included_files(o.drop_last());
        match o.last() {
            FileOutcome::Included(f) => rest.push(f@),
            FileOutcome::Excluded(_) => rest,
        }
    }
}

/// The reports of the excluded files among the outcomes, in order.
pub open spec fn excluded_reports(o: Seq<FileOutcome>) -> Seq<ReportView>
    decreases o.len(),
{
    if o.len() == 0 {
        Seq::empty()
    } else {
        let rest = excluded_reports(o.drop_last());
        match o.last() {
            FileOutcome::Excluded(r) => rest.push(r@),
            FileOutcome::Included(_) => rest,
        }
    }
}

/// The bytes of text of the included files.
pub open spec fn total_output_bytes(o: Seq<FileOutcome>) -> nat
    decreases o.len(),
{
    if o.len() == 0 {
        0
    } else {
        total_output_bytes(o.drop_last()) + match o.last() {
            FileOutcome::Included(f) => f.output_bytes as nat,
            FileOutcome::Excluded(_) => 0nat,
        }
    }
}

/// The estimated tokens of the included files.
pub open spec fn total_tokens(o: Seq<FileOutcome>) -> nat
    decreases o.len(),
{
    if o.len() == 0 {
        0
    } else {
        total_tokens(o.drop_last()) + match o.last() {
            FileOutcome::Included(f) => f.estimated_tokens as nat,
            FileOutcome::Excluded(_) => 0nat,
        }
    }
}

/// The reports of the included files among the outcomes, in order.
pub open spec fn included_reports(o: Seq<FileOutcome>) -> Seq<ReportView> {
    included_files(o).map_values(|f: ExtractedView| included_report(f))
}

/// Both totals fit in a `usize`.
pub open spec fn totals_fit(o: Seq<FileOutcome>) -> bool {
    total_output_bytes(o) <= usize::MAX && total_tokens(o) <= usize::MAX
}

/// The manifest order: by path.
pub open spec fn report_key() -> spec_fn(ReportView) -> Seq<char> {
    |r: ReportView| r.0
}

/// The order of the file blocks: by path.
pub open spec fn file_key() -> spec_fn(ExtractedView) -> Seq<char> {
    |f: ExtractedView| f.0
}

/// The report of the included files, in path order.
pub open spec fn included_manifest(o: Seq<FileOutcome>) -> Seq<ReportView> {
    sorted_by(included_reports(o), report_key())
}

/// The report of the excluded files, in path order.
pub open spec fn excluded_manifest(o: Seq<FileOutcome>) -> Seq<ReportView> {
    sorted_by(excluded_reports(o), report_key())
}

/// The included files, in path order.
pub open spec fn bundled_files(o: Seq<FileOutcome>) -> Seq<ExtractedView> {
    sorted_by(included_files(o), file_key())
}

/// Every outcome is reported exactly once, as an included or as an excluded
/// file.
pub proof fn law_every_file_reported_once(o: Seq<FileOutcome>)
    ensures
        included_files(o).len() + excluded_reports(o).len() == o.len(),
        included_manifest(o).len() + excluded_manifest(o).len() == o.len(),
    decreases o.len(),
{
    broadcast use vstd::seq_lib::group_to_multiset_ensures;

    if o.len() > 0 {
        law_every_file_reported_once(o.drop_last());
    }
    law_sorted_by_orders_and_permutes(included_reports(o), report_key());
    law_sorted_by_orders_and_permutes(excluded_reports(o), report_key());
    assert(included_manifest(o).len() == included_manifest(o).to_multiset().len());
    assert(excluded_manifest(o).len() == excluded_manifest(o).to_multiset().len());
}

/// The path an outcome reports.
pub open spec fn outcome_path(o: FileOutcome) -> Seq<char> {
    match o {
        FileOutcome::Excluded(r) => r@.0,
        FileOutcome::Included(f) => f@.0,
    }
}

/// The paths of some reports.
pub open spec fn report_paths(rs: Seq<ReportView>) -> Seq<Seq<char>> {
    rs.map_values(|r: ReportView| r.0)
}

/// The paths of the candidates.
pub open spec fn candidate_paths(cs: Seq<FileCandidate>) -> Seq<Seq<char>> {
    cs.map_values(|c: FileCandidate| c.rel_path@)
}

/// Each candidate is reported once: when every outcome carries the path of
/// its candidate (as `scan_file` and `finish_file` give it), the included and
/// the excluded reports together hold each candidate's path as often as the
/// candidates do.
pub proof fn law_each_candidate_reported_once(cs: Seq<FileCandidate>, o: Seq<FileOutcome>)
    requires
        o.len() == cs.len(),
        forall|i: int| 0 <= i < o.len() ==> outcome_path(#[trigger] o[i]) == cs[i].rel_path@,
    ensures
        report_paths(included_reports(o)).to_multiset().add(
            report_paths(excluded_reports(o)).to_multiset(),
        ) == candidate_paths(cs).to_multiset(),
    decreases o.len(),
{
    broadcast use vstd::seq_lib::group_to_multiset_ensures;

    if o.len() > 0 {
        let od = o.drop_last();
        let cd = cs.drop_last();
        assert forall|i: int| 0 <= i < od.len() implies outcome_path(#[trigger] od[i]) == cd[i].rel_path@ by {
            assert(od[i] == o[i]);
        }
        law_each_candidate_reported_once(cd, od);
        assert(candidate_paths(cs) =~= candidate_paths(cd).push(cs.last().rel_path@));
        assert(outcome_path(o[o.len() - 1]) == cs[cs.len() - 1].rel_path@);
        match o.last() {
            FileOutcome::Included(f) => {
                assert(included_files(o) == included_files(od).push(f@));
                assert(included_reports(o) =~= included_reports(od).push(included_report(f@)));
                assert(report_paths(included_reports(o)) =~= report_paths(included_reports(od)).push(
                    f@.0,
                ));
                assert(excluded_reports(o) == excluded_reports(od));
            },
            FileOutcome::Excluded(r) => {
                assert(excluded_reports(o) == excluded_reports(od).push(r@));
                assert(report_paths(excluded_reports(o)) =~= report_paths(excluded_reports(od)).push(
                    r@.0,
                ));
                assert(included_files(o) == included_files(od));
                assert(included_reports(o) == included_reports(od));
            },
        }
    } else {
        assert(report_paths(included_reports(o)) =~= Seq::<Seq<char>>::empty());
        assert(report_paths(excluded_reports(o)) =~= Seq::<Seq<char>>::empty());
        assert(candidate_paths(cs) =~= Seq::<Seq<char>>::empty());
    }
}

/// The manifest of included files lists exactly the files that get a block
/// in the bundle, in the same order, each with its path, bytes, tokens and
/// language.
pub proof fn law_manifest_lists_the_blocks(o: Seq<FileOutcome>)
    ensures
        included_manifest(o) == bundled_files(o).map_values(|f: ExtractedView| included_report(f)),
{
    let ir = |f: ExtractedView| included_report(f);
    lemma_sorted_by_map(included_files(o), file_key(), ir, report_key());
    assert(included_files(o).map_values(ir) =~= included_reports(o));
}

/// The manifests and the file blocks are in path order, and each holds every
/// file of its kind.
pub proof fn law_bundle_in_path_order(o: Seq<FileOutcome>)
    ensures
        is_sorted_by(included_manifest(o), report_key()),
        is_sorted_by(excluded_manifest(o), report_key()),
        is_sorted_by(bundled_files(o), file_key()),
        included_manifest(o).to_multiset() == included_reports(o).to_multiset(),
        excluded_manifest(o).to_multiset() == excluded_reports(o).to_multiset(),
        bundled_files(o).to_multiset() == included_files(o).to_multiset(),
{
    law_sorted_by_orders_and_permutes(included_reports(o), report_key());
    law_sorted_by_orders_and_permutes(excluded_reports(o), report_key());
    law_sorted_by_orders_and_permutes(included_files(o), file_key());
}

proof fn lemma_totals_prefix(o: Seq<FileOutcome>, k: int)
    requires
        0 <= k <= o.len(),
    ensures
        total_output_bytes(o.take(k)) <= total_output_bytes(o),
        total_tokens(o.take(k)) <= total_tokens(o),
    decreases o.len(),
{
    if k < o.len() {
        assert(o.drop_last().take(k) =~= o.take(k));
        lemma_totals_prefix(o.drop_last(), k);
    } else {
        assert(o.take(k) =~= o);
    }
}

/// Whether the totals of the outcomes fit in a `usize` (`generate_bundle`
/// needs them to).
pub fn outcome_totals_fit(outcomes: &[FileOutcome]) -> (r: bool)
    ensures
        r == totals_fit(outcomes@),
{
    let ghost o = outcomes@;
    let mut bytes: usize = 0;
    let mut tokens: usize = 0;
    let mut i: usize = 0;
    while i < outcomes.len()
        invariant
            i <= outcomes.len(),
            o == outcomes@,
            bytes == total_output_bytes(o.take(i as int)),
            tokens == total_tokens(o.take(i as int)),
        decreases outcomes.len() - i,
    {
        assert(o.take(i + 1).drop_last() =~= o.take(i as int));
        proof {
            lemma_totals_prefix(o, i + 1);
        }
        match &outcomes[i] {
            FileOutcome::Included(f) => {
                match bytes.checked_add(f.output_bytes) {
                    Some(b) => bytes = b,
                    None => return false,
                }
                match tokens.checked_add(f.estimated_tokens) {
                    Some(t) => tokens = t,
                    None => return false,
                }
            },
            FileOutcome::Excluded(_) => {},
        }
        i += 1;
    }
    assert(o.take(i as int) =~= o);
    true
}

/// The report of the files in the bundle and the bundle text, from the
/// outcomes of a scan. The files in the bundle and the manifest of included
/// files are in path order, as are the excluded files; the totals add up
/// the included files. The text is stamped with `generated_unix` seconds.
pub fn generate_bundle(config: &ScanConfig, outcomes: Vec<FileOutcome>, generated_unix: u64) -> (r: Result<GenerationResult>)
    requires
        totals_fit(outcomes@),
    ensures
        r matches Ok(g) && {
            &&& report_views(g.report.included_files@) == included_manifest(outcomes@)
            &&& report_views(g.report.excluded_files@) == excluded_manifest(outcomes@)
            &&& g.report.total_bytes == total_output_bytes(outcomes@)
            &&& g.report.total_tokens == total_tokens(outcomes@)
            &&& g.report.warnings@.len() == 0
            &&& g.output.contents@ == plain_bundle(
                *config,
                bundled_files(outcomes@),
                included_manifest(outcomes@),
                excluded_manifest(outcomes@),
                g.report.total_tokens,
                generated_unix,
            )
        },
{
    let ghost input = outcomes@;
    let n = outcomes.len();
    let mut pending = reversed(outcomes);
    let mut extracted: Vec<ExtractedFile> = Vec::new();
    let mut included: Vec<FileReport> = Vec::new();
    let mut excluded: Vec<FileReport> = Vec::new();
    let mut total_bytes: usize = 0;
    let mut total_tok: usize = 0;
    let mut taken: usize = 0;
    assert(input.take(0) =~= Seq::<FileOutcome>::empty());
    assert(extracted_views(extracted@) =~= Seq::<ExtractedView>::empty());
    assert(report_views(included@) =~= Seq::<ReportView>::empty());
    assert(report_views(excluded@) =~= Seq::<ReportView>::empty());
    while pending.len() > 0
        invariant
            taken + pending.len() == n,
            n == input.len(),
            totals_fit(input),
            forall|k: int| 0 <= k < pending.len() ==> #[trigger] pending@[k] == input[n - 1 - k],
            extracted_views(extracted@) == included_files(input.take(taken as int)),
            report_views(included@) == included_reports(input.take(taken as int)),
            report_views(excluded@) == excluded_reports(input.take(taken as int)),
            total_bytes == total_output_bytes(input.take(taken as int)),
            total_tok == total_tokens(input.take(taken as int)),
        decreases pending.len(),
    {
        let o = pending.pop().unwrap();
        let ghost before = input.take(taken as int);
        assert(o == input[taken as int]);
        assert(input.take(taken + 1).drop_last() =~= before);
        proof {
            lemma_totals_prefix(input, taken + 1);
        }
        match o {
            FileOutcome::Included(f) => {
                total_bytes = total_bytes + f.output_bytes;
                total_tok = total_tok + f.estimated_tokens;
                let ghost ev = extracted_views(extracted@);
                let ghost iv = report_views(included@);
                let rep = FileReport::included(
                    f.rel_path.clone(),
                    f.output_bytes,
                    f.estimated_tokens,
                    f.language.clone(),
                );
                included.push(rep);
                extracted.push(f);
                assert(extracted_views(extracted@) =~= ev.push(f@));
                assert(report_views(included@) =~= iv.push(included_report(f@)));
                assert(included_files(input.take(taken + 1)) == included_files(before).push(f@));
                assert(included_reports(input.take(taken + 1)) =~= included_reports(before).push(
                    included_report(f@),
                ));
            },
            FileOutcome::Excluded(rep) => {
                let ghost xv = report_views(excluded@);
                excluded.push(rep);
                assert(report_views(excluded@) =~= xv.push(rep@));
            },
        }
        taken += 1;
    }
    assert(input.take(n as int) =~= input);
    let ghost ex0 = extracted@;
    let ghost in0 = included@;
    let ghost xs0 = excluded@;
    let extracted = sort_by_key(extracted);
    let included = sort_by_key(included);
    let excluded = sort_by_key(excluded);
    proof {
        let fe = |x: ExtractedFile| x@;
        let fr = |x: FileReport| x@;
        lemma_sorted_by_key_map(ex0, fe, file_key());
        lemma_sorted_by_key_map(in0, fr, report_key());
        lemma_sorted_by_key_map(xs0, fr, report_key());
        assert(extracted_views(ex0) =~= ex0.map_values(fe));
        assert(extracted_views(extracted@) =~= extracted@.map_values(fe));
        assert(report_views(in0) =~= in0.map_values(fr));
        assert(report_views(included@) =~= included@.map_values(fr));
        assert(report_views(xs0) =~= xs0.map_values(fr));
        assert(report_views(excluded@) =~= excluded@.map_values(fr));
    }
    let report = BundleReport {
        included_files: included,
        excluded_files: excluded,
        total_bytes,
        total_tokens: total_tok,
        warnings: Vec::new(),
    };
    let output = match format_bundle(config, extracted.as_slice(), &report, generated_unix) {
        Ok(b) => b,
        Err(e) => return Err(e),
    };
    Ok(GenerationResult { output, report })
}

} // verus!
