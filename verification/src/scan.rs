//! A scan over the walk's candidates, one step at a time.
//!
//! The caller reads files; this module says which file to read next and
//! what to make of what was read. Each step takes what the last read gave
//! and returns the next read it needs, until every candidate has its
//! outcome, in candidate order.
use vstd::prelude::*;

use crate::bundle::{
    candidate_paths, excluded_manifest, finish_file, finished_outcome, included_manifest,
    law_bundle_in_path_order, law_each_candidate_reported_once, left_out_outcome, outcome_path,
    report_paths, scan_file, FileOutcome, ScanStep,
};
use crate::classify::{classification, needs_content_sniff, reads_content, FileClassification};
use crate::config::ScanConfig;
use crate::discover::FileCandidate;
use crate::report::ReportView;

verus! {

/// How far a scan has got.
pub struct ScanProgress {
    /// The outcomes of the candidates decided so far, in candidate order.
    pub outcomes: Vec<FileOutcome>,
    /// The classification of the next candidate, while its contents are
    /// awaited.
    pub awaiting: Option<FileClassification>,
}

/// The read a scan needs next.
pub enum ScanRequest {
    /// The first bytes (one read of up to 8192) of the file at this path.
    Head(String),
    /// The whole file at this path.
    Contents(String),
    /// Every candidate has its outcome.
    Finished,
}

/// What the last read gave.
pub enum ScanAnswer {
    /// Nothing was read yet.
    Start,
    /// The first bytes of the file asked for.
    Head(Vec<u8>),
    /// The whole file asked for, or the message of the read error.
    Contents(std::result::Result<Vec<u8>, String>),
}

/// Every candidate decided so far has one outcome, in candidate order, with
/// its path; a classification awaits contents only while a candidate is left.
pub open spec fn progress_follows(cands: Seq<FileCandidate>, p: ScanProgress) -> bool {
    &&& p.outcomes@.len() <= cands.len()
    &&& p.awaiting is Some ==> p.outcomes@.len() < cands.len()
    &&& forall|i: int| 0 <= i < p.outcomes@.len() ==> outcome_path(#[trigger] p.outcomes@[i]) == cands[i].rel_path@
}

/// The answer is the first bytes of the next file, which its classification
/// needs.
pub open spec fn answers_head(config: ScanConfig, cands: Seq<FileCandidate>, p: ScanProgress, answer: ScanAnswer) -> bool {
    &&& answer is Head
    &&& p.awaiting is None
    &&& p.outcomes@.len() < cands.len()
    &&& reads_content(config, cands[p.outcomes@.len() as int])
}

/// The answer is the contents of the file whose classification awaits them.
pub open spec fn answers_contents(p: ScanProgress, answer: ScanAnswer) -> bool {
    answer is Contents && p.awaiting is Some
}

/// How many outcomes the answer itself decides: one for contents, and one
/// for first bytes that leave the file out.
pub open spec fn decided_by_answer(config: ScanConfig, cands: Seq<FileCandidate>, p: ScanProgress, answer: ScanAnswer) -> int {
    if answers_contents(p, answer) {
        1
    } else if answers_head(config, cands, p, answer) && !classification(
        config,
        cands[p.outcomes@.len() as int],
        answer->Head_0@,
    ).2 {
        1
    } else {
        0
    }
}

impl ScanProgress {
    /// A scan that has decided nothing yet.
    pub fn new() -> (r: ScanProgress)
        ensures
            r.outcomes@.len() == 0,
            r.awaiting is None,
    {
        ScanProgress { outcomes: Vec::new(), awaiting: None }
    }
}

/// One step of a scan. The answer is used when it is what the last request
/// asked for (otherwise it is ignored): first bytes classify the next
/// candidate, which is either left out or awaits its contents; contents
/// finish the awaiting candidate. Then the candidates whose classification
/// needs no bytes are classified in turn until one needs a read. The request
/// is the read needed next: the contents of an included file, the first
/// bytes of a file whose kind they decide, or none when all are decided.
#[verifier::loop_isolation(false)]
pub fn scan_step(
    config: &ScanConfig,
    candidates: &Vec<FileCandidate>,
    progress: &mut ScanProgress,
    answer: ScanAnswer,
) -> (r: ScanRequest)
    requires
        progress_follows(candidates@, *old(progress)),
    ensures
        ({
            let i0 = old(progress).outcomes@.len() as int;
            let j0 = i0 + decided_by_answer(*config, candidates@, *old(progress), answer);
            let m = final(progress).outcomes@.len() as int;
            &&& progress_follows(candidates@, *final(progress))
            &&& j0 <= m
            &&& final(progress).outcomes@.subrange(0, i0) == old(progress).outcomes@
            &&& (answers_head(*config, candidates@, *old(progress), answer) && j0 == i0 + 1)
                ==> left_out_outcome(*config, candidates@[i0], answer->Head_0@, final(progress).outcomes@[i0])
            &&& answers_contents(*old(progress), answer) ==> finished_outcome(
                *config,
                candidates@[i0],
                old(progress).awaiting->0,
                answer->Contents_0,
                final(progress).outcomes@[i0],
            )
            &&& forall|k: int| j0 <= k < m ==> !reads_content(*config, #[trigger] candidates@[k])
                && left_out_outcome(*config, candidates@[k], Seq::empty(), final(progress).outcomes@[k])
            &&& (old(progress).awaiting is Some && !answers_contents(*old(progress), answer)) ==> (
                final(progress).outcomes@ == old(progress).outcomes@ && final(progress).awaiting
                == old(progress).awaiting)
            &&& !(old(progress).awaiting is Some && !answers_contents(*old(progress), answer)) ==> (
                final(progress).awaiting matches Some(a) ==> a@ == classification(
                    *config,
                    candidates@[m],
                    if answers_head(*config, candidates@, *old(progress), answer) && m == i0 {
                        answer->Head_0@
                    } else {
                        Seq::empty()
                    },
                ) && a@.2)
            &&& (r is Finished) <==> m == candidates@.len()
            &&& (r is Contents) <==> final(progress).awaiting is Some
            &&& r matches ScanRequest::Contents(p) ==> p@ == candidates@[m].abs_path@
            &&& r matches ScanRequest::Head(p) ==> p@ == candidates@[m].abs_path@ && m
                < candidates@.len() && reads_content(*config, candidates@[m])
                && final(progress).awaiting is None
        }),
{
    let n = candidates.len();
    let ghost i0 = progress.outcomes@.len() as int;
    let ghost start = *progress;
    match answer {
        ScanAnswer::Head(head) => {
            let i = progress.outcomes.len();
            if progress.awaiting.is_none() && i < n && needs_content_sniff(config, &candidates[i]) {
                match scan_file(config, &candidates[i], head.as_slice()) {
                    ScanStep::Decided(o) => {
                        progress.outcomes.push(o);
                    },
                    ScanStep::NeedsContent(cl) => {
                        progress.awaiting = Some(cl);
                    },
                }
            }
        },
        ScanAnswer::Contents(content) => {
            let i = progress.outcomes.len();
            let decided = match &progress.awaiting {
                Some(cl) => Some(finish_file(config, &candidates[i], cl, &content)),
                None => None,
            };
            if let Some(o) = decided {
                progress.outcomes.push(o);
                progress.awaiting = None;
            }
        },
        ScanAnswer::Start => {},
    }
    let ghost j0 = progress.outcomes@.len() as int;
    let ghost after = *progress;
    assert(progress.outcomes@.subrange(0, i0) =~= start.outcomes@);
    assert(j0 == i0 + decided_by_answer(*config, candidates@, start, answer));
    assert(answers_head(*config, candidates@, start, answer) ==> (j0 == i0 + 1
        || after.awaiting is Some));
    assert(!(start.awaiting is Some && !answers_contents(start, answer)) ==> (after.awaiting matches Some(
        a,
    ) ==> answers_head(*config, candidates@, start, answer) && j0 == i0 && a@ == classification(
        *config,
        candidates@[i0],
        answer->Head_0@,
    ) && a@.2));
    assert((start.awaiting is Some && !answers_contents(start, answer)) ==> (after.outcomes@
        == start.outcomes@ && after.awaiting == start.awaiting));
    let empty: Vec<u8> = Vec::new();
    loop
        invariant
            n == candidates@.len(),
            empty@.len() == 0,
            progress_follows(candidates@, *progress),
            j0 <= progress.outcomes@.len(),
            progress.outcomes@.subrange(0, j0) == after.outcomes@,
            forall|k: int| 0 <= k < j0 ==> #[trigger] progress.outcomes@[k] == after.outcomes@[k],
            progress.awaiting is Some ==> (progress.outcomes@.len() == j0 && progress.awaiting
                == after.awaiting),
            after.awaiting is Some ==> (progress.outcomes@ == after.outcomes@ && progress.awaiting
                == after.awaiting),
            forall|k: int| j0 <= k < progress.outcomes@.len() ==> !reads_content(*config, #[trigger] candidates@[k])
                && left_out_outcome(*config, candidates@[k], Seq::empty(), progress.outcomes@[k]),
            after.awaiting is None ==> (progress.awaiting matches Some(a) ==> a@ == classification(
                *config,
                candidates@[progress.outcomes@.len() as int],
                Seq::empty(),
            ) && a@.2 && !reads_content(*config, candidates@[progress.outcomes@.len() as int])),
        decreases 2 * (n - progress.outcomes@.len()) + if progress.awaiting is None {
            1int
        } else {
            0int
        },
    {
        let i = progress.outcomes.len();
        if progress.awaiting.is_some() {
            return ScanRequest::Contents(candidates[i].abs_path.clone());
        }
        if i >= n {
            return ScanRequest::Finished;
        }
        if needs_content_sniff(config, &candidates[i]) {
            return ScanRequest::Head(candidates[i].abs_path.clone());
        }
        match scan_file(config, &candidates[i], empty.as_slice()) {
            ScanStep::Decided(o) => {
                progress.outcomes.push(o);
                assert(progress.outcomes@.subrange(0, j0) =~= after.outcomes@);
                assert forall|k: int| 0 <= k < j0 implies #[trigger] progress.outcomes@[k]
                    == after.outcomes@[k] by {
                    assert(progress.outcomes@[k] == progress.outcomes@.subrange(0, j0)[k]);
                }
            },
            ScanStep::NeedsContent(cl) => {
                progress.awaiting = Some(cl);
            },
        }
    }
}

/// A permutation stays one when each element is mapped.
proof fn lemma_map_keeps_permutation<A, B>(a: Seq<A>, b: Seq<A>, f: spec_fn(A) -> B)
    requires
        a.to_multiset() == b.to_multiset(),
    ensures
        a.map_values(f).to_multiset() == b.map_values(f).to_multiset(),
    decreases a.len(),
{
    broadcast use vstd::seq_lib::group_to_multiset_ensures;

    vstd::seq_lib::to_multiset_len(a);
    vstd::seq_lib::to_multiset_len(b);
    if a.len() == 0 {
        assert(b.len() == 0);
        assert(a.map_values(f) =~= b.map_values(f));
    } else {
        let x = a.last();
        let ad = a.drop_last();
        assert(ad.push(x) =~= a);
        assert(b.to_multiset().count(x) > 0);
        assert(b.contains(x));
        let i = choose|i: int| 0 <= i < b.len() && b[i] == x;
        let bd = b.remove(i);
        assert(ad.to_multiset() =~= b.to_multiset().remove(x));
        vstd::seq_lib::to_multiset_remove(b, i);
        lemma_map_keeps_permutation(ad, bd, f);
        assert(a.map_values(f) =~= ad.map_values(f).push(f(x)));
        assert(b.map_values(f) =~= bd.map_values(f).insert(i, f(x)));
        vstd::seq_lib::to_multiset_insert(bd.map_values(f), i, f(x));
    }
}

/// A finished scan reports each candidate once: the manifests of included
/// and excluded files together hold each candidate's path as often as the
/// candidates do.
pub proof fn law_scan_reports_each_candidate_once(cands: Seq<FileCandidate>, p: ScanProgress)
    requires
        progress_follows(cands, p),
        p.outcomes@.len() == cands.len(),
    ensures
        report_paths(included_manifest(p.outcomes@)).to_multiset().add(
            report_paths(excluded_manifest(p.outcomes@)).to_multiset(),
        ) == candidate_paths(cands).to_multiset(),
{
    let o = p.outcomes@;
    law_each_candidate_reported_once(cands, o);
    law_bundle_in_path_order(o);
    let path = |r: ReportView| r.0;
    lemma_map_keeps_permutation(included_manifest(o), crate::bundle::included_reports(o), path);
    lemma_map_keeps_permutation(excluded_manifest(o), crate::bundle::excluded_reports(o), path);
}

} // verus!
