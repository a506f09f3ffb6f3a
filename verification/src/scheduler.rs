//! The concurrency scheduler's verified core: the cancellation gate
//! checked before each dispatch, the whole-batch short circuit, and
//! the aggregation of per-item outcomes into a run summary.

use vstd::prelude::*;
use crate::download::DownloadResult;

verus! {

/// Checked before an item is dispatched: once cancellation is
/// observed the item resolves to `Aborted` directly, and no request
/// is issued for it.
pub fn dispatch_gate(cancelled: bool, id: u32) -> (r: Option<(u32, DownloadResult)>)
    ensures
        cancelled ==> (r matches Some(p) && p.0 == id && p.1 == DownloadResult::Aborted),
        !cancelled ==> r is None,
{
    if cancelled {
        Some((id, DownloadResult::Aborted))
    } else {
        None
    }
}

/// The outcomes of a batch whose cancellation flag is set before any
/// item starts: every item resolves to `Aborted`, one outcome per
/// item, and no request is issued for any of them.
pub fn aborted_batch(ids: &Vec<u32>) -> (r: Vec<(u32, DownloadResult)>)
    ensures
        r@.len() == ids@.len(),
        forall|i: int|
            0 <= i < ids@.len() ==> r@[i].0 == ids@[i] && r@[i].1 == DownloadResult::Aborted,
{
    let mut out: Vec<(u32, DownloadResult)> = Vec::new();
    let n = ids.len();
    let mut i: usize = 0;
    while i < n
        invariant
            0 <= i <= n,
            n == ids@.len(),
            out@.len() == i,
            forall|j: int| 0 <= j < i ==> out@[j].0 == ids@[j] && out@[j].1 == DownloadResult::Aborted,
        decreases n - i,
    {
        out.push((ids[i], DownloadResult::Aborted));
        i = i + 1;
    }
    out
}

/// How many outcomes in the sequence satisfy the predicate.
pub open spec fn count_outcomes(
    rs: Seq<(u32, DownloadResult)>,
    p: spec_fn(DownloadResult) -> bool,
) -> int
    decreases rs.len(),
{
    if rs.len() == 0 {
        0
    } else {
        count_outcomes(rs.drop_last(), p) + if p(rs.last().1) {
            1int
        } else {
            0int
        }
    }
}

/// The index of the first `Aborted` outcome, or the length of the
/// sequence when there is none; outcomes from that point on are not
/// reported item by item.
pub open spec fn first_abort(rs: Seq<(u32, DownloadResult)>) -> int
    decreases rs.len(),
{
    if rs.len() == 0 {
        0
    } else if rs[0].1 is Aborted {
        0
    } else {
        1 + first_abort(rs.drop_first())
    }
}

/// The ids and reasons of the failed outcomes, in order.
pub open spec fn failed_list(rs: Seq<(u32, DownloadResult)>) -> Seq<(u32, Seq<char>)>
    decreases rs.len(),
{
    if rs.len() == 0 {
        Seq::empty()
    } else {
        failed_list(rs.drop_last()) + (match rs.last().1 {
            DownloadResult::Failed(m) => seq![(rs.last().0, m@)],
            _ => Seq::empty(),
        })
    }
}

proof fn lemma_first_abort_at(rs: Seq<(u32, DownloadResult)>, k: int)
    requires
        0 <= k <= rs.len(),
        forall|j: int| 0 <= j < k ==> !(rs[j].1 is Aborted),
        k < rs.len() ==> rs[k].1 is Aborted,
    ensures
        first_abort(rs) == k,
    decreases k,
{
    if k > 0 {
        lemma_first_abort_at(rs.drop_first(), k - 1);
    }
}

proof fn lemma_count_proper_prefix(rs: Seq<(u32, DownloadResult)>, i: int)
    requires
        0 <= i < rs.len(),
    ensures
        forall|p: spec_fn(DownloadResult) -> bool|
            count_outcomes(#[trigger] rs.take(i + 1), p) == count_outcomes(rs.take(i), p) + if p(
                rs[i].1,
            ) {
                1int
            } else {
                0int
            },
        failed_list(rs.take(i + 1)) == failed_list(rs.take(i)) + (match rs[i].1 {
            DownloadResult::Failed(m) => seq![(rs[i].0, m@)],
            _ => Seq::empty(),
        }),
{
    assert(rs.take(i + 1).drop_last() =~= rs.take(i));
    assert(rs.take(i + 1).last() == rs[i]);
}

/// How a finished batch is reported: counts of the outcomes seen
/// before the first abort, the failed items with their reasons, and
/// whether the batch was aborted.
pub struct Summary {
    pub downloaded: usize,
    pub skipped: usize,
    pub failed: usize,
    pub aborted: bool,
    pub failed_items: Vec<(u32, String)>,
}

impl Summary {
    /// Whether this summary reports exactly the outcomes of `rs` up
    /// to the first abort.
    pub open spec fn describes(self, rs: Seq<(u32, DownloadResult)>) -> bool {
        let k = first_abort(rs);
        &&& self.aborted == (k < rs.len())
        &&& self.downloaded == count_outcomes(rs.take(k), |r: DownloadResult| r is Success)
        &&& self.skipped == count_outcomes(rs.take(k), |r: DownloadResult| r is Skipped)
        &&& self.failed == count_outcomes(rs.take(k), |r: DownloadResult| r is Failed)
        &&& self.failed_items.deep_view() == failed_list(rs.take(k))
    }

    /// Whether the run still writes the index: always after a normal
    /// finish, and after an abort only when something had already
    /// completed.
    pub fn should_write_index(&self) -> (r: bool)
        ensures
            r == (!self.aborted || self.downloaded > 0),
    {
        !self.aborted || self.downloaded > 0
    }
}

/// Aggregates a batch's outcomes: counts successes, skips and
/// failures in order, recording each failure's id and reason, and
/// stops reporting at the first aborted item.
pub fn summarize(results: &Vec<(u32, DownloadResult)>) -> (s: Summary)
    ensures
        s.describes(results@),
{
    let n = results.len();
    let mut downloaded: usize = 0;
    let mut skipped: usize = 0;
    let mut failed: usize = 0;
    let mut failed_items: Vec<(u32, String)> = Vec::new();
    let mut i: usize = 0;
    proof {
        assert(results@.take(0) =~= Seq::<(u32, DownloadResult)>::empty());
        assert(failed_items.deep_view() =~= failed_list(results@.take(0)));
    }
    while i < n
        invariant
            0 <= i <= n,
            n == results@.len(),
            downloaded + skipped + failed <= i,
            forall|j: int| 0 <= j < i ==> !(results@[j].1 is Aborted),
            downloaded == count_outcomes(
                results@.take(i as int),
                |r: DownloadResult| r is Success,
            ),
            skipped == count_outcomes(results@.take(i as int), |r: DownloadResult| r is Skipped),
            failed == count_outcomes(results@.take(i as int), |r: DownloadResult| r is Failed),
            failed_items.deep_view() == failed_list(results@.take(i as int)),
        decreases n - i,
    {
        proof {
            lemma_count_proper_prefix(results@, i as int);
        }
        let item = &results[i];
        match &item.1 {
            DownloadResult::Success(_) => {
                downloaded = downloaded + 1;
            },
            DownloadResult::Skipped(_) => {
                skipped = skipped + 1;
            },
            DownloadResult::Failed(m) => {
                failed = failed + 1;
                let entry = (item.0, m.clone());
                let ghost pre = failed_items@;
                let ghost pre_deep = failed_items.deep_view();
                let ghost ev = (entry.0, entry.1@);
                failed_items.push(entry);
                proof {
                    let rhs = failed_list(results@.take(i + 1));
                    assert(pre_deep.len() == pre.len());
                    assert(failed_items.deep_view().len() == failed_items@.len());
                    assert(failed_items@.len() == pre.len() + 1);
                    assert(rhs.len() == pre_deep.len() + 1);
                    assert forall|k: int| 0 <= k < rhs.len() implies failed_items.deep_view()[k]
                        == rhs[k] by {
                        assert(failed_items.deep_view()[k] == (
                            failed_items@[k].0,
                            failed_items@[k].1@,
                        ));
                        if k < pre.len() {
                            assert(failed_items@[k] == pre[k]);
                            assert(pre_deep[k] == (pre[k].0, pre[k].1@));
                        } else {
                            assert(failed_items@[k] == entry);
                        }
                    }
                    assert(failed_items.deep_view() =~= rhs);
                }
            },
            DownloadResult::Aborted => {
                proof {
                    lemma_first_abort_at(results@, i as int);
                }
                return Summary { downloaded, skipped, failed, aborted: true, failed_items };
            },
        }
        i = i + 1;
    }
    proof {
        lemma_first_abort_at(results@, n as int);
        assert(results@.take(n as int) =~= results@);
    }
    Summary { downloaded, skipped, failed, aborted: false, failed_items }
}

} // verus!
