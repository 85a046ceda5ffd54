//! The bounded-concurrency download scheduler and the batch summary.
//!
//! Workers are fully independent and may finish in any order; the batch
//! only decides which item starts next, bounds how many run at once,
//! and aggregates per-item outcomes. An error at any stage belongs to one
//! item alone: it is recorded in the summary and never aborts the batch.

use vstd::prelude::*;
use crate::digits::dec_chars;
use crate::errors::BandcampError;
use crate::item::{LibraryItem, LibraryItemModel};

verus! {

/// One lifecycle report from a worker to the progress consumer, carried
/// over a channel rather than dispatched through shared UI state. The
/// consumer implements the rendering; the core only emits these, in line
/// with the corresponding event, and never buffers bursts.
#[derive(Debug, Clone)]
pub enum ProgressEvent {
    /// The download began; the total size where the server reported one.
    Started { total: Option<u64> },
    /// The final URL is being resolved.
    FetchingUrl,
    /// Bytes written so far, and the total where known.
    Progress { downloaded: u64, total: Option<u64> },
    /// The archive is being unpacked.
    Extracting,
    /// The item finished.
    Completed,
    /// The item failed, with its error description.
    Failed { error: String },
}

/// One item's terminal outcome, as its worker reports it.
#[derive(Debug, Clone)]
pub enum ItemOutcome {
    /// The on-disk path of the finished download.
    Success { path: String },
    /// The description of what failed.
    Failure { error: String },
}

pub enum ItemOutcomeModel {
    Success { path: Seq<char> },
    Failure { error: Seq<char> },
}

impl View for ItemOutcome {
    type V = ItemOutcomeModel;

    open spec fn view(&self) -> ItemOutcomeModel {
        match self {
            ItemOutcome::Success { path } => ItemOutcomeModel::Success { path: path@ },
            ItemOutcome::Failure { error } => ItemOutcomeModel::Failure { error: error@ },
        }
    }
}

/// The recorded description of one item's failure: the item's own title,
/// then the error.
pub open spec fn failure_text_spec(it: LibraryItemModel, error: Seq<char>) -> Seq<char> {
    it.title + ": "@ + error
}

/// The successes a batch reports, in item order.
pub open spec fn succeeded_spec(
    items: Seq<LibraryItemModel>,
    results: Seq<ItemOutcomeModel>,
) -> Seq<(LibraryItemModel, Seq<char>)>
    decreases results.len(),
{
    if results.len() == 0 || items.len() == 0 {
        Seq::empty()
    } else {
        match results[0] {
            ItemOutcomeModel::Success { path } => seq![(items[0], path)] + succeeded_spec(
                items.skip(1),
                results.skip(1),
            ),
            ItemOutcomeModel::Failure { error } => succeeded_spec(items.skip(1), results.skip(1)),
        }
    }
}

/// The failures a batch reports, in item order, each described by the
/// item's title and the error.
pub open spec fn failed_spec(
    items: Seq<LibraryItemModel>,
    results: Seq<ItemOutcomeModel>,
) -> Seq<(LibraryItemModel, Seq<char>)>
    decreases results.len(),
{
    if results.len() == 0 || items.len() == 0 {
        Seq::empty()
    } else {
        match results[0] {
            ItemOutcomeModel::Success { path } => failed_spec(items.skip(1), results.skip(1)),
            ItemOutcomeModel::Failure { error } => seq![
                (items[0], failure_text_spec(items[0], error)),
            ] + failed_spec(items.skip(1), results.skip(1)),
        }
    }
}

pub open spec fn count_failures(results: Seq<ItemOutcomeModel>) -> nat
    decreases results.len(),
{
    if results.len() == 0 {
        0
    } else {
        (match results[0] {
            ItemOutcomeModel::Failure { error } => 1 as nat,
            ItemOutcomeModel::Success { path } => 0 as nat,
        }) + count_failures(results.skip(1))
    }
}

pub open spec fn pairs_view(v: Seq<(LibraryItem, String)>) -> Seq<(LibraryItemModel, Seq<char>)> {
    v.map_values(|p: (LibraryItem, String)| (p.0@, p.1@))
}

/// Two ordered lists: successes with their paths, failures with their
/// descriptions. Every item submitted to a finished batch stands in
/// exactly one of the two.
#[derive(Debug)]
pub struct DownloadSummary {
    pub succeeded: Vec<(LibraryItem, String)>,
    pub failed: Vec<(LibraryItem, String)>,
}

impl DownloadSummary {
    pub fn total(&self) -> (r: usize)
        requires
            self.succeeded@.len() + self.failed@.len() <= usize::MAX,
        ensures
            r == self.succeeded@.len() + self.failed@.len(),
    {
        self.succeeded.len() + self.failed.len()
    }

    pub fn success_count(&self) -> (r: usize)
        ensures
            r == self.succeeded@.len(),
    {
        self.succeeded.len()
    }

    pub fn failure_count(&self) -> (r: usize)
        ensures
            r == self.failed@.len(),
    {
        self.failed.len()
    }
}

fn failure_text(it: &LibraryItem, error: &String) -> (r: String)
    ensures
        r@ == failure_text_spec(it@, error@),
{
    it.title.clone().concat(": ").concat(error.as_str())
}

/// Builds the batch summary from per-item outcomes, in item order: a
/// success carries its path; a failure carries the item's title and the
/// error; nothing is dropped.
pub fn summarize(items: &Vec<LibraryItem>, results: &Vec<ItemOutcome>) -> (r: DownloadSummary)
    requires
        items@.len() == results@.len(),
    ensures
        pairs_view(r.succeeded@) == succeeded_spec(
            items@.map_values(|it: LibraryItem| it@),
            results@.map_values(|o: ItemOutcome| o@),
        ),
        pairs_view(r.failed@) == failed_spec(
            items@.map_values(|it: LibraryItem| it@),
            results@.map_values(|o: ItemOutcome| o@),
        ),
{
    let ghost ims = items@.map_values(|it: LibraryItem| it@);
    let ghost rms = results@.map_values(|o: ItemOutcome| o@);
    let mut succeeded: Vec<(LibraryItem, String)> = Vec::new();
    let mut failed: Vec<(LibraryItem, String)> = Vec::new();
    let mut k: usize = 0;
    proof {
        assert(ims.skip(0) =~= ims);
        assert(rms.skip(0) =~= rms);
        assert(pairs_view(succeeded@) =~= Seq::<(LibraryItemModel, Seq<char>)>::empty());
        assert(pairs_view(failed@) =~= Seq::<(LibraryItemModel, Seq<char>)>::empty());
    }
    while k < items.len()
        invariant
            k <= items@.len(),
            items@.len() == results@.len(),
            ims == items@.map_values(|it: LibraryItem| it@),
            rms == results@.map_values(|o: ItemOutcome| o@),
            succeeded_spec(ims, rms) == pairs_view(succeeded@) + succeeded_spec(
                ims.skip(k as int),
                rms.skip(k as int),
            ),
            failed_spec(ims, rms) == pairs_view(failed@) + failed_spec(
                ims.skip(k as int),
                rms.skip(k as int),
            ),
        decreases items@.len() - k,
    {
        proof {
            assert(ims.skip(k as int)[0] == ims[k as int]);
            assert(rms.skip(k as int)[0] == rms[k as int]);
            assert(ims.skip(k as int).skip(1) =~= ims.skip(k + 1));
            assert(rms.skip(k as int).skip(1) =~= rms.skip(k + 1));
        }
        match &results[k] {
            ItemOutcome::Success { path } => {
                succeeded.push((items[k].duplicate(), path.clone()));
                proof {
                    assert(items@[k as int]@ == ims[k as int]);
                    assert(pairs_view(succeeded@) =~= pairs_view(succeeded@.drop_last()) + seq![
                        (ims[k as int], path@),
                    ]);
                }
            },
            ItemOutcome::Failure { error } => {
                let text = failure_text(&items[k], error);
                failed.push((items[k].duplicate(), text));
                proof {
                    assert(items@[k as int]@ == ims[k as int]);
                    assert(pairs_view(failed@) =~= pairs_view(failed@.drop_last()) + seq![
                        (ims[k as int], failure_text_spec(ims[k as int], error@)),
                    ]);
                }
            },
        }
        k += 1;
    }
    proof {
        assert(ims.skip(k as int) =~= Seq::<LibraryItemModel>::empty());
        assert(rms.skip(k as int) =~= Seq::<ItemOutcomeModel>::empty());
        assert(pairs_view(succeeded@) + Seq::<(LibraryItemModel, Seq<char>)>::empty() =~= pairs_view(
            succeeded@,
        ));
        assert(pairs_view(failed@) + Seq::<(LibraryItemModel, Seq<char>)>::empty() =~= pairs_view(
            failed@,
        ));
    }
    DownloadSummary { succeeded, failed }
}

/// The name of the ephemeral file one item streams into: keyed by the
/// item's identifier, so concurrent workers never collide on temporary
/// paths.
pub fn temp_file_name(id: &str) -> (r: String)
    ensures
        r@ == "."@ + id@ + ".tmp"@,
{
    String::from_str(".").concat(id).concat(".tmp")
}

/// The error one item's asset request maps to when it answers outside the
/// success range.
pub fn asset_status_error(status: u16) -> (r: BandcampError)
    requires
        !crate::resolver::status_success(status),
    ensures
        r@ == crate::errors::ErrorModel::Download("HTTP "@ + dec_chars(status as nat)),
{
    let digits = crate::chars::to_string(&crate::digits::u64_to_chars(status as u64));
    BandcampError::DownloadError(String::from_str("HTTP ").concat(digits.as_str()))
}

/// The lists a summary reports partition the batch: together they hold as
/// many entries as the batch had items.
pub proof fn lemma_summary_counts(items: Seq<LibraryItemModel>, results: Seq<ItemOutcomeModel>)
    requires
        items.len() == results.len(),
    ensures
        failed_spec(items, results).len() == count_failures(results),
        succeeded_spec(items, results).len() == results.len() - count_failures(results),
        count_failures(results) <= results.len(),
    decreases results.len(),
{
    if results.len() > 0 {
        lemma_summary_counts(items.skip(1), results.skip(1));
    }
}

/// Every failure entry's description carries that item's own title as its
/// opening characters.
pub proof fn lemma_failure_names_item(items: Seq<LibraryItemModel>, results: Seq<ItemOutcomeModel>)
    ensures
        forall|j: int|
            0 <= j < failed_spec(items, results).len() ==> {
                let entry = #[trigger] failed_spec(items, results)[j];
                entry.1.subrange(0, entry.0.title.len() as int) == entry.0.title
            },
    decreases results.len(),
{
    if results.len() == 0 || items.len() == 0 {
    } else {
        lemma_failure_names_item(items.skip(1), results.skip(1));
        let f = failed_spec(items, results);
        let rest = failed_spec(items.skip(1), results.skip(1));
        assert forall|j: int| 0 <= j < f.len() implies {
            let entry = #[trigger] f[j];
            entry.1.subrange(0, entry.0.title.len() as int) == entry.0.title
        } by {
            match results[0] {
                ItemOutcomeModel::Failure { error } => {
                    if j == 0 {
                        assert(f[0] == (items[0], failure_text_spec(items[0], error)));
                        assert(failure_text_spec(items[0], error).subrange(
                            0,
                            items[0].title.len() as int,
                        ) =~= items[0].title);
                    } else {
                        assert(f[j] == rest[j - 1]);
                    }
                },
                ItemOutcomeModel::Success { path } => {
                    assert(f[j] == rest[j]);
                },
            }
        }
    }
}

/// Partial-failure isolation: a finished batch of M items in which exactly
/// one outcome is a failure reports M - 1 successes and one failure, and
/// the failing entry's description names that item's own title.
pub proof fn lemma_partial_failure_isolation(
    items: Seq<LibraryItemModel>,
    results: Seq<ItemOutcomeModel>,
)
    requires
        items.len() == results.len(),
        count_failures(results) == 1,
    ensures
        failed_spec(items, results).len() == 1,
        succeeded_spec(items, results).len() == items.len() - 1,
        ({
            let entry = failed_spec(items, results)[0];
            entry.1.subrange(0, entry.0.title.len() as int) == entry.0.title
        }),
{
    lemma_summary_counts(items, results);
    lemma_failure_names_item(items, results);
}

/// The admission counter and the queue cursor of one running batch, with the
/// running count of items not yet finished.
#[derive(Debug)]
pub struct DownloadBatch {
    pub total: usize,
    pub parallel: usize,
    pub next_index: usize,
    pub in_flight: usize,
    pub remaining: usize,
}

/// The counters cohere: the admission bound is respected, no more items started
/// than exist, and the remaining count is the batch minus the finished.
pub open spec fn batch_wf(b: DownloadBatch) -> bool {
    &&& b.parallel >= 1
    &&& b.in_flight <= b.parallel
    &&& b.in_flight <= b.next_index <= b.total
    &&& b.remaining == b.total - (b.next_index - b.in_flight)
}

impl DownloadBatch {
    /// A fresh batch over `total` queued items, at most `parallel` of them
    /// running at once.
    pub fn new(total: usize, parallel: usize) -> (r: DownloadBatch)
        requires
            parallel >= 1,
        ensures
            batch_wf(r),
            r.total == total,
            r.parallel == parallel,
            r.next_index == 0,
            r.in_flight == 0,
            r.remaining == total,
    {
        DownloadBatch { total, parallel, next_index: 0, in_flight: 0, remaining: total }
    }

    /// Admits the next queued item when a worker slot is free: simple queue
    /// order, and never more than `parallel` workers in flight.
    pub fn start_next(&mut self) -> (r: Option<usize>)
        requires
            batch_wf(*old(self)),
        ensures
            batch_wf(*final(self)),
            final(self).total == old(self).total,
            final(self).parallel == old(self).parallel,
            final(self).remaining == old(self).remaining,
            final(self).in_flight <= final(self).parallel,
            match r {
                Some(i) => old(self).in_flight < old(self).parallel && old(self).next_index < old(
                    self,
                ).total && i == old(self).next_index && final(self).next_index == old(
                    self,
                ).next_index + 1 && final(self).in_flight == old(self).in_flight + 1,
                None => *final(self) == *old(self) && (old(self).in_flight == old(self).parallel
                    || old(self).next_index == old(self).total),
            },
    {
        if self.in_flight < self.parallel && self.next_index < self.total {
            let i = self.next_index;
            self.next_index = self.next_index + 1;
            self.in_flight = self.in_flight + 1;
            Some(i)
        } else {
            None
        }
    }

    /// Records that one worker finished, whatever its outcome: one worker
    /// slot frees up and the remaining count falls by one.
    pub fn finish_one(&mut self)
        requires
            batch_wf(*old(self)),
            old(self).in_flight >= 1,
        ensures
            batch_wf(*final(self)),
            final(self).total == old(self).total,
            final(self).parallel == old(self).parallel,
            final(self).next_index == old(self).next_index,
            final(self).in_flight == old(self).in_flight - 1,
            final(self).remaining == old(self).remaining - 1,
            final(self).in_flight <= final(self).parallel,
    {
        self.in_flight = self.in_flight - 1;
        self.remaining = self.remaining - 1;
    }

    /// The batch is done when every queued item has started and every
    /// worker has finished.
    pub fn is_done(&self) -> (r: bool)
        ensures
            r == (self.next_index == self.total && self.in_flight == 0),
    {
        self.next_index == self.total && self.in_flight == 0
    }
}

/// One admission-counter transition at the model level: an entry only succeeds below
/// the bound, a completion only above zero.
pub open spec fn gate_step(parallel: nat, in_flight: nat, entering: bool) -> nat {
    if entering {
        if in_flight < parallel {
            in_flight + 1
        } else {
            in_flight
        }
    } else {
        if in_flight > 0 {
            (in_flight - 1) as nat
        } else {
            in_flight
        }
    }
}

pub open spec fn gate_run(parallel: nat, in_flight: nat, ops: Seq<bool>) -> nat
    decreases ops.len(),
{
    if ops.len() == 0 {
        in_flight
    } else {
        gate_run(parallel, gate_step(parallel, in_flight, ops[0]), ops.skip(1))
    }
}

/// Concurrency bound: for any batch and any interleaving of admissions and
/// completions, the number of simultaneously admitted workers never
/// exceeds the configured bound — neither at the end of the run nor at any point
/// along it.
pub proof fn lemma_concurrency_bound(parallel: nat, in_flight: nat, ops: Seq<bool>)
    requires
        in_flight <= parallel,
    ensures
        gate_run(parallel, in_flight, ops) <= parallel,
        forall|n: int|
            0 <= n <= ops.len() ==> gate_run(parallel, in_flight, #[trigger] ops.take(n))
                <= parallel,
    decreases ops.len(),
{
    if ops.len() > 0 {
        lemma_concurrency_bound(parallel, gate_step(parallel, in_flight, ops[0]), ops.skip(1));
        assert forall|n: int|
            0 <= n <= ops.len() implies gate_run(parallel, in_flight, #[trigger] ops.take(n))
            <= parallel by {
            if n > 0 {
                assert(ops.take(n)[0] == ops[0]);
                assert(ops.take(n).skip(1) =~= ops.skip(1).take(n - 1));
            } else {
                assert(ops.take(0) =~= Seq::<bool>::empty());
            }
        }
    } else {
        assert forall|n: int|
            0 <= n <= ops.len() implies gate_run(parallel, in_flight, #[trigger] ops.take(n))
            <= parallel by {
            assert(ops.take(n) =~= Seq::<bool>::empty());
        }
    }
}

} // verus!
