//! The decisions of an indexing run over the commit history: which commits
//! are processed, when a batch is dispatched, and whether its commits are
//! marked processed before or after a flush.

use vstd::prelude::*;
use crate::entry::PackageEntry;
use crate::store::{store_insert_all, lemma_insert_all_append};

verus! {

/// A batch boundary at which the store is flushed before its commits are
/// marked processed.
pub const FLUSH_INTERVAL: usize = 5;

/// What the walker does with the next commit of the history.
#[derive(Debug, Clone, Copy, PartialEq, Eq)]
pub enum CommitStep {
    /// The bound is reached: the walk ends before this commit.
    Stop,
    /// Already processed: counted toward the bound, not processed again.
    Skip,
    /// Added to the current batch.
    Queue,
    /// Added to the current batch, which is now full and is to be processed.
    Dispatch,
}

/// How the commits of a processed batch become marked.
#[derive(Debug, Clone, Copy, PartialEq, Eq)]
pub enum MarkOrder {
    /// Flush the store, then mark the batch's commits processed.
    FlushThenMark,
    /// Mark the batch's commits now; a later flush makes them durable.
    MarkNow,
}

/// The walk's running state.
pub struct WalkState {
    /// Commits seen so far, skipped ones included.
    pub seen: usize,
    /// Commits seen that were already processed.
    pub skipped: usize,
    /// Batches dispatched so far.
    pub batches_done: usize,
    /// The commits of the batch being filled, in history order.
    pub batch: Vec<String>,
    /// The bound on commits seen, if any.
    pub max_commits: Option<usize>,
    /// Commits per batch.
    pub batch_size: usize,
    /// The commits taken in so far, each with whether it was already
    /// processed.
    pub log: Ghost<Seq<(Seq<char>, bool)>>,
    /// The commits handed out so far for processing, in order.
    pub emitted: Ghost<Seq<Seq<char>>>,
}

/// The commits of a log that are to be processed: those not already
/// processed, in order.
pub open spec fn chosen(log: Seq<(Seq<char>, bool)>) -> Seq<Seq<char>>
    decreases log.len(),
{
    if log.len() == 0 {
        Seq::empty()
    } else if !log.last().1 {
        chosen(log.drop_last()).push(log.last().0)
    } else {
        chosen(log.drop_last())
    }
}

/// The commits of `h`, each with whether it is in `p`.
pub open spec fn flags_of(h: Seq<Seq<char>>, p: Set<Seq<char>>) -> Seq<(Seq<char>, bool)> {
    h.map_values(|c: Seq<char>| (c, p.contains(c)))
}

/// Whether the commit at position `i` of the history lies within the bound.
pub open spec fn within(i: int, max: Option<usize>) -> bool {
    match max {
        Some(m) => i < m,
        None => true,
    }
}

/// The commits of `h` that a walk processes: those within the bound that
/// are not already processed, in history order.
pub open spec fn selected(h: Seq<Seq<char>>, processed: Set<Seq<char>>, max: Option<usize>) -> Seq<Seq<char>>
    decreases h.len(),
{
    if h.len() == 0 {
        Seq::empty()
    } else {
        let prev = selected(h.drop_last(), processed, max);
        if within(h.len() - 1, max) && !processed.contains(h.last()) {
            prev.push(h.last())
        } else {
            prev
        }
    }
}

impl WalkState {
    /// Skipped commits are among those seen, and the batch never holds more
    /// than a batch.
    /// The log holds the commits seen, all within the bound, and what was
    /// handed out followed by the current batch is what the log chooses.
    pub open spec fn wf(&self) -> bool {
        &&& self.batch_size > 0 && self.skipped <= self.seen && self.batch@.len() <= self.batch_size
        &&& self.log@.len() == self.seen
        &&& (self.max_commits matches Some(m) ==> self.seen <= m)
        &&& self.emitted@ + self.batch_view() == chosen(self.log@)
    }

    pub open spec fn batch_view(&self) -> Seq<Seq<char>> {
        self.batch@.map_values(|s: String| s@)
    }

    /// A walk that has seen nothing yet.
    pub fn new(max_commits: Option<usize>, batch_size: usize) -> (r: Self)
        requires
            batch_size > 0,
        ensures
            r.wf(),
            r.seen == 0 && r.skipped == 0 && r.batches_done == 0,
            r.batch@.len() == 0,
            r.emitted@.len() == 0,
            r.max_commits == max_commits,
            r.batch_size == batch_size,
    {
        let r = WalkState {
            seen: 0,
            skipped: 0,
            batches_done: 0,
            batch: Vec::new(),
            max_commits,
            batch_size,
            log: Ghost(Seq::empty()),
            emitted: Ghost(Seq::empty()),
        };
        assert(r.emitted@ + r.batch_view() =~= chosen(r.log@));
        r
    }

    /// Takes the next commit of the history (newest first), told whether it
    /// is already processed.
    pub fn on_commit(&mut self, hash: String, already_processed: bool) -> (r: CommitStep)
        requires
            old(self).wf(),
            old(self).seen < usize::MAX,
            old(self).batch@.len() < old(self).batch_size,
        ensures
            final(self).wf(),
            final(self).max_commits == old(self).max_commits,
            final(self).batch_size == old(self).batch_size,
            final(self).batches_done == old(self).batches_done,
            !within(old(self).seen as int, old(self).max_commits) ==> r == CommitStep::Stop && *final(self) == *old(self),
            within(old(self).seen as int, old(self).max_commits) ==> {
                &&& final(self).seen == old(self).seen + 1
                &&& final(self).log@ == old(self).log@.push((hash@, already_processed))
                &&& final(self).emitted == old(self).emitted
                &&& already_processed ==> r == CommitStep::Skip && final(self).batch == old(self).batch
                    && final(self).skipped == old(self).skipped + 1
                &&& !already_processed ==> final(self).skipped == old(self).skipped
                    && final(self).batch_view() == old(self).batch_view().push(hash@)
                    && (r == CommitStep::Dispatch <==> final(self).batch@.len() >= final(self).batch_size)
                    && (r == CommitStep::Queue <==> final(self).batch@.len() < final(self).batch_size)
            },
    {
        match self.max_commits {
            Some(m) => {
                if self.seen >= m {
                    return CommitStep::Stop;
                }
            },
            None => {},
        }
        let ghost old_log = self.log@;
        self.seen = self.seen + 1;
        self.log = Ghost(self.log@.push((hash@, already_processed)));
        assert(self.log@.drop_last() =~= old_log);
        if already_processed {
            self.skipped = self.skipped + 1;
            return CommitStep::Skip;
        }
        let ghost before = self.batch_view();
        self.batch.push(hash);
        assert(self.batch_view() =~= before.push(hash@));
        assert(self.emitted@ + self.batch_view() =~= (self.emitted@ + before).push(hash@));
        if self.batch.len() >= self.batch_size { CommitStep::Dispatch } else { CommitStep::Queue }
    }

    /// Hands over a full batch for processing, with the order in which its
    /// commits are to be marked: every `FLUSH_INTERVAL`-th batch is flushed
    /// first.
    pub fn dispatch(&mut self) -> (r: (Vec<String>, MarkOrder))
        requires
            old(self).wf(),
            old(self).batches_done < usize::MAX,
        ensures
            final(self).wf(),
            r.0@ == old(self).batch@,
            final(self).batch@.len() == 0,
            final(self).log == old(self).log,
            final(self).emitted@ == old(self).emitted@ + old(self).batch_view(),
            final(self).batches_done == old(self).batches_done + 1,
            r.1 == (if final(self).batches_done % FLUSH_INTERVAL == 0 { MarkOrder::FlushThenMark } else { MarkOrder::MarkNow }),
            final(self).seen == old(self).seen,
            final(self).skipped == old(self).skipped,
            final(self).max_commits == old(self).max_commits,
            final(self).batch_size == old(self).batch_size,
    {
        self.batches_done = self.batches_done + 1;
        let ghost handed = self.batch_view();
        let mut batch: Vec<String> = Vec::new();
        std::mem::swap(&mut self.batch, &mut batch);
        self.emitted = Ghost(self.emitted@ + handed);
        assert(self.emitted@ + self.batch_view() =~= self.emitted@);
        let order = if self.batches_done % FLUSH_INTERVAL == 0 { MarkOrder::FlushThenMark } else { MarkOrder::MarkNow };
        (batch, order)
    }

    /// At the end of the walk: the partial batch left, to be processed,
    /// flushed and only then marked.
    pub fn finish(&mut self) -> (r: Vec<String>)
        requires
            old(self).wf(),
        ensures
            final(self).wf(),
            final(self).batch_size == old(self).batch_size,
            final(self).max_commits == old(self).max_commits,
            r@ == old(self).batch@,
            final(self).batch@.len() == 0,
            final(self).log == old(self).log,
            final(self).emitted@ == old(self).emitted@ + old(self).batch_view(),
            final(self).seen == old(self).seen,
            final(self).skipped == old(self).skipped,
            final(self).batches_done == old(self).batches_done,
    {
        let ghost handed = self.batch_view();
        let mut batch: Vec<String> = Vec::new();
        std::mem::swap(&mut self.batch, &mut batch);
        self.emitted = Ghost(self.emitted@ + handed);
        assert(self.emitted@ + self.batch_view() =~= self.emitted@);
        batch
    }
}

proof fn lemma_chosen_is_selected(h: Seq<Seq<char>>, p: Set<Seq<char>>, max: Option<usize>, n: int)
    requires
        0 <= n <= h.len(),
        forall|i: int| 0 <= i < n ==> within(i, max),
    ensures
        chosen(flags_of(h.take(n), p)) == selected(h.take(n), p, max),
    decreases n,
{
    if n > 0 {
        lemma_chosen_is_selected(h, p, max, n - 1);
        assert(flags_of(h.take(n), p).drop_last() =~= flags_of(h.take(n - 1), p));
        assert(h.take(n).drop_last() =~= h.take(n - 1));
        assert(within(n - 1, max));
    }
}

proof fn lemma_selected_stops_at_bound(h: Seq<Seq<char>>, p: Set<Seq<char>>, m: usize)
    requires
        m <= h.len(),
    ensures
        selected(h, p, Some(m)) == selected(h.take(m as int), p, Some(m)),
    decreases h.len(),
{
    if h.len() > m {
        lemma_selected_stops_at_bound(h.drop_last(), p, m);
        assert(h.drop_last().take(m as int) =~= h.take(m as int));
    } else {
        assert(h.take(m as int) =~= h);
    }
}

/// A walk that took in the first commits of history `h`, each flagged with
/// whether it is in `p`, and that ended at the bound or at the end of the
/// history with its last batch handed out, has handed out exactly the
/// commits `selected(h, p, max)`, in order.
pub proof fn lemma_walk_follows_plan(w: WalkState, h: Seq<Seq<char>>, p: Set<Seq<char>>)
    requires
        w.wf(),
        w.batch@.len() == 0,
        w.seen <= h.len(),
        w.log@ == flags_of(h.take(w.seen as int), p),
        w.seen == h.len() || !within(w.seen as int, w.max_commits),
    ensures
        w.emitted@ == selected(h, p, w.max_commits),
{
    assert(w.emitted@ + w.batch_view() =~= w.emitted@);
    assert forall|i: int| 0 <= i < w.seen implies within(i, w.max_commits) by {}
    lemma_chosen_is_selected(h, p, w.max_commits, w.seen as int);
    if w.seen == h.len() {
        assert(h.take(w.seen as int) =~= h);
    } else {
        let m = w.max_commits.unwrap();
        assert(w.seen == m);
        lemma_selected_stops_at_bound(h, p, m);
    }
}

proof fn lemma_selected_unbounded(h: Seq<Seq<char>>, p: Set<Seq<char>>, x: Seq<char>)
    requires
        h.contains(x),
        !p.contains(x),
    ensures
        selected(h, p, None).contains(x),
    decreases h.len(),
{
    let pre = h.drop_last();
    if h.last() == x {
        assert(selected(h, p, None).last() == x);
    } else {
        let i = choose|i: int| 0 <= i < h.len() && h[i] == x;
        assert(pre[i] == x);
        lemma_selected_unbounded(pre, p, x);
        let j = choose|j: int| 0 <= j < selected(pre, p, None).len() && selected(pre, p, None)[j] == x;
        assert(selected(h, p, None)[j] == x);
    }
}

proof fn lemma_selected_subset(h: Seq<Seq<char>>, p: Set<Seq<char>>, max: Option<usize>, x: Seq<char>)
    requires
        selected(h, p, max).contains(x),
    ensures
        h.contains(x),
    decreases h.len(),
{
    if h.len() > 0 {
        let pre = h.drop_last();
        if selected(pre, p, max).contains(x) {
            lemma_selected_subset(pre, p, max, x);
            let i = choose|i: int| 0 <= i < pre.len() && pre[i] == x;
            assert(h[i] == x);
        } else {
            assert(h[h.len() - 1] == x);
        }
    }
}

proof fn lemma_selected_none_when_all_processed(h: Seq<Seq<char>>, p: Set<Seq<char>>)
    requires
        forall|i: int| 0 <= i < h.len() ==> p.contains(#[trigger] h[i]),
    ensures
        selected(h, p, None) == Seq::<Seq<char>>::empty(),
    decreases h.len(),
{
    if h.len() > 0 {
        let pre = h.drop_last();
        assert forall|i: int| 0 <= i < pre.len() implies p.contains(#[trigger] pre[i]) by {
            assert(pre[i] == h[i]);
        }
        lemma_selected_none_when_all_processed(pre, p);
        assert(p.contains(h[h.len() - 1]));
    }
}

/// Resumability: a walk bounded to the first `k` commits, followed by an
/// unbounded walk of the same history that skips what the first one
/// processed, processes exactly the commits of one unbounded walk, in the
/// same order.
pub proof fn lemma_resumed_walk(h: Seq<Seq<char>>, p: Set<Seq<char>>, k: usize)
    requires
        h.no_duplicates(),
    ensures
        selected(h, p, Some(k)) + selected(h, p.union(selected(h, p, Some(k)).to_set()), None)
            == selected(h, p, None),
    decreases h.len(),
{
    let first = selected(h, p, Some(k));
    let marked = p.union(first.to_set());
    if h.len() == 0 {
        assert(first + selected(h, marked, None) =~= selected(h, p, None));
    } else {
        let pre = h.drop_last();
        let x = h.last();
        assert(pre.no_duplicates());
        lemma_resumed_walk(pre, p, k);
        let first_pre = selected(pre, p, Some(k));
        let marked_pre = p.union(first_pre.to_set());
        if h.len() - 1 < k {
            // Every commit lies within the bound: the first walk takes all.
            assert forall|i: int| 0 <= i < h.len() implies marked.contains(#[trigger] h[i]) by {
                if !p.contains(h[i]) {
                    assert(h.contains(h[i]));
                    lemma_selected_unbounded(h, p, h[i]);
                    assert forall|n: int| 0 <= n < h.len() implies within(n, Some(k)) by {}
                    lemma_bound_irrelevant(h, p, k);
                    assert(first.to_set().contains(h[i]));
                }
            }
            lemma_selected_none_when_all_processed(h, marked);
            lemma_bound_irrelevant(h, p, k);
            assert(first + selected(h, marked, None) =~= selected(h, p, None));
        } else {
            // The last commit lies beyond the bound.
            assert(first == first_pre);
            assert(!first_pre.contains(x)) by {
                if first_pre.contains(x) {
                    lemma_selected_subset(pre, p, Some(k), x);
                    let i = choose|i: int| 0 <= i < pre.len() && pre[i] == x;
                    assert(h[i] == h[h.len() - 1]);
                }
            }
            assert(marked == marked_pre);
            assert(marked.contains(x) == p.contains(x));
            assert(first + selected(h, marked, None) =~= selected(h, p, None));
        }
    }
}

/// The bound a run walks under: none for the entire history; else the
/// number of commits down to a stop date or a stop commit, when one was
/// given; else the explicit maximum, if any.
pub fn effective_bound(entire_history: bool, to_date_count: Option<usize>, to_commit_count: Option<usize>, max_commits: Option<usize>) -> (r: Option<usize>)
    ensures
        r == (if entire_history { None } else if to_date_count is Some { to_date_count }
            else if to_commit_count is Some { to_commit_count } else { max_commits }),
{
    if entire_history {
        None
    } else if to_date_count.is_some() {
        to_date_count
    } else if to_commit_count.is_some() {
        to_commit_count
    } else {
        max_commits
    }
}

/// Commits per worker when a batch of `n` is split into near-equal
/// contiguous chunks over `workers` workers: `n / workers` rounded up, and
/// at least 1.
pub fn chunk_size(n: usize, workers: usize) -> (r: usize)
    requires
        workers > 0,
    ensures
        r >= 1,
        n > 0 ==> r as int == (n as int - 1) / (workers as int) + 1,
        r * workers >= n,
        n > 0 ==> (r - 1) * workers < n,
{
    if n == 0 {
        return 1;
    }
    let q = (n - 1) / workers;
    proof {
        let ni = n as int - 1;
        let w = workers as int;
        vstd::arithmetic::div_mod::lemma_fundamental_div_mod(ni, w);
        vstd::arithmetic::div_mod::lemma_mod_pos_bound(ni, w);
        assert((q as int + 1) * w == q as int * w + w) by (nonlinear_arith);
        assert(q as int * w <= ni) by (nonlinear_arith)
            requires ni == w * (ni / w) + ni % w, ni % w >= 0, q as int == ni / w;
        assert((q as int + 1) * w > ni) by (nonlinear_arith)
            requires ni == w * (ni / w) + ni % w, ni % w < w, q as int == ni / w;
    }
    q + 1
}

/// The facts observed in `commits`, commit by commit, in order.
pub open spec fn facts_in(commits: Seq<Seq<char>>, facts_of: spec_fn(Seq<char>) -> Seq<PackageEntry>) -> Seq<PackageEntry>
    decreases commits.len(),
{
    if commits.len() == 0 {
        Seq::empty()
    } else {
        facts_in(commits.drop_last(), facts_of) + facts_of(commits.last())
    }
}

proof fn lemma_facts_in_append(a: Seq<Seq<char>>, b: Seq<Seq<char>>, facts_of: spec_fn(Seq<char>) -> Seq<PackageEntry>)
    ensures
        facts_in(a + b, facts_of) == facts_in(a, facts_of) + facts_in(b, facts_of),
    decreases b.len(),
{
    if b.len() == 0 {
        assert(a + b =~= a);
        assert(facts_in(a, facts_of) + Seq::<PackageEntry>::empty() =~= facts_in(a, facts_of));
    } else {
        lemma_facts_in_append(a, b.drop_last(), facts_of);
        assert((a + b).drop_last() =~= a + b.drop_last());
        assert((a + b).last() == b.last());
        assert(facts_in(a, facts_of) + facts_in(b.drop_last(), facts_of) + facts_of(b.last())
            =~= facts_in(a, facts_of) + (facts_in(b.drop_last(), facts_of) + facts_of(b.last())));
    }
}

/// Resumability of the index: stopping a walk after `k` commits and then
/// walking the whole history again leaves the store holding exactly the
/// facts one uninterrupted walk leaves, whatever facts each commit yields.
pub proof fn lemma_resumed_index(
    m: Map<Seq<char>, PackageEntry>,
    h: Seq<Seq<char>>,
    p: Set<Seq<char>>,
    k: usize,
    facts_of: spec_fn(Seq<char>) -> Seq<PackageEntry>,
)
    requires
        h.no_duplicates(),
    ensures
        ({
            let first = selected(h, p, Some(k));
            let second = selected(h, p.union(first.to_set()), None);
            store_insert_all(store_insert_all(m, facts_in(first, facts_of)), facts_in(second, facts_of))
                == store_insert_all(m, facts_in(selected(h, p, None), facts_of))
        }),
{
    let first = selected(h, p, Some(k));
    let second = selected(h, p.union(first.to_set()), None);
    lemma_resumed_walk(h, p, k);
    lemma_facts_in_append(first, second, facts_of);
    lemma_insert_all_append(m, facts_in(first, facts_of), facts_in(second, facts_of));
}

/// A bound no shorter than the history changes nothing.
proof fn lemma_bound_irrelevant(h: Seq<Seq<char>>, p: Set<Seq<char>>, k: usize)
    requires
        h.len() <= k,
    ensures
        selected(h, p, Some(k)) == selected(h, p, None),
    decreases h.len(),
{
    if h.len() > 0 {
        lemma_bound_irrelevant(h.drop_last(), p, k);
    }
}

} // verus!
