//! The cross-scan aggregator: three running totals that many concurrent
//! scans fold their results into, serialized through one lock so the
//! triple only ever updates as a single atomic transaction.

use vstd::prelude::*;
use vstd::rwlock::RwLock;
use std::sync::Arc;
use crate::matcher::LineModel;
use crate::matcher::Matches;
use crate::matcher::MatchesModel;

verus! {

/// Sum of the capture counts over a sequence of retained lines.
pub open spec fn captures_total(lines: Seq<LineModel>) -> int
    decreases lines.len(),
{
    if lines.len() == 0 {
        0
    } else {
        captures_total(lines.drop_last()) + lines.last().captures.len()
    }
}

pub proof fn lemma_captures_total_nonneg(lines: Seq<LineModel>)
    ensures
        captures_total(lines) >= 0,
    decreases lines.len(),
{
    if lines.len() > 0 {
        lemma_captures_total_nonneg(lines.drop_last());
    }
}

/// `x` clamped into a `u64`: totals stop at the top instead of wrapping.
pub open spec fn sat_u64(x: int) -> u64 {
    if x > u64::MAX {
        u64::MAX
    } else {
        x as u64
    }
}

/// Addition on `u64` that saturates at `u64::MAX` instead of overflowing.
fn sat_add(a: u64, b: u64) -> (r: u64)
    ensures
        r == sat_u64(a as int + b as int),
{
    if a > u64::MAX - b {
        u64::MAX
    } else {
        a + b
    }
}

/// The three running totals.
pub struct Counts {
    pub total: u64,
    pub lines: u64,
    pub captures: u64,
}

/// What folding one scan's result into the totals yields: one more matched
/// file, all of its retained lines, and all of their captures, each total
/// saturating at `u64::MAX`.
pub open spec fn folded(c: Counts, m: MatchesModel) -> Counts {
    Counts {
        total: sat_u64(c.total as int + 1),
        lines: sat_u64(c.lines as int + m.lines.len()),
        captures: sat_u64(c.captures as int + captures_total(m.lines)),
    }
}

/// Saturating at the top once or at the end comes to the same, for
/// non-negative amounts.
proof fn lemma_sat_u64_chain(a: int, b: int)
    requires
        a >= 0,
        b >= 0,
    ensures
        sat_u64(sat_u64(a) as int + b) == sat_u64(a + b),
{
}

/// Law: folding two results commutes. The final totals are independent of
/// the order in which workers fold their results in.
pub proof fn lemma_fold_commutes(c: Counts, m1: MatchesModel, m2: MatchesModel)
    ensures
        folded(folded(c, m1), m2) == folded(folded(c, m2), m1),
{
    lemma_captures_total_nonneg(m1.lines);
    lemma_captures_total_nonneg(m2.lines);
    lemma_sat_u64_chain(c.total as int + 1, 1);
    lemma_sat_u64_chain(c.lines as int + m1.lines.len(), m2.lines.len() as int);
    lemma_sat_u64_chain(c.lines as int + m2.lines.len(), m1.lines.len() as int);
    lemma_sat_u64_chain(c.captures as int + captures_total(m1.lines), captures_total(m2.lines));
    lemma_sat_u64_chain(c.captures as int + captures_total(m2.lines), captures_total(m1.lines));
}

impl Counts {
    /// One scan's result folded in, as one value: exactly `folded`.
    pub fn fold(self, m: &Matches) -> (r: Counts)
        ensures
            r == folded(self, m@),
    {
        let total = sat_add(self.total, 1);
        let lines = sat_add(self.lines, m.lines.len() as u64);
        let captures = sat_add(self.captures, capture_count(m));
        proof {
            lemma_captures_total_nonneg(m@.lines);
        }
        Counts { total, lines, captures }
    }
}

/// The number of captures a scan's result retains, saturating at
/// `u64::MAX`.
fn capture_count(m: &Matches) -> (r: u64)
    ensures
        r == sat_u64(captures_total(m@.lines)),
{
    let ghost all = m@.lines;
    let mut acc: u64 = 0;
    let mut i: usize = 0;
    proof {
        assert(all.take(0) =~= Seq::<LineModel>::empty());
    }
    while i < m.lines.len()
        invariant
            i <= m.lines@.len(),
            all == m@.lines,
            all.len() == m.lines@.len(),
            acc == sat_u64(captures_total(all.take(i as int))),
        decreases m.lines@.len() - i,
    {
        let line: &crate::matcher::Line = &m.lines[i];
        proof {
            let t1 = all.take(i as int + 1);
            assert(t1.drop_last() =~= all.take(i as int));
            assert(t1.last() == all[i as int]);
            assert(all[i as int] == m.lines@[i as int]@);
            lemma_captures_total_nonneg(all.take(i as int));
        }
        acc = sat_add(acc, line.captures.len() as u64);
        i = i + 1;
    }
    proof {
        assert(all.take(m.lines@.len() as int) =~= all);
    }
    acc
}

/// The shareable statistics aggregator. Duplicating the handle shares the
/// same underlying counters; every mutation happens inside one critical
/// section, so no caller ever observes one total updated without the
/// others.
pub struct Stats {
    counts: Arc<RwLock<Counts, spec_fn(Counts) -> bool>>,
}

impl Stats {
    /// Any triple of totals may sit in the lock.
    #[verifier::type_invariant]
    spec fn wf(&self) -> bool {
        forall|c: Counts| (*self.counts).inv(c)
    }

    /// A fresh handle over zero-initialized totals.
    pub fn new() -> Stats {
        Stats {
            counts: Arc::new(
                RwLock::new(Counts { total: 0, lines: 0, captures: 0 }, Ghost(|c: Counts| true)),
            ),
        }
    }

    /// Folds one scan's result into the totals: a no-op unless it has
    /// matches, otherwise one atomic `Counts::fold`.
    pub fn add(&self, m: &Matches) {
        proof {
            use_type_invariant(self);
        }
        if m.has_matches() {
            let (counts, handle) = self.counts.acquire_write();
            handle.release_write(counts.fold(m));
        }
    }

    /// A snapshot of the total number of matched files.
    pub fn total(&self) -> u64 {
        let handle = self.counts.acquire_read();
        let t = handle.borrow().total;
        handle.release_read();
        t
    }

    /// A snapshot of the total number of captures.
    pub fn captures(&self) -> u64 {
        let handle = self.counts.acquire_read();
        let c = handle.borrow().captures;
        handle.release_read();
        c
    }

    /// A snapshot of the total number of matched lines.
    pub fn lines(&self) -> u64 {
        let handle = self.counts.acquire_read();
        let l = handle.borrow().lines;
        handle.release_read();
        l
    }
}

impl Clone for Stats {
    /// Duplicating the handle shares the same underlying counters: the
    /// duplicate is the same aggregator, not an independent copy.
    fn clone(&self) -> (r: Stats)
        ensures
            r == *self,
    {
        proof {
            use_type_invariant(self);
        }
        Stats { counts: self.counts.clone() }
    }
}

} // verus!
