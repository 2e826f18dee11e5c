//! Lazy best-first enumeration of candidate combinations.
//!
//! Given one ranked candidate list per location reference point, the
//! generator yields index vectors — one candidate index per point — in
//! order of non-decreasing aggregate score: the classic frontier
//! expansion over a priority queue seeded with the all-zero vector.
//!
//! The frontier is deliberately not deduplicated against what was
//! already emitted: the queue collapses only vectors that are queued at
//! the same time, so on aggregate-score ties an emitted vector can be
//! reached again through a different expansion and yielded twice.
//! Consumers take a bounded prefix, which keeps the repetition harmless;
//! the contracts therefore promise the emission order and shape, not
//! uniqueness.

use vstd::prelude::*;

verus! {

/// The outside priority queue that holds the frontier of candidate
/// index vectors, keyed by the vector, prioritized by inverted score.
#[verifier::external_type_specification]
#[verifier::external_body]
#[verifier::reject_recursive_types(I)]
#[verifier::reject_recursive_types(P)]
#[verifier::reject_recursive_types(H)]
pub struct ExPriorityQueue<I, P, H>(priority_queue::PriorityQueue<I, P, H>);

/// What the combination queue holds: each queued index vector mapped to
/// its stored priority.
pub uninterp spec fn combo_queue_entries(
    q: priority_queue::PriorityQueue<Vec<usize>, u64>,
) -> Map<Seq<usize>, u64>;

/// Relies on `PriorityQueue::new`: a new queue holds nothing.
#[verifier::external_body]
fn pq_new() -> (q: priority_queue::PriorityQueue<Vec<usize>, u64>)
    ensures
        combo_queue_entries(q).dom().len() == 0,
        combo_queue_entries(q).dom().finite(),
{
    priority_queue::PriorityQueue::new()
}

/// Relies on `PriorityQueue::push`: the pair is inserted; if an equal
/// item is already queued, its priority is replaced by the new one.
#[verifier::external_body]
fn pq_push(q: &mut priority_queue::PriorityQueue<Vec<usize>, u64>, item: Vec<usize>, priority: u64)
    ensures
        combo_queue_entries(*final(q)) == combo_queue_entries(*old(q)).insert(item@, priority),
{
    q.push(item, priority);
}

/// Relies on `PriorityQueue::pop`: an empty queue yields nothing and
/// stays empty; otherwise some queued pair with the greatest priority
/// is removed and returned.
#[verifier::external_body]
fn pq_pop(q: &mut priority_queue::PriorityQueue<Vec<usize>, u64>) -> (r: Option<(Vec<usize>, u64)>)
    ensures
        r is None <==> combo_queue_entries(*old(q)).dom() == Set::<Seq<usize>>::empty(),
        r is None ==> combo_queue_entries(*final(q)) == combo_queue_entries(*old(q)),
        r matches Some(ip) ==> {
            &&& combo_queue_entries(*old(q)).contains_pair(ip.0@, ip.1)
            &&& forall|k: Seq<usize>|
                #[trigger] combo_queue_entries(*old(q)).dom().contains(k)
                    ==> combo_queue_entries(*old(q))[k] <= ip.1
            &&& combo_queue_entries(*final(q)) == combo_queue_entries(*old(q)).remove(ip.0@)
        },
{
    q.pop()
}

/// The aggregate score of a combination: the sum over every point of
/// the chosen candidate's score.
pub open spec fn spec_combo_score(scores: Seq<Vec<u64>>, c: Seq<usize>) -> int
    decreases scores.len(),
{
    if scores.len() == 0 {
        0
    } else {
        spec_combo_score(scores.drop_last(), c.drop_last()) + scores.last()@[c.last() as int]
    }
}

/// Whether a combination chooses one existing candidate per point.
pub open spec fn combo_valid(scores: Seq<Vec<u64>>, c: Seq<usize>) -> bool {
    c.len() == scores.len() && forall|i: int|
        0 <= i < c.len() ==> (#[trigger] c[i]) < scores[i]@.len()
}

/// Aggregate scores are non-negative and bounded by one maximal score
/// per point.
proof fn lemma_combo_score_bounds(scores: Seq<Vec<u64>>, c: Seq<usize>)
    requires
        combo_valid(scores, c),
        forall|i: int, j: int|
            0 <= i < scores.len() && 0 <= j < scores[i]@.len() ==> (#[trigger] scores[i]@[j])
                <= 40_000_000,
    ensures
        0 <= spec_combo_score(scores, c) <= scores.len() * 40_000_000,
    decreases scores.len(),
{
    if scores.len() > 0 {
        assert(combo_valid(scores.drop_last(), c.drop_last()));
        lemma_combo_score_bounds(scores.drop_last(), c.drop_last());
    }
}

/// Two combinations that differ in one position differ in aggregate
/// score by exactly the difference of the two chosen scores.
proof fn lemma_combo_score_update(scores: Seq<Vec<u64>>, a: Seq<usize>, b: Seq<usize>, i: int)
    requires
        a.len() == scores.len(),
        b.len() == scores.len(),
        0 <= i < scores.len(),
        forall|j: int| 0 <= j < scores.len() && j != i ==> a[j] == b[j],
    ensures
        spec_combo_score(scores, b) - spec_combo_score(scores, a) == scores[i]@[b[i] as int]
            - scores[i]@[a[i] as int],
    decreases scores.len(),
{
    if i == scores.len() - 1 {
        assert(a.drop_last() =~= b.drop_last());
    } else {
        lemma_combo_score_update(scores.drop_last(), a.drop_last(), b.drop_last(), i);
    }
}

/// The lazy generator of candidate combinations.
pub struct RouteGenerator {
    /// Per point, the scores of its ranked candidates, ascending.
    pub scores: Vec<Vec<u64>>,
    pub heap: priority_queue::PriorityQueue<Vec<usize>, u64>,
    /// The aggregate score of the last emitted combination: no queued —
    /// and hence no future — combination scores below it.
    pub emitted_floor: Ghost<u64>,
}

impl RouteGenerator {
    /// The queued combinations and their stored priorities.
    pub open spec fn entries(&self) -> Map<Seq<usize>, u64> {
        combo_queue_entries(self.heap)
    }

    /// The score of the last emitted combination.
    pub open spec fn floor(&self) -> u64 {
        self.emitted_floor@
    }

    /// Well-formedness: every point has a candidate, candidate scores
    /// are ascending and bounded, and every queued combination is
    /// valid, priced at its inverted aggregate score, and scores no
    /// less than the last emitted combination.
    pub open spec fn wf(&self) -> bool {
        &&& self.scores@.len() >= 1
        &&& self.scores@.len() <= 613_566_756
        &&& forall|i: int| 0 <= i < self.scores@.len() ==> (#[trigger] self.scores@[i])@.len() >= 1
        &&& forall|i: int, j: int|
            0 <= i < self.scores@.len() && 0 <= j < self.scores@[i]@.len() ==> (
            #[trigger] self.scores@[i]@[j]) <= 40_000_000
        &&& forall|i: int, a: int, b: int|
            0 <= i < self.scores@.len() && 0 <= a <= b < self.scores@[i]@.len()
                ==> #[trigger] self.scores@[i]@[a] <= #[trigger] self.scores@[i]@[b]
        &&& forall|k: Seq<usize>|
            #[trigger] self.entries().dom().contains(k) ==> {
                &&& combo_valid(self.scores@, k)
                &&& self.entries()[k] == u64::MAX - spec_combo_score(self.scores@, k)
                &&& spec_combo_score(self.scores@, k) >= self.floor()
            }
    }

    /// Seeds the generator with the all-zero combination: the best
    /// candidate of every point.
    pub fn new(scores: Vec<Vec<u64>>) -> (r: RouteGenerator)
        requires
            1 <= scores@.len() <= 613_566_756,
            forall|i: int| 0 <= i < scores@.len() ==> (#[trigger] scores@[i])@.len() >= 1,
            forall|i: int, j: int|
                0 <= i < scores@.len() && 0 <= j < scores@[i]@.len() ==> (
                #[trigger] scores@[i]@[j]) <= 40_000_000,
            forall|i: int, a: int, b: int|
                0 <= i < scores@.len() && 0 <= a <= b < scores@[i]@.len()
                    ==> #[trigger] scores@[i]@[a] <= #[trigger] scores@[i]@[b],
        ensures
            r.wf(),
            r.scores == scores,
            r.floor() == 0,
            r.entries().dom().contains(Seq::new(scores@.len(), |i: int| 0usize)),
            forall|k: Seq<usize>|
                #[trigger] r.entries().dom().contains(k) ==> k == Seq::new(
                    scores@.len(),
                    |i: int| 0usize,
                ),
    {
        let mut heap = pq_new();
        let mut zero: Vec<usize> = Vec::new();
        let mut total: u64 = 0;
        let mut i: usize = 0;
        while i < scores.len()
            invariant
                0 <= i <= scores@.len(),
                scores@.len() <= 613_566_756,
                zero@.len() == i,
                forall|j: int| 0 <= j < i ==> (#[trigger] zero@[j]) == 0,
                forall|j: int| 0 <= j < scores@.len() ==> (#[trigger] scores@[j])@.len() >= 1,
                forall|a: int, b: int|
                    0 <= a < scores@.len() && 0 <= b < scores@[a]@.len() ==> (
                    #[trigger] scores@[a]@[b]) <= 40_000_000,
                total == spec_combo_score(scores@.take(i as int), zero@),
                total <= i * 40_000_000,
            decreases scores@.len() - i,
        {
            let ghost prev_zero = zero@;
            let s = scores[i][0];
            zero.push(0);
            proof {
                assert(scores@.take(i as int + 1).drop_last() =~= scores@.take(i as int));
                assert(zero@.drop_last() =~= prev_zero);
                assert(scores@.take(i as int + 1).last() == scores@[i as int]);
            }
            total = total + s;
            i = i + 1;
        }
        proof {
            assert(scores@.take(scores@.len() as int) =~= scores@);
        }
        let ghost zseq = zero@;
        let prio = u64::MAX - total;
        pq_push(&mut heap, zero, prio);
        let r = RouteGenerator { scores, heap, emitted_floor: Ghost(0) };
        proof {
            assert(zseq =~= Seq::new(r.scores@.len(), |i: int| 0usize));
            assert forall|k: Seq<usize>| #[trigger] r.entries().dom().contains(k) implies {
                &&& combo_valid(r.scores@, k)
                &&& r.entries()[k] == u64::MAX - spec_combo_score(r.scores@, k)
                &&& spec_combo_score(r.scores@, k) >= r.floor()
            } by {
                assert(k == zseq);
                lemma_combo_score_bounds(r.scores@, k);
            }
        }
        r
    }

    /// Pops the best queued combination, queues its one-step
    /// refinements — each position advanced to its next candidate —
    /// and returns it.  Each returned combination is valid and scores
    /// at least the previously returned one: the emission order is of
    /// non-decreasing aggregate score.
    pub fn next(&mut self) -> (r: Option<Vec<usize>>)
        requires
            old(self).wf(),
        ensures
            final(self).wf(),
            final(self).scores == old(self).scores,
            r is None ==> final(self).entries() == old(self).entries() && final(self).floor()
                == old(self).floor(),
            r is None ==> old(self).entries().dom() == Set::<Seq<usize>>::empty(),
            r matches Some(c) ==> {
                &&& combo_valid(old(self).scores@, c@)
                &&& old(self).entries().dom().contains(c@)
                &&& spec_combo_score(old(self).scores@, c@) >= old(self).floor()
                &&& final(self).floor() == spec_combo_score(old(self).scores@, c@)
            },
    {
        let ghost pre = self.entries();
        let popped = pq_pop(&mut self.heap);
        proof {
            assert(pre == old(self).entries());
        }
        match popped {
            None => {
                proof {
                    assert(self.entries() == pre);
                }
                None
            },
            Some((indices, prio)) => {
                let new_floor: u64 = u64::MAX - prio;
                proof {
                    assert(pre.contains_pair(indices@, prio));
                    assert(pre.dom().contains(indices@));
                    assert(combo_valid(old(self).scores@, indices@));
                    assert(combo_valid(self.scores@, indices@));
                    lemma_combo_score_bounds(self.scores@, indices@);
                    assert(pre[indices@] == u64::MAX - spec_combo_score(self.scores@, indices@));
                    assert(new_floor == spec_combo_score(self.scores@, indices@));
                }
                self.emitted_floor = Ghost(new_floor);
                proof {
                    assert(self.entries() == pre.remove(indices@));
                    assert forall|k: Seq<usize>| #[trigger] self.entries().dom().contains(k) implies {
                        &&& combo_valid(self.scores@, k)
                        &&& self.entries()[k] == u64::MAX - spec_combo_score(self.scores@, k)
                        &&& spec_combo_score(self.scores@, k) >= self.emitted_floor@
                    } by {
                        assert(pre.dom().contains(k));
                        assert(pre[k] <= prio);
                        assert(self.entries()[k] == pre[k]);
                    }
                }
                let n = indices.len();
                let mut i: usize = 0;
                while i < n
                    invariant
                        n == indices@.len(),
                        self.scores == old(self).scores,
                        self.emitted_floor@ == spec_combo_score(self.scores@, indices@),
                        old(self).wf(),
                        combo_valid(self.scores@, indices@),
                        forall|k: Seq<usize>|
                            #[trigger] self.entries().dom().contains(k) ==> {
                                &&& combo_valid(self.scores@, k)
                                &&& self.entries()[k] == u64::MAX - spec_combo_score(
                                    self.scores@,
                                    k,
                                )
                                &&& spec_combo_score(self.scores@, k) >= self.emitted_floor@
                            },
                    decreases n - i,
                {
                    let row_len = self.scores[i].len();
                    if indices[i] < row_len - 1 {
                        let mut t: Vec<usize> = Vec::new();
                        let mut j: usize = 0;
                        while j < n
                            invariant
                                n == indices@.len(),
                                t@.len() == j <= n,
                                forall|q: int| 0 <= q < j ==> #[trigger] t@[q] == indices@[q],
                            decreases n - j,
                        {
                            t.push(indices[j]);
                            j = j + 1;
                        }
                        proof {
                            assert(t@ =~= indices@);
                        }
                        t.set(i, indices[i] + 1);
                        let ghost tseq = t@;
                        proof {
                            assert(tseq == indices@.update(i as int, (indices@[i as int] + 1) as usize));
                            assert(combo_valid(self.scores@, tseq));
                            lemma_combo_score_update(self.scores@, indices@, tseq, i as int);
                            lemma_combo_score_bounds(self.scores@, tseq);
                            assert(self.scores@[i as int]@[indices@[i as int] as int]
                                <= self.scores@[i as int]@[indices@[i as int] + 1]);
                            assert(spec_combo_score(self.scores@, tseq) >= self.emitted_floor@);
                        }
                        let mut total: u64 = 0;
                        let mut k: usize = 0;
                        while k < n
                            invariant
                                n == t@.len(),
                                t@ == tseq,
                                k <= n,
                                n <= 613_566_756,
                                self.scores == old(self).scores,
                                old(self).wf(),
                                combo_valid(self.scores@, tseq),
                                total == spec_combo_score(self.scores@.take(k as int), tseq.take(k as int)),
                                total <= k * 40_000_000,
                            decreases n - k,
                        {
                            proof {
                                assert(self.scores@.take(k as int + 1).drop_last()
                                    =~= self.scores@.take(k as int));
                                assert(tseq.take(k as int + 1).drop_last() =~= tseq.take(k as int));
                            }
                            total = total + self.scores[k][t[k]];
                            k = k + 1;
                        }
                        proof {
                            assert(self.scores@.take(n as int) =~= self.scores@);
                            assert(tseq.take(n as int) =~= tseq);
                            assert(total == spec_combo_score(self.scores@, tseq));
                        }
                        let ghost mid = self.entries();
                        let prio2 = u64::MAX - total;
                        pq_push(&mut self.heap, t, prio2);
                        proof {
                            assert(self.entries() == mid.insert(tseq, prio2));
                            assert forall|k2: Seq<usize>|
                                #[trigger] self.entries().dom().contains(k2) implies {
                                &&& combo_valid(self.scores@, k2)
                                &&& self.entries()[k2] == u64::MAX - spec_combo_score(
                                    self.scores@,
                                    k2,
                                )
                                &&& spec_combo_score(self.scores@, k2) >= self.emitted_floor@
                            } by {
                                if k2 == tseq {
                                    assert(self.entries()[k2] == prio2);
                                } else {
                                    assert(mid.dom().contains(k2));
                                    assert(self.entries()[k2] == mid[k2]);
                                }
                            }
                        }
                    }
                    i = i + 1;
                }
                Some(indices)
            },
        }
    }
}

} // verus!
