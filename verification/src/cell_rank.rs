//! A bounded, score-ordered pool of the genomes of deceased cells.
//!
//! Scores ascend; when the pool is full an insertion evicts the
//! lowest-scoring entry, so the pool always keeps the top scores.

use vstd::prelude::*;

verus! {

use crate::genome::{genome_matches, Genome};
use crate::random::RandomSource;
use crate::scalar::{min_i, Scalar};

/// Score-ordered genomes with a capacity.
pub struct CellRank {
    pub entries: Vec<(Scalar, Genome)>,
    pub max_size: usize,
}

/// Whether some entry carries the given score.
pub open spec fn rank_has(entries: Seq<(Scalar, Genome)>, score: Scalar) -> bool {
    exists|i: int| 0 <= i < entries.len() && (#[trigger] entries[i]).0 == score
}

impl CellRank {
    /// Scores strictly ascending, genomes well-formed, capacity positive.
    pub open spec fn wf(self) -> bool {
        &&& forall|i: int, j: int|
            0 <= i < j < self.entries@.len() ==> (#[trigger] self.entries@[i]).0.raw < (
            #[trigger] self.entries@[j]).0.raw
        &&& forall|i: int| 0 <= i < self.entries@.len() ==> (#[trigger] self.entries@[i]).1.wf()
        &&& self.max_size >= 1
        &&& self.entries@.len() <= self.max_size
    }

    /// An empty pool of the given capacity.
    pub fn new(max_size: usize) -> (r: CellRank)
        requires
            max_size >= 1,
        ensures
            r.wf(),
            r.entries@.len() == 0,
            r.max_size == max_size,
    {
        CellRank { entries: Vec::new(), max_size }
    }

    /// Number of pooled genomes.
    pub fn len(&self) -> (r: usize)
        ensures
            r == self.entries@.len(),
    {
        self.entries.len()
    }

    /// Finds the sorted position for a score.
    fn score_pos(entries: &Vec<(Scalar, Genome)>, score: Scalar) -> (idx: usize)
        requires
            forall|i: int, j: int|
                0 <= i < j < entries@.len() ==> (#[trigger] entries@[i]).0.raw < (
                #[trigger] entries@[j]).0.raw,
        ensures
            idx <= entries@.len(),
            forall|k: int| 0 <= k < idx ==> (#[trigger] entries@[k]).0.raw < score.raw,
            idx < entries@.len() ==> entries@[idx as int].0.raw >= score.raw,
    {
        let n = entries.len();
        let mut idx: usize = 0;
        while idx < n
            invariant
                n == entries@.len(),
                idx <= n,
                forall|k: int| 0 <= k < idx ==> (#[trigger] entries@[k]).0.raw < score.raw,
            decreases n - idx,
        {
            if entries[idx].0.raw >= score.raw {
                return idx;
            }
            idx = idx + 1;
        }
        idx
    }

    /// Inserts a genome under a score.  An existing equal score is
    /// replaced; otherwise the genome takes its sorted position, and if
    /// the pool then exceeds its capacity the lowest-scoring entry is
    /// evicted.  So after `k` insertions with distinct scores into a
    /// pool of capacity `n`, `min(k, n)` entries remain, always the top
    /// scores seen.
    pub fn insert(&mut self, score: Scalar, genome: Genome)
        requires
            old(self).wf(),
            genome.wf(),
        ensures
            final(self).wf(),
            final(self).max_size == old(self).max_size,
            final(self).entries@.len() == min_i(
                old(self).entries@.len() + (if rank_has(old(self).entries@, score) {
                    0int
                } else {
                    1int
                }),
                old(self).max_size as int,
            ),
            // an eviction only ever removes the old minimum score
            (old(self).entries@.len() == old(self).max_size && !rank_has(
                old(self).entries@,
                score,
            )) ==> forall|i: int|
                0 <= i < final(self).entries@.len() ==> (#[trigger] final(self).entries@[i]).0.raw
                    >= old(self).entries@[0].0.raw || final(self).entries@[i].0 == score,
            // the inserted pair is present, unless it arrived as the new
            // minimum of a full pool and was evicted at once
            (old(self).entries@.len() < old(self).max_size || rank_has(old(self).entries@, score)
                || (old(self).entries@.len() > 0 && score.raw > old(self).entries@[0].0.raw))
                ==> exists|i: int|
                0 <= i < final(self).entries@.len() && (#[trigger] final(self).entries@[i]) == (
                score,
                genome,
            ),
            // every entry not replaced and not evicted persists
            forall|j: int|
                0 <= j < old(self).entries@.len() && (#[trigger] old(self).entries@[j]).0 != score
                    && !(old(self).entries@.len() == old(self).max_size && !rank_has(
                    old(self).entries@,
                    score,
                ) && j == 0) ==> exists|i: int|
                    0 <= i < final(self).entries@.len() && (#[trigger] final(self).entries@[i])
                        == old(self).entries@[j],
    {
        let n = self.entries.len();
        let idx = CellRank::score_pos(&self.entries, score);
        if idx < n && self.entries[idx].0.raw == score.raw {
            let ghost pre = self.entries@;
            let slot = &mut self.entries[idx];
            slot.1 = genome;
            proof {
                assert(rank_has(pre, score));
                assert(self.entries@[idx as int] == (score, genome));
                assert forall|j: int|
                    0 <= j < pre.len() && (#[trigger] pre[j]).0 != score implies exists|i: int|
                    0 <= i < self.entries@.len() && (#[trigger] self.entries@[i]) == pre[j] by {
                    assert(self.entries@[j] == pre[j]);
                }
                assert forall|a: int, b: int|
                    0 <= a < b < self.entries@.len() implies (
                #[trigger] self.entries@[a]).0.raw < (#[trigger] self.entries@[b]).0.raw by {
                    assert(self.entries@[a].0 == pre[a].0);
                    assert(self.entries@[b].0 == pre[b].0);
                }
                assert forall|i: int| 0 <= i < self.entries@.len() implies (
                #[trigger] self.entries@[i]).1.wf() by {
                    if i != idx as int {
                        assert(self.entries@[i] == pre[i]);
                    }
                }
            }
        } else {
            let ghost pre = self.entries@;
            proof {
                assert(!rank_has(pre, score)) by {
                    if rank_has(pre, score) {
                        let i = choose|i: int|
                            0 <= i < pre.len() && (#[trigger] pre[i]).0 == score;
                        if i < idx as int {
                        } else if idx < n {
                            if i > idx as int {
                                assert(pre[idx as int].0.raw < pre[i].0.raw);
                            }
                        }
                    }
                }
            }
            self.entries.insert(idx, (score, genome));
            proof {
                pre.insert_ensures(idx as int, (score, genome));
                assert(self.entries@[idx as int] == (score, genome));
                assert forall|j: int| 0 <= j < pre.len() implies exists|i: int|
                    0 <= i < self.entries@.len() && (#[trigger] self.entries@[i]) == #[trigger] pre[j] by {
                    if j < idx as int {
                        assert(self.entries@[j] == pre[j]);
                    } else {
                        assert(self.entries@[j + 1] == pre[j]);
                    }
                }
                assert forall|a: int, b: int|
                    0 <= a < b < self.entries@.len() implies (
                #[trigger] self.entries@[a]).0.raw < (#[trigger] self.entries@[b]).0.raw by {
                    let ia = if a < idx as int {
                        a
                    } else {
                        a - 1
                    };
                    let ib = if b < idx as int {
                        b
                    } else {
                        b - 1
                    };
                    if a == idx as int {
                        assert(self.entries@[b] == pre[b - 1]);
                    } else if b == idx as int {
                        assert(self.entries@[a] == pre[a]);
                    } else {
                        assert(self.entries@[a] == pre[ia]);
                        assert(self.entries@[b] == pre[ib]);
                        if ia == ib {
                            assert(a < idx as int && b > idx as int);
                        }
                    }
                }
                assert forall|i: int| 0 <= i < self.entries@.len() implies (
                #[trigger] self.entries@[i]).1.wf() by {
                    if i < idx as int {
                        assert(self.entries@[i] == pre[i]);
                    } else if i > idx as int {
                        assert(self.entries@[i] == pre[i - 1]);
                    }
                }
            }
            if self.entries.len() > self.max_size {
                let ghost mid = self.entries@;
                let _ = self.entries.remove(0);
                proof {
                    mid.remove_ensures(0);
                    if idx > 0 {
                        assert(mid[idx as int] == (score, genome));
                        assert(self.entries@[idx as int - 1] == (score, genome));
                    }
                    if n > 0 && score.raw > pre[0].0.raw {
                        // the insertion point lies past the old minimum
                        assert(idx > 0) by {
                            if idx == 0 {
                                assert(pre[0].0.raw >= score.raw);
                            }
                        }
                    }
                    assert forall|j: int|
                        1 <= j < pre.len() && (#[trigger] pre[j]).0 != score implies exists|
                        i: int,
                    |
                        0 <= i < self.entries@.len() && (#[trigger] self.entries@[i]) == pre[j]
                        by {
                        if j < idx as int {
                            assert(mid[j] == pre[j]);
                            assert(self.entries@[j - 1] == pre[j]);
                        } else {
                            assert(mid[j + 1] == pre[j]);
                            assert(self.entries@[j] == pre[j]);
                        }
                    }
                    assert forall|a: int, b: int|
                        0 <= a < b < self.entries@.len() implies (
                    #[trigger] self.entries@[a]).0.raw < (#[trigger] self.entries@[b]).0.raw by {
                        assert(self.entries@[a] == mid[a + 1]);
                        assert(self.entries@[b] == mid[b + 1]);
                    }
                    assert forall|i: int| 0 <= i < self.entries@.len() implies (
                    #[trigger] self.entries@[i]).1.wf() by {
                        assert(self.entries@[i] == mid[i + 1]);
                    }
                    assert forall|i: int|
                        0 <= i < self.entries@.len() implies (#[trigger] self.entries@[i]).0.raw
                        >= pre[0].0.raw || self.entries@[i].0 == score by {
                        assert(self.entries@[i] == mid[i + 1]);
                        let pi = if i + 1 < idx as int {
                            i + 1
                        } else {
                            i
                        };
                        if i + 1 != idx as int {
                            assert(mid[i + 1] == pre[pi]);
                            if pi > 0 {
                                assert(pre[0].0.raw < pre[pi].0.raw);
                            }
                        }
                    }
                }
            }
        }
    }

    /// Hands back a copy of a uniformly chosen pooled genome, or
    /// nothing while the pool is empty.
    pub fn choose_random_genome(&self, rng: &mut RandomSource) -> (r: Option<Genome>)
        requires
            self.wf(),
        ensures
            r is Some <==> self.entries@.len() > 0,
            r matches Some(g) ==> g.wf() && (exists|i: int|
                0 <= i < self.entries@.len() && genome_matches(
                    g,
                    (#[trigger] self.entries@[i]).1,
                )),
    {
        let n = self.entries.len();
        if n == 0 {
            None
        } else {
            let k = rng.index_below(n as u64) as usize;
            proof {
                assert(self.entries@[k as int].1.wf());
            }
            Some(self.entries[k].1.duplicate())
        }
    }
}

} // verus!
