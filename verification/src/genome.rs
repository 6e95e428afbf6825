//! Genetic material: a flat, path-keyed mapping of scalar genes.
//!
//! Gene keys are slash-delimited ASCII paths; a genome keeps its genes
//! strictly sorted by key, so the key universe is canonical and
//! crossover can split it at one point.

use vstd::prelude::*;

verus! {

use crate::random::RandomSource;
use crate::scalar::Scalar;
use vstd::string::{is_ascii, StringSliceAdditionalSpecFns, StrSliceExecFns, StringExecFns};
use vstd::utf8::is_ascii_chars;

/// Strict lexicographic order on character sequences, by code point,
/// with a proper prefix ordered first.
pub open spec fn char_seq_lt(a: Seq<char>, b: Seq<char>) -> bool
    decreases a.len(),
{
    if b.len() == 0 {
        false
    } else if a.len() == 0 {
        true
    } else if a[0] == b[0] {
        char_seq_lt(a.skip(1), b.skip(1))
    } else {
        (a[0] as int) < (b[0] as int)
    }
}

/// The order is irreflexive.
pub proof fn lemma_lt_irrefl(a: Seq<char>)
    ensures
        !char_seq_lt(a, a),
    decreases a.len(),
{
    if a.len() > 0 {
        lemma_lt_irrefl(a.skip(1));
    }
}

/// The order is total: two sequences are equal or one precedes the other.
pub proof fn lemma_lt_total(a: Seq<char>, b: Seq<char>)
    ensures
        a == b || char_seq_lt(a, b) || char_seq_lt(b, a),
    decreases a.len(),
{
    if a.len() == 0 && b.len() == 0 {
        assert(a =~= b);
    } else if a.len() > 0 && b.len() > 0 && a[0] == b[0] {
        lemma_lt_total(a.skip(1), b.skip(1));
        if a.skip(1) == b.skip(1) {
            assert(a.skip(1).len() == b.skip(1).len());
            assert forall|i: int| 0 <= i < a.len() implies a[i] == b[i] by {
                if i > 0 {
                    assert(a.skip(1)[i - 1] == a[i]);
                    assert(b.skip(1)[i - 1] == b[i]);
                }
            }
            assert(a =~= b);
        }
    }
}

/// The order is transitive.
pub proof fn lemma_lt_trans(a: Seq<char>, b: Seq<char>, c: Seq<char>)
    requires
        char_seq_lt(a, b),
        char_seq_lt(b, c),
    ensures
        char_seq_lt(a, c),
    decreases a.len() + b.len() + c.len(),
{
    if a.len() > 0 && b.len() > 0 && c.len() > 0 && a[0] == b[0] && b[0] == c[0] {
        lemma_lt_trans(a.skip(1), b.skip(1), c.skip(1));
    }
}

/// The order is asymmetric.
pub proof fn lemma_lt_asym(a: Seq<char>, b: Seq<char>)
    requires
        char_seq_lt(a, b),
    ensures
        !char_seq_lt(b, a),
        a != b,
    decreases a.len(),
{
    if a.len() > 0 && b.len() > 0 && a[0] == b[0] {
        lemma_lt_asym(a.skip(1), b.skip(1));
        assert(a != b) by {
            if a == b {
                lemma_lt_irrefl(a);
            }
        }
    } else {
        if a == b {
            lemma_lt_irrefl(a);
        }
    }
}

/// Whether the string's characters precede the other's, decided on the
/// ASCII bytes.
pub fn key_lt(a: &str, b: &str) -> (r: bool)
    requires
        a.is_ascii(),
        b.is_ascii(),
    ensures
        r == char_seq_lt(a@, b@),
{
    proof {
        broadcast use vstd::string::is_ascii_spec_bytes;

    }
    let ab = a.as_bytes();
    let bb = b.as_bytes();
    let la = ab.len();
    let lb = bb.len();
    let mut i: usize = 0;
    proof {
        assert(a@.skip(0) =~= a@);
        assert(b@.skip(0) =~= b@);
    }
    loop
        invariant
            a.is_ascii(),
            b.is_ascii(),
            ab@ == a.spec_bytes(),
            bb@ == b.spec_bytes(),
            la == a@.len(),
            lb == b@.len(),
            i <= la,
            i <= lb,
            char_seq_lt(a@, b@) == char_seq_lt(a@.skip(i as int), b@.skip(i as int)),
        decreases la - i,
    {
        if i >= la || i >= lb {
            return i >= la && i < lb;
        }
        let ca = ab[i];
        let cb = bb[i];
        proof {
            assert(a@[i as int] as u8 == ca);
            assert(b@[i as int] as u8 == cb);
            assert(a@[i as int] <= '\u{7f}');
            assert(b@[i as int] <= '\u{7f}');
            assert(a@.skip(i as int)[0] == a@[i as int]);
            assert(b@.skip(i as int)[0] == b@[i as int]);
        }
        if ca != cb {
            proof {
                assert(a@[i as int] != b@[i as int]);
            }
            return ca < cb;
        }
        proof {
            assert(a@[i as int] == b@[i as int]);
            assert(a@.skip(i as int).skip(1) =~= a@.skip(i as int + 1));
            assert(b@.skip(i as int).skip(1) =~= b@.skip(i as int + 1));
        }
        i = i + 1;
    }
}

/// One gene: a scalar value.
#[derive(Clone, Copy, PartialEq, Eq, Structural, Debug)]
pub struct Gen {
    pub value: Scalar,
}

/// Well-formed gene lists: ASCII keys in strictly ascending order.
pub open spec fn genes_wf(genes: Seq<(String, Gen)>) -> bool {
    &&& forall|i: int, j: int|
        0 <= i < j < genes.len() ==> char_seq_lt(
            (#[trigger] genes[i]).0@,
            (#[trigger] genes[j]).0@,
        )
    &&& forall|i: int| 0 <= i < genes.len() ==> is_ascii_chars((#[trigger] genes[i]).0@)
}

/// Whether some gene carries the given key.
pub open spec fn genes_has(genes: Seq<(String, Gen)>, key: Seq<char>) -> bool {
    exists|i: int| 0 <= i < genes.len() && (#[trigger] genes[i]).0@ == key
}

/// The position of the gene with the given key.
pub open spec fn genes_idx(genes: Seq<(String, Gen)>, key: Seq<char>) -> int {
    choose|i: int| 0 <= i < genes.len() && (#[trigger] genes[i]).0@ == key
}

/// The gene stored under the given key.
pub open spec fn genes_at(genes: Seq<(String, Gen)>, key: Seq<char>) -> Gen {
    genes[genes_idx(genes, key)].1
}

/// Under well-formedness a key names at most one position.
pub proof fn lemma_genes_idx_is(genes: Seq<(String, Gen)>, key: Seq<char>, i: int)
    requires
        genes_wf(genes),
        0 <= i < genes.len(),
        genes[i].0@ == key,
    ensures
        genes_has(genes, key),
        genes_idx(genes, key) == i,
{
    assert(genes_has(genes, key));
    let j = genes_idx(genes, key);
    if j < i {
        lemma_lt_asym(genes[j].0@, genes[i].0@);
    } else if i < j {
        lemma_lt_asym(genes[i].0@, genes[j].0@);
    }
}

/// Finds the sorted position for a key: every gene before it is
/// strictly smaller, and the gene at it (if any) is not smaller.
fn find_pos(genes: &Vec<(String, Gen)>, key: &String) -> (idx: usize)
    requires
        genes_wf(genes@),
        is_ascii_chars(key@),
    ensures
        idx <= genes@.len(),
        forall|k: int| 0 <= k < idx ==> char_seq_lt((#[trigger] genes@[k]).0@, key@),
        idx < genes@.len() ==> !char_seq_lt(genes@[idx as int].0@, key@),
{
    let n = genes.len();
    let mut idx: usize = 0;
    while idx < n
        invariant
            genes_wf(genes@),
            is_ascii_chars(key@),
            n == genes@.len(),
            idx <= n,
            forall|k: int| 0 <= k < idx ==> char_seq_lt((#[trigger] genes@[k]).0@, key@),
        decreases n - idx,
    {
        if !key_lt(genes[idx].0.as_str(), key.as_str()) {
            return idx;
        }
        idx = idx + 1;
    }
    idx
}

/// Overwriting the gene at the key's own position keeps the list
/// well-formed and only changes that key's value.
#[verifier::spinoff_prover]
pub proof fn lemma_replace_gene(
    pre: Seq<(String, Gen)>,
    cur: Seq<(String, Gen)>,
    key: Seq<char>,
    gen: Gen,
    idx: int,
)
    requires
        genes_wf(pre),
        0 <= idx < pre.len(),
        pre[idx].0@ == key,
        cur == pre.update(idx, (pre[idx].0, gen)),
    ensures
        genes_wf(cur),
        genes_has(cur, key),
        genes_at(cur, key) == gen,
        forall|k: Seq<char>| #[trigger] genes_has(cur, k) <==> genes_has(pre, k),
        forall|k: Seq<char>|
            genes_has(pre, k) && k != key ==> #[trigger] genes_at(cur, k) == genes_at(pre, k),
        cur.len() == pre.len(),
{
    assert forall|a: int, b: int|
        0 <= a < b < cur.len() implies char_seq_lt((#[trigger] cur[a]).0@, (#[trigger] cur[b]).0@)
        by {
        assert(cur[a].0 == pre[a].0);
        assert(cur[b].0 == pre[b].0);
    }
    assert forall|i: int| 0 <= i < cur.len() implies is_ascii_chars((#[trigger] cur[i]).0@) by {
        assert(cur[i].0 == pre[i].0);
    }
    lemma_genes_idx_is(cur, key, idx);
    assert forall|k: Seq<char>| #[trigger] genes_has(cur, k) <==> genes_has(pre, k) by {
        if genes_has(cur, k) {
            let i = genes_idx(cur, k);
            assert(pre[i].0@ == cur[i].0@);
        }
        if genes_has(pre, k) {
            let i = genes_idx(pre, k);
            assert(cur[i].0@ == pre[i].0@);
            assert(genes_has(cur, k));
        }
    }
    assert forall|k: Seq<char>|
        genes_has(pre, k) && k != key implies #[trigger] genes_at(cur, k) == genes_at(pre, k) by {
        let i = genes_idx(pre, k);
        lemma_genes_idx_is(pre, k, i);
        assert(cur[i].0@ == k);
        lemma_genes_idx_is(cur, k, i);
        if i == idx {
        }
    }
}

/// Inserting a fresh gene at its sorted position keeps the list
/// well-formed, adds exactly that key, and changes no other value.
#[verifier::rlimit(60)]
#[verifier::spinoff_prover]
pub proof fn lemma_insert_gene(
    pre: Seq<(String, Gen)>,
    cur: Seq<(String, Gen)>,
    key: String,
    gen: Gen,
    idx: int,
)
    requires
        genes_wf(pre),
        is_ascii_chars(key@),
        0 <= idx <= pre.len(),
        forall|k: int| 0 <= k < idx ==> char_seq_lt((#[trigger] pre[k]).0@, key@),
        idx < pre.len() ==> !char_seq_lt(pre[idx].0@, key@) && pre[idx].0@ != key@,
        cur == pre.insert(idx, (key, gen)),
    ensures
        genes_wf(cur),
        genes_has(cur, key@),
        genes_at(cur, key@) == gen,
        !genes_has(pre, key@),
        forall|k: Seq<char>|
            #[trigger] genes_has(cur, k) <==> (genes_has(pre, k) || k == key@),
        forall|k: Seq<char>|
            genes_has(pre, k) && k != key@ ==> #[trigger] genes_at(cur, k) == genes_at(pre, k),
        cur.len() == pre.len() + 1,
{
    pre.insert_ensures(idx, (key, gen));
    assert(!genes_has(pre, key@)) by {
        if genes_has(pre, key@) {
            let i = genes_idx(pre, key@);
            if i < idx {
                lemma_lt_irrefl(key@);
            } else {
                assert(idx < pre.len());
                if i == idx {
                } else {
                    lemma_lt_total(pre[idx].0@, key@);
                    lemma_lt_trans(key@, pre[idx].0@, pre[i].0@);
                    lemma_lt_irrefl(key@);
                }
            }
        }
    }
    assert forall|a: int, b: int|
        0 <= a < b < cur.len() implies char_seq_lt((#[trigger] cur[a]).0@, (#[trigger] cur[b]).0@)
        by {
        if a == idx {
            assert(cur[b] == pre[b - 1]);
            lemma_lt_total(key@, pre[b - 1].0@);
            if pre[b - 1].0@ == key@ {
                lemma_genes_idx_is(pre, key@, b - 1);
            }
            if char_seq_lt(pre[b - 1].0@, key@) {
                if b - 1 == idx {
                    lemma_lt_total(pre[idx].0@, key@);
                } else {
                    assert(char_seq_lt(pre[idx].0@, pre[b - 1].0@));
                    lemma_lt_trans(pre[idx].0@, pre[b - 1].0@, key@);
                    lemma_lt_total(pre[idx].0@, key@);
                }
            }
        } else if b == idx {
            assert(cur[a] == pre[a]);
        } else {
            let ia = if a < idx { a } else { a - 1 };
            let ib = if b < idx { b } else { b - 1 };
            assert(cur[a] == pre[ia]);
            assert(cur[b] == pre[ib]);
            if ia < idx && ib >= idx && ia == ib {
            }
            if ia == ib {
                assert(a < idx && b > idx);
                assert(char_seq_lt(pre[ia].0@, key@));
                assert(!char_seq_lt(pre[ib].0@, key@));
            }
        }
    }
    assert forall|i: int| 0 <= i < cur.len() implies is_ascii_chars((#[trigger] cur[i]).0@) by {
        if i < idx {
            assert(cur[i] == pre[i]);
        } else if i == idx {
        } else {
            assert(cur[i] == pre[i - 1]);
        }
    }
    lemma_genes_idx_is(cur, key@, idx);
    assert forall|k: Seq<char>|
        #[trigger] genes_has(cur, k) <==> (genes_has(pre, k) || k == key@) by {
        if genes_has(cur, k) && k != key@ {
            let i = genes_idx(cur, k);
            let pi = if i < idx { i } else { i - 1 };
            assert(cur[i] == pre[pi]);
            assert(pre[pi].0@ == k);
            assert(genes_has(pre, k));
        }
        if genes_has(pre, k) {
            let i = genes_idx(pre, k);
            let ci = if i < idx { i } else { i + 1 };
            assert(cur[ci] == pre[i]);
            assert(genes_has(cur, k));
        }
    }
    assert forall|k: Seq<char>|
        genes_has(pre, k) && k != key@ implies #[trigger] genes_at(cur, k) == genes_at(pre, k) by {
        let i = genes_idx(pre, k);
        lemma_genes_idx_is(pre, k, i);
        let ci = if i < idx { i } else { i + 1 };
        assert(cur[ci] == pre[i]);
        lemma_genes_idx_is(cur, k, ci);
    }
}

/// Inserts a gene into a sorted list: an existing key is overwritten,
/// a fresh key takes its sorted position.
fn insert_gene(genes: &mut Vec<(String, Gen)>, key: String, gen: Gen)
    requires
        genes_wf(old(genes)@),
        is_ascii_chars(key@),
    ensures
        genes_wf(final(genes)@),
        genes_has(final(genes)@, key@),
        genes_at(final(genes)@, key@) == gen,
        forall|k: Seq<char>|
            #[trigger] genes_has(final(genes)@, k) <==> (genes_has(old(genes)@, k) || k == key@),
        forall|k: Seq<char>|
            genes_has(old(genes)@, k) && k != key@ ==> #[trigger] genes_at(final(genes)@, k)
                == genes_at(old(genes)@, k),
        final(genes)@.len() == old(genes)@.len() + (if genes_has(old(genes)@, key@) {
            0int
        } else {
            1int
        }),
{
    let n = genes.len();
    let idx = find_pos(genes, &key);
    if idx < n && genes[idx].0 == key {
        let ghost pre = genes@;
        let slot = &mut genes[idx];
        slot.1 = gen;
        proof {
            assert(genes@ =~= pre.update(idx as int, (pre[idx as int].0, gen)));
            lemma_replace_gene(pre, genes@, key@, gen, idx as int);
            lemma_genes_idx_is(pre, key@, idx as int);
        }
    } else {
        let ghost pre = genes@;
        genes.insert(idx, (key, gen));
        proof {
            lemma_insert_gene(pre, genes@, key, gen, idx as int);
        }
    }
}

/// An ordered mapping from slash-delimited paths to scalar genes.
#[derive(Debug)]
pub struct Genome {
    pub genes: Vec<(String, Gen)>,
}

impl Genome {
    /// Keys strictly sorted and ASCII.
    pub open spec fn wf(self) -> bool {
        genes_wf(self.genes@)
    }

    /// The key universe, in order.
    pub open spec fn keys(self) -> Seq<Seq<char>> {
        self.genes@.map(|i: int, e: (String, Gen)| e.0@)
    }

    /// Number of genes.
    pub fn len(&self) -> (r: usize)
        ensures
            r == self.genes@.len(),
    {
        self.genes.len()
    }

    /// Looks a gene up by its path.
    pub fn get(&self, key: &String) -> (r: Option<Gen>)
        requires
            self.wf(),
            is_ascii_chars(key@),
        ensures
            match r {
                Some(g) => genes_has(self.genes@, key@) && g == genes_at(self.genes@, key@),
                None => !genes_has(self.genes@, key@),
            },
    {
        let idx = find_pos(&self.genes, key);
        if idx < self.genes.len() && self.genes[idx].0 == *key {
            proof {
                lemma_genes_idx_is(self.genes@, key@, idx as int);
            }
            Some(self.genes[idx].1)
        } else {
            proof {
                if genes_has(self.genes@, key@) {
                    let i = genes_idx(self.genes@, key@);
                    if i < idx as int {
                        lemma_lt_irrefl(key@);
                    } else if idx < self.genes@.len() {
                        if i == idx as int {
                        } else {
                            lemma_lt_total(self.genes@[idx as int].0@, key@);
                            lemma_lt_trans(key@, self.genes@[idx as int].0@, self.genes@[i].0@);
                            lemma_lt_irrefl(key@);
                        }
                    }
                }
            }
            None
        }
    }

    /// A fresh genome with the same keys and values.
    pub fn duplicate(&self) -> (r: Genome)
        requires
            self.wf(),
        ensures
            r.wf(),
            genome_matches(r, *self),
    {
        let n = self.genes.len();
        let mut out: Vec<(String, Gen)> = Vec::new();
        let mut i: usize = 0;
        while i < n
            invariant
                self.wf(),
                n == self.genes@.len(),
                i <= n,
                out@.len() == i,
                forall|k: int|
                    0 <= k < i ==> (#[trigger] out@[k]).0@ == self.genes@[k].0@ && out@[k].1
                        == self.genes@[k].1,
            decreases n - i,
        {
            out.push((self.genes[i].0.clone(), self.genes[i].1));
            i = i + 1;
        }
        let r = Genome { genes: out };
        proof {
            assert forall|a: int, b: int|
                0 <= a < b < r.genes@.len() implies char_seq_lt(
                (#[trigger] r.genes@[a]).0@,
                (#[trigger] r.genes@[b]).0@,
            ) by {
                assert(r.genes@[a].0@ == self.genes@[a].0@);
                assert(r.genes@[b].0@ == self.genes@[b].0@);
            }
            assert forall|i2: int| 0 <= i2 < r.genes@.len() implies is_ascii_chars(
                (#[trigger] r.genes@[i2]).0@,
            ) by {
                assert(r.genes@[i2].0@ == self.genes@[i2].0@);
            }
        }
        r
    }
}

/// Two genomes hold the same mapping: equal key sequences and equal
/// gene values, position by position.
pub open spec fn genome_matches(a: Genome, b: Genome) -> bool {
    &&& a.genes@.len() == b.genes@.len()
    &&& forall|i: int|
        0 <= i < a.genes@.len() ==> (#[trigger] a.genes@[i]).0@ == b.genes@[i].0@
            && a.genes@[i].1 == b.genes@[i].1
}

/// The sorted union of two sorted gene lists; beside each key, the
/// gene taken when the first parent is preferred and the gene taken
/// when the second is.
pub open spec fn merged_genes(a: Seq<(String, Gen)>, b: Seq<(String, Gen)>) -> Seq<
    (Seq<char>, Gen, Gen),
>
    decreases a.len() + b.len(),
{
    if a.len() == 0 && b.len() == 0 {
        Seq::empty()
    } else if b.len() == 0 {
        seq![(a[0].0@, a[0].1, a[0].1)] + merged_genes(a.skip(1), b)
    } else if a.len() == 0 {
        seq![(b[0].0@, b[0].1, b[0].1)] + merged_genes(a, b.skip(1))
    } else if a[0].0@ == b[0].0@ {
        seq![(a[0].0@, a[0].1, b[0].1)] + merged_genes(a.skip(1), b.skip(1))
    } else if char_seq_lt(a[0].0@, b[0].0@) {
        seq![(a[0].0@, a[0].1, a[0].1)] + merged_genes(a.skip(1), b)
    } else {
        seq![(b[0].0@, b[0].1, b[0].1)] + merged_genes(a, b.skip(1))
    }
}

/// The union of two well-formed gene lists is well-formed: its keys
/// are strictly sorted ASCII keys drawn from the two parents, and it
/// is at least as long as either parent.
#[verifier::rlimit(80)]
#[verifier::spinoff_prover]
pub proof fn lemma_merged_wf(a: Seq<(String, Gen)>, b: Seq<(String, Gen)>)
    requires
        genes_wf(a),
        genes_wf(b),
    ensures
        ({
            let m = merged_genes(a, b);
            &&& m.len() >= a.len()
            &&& m.len() >= b.len()
            &&& forall|p: int, q: int|
                0 <= p < q < m.len() ==> char_seq_lt((#[trigger] m[p]).0, (#[trigger] m[q]).0)
            &&& forall|p: int| 0 <= p < m.len() ==> is_ascii_chars((#[trigger] m[p]).0)
            &&& forall|p: int|
                0 <= p < m.len() ==> (exists|i: int| 0 <= i < a.len() && (#[trigger] a[i]).0@ == (
                #[trigger] m[p]).0) || (exists|j: int|
                    0 <= j < b.len() && (#[trigger] b[j]).0@ == m[p].0)
        }),
    decreases a.len() + b.len(),
{
    let m = merged_genes(a, b);
    if a.len() == 0 && b.len() == 0 {
    } else {
        let drop_a = a.len() > 0 && (b.len() == 0 || a[0].0@ == b[0].0@ || char_seq_lt(
            a[0].0@,
            b[0].0@,
        ));
        let drop_b = b.len() > 0 && (a.len() == 0 || a[0].0@ == b[0].0@ || (a.len() > 0
            && !char_seq_lt(a[0].0@, b[0].0@) && a[0].0@ != b[0].0@));
        let ra: Seq<(String, Gen)> = if drop_a {
            a.skip(1)
        } else {
            a
        };
        let rb: Seq<(String, Gen)> = if drop_b {
            b.skip(1)
        } else {
            b
        };
        if a.len() > 0 && b.len() > 0 && !char_seq_lt(a[0].0@, b[0].0@) && a[0].0@ != b[0].0@ {
            lemma_lt_total(a[0].0@, b[0].0@);
            assert(char_seq_lt(b[0].0@, a[0].0@));
        }
        assert(genes_wf(ra)) by {
            if drop_a {
                assert forall|i: int, j: int|
                    0 <= i < j < ra.len() implies char_seq_lt(
                    (#[trigger] ra[i]).0@,
                    (#[trigger] ra[j]).0@,
                ) by {
                    assert(ra[i] == a[i + 1]);
                    assert(ra[j] == a[j + 1]);
                }
                assert forall|i: int| 0 <= i < ra.len() implies is_ascii_chars(
                    (#[trigger] ra[i]).0@,
                ) by {
                    assert(ra[i] == a[i + 1]);
                }
            }
        }
        assert(genes_wf(rb)) by {
            if drop_b {
                assert forall|i: int, j: int|
                    0 <= i < j < rb.len() implies char_seq_lt(
                    (#[trigger] rb[i]).0@,
                    (#[trigger] rb[j]).0@,
                ) by {
                    assert(rb[i] == b[i + 1]);
                    assert(rb[j] == b[j + 1]);
                }
                assert forall|i: int| 0 <= i < rb.len() implies is_ascii_chars(
                    (#[trigger] rb[i]).0@,
                ) by {
                    assert(rb[i] == b[i + 1]);
                }
            }
        }
        lemma_merged_wf(ra, rb);
        let rest = merged_genes(ra, rb);
        let head = m[0];
        assert(m == seq![head] + rest);
        assert(drop_a ==> head.0 == a[0].0@);
        assert(!drop_a ==> head.0 == b[0].0@);
        assert forall|p: int| 1 <= p < m.len() implies char_seq_lt(
            head.0,
            (#[trigger] m[p]).0,
        ) by {
            assert(m[p] == rest[p - 1]);
            let k = rest[p - 1].0;
            if exists|i: int| 0 <= i < ra.len() && (#[trigger] ra[i]).0@ == k {
                let i = choose|i: int| 0 <= i < ra.len() && (#[trigger] ra[i]).0@ == k;
                if drop_a {
                    assert(ra[i] == a[i + 1]);
                    assert(char_seq_lt(a[0].0@, a[i + 1].0@));
                } else {
                    // the head is b's and precedes every key of a
                    assert(ra[i] == a[i]);
                    assert(head.0 == b[0].0@);
                    assert(char_seq_lt(b[0].0@, a[0].0@));
                    if i > 0 {
                        assert(char_seq_lt(a[0].0@, a[i].0@));
                        lemma_lt_trans(b[0].0@, a[0].0@, a[i].0@);
                    }
                }
            } else {
                let j = choose|j: int| 0 <= j < rb.len() && (#[trigger] rb[j]).0@ == k;
                if drop_b {
                    assert(rb[j] == b[j + 1]);
                    assert(char_seq_lt(b[0].0@, b[j + 1].0@));
                    if drop_a {
                        if a[0].0@ == b[0].0@ {
                        } else {
                            lemma_lt_trans(a[0].0@, b[0].0@, b[j + 1].0@);
                        }
                    }
                } else {
                    // the head is a's and precedes every key of b
                    assert(rb[j] == b[j]);
                    assert(head.0 == a[0].0@);
                    assert(char_seq_lt(a[0].0@, b[0].0@));
                    if j > 0 {
                        assert(char_seq_lt(b[0].0@, b[j].0@));
                        lemma_lt_trans(a[0].0@, b[0].0@, b[j].0@);
                    }
                }
            }
        }
        assert forall|p: int, q: int|
            0 <= p < q < m.len() implies char_seq_lt((#[trigger] m[p]).0, (#[trigger] m[q]).0) by {
            if p == 0 {
            } else {
                assert(m[p] == rest[p - 1]);
                assert(m[q] == rest[q - 1]);
            }
        }
        assert forall|p: int| 0 <= p < m.len() implies is_ascii_chars((#[trigger] m[p]).0) by {
            if p > 0 {
                assert(m[p] == rest[p - 1]);
            }
        }
        assert forall|p: int|
            0 <= p < m.len() implies (exists|i: int|
                0 <= i < a.len() && (#[trigger] a[i]).0@ == (#[trigger] m[p]).0) || (exists|j: int|
                0 <= j < b.len() && (#[trigger] b[j]).0@ == m[p].0) by {
            if p == 0 {
                if drop_a {
                    assert(a[0].0@ == m[0].0);
                } else {
                    assert(b[0].0@ == m[0].0);
                }
            } else {
                assert(m[p] == rest[p - 1]);
                let k = rest[p - 1].0;
                if exists|i: int| 0 <= i < ra.len() && (#[trigger] ra[i]).0@ == k {
                    let i = choose|i: int| 0 <= i < ra.len() && (#[trigger] ra[i]).0@ == k;
                    if drop_a {
                        assert(a[i + 1].0@ == k);
                    } else {
                        assert(a[i].0@ == k);
                    }
                } else {
                    let j = choose|j: int| 0 <= j < rb.len() && (#[trigger] rb[j]).0@ == k;
                    if drop_b {
                        assert(b[j + 1].0@ == k);
                    } else {
                        assert(b[j].0@ == k);
                    }
                }
            }
        }
    }
}

/// Crossing a genome with itself merges into the genome itself: every
/// key keeps its own gene on both sides, so any one-point split hands
/// back the original key universe and values.
pub proof fn lemma_merged_self(g: Seq<(String, Gen)>)
    requires
        genes_wf(g),
    ensures
        merged_genes(g, g).len() == g.len(),
        forall|p: int|
            0 <= p < g.len() ==> (#[trigger] merged_genes(g, g)[p]) == (g[p].0@, g[p].1, g[p].1),
    decreases g.len(),
{
    if g.len() > 0 {
        let rest = g.skip(1);
        assert(genes_wf(rest)) by {
            assert forall|i: int, j: int|
                0 <= i < j < rest.len() implies char_seq_lt(
                (#[trigger] rest[i]).0@,
                (#[trigger] rest[j]).0@,
            ) by {
                assert(rest[i] == g[i + 1]);
                assert(rest[j] == g[j + 1]);
            }
            assert forall|i: int| 0 <= i < rest.len() implies is_ascii_chars(
                (#[trigger] rest[i]).0@,
            ) by {
                assert(rest[i] == g[i + 1]);
            }
        }
        lemma_merged_self(rest);
        assert forall|p: int|
            0 <= p < g.len() implies (#[trigger] merged_genes(g, g)[p]) == (
            g[p].0@,
            g[p].1,
            g[p].1,
        ) by {
            if p > 0 {
                assert(merged_genes(g, g)[p] == merged_genes(rest, rest)[p - 1]);
                assert(rest[p - 1] == g[p]);
            }
        }
    }
}

/// One point of a crossover: the child's keys are exactly the sorted
/// union of the parents' keys, genes before the split coming from the
/// first parent where it has them, genes from the split on coming from
/// the second where it has them.
pub open spec fn cross_ok(
    a: Seq<(String, Gen)>,
    b: Seq<(String, Gen)>,
    r: Seq<(String, Gen)>,
    split: int,
) -> bool {
    let u = merged_genes(a, b);
    &&& r.len() == u.len()
    &&& 1 <= split <= u.len() - 1
    &&& forall|p: int|
        0 <= p < u.len() ==> (#[trigger] r[p]).0@ == u[p].0 && r[p].1 == (if p < split {
            u[p].1
        } else {
            u[p].2
        })
}

/// Builds the merged union of two sorted gene lists from the given
/// positions on, mirroring the union's recursion.
fn merge_from(
    a: &Vec<(String, Gen)>,
    b: &Vec<(String, Gen)>,
    i: usize,
    j: usize,
) -> (r: Vec<(String, Gen, Gen)>)
    requires
        genes_wf(a@),
        genes_wf(b@),
        i <= a@.len(),
        j <= b@.len(),
    ensures
        r@.len() == merged_genes(a@.skip(i as int), b@.skip(j as int)).len(),
        forall|p: int|
            0 <= p < r@.len() ==> ((#[trigger] r@[p]).0@, r@[p].1, r@[p].2) == merged_genes(
                a@.skip(i as int),
                b@.skip(j as int),
            )[p],
    decreases a@.len() - i + b@.len() - j,
{
    let ghost ra = a@.skip(i as int);
    let ghost rb = b@.skip(j as int);
    let na = a.len();
    let nb = b.len();
    if i >= na && j >= nb {
        proof {
            assert(ra =~= Seq::<(String, Gen)>::empty());
            assert(rb =~= Seq::<(String, Gen)>::empty());
        }
        Vec::new()
    } else {
        proof {
            if i < na {
                assert(ra[0] == a@[i as int]);
            }
            if j < nb {
                assert(rb[0] == b@[j as int]);
            }
        }
        let (head, i2, j2): ((String, Gen, Gen), usize, usize) = if j >= nb {
            ((a[i].0.clone(), a[i].1, a[i].1), i + 1, j)
        } else if i >= na {
            ((b[j].0.clone(), b[j].1, b[j].1), i, j + 1)
        } else if a[i].0 == b[j].0 {
            ((a[i].0.clone(), a[i].1, b[j].1), i + 1, j + 1)
        } else if key_lt(a[i].0.as_str(), b[j].0.as_str()) {
            ((a[i].0.clone(), a[i].1, a[i].1), i + 1, j)
        } else {
            proof {
                lemma_lt_total(a@[i as int].0@, b@[j as int].0@);
            }
            ((b[j].0.clone(), b[j].1, b[j].1), i, j + 1)
        };
        let mut rest = merge_from(a, b, i2, j2);
        let ghost rest_snap = rest@;
        let mut out: Vec<(String, Gen, Gen)> = Vec::new();
        out.push(head);
        out.append(&mut rest);
        proof {
            assert(a@.skip(i2 as int) =~= if i2 == i {
                ra
            } else {
                ra.skip(1)
            });
            assert(b@.skip(j2 as int) =~= if j2 == j {
                rb
            } else {
                rb.skip(1)
            });
            let m = merged_genes(ra, rb);
            assert(out@.len() == m.len());
            assert forall|p: int|
                0 <= p < out@.len() implies ((#[trigger] out@[p]).0@, out@[p].1, out@[p].2)
                    == m[p] by {
                if p > 0 {
                    assert(out@[p] == rest_snap[p - 1]);
                }
            }
        }
        out
    }
}

impl Genome {
    /// One-point crossover: the sorted union of the two key universes
    /// is split at a uniformly random interior point; keys before the
    /// split take this genome's gene where present, the rest take the
    /// other's.
    pub fn cross(&self, other: &Genome, rng: &mut RandomSource) -> (r: Genome)
        requires
            self.wf(),
            other.wf(),
            merged_genes(self.genes@, other.genes@).len() >= 2,
        ensures
            r.wf(),
            exists|split: int| #[trigger] cross_ok(self.genes@, other.genes@, r.genes@, split),
    {
        proof {
            lemma_merged_wf(self.genes@, other.genes@);
            assert(self.genes@.skip(0) =~= self.genes@);
            assert(other.genes@.skip(0) =~= other.genes@);
        }
        let ghost u = merged_genes(self.genes@, other.genes@);
        let merged = merge_from(&self.genes, &other.genes, 0, 0);
        let total = merged.len();
        let split = 1 + rng.index_below((total - 1) as u64) as usize;
        let mut out: Vec<(String, Gen)> = Vec::new();
        let mut p: usize = 0;
        while p < total
            invariant
                total == merged@.len(),
                total == u.len(),
                1 <= split <= total - 1,
                p <= total,
                out@.len() == p,
                forall|q: int|
                    0 <= q < merged@.len() ==> ((#[trigger] merged@[q]).0@, merged@[q].1,
                        merged@[q].2) == u[q],
                forall|q: int|
                    0 <= q < p ==> (#[trigger] out@[q]).0@ == u[q].0 && out@[q].1 == (if q
                        < split as int {
                        u[q].1
                    } else {
                        u[q].2
                    }),
            decreases total - p,
        {
            let e = &merged[p];
            if p < split {
                out.push((e.0.clone(), e.1));
            } else {
                out.push((e.0.clone(), e.2));
            }
            p = p + 1;
        }
        let r = Genome { genes: out };
        proof {
            lemma_merged_wf(self.genes@, other.genes@);
            assert forall|x: int, y: int|
                0 <= x < y < r.genes@.len() implies char_seq_lt(
                (#[trigger] r.genes@[x]).0@,
                (#[trigger] r.genes@[y]).0@,
            ) by {
                assert(r.genes@[x].0@ == u[x].0);
                assert(r.genes@[y].0@ == u[y].0);
            }
            assert forall|x: int| 0 <= x < r.genes@.len() implies is_ascii_chars(
                (#[trigger] r.genes@[x]).0@,
            ) by {
                assert(r.genes@[x].0@ == u[x].0);
            }
            assert(cross_ok(self.genes@, other.genes@, r.genes@, split as int));
        }
        r
    }
}

/// The prefix path a builder writes its genes under.
pub open spec fn joined_key(path: Option<String>, name: Seq<char>) -> Seq<char> {
    match path {
        Option::None => name,
        Option::Some(p) => p@ + seq!['/'] + name,
    }
}

/// Accumulates `(path, gene)` pairs; nested builders extend the path.
#[derive(Debug)]
pub struct GenomeBuilder {
    pub path: Option<String>,
    pub genes: Vec<(String, Gen)>,
}

impl GenomeBuilder {
    /// Sorted ASCII genes under an ASCII path.
    pub open spec fn wf(self) -> bool {
        &&& genes_wf(self.genes@)
        &&& match self.path {
            Option::None => true,
            Option::Some(p) => is_ascii_chars(p@),
        }
    }

    /// A root builder with no path and no genes.
    pub fn new() -> (r: GenomeBuilder)
        ensures
            r.wf(),
            r.genes@.len() == 0,
            r.path is None,
    {
        GenomeBuilder { path: None, genes: Vec::new() }
    }

    /// A child builder whose writes go under `path/name`, starting with
    /// no genes of its own; [`GenomeBuilder::absorb`] folds it back.
    pub fn nested(&self, name: &str) -> (r: GenomeBuilder)
        requires
            self.wf(),
            is_ascii(name),
        ensures
            r.wf(),
            r.genes@.len() == 0,
            r.path matches Some(p) && p@ == joined_key(self.path, name@),
    {
        let path = match &self.path {
            None => name.to_owned(),
            Some(p) => {
                let joined = p.clone().concat("/").concat(name);
                proof {
                    reveal_strlit("/");
                    assert("/"@ =~= seq!['/']);
                }
                joined
            },
        };
        proof {
            match &self.path {
                Option::None => {},
                Option::Some(p) => {
                    assert(path@ =~= p@ + seq!['/'] + name@);
                },
            }
            assert(is_ascii_chars(path@));
        }
        GenomeBuilder { path: Some(path), genes: Vec::new() }
    }

    /// Writes one gene under `path/name`, overriding an earlier gene of
    /// the same full path.
    pub fn add(&mut self, name: &str, gen: Gen)
        requires
            old(self).wf(),
            is_ascii(name),
        ensures
            final(self).wf(),
            final(self).path == old(self).path,
            genes_has(final(self).genes@, joined_key(old(self).path, name@)),
            genes_at(final(self).genes@, joined_key(old(self).path, name@)) == gen,
            forall|k: Seq<char>|
                #[trigger] genes_has(final(self).genes@, k) <==> (genes_has(old(self).genes@, k)
                    || k == joined_key(old(self).path, name@)),
            forall|k: Seq<char>|
                genes_has(old(self).genes@, k) && k != joined_key(old(self).path, name@)
                    ==> #[trigger] genes_at(final(self).genes@, k) == genes_at(
                    old(self).genes@,
                    k,
                ),
            final(self).genes@.len() >= old(self).genes@.len(),
            final(self).genes@.len() <= old(self).genes@.len() + 1,
    {
        let key = match &self.path {
            None => name.to_owned(),
            Some(p) => {
                let joined = p.clone().concat("/").concat(name);
                proof {
                    reveal_strlit("/");
                    assert("/"@ =~= seq!['/']);
                }
                joined
            },
        };
        proof {
            match &self.path {
                Option::None => {},
                Option::Some(p) => {
                    assert(key@ =~= p@ + seq!['/'] + name@);
                },
            }
            assert(is_ascii_chars(key@));
        }
        insert_gene(&mut self.genes, key, gen);
    }

    /// Folds a child builder's genes into this one; on a shared full
    /// path the child's gene wins.
    pub fn absorb(&mut self, child: GenomeBuilder)
        requires
            old(self).wf(),
            child.wf(),
        ensures
            final(self).wf(),
            final(self).path == old(self).path,
            forall|k: Seq<char>|
                genes_has(old(self).genes@, k) || genes_has(child.genes@, k)
                    ==> #[trigger] genes_has(final(self).genes@, k),
            final(self).genes@.len() >= old(self).genes@.len(),
    {
        let n = child.genes.len();
        let moved = child.genes;
        let mut j: usize = 0;
        while j < n
            invariant
                old(self).wf(),
                self.path == old(self).path,
                self.wf(),
                n == moved@.len(),
                genes_wf(moved@),
                j <= n,
                forall|k: Seq<char>|
                    genes_has(old(self).genes@, k) ==> #[trigger] genes_has(self.genes@, k),
                forall|q: int|
                    0 <= q < j ==> #[trigger] genes_has(self.genes@, moved@[q].0@),
                self.genes@.len() >= old(self).genes@.len(),
            decreases n - j,
        {
            let key = moved[j].0.clone();
            let gen = moved[j].1;
            proof {
                assert(is_ascii_chars(moved@[j as int].0@));
            }
            insert_gene(&mut self.genes, key, gen);
            j = j + 1;
        }
        proof {
            assert forall|k: Seq<char>|
                genes_has(old(self).genes@, k) || genes_has(moved@, k) implies #[trigger] genes_has(
                self.genes@,
                k,
            ) by {
                if genes_has(moved@, k) {
                    let q = genes_idx(moved@, k);
                    assert(genes_has(self.genes@, moved@[q].0@));
                }
            }
        }
    }

    /// Closes the builder into a genome.
    pub fn build(self) -> (r: Genome)
        requires
            self.wf(),
        ensures
            r.wf(),
            r.genes@ == self.genes@,
    {
        Genome { genes: self.genes }
    }
}

/// A one-character string for a decimal digit.
fn digit_str(d: u64) -> (r: &'static str)
    requires
        d < 10,
    ensures
        is_ascii(r),
{
    if d == 0 {
        proof {
            reveal_strlit("0");
        }
        "0"
    } else if d == 1 {
        proof {
            reveal_strlit("1");
        }
        "1"
    } else if d == 2 {
        proof {
            reveal_strlit("2");
        }
        "2"
    } else if d == 3 {
        proof {
            reveal_strlit("3");
        }
        "3"
    } else if d == 4 {
        proof {
            reveal_strlit("4");
        }
        "4"
    } else if d == 5 {
        proof {
            reveal_strlit("5");
        }
        "5"
    } else if d == 6 {
        proof {
            reveal_strlit("6");
        }
        "6"
    } else if d == 7 {
        proof {
            reveal_strlit("7");
        }
        "7"
    } else if d == 8 {
        proof {
            reveal_strlit("8");
        }
        "8"
    } else {
        proof {
            reveal_strlit("9");
        }
        "9"
    }
}

/// The three-digit zero-padded decimal form of a small index.
pub fn dec3(n: u64) -> (r: String)
    requires
        n < 1000,
    ensures
        is_ascii_chars(r@),
{
    let d0 = digit_str(n / 100);
    let d1 = digit_str((n / 10) % 10);
    let d2 = digit_str(n % 10);
    let r = d0.to_owned().concat(d1).concat(d2);
    proof {
        assert(is_ascii_chars(r@)) by {
            assert(r@ =~= d0@ + d1@ + d2@);
        }
    }
    r
}

/// Types that can take heritable parameters back out of a genome.
pub trait ApplyGenome {
    fn apply_genome(&mut self, genome: &Genome)
        requires
            old(self).wf_for_genome(),
            genome.wf(),
        ensures
            final(self).wf_for_genome(),
    ;

    /// The invariant the application preserves.
    spec fn wf_for_genome(&self) -> bool;
}

/// Types that can write their parameters into a genome.
pub trait BuildGenome {
    fn build_genome(&self, builder: &mut GenomeBuilder)
        requires
            old(builder).wf(),
        ensures
            final(builder).wf(),
            final(builder).path == old(builder).path,
            final(builder).genes@.len() >= old(builder).genes@.len(),
    ;
}

} // verus!
