use vstd::prelude::*;

use rand::seq::SliceRandom;
use rand::SeedableRng;

use crate::table::{gather, Table};

verus! {

/// `p` lists each of `0..n` exactly once.
pub open spec fn is_permutation(p: Seq<usize>, n: nat) -> bool {
    &&& p.len() == n
    &&& forall|i: int| 0 <= i < p.len() ==> #[trigger] p[i] < n
    &&& p.no_duplicates()
}

/// The positions `0, 1, ..., n - 1` in order.
pub open spec fn identity(n: nat) -> Seq<usize> {
    Seq::new(n, |i: int| i as usize)
}

/// The smallest integer not below `a / b`.
pub open spec fn ceil_div(a: int, b: int) -> int {
    (a + b - 1) / b
}

/// Rows kept for training out of `n` when the fraction `num / den` is held
/// out for testing: `ceil(n * (1 - num / den))`.
pub open spec fn train_size(n: nat, num: nat, den: nat) -> int {
    ceil_div(n * (den - num) as int, den as int)
}

/// `train` and `test` are the rows of `rows` at `p[..k]` and `p[k..]`.
pub open spec fn split_by(
    rows: Seq<Seq<u64>>,
    p: Seq<usize>,
    k: int,
    train: Seq<Seq<u64>>,
    test: Seq<Seq<u64>>,
) -> bool {
    &&& train == gather(rows, p.subrange(0, k))
    &&& test == gather(rows, p.subrange(k, p.len() as int))
}

/// The order that the seeded shuffle gives to `items`.
pub uninterp spec fn seeded_order(seed: u64, items: Seq<usize>) -> Seq<usize>;

/// Relies on rand's `SliceRandom::shuffle` with `thread_rng`: the result is a
/// reordering of the same items.
#[verifier::external_body]
fn shuffle_randomly(v: &mut Vec<usize>)
    ensures
        final(v)@.to_multiset() == old(v)@.to_multiset(),
{
    v.shuffle(&mut rand::thread_rng());
}

/// Relies on rand's `SliceRandom::shuffle` driven by `StdRng::seed_from_u64`:
/// a reordering of the same items that depends on the seed and the items alone.
#[verifier::external_body]
fn shuffle_seeded(v: &mut Vec<usize>, seed: u64)
    ensures
        final(v)@.to_multiset() == old(v)@.to_multiset(),
        final(v)@ == seeded_order(seed, old(v)@),
{
    let mut rng = rand::rngs::StdRng::seed_from_u64(seed);
    v.shuffle(&mut rng);
}

proof fn lemma_identity_distinct(n: nat)
    requires
        n <= usize::MAX,
    ensures
        identity(n).no_duplicates(),
{
}

/// A reordering of `0..n` is a permutation of `0..n`.
pub proof fn lemma_reordered_identity(p: Seq<usize>, n: nat)
    requires
        n <= usize::MAX,
        p.to_multiset() == identity(n).to_multiset(),
    ensures
        is_permutation(p, n),
{
    let id = identity(n);
    lemma_identity_distinct(n);
    id.lemma_multiset_has_no_duplicates();
    p.to_multiset_ensures();
    id.to_multiset_ensures();
    p.lemma_multiset_has_no_duplicates_conv();
    assert forall|i: int| 0 <= i < p.len() implies #[trigger] p[i] < n by {
        assert(p.contains(p[i]));
        assert(p.to_multiset().count(p[i]) > 0);
        assert(id.to_multiset().count(p[i]) > 0);
        assert(id.contains(p[i]));
        let j = choose|j: int| 0 <= j < id.len() && id[j] == p[i];
    }
}

/// Splitting rows along a permutation of `0..n` at any cut `k` puts every
/// original row in exactly one side: the two index sets are disjoint, together
/// they cover `0..n`, and their sizes add up to `n`.
pub proof fn lemma_split_partitions(p: Seq<usize>, n: nat, k: int)
    requires
        n <= usize::MAX,
        is_permutation(p, n),
        0 <= k <= n,
    ensures
        p.subrange(0, k).len() + p.subrange(k, n as int).len() == n,
        p.subrange(0, k).to_set().disjoint(p.subrange(k, n as int).to_set()),
        p.subrange(0, k).to_set() + p.subrange(k, n as int).to_set() == Set::new(
            |x: usize| x < n,
        ),
{
    let a = p.subrange(0, k);
    let b = p.subrange(k, n as int);
    assert forall|x: usize| !(a.to_set().contains(x) && b.to_set().contains(x)) by {
        if a.to_set().contains(x) && b.to_set().contains(x) {
            assert(a.contains(x));
            assert(b.contains(x));
            let i = choose|i: int| 0 <= i < a.len() && a[i] == x;
            let j = choose|j: int| 0 <= j < b.len() && b[j] == x;
            assert(p[i] == p[k + j]);
        }
    }
    assert(a.to_set().disjoint(b.to_set()));
    // Every position below n occurs in p.
    let id = identity(n);
    assert(p.to_set().len() == n) by {
        p.unique_seq_to_set();
    }
    assert forall|x: usize| x < n implies #[trigger] p.contains(x) by {
        assert(p.to_set().subset_of(Set::new(|y: usize| y < n)));
        if !p.contains(x) {
            let s = Set::new(|y: usize| y < n);
            assert forall|y: usize| s.contains(y) <==> id.to_set().contains(y) by {
                if y < n {
                    assert(id[y as int] == y);
                }
            }
            assert(s =~= id.to_set());
            lemma_identity_distinct(n);
            id.unique_seq_to_set();
            assert(p.to_set().subset_of(s.remove(x)));
            vstd::set_lib::lemma_len_subset(p.to_set(), s.remove(x));
        }
    }
    assert forall|x: usize| #[trigger] (a.to_set() + b.to_set()).contains(x) == (x < n) by {
        if x < n {
            assert(p.contains(x));
            let i = choose|i: int| 0 <= i < p.len() && p[i] == x;
            if i < k {
                assert(a[i] == x);
            } else {
                assert(b[i - k] == x);
            }
        }
        if a.to_set().contains(x) {
            assert(a.contains(x));
        }
        if b.to_set().contains(x) {
            assert(b.contains(x));
        }
    }
    assert(a.to_set() + b.to_set() =~= Set::new(|x: usize| x < n));
}

/// Splitting is a function of the rows, the permutation and the cut: with a
/// fixed seed the permutation is fixed, so two runs give the same partition.
pub proof fn lemma_split_reproducible(
    rows: Seq<Seq<u64>>,
    p: Seq<usize>,
    k: int,
    train_a: Seq<Seq<u64>>,
    test_a: Seq<Seq<u64>>,
    train_b: Seq<Seq<u64>>,
    test_b: Seq<Seq<u64>>,
)
    requires
        split_by(rows, p, k, train_a, test_a),
        split_by(rows, p, k, train_b, test_b),
    ensures
        train_a == train_b,
        test_a == test_b,
{
}

/// The positions `0..n` in order.
pub fn identity_indices(n: usize) -> (r: Vec<usize>)
    ensures
        r@ == identity(n as nat),
{
    let mut out: Vec<usize> = Vec::new();
    let mut i: usize = 0;
    while i < n
        invariant
            i <= n,
            out@ == identity(i as nat),
        decreases n - i,
    {
        out.push(i);
        i += 1;
        assert(out@ =~= identity(i as nat));
    }
    out
}

/// The entries of `v` from `lo` up to `hi`.
pub fn sub_indices(v: &Vec<usize>, lo: usize, hi: usize) -> (r: Vec<usize>)
    requires
        lo <= hi <= v@.len(),
    ensures
        r@ == v@.subrange(lo as int, hi as int),
{
    let mut out: Vec<usize> = Vec::new();
    let mut i: usize = lo;
    while i < hi
        invariant
            lo <= i <= hi,
            hi <= v@.len(),
            out@ == v@.subrange(lo as int, i as int),
        decreases hi - i,
    {
        out.push(v[i]);
        i += 1;
        assert(out@ =~= v@.subrange(lo as int, i as int));
    }
    out
}

/// The split point: `ceil(n * (1 - num / den))`, never above `n`.
pub fn split_index(n: usize, test_num: u64, test_den: u64) -> (r: usize)
    requires
        0 < test_num < test_den,
    ensures
        r == train_size(n as nat, test_num as nat, test_den as nat),
        r <= n,
{
    let keep: u64 = test_den - test_num;
    let nn: u128 = n as u128;
    assert(nn * keep as u128 <= 0xffff_ffff_ffff_ffffu128 * 0xffff_ffff_ffff_ffffu128)
        by (nonlinear_arith)
        requires nn <= 0xffff_ffff_ffff_ffffu128, keep <= 0xffff_ffff_ffff_ffffu64;
    let total: u128 = nn * (keep as u128) + (test_den as u128) - 1;
    let q: u128 = total / (test_den as u128);
    proof {
        let a = n as int * keep as int;
        assert(a <= n as int * (test_den as int - 1)) by (nonlinear_arith)
            requires a == n as int * keep as int, keep < test_den, n >= 0;
        assert(a + test_den - 1 < (n as int + 1) * test_den as int) by (nonlinear_arith)
            requires a <= n as int * (test_den as int - 1), test_den > 0;
        vstd::arithmetic::div_mod::lemma_div_by_multiple_is_strongly_ordered(
            a + test_den - 1, (n as int + 1) * test_den as int, n as int + 1, test_den as int);
        assert(((n as int + 1) * test_den as int) / test_den as int == n as int + 1) by {
            vstd::arithmetic::div_mod::lemma_div_by_multiple(n as int + 1, test_den as int);
        }
    }
    q as usize
}

/// Splits the rows along the permutation `perm`: the first
/// `ceil(n * (1 - num / den))` positions of `perm` form the training set, the
/// rest the test set. An empty side is legal.
pub fn split_by_permutation(table: &Table, perm: &Vec<usize>, test_num: u64, test_den: u64) -> (r:
    (Table, Table))
    requires
        table.wf(),
        is_permutation(perm@, table.rows@.len()),
        0 < test_num < test_den,
    ensures
        r.0.wf() && r.1.wf(),
        r.0.names_view() == table.names_view(),
        r.1.names_view() == table.names_view(),
        split_by(
            table.rows_view(),
            perm@,
            train_size(table.rows@.len(), test_num as nat, test_den as nat),
            r.0.rows_view(),
            r.1.rows_view(),
        ),
{
    let n = table.height();
    let k = split_index(n, test_num, test_den);
    let train_idx = sub_indices(perm, 0, k);
    let test_idx = sub_indices(perm, k, n);
    let train = table.take(&train_idx);
    let test = table.take(&test_idx);
    (train, test)
}

/// Randomly splits the rows into a training and a test set, holding out the
/// fraction `test_num / test_den` (rounded down) for testing.
pub fn train_test_split(table: &Table, test_num: u64, test_den: u64) -> (r: (Table, Table))
    requires
        table.wf(),
        0 < test_num < test_den,
    ensures
        r.0.wf() && r.1.wf(),
        r.0.names_view() == table.names_view(),
        r.1.names_view() == table.names_view(),
        exists|p: Seq<usize>|
            is_permutation(p, table.rows@.len()) && #[trigger] split_by(
                table.rows_view(),
                p,
                train_size(table.rows@.len(), test_num as nat, test_den as nat),
                r.0.rows_view(),
                r.1.rows_view(),
            ),
{
    let mut indices = identity_indices(table.height());
    shuffle_randomly(&mut indices);
    proof {
        lemma_reordered_identity(indices@, table.rows@.len());
    }
    split_by_permutation(table, &indices, test_num, test_den)
}

/// Splits the rows as `train_test_split` does, with the permutation drawn
/// from a generator seeded by `seed`: the same table, fraction and seed give
/// the same split on every run.
pub fn train_test_split_seeded(table: &Table, test_num: u64, test_den: u64, seed: u64) -> (r: (
    Table,
    Table,
))
    requires
        table.wf(),
        0 < test_num < test_den,
    ensures
        r.0.wf() && r.1.wf(),
        r.0.names_view() == table.names_view(),
        r.1.names_view() == table.names_view(),
        is_permutation(seeded_order(seed, identity(table.rows@.len())), table.rows@.len()),
        split_by(
            table.rows_view(),
            seeded_order(seed, identity(table.rows@.len())),
            train_size(table.rows@.len(), test_num as nat, test_den as nat),
            r.0.rows_view(),
            r.1.rows_view(),
        ),
{
    let mut indices = identity_indices(table.height());
    shuffle_seeded(&mut indices, seed);
    proof {
        lemma_reordered_identity(indices@, table.rows@.len());
    }
    split_by_permutation(table, &indices, test_num, test_den)
}

} // verus!
