//! The speaking order of the roster: permutations of the soldiers, the
//! shuffle that draws one, and the way back to the order as typed.

use vstd::prelude::*;
use vstd::relations::injective_on;
use vstd::set_lib::{lemma_int_range, lemma_map_size, lemma_subset_equality, set_int_range};
use std::collections::hash_map::RandomState;
use std::hash::BuildHasher;

verus! {

/// `p` lists each of `0..n` exactly once.
pub open spec fn is_permutation(p: Seq<usize>, n: nat) -> bool {
    &&& p.len() == n
    &&& forall|i: int| 0 <= i < n ==> (#[trigger] p[i]) < n
    &&& forall|i: int, j: int| 0 <= i < n && 0 <= j < n && i != j ==> #[trigger] p[i] != #[trigger] p[j]
}

/// `0, 1, .., n-1`.
pub open spec fn identity(n: nat) -> Seq<usize> {
    Seq::new(n, |i: int| i as usize)
}

/// `s` rearranged by `p`: entry `i` of the result is entry `p[i]` of `s`.
pub open spec fn permuted<A>(s: Seq<A>, p: Seq<usize>) -> Seq<A> {
    Seq::new(p.len(), |i: int| s[p[i] as int])
}

/// `s` with entries `i` and `j` exchanged.
pub open spec fn swapped<A>(s: Seq<A>, i: int, j: int) -> Seq<A> {
    s.update(i, s[j]).update(j, s[i])
}

/// The permutation a shuffle of `n` entries draws from the random numbers
/// `draws`, after its first `k` steps: step `i` (from 1) exchanges entry
/// `i` with entry `draws[i] % (i + 1)`.
pub open spec fn shuffled(n: nat, draws: Seq<u64>, k: nat) -> Seq<usize>
    decreases k,
{
    if k <= 1 {
        identity(n)
    } else {
        let i = k - 1;
        swapped(shuffled(n, draws, (k - 1) as nat), i, (draws[i] % (i + 1) as u64) as int)
    }
}

/// `s` put back in place: the inverse of `permuted(s, p)`, entry `p[i]` of
/// the result is entry `i` of `s`.
pub open spec fn unpermuted<A>(s: Seq<A>, p: Seq<usize>) -> Seq<A> {
    Seq::new(p.len(), |j: int| s[choose|i: int| 0 <= i < p.len() && p[i] == j])
}

/// The texts of a list of strings.
pub open spec fn texts(v: Seq<String>) -> Seq<Seq<char>> {
    v.map_values(|x: String| x@)
}

/// A permutation of `0..n` reaches every index.
pub proof fn lemma_permutation_onto(p: Seq<usize>, n: nat, j: int)
    requires
        is_permutation(p, n),
        0 <= j < n,
    ensures
        exists|i: int| 0 <= i < n && p[i] == j,
{
    let x = set_int_range(0, n as int);
    let f = |i: int| p[i] as int;
    let y = x.map(f);
    lemma_int_range(0, n as int);
    assert(injective_on(f, x)) by {
        assert forall|a: int, b: int| x.contains(a) && x.contains(b) && #[trigger] f(a) == #[trigger] f(b)
            implies a == b by {
            if a != b {
                assert(p[a] != p[b]);
            }
        }
    }
    lemma_map_size(x, y, f);
    assert(y.subset_of(x)) by {
        assert forall|v: int| y.contains(v) implies x.contains(v) by {
            let i = choose|i: int| x.contains(i) && v == f(i);
            assert(p[i] < n);
        }
    }
    lemma_subset_equality(y, x);
    assert(x.contains(j));
    assert(y.contains(j));
    let i = choose|i: int| x.contains(i) && j == f(i);
    assert(0 <= i < n && p[i] == j);
}

/// Exchanging two entries keeps a permutation a permutation.
pub proof fn lemma_swap_keeps_permutation(p: Seq<usize>, n: nat, a: int, b: int)
    requires
        is_permutation(p, n),
        0 <= a < n,
        0 <= b < n,
    ensures
        is_permutation(swapped(p, a, b), n),
{
    let q = swapped(p, a, b);
    assert forall|i: int, j: int| 0 <= i < n && 0 <= j < n && i != j implies #[trigger] q[i] != #[trigger] q[j] by {
        let pi = if i == b { a } else if i == a { b } else { i };
        let pj = if j == b { a } else if j == a { b } else { j };
        assert(q[i] == p[pi]);
        assert(q[j] == p[pj]);
    }
}

/// Rearranging a permutation by a permutation gives a permutation.
pub proof fn lemma_permuted_permutation(o: Seq<usize>, p: Seq<usize>, n: nat)
    requires
        is_permutation(o, n),
        is_permutation(p, n),
    ensures
        is_permutation(permuted(o, p), n),
{
    let q = permuted(o, p);
    assert forall|i: int, j: int| 0 <= i < n && 0 <= j < n && i != j implies #[trigger] q[i] != #[trigger] q[j] by {
        assert(p[i] != p[j]);
    }
}

/// Every shuffle is a permutation.
pub proof fn lemma_shuffled_permutation(n: nat, draws: Seq<u64>, k: nat)
    requires
        k <= n <= usize::MAX,
        draws.len() >= k,
    ensures
        is_permutation(shuffled(n, draws, k), n),
    decreases k,
{
    if k <= 1 {
        assert(is_permutation(identity(n), n));
    } else {
        let i = k - 1;
        lemma_shuffled_permutation(n, draws, (k - 1) as nat);
        let m = (i + 1) as u64;
        let d = draws[i];
        assert(m as int == i + 1);
        assert(d % m < m) by (nonlinear_arith)
            requires m > 0;
        let j = (draws[i] % (i + 1) as u64) as int;
        assert(0 <= j <= i);
        lemma_swap_keeps_permutation(shuffled(n, draws, (k - 1) as nat), n, i, j);
    }
}

/// Putting back in place undoes a rearrangement: entry `p[i]` of the result
/// is entry `i`.
pub proof fn lemma_unpermuted_at<A>(s: Seq<A>, p: Seq<usize>, i: int)
    requires
        is_permutation(p, s.len()),
        0 <= i < s.len(),
    ensures
        unpermuted(s, p)[p[i] as int] == s[i],
{
    let j = p[i] as int;
    let k = choose|k: int| 0 <= k < p.len() && p[k] == j;
    assert(0 <= k < p.len() && p[k] == j);
    if k != i {
        assert(p[k] != p[i]);
    }
}

/// The order `0, 1, .., n-1`.
pub fn identity_order(n: usize) -> (r: Vec<usize>)
    ensures
        r@ == identity(n as nat),
{
    let mut r: Vec<usize> = Vec::new();
    let mut i: usize = 0;
    while i < n
        invariant
            i <= n,
            r@ =~= identity(i as nat),
        decreases n - i,
    {
        r.push(i);
        i = i + 1;
    }
    r
}

/// `s` rearranged by the permutation `p`.
pub fn permute_strings(s: &Vec<String>, p: &[usize]) -> (r: Vec<String>)
    requires
        is_permutation(p@, s@.len()),
    ensures
        texts(r@) == permuted(texts(s@), p@),
{
    let mut r: Vec<String> = Vec::new();
    let mut i: usize = 0;
    while i < p.len()
        invariant
            is_permutation(p@, s@.len()),
            i <= p@.len(),
            r@.len() == i,
            forall|k: int| 0 <= k < i ==> (#[trigger] r@[k])@ == s@[p@[k] as int]@,
        decreases p@.len() - i,
    {
        r.push(s[p[i]].clone());
        i = i + 1;
    }
    assert(texts(r@) =~= permuted(texts(s@), p@));
    r
}

/// `o` rearranged by the permutation `p`.
pub fn permute_indices(o: &Vec<usize>, p: &[usize]) -> (r: Vec<usize>)
    requires
        is_permutation(p@, o@.len()),
    ensures
        r@ == permuted(o@, p@),
{
    let mut r: Vec<usize> = Vec::new();
    let mut i: usize = 0;
    while i < p.len()
        invariant
            is_permutation(p@, o@.len()),
            i <= p@.len(),
            r@.len() == i,
            forall|k: int| 0 <= k < i ==> #[trigger] r@[k] == o@[p@[k] as int],
        decreases p@.len() - i,
    {
        r.push(o[p[i]]);
        i = i + 1;
    }
    assert(r@ =~= permuted(o@, p@));
    r
}

/// `s` put back in place by the permutation `p`: entry `p[i]` of the
/// result is entry `i` of `s`.
pub fn unpermute_strings(s: &Vec<String>, p: &Vec<usize>) -> (r: Vec<String>)
    requires
        is_permutation(p@, s@.len()),
    ensures
        texts(r@) == unpermuted(texts(s@), p@),
{
    let n = s.len();
    let mut r: Vec<String> = Vec::new();
    let mut i: usize = 0;
    while i < n
        invariant
            n == s@.len(),
            i <= n,
            r@.len() == i,
        decreases n - i,
    {
        r.push(String::new());
        i = i + 1;
    }
    let mut i: usize = 0;
    while i < n
        invariant
            n == s@.len(),
            is_permutation(p@, n as nat),
            i <= n,
            r@.len() == n,
            forall|k: int| 0 <= k < i ==> (#[trigger] r@[p@[k] as int])@ == s@[k]@,
        decreases n - i,
    {
        let j = p[i];
        r.set(j, s[i].clone());
        assert forall|k: int| 0 <= k < i + 1 implies (#[trigger] r@[p@[k] as int])@ == s@[k]@ by {
            if k < i {
                assert(p@[k] != p@[i as int]);
            }
        }
        i = i + 1;
    }
    let ghost ts = texts(s@);
    assert forall|j: int| 0 <= j < n implies (#[trigger] texts(r@)[j]) == unpermuted(ts, p@)[j] by {
        lemma_permutation_onto(p@, n as nat, j);
        let k = choose|k: int| 0 <= k < n && p@[k] == j;
        lemma_unpermuted_at(ts, p@, k);
        assert(r@[p@[k] as int]@ == s@[k]@);
    }
    assert(texts(r@) =~= unpermuted(ts, p@));
    r
}

/// The permutation of `n` entries drawn from `draws`, one random number per
/// entry (the first is not used).
pub fn shuffle(n: usize, draws: &[u64]) -> (p: Vec<usize>)
    requires
        draws@.len() >= n,
    ensures
        p@ == shuffled(n as nat, draws@, n as nat),
        is_permutation(p@, n as nat),
{
    let mut p: Vec<usize> = Vec::new();
    let mut i: usize = 0;
    while i < n
        invariant
            i <= n,
            p@ =~= identity(i as nat),
        decreases n - i,
    {
        p.push(i);
        i = i + 1;
    }
    assert(p@ == shuffled(n as nat, draws@, 1));
    let mut k: usize = 1;
    while k < n
        invariant
            1 <= k,
            n >= 1 ==> k <= n,
            draws@.len() >= n,
            p@ == shuffled(n as nat, draws@, k as nat),
            p@.len() == n,
        decreases n - k,
    {
        let j = (draws[k] % ((k + 1) as u64)) as usize;
        let a = p[k];
        let b = p[j];
        p.set(k, b);
        p.set(j, a);
        assert(p@ =~= shuffled(n as nat, draws@, (k + 1) as nat));
        k = k + 1;
    }
    proof {
        if n == 0 {
            assert(p@ =~= shuffled(n as nat, draws@, n as nat));
        }
        lemma_shuffled_permutation(n as nat, draws@, n as nat);
    }
    p
}

/// How many of the first `m` entries of `o` are below `v`.
pub open spec fn count_below(o: Seq<usize>, m: int, v: usize) -> nat
    decreases m,
{
    if m <= 0 {
        0
    } else {
        count_below(o, m - 1, v) + if o[m - 1] < v { 1nat } else { 0nat }
    }
}

/// The first `n` entries of `o` renumbered `0..n`, keeping their order:
/// each becomes the number of those entries below it.
pub open spec fn ranks(o: Seq<usize>, n: nat) -> Seq<usize> {
    Seq::new(n, |i: int| count_below(o, n as int, o[i]) as usize)
}

/// Counting below a larger bound counts at least as many, and strictly
/// more when an entry lies between the two bounds.
proof fn lemma_count_below_grows(o: Seq<usize>, m: int, v1: usize, v2: usize, j: int)
    requires
        0 <= m <= o.len(),
        v1 <= v2,
    ensures
        count_below(o, m, v1) <= count_below(o, m, v2),
        0 <= j < m && v1 <= o[j] < v2 ==> count_below(o, m, v1) < count_below(o, m, v2),
    decreases m,
{
    if m > 0 {
        lemma_count_below_grows(o, m - 1, v1, v2, j);
    }
}

/// At most `m` entries, and fewer when one of them is not below `v`.
proof fn lemma_count_below_bound(o: Seq<usize>, m: int, v: usize, j: int)
    requires
        0 <= m <= o.len(),
    ensures
        count_below(o, m, v) <= m,
        0 <= j < m && o[j] >= v ==> count_below(o, m, v) < m,
    decreases m,
{
    if m > 0 {
        lemma_count_below_bound(o, m - 1, v, j);
    }
}

/// Renumbering the first `n` entries of a permutation gives a permutation
/// of `0..n` that orders them as before.
pub proof fn lemma_ranks_permutation(o: Seq<usize>, len: nat, n: nat)
    requires
        is_permutation(o, len),
        n <= len,
        n <= usize::MAX,
    ensures
        is_permutation(ranks(o, n), n),
        forall|i: int, j: int| 0 <= i < n && 0 <= j < n && o[i] < o[j] ==> #[trigger] ranks(o, n)[i] < #[trigger] ranks(o, n)[j],
{
    let r = ranks(o, n);
    assert forall|i: int| 0 <= i < n implies (#[trigger] r[i]) < n by {
        lemma_count_below_bound(o, n as int, o[i], i);
    }
    assert forall|i: int, j: int| 0 <= i < n && 0 <= j < n && o[i] < o[j] implies #[trigger] r[i] < #[trigger] r[j] by {
        lemma_count_below_grows(o, n as int, o[i], o[j], i);
        lemma_count_below_bound(o, n as int, o[i], i);
        lemma_count_below_bound(o, n as int, o[j], j);
    }
    assert forall|i: int, j: int| 0 <= i < n && 0 <= j < n && i != j implies #[trigger] r[i] != #[trigger] r[j] by {
        lemma_count_below_bound(o, n as int, o[i], i);
        lemma_count_below_bound(o, n as int, o[j], j);
        assert(o[i] != o[j]);
        if o[i] < o[j] {
            lemma_count_below_grows(o, n as int, o[i], o[j], i);
        } else {
            lemma_count_below_grows(o, n as int, o[j], o[i], j);
        }
    }
}

/// The first `n` entries of the permutation `o` renumbered `0..n`, in the
/// same order.
pub fn rank_order(o: &Vec<usize>, n: usize) -> (r: Vec<usize>)
    requires
        is_permutation(o@, o@.len()),
        n <= o@.len(),
    ensures
        r@ == ranks(o@, n as nat),
        is_permutation(r@, n as nat),
{
    let mut r: Vec<usize> = Vec::new();
    let mut i: usize = 0;
    while i < n
        invariant
            i <= n,
            n <= o@.len(),
            r@.len() == i,
            forall|k: int| 0 <= k < i ==> #[trigger] r@[k] == ranks(o@, n as nat)[k],
        decreases n - i,
    {
        let v = o[i];
        let mut c: usize = 0;
        let mut j: usize = 0;
        while j < n
            invariant
                j <= n,
                n <= o@.len(),
                c == count_below(o@, j as int, v),
                c <= j,
            decreases n - j,
        {
            if o[j] < v {
                c = c + 1;
            }
            j = j + 1;
        }
        r.push(c);
        i = i + 1;
    }
    assert(r@ =~= ranks(o@, n as nat));
    proof {
        lemma_ranks_permutation(o@, o@.len(), n as nat);
    }
    r
}

/// `RandomState::new`: a hash builder with fresh random keys (std seeds
/// them per process and varies them per call). Nothing is promised of the
/// keys.
#[verifier::external_body]
fn random_state() -> (r: RandomState) {
    RandomState::new()
}

/// `BuildHasher::hash_one`: the hash of `i` under the random keys of
/// `state`. Nothing is promised of the value: it depends on the keys.
#[verifier::external_body]
fn random_draw(state: &RandomState, i: u64) -> (r: u64) {
    state.hash_one(i)
}

/// A random permutation of `n` entries: one random number per entry, from
/// fresh random keys, shuffled as `shuffle` does. Whatever the numbers,
/// the result lists each of `0..n` exactly once.
pub fn random_shuffle(n: usize) -> (p: Vec<usize>)
    ensures
        is_permutation(p@, n as nat),
{
    let state = random_state();
    let mut draws: Vec<u64> = Vec::new();
    let mut i: usize = 0;
    while i < n
        invariant
            i <= n,
            draws@.len() == i,
        decreases n - i,
    {
        draws.push(random_draw(&state, i as u64));
        i = i + 1;
    }
    shuffle(n, draws.as_slice())
}

} // verus!
