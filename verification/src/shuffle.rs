//! Random shuffle orders for the playback queue.

use vstd::prelude::*;
use rand::rngs::StdRng;
use rand::{Rng, SeedableRng};
use crate::queue::{identity_order, is_permutation};

verus! {

#[verifier::external_type_specification]
#[verifier::external_body]
pub struct ExStdRng(StdRng);

/// Reads the system clock (`std::time::SystemTime::now`) and converts it to
/// nanoseconds since the Unix epoch, truncated to 64 bits (0 before the
/// epoch). Nothing is stated of the value: it depends on the time.
#[verifier::external_body]
fn clock_seed() -> u64 {
    std::time::SystemTime::now()
        .duration_since(std::time::UNIX_EPOCH)
        .unwrap_or_default()
        .as_nanos() as u64
}

/// `rand::SeedableRng::seed_from_u64` for rand's `StdRng`. Nothing is stated
/// of the generator; it is only handed on to `random_index_upto`.
#[verifier::external_body]
fn seeded_rng(seed: u64) -> StdRng {
    StdRng::seed_from_u64(seed)
}

/// `rand::Rng::random_range(0..=upper)`: rand documents a value drawn from
/// the inclusive range, so the result is at most `upper`. The range is never
/// empty, so the call does not panic.
#[verifier::external_body]
fn random_index_upto(rng: &mut StdRng, upper: usize) -> (r: usize)
    ensures
        r <= upper,
{
    rng.random_range(0..=upper)
}

/// The identity order lists each index once.
pub proof fn lemma_identity_is_permutation(n: int)
    requires
        0 <= n <= usize::MAX,
    ensures
        is_permutation(identity_order(n), n),
{
}

/// Swapping two entries keeps a permutation a permutation.
pub proof fn lemma_swap_keeps_permutation(s: Seq<usize>, n: int, i: int, j: int)
    requires
        is_permutation(s, n),
        0 <= i < n,
        0 <= j < n,
    ensures
        is_permutation(s.update(i, s[j]).update(j, s[i]), n),
{
    let t = s.update(i, s[j]).update(j, s[i]);
    assert forall|a: int, b: int| 0 <= a < b < t.len() implies t[a] != t[b] by {
        let sa = if a == j { i } else if a == i { j } else { a };
        let sb = if b == j { i } else if b == i { j } else { b };
        assert(t[a] == s[sa]);
        assert(t[b] == s[sb]);
        assert(sa != sb);
        if sa < sb {
            assert(s[sa] != s[sb]);
        } else {
            assert(s[sb] != s[sa]);
        }
    }
}

/// A permutation of `0..n` holds every index of `0..n`.
pub proof fn lemma_permutation_contains(s: Seq<usize>, n: int, v: usize)
    requires
        is_permutation(s, n),
        0 <= v < n <= usize::MAX,
    ensures
        exists|i: int| 0 <= i < s.len() && s[i] == v,
{
    broadcast use vstd::seq_lib::seq_to_set_is_finite;
    let ident = identity_order(n);
    assert(s.no_duplicates()) by {
        assert forall|i: int, j: int| 0 <= i < s.len() && 0 <= j < s.len() && i != j implies s[i] != s[j] by {
            if i < j {
                assert(s[i] != s[j]);
            } else {
                assert(s[j] != s[i]);
            }
        }
    }
    assert(forall|i: int| 0 <= i < n ==> ident[i] == i);
    assert(ident.no_duplicates());
    s.unique_seq_to_set();
    ident.unique_seq_to_set();
    assert(s.to_set().subset_of(ident.to_set())) by {
        assert forall|x: usize| s.to_set().contains(x) implies ident.to_set().contains(x) by {
            let i = choose|i: int| 0 <= i < s.len() && s[i] == x;
            assert(ident[x as int] == x);
        }
    }
    vstd::set_lib::lemma_subset_equality(s.to_set(), ident.to_set());
    assert(ident[v as int] == v);
    assert(ident.to_set().contains(v));
    assert(s.to_set().contains(v));
}

/// The indices `0..n` in order.
pub fn identity_vec(n: usize) -> (r: Vec<usize>)
    ensures
        r@ == identity_order(n as int),
{
    let mut v: Vec<usize> = Vec::new();
    let mut i: usize = 0;
    while i < n
        invariant
            0 <= i <= n,
            v@ == identity_order(i as int),
        decreases n - i,
    {
        v.push(i);
        i += 1;
        assert(v@ =~= identity_order(i as int));
    }
    v
}

/// `s` with the entries at `i` and `j` exchanged.
pub open spec fn swapped(s: Seq<usize>, i: int, j: int) -> Seq<usize> {
    s.update(i, s[j]).update(j, s[i])
}

/// The order after the first `k` Fisher-Yates steps on `s`: step `k`
/// exchanges the entry at `s.len() - k` with the one at `draws[k - 1]`.
pub open spec fn fisher_yates_steps(s: Seq<usize>, draws: Seq<usize>, k: nat) -> Seq<usize>
    decreases k,
{
    if k == 0 {
        s
    } else {
        swapped(
            fisher_yates_steps(s, draws, (k - 1) as nat),
            s.len() - k,
            draws[k - 1] as int,
        )
    }
}

/// Fisher-Yates on `s` with the draws `draws`: for `i` from `s.len() - 1`
/// down to 1, the entry at `i` is exchanged with the one at
/// `draws[s.len() - 1 - i]`.
pub open spec fn fisher_yates(s: Seq<usize>, draws: Seq<usize>) -> Seq<usize> {
    fisher_yates_steps(s, draws, draws.len())
}

/// Draws for a Fisher-Yates shuffle of `n` entries: one per step, the one
/// for position `i` at most `i`.
pub open spec fn valid_draws(draws: Seq<usize>, n: int) -> bool {
    &&& draws.len() == (if n > 0 { n - 1 } else { 0 })
    &&& forall|k: int| 0 <= k < draws.len() ==> draws[k] <= n - 1 - k
}

/// The Fisher-Yates order of `0..n` for the draws `draws`.
pub fn shuffle_with_draws(n: usize, draws: &Vec<usize>) -> (r: Vec<usize>)
    requires
        valid_draws(draws@, n as int),
    ensures
        r@ == fisher_yates(identity_order(n as int), draws@),
        is_permutation(r@, n as int),
{
    let mut order = identity_vec(n);
    proof { lemma_identity_is_permutation(n as int); }
    let ghost start = order@;
    let mut k: usize = 0;
    while k < draws.len()
        invariant
            k <= draws@.len(),
            valid_draws(draws@, n as int),
            start == identity_order(n as int),
            start.len() == n,
            order@ == fisher_yates_steps(start, draws@, k as nat),
            is_permutation(order@, n as int),
        decreases draws@.len() - k,
    {
        let i = n - 1 - k;
        let j = draws[k];
        let a = order[i];
        let b = order[j];
        proof { lemma_swap_keeps_permutation(order@, n as int, i as int, j as int); }
        order.set(i, b);
        order.set(j, a);
        k += 1;
        assert(order@ =~= fisher_yates_steps(start, draws@, k as nat));
    }
    order
}

/// A random order of the indices `0..n`: Fisher-Yates with draws from a
/// generator seeded from the clock.
pub fn random_permutation(n: usize) -> (r: Vec<usize>)
    ensures
        is_permutation(r@, n as int),
        exists|draws: Seq<usize>|
            valid_draws(draws, n as int) && r@ == #[trigger] fisher_yates(identity_order(n as int), draws),
{
    let seed = clock_seed();
    let mut rng = seeded_rng(seed);
    let mut draws: Vec<usize> = Vec::new();
    let mut i = n;
    while i > 1
        invariant
            1 <= n ==> 1 <= i <= n,
            n == 0 ==> i == 0,
            draws@.len() == n - i,
            forall|k: int| 0 <= k < draws@.len() ==> draws@[k] <= n - 1 - k,
        decreases i,
    {
        i -= 1;
        let j = random_index_upto(&mut rng, i);
        draws.push(j);
    }
    shuffle_with_draws(n, &draws)
}

} // verus!
