use rand::rngs::SmallRng;
use rand::Rng;
use vstd::prelude::*;

verus! {

#[verifier::external_type_specification]
#[verifier::external_body]
pub struct ExSmallRng(SmallRng);

/// `s` with the entries at `i` and `j` exchanged.
pub open spec fn swapped<A>(s: Seq<A>, i: int, j: int) -> Seq<A> {
    s.update(i, s[j]).update(j, s[i])
}

/// Draws usable by a Fisher-Yates pass over `n` entries: one per position,
/// the draw at position `k` naming a position no greater than `k`.
pub open spec fn valid_draws(draws: Seq<usize>, n: int) -> bool {
    &&& draws.len() == n
    &&& forall|k: int| 0 <= k < n ==> #[trigger] draws[k] <= k
}

/// The first `n` entries of `s` after a Fisher-Yates pass: for `k` from
/// `n - 1` down to `1`, the entry at `k` is exchanged with the one at `draws[k]`.
pub open spec fn fisher_yates<A>(s: Seq<A>, draws: Seq<usize>, n: nat) -> Seq<A>
    decreases n,
{
    if n <= 1 {
        s
    } else {
        fisher_yates(swapped(s, n - 1, draws[n - 1] as int), draws, (n - 1) as nat)
    }
}

/// `p` is a bijection of `0 .. n` onto itself.
pub open spec fn is_permutation(p: Seq<int>, n: int) -> bool {
    &&& p.len() == n
    &&& forall|k: int| 0 <= k < n ==> 0 <= #[trigger] p[k] < n
    &&& forall|a: int, b: int| 0 <= a < n && 0 <= b < n && a != b ==> p[a] != p[b]
}

/// `after` holds at each position `k` the entry of `before` at `p[k]`.
pub open spec fn permuted_by<A>(after: Seq<A>, before: Seq<A>, p: Seq<int>) -> bool {
    &&& after.len() == before.len()
    &&& forall|k: int| 0 <= k < after.len() ==> #[trigger] after[k] == before[p[k]]
}

/// Relies on std's `slice::swap`: exchanges the two entries, for any two
/// positions inside the vector.
#[verifier::external_body]
fn swap_entries<A>(v: &mut Vec<A>, i: usize, j: usize)
    requires
        i < old(v).len(),
        j < old(v).len(),
    ensures
        final(v)@ == swapped(old(v)@, i as int, j as int),
{
    v.swap(i, j)
}

/// Relies on rand's `Rng::gen_range`: on integers it returns a value in
/// `[low, high)`, and panics only when `low >= high`.
#[verifier::external_body]
fn draw_below(rng: &mut SmallRng, bound: usize) -> (r: usize)
    requires
        bound > 0,
    ensures
        r < bound,
{
    rng.gen_range(0, bound)
}

proof fn lemma_swap_keeps_permutation<A, B>(
    p: Seq<int>,
    xs: Seq<A>,
    xs0: Seq<A>,
    ys: Seq<B>,
    ys0: Seq<B>,
    i: int,
    j: int,
)
    requires
        is_permutation(p, xs.len() as int),
        permuted_by(xs, xs0, p),
        permuted_by(ys, ys0, p),
        ys.len() == xs.len(),
        0 <= i < xs.len(),
        0 <= j < xs.len(),
    ensures
        is_permutation(swapped(p, i, j), xs.len() as int),
        permuted_by(swapped(xs, i, j), xs0, swapped(p, i, j)),
        permuted_by(swapped(ys, i, j), ys0, swapped(p, i, j)),
{
    let n = xs.len() as int;
    let q = swapped(p, i, j);
    assert forall|k: int| 0 <= k < n implies 0 <= #[trigger] q[k] < n by {
        if k == j {
        } else if k == i {
        }
    }
    assert forall|a: int, b: int| 0 <= a < n && 0 <= b < n && a != b implies q[a] != q[b] by {
        let a0 = if a == j { i } else if a == i { j } else { a };
        let b0 = if b == j { i } else if b == i { j } else { b };
        assert(q[a] == p[a0]);
        assert(q[b] == p[b0]);
    }
    let xs1 = swapped(xs, i, j);
    assert forall|k: int| 0 <= k < n implies #[trigger] xs1[k] == xs0[q[k]] by {
        let k0 = if k == j { i } else if k == i { j } else { k };
        assert(xs1[k] == xs[k0]);
        assert(q[k] == p[k0]);
    }
    let ys1 = swapped(ys, i, j);
    assert forall|k: int| 0 <= k < n implies #[trigger] ys1[k] == ys0[q[k]] by {
        let k0 = if k == j { i } else if k == i { j } else { k };
        assert(ys1[k] == ys[k0]);
        assert(q[k] == p[k0]);
    }
}

/// Shuffles two equally long vectors by one Fisher-Yates pass driven by
/// `draws`, applying the same exchanges to both so that entries that stood
/// side by side still do.
pub fn shuffle_pairs_by<A, B>(inp: &mut Vec<A>, tg: &mut Vec<B>, draws: &Vec<usize>)
    requires
        old(tg).len() == old(inp).len(),
        valid_draws(draws@, old(inp).len() as int),
    ensures
        final(inp)@ == fisher_yates(old(inp)@, draws@, old(inp).len() as nat),
        final(tg)@ == fisher_yates(old(tg)@, draws@, old(inp).len() as nat),
        exists|p: Seq<int>|
            #![trigger is_permutation(p, old(inp).len() as int)]
            is_permutation(p, old(inp).len() as int) && permuted_by(final(inp)@, old(inp)@, p)
                && permuted_by(final(tg)@, old(tg)@, p),
{
    let ghost inp0 = inp@;
    let ghost tg0 = tg@;
    let ghost n = inp@.len() as int;
    let ghost mut p: Seq<int> = Seq::new(n as nat, |k: int| k);
    let mut i: usize = inp.len();
    while i >= 2
        invariant
            i <= n,
            inp@.len() == n,
            tg@.len() == n,
            n == inp0.len(),
            tg0.len() == n,
            valid_draws(draws@, n),
            fisher_yates(inp@, draws@, i as nat) == fisher_yates(inp0, draws@, n as nat),
            fisher_yates(tg@, draws@, i as nat) == fisher_yates(tg0, draws@, n as nat),
            is_permutation(p, n),
            permuted_by(inp@, inp0, p),
            permuted_by(tg@, tg0, p),
        decreases i,
    {
        i = i - 1;
        let j = draws[i];
        assert(draws@[i as int] <= i);
        proof {
            lemma_swap_keeps_permutation(p, inp@, inp0, tg@, tg0, i as int, j as int);
            p = swapped(p, i as int, j as int);
        }
        swap_entries(inp, i, j);
        swap_entries(tg, i, j);
    }
    assert(is_permutation(p, n));
}

/// Shuffles two equally long vectors in place with the same random
/// permutation, drawing from `rng` one position per step as a Fisher-Yates
/// pass does.
pub fn shuffle_pairs<A, B>(inp: &mut Vec<A>, tg: &mut Vec<B>, rng: &mut SmallRng)
    requires
        old(tg).len() == old(inp).len(),
    ensures
        exists|p: Seq<int>|
            #![trigger is_permutation(p, old(inp).len() as int)]
            is_permutation(p, old(inp).len() as int) && permuted_by(final(inp)@, old(inp)@, p)
                && permuted_by(final(tg)@, old(tg)@, p),
{
    let n = inp.len();
    let mut draws: Vec<usize> = Vec::new();
    while draws.len() < n
        invariant
            draws.len() <= n,
            forall|k: int| 0 <= k < draws.len() ==> #[trigger] draws@[k] == 0,
        decreases n - draws.len(),
    {
        draws.push(0);
    }
    let mut i: usize = n;
    while i >= 2
        invariant
            i <= n,
            draws.len() == n,
            forall|k: int| 0 <= k < n ==> #[trigger] draws@[k] <= k,
        decreases i,
    {
        i = i - 1;
        let d = draw_below(rng, i + 1);
        draws.set(i, d);
    }
    shuffle_pairs_by(inp, tg, &draws);
}

} // verus!
