use vstd::prelude::*;
use crate::random::random_below;
use crate::scalar::Scalar;

verus! {

/// The number of lattice values, and of entries in each permutation.
pub const POINT_COUNT: usize = 256;

/// Lattice noise: random values, reached through three permutations of
/// their places.
#[derive(Clone, Debug)]
pub struct Perlin {
    pub ranfloat: Vec<Scalar>,
    pub perm_x: Vec<usize>,
    pub perm_y: Vec<usize>,
    pub perm_z: Vec<usize>,
}

/// The numbers from zero up to `n`, in order.
pub open spec fn identity_perm(n: nat) -> Seq<usize> {
    Seq::new(n, |i: int| i as usize)
}

/// `p` holds each number below its length exactly once.
pub open spec fn is_permutation(p: Seq<usize>) -> bool {
    p.to_multiset() == identity_perm(p.len()).to_multiset()
}

/// `p` with the entries at `i` and `j` exchanged.
pub open spec fn swapped(p: Seq<usize>, i: int, j: int) -> Seq<usize> {
    p.update(i, p[j]).update(j, p[i])
}

/// `p` after the exchanges of a shuffle from place `n - 1` down to place
/// `from`: the entry at each place `i` is exchanged with the one at
/// `targets[i]`, the highest place first.
pub open spec fn shuffled(p: Seq<usize>, targets: Seq<usize>, n: int, from: int) -> Seq<usize>
    decreases n - from,
{
    if from >= n {
        p
    } else {
        swapped(shuffled(p, targets, n, from + 1), from, targets[from] as int)
    }
}

/// Exchanging two entries keeps what a sequence holds.
pub proof fn lemma_swapped_multiset(p: Seq<usize>, i: int, j: int)
    requires
        0 <= i < p.len(),
        0 <= j < p.len(),
    ensures
        swapped(p, i, j).to_multiset() == p.to_multiset(),
        swapped(p, i, j).len() == p.len(),
{
    vstd::seq_lib::to_multiset_update(p, i, p[j]);
    vstd::seq_lib::to_multiset_update(p.update(i, p[j]), j, p[i]);
    p.to_multiset_ensures();
    assert(p.contains(p[i]));
    assert(p.contains(p[j]));
    assert(swapped(p, i, j).to_multiset() =~= p.to_multiset());
}

/// A shuffle keeps what a sequence holds.
pub proof fn lemma_shuffled_multiset(p: Seq<usize>, targets: Seq<usize>, n: int, from: int)
    requires
        0 <= from,
        n <= p.len(),
        n <= targets.len(),
        forall|i: int| from <= i < n ==> #[trigger] targets[i] < p.len(),
    ensures
        shuffled(p, targets, n, from).to_multiset() == p.to_multiset(),
        shuffled(p, targets, n, from).len() == p.len(),
    decreases n - from,
{
    if from < n {
        lemma_shuffled_multiset(p, targets, n, from + 1);
        lemma_swapped_multiset(shuffled(p, targets, n, from + 1), from, targets[from] as int);
    }
}

/// Three numbers below 256 combine by exclusive or to one below 256.
pub proof fn lemma_xor_in_table(a: usize, b: usize, c: usize)
    requires
        a < 256,
        b < 256,
        c < 256,
    ensures
        (a ^ b ^ c) < 256,
{
    assert((a ^ b ^ c) < 256) by (bit_vector)
        requires
            a < 256,
            b < 256,
            c < 256,
    ;
}

impl Perlin {
    /// The tables have their full length and no permutation leads out
    /// of them.
    pub open spec fn well_formed(&self) -> bool {
        &&& self.ranfloat@.len() == POINT_COUNT
        &&& self.perm_x@.len() == POINT_COUNT
        &&& self.perm_y@.len() == POINT_COUNT
        &&& self.perm_z@.len() == POINT_COUNT
        &&& is_permutation(self.perm_x@)
        &&& is_permutation(self.perm_y@)
        &&& is_permutation(self.perm_z@)
    }

    /// The value of the lattice cell `(i, j, k)`; cells repeat every 256
    /// steps on each axis.
    pub open spec fn cell(&self, i: usize, j: usize, k: usize) -> Scalar {
        self.ranfloat@[(self.perm_x@[i as int % 256] ^ self.perm_y@[j as int % 256]
            ^ self.perm_z@[k as int % 256]) as int]
    }

    /// Exchanges, from place `n - 1` down to place 1, the entry at each
    /// place with the one at the place that `targets` names for it.
    pub fn permute_with(p: &mut Vec<usize>, n: usize, targets: &Vec<usize>)
        requires
            1 <= n <= old(p)@.len(),
            n <= targets@.len(),
            forall|i: int| 1 <= i < n ==> #[trigger] targets@[i] <= i,
        ensures
            final(p)@ == shuffled(old(p)@, targets@, n as int, 1),
            final(p)@.to_multiset() == old(p)@.to_multiset(),
            final(p)@.len() == old(p)@.len(),
    {
        let mut i: usize = n - 1;
        while i > 0
            invariant
                i < n <= p@.len(),
                n <= targets@.len(),
                p@.len() == old(p)@.len(),
                forall|i: int| 1 <= i < n ==> #[trigger] targets@[i] <= i,
                p@ == shuffled(old(p)@, targets@, n as int, i + 1),
            decreases i,
        {
            let target = targets[i];
            let at_i = p[i];
            let at_target = p[target];
            p.set(i, at_target);
            p.set(target, at_i);
            i -= 1;
        }
        proof {
            lemma_shuffled_multiset(old(p)@, targets@, n as int, 1);
        }
    }

    /// Shuffles the first `n` entries of `p`: from place `n - 1` down to
    /// place 1, the entry at each place is exchanged with one drawn at
    /// random among the places below it.
    pub fn permute(p: &mut Vec<usize>, n: usize)
        requires
            1 <= n <= old(p)@.len(),
        ensures
            exists|targets: Seq<usize>| #[trigger]
                draws_below(targets, n as int) && final(p)@ == shuffled(
                    old(p)@,
                    targets,
                    n as int,
                    1,
                ),
            final(p)@.to_multiset() == old(p)@.to_multiset(),
            final(p)@.len() == old(p)@.len(),
            forall|i: int| n <= i < old(p)@.len() ==> final(p)@[i] == old(p)@[i],
    {
        let ghost mut targets: Seq<usize> = Seq::new(n as nat, |k: int| 0usize);
        let mut i: usize = n - 1;
        while i > 0
            invariant
                i < n <= p@.len(),
                p@.len() == old(p)@.len(),
                p@.to_multiset() == old(p)@.to_multiset(),
                forall|i: int| n <= i < old(p)@.len() ==> p@[i] == old(p)@[i],
                targets.len() == n,
                forall|k: int| i < k < n ==> #[trigger] targets[k] < k,
                p@ == shuffled(old(p)@, targets, n as int, i + 1),
            decreases i,
        {
            let target = random_below(i);
            let at_i = p[i];
            let at_target = p[target];
            proof {
                lemma_swapped_multiset(p@, i as int, target as int);
                lemma_shuffled_from(old(p)@, targets, targets.update(i as int, target), n as int, i + 1);
                targets = targets.update(i as int, target);
            }
            p.set(i, at_target);
            p.set(target, at_i);
            i -= 1;
        }
        proof {
            assert(draws_below(targets, n as int));
        }
    }

    /// A random permutation of the numbers below 256.
    pub fn perlin_generate_perm() -> (p: Vec<usize>)
        ensures
            p@.len() == POINT_COUNT,
            is_permutation(p@),
    {
        let mut p: Vec<usize> = Vec::new();
        let mut i: usize = 0;
        while i < POINT_COUNT
            invariant
                i <= POINT_COUNT,
                p@ == identity_perm(i as nat),
            decreases POINT_COUNT - i,
        {
            p.push(i);
            assert(p@ =~= identity_perm((i + 1) as nat));
            i += 1;
        }
        Self::permute(&mut p, POINT_COUNT);
        p
    }

    /// The noise over the given lattice values, with three fresh random
    /// permutations. `None` unless there are 256 values.
    pub fn new(ranfloat: Vec<Scalar>) -> (noise: Option<Self>)
        ensures
            noise is Some <==> ranfloat@.len() == POINT_COUNT,
            noise matches Some(n) ==> n.well_formed() && n.ranfloat@ == ranfloat@,
    {
        if ranfloat.len() != POINT_COUNT {
            return None;
        }
        Some(
            Self {
                ranfloat,
                perm_x: Self::perlin_generate_perm(),
                perm_y: Self::perlin_generate_perm(),
                perm_z: Self::perlin_generate_perm(),
            },
        )
    }

    /// The noise at the lattice cell `(i, j, k)`.
    pub fn noise(&self, i: usize, j: usize, k: usize) -> (value: Scalar)
        requires
            self.well_formed(),
        ensures
            value == self.cell(i, j, k),
    {
        let x = self.perm_x[i % POINT_COUNT];
        let y = self.perm_y[j % POINT_COUNT];
        let z = self.perm_z[k % POINT_COUNT];
        proof {
            lemma_permutation_in_range(self.perm_x@, i as int % 256);
            lemma_permutation_in_range(self.perm_y@, j as int % 256);
            lemma_permutation_in_range(self.perm_z@, k as int % 256);
            lemma_xor_in_table(x, y, z);
        }
        self.ranfloat[x ^ y ^ z]
    }
}

/// Each entry of a permutation is below its length.
pub proof fn lemma_permutation_in_range(p: Seq<usize>, i: int)
    requires
        is_permutation(p),
        0 <= i < p.len(),
    ensures
        p[i] < p.len(),
{
    let id = identity_perm(p.len());
    p.to_multiset_ensures();
    id.to_multiset_ensures();
    assert(p.contains(p[i]));
    assert(p.to_multiset().count(p[i]) > 0);
    assert(id.to_multiset().count(p[i]) > 0);
    assert(id.contains(p[i]));
    let k = choose|k: int| 0 <= k < id.len() && id[k] == p[i];
    assert(id[k] == k as usize);
}

/// Each place from 1 up to `n` is given a place below it.
pub open spec fn draws_below(targets: Seq<usize>, n: int) -> bool {
    &&& targets.len() == n
    &&& forall|i: int| 1 <= i < n ==> #[trigger] targets[i] < i
}

/// A shuffle from place `from` on goes by the targets of the places from
/// there on alone.
pub proof fn lemma_shuffled_from(
    p: Seq<usize>,
    targets: Seq<usize>,
    others: Seq<usize>,
    n: int,
    from: int,
)
    requires
        0 <= from,
        n <= targets.len(),
        n <= others.len(),
        forall|i: int| from <= i < n ==> targets[i] == others[i],
    ensures
        shuffled(p, targets, n, from) == shuffled(p, others, n, from),
    decreases n - from,
{
    if from < n {
        lemma_shuffled_from(p, targets, others, n, from + 1);
    }
}

} // verus!
