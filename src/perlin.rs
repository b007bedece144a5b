//! Lattice of Perlin noise: the permutation tables that hash an integer cell
//! of space to one of the gradient vectors.
//!
//! The gradient vectors themselves, and the interpolation between the corners
//! of a cell, are floating point work done by the caller; this module decides
//! which gradient each corner of a cell uses.

use vstd::prelude::*;

use crate::random::random_below;

verus! {

broadcast use vstd::seq_lib::group_to_multiset_ensures;

/// Number of gradient vectors, and of entries in each permutation table.
pub const POINT_COUNT: usize = 256;

/// `s` holds each of `0..POINT_COUNT` exactly once.
pub open spec fn is_perm_table(s: Seq<usize>) -> bool {
    &&& s.len() == POINT_COUNT
    &&& s.no_duplicates()
    &&& forall|i: int| 0 <= i < s.len() ==> #[trigger] s[i] < POINT_COUNT
}

/// The lattice coordinate `c` wrapped into the tables' range.
pub open spec fn wrap(c: int) -> int {
    c % (POINT_COUNT as int)
}

/// The lattice coordinate `c` wrapped into the tables' range.
fn wrap_exec(c: i64) -> (r: usize)
    ensures
        r as int == wrap(c as int),
        r < POINT_COUNT,
{
    match c.checked_rem_euclid(POINT_COUNT as i64) {
        Some(w) => w as usize,
        None => 0,
    }
}

/// Three independent permutation tables, one per axis.
#[derive(Debug)]
pub struct PerlinLattice {
    perm_x: Vec<usize>,
    perm_y: Vec<usize>,
    perm_z: Vec<usize>,
}

/// `s` with the items at positions `i` and `j` exchanged.
pub open spec fn swapped(s: Seq<usize>, i: int, j: int) -> Seq<usize> {
    s.update(i, s[j]).update(j, s[i])
}

/// `p` after positions `k - 1` down to `0` have each been exchanged with
/// position `targets[position]`.
pub open spec fn shuffle_down(p: Seq<usize>, targets: Seq<usize>, k: nat) -> Seq<usize>
    decreases k,
{
    if k == 0 {
        p
    } else {
        shuffle_down(swapped(p, k - 1, targets[k - 1] as int), targets, (k - 1) as nat)
    }
}

/// `p` shuffled by `targets`: from the last position down, position `i` is
/// exchanged with position `targets[i]`.
pub open spec fn shuffled(p: Seq<usize>, targets: Seq<usize>) -> Seq<usize> {
    shuffle_down(p, targets, p.len())
}

/// Swap targets for a table of `n` entries: the target of position `i` is at
/// or before `i`.
pub open spec fn valid_targets(targets: Seq<usize>, n: nat) -> bool {
    &&& targets.len() == n
    &&& forall|i: int| 0 <= i < targets.len() ==> #[trigger] targets[i] <= i
}

/// The identity table `0, 1, ..., POINT_COUNT - 1`.
pub open spec fn identity_table() -> Seq<usize> {
    Seq::new(POINT_COUNT as nat, |k: int| k as usize)
}

proof fn lemma_shuffle_keeps_items(p: Seq<usize>, targets: Seq<usize>, k: nat)
    requires
        k <= p.len(),
        valid_targets(targets, p.len()),
    ensures
        shuffle_down(p, targets, k).len() == p.len(),
        shuffle_down(p, targets, k).to_multiset() == p.to_multiset(),
    decreases k,
{
    if k > 0 {
        let q = swapped(p, k - 1, targets[k - 1] as int);
        assert(q.to_multiset() == p.to_multiset());
        lemma_shuffle_keeps_items(q, targets, (k - 1) as nat);
    }
}

/// Shuffles `p` in place by `targets`: from the last position down, position
/// `i` is exchanged with position `targets[i]`.
pub fn shuffle_with(p: &mut Vec<usize>, targets: &Vec<usize>)
    requires
        valid_targets(targets@, old(p)@.len()),
    ensures
        final(p)@ == shuffled(old(p)@, targets@),
        final(p)@.len() == old(p)@.len(),
        final(p)@.to_multiset() == old(p)@.to_multiset(),
{
    proof {
        lemma_shuffle_keeps_items(p@, targets@, p@.len());
    }
    let n = p.len();
    let mut i: usize = n;
    while i > 0
        invariant
            i <= n,
            p@.len() == n,
            valid_targets(targets@, n as nat),
            shuffle_down(p@, targets@, i as nat) == shuffled(old(p)@, targets@),
        decreases i,
    {
        i = i - 1;
        let target = targets[i];
        let a = p[i];
        let b = p[target];
        p.set(i, b);
        p.set(target, a);
    }
}

/// Swap targets drawn at random, from the last position down as the shuffle
/// uses them.
fn draw_targets(rng: &mut rand::rngs::StdRng) -> (r: Vec<usize>)
    ensures
        valid_targets(r@, POINT_COUNT as nat),
{
    let mut targets: Vec<usize> = Vec::new();
    let mut k: usize = 0;
    while k < POINT_COUNT
        invariant
            k <= POINT_COUNT,
            targets@.len() == k,
            forall|i: int| 0 <= i < k ==> #[trigger] targets@[i] == 0,
        decreases POINT_COUNT - k,
    {
        targets.push(0);
        k = k + 1;
    }
    let mut i: usize = POINT_COUNT;
    while i > 0
        invariant
            i <= POINT_COUNT,
            targets@.len() == POINT_COUNT,
            forall|j: int| 0 <= j < POINT_COUNT ==> #[trigger] targets@[j] <= j,
        decreases i,
    {
        i = i - 1;
        let target = random_below(rng, i + 1);
        targets.set(i, target);
    }
    targets
}

/// The identity table shuffled by `targets`.
fn shuffled_table(targets: &Vec<usize>) -> (r: Vec<usize>)
    requires
        valid_targets(targets@, POINT_COUNT as nat),
    ensures
        r@ == shuffled(identity_table(), targets@),
        is_perm_table(r@),
{
    let mut p: Vec<usize> = Vec::new();
    let mut i: usize = 0;
    while i < POINT_COUNT
        invariant
            i <= POINT_COUNT,
            p@ == Seq::new(i as nat, |k: int| k as usize),
        decreases POINT_COUNT - i,
    {
        p.push(i);
        assert(p@ =~= Seq::new((i + 1) as nat, |k: int| k as usize));
        i = i + 1;
    }
    let ghost start = p@;
    assert(start == identity_table());
    assert(start.no_duplicates());
    shuffle_with(&mut p, targets);
    proof {
        start.lemma_multiset_has_no_duplicates();
        p@.lemma_multiset_has_no_duplicates_conv();
        assert forall|k: int| 0 <= k < p@.len() implies #[trigger] p@[k] < POINT_COUNT by {
            assert(p@.to_multiset().count(p@[k]) > 0);
            assert(start.contains(p@[k]));
        }
    }
    p
}

impl Clone for PerlinLattice {
    fn clone(&self) -> (r: Self)
        ensures
            forall|a: int| #[trigger] r.perm(a) == self.perm(a),
    {
        proof {
            use_type_invariant(self);
        }
        let perm_x = self.perm_x.clone();
        let perm_y = self.perm_y.clone();
        let perm_z = self.perm_z.clone();
        assert(perm_x@ =~= self.perm_x@);
        assert(perm_y@ =~= self.perm_y@);
        assert(perm_z@ =~= self.perm_z@);
        PerlinLattice { perm_x, perm_y, perm_z }
    }
}

impl PerlinLattice {
    /// The permutation table of `axis` (0 for x, 1 for y, anything else for z).
    pub closed spec fn perm(self, axis: int) -> Seq<usize> {
        if axis == 0 {
            self.perm_x@
        } else if axis == 1 {
            self.perm_y@
        } else {
            self.perm_z@
        }
    }

    #[verifier::type_invariant]
    spec fn tables_are_permutations(self) -> bool {
        &&& is_perm_table(self.perm_x@)
        &&& is_perm_table(self.perm_y@)
        &&& is_perm_table(self.perm_z@)
    }

    /// The gradient index of lattice cell `(x, y, z)`: the entries of the three
    /// tables at the wrapped coordinates, combined by exclusive or.
    pub open spec fn cell_hash(self, x: int, y: int, z: int) -> usize {
        self.perm(0)[wrap(x)] ^ self.perm(1)[wrap(y)] ^ self.perm(2)[wrap(z)]
    }

    /// The tables of the identity shuffled by `targets_x`, `targets_y` and
    /// `targets_z` respectively.
    pub fn from_targets(targets_x: &Vec<usize>, targets_y: &Vec<usize>, targets_z: &Vec<usize>) -> (r:
        PerlinLattice)
        requires
            valid_targets(targets_x@, POINT_COUNT as nat),
            valid_targets(targets_y@, POINT_COUNT as nat),
            valid_targets(targets_z@, POINT_COUNT as nat),
        ensures
            r.perm(0) == shuffled(identity_table(), targets_x@),
            r.perm(1) == shuffled(identity_table(), targets_y@),
            r.perm(2) == shuffled(identity_table(), targets_z@),
            is_perm_table(r.perm(0)),
            is_perm_table(r.perm(1)),
            is_perm_table(r.perm(2)),
    {
        let perm_x = shuffled_table(targets_x);
        let perm_y = shuffled_table(targets_y);
        let perm_z = shuffled_table(targets_z);
        PerlinLattice { perm_x, perm_y, perm_z }
    }

    /// Three freshly shuffled tables: the targets of each are drawn at random
    /// and handed to `from_targets`.
    pub fn new(rng: &mut rand::rngs::StdRng) -> (r: PerlinLattice)
        ensures
            is_perm_table(r.perm(0)),
            is_perm_table(r.perm(1)),
            is_perm_table(r.perm(2)),
    {
        let targets_x = draw_targets(rng);
        let targets_y = draw_targets(rng);
        let targets_z = draw_targets(rng);
        Self::from_targets(&targets_x, &targets_y, &targets_z)
    }

    /// The permutation table of `axis`.
    pub fn table(&self, axis: usize) -> (r: &Vec<usize>)
        ensures
            r@ == self.perm(axis as int),
            is_perm_table(r@),
    {
        proof {
            use_type_invariant(self);
        }
        if axis == 0 {
            &self.perm_x
        } else if axis == 1 {
            &self.perm_y
        } else {
            &self.perm_z
        }
    }

    /// The gradient index of each corner of the lattice cell whose lowest
    /// corner is `(i, j, k)`; the corner offset by `(di, dj, dk)`, each 0 or 1,
    /// is at position `4 * di + 2 * dj + dk`.
    pub fn corner_indices(&self, i: i32, j: i32, k: i32) -> (r: Vec<usize>)
        ensures
            r@.len() == 8,
            forall|di: int, dj: int, dk: int|
                0 <= di < 2 && 0 <= dj < 2 && 0 <= dk < 2 ==> #[trigger] r@[4 * di + 2 * dj + dk]
                    == self.cell_hash(i + di, j + dj, k + dk),
            forall|c: int| 0 <= c < 8 ==> #[trigger] r@[c] < POINT_COUNT,
    {
        proof {
            use_type_invariant(self);
        }
        let mut r: Vec<usize> = Vec::new();
        let mut c: usize = 0;
        while c < 8
            invariant
                c <= 8,
                r@.len() == c,
                is_perm_table(self.perm_x@),
                is_perm_table(self.perm_y@),
                is_perm_table(self.perm_z@),
                forall|e: int|
                    0 <= e < c ==> #[trigger] r@[e] == self.cell_hash(
                        i + e / 4,
                        j + (e / 2) % 2,
                        k + e % 2,
                    ) && r@[e] < POINT_COUNT,
            decreases 8 - c,
        {
            let di = (c / 4) as i64;
            let dj = ((c / 2) % 2) as i64;
            let dk = (c % 2) as i64;
            let x = self.perm_x[wrap_exec(i as i64 + di)];
            let y = self.perm_y[wrap_exec(j as i64 + dj)];
            let z = self.perm_z[wrap_exec(k as i64 + dk)];
            assert(x ^ y ^ z < 256) by (bit_vector)
                requires
                    x < 256 && y < 256 && z < 256,
            ;
            r.push(x ^ y ^ z);
            c = c + 1;
        }
        assert forall|di: int, dj: int, dk: int|
            0 <= di < 2 && 0 <= dj < 2 && 0 <= dk < 2 implies #[trigger] r@[4 * di + 2 * dj + dk]
            == self.cell_hash(i + di, j + dj, k + dk) by {
            let e = 4 * di + 2 * dj + dk;
            assert(e / 4 == di && (e / 2) % 2 == dj && e % 2 == dk);
        }
        r
    }
}

} // verus!
