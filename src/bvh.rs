//! Shape of a bounding volume hierarchy.
//!
//! The hierarchy is planned over object indices: each object is represented by
//! the order key of its bounding box's minimum corner along the three axes.
//! Keys are integers whose order is the order of the corner coordinates, so
//! the plan depends only on how objects compare, never on their geometry.

use vstd::prelude::*;

use crate::random::random_below;

verus! {

broadcast use vstd::seq_lib::group_to_multiset_ensures;

/// Order keys of the minimum corner of one object's bounding box.
#[derive(Clone, Copy, Debug, PartialEq, Eq)]
pub struct BoundsKey {
    pub x: u64,
    pub y: u64,
    pub z: u64,
}

impl BoundsKey {
    /// The key along `axis` (0 for x, 1 for y, anything else for z).
    pub open spec fn along(self, axis: int) -> u64 {
        if axis == 0 {
            self.x
        } else if axis == 1 {
            self.y
        } else {
            self.z
        }
    }

    pub fn get(&self, axis: usize) -> (r: u64)
        ensures
            r == self.along(axis as int),
    {
        if axis == 0 {
            self.x
        } else if axis == 1 {
            self.y
        } else {
            self.z
        }
    }
}

/// Why a hierarchy cannot be planned.
#[derive(Clone, Copy, Debug, PartialEq, Eq)]
pub enum BvhError {
    /// There are no objects to hold.
    Empty,
    /// The object at `index` has no bounding box.
    Unbounded { index: usize },
}

/// One node of the hierarchy, holding object indices at its leaves.
#[derive(Debug)]
pub enum BvhLayout {
    /// A leaf node with a single object and no right child.
    Single { object: usize },
    /// A node whose two children are objects, ordered along `axis`.
    Pair { axis: usize, left: usize, right: usize },
    /// A node whose two children are nodes, split at the median along `axis`.
    Split { axis: usize, left_node: Box<BvhLayout>, right_node: Box<BvhLayout> },
}

/// The key of object `o` along `axis`.
pub open spec fn key_of(keys: Seq<BoundsKey>, axis: int, o: usize) -> u64 {
    keys[o as int].along(axis)
}

/// `s` lists objects in non-decreasing key order along `axis`.
pub open spec fn sorted_along(keys: Seq<BoundsKey>, axis: int, s: Seq<usize>) -> bool {
    forall|i: int, j: int|
        0 <= i < j < s.len() ==> key_of(keys, axis, #[trigger] s[i]) <= key_of(
            keys,
            axis,
            #[trigger] s[j],
        )
}

/// Every index in `s` names one of the `n` objects.
pub open spec fn indices_below(s: Seq<usize>, n: int) -> bool {
    forall|i: int| 0 <= i < s.len() ==> #[trigger] s[i] < n
}

/// Every object has a bounding box, and there is at least one object.
pub open spec fn all_bounded(bounds: Seq<Option<BoundsKey>>) -> bool {
    bounds.len() > 0 && forall|i: int| 0 <= i < bounds.len() ==> #[trigger] bounds[i] is Some
}

/// `index` is the first object without a bounding box.
pub open spec fn first_unbounded(bounds: Seq<Option<BoundsKey>>, index: int) -> bool {
    &&& 0 <= index < bounds.len()
    &&& bounds[index] is None
    &&& forall|i: int| 0 <= i < index ==> #[trigger] bounds[i] is Some
}

/// The keys of objects that all have bounding boxes.
pub open spec fn known_keys(bounds: Seq<Option<BoundsKey>>) -> Seq<BoundsKey> {
    bounds.map_values(|b: Option<BoundsKey>| b->0)
}

/// Sorts `objects` by their keys along `axis`, keeping objects with equal
/// keys in the order they came in.
fn sort_along(keys: &Vec<BoundsKey>, objects: &mut Vec<usize>, axis: usize)
    requires
        indices_below(old(objects)@, keys@.len() as int),
    ensures
        final(objects)@.to_multiset() == old(objects)@.to_multiset(),
        final(objects)@.len() == old(objects)@.len(),
        indices_below(final(objects)@, keys@.len() as int),
        sorted_along(keys@, axis as int, final(objects)@),
{
    let ghost k = keys@;
    let n = objects.len();
    let mut i: usize = 0;
    while i < n
        invariant
            i <= n,
            objects@.len() == n,
            objects@.to_multiset() == old(objects)@.to_multiset(),
            indices_below(objects@, k.len() as int),
            k == keys@,
            forall|a: int, b: int|
                0 <= a < b < i ==> key_of(k, axis as int, #[trigger] objects@[a]) <= key_of(
                    k,
                    axis as int,
                    #[trigger] objects@[b],
                ),
        decreases n - i,
    {
        let mut j: usize = i;
        while j > 0 && keys[objects[j - 1]].get(axis) > keys[objects[j]].get(axis)
            invariant
                j <= i < n,
                objects@.len() == n,
                objects@.to_multiset() == old(objects)@.to_multiset(),
                indices_below(objects@, k.len() as int),
                k == keys@,
                forall|a: int, b: int|
                    0 <= a < b <= i && a != j && b != j ==> key_of(
                        k,
                        axis as int,
                        #[trigger] objects@[a],
                    ) <= key_of(k, axis as int, #[trigger] objects@[b]),
                forall|b: int|
                    j < b <= i ==> key_of(k, axis as int, objects@[j as int]) < key_of(
                        k,
                        axis as int,
                        #[trigger] objects@[b],
                    ),
            decreases j,
        {
            let moved = objects[j];
            let before = objects[j - 1];
            objects.set(j - 1, moved);
            objects.set(j, before);
            j = j - 1;
        }
        i = i + 1;
    }
}

impl BvhLayout {
    /// Plans a hierarchy over objects `0..bounds.len()`, where `bounds[i]` is
    /// the key of object `i`'s bounding box, or `None` if it has none.
    pub fn new(bounds: &Vec<Option<BoundsKey>>, rng: &mut rand::rngs::StdRng) -> (r: Result<
        BvhLayout,
        BvhError,
    >)
        ensures
            (r == Err::<BvhLayout, BvhError>(BvhError::Empty)) <==> bounds@.len() == 0,
            r is Ok <==> all_bounded(bounds@),
            r matches Err(BvhError::Unbounded { index }) ==> first_unbounded(bounds@, index as int),
            r matches Ok(t) ==> t.planned_from(
                known_keys(bounds@),
                Seq::new(bounds@.len(), |i: int| i as usize),
            ),
    {
        if bounds.len() == 0 {
            return Err(BvhError::Empty);
        }
        let mut keys: Vec<BoundsKey> = Vec::new();
        let mut objects: Vec<usize> = Vec::new();
        let mut i: usize = 0;
        while i < bounds.len()
            invariant
                i <= bounds@.len(),
                keys@.len() == i,
                objects@ == Seq::new(i as nat, |k: int| k as usize),
                forall|k: int| 0 <= k < i ==> #[trigger] bounds@[k] == Some(keys@[k]),
            decreases bounds@.len() - i,
        {
            match bounds[i] {
                Some(key) => {
                    keys.push(key);
                    objects.push(i);
                },
                None => {
                    return Err(BvhError::Unbounded { index: i });
                },
            }
            assert(objects@ =~= Seq::new((i + 1) as nat, |k: int| k as usize));
            i = i + 1;
        }
        assert(keys@ =~= known_keys(bounds@));
        assert(indices_below(objects@, keys@.len() as int));
        Ok(Self::build_node(&keys, objects, rng))
    }

    /// Plans the node that holds `objects`, choosing its axis at random.
    fn build_node(keys: &Vec<BoundsKey>, objects: Vec<usize>, rng: &mut rand::rngs::StdRng) -> (r:
        BvhLayout)
        requires
            objects@.len() > 0,
            indices_below(objects@, keys@.len() as int),
        ensures
            r.planned_from(keys@, objects@),
        decreases objects@.len(),
    {
        let axis = random_below(rng, 3);
        let n = objects.len();
        if n == 1 {
            let r = BvhLayout::Single { object: objects[0] };
            assert(r.leaves() =~= objects@);
            r
        } else if n == 2 {
            let first = objects[0];
            let second = objects[1];
            let r = if keys[first].get(axis) < keys[second].get(axis) {
                let r = BvhLayout::Pair { axis, left: first, right: second };
                assert(r.leaves() =~= objects@);
                r
            } else {
                let r = BvhLayout::Pair { axis, left: second, right: first };
                assert(objects@ =~= seq![first, second]);
                assert(seq![second, first].to_multiset() =~= seq![first, second].to_multiset()) by {
                    vstd::seq_lib::lemma_seq_union_to_multiset_commutative(seq![first], seq![second]);
                    assert(seq![first] + seq![second] =~= seq![first, second]);
                    assert(seq![second] + seq![first] =~= seq![second, first]);
                }
                r
            };
            r
        } else {
            let mut sorted = objects;
            sort_along(keys, &mut sorted, axis);
            let ghost all = sorted@;
            let mid = n / 2;
            let upper = sorted.split_off(mid);
            let ghost lower_half = sorted@;
            let ghost upper_half = upper@;
            assert(all =~= lower_half + upper_half);
            assert(indices_below(lower_half, keys@.len() as int));
            assert(indices_below(upper_half, keys@.len() as int));
            let left = Self::build_node(keys, sorted, rng);
            let right = Self::build_node(keys, upper, rng);
            proof {
                vstd::seq_lib::lemma_multiset_commutative(lower_half, upper_half);
                assert forall|a: usize, b: usize|
                    left.leaves().contains(a) && right.leaves().contains(b) implies key_of(
                        keys@,
                        axis as int,
                        a,
                    ) <= key_of(keys@, axis as int, b) by {
                    assert(left.leaves().to_multiset().count(a) > 0);
                    assert(lower_half.contains(a));
                    assert(right.leaves().to_multiset().count(b) > 0);
                    assert(upper_half.contains(b));
                    let p = choose|p: int| 0 <= p < lower_half.len() && lower_half[p] == a;
                    let q = choose|q: int| 0 <= q < upper_half.len() && upper_half[q] == b;
                    assert(all[p] == a);
                    assert(all[mid + q] == b);
                }
                vstd::seq_lib::lemma_multiset_commutative(left.leaves(), right.leaves());
                assert(left.leaves().len() == left.leaves().to_multiset().len());
                assert(lower_half.len() == lower_half.to_multiset().len());
                assert(right.leaves().len() == right.leaves().to_multiset().len());
                assert(upper_half.len() == upper_half.to_multiset().len());
            }
            let r = BvhLayout::Split {
                axis,
                left_node: Box::new(left),
                right_node: Box::new(right),
            };
            assert(r.leaves() == left.leaves() + right.leaves());
            r
        }
    }

    /// This node holds exactly `objects` and is well formed. A single object
    /// makes a leaf; two make a pair with the smaller key on the left (the
    /// second object on a tie); more make a split node.
    pub open spec fn planned_from(self, keys: Seq<BoundsKey>, objects: Seq<usize>) -> bool {
        &&& self.well_formed(keys)
        &&& self.leaves().to_multiset() == objects.to_multiset()
        &&& objects.len() == 1 ==> self == (BvhLayout::Single { object: objects[0] })
        &&& objects.len() == 2 ==> (self matches BvhLayout::Pair { axis, left, right } && if key_of(
            keys,
            axis as int,
            objects[0],
        ) < key_of(keys, axis as int, objects[1]) {
            left == objects[0] && right == objects[1]
        } else {
            left == objects[1] && right == objects[0]
        })
        &&& objects.len() >= 3 ==> self is Split
    }

    /// The objects held under this node, left to right.
    pub open spec fn leaves(self) -> Seq<usize>
        decreases self,
    {
        match self {
            BvhLayout::Single { object } => seq![object],
            BvhLayout::Pair { left, right, .. } => seq![left, right],
            BvhLayout::Split { left_node, right_node, .. } => left_node.leaves() + right_node.leaves(),
        }
    }

    /// Every node is ordered along its axis, and every split node divides its
    /// objects at the median: no object on the left has a greater key than an
    /// object on the right, and the left half holds the smaller half.
    pub open spec fn well_formed(self, keys: Seq<BoundsKey>) -> bool
        decreases self,
    {
        match self {
            BvhLayout::Single { object } => object < keys.len(),
            BvhLayout::Pair { axis, left, right } => {
                &&& axis < 3
                &&& left < keys.len()
                &&& right < keys.len()
                &&& key_of(keys, axis as int, left) <= key_of(keys, axis as int, right)
            },
            BvhLayout::Split { axis, left_node, right_node } => {
                let nl = left_node.leaves().len();
                let nr = right_node.leaves().len();
                &&& axis < 3
                &&& nl + nr >= 3
                &&& nl == (nl + nr) / 2
                &&& forall|a: usize, b: usize|
                    #![trigger left_node.leaves().contains(a), right_node.leaves().contains(b)]
                    left_node.leaves().contains(a) && right_node.leaves().contains(b) ==> key_of(
                        keys,
                        axis as int,
                        a,
                    ) <= key_of(keys, axis as int, b)
                &&& left_node.well_formed(keys)
                &&& right_node.well_formed(keys)
            },
        }
    }
}

} // verus!
