use crab_tracer::bvh::{BoundsKey, BvhError, BvhLayout};
use rand::rngs::StdRng;
use rand::SeedableRng;

fn key(x: u64, y: u64, z: u64) -> BoundsKey {
    BoundsKey { x, y, z }
}

fn leaves(node: &BvhLayout, out: &mut Vec<usize>) {
    match node {
        BvhLayout::Single { object } => out.push(*object),
        BvhLayout::Pair { left, right, .. } => {
            out.push(*left);
            out.push(*right);
        }
        BvhLayout::Split { left_node, right_node, .. } => {
            leaves(left_node, out);
            leaves(right_node, out);
        }
    }
}

fn check_node(node: &BvhLayout, keys: &[BoundsKey]) {
    match node {
        BvhLayout::Single { .. } => {}
        BvhLayout::Pair { axis, left, right } => {
            assert!(*axis < 3);
            assert!(keys[*left].get(*axis) <= keys[*right].get(*axis));
        }
        BvhLayout::Split { axis, left_node, right_node } => {
            assert!(*axis < 3);
            let mut l = Vec::new();
            let mut r = Vec::new();
            leaves(left_node, &mut l);
            leaves(right_node, &mut r);
            assert!(l.len() + r.len() >= 3);
            assert_eq!(l.len(), (l.len() + r.len()) / 2);
            let max_left = l.iter().map(|&o| keys[o].get(*axis)).max().unwrap();
            let min_right = r.iter().map(|&o| keys[o].get(*axis)).min().unwrap();
            assert!(max_left <= min_right);
            check_node(left_node, keys);
            check_node(right_node, keys);
        }
    }
}

#[test]
fn bvh_without_objects_is_an_error() {
    let mut rng = StdRng::seed_from_u64(1);
    assert_eq!(BvhLayout::new(&Vec::new(), &mut rng).unwrap_err(), BvhError::Empty);
}

#[test]
fn bvh_with_unbounded_object_names_the_first_one() {
    let mut rng = StdRng::seed_from_u64(2);
    let bounds = vec![Some(key(1, 2, 3)), None, Some(key(0, 0, 0)), None];
    assert_eq!(
        BvhLayout::new(&bounds, &mut rng).unwrap_err(),
        BvhError::Unbounded { index: 1 }
    );
}

#[test]
fn bvh_single_object_is_a_leaf_without_right_child() {
    let mut rng = StdRng::seed_from_u64(3);
    let layout = BvhLayout::new(&vec![Some(key(5, 5, 5))], &mut rng).unwrap();
    assert!(matches!(layout, BvhLayout::Single { object: 0 }));
}

#[test]
fn bvh_pair_puts_smaller_minimum_on_the_left() {
    for seed in 0..20 {
        let mut rng = StdRng::seed_from_u64(seed);
        let bounds = vec![Some(key(9, 8, 7)), Some(key(1, 2, 3))];
        let layout = BvhLayout::new(&bounds, &mut rng).unwrap();
        assert!(matches!(layout, BvhLayout::Pair { left: 1, right: 0, .. }));

        let bounds = vec![Some(key(1, 2, 3)), Some(key(9, 8, 7))];
        let layout = BvhLayout::new(&bounds, &mut rng).unwrap();
        assert!(matches!(layout, BvhLayout::Pair { left: 0, right: 1, .. }));
    }
}

#[test]
fn bvh_pair_with_equal_keys_puts_second_on_the_left() {
    let mut rng = StdRng::seed_from_u64(4);
    let bounds = vec![Some(key(4, 4, 4)), Some(key(4, 4, 4))];
    let layout = BvhLayout::new(&bounds, &mut rng).unwrap();
    assert!(matches!(layout, BvhLayout::Pair { left: 1, right: 0, .. }));
}

#[test]
fn bvh_three_objects_split_one_and_two() {
    let mut rng = StdRng::seed_from_u64(5);
    let bounds = vec![Some(key(3, 3, 3)), Some(key(1, 1, 1)), Some(key(2, 2, 2))];
    let layout = BvhLayout::new(&bounds, &mut rng).unwrap();
    match layout {
        BvhLayout::Split { left_node, right_node, .. } => {
            assert!(matches!(*left_node, BvhLayout::Single { object: 1 }));
            assert!(matches!(*right_node, BvhLayout::Pair { left: 2, right: 0, .. }));
        }
        other => panic!("expected a split node, got {:?}", other),
    }
}

#[test]
fn bvh_holds_every_object_once_and_splits_at_the_median() {
    let mut rng = StdRng::seed_from_u64(6);
    let mut keys = Vec::new();
    for i in 0..57u64 {
        keys.push(key((i * 37) % 101, (i * 53) % 89, (i * 11) % 7));
    }
    let bounds: Vec<Option<BoundsKey>> = keys.iter().map(|k| Some(*k)).collect();
    let layout = BvhLayout::new(&bounds, &mut rng).unwrap();
    let mut found = Vec::new();
    leaves(&layout, &mut found);
    found.sort();
    assert_eq!(found, (0..57).collect::<Vec<usize>>());
    check_node(&layout, &keys);
}
