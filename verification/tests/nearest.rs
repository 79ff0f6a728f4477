use voronoi::nearest::{first_nearest, nearest_index};
use voronoi::scalar::Scalar;

fn dists(xs: &[f32]) -> Vec<Scalar> {
    xs.iter().map(|x| Scalar::from_bits(x.to_bits())).collect()
}

fn fold_as_reduce_does(xs: &[f32]) -> Option<usize> {
    let mut best: Option<usize> = None;
    for j in 0..xs.len() {
        best = match best {
            None => Some(j),
            Some(b) => {
                if xs[j] < xs[b] {
                    Some(j)
                } else {
                    Some(b)
                }
            }
        };
    }
    best
}

#[test]
fn nearest_of_nothing_is_none() {
    assert_eq!(nearest_index(&Vec::new()), None);
}

#[test]
fn nearest_of_one_is_that_one() {
    assert_eq!(nearest_index(&dists(&[3.5])), Some(0));
    assert_eq!(nearest_index(&dists(&[f32::NAN])), Some(0));
    assert_eq!(nearest_index(&dists(&[f32::INFINITY])), Some(0));
}

#[test]
fn nearest_is_the_least_distance() {
    assert_eq!(nearest_index(&dists(&[0.9, 0.2, 0.5])), Some(1));
    assert_eq!(nearest_index(&dists(&[0.1, 0.2, 0.5])), Some(0));
    assert_eq!(nearest_index(&dists(&[0.9, 0.2, 0.05])), Some(2));
}

#[test]
fn on_a_tie_the_first_is_kept() {
    assert_eq!(nearest_index(&dists(&[0.5, 0.5])), Some(0));
    assert_eq!(nearest_index(&dists(&[0.9, 0.5, 0.5, 0.5])), Some(1));
    assert_eq!(nearest_index(&dists(&[0.70710677, 0.70710677])), Some(0));
    assert_eq!(nearest_index(&dists(&[0.0, -0.0])), Some(0));
    assert_eq!(nearest_index(&dists(&[-0.0, 0.0])), Some(0));
}

#[test]
fn a_later_distance_wins_only_if_strictly_less() {
    assert_eq!(nearest_index(&dists(&[0.70710678, 0.70710677])), Some(0));
    assert_eq!(nearest_index(&dists(&[0.5, 0.49999997])), Some(1));
}

#[test]
fn a_nan_at_the_head_is_never_replaced() {
    assert_eq!(nearest_index(&dists(&[f32::NAN, 0.1, 0.0])), Some(0));
}

#[test]
fn a_nan_further_on_is_passed_over() {
    assert_eq!(nearest_index(&dists(&[5.0, f32::NAN, 3.0])), Some(2));
    assert_eq!(nearest_index(&dists(&[5.0, f32::NAN, 7.0])), Some(0));
    assert_eq!(nearest_index(&dists(&[5.0, 3.0, f32::NAN])), Some(1));
}

#[test]
fn nearest_agrees_with_a_left_to_right_fold() {
    let pool = [0.0f32, -0.0, 0.25, 0.5, 0.5, 1.0, f32::NAN, f32::INFINITY, 0.125];
    let mut state: u32 = 12345;
    for len in 0..7usize {
        for _ in 0..200 {
            let mut xs: Vec<f32> = Vec::new();
            for _ in 0..len {
                state = state.wrapping_mul(1664525).wrapping_add(1013904223);
                xs.push(pool[(state >> 16) as usize % pool.len()]);
            }
            assert_eq!(nearest_index(&dists(&xs)), fold_as_reduce_does(&xs), "{:?}", xs);
        }
    }
}

#[test]
fn first_nearest_is_what_nearest_index_holds() {
    assert_eq!(first_nearest(&dists(&[0.9, 0.2, 0.2])), 1);
    assert_eq!(first_nearest(&dists(&[0.5])), 0);
    assert_eq!(first_nearest(&dists(&[f32::NAN, 0.0])), 0);
    assert_eq!(first_nearest(&dists(&[3.0, 2.0, 1.0])), 2);
    assert_eq!(Some(first_nearest(&dists(&[1.0, 0.5, 0.5]))), nearest_index(&dists(&[1.0, 0.5, 0.5])));
}
