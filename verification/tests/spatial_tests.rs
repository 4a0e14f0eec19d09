use rust_fluid::error::FluidError;
use rust_fluid::spatial::{bucket_index, cell_bucket, cell_coordinate, SpatialIndex};
use rust_fluid::vector::{distance_squared, Vector2, COORD_LIMIT};

/// A sequence of numbers that looks random and is the same on every run.
struct Lcg(u64);

impl Lcg {
    fn next(&mut self) -> u64 {
        self.0 = self.0.wrapping_mul(6364136223846793005).wrapping_add(1442695040888963407);
        self.0 >> 33
    }

    fn between(&mut self, lo: i64, hi: i64) -> i64 {
        lo + (self.next() % ((hi - lo) as u64)) as i64
    }
}

fn brute_force(points: &[Vector2], point: Vector2, radius: i64) -> Vec<usize> {
    let r2 = (radius as i128) * (radius as i128);
    (0..points.len()).filter(|&j| distance_squared(&points[j], &point) <= r2).collect()
}

fn sorted(mut ids: Vec<usize>) -> Vec<usize> {
    ids.sort();
    ids
}

fn built(points: Vec<Vector2>, cell: i64) -> SpatialIndex {
    let mut index = SpatialIndex::new();
    assert_eq!(index.build(points, cell), Ok(()));
    index
}

#[test]
fn cell_coordinates_round_down() {
    assert_eq!(cell_coordinate(0, 1_000_000), 0);
    assert_eq!(cell_coordinate(999_999, 1_000_000), 0);
    assert_eq!(cell_coordinate(1_000_000, 1_000_000), 1);
    assert_eq!(cell_coordinate(-1, 1_000_000), -1);
    assert_eq!(cell_coordinate(-1_000_000, 1_000_000), -1);
    assert_eq!(cell_coordinate(-1_000_001, 1_000_000), -2);
    assert_eq!(cell_coordinate(i64::MIN, 1), i64::MIN);
    assert_eq!(cell_coordinate(i64::MAX, 1), i64::MAX);
    assert_eq!(cell_coordinate(i64::MIN, i64::MAX), -2);
    assert_eq!(cell_coordinate(i64::MAX, i64::MAX), 1);
}

#[test]
fn buckets_are_below_their_count() {
    assert_eq!(cell_bucket(0, 0, 7), 0);
    assert_eq!(cell_bucket(1, 0, 1000), 93);
    assert_eq!(cell_bucket(0, 1, 1000), 663);
    assert_eq!(cell_bucket(-1, 0, 1000), 907);
    assert_eq!(cell_bucket(1, 1, 1), 0);
    for (cx, cy) in [(i64::MIN, i64::MIN), (i64::MAX, i64::MAX), (-5, 9), (123_456, -654_321)] {
        for count in [1usize, 2, 3, 17, 1024] {
            assert!(cell_bucket(cx, cy, count) < count);
        }
    }
    let p = Vector2::new(2_500_000, -1);
    assert_eq!(bucket_index(&p, 1_000_000, 1000), cell_bucket(2, -1, 1000));
}

#[test]
fn empty_index_finds_nothing() {
    let index = SpatialIndex::new();
    assert_eq!(index.len(), 0);
    assert_eq!(index.cell_width(), 1);
    assert_eq!(index.query_neighbors(Vector2::new(0, 0), 1), Ok(vec![]));
    let index = built(vec![], 1_000_000);
    assert_eq!(index.len(), 0);
    assert_eq!(index.query_neighbors(Vector2::new(5, 5), 1_000_000), Ok(vec![]));
}

#[test]
fn query_finds_the_points_within_the_radius() {
    let points = vec![
        Vector2::new(0, 0),
        Vector2::new(600_000, 800_000),
        Vector2::new(600_001, 800_000),
        Vector2::new(-1_000_000, 0),
        Vector2::new(0, -1_000_001),
        Vector2::new(5_000_000, 5_000_000),
        Vector2::new(0, 0),
    ];
    let index = built(points.clone(), 1_000_000);
    assert_eq!(index.len(), 7);
    assert_eq!(index.cell_width(), 1_000_000);
    assert_eq!(index.point(1), Vector2::new(600_000, 800_000));
    let found = sorted(index.query_neighbors(Vector2::new(0, 0), 1_000_000).unwrap());
    // The distance of exactly one radius counts; a unit more does not.
    assert_eq!(found, vec![0, 1, 3, 6]);
    let found = sorted(index.query_neighbors(Vector2::new(0, 0), 0).unwrap());
    assert_eq!(found, vec![0, 6]);
    let found = sorted(index.query_neighbors(Vector2::new(5_500_000, 5_000_000), 500_000).unwrap());
    assert_eq!(found, vec![5]);
    let found = index.query_neighbors(Vector2::new(5_500_000, 5_000_000), 499_999).unwrap();
    assert_eq!(found, vec![]);
}

#[test]
fn query_agrees_with_a_search_of_all_points() {
    let mut rng = Lcg(7);
    for round in 0..20 {
        let cell: i64 = [100_000, 1_000_000, 3_333_333, 40_000_000][round % 4];
        let n = 1 + (rng.next() % 200) as usize;
        let points: Vec<Vector2> = (0..n)
            .map(|_| Vector2::new(rng.between(-10_000_000, 10_000_000), rng.between(-10_000_000, 10_000_000)))
            .collect();
        let index = built(points.clone(), cell);
        for _ in 0..50 {
            let q = Vector2::new(rng.between(-12_000_000, 12_000_000), rng.between(-12_000_000, 12_000_000));
            let radius = rng.between(0, cell + 1);
            let found = index.query_neighbors(q, radius).unwrap();
            let unique = sorted(found.clone());
            let mut deduped = unique.clone();
            deduped.dedup();
            assert_eq!(unique, deduped);
            assert_eq!(unique, brute_force(&points, q, radius));
        }
        for i in 0..n {
            let found = index.query_neighbors(points[i], cell).unwrap();
            assert!(found.contains(&i));
        }
    }
}

#[test]
fn every_point_is_filed_once() {
    let mut rng = Lcg(99);
    let points: Vec<Vector2> = (0..500)
        .map(|_| Vector2::new(rng.between(0, 3_000_000), rng.between(0, 3_000_000)))
        .collect();
    let index = built(points.clone(), 1_000_000);
    let mut seen = vec![0usize; points.len()];
    // The nine queries at the cell centres cover the whole square.
    for cx in 0..3i64 {
        for cy in 0..3i64 {
            let q = Vector2::new(cx * 1_000_000 + 500_000, cy * 1_000_000 + 500_000);
            for id in index.query_neighbors(q, 1_000_000).unwrap() {
                let p = points[id];
                if p.x / 1_000_000 == cx && p.y / 1_000_000 == cy {
                    seen[id] += 1;
                }
            }
        }
    }
    assert!(seen.iter().all(|&count| count == 1));
}

#[test]
fn query_works_at_the_ends_of_the_coordinate_range() {
    let points = vec![
        Vector2::new(COORD_LIMIT, COORD_LIMIT),
        Vector2::new(-COORD_LIMIT, -COORD_LIMIT),
        Vector2::new(COORD_LIMIT - 3, COORD_LIMIT - 4),
    ];
    let index = built(points, 10);
    let found = sorted(index.query_neighbors(Vector2::new(COORD_LIMIT, COORD_LIMIT), 5).unwrap());
    assert_eq!(found, vec![0, 2]);
    let found = index.query_neighbors(Vector2::new(-COORD_LIMIT, -COORD_LIMIT), 10).unwrap();
    assert_eq!(found, vec![1]);
}

#[test]
fn build_replaces_what_the_index_held() {
    let mut index = built(vec![Vector2::new(0, 0), Vector2::new(1, 1)], 100);
    assert_eq!(index.build(vec![Vector2::new(50, 50)], 1_000), Ok(()));
    assert_eq!(index.len(), 1);
    assert_eq!(index.cell_width(), 1_000);
    assert_eq!(index.query_neighbors(Vector2::new(0, 0), 100), Ok(vec![0]));
    assert_eq!(index.query_neighbors(Vector2::new(0, 0), 70), Ok(vec![]));
}

#[test]
fn build_refuses_a_cell_size_that_is_not_positive() {
    let mut index = built(vec![Vector2::new(0, 0)], 100);
    assert_eq!(index.build(vec![], 0), Err(FluidError::InvalidConfiguration));
    assert_eq!(index.build(vec![Vector2::new(1, 1)], -5), Err(FluidError::InvalidConfiguration));
    // The index is as it was.
    assert_eq!(index.len(), 1);
    assert_eq!(index.cell_width(), 100);
    assert_eq!(index.query_neighbors(Vector2::new(0, 0), 100), Ok(vec![0]));
}

#[test]
fn build_refuses_a_coordinate_beyond_the_limit() {
    let mut index = built(vec![Vector2::new(0, 0)], 100);
    assert_eq!(
        index.build(vec![Vector2::new(3, 3), Vector2::new(COORD_LIMIT + 1, 0)], 100),
        Err(FluidError::NumericDegeneracy)
    );
    assert_eq!(
        index.build(vec![Vector2::new(0, -COORD_LIMIT - 1)], 100),
        Err(FluidError::NumericDegeneracy)
    );
    assert_eq!(index.len(), 1);
    assert_eq!(index.point(0), Vector2::new(0, 0));
}

#[test]
fn query_refuses_a_radius_larger_than_a_cell() {
    let index = built(vec![Vector2::new(0, 0)], 100);
    assert_eq!(
        index.query_neighbors(Vector2::new(0, 0), 101),
        Err(FluidError::InvalidConfiguration)
    );
    assert_eq!(
        index.query_neighbors(Vector2::new(0, 0), -1),
        Err(FluidError::InvalidConfiguration)
    );
    assert_eq!(
        index.query_neighbors(Vector2::new(COORD_LIMIT + 1, 0), 101),
        Err(FluidError::InvalidConfiguration)
    );
    assert!(index.query_neighbors(Vector2::new(0, 0), 100).is_ok());
}

#[test]
fn query_refuses_a_point_beyond_the_limit() {
    let index = built(vec![Vector2::new(0, 0)], 100);
    assert_eq!(
        index.query_neighbors(Vector2::new(COORD_LIMIT + 1, 0), 100),
        Err(FluidError::NumericDegeneracy)
    );
    assert_eq!(
        index.query_neighbors(Vector2::new(0, i64::MIN), 0),
        Err(FluidError::NumericDegeneracy)
    );
}
