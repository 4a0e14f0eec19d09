//! The spatial index.
//!
//! The plane is cut into square cells as wide as the largest radius that
//! will be asked for, and every point is filed under its cell. All points
//! within that radius of a query point then lie in the cell of the query
//! point or in one of its eight neighbours, so a query reads nine cells
//! instead of every point.
//!
//! Cells are hashed into a fixed number of buckets. Two cells may share a
//! bucket; a query therefore checks the cell of every candidate, which also
//! keeps a point from being reported twice.

use vstd::prelude::*;
use vstd::arithmetic::div_mod::{lemma_div_is_ordered, lemma_div_minus_one, lemma_div_plus_one};
use crate::error::FluidError;
use crate::fixed::{floor_div, floor_mod, lemma_mul_bound};
use crate::vector::{dist2, distance_squared, lemma_dist2, within_coord_limit, Vector2};

verus! {

/// The multiplier of the horizontal cell coordinate in the hash.
pub const HASH_X: i64 = 73_856_093;

/// The multiplier of the vertical cell coordinate in the hash.
pub const HASH_Y: i64 = 19_349_663;

/// The cell coordinate of the coordinate `x`: cells are `size` wide, and a
/// coordinate on the border of two cells belongs to the upper one.
pub open spec fn cell_of(x: int, size: int) -> int {
    x / size
}

/// The bucket of the cell `(cx, cy)` among `count` buckets.
pub open spec fn bucket_of(cx: int, cy: int, count: int) -> int {
    (cx * HASH_X + cy * HASH_Y) % count
}

/// The bucket under which the point `p` is filed.
pub open spec fn home_bucket(p: Vector2, size: int, count: int) -> int {
    bucket_of(cell_of(p.x as int, size), cell_of(p.y as int, size), count)
}

/// Whether the cell of `p` is the cell `(cx, cy)` or one of its eight
/// neighbours.
pub open spec fn in_block(p: Vector2, size: int, cx: int, cy: int) -> bool {
    &&& cx - 1 <= cell_of(p.x as int, size) <= cx + 1
    &&& cy - 1 <= cell_of(p.y as int, size) <= cy + 1
}

/// The place of the cell of `p` among the nine cells around `(cx, cy)`,
/// counted column by column from 0 to 8.
pub open spec fn block_rank(p: Vector2, size: int, cx: int, cy: int) -> int {
    (cell_of(p.x as int, size) - cx + 1) * 3 + (cell_of(p.y as int, size) - cy + 1)
}

/// Whether `p` is a point that a query for the points within the squared
/// distance `r2` of `point` finds in one of the first `c` cells of the
/// block around `(cx, cy)`.
pub open spec fn found_before(
    p: Vector2,
    point: Vector2,
    r2: int,
    size: int,
    cx: int,
    cy: int,
    c: int,
) -> bool {
    &&& dist2(p, point) <= r2
    &&& in_block(p, size, cx, cy)
    &&& block_rank(p, size, cx, cy) < c
}

/// Whether `ids` lists, each once, exactly the points within `radius` of
/// `point`.
pub open spec fn is_neighbor_list(
    ids: Seq<usize>,
    points: Seq<Vector2>,
    point: Vector2,
    radius: int,
) -> bool {
    &&& ids.no_duplicates()
    &&& forall|k: int|
        0 <= k < ids.len() ==> (#[trigger] ids[k]) < points.len() && dist2(
            points[ids[k] as int],
            point,
        ) <= radius * radius
    &&& forall|j: int|
        0 <= j < points.len() && dist2(#[trigger] points[j], point) <= radius * radius
            ==> ids.contains(j as usize)
}

/// Whether the ids of a bucket are in increasing order.
pub open spec fn bucket_sorted(bucket: Seq<usize>) -> bool {
    forall|a: int, b: int| 0 <= a < b < bucket.len() ==> bucket[a] < bucket[b]
}

/// Whether every id of the bucket `b` is below `limit` and belongs there.
pub open spec fn bucket_holds(
    bucket: Seq<usize>,
    points: Seq<Vector2>,
    size: int,
    count: int,
    b: int,
    limit: int,
) -> bool {
    forall|k: int|
        0 <= k < bucket.len() ==> (#[trigger] bucket[k]) < limit && home_bucket(
            points[bucket[k] as int],
            size,
            count,
        ) == b
}

/// Whether the point `j` is filed under its bucket.
pub open spec fn placed(
    buckets: Seq<Vec<usize>>,
    points: Seq<Vector2>,
    size: int,
    j: int,
) -> bool {
    buckets[home_bucket(points[j], size, buckets.len() as int)]@.contains(j as usize)
}

/// Two coordinates no further apart than the cell size lie in the same
/// cell or in adjacent cells.
pub proof fn lemma_adjacent_cells(a: int, b: int, radius: int, size: int)
    requires
        0 <= radius <= size,
        size > 0,
        (a - b) * (a - b) <= radius * radius,
    ensures
        cell_of(b, size) - 1 <= cell_of(a, size) <= cell_of(b, size) + 1,
{
    let d: int = a - b;
    assert(-radius <= d <= radius) by (nonlinear_arith)
        requires
            d * d <= radius * radius,
            radius >= 0,
    ;
    lemma_div_is_ordered(a, b + size, size);
    lemma_div_is_ordered(b - size, a, size);
    lemma_div_plus_one(b, size);
    lemma_div_minus_one(b, size);
}

/// A point within `radius` of `point` lies in the block of nine cells
/// around the cell of `point`.
pub proof fn lemma_neighbor_in_block(p: Vector2, point: Vector2, radius: int, size: int)
    requires
        0 <= radius <= size,
        size > 0,
        dist2(p, point) <= radius * radius,
    ensures
        in_block(p, size, cell_of(point.x as int, size), cell_of(point.y as int, size)),
{
    lemma_dist2(p, point);
    lemma_adjacent_cells(p.x as int, point.x as int, radius, size);
    lemma_adjacent_cells(p.y as int, point.y as int, radius, size);
}

/// The cell coordinate of `x` for cells `size` wide.
pub fn cell_coordinate(x: i64, size: i64) -> (c: i64)
    requires
        size > 0,
    ensures
        c == cell_of(x as int, size as int),
{
    proof {
        lemma_cell_fits(x, size);
    }
    let q: i128 = floor_div(x as i128, size as i128);
    q as i64
}

/// The bucket, among `count`, under which `p` is filed.
pub fn bucket_index(p: &Vector2, size: i64, count: usize) -> (b: usize)
    requires
        size > 0,
        count > 0,
    ensures
        b == home_bucket(*p, size as int, count as int),
        b < count,
{
    let cx: i64 = cell_coordinate(p.x, size);
    let cy: i64 = cell_coordinate(p.y, size);
    cell_bucket(cx, cy, count)
}

/// The bucket, among `count`, of the cell `(cx, cy)`.
pub fn cell_bucket(cx: i64, cy: i64, count: usize) -> (b: usize)
    requires
        count > 0,
    ensures
        b == bucket_of(cx as int, cy as int, count as int),
        b < count,
{
    proof {
        lemma_mul_bound(cx as int, HASH_X as int, 0x8000_0000_0000_0000, HASH_X as int);
        lemma_mul_bound(cy as int, HASH_Y as int, 0x8000_0000_0000_0000, HASH_Y as int);
    }
    let v: i128 = (cx as i128) * (HASH_X as i128) + (cy as i128) * (HASH_Y as i128);
    let r: i128 = floor_mod(v, count as i128);
    r as usize
}

/// Points filed by cell, for neighbour queries.
#[derive(Debug, Clone)]
pub struct SpatialIndex {
    cell_size: i64,
    points: Vec<Vector2>,
    buckets: Vec<Vec<usize>>,
}

impl SpatialIndex {
    /// The points that the index was built from, in their order.
    pub closed spec fn points(&self) -> Seq<Vector2> {
        self.points@
    }

    /// The width of a cell.
    pub closed spec fn cell_size(&self) -> int {
        self.cell_size as int
    }

    /// The invariant of the index: every point is filed once, under the
    /// bucket of its cell, and every coordinate is within the limit between
    /// which distances can be taken.
    pub closed spec fn wf(&self) -> bool {
        &&& self.cell_size > 0
        &&& self.buckets.len() > 0
        &&& forall|i: int|
            0 <= i < self.points.len() ==> within_coord_limit(#[trigger] self.points@[i])
        &&& forall|b: int|
            0 <= b < self.buckets.len() ==> bucket_sorted((#[trigger] self.buckets@[b])@)
                && bucket_holds(
                self.buckets@[b]@,
                self.points@,
                self.cell_size as int,
                self.buckets.len() as int,
                b,
                self.points.len() as int,
            )
        &&& forall|j: int|
            0 <= j < self.points.len() ==> #[trigger] placed(
                self.buckets@,
                self.points@,
                self.cell_size as int,
                j,
            )
    }

    /// The number of buckets.
    pub closed spec fn bucket_count(&self) -> int {
        self.buckets.len() as int
    }

    /// The ids filed under the bucket `b`.
    pub closed spec fn bucket(&self, b: int) -> Seq<usize> {
        self.buckets@[b]@
    }

    /// Every point is filed exactly once: under the bucket of its cell and
    /// under no other, and no bucket holds an id twice.
    pub proof fn lemma_point_filed_once(&self, j: int, b: int)
        requires
            self.wf(),
            0 <= j < self.points().len(),
            0 <= b < self.bucket_count(),
        ensures
            self.bucket(b).contains(j as usize) <==> b == home_bucket(
                self.points()[j],
                self.cell_size(),
                self.bucket_count(),
            ),
            self.bucket(b).no_duplicates(),
    {
        assert(bucket_sorted(self.buckets@[b]@));
        assert(bucket_holds(
            self.buckets@[b]@,
            self.points@,
            self.cell_size as int,
            self.buckets.len() as int,
            b,
            self.points.len() as int,
        ));
        assert(placed(self.buckets@, self.points@, self.cell_size as int, j));
        if self.bucket(b).contains(j as usize) {
            let k: int = choose|k: int|
                0 <= k < self.bucket(b).len() && self.bucket(b)[k] == j as usize;
            assert(self.buckets@[b]@[k] == j as usize);
        }
    }

    /// Every point of a well-formed index is within the coordinate limit.
    pub proof fn lemma_points_within_limit(&self)
        requires
            self.wf(),
        ensures
            self.cell_size() > 0,
            forall|i: int|
                0 <= i < self.points().len() ==> within_coord_limit(#[trigger] self.points()[i]),
    {
    }

    /// An index over no points, with cells one unit wide.
    pub fn new() -> (index: Self)
        ensures
            index.wf(),
            index.points().len() == 0,
            index.cell_size() == 1,
    {
        let mut buckets: Vec<Vec<usize>> = Vec::new();
        buckets.push(Vec::new());
        SpatialIndex { cell_size: 1, points: Vec::new(), buckets }
    }

    /// The number of points in the index.
    pub fn len(&self) -> (n: usize)
        ensures
            n == self.points().len(),
    {
        self.points.len()
    }

    /// The width of a cell.
    pub fn cell_width(&self) -> (w: i64)
        ensures
            w == self.cell_size(),
    {
        self.cell_size
    }

    /// The point with the id `i`.
    pub fn point(&self, i: usize) -> (p: Vector2)
        requires
            i < self.points().len(),
        ensures
            p == self.points()[i as int],
    {
        self.points[i]
    }

    /// Files `points` anew, in cells `cell_size` wide; what the index held
    /// before is dropped. A cell size that is not positive is refused as an
    /// invalid configuration, a coordinate beyond the limit as a numeric
    /// degeneracy; in both cases the index stays as it was.
    pub fn build(&mut self, points: Vec<Vector2>, cell_size: i64) -> (r: Result<(), FluidError>)
        requires
            old(self).wf(),
        ensures
            final(self).wf(),
            r is Ok <==> cell_size > 0 && forall|i: int|
                0 <= i < points.len() ==> within_coord_limit(#[trigger] points[i]),
            r is Ok ==> final(self).points() == points@ && final(self).cell_size() == cell_size,
            r is Err ==> *final(self) == *old(self),
            cell_size <= 0 <==> r == Err::<(), FluidError>(FluidError::InvalidConfiguration),
            (cell_size > 0 && exists|i: int|
                0 <= i < points.len() && !within_coord_limit(#[trigger] points[i])) <==> r
                == Err::<(), FluidError>(FluidError::NumericDegeneracy),
    {
        if cell_size <= 0 {
            return Err(FluidError::InvalidConfiguration);
        }
        let n: usize = points.len();
        let mut i: usize = 0;
        while i < n
            invariant
                i <= n,
                n == points.len(),
                cell_size > 0,
                self.wf(),
                *self == *old(self),
                forall|j: int| 0 <= j < i ==> within_coord_limit(#[trigger] points[j]),
            decreases n - i,
        {
            let p: Vector2 = points[i];
            if p.x < -crate::vector::COORD_LIMIT || p.x > crate::vector::COORD_LIMIT || p.y
                < -crate::vector::COORD_LIMIT || p.y > crate::vector::COORD_LIMIT {
                return Err(FluidError::NumericDegeneracy);
            }
            i = i + 1;
        }
        let count: usize = if n == 0 {
            1
        } else {
            n
        };
        let mut buckets: Vec<Vec<usize>> = Vec::new();
        let mut b: usize = 0;
        while b < count
            invariant
                b <= count,
                buckets.len() == b,
                forall|c: int| 0 <= c < b ==> (#[trigger] buckets@[c])@.len() == 0,
            decreases count - b,
        {
            buckets.push(Vec::new());
            b = b + 1;
        }
        let mut i: usize = 0;
        while i < n
            invariant
                i <= n,
                n == points.len(),
                count > 0,
                cell_size > 0,
                buckets.len() == count,
                forall|c: int|
                    0 <= c < count ==> bucket_sorted((#[trigger] buckets@[c])@) && bucket_holds(
                        buckets@[c]@,
                        points@,
                        cell_size as int,
                        count as int,
                        c,
                        i as int,
                    ),
                forall|j: int|
                    0 <= j < i ==> #[trigger] placed(buckets@, points@, cell_size as int, j),
            decreases n - i,
        {
            let home: usize = bucket_index(&points[i], cell_size, count);
            let ghost before: Seq<Vec<usize>> = buckets@;
            buckets[home].push(i);
            proof {
                assert(buckets@[home as int]@ == before[home as int]@.push(i));
                assert forall|c: int| 0 <= c < count implies bucket_sorted(
                    (#[trigger] buckets@[c])@,
                ) && bucket_holds(
                    buckets@[c]@,
                    points@,
                    cell_size as int,
                    count as int,
                    c,
                    i + 1,
                ) by {
                    assert(bucket_sorted(before[c]@));
                    assert(bucket_holds(
                        before[c]@,
                        points@,
                        cell_size as int,
                        count as int,
                        c,
                        i as int,
                    ));
                    if c != home {
                        assert(buckets@[c] == before[c]);
                    }
                }
                assert forall|j: int| 0 <= j < i + 1 implies #[trigger] placed(
                    buckets@,
                    points@,
                    cell_size as int,
                    j,
                ) by {
                    let hb: int = home_bucket(points@[j], cell_size as int, count as int);
                    if j < i {
                        assert(placed(before, points@, cell_size as int, j));
                        if hb == home {
                            vstd::seq_lib::lemma_seq_contains_after_push(
                                before[hb]@,
                                i,
                                j as usize,
                            );
                        } else {
                            assert(buckets@[hb] == before[hb]);
                        }
                    } else {
                        vstd::seq_lib::lemma_seq_contains_after_push(before[hb]@, i, j as usize);
                    }
                }
            }
            i = i + 1;
        }
        self.cell_size = cell_size;
        self.points = points;
        self.buckets = buckets;
        Ok(())
    }

    /// The ids of the points within `radius` of `point`, each once, in no
    /// particular order. A radius that is negative or larger than a cell is
    /// refused as an invalid configuration, a query point beyond the
    /// coordinate limit as a numeric degeneracy.
    pub fn query_neighbors(&self, point: Vector2, radius: i64) -> (r: Result<
        Vec<usize>,
        FluidError,
    >)
        requires
            self.wf(),
        ensures
            (radius < 0 || radius > self.cell_size()) <==> r == Err::<Vec<usize>, FluidError>(
                FluidError::InvalidConfiguration,
            ),
            (0 <= radius <= self.cell_size() && !within_coord_limit(point)) <==> r == Err::<
                Vec<usize>,
                FluidError,
            >(FluidError::NumericDegeneracy),
            r is Ok <==> 0 <= radius <= self.cell_size() && within_coord_limit(point),
            r matches Ok(ids) ==> is_neighbor_list(ids@, self.points(), point, radius as int),
    {
        if radius < 0 || radius > self.cell_size {
            return Err(FluidError::InvalidConfiguration);
        }
        if point.x < -crate::vector::COORD_LIMIT || point.x > crate::vector::COORD_LIMIT
            || point.y < -crate::vector::COORD_LIMIT || point.y > crate::vector::COORD_LIMIT {
            return Err(FluidError::NumericDegeneracy);
        }
        let size: i64 = self.cell_size;
        let n: usize = self.points.len();
        let count: usize = self.buckets.len();
        let cx: i64 = cell_coordinate(point.x, size);
        let cy: i64 = cell_coordinate(point.y, size);
        proof {
            lemma_mul_bound(radius as int, radius as int, i64::MAX as int, i64::MAX as int);
        }
        let r2: i128 = (radius as i128) * (radius as i128);
        let mut ids: Vec<usize> = Vec::new();
        let mut c: i64 = 0;
        while c < 9
            invariant
                0 <= c <= 9,
                self.wf(),
                within_coord_limit(point),
                size == self.cell_size,
                n == self.points.len(),
                count == self.buckets.len(),
                cx == cell_of(point.x as int, size as int),
                cy == cell_of(point.y as int, size as int),
                r2 == radius * radius,
                ids@.no_duplicates(),
                forall|k: int|
                    0 <= k < ids.len() ==> (#[trigger] ids@[k]) < n && found_before(
                        self.points@[ids@[k] as int],
                        point,
                        r2 as int,
                        size as int,
                        cx as int,
                        cy as int,
                        c as int,
                    ),
                forall|j: int|
                    0 <= j < n && found_before(
                        #[trigger] self.points@[j],
                        point,
                        r2 as int,
                        size as int,
                        cx as int,
                        cy as int,
                        c as int,
                    ) ==> ids@.contains(j as usize),
            decreases 9 - c,
        {
            let ox: i64 = c / 3 - 1;
            let oy: i64 = c % 3 - 1;
            // A cell beyond the 64-bit range holds no point.
            if (cx == i64::MIN && ox < 0) || (cx == i64::MAX && ox > 0) || (cy == i64::MIN && oy
                < 0) || (cy == i64::MAX && oy > 0) {
                proof {
                    assert forall|j: int| 0 <= j < n implies !(in_block(
                        #[trigger] self.points@[j],
                        size as int,
                        cx as int,
                        cy as int,
                    ) && block_rank(self.points@[j], size as int, cx as int, cy as int) == c) by {
                        let p: Vector2 = self.points@[j];
                        lemma_cell_fits(p.x, size);
                        lemma_cell_fits(p.y, size);
                    }
                }
                c = c + 1;
                continue ;
            }
            let qx: i64 = cx + ox;
            let qy: i64 = cy + oy;
            let b: usize = cell_bucket(qx, qy, count);
            let len: usize = self.buckets[b].len();
            let mut k: usize = 0;
            while k < len
                invariant
                    0 <= c < 9,
                    k <= len,
                    self.wf(),
                    within_coord_limit(point),
                    size == self.cell_size,
                    n == self.points.len(),
                    count == self.buckets.len(),
                    b < count,
                    b == bucket_of(qx as int, qy as int, count as int),
                    len == self.buckets@[b as int]@.len(),
                    ox == c / 3 - 1,
                    oy == c % 3 - 1,
                    qx == cx + ox,
                    qy == cy + oy,
                    r2 == radius * radius,
                    ids@.no_duplicates(),
                    forall|m: int|
                        0 <= m < ids.len() ==> {
                            &&& (#[trigger] ids@[m]) < n
                            &&& found_before(
                                self.points@[ids@[m] as int],
                                point,
                                r2 as int,
                                size as int,
                                cx as int,
                                cy as int,
                                c + 1,
                            )
                            &&& (block_rank(
                                self.points@[ids@[m] as int],
                                size as int,
                                cx as int,
                                cy as int,
                            ) == c && k < len ==> ids@[m] < self.buckets@[b as int]@[k as int])
                        },
                    forall|j: int|
                        0 <= j < n && found_before(
                            #[trigger] self.points@[j],
                            point,
                            r2 as int,
                            size as int,
                            cx as int,
                            cy as int,
                            c as int,
                        ) ==> ids@.contains(j as usize),
                    forall|m: int|
                        0 <= m < k && dist2(
                            self.points@[(#[trigger] self.buckets@[b as int]@[m]) as int],
                            point,
                        ) <= r2 && cell_of(
                            self.points@[self.buckets@[b as int]@[m] as int].x as int,
                            size as int,
                        ) == qx && cell_of(
                            self.points@[self.buckets@[b as int]@[m] as int].y as int,
                            size as int,
                        ) == qy ==> ids@.contains(self.buckets@[b as int]@[m]),
                decreases len - k,
            {
                let id: usize = self.buckets[b][k];
                proof {
                    assert(bucket_sorted(self.buckets@[b as int]@));
                    assert(bucket_holds(
                        self.buckets@[b as int]@,
                        self.points@,
                        size as int,
                        count as int,
                        b as int,
                        n as int,
                    ));
                    assert(self.buckets@[b as int]@[k as int] < n);
                }
                let p: Vector2 = self.points[id];
                let px: i64 = cell_coordinate(p.x, size);
                let py: i64 = cell_coordinate(p.y, size);
                let ghost before: Seq<usize> = ids@;
                if px == qx && py == qy {
                    let d: i128 = distance_squared(&p, &point);
                    if d <= r2 {
                        proof {
                            assert(block_rank(p, size as int, cx as int, cy as int) == c);
                            assert(!before.contains(id)) by {
                                if before.contains(id) {
                                    let m: int = choose|m: int|
                                        0 <= m < before.len() && before[m] == id;
                                    assert(before[m] < self.buckets@[b as int]@[k as int]);
                                }
                            }
                        }
                        ids.push(id);
                        proof {
                            assert(ids@ == before.push(id));
                            assert(ids@[before.len() as int] == id);
                        }
                    }
                }
                proof {
                    assert forall|j: int|
                        0 <= j < n && found_before(
                            #[trigger] self.points@[j],
                            point,
                            r2 as int,
                            size as int,
                            cx as int,
                            cy as int,
                            c as int,
                        ) implies ids@.contains(j as usize) by {
                        assert(before.contains(j as usize));
                        vstd::seq_lib::lemma_seq_contains_after_push(before, id, j as usize);
                    }
                    assert forall|m: int|
                        0 <= m < k + 1 && dist2(
                            self.points@[(#[trigger] self.buckets@[b as int]@[m]) as int],
                            point,
                        ) <= r2 && cell_of(
                            self.points@[self.buckets@[b as int]@[m] as int].x as int,
                            size as int,
                        ) == qx && cell_of(
                            self.points@[self.buckets@[b as int]@[m] as int].y as int,
                            size as int,
                        ) == qy implies ids@.contains(self.buckets@[b as int]@[m]) by {
                        let v: usize = self.buckets@[b as int]@[m];
                        if m < k {
                            assert(before.contains(v));
                            vstd::seq_lib::lemma_seq_contains_after_push(before, id, v);
                        }
                    }
                }
                k = k + 1;
            }
            proof {
                assert forall|j: int|
                    0 <= j < n && found_before(
                        #[trigger] self.points@[j],
                        point,
                        r2 as int,
                        size as int,
                        cx as int,
                        cy as int,
                        c + 1,
                    ) implies ids@.contains(j as usize) by {
                    let p: Vector2 = self.points@[j];
                    if block_rank(p, size as int, cx as int, cy as int) == c {
                        assert(cell_of(p.x as int, size as int) == qx);
                        assert(cell_of(p.y as int, size as int) == qy);
                        assert(placed(self.buckets@, self.points@, size as int, j));
                        assert(home_bucket(p, size as int, count as int) == b);
                        let m: int = choose|m: int|
                            0 <= m < self.buckets@[b as int]@.len() && self.buckets@[b as int]@[m]
                                == j as usize;
                        assert(self.buckets@[b as int]@[m] == j as usize);
                    }
                }
            }
            c = c + 1;
        }
        proof {
            assert forall|j: int|
                0 <= j < n && dist2(#[trigger] self.points@[j], point) <= radius
                    * radius implies ids@.contains(j as usize) by {
                lemma_neighbor_in_block(self.points@[j], point, radius as int, size as int);
            }
        }
        Ok(ids)
    }
}

/// The cell coordinate of a 64-bit coordinate fits 64 bits.
pub proof fn lemma_cell_fits(x: i64, size: i64)
    requires
        size > 0,
    ensures
        i64::MIN <= cell_of(x as int, size as int) <= i64::MAX,
{
    // The quotient lies between those of the two ends of the range, and
    // these are no further from zero than the ends themselves.
    lemma_div_is_ordered(x as int, i64::MAX as int, size as int);
    lemma_div_is_ordered(i64::MIN as int, x as int, size as int);
    vstd::arithmetic::div_mod::lemma_div_multiples_vanish(i64::MIN as int, size as int);
    assert((size as int) * (i64::MIN as int) <= i64::MIN as int) by (nonlinear_arith)
        requires
            size >= 1,
    ;
    lemma_div_is_ordered((size as int) * (i64::MIN as int), i64::MIN as int, size as int);
}

} // verus!
