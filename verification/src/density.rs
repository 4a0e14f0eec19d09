//! The density field.
//!
//! The density at a particle is the sum of the poly6 weights of all
//! particles, itself included, taken at their predicted positions; every
//! particle has unit mass. The pressure follows from the density by the
//! equation of state `stiffness * max(0, density - rest_density)`.

use vstd::prelude::*;
use crate::error::FluidError;
use crate::fixed::{fixed_mul, scaled_mul, LIMIT};
use crate::kernel::{
    lemma_poly6_at_zero, lemma_poly6_bounds, poly6, poly6_weight, valid_radius, POLY6_MAX,
};
use crate::spatial::{is_neighbor_list, SpatialIndex};
use crate::sums::{
    lemma_list_sum_covers, lemma_list_sum_push, lemma_range_sum_lower, list_sum, range_sum, term,
};
use crate::vector::{dist2, distance_squared, lemma_dist2, Vector2};

verus! {

/// The weight of the particle `j` in the density at the particle `i`.
pub open spec fn density_term(points: Seq<Vector2>, h: int, i: int, j: int) -> int {
    poly6(dist2(points[i], points[j]), h)
}

/// The density at the particle `i`: the sum of the weights of all
/// particles.
pub open spec fn density_at(points: Seq<Vector2>, h: int, i: int) -> int {
    range_sum(|j: int| density_term(points, h, i, j), points.len() as int)
}

/// The pressure that the equation of state gives for a density.
pub open spec fn pressure_of(density: int, rest_density: int, stiffness: int) -> int {
    fixed_mul(
        stiffness,
        if density > rest_density {
            density - rest_density
        } else {
            0
        },
    )
}

/// Whether every density of the field can be stored.
pub open spec fn densities_in_range(points: Seq<Vector2>, h: int) -> bool {
    forall|i: int| 0 <= i < points.len() ==> #[trigger] density_at(points, h, i) <= LIMIT
}

/// Whether every pressure of the field can be stored.
pub open spec fn pressures_in_range(densities: Seq<i64>, rest_density: int, stiffness: int) -> bool {
    forall|i: int|
        0 <= i < densities.len() ==> pressure_of(
            (#[trigger] densities[i]) as int,
            rest_density,
            stiffness,
        ) <= LIMIT
}

/// A particle always sees itself: the density at a particle is at least its
/// own weight, which is at least one unit, so a density is never zero.
pub proof fn lemma_density_positive(points: Seq<Vector2>, h: int, i: int)
    requires
        valid_radius(h),
        0 <= i < points.len(),
    ensures
        density_at(points, h, i) >= poly6(0, h),
        poly6(0, h) >= 1,
        density_at(points, h, i) > 0,
{
    let f = |j: int| density_term(points, h, i, j);
    assert forall|j: int| 0 <= j < points.len() implies #[trigger] term(f, j) >= 0 by {
        lemma_poly6_bounds(dist2(points[i], points[j]), h);
    }
    lemma_range_sum_lower(f, points.len() as int, i);
    lemma_poly6_at_zero(h);
}

/// The pressure is never negative, and zero up to the rest density.
pub proof fn lemma_pressure_nonnegative(density: int, rest_density: int, stiffness: int)
    requires
        stiffness >= 0,
    ensures
        pressure_of(density, rest_density, stiffness) >= 0,
        density <= rest_density ==> pressure_of(density, rest_density, stiffness) == 0,
{
    let excess: int = if density > rest_density {
        density - rest_density
    } else {
        0
    };
    assert(stiffness * excess >= 0) by (nonlinear_arith)
        requires
            stiffness >= 0,
            excess >= 0,
    ;
    if density <= rest_density {
        assert(stiffness * 0 == 0);
    }
}

/// The density at the particle `i` of the index, for the smoothing radius
/// `h`; `None` where it is too large to be stored.
pub fn density_of(index: &SpatialIndex, i: usize, h: i64) -> (r: Option<i64>)
    requires
        index.wf(),
        i < index.points().len(),
        valid_radius(h as int),
        h <= index.cell_size(),
    ensures
        match r {
            Some(d) => d == density_at(index.points(), h as int, i as int) && 1 <= d <= LIMIT,
            None => density_at(index.points(), h as int, i as int) > LIMIT,
        },
{
    proof {
        index.lemma_points_within_limit();
        lemma_density_positive(index.points(), h as int, i as int);
    }
    let n: usize = index.len();
    let p: Vector2 = index.point(i);
    let ghost points: Seq<Vector2> = index.points();
    let ghost f: spec_fn(int) -> int = |j: int| density_term(points, h as int, i as int, j);
    match index.query_neighbors(p, h) {
        Ok(ids) => {
            let mut acc: i128 = 0;
            let mut k: usize = 0;
            while k < ids.len()
                invariant
                    k <= ids.len(),
                    index.wf(),
                    points == index.points(),
                    i < points.len(),
                    p == points[i as int],
                    valid_radius(h as int),
                    f == (|j: int| density_term(points, h as int, i as int, j)),
                    is_neighbor_list(ids@, points, p, h as int),
                    forall|m: int| 0 <= m < points.len() ==> crate::vector::within_coord_limit(
                        #[trigger] points[m],
                    ),
                    acc == list_sum(f, ids@.take(k as int)),
                    0 <= acc <= k * POLY6_MAX,
                decreases ids.len() - k,
            {
                let j: usize = ids[k];
                let q: Vector2 = index.point(j);
                let d2: i128 = distance_squared(&p, &q);
                let w: i64 = poly6_weight(d2, h);
                proof {
                    lemma_list_sum_push(f, ids@.take(k as int), j);
                    assert(ids@.take(k + 1) =~= ids@.take(k as int).push(j));
                }
                acc = acc + w as i128;
                k = k + 1;
            }
            proof {
                assert(ids@.take(ids.len() as int) =~= ids@);
                assert forall|j: int| 0 <= j < n && #[trigger] term(f, j) != 0 implies ids@.contains(
                    j as usize,
                ) by {
                    lemma_dist2(points[i as int], points[j]);
                }
                lemma_list_sum_covers(f, ids@, n as int);
            }
            if acc > LIMIT as i128 {
                None
            } else {
                Some(acc as i64)
            }
        },
        Err(_) => {
            proof {
                assert(false);
            }
            None
        },
    }
}

/// The densities at all particles of the index. A density too large to be
/// stored is a numeric degeneracy.
pub fn compute_densities(index: &SpatialIndex, h: i64) -> (r: Result<Vec<i64>, FluidError>)
    requires
        index.wf(),
        valid_radius(h as int),
        h <= index.cell_size(),
    ensures
        r is Ok <==> densities_in_range(index.points(), h as int),
        r is Err ==> r == Err::<Vec<i64>, FluidError>(FluidError::NumericDegeneracy),
        r matches Ok(d) ==> d.len() == index.points().len() && forall|i: int|
            0 <= i < d.len() ==> (#[trigger] d[i]) == density_at(index.points(), h as int, i) && 1
                <= d[i] <= LIMIT,
{
    let n: usize = index.len();
    let mut densities: Vec<i64> = Vec::with_capacity(n);
    let mut i: usize = 0;
    while i < n
        invariant
            i <= n,
            n == index.points().len(),
            index.wf(),
            valid_radius(h as int),
            h <= index.cell_size(),
            densities.len() == i,
            forall|m: int|
                0 <= m < i ==> (#[trigger] densities[m]) == density_at(
                    index.points(),
                    h as int,
                    m,
                ) && 1 <= densities[m] <= LIMIT,
        decreases n - i,
    {
        match density_of(index, i, h) {
            Some(d) => {
                densities.push(d);
            },
            None => {
                return Err(FluidError::NumericDegeneracy);
            },
        }
        i = i + 1;
    }
    proof {
        assert forall|m: int| 0 <= m < n implies #[trigger] density_at(
            index.points(),
            h as int,
            m,
        ) <= LIMIT by {
            assert(densities[m] <= LIMIT);
        }
    }
    Ok(densities)
}

/// The pressures that the equation of state gives for the densities. A
/// pressure too large to be stored is a numeric degeneracy.
pub fn compute_pressures(densities: &Vec<i64>, rest_density: i64, stiffness: i64) -> (r: Result<
    Vec<i64>,
    FluidError,
>)
    requires
        0 <= rest_density <= LIMIT,
        0 <= stiffness <= LIMIT,
        forall|i: int| 0 <= i < densities.len() ==> 0 <= (#[trigger] densities[i]) <= LIMIT,
    ensures
        r is Ok <==> pressures_in_range(densities@, rest_density as int, stiffness as int),
        r is Err ==> r == Err::<Vec<i64>, FluidError>(FluidError::NumericDegeneracy),
        r matches Ok(p) ==> p.len() == densities.len() && forall|i: int|
            0 <= i < p.len() ==> (#[trigger] p[i]) == pressure_of(
                densities[i] as int,
                rest_density as int,
                stiffness as int,
            ) && 0 <= p[i] <= LIMIT,
{
    let n: usize = densities.len();
    let mut pressures: Vec<i64> = Vec::with_capacity(n);
    let mut i: usize = 0;
    while i < n
        invariant
            i <= n,
            n == densities.len(),
            0 <= rest_density <= LIMIT,
            0 <= stiffness <= LIMIT,
            forall|m: int| 0 <= m < densities.len() ==> 0 <= (#[trigger] densities[m]) <= LIMIT,
            pressures.len() == i,
            forall|m: int|
                0 <= m < i ==> (#[trigger] pressures[m]) == pressure_of(
                    densities[m] as int,
                    rest_density as int,
                    stiffness as int,
                ) && 0 <= pressures[m] <= LIMIT,
        decreases n - i,
    {
        let d: i64 = densities[i];
        let excess: i64 = if d > rest_density {
            d - rest_density
        } else {
            0
        };
        proof {
            lemma_pressure_nonnegative(d as int, rest_density as int, stiffness as int);
        }
        let p: i128 = scaled_mul(stiffness, excess);
        if p > LIMIT as i128 {
            return Err(FluidError::NumericDegeneracy);
        }
        pressures.push(p as i64);
        i = i + 1;
    }
    proof {
        assert forall|m: int| 0 <= m < n implies pressure_of(
            (#[trigger] densities[m]) as int,
            rest_density as int,
            stiffness as int,
        ) <= LIMIT by {
            assert(pressures[m] <= LIMIT);
        }
    }
    Ok(pressures)
}

} // verus!
