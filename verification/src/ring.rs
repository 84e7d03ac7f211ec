//! Enumeration of the positions at a fixed lattice distance from a centre.

use vstd::prelude::*;
use crate::coord::{
    cube_add, cube_direction, cube_neighbor, cube_point, cube_scale, on_lattice, point_distance,
    point_scale, Cube, CubePoint,
};

verus! {

/// The `step`-th position of edge `edge` of the ring of radius `radius`
/// around `center`. Edge `e` starts at the corner `center + radius *
/// direction((e + 4) % 6)` and runs in direction `e`.
pub open spec fn ring_point(center: CubePoint, radius: int, edge: int, step: int) -> CubePoint {
    if edge == 0 {
        (center.0 - radius + step, center.1 - step, center.2 + radius)
    } else if edge == 1 {
        (center.0 + step, center.1 - radius, center.2 + radius - step)
    } else if edge == 2 {
        (center.0 + radius, center.1 - radius + step, center.2 - step)
    } else if edge == 3 {
        (center.0 + radius - step, center.1 + step, center.2 - radius)
    } else if edge == 4 {
        (center.0 - step, center.1 + radius, center.2 - radius + step)
    } else {
        (center.0 - radius, center.1 + radius - step, center.2 + step)
    }
}

/// The `radius` positions of one edge, corner first.
pub open spec fn ring_edge(center: CubePoint, radius: nat, edge: int) -> Seq<CubePoint> {
    Seq::new(radius, |step: int| ring_point(center, radius as int, edge, step))
}

/// The ring of radius `radius` around `center`, in the order in which it is walked.
pub open spec fn ring_seq(center: CubePoint, radius: nat) -> Seq<CubePoint> {
    ring_edge(center, radius, 0) + ring_edge(center, radius, 1) + ring_edge(center, radius, 2)
        + ring_edge(center, radius, 3) + ring_edge(center, radius, 4) + ring_edge(
        center,
        radius,
        5,
    )
}

/// Index in `ring_seq` of step `step` of edge `edge`.
pub open spec fn ring_index(radius: int, edge: int, step: int) -> int {
    if edge == 0 {
        step
    } else if edge == 1 {
        radius + step
    } else if edge == 2 {
        2 * radius + step
    } else if edge == 3 {
        3 * radius + step
    } else if edge == 4 {
        4 * radius + step
    } else if edge == 5 {
        5 * radius + step
    } else {
        6 * radius
    }
}

/// Whether a ring around `center` of radius `radius` stays within machine integers.
pub open spec fn ring_fits(center: CubePoint, radius: int) -> bool {
    &&& isize::MIN <= center.0 - radius && center.0 + radius <= isize::MAX
    &&& isize::MIN <= center.1 - radius && center.1 + radius <= isize::MAX
    &&& isize::MIN <= center.2 - radius && center.2 + radius <= isize::MAX
}

/// A walk along a ring: a single pass over its positions.
pub struct CubeRing {
    center: Cube,
    cube: Cube,
    radius: usize,
    i: usize,
    j: usize,
}

impl CubeRing {
    pub closed spec fn center(&self) -> CubePoint {
        cube_point(self.center)
    }

    pub closed spec fn radius(&self) -> nat {
        self.radius as nat
    }

    /// How many positions have been handed out.
    pub closed spec fn position(&self) -> int {
        ring_index(self.radius as int, self.i as int, self.j as int)
    }

    pub closed spec fn well_formed(&self) -> bool {
        &&& self.radius >= 1
        &&& ring_fits(cube_point(self.center), self.radius as int)
        &&& self.i <= 6
        &&& self.j <= self.radius
        &&& self.i == 6 ==> self.j == 1
        &&& self.i < 6 ==> cube_point(self.cube) == ring_point(
            cube_point(self.center),
            self.radius as int,
            self.i as int,
            self.j as int,
        )
    }

    /// A well-formed walk goes along a ring of radius one or more that machine
    /// integers hold, and has handed out no more positions than the ring has.
    pub proof fn lemma_well_formed(&self)
        requires
            self.well_formed(),
        ensures
            self.radius() >= 1,
            ring_fits(self.center(), self.radius() as int),
            0 <= self.position() <= 6 * self.radius(),
    {
    }

    /// The positions still to come.
    pub open spec fn remaining(&self) -> Seq<CubePoint> {
        ring_seq(self.center(), self.radius()).skip(self.position())
    }

    /// A walk along the ring of radius `radius` around `center`.
    pub fn new(center: Cube, radius: usize) -> (ring: CubeRing)
        requires
            radius >= 1,
            ring_fits(cube_point(center), radius as int),
        ensures
            ring.well_formed(),
            ring.center() == cube_point(center),
            ring.radius() == radius,
            ring.position() == 0,
            ring.remaining() == ring_seq(cube_point(center), radius as nat),
    {
        let step: isize = radius as isize;
        let corner = cube_direction(4);
        assert(point_scale(cube_point(corner), step as int) == (-step, 0int, step as int))
            by (nonlinear_arith)
            requires
                cube_point(corner) == (-1int, 0int, 1int),
        ;
        let offset = cube_scale(corner, step);
        CubeRing { center, cube: cube_add(center, offset), radius, i: 0, j: 0 }
    }

    pub fn get_radius(&self) -> (r: usize)
        ensures
            r == self.radius(),
    {
        self.radius
    }

    /// Hands out the next position of the walk, if any is left.
    pub fn next(&mut self) -> (r: Option<Cube>)
        requires
            old(self).well_formed(),
        ensures
            final(self).well_formed(),
            final(self).center() == old(self).center(),
            final(self).radius() == old(self).radius(),
            old(self).position() < 6 * old(self).radius() ==> r.is_some() && cube_point(r.unwrap())
                == ring_seq(old(self).center(), old(self).radius())[old(self).position()]
                && final(self).position() == old(self).position() + 1,
            old(self).position() >= 6 * old(self).radius() ==> r.is_none()
                && final(self).position() == old(self).position(),
            0 <= final(self).position() <= 6 * old(self).radius(),
    {
        proof {
            if self.i < 6 {
                lemma_ring_at(
                    cube_point(self.center),
                    self.radius as nat,
                    self.i as int,
                    if self.j < self.radius { self.j as int } else { 0 },
                );
                if self.j == self.radius && self.i < 5 {
                    lemma_ring_at(
                        cube_point(self.center),
                        self.radius as nat,
                        self.i as int + 1,
                        0,
                    );
                }
            }
        }
        if self.i < 6 {
            if self.j < self.radius {
                self.j += 1;
                let ret = self.cube;
                self.cube = cube_neighbor(self.cube, self.i);
                Some(ret)
            } else {
                self.j = 1;
                self.i += 1;
                if self.i < 6 {
                    let ret = self.cube;
                    self.cube = cube_neighbor(self.cube, self.i);
                    Some(ret)
                } else {
                    None
                }
            }
        } else {
            None
        }
    }
}

/// A walk along the ring of radius `radius` around `center`. A ring has a
/// radius of at least one: the centre alone is no ring.
pub fn cube_ring(center: Cube, radius: usize) -> (ring: CubeRing)
    requires
        radius >= 1,
        ring_fits(cube_point(center), radius as int),
    ensures
        ring.well_formed(),
        ring.center() == cube_point(center),
        ring.radius() == radius,
        ring.position() == 0,
        ring.remaining() == ring_seq(cube_point(center), radius as nat),
{
    CubeRing::new(center, radius)
}

/// Step `step` of edge `edge` stands at index `ring_index` of the ring.
pub proof fn lemma_ring_at(center: CubePoint, radius: nat, edge: int, step: int)
    requires
        0 <= edge < 6,
        0 <= step < radius,
    ensures
        ring_seq(center, radius).len() == 6 * radius,
        ring_seq(center, radius)[ring_index(radius as int, edge, step)] == ring_point(
            center,
            radius as int,
            edge,
            step,
        ),
{
}

/// Every index of the ring is some step of some edge.
pub proof fn lemma_ring_split(center: CubePoint, radius: nat, k: int) -> (at: (int, int))
    requires
        0 <= k < 6 * radius,
    ensures
        0 <= at.0 < 6,
        0 <= at.1 < radius,
        k == ring_index(radius as int, at.0, at.1),
        ring_seq(center, radius)[k] == ring_point(center, radius as int, at.0, at.1),
{
    let r = radius as int;
    let at = if k < r {
        (0int, k)
    } else if k < 2 * r {
        (1int, k - r)
    } else if k < 3 * r {
        (2int, k - 2 * r)
    } else if k < 4 * r {
        (3int, k - 3 * r)
    } else if k < 5 * r {
        (4int, k - 4 * r)
    } else {
        (5int, k - 5 * r)
    };
    lemma_ring_at(center, radius, at.0, at.1);
    at
}

/// A ring of radius `radius` has `6 * radius` positions.
pub proof fn lemma_ring_len(center: CubePoint, radius: nat)
    ensures
        ring_seq(center, radius).len() == 6 * radius,
{
}

/// Every position of a ring lies on the lattice of its centre, at distance
/// exactly `radius` from it.
pub proof fn lemma_ring_distance(center: CubePoint, radius: nat, k: int)
    requires
        0 <= k < 6 * radius,
    ensures
        point_distance(ring_seq(center, radius)[k], center) == radius,
        on_lattice(center) ==> on_lattice(ring_seq(center, radius)[k]),
{
    let at = lemma_ring_split(center, radius, k);
}

/// No position occurs twice in a ring.
pub proof fn lemma_ring_distinct(center: CubePoint, radius: nat, k1: int, k2: int)
    requires
        0 <= k1 < 6 * radius,
        0 <= k2 < 6 * radius,
        k1 != k2,
    ensures
        ring_seq(center, radius)[k1] != ring_seq(center, radius)[k2],
{
    let a = lemma_ring_split(center, radius, k1);
    let b = lemma_ring_split(center, radius, k2);
}

/// Every position at distance `radius` from `center`, on the lattice of
/// `center`, is a position of the ring.
pub proof fn lemma_ring_covers(center: CubePoint, radius: nat, p: CubePoint) -> (k: int)
    requires
        radius >= 1,
        p.0 + p.1 + p.2 == center.0 + center.1 + center.2,
        point_distance(p, center) == radius,
    ensures
        0 <= k < 6 * radius,
        ring_seq(center, radius)[k] == p,
{
    let r = radius as int;
    let dx = p.0 - center.0;
    let dy = p.1 - center.1;
    let dz = p.2 - center.2;
    let at = if dz == r && dy > -r {
        (0int, -dy)
    } else if dy == -r && dx < r {
        (1int, dx)
    } else if dx == r && dz > -r {
        (2int, -dz)
    } else if dz == -r && dy < r {
        (3int, dy)
    } else if dy == r && dx > -r {
        (4int, -dx)
    } else {
        (5int, dz)
    };
    lemma_ring_at(center, radius, at.0, at.1);
    ring_index(r, at.0, at.1)
}

/// The centre is not a position of its own ring.
pub proof fn lemma_ring_excludes_center(center: CubePoint, radius: nat, k: int)
    requires
        0 <= k < 6 * radius,
    ensures
        ring_seq(center, radius)[k] != center,
{
    lemma_ring_distance(center, radius, k);
}

} // verus!
