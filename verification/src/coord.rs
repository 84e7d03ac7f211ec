//! Cube and axial coordinates of a hexagonal lattice.

use vstd::prelude::*;

verus! {

/// A lattice position `(x, y, z)`; positions made by lattice operations
/// satisfy `x + y + z == 0`.
pub type Cube = (isize, isize, isize);

/// The two-component reduction `(q, r)` of a cube coordinate.
pub type Axial = (isize, isize);

/// A cube coordinate over the mathematical integers.
pub type CubePoint = (int, int, int);

/// The mathematical value of a machine cube coordinate.
pub open spec fn cube_point(c: Cube) -> CubePoint {
    (c.0 as int, c.1 as int, c.2 as int)
}

/// Whether every component of `p` is a machine integer.
pub open spec fn representable(p: CubePoint) -> bool {
    &&& isize::MIN <= p.0 <= isize::MAX
    &&& isize::MIN <= p.1 <= isize::MAX
    &&& isize::MIN <= p.2 <= isize::MAX
}

/// Whether the components of `p` sum to zero.
pub open spec fn on_lattice(p: CubePoint) -> bool {
    p.0 + p.1 + p.2 == 0
}

pub open spec fn point_add(a: CubePoint, b: CubePoint) -> CubePoint {
    (a.0 + b.0, a.1 + b.1, a.2 + b.2)
}

pub open spec fn point_scale(c: CubePoint, k: int) -> CubePoint {
    (c.0 * k, c.1 * k, c.2 * k)
}

/// The six unit steps, in their fixed cyclic order.
pub open spec fn point_direction(direction: int) -> CubePoint {
    if direction == 0 {
        (1, -1, 0)
    } else if direction == 1 {
        (1, 0, -1)
    } else if direction == 2 {
        (0, 1, -1)
    } else if direction == 3 {
        (-1, 1, 0)
    } else if direction == 4 {
        (-1, 0, 1)
    } else {
        (0, -1, 1)
    }
}

pub open spec fn point_neighbor(c: CubePoint, direction: int) -> CubePoint {
    point_add(c, point_direction(direction))
}

pub open spec fn magnitude(v: int) -> int {
    if v < 0 {
        -v
    } else {
        v
    }
}

pub open spec fn larger(a: int, b: int) -> int {
    if a < b {
        b
    } else {
        a
    }
}

/// Lattice distance: the largest componentwise difference.
pub open spec fn point_distance(a: CubePoint, b: CubePoint) -> int {
    larger(larger(magnitude(a.0 - b.0), magnitude(a.1 - b.1)), magnitude(a.2 - b.2))
}

pub open spec fn point_to_axial(c: CubePoint) -> (int, int) {
    (c.0, c.2)
}

pub open spec fn point_from_axial(a: (int, int)) -> CubePoint {
    (a.0, -(a.0 + a.1), a.1)
}

/// How far row `row` of a map of radius `radius` is shifted: `max(0, radius - row)`.
pub open spec fn row_shift(radius: int, row: int) -> int {
    if radius > row {
        radius - row
    } else {
        0
    }
}

/// Row and column at which axial `(q, r)` is stored.
pub open spec fn axial_indices(a: (int, int), radius: int) -> (int, int) {
    (a.1, a.0 - row_shift(radius, a.1))
}

/// Axial coordinate stored at `(row, col)`.
pub open spec fn indices_axial(row: int, col: int, radius: int) -> (int, int) {
    (col + row_shift(radius, row), row)
}

/// Number of cells in row `row` of a map of radius `radius`.
pub open spec fn row_width(radius: int, row: int) -> int {
    2 * radius + 1 - magnitude(radius - row)
}

/// The position of the middle cell of a map of radius `radius`.
pub open spec fn map_center(radius: int) -> CubePoint {
    (radius, -2 * radius, radius)
}

/// Whether `(row, col)` names a cell of a map of radius `radius`.
pub open spec fn in_map(radius: int, row: int, col: int) -> bool {
    0 <= row <= 2 * radius && 0 <= col < row_width(radius, row)
}

/// Component-wise sum.
pub fn cube_add(c0: Cube, c1: Cube) -> (r: Cube)
    requires
        representable(point_add(cube_point(c0), cube_point(c1))),
    ensures
        cube_point(r) == point_add(cube_point(c0), cube_point(c1)),
{
    (c0.0 + c1.0, c0.1 + c1.1, c0.2 + c1.2)
}

/// Component-wise product with `a`.
pub fn cube_scale(c: Cube, a: isize) -> (r: Cube)
    requires
        representable(point_scale(cube_point(c), a as int)),
    ensures
        cube_point(r) == point_scale(cube_point(c), a as int),
{
    (c.0 * a, c.1 * a, c.2 * a)
}

/// The unit step with index `direction`.
pub fn cube_direction(direction: usize) -> (r: Cube)
    requires
        direction < 6,
    ensures
        cube_point(r) == point_direction(direction as int),
{
    if direction == 0 {
        (1, -1, 0)
    } else if direction == 1 {
        (1, 0, -1)
    } else if direction == 2 {
        (0, 1, -1)
    } else if direction == 3 {
        (-1, 1, 0)
    } else if direction == 4 {
        (-1, 0, 1)
    } else {
        (0, -1, 1)
    }
}

/// The position one step from `c` in direction `direction`.
pub fn cube_neighbor(c: Cube, direction: usize) -> (r: Cube)
    requires
        direction < 6,
        representable(point_neighbor(cube_point(c), direction as int)),
    ensures
        cube_point(r) == point_neighbor(cube_point(c), direction as int),
{
    cube_add(c, cube_direction(direction))
}

/// Drops the middle component.
pub fn cube_to_axial(c: Cube) -> (r: Axial)
    ensures
        (r.0 as int, r.1 as int) == point_to_axial(cube_point(c)),
{
    (c.0, c.2)
}

/// Restores the middle component as `-(q + r)`.
pub fn axial_to_cube(axial: Axial) -> (r: Cube)
    requires
        isize::MIN < axial.0 + axial.1 <= isize::MAX,
    ensures
        cube_point(r) == point_from_axial((axial.0 as int, axial.1 as int)),
        on_lattice(cube_point(r)),
{
    (axial.0, -(axial.0 + axial.1), axial.1)
}

/// Row and column of `axial` in the rows of a map of radius `radius`.
pub fn axial_to_indices(axial: Axial, radius: usize) -> (r: (usize, usize))
    requires
        axial.1 >= 0,
        axial.0 >= row_shift(radius as int, axial.1 as int),
    ensures
        (r.0 as int, r.1 as int) == axial_indices((axial.0 as int, axial.1 as int), radius as int),
{
    let row: usize = axial.1 as usize;
    let shift: usize = if radius > row {
        radius - row
    } else {
        0
    };
    (row, axial.0 as usize - shift)
}

/// Axial coordinate of the cell at `(row, col)` of a map of radius `radius`.
pub fn indices_to_axial(row: usize, col: usize, radius: usize) -> (r: Axial)
    requires
        row <= isize::MAX,
        col + row_shift(radius as int, row as int) <= isize::MAX,
    ensures
        (r.0 as int, r.1 as int) == indices_axial(row as int, col as int, radius as int),
{
    let shift: usize = if radius > row {
        radius - row
    } else {
        0
    };
    ((col + shift) as isize, row as isize)
}

/// Converting an axial coordinate to cube form and back gives it again.
pub proof fn lemma_axial_round_trip(q: int, r: int)
    ensures
        point_to_axial(point_from_axial((q, r))) == (q, r),
        on_lattice(point_from_axial((q, r))),
{
}

/// On the lattice, converting a cube coordinate to axial form and back gives it again.
pub proof fn lemma_cube_round_trip(c: CubePoint)
    requires
        on_lattice(c),
    ensures
        point_from_axial(point_to_axial(c)) == c,
{
}

/// Every cell of a map is the storage place of the axial coordinate it holds,
/// and that coordinate lies within `radius` of the middle.
pub proof fn lemma_indices_round_trip(radius: int, row: int, col: int)
    requires
        0 <= radius,
        in_map(radius, row, col),
    ensures
        axial_indices(indices_axial(row, col, radius), radius) == (row, col),
        point_distance(point_from_axial(indices_axial(row, col, radius)), map_center(radius))
            <= radius,
{
}

/// Every lattice position within `radius` of the middle has a cell of the map,
/// and that cell holds the position.
pub proof fn lemma_position_has_cell(radius: int, c: CubePoint)
    requires
        0 <= radius,
        on_lattice(c),
        point_distance(c, map_center(radius)) <= radius,
    ensures
        ({
            let (row, col) = axial_indices(point_to_axial(c), radius);
            in_map(radius, row, col) && indices_axial(row, col, radius) == point_to_axial(c)
        }),
{
}

} // verus!
