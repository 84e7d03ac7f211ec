//! Height diffusion: the cells of a map are placed ring by ring outward from
//! the middle, each taking its height from a neighbour nearer the middle.

use vstd::prelude::*;
use crate::coord::{
    axial_indices, axial_to_cube, axial_to_indices, cube_point, cube_to_axial, in_map,
    indices_axial, lemma_indices_round_trip, lemma_position_has_cell, magnitude, map_center,
    on_lattice, point_distance, point_from_axial, point_to_axial, row_width, Cube, CubePoint,
};
use crate::ring::{
    cube_ring, lemma_ring_at, lemma_ring_distance, ring_fits, ring_point, ring_seq,
};
use crate::random::RandomSource;
use crate::wire::{
    cell_count, grid_view, lemma_cell_count, map_shaped, CompressedImgData, Hex, MapData,
    RgbByteColor, SkyboxCompressed,
};

verus! {

/// A cell keeps its parent's direction three times out of four.
pub const STAY_NUMERATOR: u32 = 3;

pub const STAY_DENOMINATOR: u32 = 4;

/// What generation remembers of a placed cell: its height in steps and the
/// step by which it differs from its parent.
#[derive(Clone, Copy, PartialEq, Eq, Debug)]
pub struct HexParentInfo {
    pub height: i64,
    pub direction: i8,
}

/// The random outcomes that place one cell.
#[derive(Clone, Copy, PartialEq, Eq, Debug)]
pub struct HexDraw {
    /// Of two parents equally near the middle, take the one found first.
    pub first_parent: bool,
    /// Keep the parent's direction.
    pub stay: bool,
    /// Of the two other directions, take the first.
    pub first_turn: bool,
    pub color: RgbByteColor,
}

/// All random outcomes of one generation: the colour of the middle cell and,
/// for each ring from the first outward, one draw per cell in walking order.
#[derive(Clone, PartialEq, Eq, Debug)]
pub struct Script {
    pub center_color: RgbByteColor,
    pub rings: Vec<Vec<HexDraw>>,
}

/// A placed cell over the mathematical integers.
pub struct CellModel {
    pub height: int,
    pub direction: int,
    pub color: RgbByteColor,
}

/// The outcome of looking over the first neighbours of a cell: the nearest to
/// the middle found first, its distance, and the last other one as near.
pub struct ParentScan {
    pub best: CubePoint,
    pub distance: int,
    pub tied: Option<CubePoint>,
}

/// Whether maps of radius `radius` can be addressed with machine integers.
pub open spec fn radius_fits(radius: int) -> bool {
    0 <= radius && 6 * radius + 6 <= isize::MAX
}

/// Tells whether maps of radius `radius` can be addressed with machine integers.
pub fn radius_supported(radius: usize) -> (ok: bool)
    ensures
        ok == radius_fits(radius as int),
{
    radius <= (isize::MAX as usize - 6) / 6
}

/// Whether every component of `c` has magnitude at most `bound`.
pub open spec fn within(c: CubePoint, bound: int) -> bool {
    magnitude(c.0) <= bound && magnitude(c.1) <= bound && magnitude(c.2) <= bound
}

/// The `n`-th neighbour of `c` in the order in which its first ring is walked.
pub open spec fn neighbor_at(c: CubePoint, n: int) -> CubePoint {
    ring_point(c, 1, n, 0)
}

/// Looks over the first `n` neighbours of `c`. A neighbour nearer to `center`
/// than all before it becomes the best and clears the tie; one as near as the
/// best becomes the tie, replacing an earlier one.
pub open spec fn scan_parents(c: CubePoint, center: CubePoint, n: nat) -> ParentScan
    decreases n,
{
    if n <= 1 {
        ParentScan {
            best: neighbor_at(c, 0),
            distance: point_distance(neighbor_at(c, 0), center),
            tied: None,
        }
    } else {
        let prev = scan_parents(c, center, (n - 1) as nat);
        let candidate = neighbor_at(c, n - 1);
        let d = point_distance(candidate, center);
        if d < prev.distance {
            ParentScan { best: candidate, distance: d, tied: None }
        } else if d == prev.distance {
            ParentScan { best: prev.best, distance: prev.distance, tied: Some(candidate) }
        } else {
            prev
        }
    }
}

/// The parent from which the cell at `c` takes its height.
pub open spec fn chosen_parent(c: CubePoint, radius: int, first_parent: bool) -> CubePoint {
    let scan = scan_parents(c, map_center(radius), 6);
    if scan.tied.is_some() && !first_parent {
        scan.tied.unwrap()
    } else {
        scan.best
    }
}

/// The direction of a cell whose parent has direction `parent_direction`.
pub open spec fn turn(parent_direction: int, stay: bool, first_turn: bool) -> int {
    if stay {
        parent_direction
    } else if parent_direction == 0 {
        if first_turn {
            -1
        } else {
            1
        }
    } else if parent_direction == 1 {
        if first_turn {
            -1
        } else {
            0
        }
    } else {
        if first_turn {
            0
        } else {
            1
        }
    }
}

/// `g` with the cell at `(row, col)` replaced by `v`.
pub open spec fn grid_set<T>(g: Seq<Seq<T>>, row: int, col: int, v: T) -> Seq<Seq<T>> {
    g.update(row, g[row].update(col, v))
}

/// The cell of `g` that stores position `p`.
pub open spec fn cell_of(g: Seq<Seq<CellModel>>, p: CubePoint, radius: int) -> CellModel {
    let at = axial_indices(point_to_axial(p), radius);
    g[at.0][at.1]
}

/// A map of radius `radius` on which only the middle cell is placed.
pub open spec fn seeded(radius: int, color: RgbByteColor) -> Seq<Seq<CellModel>> {
    Seq::new(
        (2 * radius + 1) as nat,
        |row: int|
            Seq::new(
                row_width(radius, row) as nat,
                |col: int|
                    CellModel {
                        height: 0,
                        direction: 0,
                        color: if row == radius && col == radius {
                            color
                        } else {
                            RgbByteColor([0u8, 0u8, 0u8])
                        },
                    },
            ),
    )
}

/// `g` after the cell at `c` is placed with the outcomes `draw`.
pub open spec fn place(g: Seq<Seq<CellModel>>, radius: int, c: CubePoint, draw: HexDraw) -> Seq<
    Seq<CellModel>,
> {
    let parent = cell_of(g, chosen_parent(c, radius, draw.first_parent), radius);
    let direction = turn(parent.direction, draw.stay, draw.first_turn);
    let at = axial_indices(point_to_axial(c), radius);
    grid_set(
        g,
        at.0,
        at.1,
        CellModel { height: parent.height + direction, direction, color: draw.color },
    )
}

/// `g` after the first `n` cells of ring `ring` are placed.
pub open spec fn fill_ring(
    g: Seq<Seq<CellModel>>,
    radius: int,
    ring: nat,
    draws: Seq<HexDraw>,
    n: nat,
) -> Seq<Seq<CellModel>>
    decreases n,
{
    if n == 0 {
        g
    } else {
        place(
            fill_ring(g, radius, ring, draws, (n - 1) as nat),
            radius,
            ring_seq(map_center(radius), ring)[n - 1],
            draws[n - 1],
        )
    }
}

/// The map after the middle cell and the first `rings` rings are placed.
pub open spec fn fill_rings(
    radius: int,
    center_color: RgbByteColor,
    draws: Seq<Seq<HexDraw>>,
    rings: nat,
) -> Seq<Seq<CellModel>>
    decreases rings,
{
    if rings == 0 {
        seeded(radius, center_color)
    } else {
        fill_ring(
            fill_rings(radius, center_color, draws, (rings - 1) as nat),
            radius,
            rings,
            draws[rings - 1],
            6 * rings,
        )
    }
}

impl Script {
    /// Whether the script holds one draw for each cell of a map of radius `radius`.
    pub open spec fn fits(&self, radius: nat) -> bool {
        &&& self.rings@.len() == radius
        &&& forall|i: int| 0 <= i < radius ==> (#[trigger] self.rings@[i])@.len() == 6 * (i + 1)
    }
}

/// The map of radius `radius` that the outcomes in `script` give.
pub open spec fn terrain(radius: nat, script: Script) -> Seq<Seq<CellModel>> {
    fill_rings(radius as int, script.center_color, grid_view(script.rings), radius)
}

/// Whether the cells in `rows` have the heights and colours of `g`.
pub open spec fn portrays(rows: Seq<Seq<Hex>>, g: Seq<Seq<CellModel>>) -> bool {
    &&& rows.len() == g.len()
    &&& forall|row: int| 0 <= row < rows.len() ==> (#[trigger] rows[row]).len() == g[row].len()
    &&& forall|row: int, col: int|
        0 <= row < rows.len() && 0 <= col < rows[row].len() ==> {
            &&& (#[trigger] rows[row][col]).height == g[row][col].height
            &&& rows[row][col].color == g[row][col].color
        }
}

/// Whether the radius, and what lies between `c` and the middle of a map of
/// that radius along each axis, are machine integers with magnitudes that
/// are machine integers too.
pub open spec fn metric_fits(c: CubePoint, radius: int) -> bool {
    let center = map_center(radius);
    &&& 0 <= radius <= isize::MAX
    &&& isize::MIN < c.0 - center.0 <= isize::MAX
    &&& isize::MIN < c.1 - center.1 <= isize::MAX
    &&& isize::MIN < c.2 - center.2 <= isize::MAX
}

/// Whether the neighbours of `c` are machine positions whose distances from
/// the middle of a map of radius `radius` can be taken.
pub open spec fn parents_fit(c: CubePoint, radius: int) -> bool {
    &&& ring_fits(c, 1)
    &&& forall|k: int| 0 <= k < 6 ==> metric_fits(#[trigger] neighbor_at(c, k), radius)
}

/// The neighbours of a position of a map that machine integers can address
/// are machine positions whose distances from the middle can be taken.
pub proof fn lemma_parents_fit(c: CubePoint, radius: int)
    requires
        radius_fits(radius),
        point_distance(c, map_center(radius)) <= radius,
    ensures
        parents_fit(c, radius),
{
}

/// Distance of `c` from the middle of a map of radius `radius`.
pub fn distance_from_center(c: Cube, radius: usize) -> (d: isize)
    requires
        metric_fits(cube_point(c), radius as int),
    ensures
        d == point_distance(cube_point(c), map_center(radius as int)),
{
    let rad: isize = radius as isize;
    let d0: isize = absolute(c.0 - rad);
    let d1: isize = absolute(c.1 + rad + rad);
    let d2: isize = absolute(c.2 - rad);
    let m: isize = if d0 < d1 {
        d1
    } else {
        d0
    };
    if m < d2 {
        d2
    } else {
        m
    }
}

fn absolute(v: isize) -> (r: isize)
    requires
        v > isize::MIN,
    ensures
        r == magnitude(v as int),
{
    if v < 0 {
        -v
    } else {
        v
    }
}

/// The neighbour of `c` nearest the middle of a map of radius `radius` and,
/// where another is as near, that one too.
pub fn find_parents(c: Cube, radius: usize) -> (r: (Cube, Option<Cube>))
    requires
        parents_fit(cube_point(c), radius as int),
    ensures
        ({
            let scan = scan_parents(cube_point(c), map_center(radius as int), 6);
            &&& cube_point(r.0) == scan.best
            &&& r.1.is_some() == scan.tied.is_some()
            &&& r.1.is_some() ==> cube_point(r.1.unwrap()) == scan.tied.unwrap()
        }),
{
    let ghost here = cube_point(c);
    let ghost center = map_center(radius as int);
    let mut ring = cube_ring(c, 1);
    proof {
        lemma_ring_at(here, 1, 0, 0);
    }
    let first = ring.next().unwrap();
    let mut parent0: Cube = first;
    let mut best_dist: isize = distance_from_center(first, radius);
    let mut parent1: Option<Cube> = None;
    let mut n: usize = 1;
    while n < 6
        invariant
            1 <= n <= 6,
            parents_fit(here, radius as int),
            here == cube_point(c),
            center == map_center(radius as int),
            ring.well_formed(),
            ring.center() == here,
            ring.radius() == 1,
            ring.position() == n,
            cube_point(parent0) == scan_parents(here, center, n as nat).best,
            best_dist == scan_parents(here, center, n as nat).distance,
            parent1.is_some() == scan_parents(here, center, n as nat).tied.is_some(),
            parent1.is_some() ==> cube_point(parent1.unwrap()) == scan_parents(
                here,
                center,
                n as nat,
            ).tied.unwrap(),
        decreases 6 - n,
    {
        proof {
            lemma_ring_at(here, 1, n as int, 0);
        }
        let possible_parent = ring.next().unwrap();
        assert(cube_point(possible_parent) == neighbor_at(here, n as int));
        let possible_distance: isize = distance_from_center(possible_parent, radius);
        if possible_distance < best_dist {
            parent0 = possible_parent;
            best_dist = possible_distance;
            parent1 = None;
        } else if possible_distance == best_dist {
            parent1 = Some(possible_parent);
        }
        n += 1;
    }
    (parent0, parent1)
}

/// The direction of a cell from that of its parent and two random outcomes.
pub fn choose_direction(parent_dir: i8, stay: bool, first_turn: bool) -> (dir: i8)
    ensures
        dir == turn(parent_dir as int, stay, first_turn),
{
    if stay {
        parent_dir
    } else if parent_dir == 0 {
        if first_turn {
            -1
        } else {
            1
        }
    } else if parent_dir == 1 {
        if first_turn {
            -1
        } else {
            0
        }
    } else {
        if first_turn {
            0
        } else {
            1
        }
    }
}

/// A cell at distance `i >= 1` from the middle has its parents at distance `i - 1`.
pub proof fn lemma_parents_closer(c: CubePoint, radius: int, i: int)
    requires
        on_lattice(c),
        1 <= i,
        point_distance(c, map_center(radius)) == i,
    ensures
        ({
            let scan = scan_parents(c, map_center(radius), 6);
            &&& scan.distance == i - 1
            &&& on_lattice(scan.best)
            &&& point_distance(scan.best, map_center(radius)) == i - 1
            &&& scan.tied.is_some() ==> on_lattice(scan.tied.unwrap()) && point_distance(
                scan.tied.unwrap(),
                map_center(radius),
            ) == i - 1
        }),
{
    let center = map_center(radius);
    lemma_scan_minimum(c, center, 6);
    lemma_neighbors_not_nearer(c, center, i);
    let near = lemma_some_neighbor_nearer(c, center, i);
    assert(point_distance(neighbor_at(c, near), center) == i - 1);
    let scan = scan_parents(c, center, 6);
    let k0 = choose|k: int| 0 <= k < 6 && scan.best == neighbor_at(c, k);
    lemma_neighbor_on_lattice(c, k0);
    if scan.tied.is_some() {
        let k1 = choose|k: int| 0 <= k < 6 && scan.tied.unwrap() == neighbor_at(c, k);
        lemma_neighbor_on_lattice(c, k1);
    }
}

proof fn lemma_neighbor_on_lattice(c: CubePoint, k: int)
    requires
        on_lattice(c),
    ensures
        on_lattice(neighbor_at(c, k)),
{
}

/// No neighbour of `c` is more than one step nearer to `center` than `c`.
proof fn lemma_neighbors_not_nearer(c: CubePoint, center: CubePoint, i: int)
    requires
        point_distance(c, center) == i,
    ensures
        forall|k: int| point_distance(#[trigger] neighbor_at(c, k), center) >= i - 1,
{
}

/// Away from `center`, some neighbour of `c` is one step nearer to it.
proof fn lemma_some_neighbor_nearer(c: CubePoint, center: CubePoint, i: int) -> (k: int)
    requires
        c.0 + c.1 + c.2 == center.0 + center.1 + center.2,
        1 <= i,
        point_distance(c, center) == i,
    ensures
        0 <= k < 6,
        point_distance(neighbor_at(c, k), center) == i - 1,
{
    let dx = c.0 - center.0;
    let dy = c.1 - center.1;
    let dz = c.2 - center.2;
    if dx == i {
        if dy < 0 {
            5
        } else {
            0
        }
    } else if dx == -i {
        if dy > 0 {
            2
        } else {
            3
        }
    } else if dy == i {
        if dx < 0 {
            2
        } else {
            1
        }
    } else if dy == -i {
        if dx > 0 {
            5
        } else {
            4
        }
    } else if dz == i {
        if dx < 0 {
            3
        } else {
            4
        }
    } else {
        if dx > 0 {
            0
        } else {
            1
        }
    }
}

/// What a scan over the first `n` neighbours has found: the best is a
/// neighbour at the least distance seen, and so is the tie.
proof fn lemma_scan_minimum(c: CubePoint, center: CubePoint, n: nat)
    requires
        1 <= n <= 6,
    ensures
        ({
            let scan = scan_parents(c, center, n);
            &&& exists|k: int| 0 <= k < n && scan.best == neighbor_at(c, k)
            &&& scan.distance == point_distance(scan.best, center)
            &&& forall|k: int| 0 <= k < n ==> scan.distance <= point_distance(#[trigger] neighbor_at(c, k), center)
            &&& scan.tied.is_some() ==> point_distance(scan.tied.unwrap(), center) == scan.distance
                && exists|k: int| 0 <= k < n && scan.tied.unwrap() == neighbor_at(c, k)
        }),
    decreases n,
{
    if n > 1 {
        lemma_scan_minimum(c, center, (n - 1) as nat);
        let prev = scan_parents(c, center, (n - 1) as nat);
        let k0 = choose|k: int| 0 <= k < n - 1 && prev.best == neighbor_at(c, k);
        assert(neighbor_at(c, k0) == prev.best);
        assert(neighbor_at(c, n - 1) == neighbor_at(c, n - 1));
        if prev.tied.is_some() {
            let k1 = choose|k: int| 0 <= k < n - 1 && prev.tied.unwrap() == neighbor_at(c, k);
            assert(neighbor_at(c, k1) == prev.tied.unwrap());
        }
    } else {
        assert(scan_parents(c, center, n).best == neighbor_at(c, 0));
    }
}

/// The cells that generation holds, over the mathematical integers.
pub open spec fn grid_model(hexes: Seq<Seq<Hex>>, parents: Seq<Seq<HexParentInfo>>) -> Seq<
    Seq<CellModel>,
> {
    Seq::new(
        hexes.len(),
        |row: int|
            Seq::new(
                hexes[row].len(),
                |col: int|
                    CellModel {
                        height: hexes[row][col].height as int,
                        direction: parents[row][col].direction as int,
                        color: hexes[row][col].color,
                    },
            ),
    )
}

/// What holds of one cell throughout generation: both arrays agree on its
/// height, its direction is a single step, and it is no higher or lower than
/// it is far from the middle.
pub open spec fn cell_ok(hex: Hex, info: HexParentInfo, radius: int, row: int, col: int) -> bool {
    &&& info.height == hex.height
    &&& -1 <= info.direction <= 1
    &&& magnitude(hex.height as int) <= point_distance(
        point_from_axial(indices_axial(row, col, radius)),
        map_center(radius),
    )
}

/// What holds of the cells throughout generation: both arrays have the shape
/// of the map, and every cell is as `cell_ok` says.
pub open spec fn state_ok(
    hexes: Seq<Seq<Hex>>,
    parents: Seq<Seq<HexParentInfo>>,
    radius: int,
) -> bool {
    &&& map_shaped(hexes, radius)
    &&& map_shaped(parents, radius)
    &&& forall|row: int, col: int| #[trigger]
        in_map(radius, row, col) ==> cell_ok(hexes[row][col], parents[row][col], radius, row, col)
}

/// Replacing one cell by one that is as `cell_ok` says keeps `state_ok`.
proof fn lemma_set_state_ok(
    hexes: Seq<Seq<Hex>>,
    parents: Seq<Seq<HexParentInfo>>,
    radius: int,
    i: int,
    j: int,
    hex: Hex,
    info: HexParentInfo,
)
    requires
        state_ok(hexes, parents, radius),
        in_map(radius, i, j),
        cell_ok(hex, info, radius, i, j),
    ensures
        state_ok(grid_set(hexes, i, j, hex), grid_set(parents, i, j, info), radius),
{
    let hexes_after = grid_set(hexes, i, j, hex);
    let infos_after = grid_set(parents, i, j, info);
    assert forall|row: int, col: int| #[trigger] in_map(radius, row, col) implies cell_ok(
        hexes_after[row][col],
        infos_after[row][col],
        radius,
        row,
        col,
    ) by {
        assert(in_map(radius, row, col));
        assert(hexes[row].len() == row_width(radius, row));
        assert(parents[row].len() == row_width(radius, row));
    }
    assert forall|row: int| 0 <= row < hexes_after.len() implies (#[trigger] hexes_after[row]).len() == row_width(
        radius,
        row,
    ) by {
        assert(hexes[row].len() == row_width(radius, row));
    }
    assert forall|row: int| 0 <= row < infos_after.len() implies (#[trigger] infos_after[row]).len() == row_width(
        radius,
        row,
    ) by {
        assert(parents[row].len() == row_width(radius, row));
    }
}

/// Replacing one cell in both arrays replaces that cell of the model.
proof fn lemma_set_model(
    hexes: Seq<Seq<Hex>>,
    parents: Seq<Seq<HexParentInfo>>,
    radius: int,
    i: int,
    j: int,
    hex: Hex,
    info: HexParentInfo,
)
    requires
        map_shaped(hexes, radius),
        map_shaped(parents, radius),
        in_map(radius, i, j),
    ensures
        grid_model(grid_set(hexes, i, j, hex), grid_set(parents, i, j, info)) == grid_set(
            grid_model(hexes, parents),
            i,
            j,
            CellModel {
                height: hex.height as int,
                direction: info.direction as int,
                color: hex.color,
            },
        ),
{
    assert(hexes[i].len() == row_width(radius, i));
    assert(parents[i].len() == row_width(radius, i));
    assert(grid_model(grid_set(hexes, i, j, hex), grid_set(parents, i, j, info)) =~~= grid_set(
        grid_model(hexes, parents),
        i,
        j,
        CellModel { height: hex.height as int, direction: info.direction as int, color: hex.color },
    ));
}

/// Where the cell at `c` and its parent are stored, and how high the parent is at most.
proof fn lemma_place_cells(
    hexes: Seq<Seq<Hex>>,
    parents: Seq<Seq<HexParentInfo>>,
    radius: int,
    c: CubePoint,
    first_parent: bool,
    ring: int,
)
    requires
        0 <= radius,
        state_ok(hexes, parents, radius),
        on_lattice(c),
        1 <= ring <= radius,
        point_distance(c, map_center(radius)) == ring,
    ensures
        ({
            let parent = chosen_parent(c, radius, first_parent);
            let pat = axial_indices(point_to_axial(parent), radius);
            let at = axial_indices(point_to_axial(c), radius);
            &&& in_map(radius, pat.0, pat.1)
            &&& in_map(radius, at.0, at.1)
            &&& cell_ok(hexes[pat.0][pat.1], parents[pat.0][pat.1], radius, pat.0, pat.1)
            &&& magnitude(hexes[pat.0][pat.1].height as int) <= ring - 1
            &&& point_distance(
                point_from_axial(indices_axial(at.0, at.1, radius)),
                map_center(radius),
            ) == ring
        }),
{
    let parent = chosen_parent(c, radius, first_parent);
    lemma_parents_closer(c, radius, ring);
    lemma_position_has_cell(radius, parent);
    lemma_position_has_cell(radius, c);
    let pat = axial_indices(point_to_axial(parent), radius);
    let at = axial_indices(point_to_axial(c), radius);
    assert(in_map(radius, pat.0, pat.1));
    assert(point_from_axial(indices_axial(pat.0, pat.1, radius)) == parent);
    assert(point_from_axial(indices_axial(at.0, at.1, radius)) == c);
}

/// The lengths of an array whose rows have the shape of a map.
proof fn lemma_shape<T>(rows: Vec<Vec<T>>, radius: int)
    requires
        map_shaped(grid_view(rows), radius),
    ensures
        rows@.len() == 2 * radius + 1,
        forall|row: int| 0 <= row <= 2 * radius ==> (#[trigger] rows@[row])@.len() == row_width(radius, row),
{
    assert forall|row: int| 0 <= row <= 2 * radius implies (#[trigger] rows@[row])@.len()
        == row_width(radius, row) by {
        assert(grid_view(rows)[row] == rows@[row]@);
    }
}

/// An array with these lengths has the shape of a map.
proof fn lemma_shaped<T>(rows: Vec<Vec<T>>, radius: int)
    requires
        rows@.len() == 2 * radius + 1,
        forall|row: int| 0 <= row <= 2 * radius ==> (#[trigger] rows@[row])@.len() == row_width(radius, row),
    ensures
        map_shaped(grid_view(rows), radius),
{
}

/// A row of `n` cells that all hold `v`.
fn blank_row<T: Copy>(n: usize, v: T) -> (row: Vec<T>)
    ensures
        row@.len() == n,
        forall|i: int| 0 <= i < n ==> row@[i] == v,
{
    let mut row: Vec<T> = Vec::with_capacity(n);
    let mut i: usize = 0;
    while i < n
        invariant
            i <= n,
            row@.len() == i,
            forall|k: int| 0 <= k < i ==> row@[k] == v,
        decreases n - i,
    {
        row.push(v);
        i += 1;
    }
    row
}

/// The two arrays of a map of radius `radius` with only the middle cell placed.
fn seed_rows(radius: usize, center_color: RgbByteColor) -> (r: (
    Vec<Vec<Hex>>,
    Vec<Vec<HexParentInfo>>,
))
    requires
        radius_fits(radius as int),
    ensures
        state_ok(grid_view(r.0), grid_view(r.1), radius as int),
        grid_model(grid_view(r.0), grid_view(r.1)) == seeded(radius as int, center_color),
{
    let rows: usize = 2 * radius + 1;
    let blank = Hex::new(0, RgbByteColor([0u8, 0u8, 0u8]));
    let mut hexes: Vec<Vec<Hex>> = Vec::with_capacity(rows);
    let mut parents: Vec<Vec<HexParentInfo>> = Vec::with_capacity(rows);
    let mut row: usize = 0;
    while row < rows
        invariant
            radius_fits(radius as int),
            rows == 2 * radius + 1,
            row <= rows,
            hexes@.len() == row,
            parents@.len() == row,
            blank == (Hex { height: 0, color: RgbByteColor([0u8, 0u8, 0u8]) }),
            forall|r: int|
                0 <= r < row ==> (#[trigger] hexes@[r])@.len() == row_width(radius as int, r),
            forall|r: int|
                0 <= r < row ==> (#[trigger] parents@[r])@.len() == row_width(radius as int, r),
            forall|r: int, c: int|
                0 <= r < row && 0 <= c < row_width(radius as int, r) ==> (#[trigger] hexes@[r]@[c])
                    == blank,
            forall|r: int, c: int|
                0 <= r < row && 0 <= c < row_width(radius as int, r) ==> (
                #[trigger] parents@[r]@[c]) == (HexParentInfo { height: 0, direction: 0 }),
        decreases rows - row,
    {
        let gap: usize = if radius > row {
            radius - row
        } else {
            row - radius
        };
        let width: usize = rows - gap;
        hexes.push(blank_row(width, blank));
        parents.push(blank_row(width, HexParentInfo { height: 0, direction: 0 }));
        row += 1;
    }
    hexes[radius][radius] = Hex::new(0, center_color);
    parents[radius][radius] = HexParentInfo { height: 0, direction: 0 };
    proof {
        lemma_shaped(hexes, radius as int);
        lemma_shaped(parents, radius as int);
        assert(grid_model(grid_view(hexes), grid_view(parents)) =~~= seeded(
            radius as int,
            center_color,
        ));
        assert forall|row: int, col: int| #[trigger] in_map(radius as int, row, col) implies cell_ok(
            grid_view(hexes)[row][col],
            grid_view(parents)[row][col],
            radius as int,
            row,
            col,
        ) by {
            assert(hexes@[row]@[col].height == 0);
            assert(parents@[row]@[col] == (HexParentInfo { height: 0, direction: 0 }));
        }
    }
    (hexes, parents)
}

/// Places the cell at `c`, which lies `ring` steps from the middle.
fn place_hex(
    hexes: &mut Vec<Vec<Hex>>,
    parents: &mut Vec<Vec<HexParentInfo>>,
    radius: usize,
    c: Cube,
    draw: HexDraw,
    Ghost(ring): Ghost<int>,
)
    requires
        radius_fits(radius as int),
        state_ok(grid_view(*old(hexes)), grid_view(*old(parents)), radius as int),
        on_lattice(cube_point(c)),
        1 <= ring <= radius,
        point_distance(cube_point(c), map_center(radius as int)) == ring,
    ensures
        state_ok(grid_view(*final(hexes)), grid_view(*final(parents)), radius as int),
        grid_model(grid_view(*final(hexes)), grid_view(*final(parents))) == place(
            grid_model(grid_view(*old(hexes)), grid_view(*old(parents))),
            radius as int,
            cube_point(c),
            draw,
        ),
{
    let ghost r = radius as int;
    let ghost here = cube_point(c);
    let ghost hexes_before = grid_view(*hexes);
    let ghost infos_before = grid_view(*parents);
    proof {
        lemma_shape(*hexes, r);
        lemma_shape(*parents, r);
        lemma_place_cells(hexes_before, infos_before, r, here, draw.first_parent, ring);
        lemma_parents_fit(here, r);
    }
    let (parent0, parent1) = find_parents(c, radius);
    let parent = match parent1 {
        Some(second) => if draw.first_parent {
            parent0
        } else {
            second
        },
        None => parent0,
    };
    assert(cube_point(parent) == chosen_parent(here, r, draw.first_parent));
    let (pi, pj) = axial_to_indices(cube_to_axial(parent), radius);
    assert(hexes_before[pi as int] == hexes@[pi as int]@ && infos_before[pi as int] == parents@[pi as int]@);
    let info = parents[pi][pj];
    let our_dir: i8 = choose_direction(info.direction, draw.stay, draw.first_turn);
    let our_height: i64 = info.height + our_dir as i64;
    let (i, j) = axial_to_indices(cube_to_axial(c), radius);
    let hex = Hex::new(our_height, draw.color);
    let placed = HexParentInfo { height: our_height, direction: our_dir };
    hexes[i][j] = hex;
    parents[i][j] = placed;
    proof {
        assert(grid_view(*hexes) =~~= grid_set(hexes_before, i as int, j as int, hex));
        assert(grid_view(*parents) =~~= grid_set(infos_before, i as int, j as int, placed));
        lemma_set_state_ok(hexes_before, infos_before, r, i as int, j as int, hex, placed);
        lemma_set_model(hexes_before, infos_before, r, i as int, j as int, hex, placed);
    }
}

/// Whether `md` is the map of radius `radius` whose cells have the heights
/// and colours of `g`, without lights and with no background image.
pub open spec fn generated(md: MapData, radius: nat, g: Seq<Seq<CellModel>>) -> bool {
    &&& md.radius() == radius
    &&& md.well_formed()
    &&& portrays(md.rows(), g)
    &&& md.lights().len() == 0
    &&& md.images().len() == 6
    &&& forall|i: int| 0 <= i < 6 ==> md.images()[i] == CompressedImgData::NoData
}

/// Whether no cell of `rows` is higher or lower, in steps, than it is far
/// from the middle of a map of radius `radius`.
pub open spec fn heights_bounded(rows: Seq<Seq<Hex>>, radius: int) -> bool {
    forall|row: int, col: int| #[trigger]
        in_map(radius, row, col) ==> magnitude(rows[row][col].height as int) <= point_distance(
            point_from_axial(indices_axial(row, col, radius)),
            map_center(radius),
        ) <= radius
}

impl Script {
    /// Tells whether the script holds one draw for each cell of a map of
    /// radius `radius`.
    pub fn check(&self, radius: usize) -> (ok: bool)
        requires
            radius_fits(radius as int),
        ensures
            ok == self.fits(radius as nat),
    {
        if self.rings.len() != radius {
            return false;
        }
        let mut i: usize = 0;
        while i < radius
            invariant
                radius_fits(radius as int),
                i <= radius,
                self.rings@.len() == radius,
                forall|k: int| 0 <= k < i ==> (#[trigger] self.rings@[k])@.len() == 6 * (k + 1),
            decreases radius - i,
        {
            if self.rings[i].len() != 6 * (i + 1) {
                return false;
            }
            i += 1;
        }
        true
    }
}

/// A random colour. The source's record of its seed stays as it is.
pub fn random_byte_color(rng: &mut RandomSource) -> (color: RgbByteColor)
    ensures
        final(rng).seed() == old(rng).seed(),
{
    RgbByteColor(rng.next_bytes())
}

/// Whether `draw` holds `true` for each coin that is not tossed: the coin
/// between two parents where there is one parent only, the coin between two
/// directions where the parent's direction is kept.
pub open spec fn sparing(draw: HexDraw, tied: bool) -> bool {
    (!tied ==> draw.first_parent) && (draw.stay ==> draw.first_turn)
}

/// Whether the cell at `c` has two parents equally near the middle.
pub open spec fn has_two_parents(c: CubePoint, radius: int) -> bool {
    scan_parents(c, map_center(radius), 6).tied.is_some()
}

/// Draws the outcomes that place one cell: the coin between two parents only
/// where there are two (`tied`), the coin between two directions only where
/// the parent's direction is not kept.
pub fn draw_hex(rng: &mut RandomSource, tied: bool) -> (draw: HexDraw)
    ensures
        sparing(draw, tied),
        final(rng).seed() == old(rng).seed(),
{
    let first_parent = if tied {
        rng.next_bool()
    } else {
        true
    };
    let stay = rng.next_ratio(STAY_NUMERATOR, STAY_DENOMINATOR);
    let first_turn = if stay {
        true
    } else {
        rng.next_bool()
    };
    let color = random_byte_color(rng);
    HexDraw { first_parent, stay, first_turn, color }
}

/// Draws all the outcomes of one generation of radius `radius`, in the order
/// in which the cells are placed.
pub fn draw_script(radius: usize, rng: &mut RandomSource) -> (script: Script)
    requires
        radius_fits(radius as int),
    ensures
        script.fits(radius as nat),
        forall|i: int, k: int|
            0 <= i < radius && 0 <= k < 6 * (i + 1) ==> sparing(
                #[trigger] script.rings@[i]@[k],
                has_two_parents(ring_seq(map_center(radius as int), (i + 1) as nat)[k], radius as int),
            ),
        final(rng).seed() == old(rng).seed(),
{
    let center_color = random_byte_color(rng);
    let rad: isize = radius as isize;
    let center = axial_to_cube((rad, rad));
    let mut rings: Vec<Vec<HexDraw>> = Vec::with_capacity(radius);
    let mut i: usize = 1;
    while i <= radius
        invariant
            radius_fits(radius as int),
            1 <= i <= radius + 1,
            cube_point(center) == map_center(radius as int),
            rng.seed() == old(rng).seed(),
            rings@.len() == i - 1,
            forall|k: int| 0 <= k < i - 1 ==> (#[trigger] rings@[k])@.len() == 6 * (k + 1),
            forall|j: int, k: int|
                0 <= j < i - 1 && 0 <= k < 6 * (j + 1) ==> sparing(
                    #[trigger] rings@[j]@[k],
                    has_two_parents(
                        ring_seq(map_center(radius as int), (j + 1) as nat)[k],
                        radius as int,
                    ),
                ),
        decreases radius + 1 - i,
    {
        let mut draws: Vec<HexDraw> = Vec::with_capacity(6 * i);
        let mut ring = cube_ring(center, i);
        let mut next = ring.next();
        while next.is_some()
            invariant
                radius_fits(radius as int),
                1 <= i <= radius,
                cube_point(center) == map_center(radius as int),
                ring.well_formed(),
                ring.center() == map_center(radius as int),
                ring.radius() == i,
                rng.seed() == old(rng).seed(),
                draws@.len() <= 6 * i,
                next.is_some() == (draws@.len() < 6 * i),
                next.is_some() ==> ring.position() == draws@.len() + 1 && cube_point(next.unwrap())
                    == ring_seq(map_center(radius as int), i as nat)[draws@.len() as int],
                next.is_none() ==> ring.position() == draws@.len(),
                forall|k: int|
                    0 <= k < draws@.len() ==> sparing(
                        #[trigger] draws@[k],
                        has_two_parents(
                            ring_seq(map_center(radius as int), i as nat)[k],
                            radius as int,
                        ),
                    ),
            decreases 6 * i - draws@.len(),
        {
            let c = next.unwrap();
            proof {
                lemma_ring_distance(map_center(radius as int), i as nat, draws@.len() as int);
            }
            proof {
                lemma_parents_fit(cube_point(c), radius as int);
            }
            let (_, second) = find_parents(c, radius);
            draws.push(draw_hex(rng, second.is_some()));
            next = ring.next();
        }
        rings.push(draws);
        i += 1;
    }
    Script { center_color, rings }
}

/// Places every cell of a map of radius `radius` with the outcomes in `script`.
fn build(radius: usize, script: &Script) -> (md: MapData)
    requires
        radius_fits(radius as int),
        script.fits(radius as nat),
    ensures
        generated(md, radius as nat, terrain(radius as nat, *script)),
        heights_bounded(md.rows(), radius as int),
{
    let ghost r = radius as int;
    let ghost draws = grid_view(script.rings);
    let (mut hexes, mut parents) = seed_rows(radius, script.center_color);
    let rad: isize = radius as isize;
    let center = axial_to_cube((rad, rad));
    let mut i: usize = 1;
    while i <= radius
        invariant
            radius_fits(r),
            r == radius,
            script.fits(radius as nat),
            draws == grid_view(script.rings),
            1 <= i <= radius + 1,
            cube_point(center) == map_center(r),
            state_ok(grid_view(hexes), grid_view(parents), r),
            grid_model(grid_view(hexes), grid_view(parents)) == fill_rings(
                r,
                script.center_color,
                draws,
                (i - 1) as nat,
            ),
        decreases radius + 1 - i,
    {
        let ghost g0 = grid_model(grid_view(hexes), grid_view(parents));
        let ring_draws = &script.rings[i - 1];
        assert(draws[i - 1] == ring_draws@);
        let mut ring = cube_ring(center, i);
        let mut k: usize = 0;
        let mut next = ring.next();
        while next.is_some()
            invariant
                radius_fits(r),
                r == radius,
                1 <= i <= radius,
                cube_point(center) == map_center(r),
                ring.well_formed(),
                ring.center() == map_center(r),
                ring.radius() == i,
                ring_draws@.len() == 6 * i,
                k <= 6 * i,
                next.is_some() == (k < 6 * i),
                next.is_some() ==> ring.position() == k + 1 && cube_point(next.unwrap()) == ring_seq(
                    map_center(r),
                    i as nat,
                )[k as int],
                next.is_none() ==> ring.position() == k,
                state_ok(grid_view(hexes), grid_view(parents), r),
                grid_model(grid_view(hexes), grid_view(parents)) == fill_ring(
                    g0,
                    r,
                    i as nat,
                    ring_draws@,
                    k as nat,
                ),
            decreases 6 * i - k,
        {
            let c = next.unwrap();
            proof {
                lemma_ring_distance(map_center(r), i as nat, k as int);
            }
            place_hex(&mut hexes, &mut parents, radius, c, ring_draws[k], Ghost(i as int));
            k += 1;
            next = ring.next();
        }
        i += 1;
    }
    proof {
        lemma_shape(hexes, r);
        lemma_shape(parents, r);
        let g = terrain(radius as nat, *script);
        let rows = grid_view(hexes);
        assert(g == grid_model(rows, grid_view(parents)));
        assert forall|row: int, col: int| #[trigger] in_map(r, row, col) implies magnitude(
            rows[row][col].height as int,
        ) <= point_distance(point_from_axial(indices_axial(row, col, r)), map_center(r)) <= r by {
            lemma_indices_round_trip(r, row, col);
            assert(cell_ok(rows[row][col], grid_view(parents)[row][col], r, row, col));
        }
    }
    MapData::new(radius, hexes, Vec::new(), SkyboxCompressed::default())
}

/// The map of radius `radius` that the outcomes in `script` give, or nothing
/// where the script does not hold one draw for each cell.
pub fn generate_map_scripted(radius: usize, script: &Script) -> (r: Option<MapData>)
    requires
        radius_fits(radius as int),
    ensures
        r.is_some() == script.fits(radius as nat),
        r.is_some() ==> generated(r.unwrap(), radius as nat, terrain(radius as nat, *script)),
        r.is_some() ==> heights_bounded(r.unwrap().rows(), radius as int),
        r.is_some() ==> r.unwrap().rows()[radius as int][radius as int].height == 0,
        r.is_some() ==> cell_count(r.unwrap().rows(), r.unwrap().rows().len()) == 1 + 3 * radius * (
            radius + 1),
{
    if script.check(radius) {
        let md = build(radius, script);
        proof {
            lemma_generated_laws(md, radius as nat);
        }
        Some(md)
    } else {
        None
    }
}

/// A map of radius `radius` whose random outcomes are drawn from `rng`.
pub fn generate_map(radius: usize, rng: &mut RandomSource) -> (md: MapData)
    requires
        radius_fits(radius as int),
    ensures
        exists|script: Script| #[trigger]
            script.fits(radius as nat) && generated(md, radius as nat, terrain(radius as nat, script)),
        heights_bounded(md.rows(), radius as int),
        md.rows()[radius as int][radius as int].height == 0,
        cell_count(md.rows(), md.rows().len()) == 1 + 3 * radius * (radius + 1),
        final(rng).seed() == old(rng).seed(),
{
    let script = draw_script(radius, rng);
    let md = build(radius, &script);
    proof {
        lemma_generated_laws(md, radius as nat);
        assert(script.fits(radius as nat) && generated(
            md,
            radius as nat,
            terrain(radius as nat, script),
        ));
    }
    md
}

/// Two maps of one radius generated with one script are the same map.
pub proof fn lemma_same_script_same_map(a: MapData, b: MapData, radius: nat, script: Script)
    requires
        generated(a, radius, terrain(radius, script)),
        generated(b, radius, terrain(radius, script)),
    ensures
        a.radius() == b.radius(),
        a.rows() == b.rows(),
        a.lights() == b.lights(),
        a.images() == b.images(),
{
    let g = terrain(radius, script);
    assert forall|row: int| 0 <= row < a.rows().len() implies a.rows()[row] == b.rows()[row] by {
        assert(a.rows()[row].len() == g[row].len());
        assert(b.rows()[row].len() == g[row].len());
        assert forall|col: int| 0 <= col < a.rows()[row].len() implies a.rows()[row][col]
            == b.rows()[row][col] by {
            assert(a.rows()[row][col].height == g[row][col].height);
            assert(b.rows()[row][col].height == g[row][col].height);
        }
        assert(a.rows()[row] =~= b.rows()[row]);
    }
    assert(a.rows() =~= b.rows());
    assert(a.lights() =~= b.lights());
    assert(a.images() =~= b.images());
}

/// In a map whose heights are bounded by the distance from the middle, the
/// middle cell has height zero; a map of the shape of radius `radius` has
/// `1 + 3 * radius * (radius + 1)` cells.
pub proof fn lemma_generated_laws(md: MapData, radius: nat)
    requires
        md.well_formed(),
        md.radius() == radius,
        heights_bounded(md.rows(), radius as int),
    ensures
        md.rows()[radius as int][radius as int].height == 0,
        cell_count(md.rows(), md.rows().len()) == 1 + 3 * radius * (radius + 1),
{
    lemma_cell_count(md.rows(), radius);
    assert(in_map(radius as int, radius as int, radius as int));
}

} // verus!
