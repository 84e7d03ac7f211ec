//! What generation leaves behind: every cell but the middle one stands one
//! turn away from the parent it was given.

use vstd::prelude::*;
use crate::coord::{
    axial_indices, in_map, indices_axial, lemma_indices_round_trip, lemma_position_has_cell,
    magnitude, map_center, on_lattice, point_distance, point_from_axial, point_to_axial,
    row_width, CubePoint,
};
use crate::ring::{lemma_ring_covers, lemma_ring_distance, lemma_ring_distinct, ring_seq};
use crate::terrain::{
    cell_of, chosen_parent, fill_ring, fill_rings, lemma_parents_closer, place, terrain, turn,
    CellModel, HexDraw, Script,
};
use crate::wire::{cell_count, grid_view, lemma_cell_count, map_shaped, RgbByteColor};

verus! {

/// Whether `p` is a position of a map of radius `radius`.
pub open spec fn in_reach(p: CubePoint, radius: int) -> bool {
    on_lattice(p) && point_distance(p, map_center(radius)) <= radius
}

/// Whether the cell at `c` in `after` is what `draw` makes of its parent's
/// cell in `before`: the parent's direction kept or turned, and the
/// parent's height changed by that direction.
pub open spec fn placed_as(
    after: Seq<Seq<CellModel>>,
    before: Seq<Seq<CellModel>>,
    radius: int,
    c: CubePoint,
    draw: HexDraw,
) -> bool {
    let parent = cell_of(before, chosen_parent(c, radius, draw.first_parent), radius);
    let direction = turn(parent.direction, draw.stay, draw.first_turn);
    cell_of(after, c, radius) == (CellModel {
        height: parent.height + direction,
        direction,
        color: draw.color,
    })
}

/// Two positions of a map are stored in different cells.
proof fn lemma_cells_differ(radius: int, c: CubePoint, q: CubePoint)
    requires
        0 <= radius,
        in_reach(c, radius),
        in_reach(q, radius),
        q != c,
    ensures
        axial_indices(point_to_axial(c), radius) != axial_indices(point_to_axial(q), radius),
        ({
            let at = axial_indices(point_to_axial(c), radius);
            in_map(radius, at.0, at.1)
        }),
        ({
            let at = axial_indices(point_to_axial(q), radius);
            in_map(radius, at.0, at.1)
        }),
{
    lemma_position_has_cell(radius, c);
    lemma_position_has_cell(radius, q);
    let a = axial_indices(point_to_axial(c), radius);
    let b = axial_indices(point_to_axial(q), radius);
    if a == b {
        assert(point_to_axial(c) == indices_axial(a.0, a.1, radius));
        assert(point_to_axial(q) == indices_axial(b.0, b.1, radius));
        assert(point_from_axial(point_to_axial(c)) == c);
        assert(point_from_axial(point_to_axial(q)) == q);
    }
}

/// Placing a cell keeps the shape of the map, writes that cell and leaves
/// every other cell as it was.
proof fn lemma_place(g: Seq<Seq<CellModel>>, radius: int, c: CubePoint, draw: HexDraw)
    requires
        0 <= radius,
        map_shaped(g, radius),
        in_reach(c, radius),
    ensures
        map_shaped(place(g, radius, c, draw), radius),
        placed_as(place(g, radius, c, draw), g, radius, c, draw),
        forall|q: CubePoint|
            in_reach(q, radius) && q != c ==> #[trigger] cell_of(
                place(g, radius, c, draw),
                q,
                radius,
            ) == cell_of(g, q, radius),
{
    lemma_position_has_cell(radius, c);
    let at = axial_indices(point_to_axial(c), radius);
    let after = place(g, radius, c, draw);
    assert(g[at.0].len() == row_width(radius, at.0));
    assert forall|row: int| 0 <= row < after.len() implies (#[trigger] after[row]).len()
        == row_width(radius, row) by {
        assert(g[row].len() == row_width(radius, row));
    }
    assert forall|q: CubePoint| in_reach(q, radius) && q != c implies #[trigger] cell_of(
        after,
        q,
        radius,
    ) == cell_of(g, q, radius) by {
        lemma_cells_differ(radius, c, q);
        let b = axial_indices(point_to_axial(q), radius);
        assert(g[b.0].len() == row_width(radius, b.0));
    }
}

/// Placing the first `n` cells of a ring keeps the shape of the map, leaves
/// every cell off the ring as it was, and leaves each of the `n` cells as its
/// draw makes it from its parent in the map before the ring.
proof fn lemma_fill_ring(
    g: Seq<Seq<CellModel>>,
    radius: int,
    ring: nat,
    draws: Seq<HexDraw>,
    n: nat,
)
    requires
        map_shaped(g, radius),
        1 <= ring <= radius,
        n <= 6 * ring,
    ensures
        map_shaped(fill_ring(g, radius, ring, draws, n), radius),
        forall|q: CubePoint|
            in_reach(q, radius) && point_distance(q, map_center(radius)) != ring
                ==> #[trigger] cell_of(fill_ring(g, radius, ring, draws, n), q, radius) == cell_of(
                g,
                q,
                radius,
            ),
        forall|k: int|
            0 <= k < n ==> #[trigger] placed_as(
                fill_ring(g, radius, ring, draws, n),
                g,
                radius,
                ring_seq(map_center(radius), ring)[k],
                draws[k],
            ),
    decreases n,
{
    if n > 0 {
        let center = map_center(radius);
        let m = (n - 1) as nat;
        let before = fill_ring(g, radius, ring, draws, m);
        let after = fill_ring(g, radius, ring, draws, n);
        let c = ring_seq(center, ring)[n - 1];
        let draw = draws[n - 1];
        lemma_fill_ring(g, radius, ring, draws, m);
        lemma_ring_distance(center, ring, n - 1);
        assert(in_reach(c, radius));
        lemma_place(before, radius, c, draw);
        assert(after == place(before, radius, c, draw));
        assert forall|q: CubePoint|
            in_reach(q, radius) && point_distance(q, center) != ring implies #[trigger] cell_of(
            after,
            q,
            radius,
        ) == cell_of(g, q, radius) by {
            assert(cell_of(after, q, radius) == cell_of(before, q, radius));
            assert(cell_of(before, q, radius) == cell_of(g, q, radius));
        }
        assert forall|k: int| 0 <= k < n implies #[trigger] placed_as(
            after,
            g,
            radius,
            ring_seq(center, ring)[k],
            draws[k],
        ) by {
            let ck = ring_seq(center, ring)[k];
            if k < n - 1 {
                lemma_ring_distinct(center, ring, k, n - 1);
                lemma_ring_distance(center, ring, k);
                assert(in_reach(ck, radius));
                assert(cell_of(after, ck, radius) == cell_of(before, ck, radius));
                assert(placed_as(before, g, radius, ck, draws[k]));
            } else {
                let parent = chosen_parent(c, radius, draw.first_parent);
                lemma_parents_closer(c, radius, ring as int);
                assert(in_reach(parent, radius));
                assert(cell_of(before, parent, radius) == cell_of(g, parent, radius));
                assert(placed_as(after, before, radius, c, draw));
            }
        }
    }
}

/// Whether every cell of the first `rings` rings of `g` is what its draw
/// makes of its parent's cell in `g`.
pub open spec fn diffused(g: Seq<Seq<CellModel>>, radius: int, draws: Seq<Seq<HexDraw>>, rings: nat) -> bool {
    forall|i: int, k: int|
        1 <= i <= rings && 0 <= k < 6 * i ==> #[trigger] placed_as(
            g,
            g,
            radius,
            ring_seq(map_center(radius), i as nat)[k],
            draws[i - 1][k],
        )
}

/// After the first `rings` rings the map has its shape, the middle cell is
/// level with the colour it was given, the cells further out are untouched,
/// and every cell of those rings is what its draw makes of its parent.
proof fn lemma_fill_rings(
    radius: int,
    center_color: RgbByteColor,
    draws: Seq<Seq<HexDraw>>,
    rings: nat,
)
    requires
        0 <= radius,
        rings <= radius,
    ensures
        map_shaped(fill_rings(radius, center_color, draws, rings), radius),
        cell_of(fill_rings(radius, center_color, draws, rings), map_center(radius), radius) == (
        CellModel { height: 0, direction: 0, color: center_color }),
        diffused(fill_rings(radius, center_color, draws, rings), radius, draws, rings),
    decreases rings,
{
    let center = map_center(radius);
    if rings == 0 {
        assert(in_map(radius, radius, radius));
    } else {
        let before = fill_rings(radius, center_color, draws, (rings - 1) as nat);
        let after = fill_rings(radius, center_color, draws, rings);
        lemma_fill_rings(radius, center_color, draws, (rings - 1) as nat);
        lemma_fill_ring(before, radius, rings, draws[rings - 1], 6 * rings);
        assert(in_reach(center, radius));
        assert(cell_of(after, center, radius) == cell_of(before, center, radius));
        assert forall|i: int, k: int| 1 <= i <= rings && 0 <= k < 6 * i implies #[trigger] placed_as(
            after,
            after,
            radius,
            ring_seq(center, i as nat)[k],
            draws[i - 1][k],
        ) by {
            let c = ring_seq(center, i as nat)[k];
            let draw = draws[i - 1][k];
            let parent = chosen_parent(c, radius, draw.first_parent);
            lemma_ring_distance(center, i as nat, k);
            lemma_parents_closer(c, radius, i);
            assert(in_reach(c, radius));
            assert(in_reach(parent, radius));
            assert(cell_of(after, parent, radius) == cell_of(before, parent, radius));
            if i < rings {
                assert(cell_of(after, c, radius) == cell_of(before, c, radius));
                assert(placed_as(before, before, radius, c, draw));
            } else {
                assert(placed_as(after, before, radius, c, draw));
            }
        }
    }
}

/// In a generated map the middle cell is level and has the colour of the
/// script, and every other cell has the colour of its draw, the direction
/// that its draw makes of its parent's direction, and its parent's height
/// changed by that direction.
pub proof fn lemma_terrain_is_diffused(radius: nat, script: Script, ring: int, k: int)
    requires
        script.fits(radius),
        1 <= ring <= radius,
        0 <= k < 6 * ring,
    ensures
        cell_of(terrain(radius, script), map_center(radius as int), radius as int) == (CellModel {
            height: 0,
            direction: 0,
            color: script.center_color,
        }),
        placed_as(
            terrain(radius, script),
            terrain(radius, script),
            radius as int,
            ring_seq(map_center(radius as int), ring as nat)[k],
            script.rings@[ring - 1]@[k],
        ),
{
    let draws = grid_view(script.rings);
    lemma_fill_rings(radius as int, script.center_color, draws, radius);
    assert(draws[ring - 1] == script.rings@[ring - 1]@);
    assert(placed_as(
        terrain(radius, script),
        terrain(radius, script),
        radius as int,
        ring_seq(map_center(radius as int), ring as nat)[k],
        draws[ring - 1][k],
    ));
}

/// A generated map of any radius has the shape of that radius, and so
/// `1 + 3 * radius * (radius + 1)` cells.
pub proof fn lemma_terrain_shape(radius: nat, script: Script)
    ensures
        map_shaped(terrain(radius, script), radius as int),
        cell_count(terrain(radius, script), terrain(radius, script).len()) == 1 + 3 * radius * (
            radius + 1),
{
    lemma_fill_rings(radius as int, script.center_color, grid_view(script.rings), radius);
    lemma_cell_count(terrain(radius, script), radius);
}

/// In a generated map of any radius, the cell at a position of the map is
/// one step up, one step down or level with its parent, and no higher or
/// lower, in steps, than the position is far from the middle.
pub proof fn lemma_terrain_position(radius: nat, script: Script, q: CubePoint)
    requires
        in_reach(q, radius as int),
    ensures
        -1 <= cell_of(terrain(radius, script), q, radius as int).direction <= 1,
        magnitude(cell_of(terrain(radius, script), q, radius as int).height) <= point_distance(
            q,
            map_center(radius as int),
        ),
    decreases point_distance(q, map_center(radius as int)),
{
    let r = radius as int;
    let center = map_center(r);
    let draws = grid_view(script.rings);
    let g = terrain(radius, script);
    let d = point_distance(q, center);
    lemma_fill_rings(r, script.center_color, draws, radius);
    if d == 0 {
        assert(q == center);
    } else {
        let k = lemma_ring_covers(center, d as nat, q);
        let draw = draws[d - 1][k];
        assert(placed_as(g, g, r, ring_seq(center, d as nat)[k], draw));
        let parent = chosen_parent(q, r, draw.first_parent);
        lemma_parents_closer(q, r, d);
        lemma_terrain_position(radius, script, parent);
    }
}

/// In a generated map of any radius, no cell is higher or lower, in steps,
/// than it is far from the middle, and so none by more than the radius; the
/// middle cell is level.
pub proof fn lemma_terrain_heights(radius: nat, script: Script, row: int, col: int)
    requires
        in_map(radius as int, row, col),
    ensures
        magnitude(terrain(radius, script)[row][col].height) <= point_distance(
            point_from_axial(indices_axial(row, col, radius as int)),
            map_center(radius as int),
        ) <= radius,
        terrain(radius, script)[radius as int][radius as int].height == 0,
{
    let r = radius as int;
    lemma_indices_round_trip(r, row, col);
    lemma_terrain_position(radius, script, point_from_axial(indices_axial(row, col, r)));
    lemma_indices_round_trip(r, r, r);
    lemma_terrain_position(radius, script, map_center(r));
}

} // verus!
