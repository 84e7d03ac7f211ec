//! A loaded map: the cells of a generated map, each with the lattice position
//! it stands at, addressable by row and column and by cube coordinate.

use vstd::prelude::*;
use crate::coord::{
    axial_indices, cube_point, cube_to_axial, in_map, indices_axial, lemma_indices_round_trip,
    point_from_axial, point_to_axial, row_shift, row_width, Axial, Cube, CubePoint,
};
use crate::error::LoadError;
use crate::ring::{ring_seq, CubeRing};
use crate::skybox::{is_skybox_outcome, ImgView, Skybox};
use crate::terrain::{radius_fits, radius_supported, within};
use crate::wire::{grid_view, map_shaped, Hex, LightSource, MapData};

verus! {

/// A cell with the axial coordinate it stands at.
pub type Placed = (Hex, Axial);

/// A loaded map.
#[derive(Clone, PartialEq, Debug)]
pub struct HexMap {
    radius: usize,
    hexes: Vec<Vec<Placed>>,
    pub light_sources: Vec<LightSource>,
    pub skybox: Skybox,
}

/// A pass over all cells of a map, row by row.
pub struct MapIter<'a> {
    data: &'a HexMap,
    row: usize,
    col: usize,
}

/// A pass over the cells of a map around a position, nearest ring first.
pub struct MapIterRadial<'a> {
    data: &'a HexMap,
    center: Cube,
    ring: CubeRing,
}

/// The cells of `rows` from `(row, col)` on, row by row.
pub open spec fn cells_from<T>(rows: Seq<Seq<T>>, row: int, col: int) -> Seq<T>
    decreases rows.len() - row,
{
    if row < 0 || row >= rows.len() {
        Seq::empty()
    } else {
        rows[row].skip(col) + cells_from(rows, row + 1, 0)
    }
}

/// Whether `md` can be loaded: its rows have the shape of its radius, and
/// machine integers can address them.
pub open spec fn loadable(md: MapData) -> bool {
    md.well_formed() && radius_fits(md.radius() as int)
}

/// `v`, or the largest machine integer where `v` is larger.
pub open spec fn held(v: int) -> int {
    if v > isize::MAX {
        isize::MAX as int
    } else {
        v
    }
}

/// The sum of `a` and `b`, or the largest machine integer where the sum is larger.
fn held_sum(a: usize, b: usize) -> (r: isize)
    ensures
        r == held(a + b),
{
    let top: usize = isize::MAX as usize;
    if a > top || b > top - a {
        isize::MAX
    } else {
        (a + b) as isize
    }
}

/// Tells whether `md` has the shape of its radius and machine integers can
/// address its rows.
pub fn can_load(md: &MapData) -> (ok: bool)
    ensures
        ok == loadable(*md),
{
    let radius = md.get_radius();
    let rows = md.get_hexes();
    if !radius_supported(radius) || rows.len() != 2 * radius + 1 {
        return false;
    }
    let ghost r = radius as int;
    let mut row: usize = 0;
    while row < rows.len()
        invariant
            radius_fits(r),
            r == radius,
            rows@.len() == 2 * r + 1,
            grid_view(*rows) == md.rows(),
            row <= rows@.len(),
            forall|k: int| 0 <= k < row ==> (#[trigger] md.rows()[k]).len() == row_width(r, k),
        decreases rows@.len() - row,
    {
        let gap: usize = if radius > row {
            radius - row
        } else {
            row - radius
        };
        assert(md.rows()[row as int] == rows@[row as int]@);
        if rows[row].len() != 2 * radius + 1 - gap {
            return false;
        }
        row += 1;
    }
    true
}

impl HexMap {
    pub closed spec fn radius(&self) -> nat {
        self.radius as nat
    }

    /// The cells, row by row.
    pub closed spec fn rows(&self) -> Seq<Seq<Placed>> {
        grid_view(self.hexes)
    }

    pub closed spec fn lights(&self) -> Seq<LightSource> {
        self.light_sources@
    }

    pub closed spec fn sky(&self) -> Skybox {
        self.skybox
    }

    /// Whether the map has the shape of its radius and each cell holds the
    /// position it stands at.
    pub open spec fn well_formed(&self) -> bool {
        &&& radius_fits(self.radius() as int)
        &&& map_shaped(self.rows(), self.radius() as int)
        &&& forall|row: int, col: int| #[trigger]
            in_map(self.radius() as int, row, col) ==> (
            self.rows()[row][col].1.0 as int,
            self.rows()[row][col].1.1 as int,
        ) == indices_axial(row, col, self.radius() as int)
    }

    /// The cell that stands at `p`, if the map has one.
    pub open spec fn lookup(&self, p: CubePoint) -> Option<Placed> {
        let at = axial_indices(point_to_axial(p), self.radius() as int);
        if 0 <= at.0 < self.rows().len() && 0 <= at.1 < self.rows()[at.0].len() {
            Some(self.rows()[at.0][at.1])
        } else {
            None
        }
    }

    /// Whether no cell stands further out along either axis than a third of
    /// what a machine integer holds.
    pub open spec fn compact(&self) -> bool {
        &&& self.rows().len() <= isize::MAX / 3
        &&& forall|row: int|
            0 <= row < self.rows().len() ==> (#[trigger] self.rows()[row]).len() + row_shift(
                self.radius() as int,
                row,
            ) <= isize::MAX / 3
    }

    /// A map that has the shape of its radius is compact.
    pub proof fn lemma_well_formed_is_compact(&self)
        requires
            self.well_formed(),
        ensures
            self.compact(),
    {
        assert forall|row: int| 0 <= row < self.rows().len() implies (#[trigger] self.rows()[row]).len()
            + row_shift(self.radius() as int, row) <= isize::MAX / 3 by {
            assert(self.rows()[row].len() == row_width(self.radius() as int, row));
        }
    }

    /// Tells whether the map is compact.
    pub fn is_compact(&self) -> (ok: bool)
        ensures
            ok == self.compact(),
    {
        let limit: usize = (isize::MAX / 3) as usize;
        if self.hexes.len() > limit {
            return false;
        }
        let mut row: usize = 0;
        while row < self.hexes.len()
            invariant
                limit == isize::MAX / 3,
                row <= self.hexes@.len() <= limit,
                forall|k: int|
                    0 <= k < row ==> (#[trigger] self.rows()[k]).len() + row_shift(
                        self.radius() as int,
                        k,
                    ) <= isize::MAX / 3,
            decreases self.hexes@.len() - row,
        {
            let shift: usize = if self.radius > row {
                self.radius - row
            } else {
                0
            };
            assert(self.rows()[row as int] == self.hexes@[row as int]@);
            if shift > limit || self.hexes[row].len() > limit - shift {
                return false;
            }
            row += 1;
        }
        true
    }

    /// The map before anything is loaded: no rows, no lights, six empty images.
    pub fn new() -> (map: Self)
        ensures
            map.radius() == 0,
            map.rows().len() == 0,
            map.lights().len() == 0,
            map.sky().images().len() == 6,
            forall|i: int|
                0 <= i < 6 ==> (#[trigger] map.sky().images()[i])@ == (ImgView {
                    data: Seq::<u8>::empty(),
                    width: 0,
                    height: 0,
                    alpha: false,
                    eight_bit_channels: false,
                }),
            map.compact(),
    {
        Self { radius: 0, hexes: Vec::new(), light_sources: Vec::new(), skybox: Skybox::default() }
    }

    /// Loads a map: every cell is paired with the axial coordinate it stands
    /// at, and the background images are decoded. A coordinate that no
    /// machine integer holds is kept at the largest one. Where the rows have
    /// the shape of the radius, the map is well formed.
    pub fn from_map_data(md: &MapData) -> (r: Result<Self, LoadError>)
        ensures
            r.is_ok() ==> {
                let map = r.unwrap();
                &&& map.radius() == md.radius()
                &&& map.lights() == md.lights()
                &&& map.rows().len() == md.rows().len()
                &&& forall|row: int|
                    0 <= row < md.rows().len() ==> (#[trigger] map.rows()[row]).len()
                        == md.rows()[row].len()
                &&& forall|row: int, col: int|
                    0 <= row < md.rows().len() && 0 <= col < md.rows()[row].len() ==> {
                        &&& (#[trigger] map.rows()[row][col]).0 == md.rows()[row][col]
                        &&& map.rows()[row][col].1.0 == held(
                            col + row_shift(md.radius() as int, row),
                        )
                        &&& map.rows()[row][col].1.1 == held(row)
                    }
                &&& loadable(*md) ==> map.well_formed()
            },
            is_skybox_outcome(
                match r {
                    Ok(map) => Ok(map.sky()),
                    Err(e) => Err(e),
                },
                md.images(),
            ),
            forall|i: int|
                0 <= i < 6 && #[trigger] md.images()[i] is NoData ==> r.is_err()
                    && r.unwrap_err().slot() <= i,
    {
        let radius = md.get_radius();
        let source = md.get_hexes();
        let ghost r = radius as int;
        let mut hexes: Vec<Vec<Placed>> = Vec::with_capacity(source.len());
        let mut row_n: usize = 0;
        while row_n < source.len()
            invariant
                r == radius,
                grid_view(*source) == md.rows(),
                row_n <= source@.len(),
                hexes@.len() == row_n,
                forall|row: int|
                    0 <= row < row_n ==> (#[trigger] hexes@[row])@.len() == md.rows()[row].len(),
                forall|row: int, col: int|
                    0 <= row < row_n && 0 <= col < md.rows()[row].len() ==> {
                        &&& (#[trigger] hexes@[row]@[col]).0 == md.rows()[row][col]
                        &&& hexes@[row]@[col].1.0 == held(col + row_shift(r, row))
                        &&& hexes@[row]@[col].1.1 == held(row)
                    },
            decreases source@.len() - row_n,
        {
            let row = &source[row_n];
            assert(md.rows()[row_n as int] == row@);
            let shift: usize = if radius > row_n {
                radius - row_n
            } else {
                0
            };
            let mut new_row: Vec<Placed> = Vec::with_capacity(row.len());
            let mut col_n: usize = 0;
            while col_n < row.len()
                invariant
                    r == radius,
                    shift == row_shift(r, row_n as int),
                    col_n <= row@.len(),
                    new_row@.len() == col_n,
                    forall|col: int|
                        0 <= col < col_n ==> {
                            &&& (#[trigger] new_row@[col]).0 == row@[col]
                            &&& new_row@[col].1.0 == held(col + row_shift(r, row_n as int))
                            &&& new_row@[col].1.1 == held(row_n as int)
                        },
                decreases row@.len() - col_n,
            {
                let at: Axial = (held_sum(col_n, shift), held_sum(row_n, 0));
                new_row.push((row[col_n], at));
                col_n += 1;
            }
            hexes.push(new_row);
            row_n += 1;
        }
        match Skybox::from_compressed(md.get_skybox()) {
            Ok(skybox) => {
                let map = Self { radius, hexes, light_sources: md.get_light_sources().clone(), skybox };
                proof {
                    assert forall|row: int| 0 <= row < md.rows().len() implies (
                    #[trigger] map.rows()[row]).len() == md.rows()[row].len() by {
                        assert(map.rows()[row] == hexes@[row]@);
                    }
                    if loadable(*md) {
                        assert forall|row: int, col: int| #[trigger]
                            in_map(r, row, col) implies (
                            map.rows()[row][col].1.0 as int,
                            map.rows()[row][col].1.1 as int,
                        ) == indices_axial(row, col, r) by {
                            assert(md.rows()[row].len() == row_width(r, row));
                            assert(map.rows()[row] == hexes@[row]@);
                        }
                        assert forall|row: int| 0 <= row < map.rows().len() implies (
                        #[trigger] map.rows()[row]).len() == row_width(r, row) by {
                            assert(md.rows()[row].len() == row_width(r, row));
                        }
                    }
                }
                Ok(map)
            },
            Err(e) => Err(e),
        }
    }

    pub fn get_radius(&self) -> (r: usize)
        ensures
            r == self.radius(),
    {
        self.radius
    }

    pub fn get_light_sources(&self) -> (lights: &Vec<LightSource>)
        ensures
            lights@ == self.lights(),
    {
        &self.light_sources
    }

    pub fn get_skybox(&self) -> (skybox: &Skybox)
        ensures
            *skybox == self.sky(),
    {
        &self.skybox
    }

    pub fn get_hexes(&self) -> (rows: &Vec<Vec<Placed>>)
        ensures
            grid_view(*rows) == self.rows(),
    {
        &self.hexes
    }

    /// The cell that stands at `cc`, or nothing where `cc` lies outside the map.
    pub fn index_by_cube(&self, cc: Cube) -> (r: Option<&Placed>)
        ensures
            r.is_some() == self.lookup(cube_point(cc)).is_some(),
            r.is_some() ==> *r.unwrap() == self.lookup(cube_point(cc)).unwrap(),
    {
        let (q, r) = cube_to_axial(cc);
        if r < 0 {
            return None;
        }
        let row: usize = r as usize;
        if row >= self.hexes.len() {
            return None;
        }
        let shift: usize = if self.radius > row {
            self.radius - row
        } else {
            0
        };
        if q < 0 || (q as usize) < shift {
            return None;
        }
        let col: usize = q as usize - shift;
        assert(grid_view(self.hexes)[row as int] == self.hexes@[row as int]@);
        if col >= self.hexes[row].len() {
            return None;
        }
        Some(&self.hexes[row][col])
    }

    /// A pass over all cells, row by row.
    pub fn iter(&self) -> (iter: MapIter<'_>)
        ensures
            iter.well_formed(),
            iter.map() == *self,
            iter.remaining() == cells_from(self.rows(), 0, 0),
    {
        MapIter { data: self, row: 0, col: 0 }
    }

    /// Returns a pass over all cells **except** the one at `center`, starting
    /// with the cells closest to `center` and going further and further away.
    pub fn iter_radial(&self, center: Cube) -> (iter: MapIterRadial<'_>)
        requires
            self.compact(),
            within(cube_point(center), isize::MAX / 16),
        ensures
            iter.well_formed(),
            iter.map() == *self,
            iter.center() == cube_point(center),
            iter.ring_radius() == 1,
            iter.ring_position() == 0,
    {
        MapIterRadial { data: self, center, ring: CubeRing::new(center, 1) }
    }
}

impl<'a> MapIter<'a> {
    pub closed spec fn map(&self) -> HexMap {
        *self.data
    }

    /// The cells still to come.
    pub closed spec fn remaining(&self) -> Seq<Placed> {
        cells_from(self.data.rows(), self.row as int, self.col as int)
    }

    /// Whether the pass stands at a place of its map.
    pub closed spec fn well_formed(&self) -> bool {
        self.row < self.data.rows().len() ==> self.col <= self.data.rows()[self.row as int].len()
    }

    /// Hands out the next cell, if any is left.
    pub fn next(&mut self) -> (r: Option<&'a Placed>)
        requires
            old(self).well_formed(),
        ensures
            final(self).well_formed(),
            final(self).map() == old(self).map(),
            old(self).remaining().len() > 0 ==> r.is_some() && *r.unwrap() == old(
                self).remaining()[0] && final(self).remaining() == old(self).remaining().skip(1),
            old(self).remaining().len() == 0 ==> r.is_none() && final(self).remaining().len() == 0,
    {
        let hexes = self.data.get_hexes();
        let ghost rows = self.data.rows();
        let ghost row0 = self.row as int;
        let ghost col0 = self.col as int;
        while self.row < hexes.len() && self.col >= hexes[self.row].len()
            invariant
                grid_view(*hexes) == rows,
                rows == self.data.rows(),
                self.data == old(self).data,
                row0 <= self.row,
                self.well_formed(),
                cells_from(rows, self.row as int, self.col as int) =~= cells_from(rows, row0, col0),
            decreases hexes@.len() - self.row,
        {
            proof {
                assert(rows[self.row as int] == hexes@[self.row as int]@);
                assert(rows[self.row as int].skip(self.col as int) =~= Seq::<Placed>::empty());
            }
            self.row += 1;
            self.col = 0;
        }
        if self.row < hexes.len() {
            proof {
                assert(rows[self.row as int] == hexes@[self.row as int]@);
                let rest = cells_from(rows, self.row as int + 1, 0);
                let here = rows[self.row as int];
                assert((here.skip(self.col as int) + rest)[0] == here[self.col as int]);
                assert((here.skip(self.col as int) + rest).skip(1) =~= here.skip(self.col as int + 1)
                    + rest);
            }
            let cell = &hexes[self.row][self.col];
            self.col += 1;
            Some(cell)
        } else {
            None
        }
    }
}

/// The first index from `from` on at which `ring` holds a position that has a
/// cell in `map`, or the length of `ring` where there is none.
pub open spec fn next_hit(map: HexMap, ring: Seq<CubePoint>, from: int) -> int
    decreases ring.len() - from,
{
    if from < 0 || from >= ring.len() {
        ring.len() as int
    } else if map.lookup(ring[from]).is_some() {
        from
    } else {
        next_hit(map, ring, from + 1)
    }
}

impl<'a> MapIterRadial<'a> {
    pub closed spec fn map(&self) -> HexMap {
        *self.data
    }

    pub closed spec fn center(&self) -> CubePoint {
        cube_point(self.center)
    }

    /// The radius of the ring that is being walked.
    pub closed spec fn ring_radius(&self) -> nat {
        self.ring.radius()
    }

    /// How many positions of that ring have been passed.
    pub closed spec fn ring_position(&self) -> int {
        self.ring.position()
    }

    /// Whether the pass can go on: its ring is walked around its centre, and
    /// one more ring still fits into machine integers.
    pub closed spec fn well_formed(&self) -> bool {
        &&& self.data.compact()
        &&& self.ring.well_formed()
        &&& self.ring.center() == cube_point(self.center)
        &&& within(cube_point(self.center), isize::MAX / 16)
        &&& self.ring.radius() <= isize::MAX / 8 + 2 * (isize::MAX / 3) + 1
        &&& 0 <= self.ring.position() <= 6 * self.ring.radius()
    }

    /// Looks for the next cell on the ring that is being walked.
    fn scan(&mut self) -> (r: Option<&'a Placed>)
        requires
            old(self).ring.well_formed(),
            0 <= old(self).ring.position() <= 6 * old(self).ring.radius(),
        ensures
            final(self).data == old(self).data,
            final(self).center == old(self).center,
            final(self).ring.well_formed(),
            final(self).ring.center() == old(self).ring.center(),
            final(self).ring.radius() == old(self).ring.radius(),
            ({
                let ring = ring_seq(old(self).ring.center(), old(self).ring.radius());
                let hit = next_hit(*old(self).data, ring, old(self).ring.position());
                if hit < ring.len() {
                    &&& r.is_some()
                    &&& Some(*r.unwrap()) == old(self).data.lookup(ring[hit])
                    &&& final(self).ring.position() == hit + 1
                } else {
                    r.is_none() && final(self).ring.position() == ring.len()
                }
            }),
    {
        let ghost ring = ring_seq(self.ring.center(), self.ring.radius());
        let ghost start = self.ring.position();
        let ghost map = *self.data;
        proof {
            crate::ring::lemma_ring_len(self.ring.center(), self.ring.radius());
        }
        loop
            invariant
                self.data == old(self).data,
                self.center == old(self).center,
                map == *self.data,
                start == old(self).ring.position(),
                self.ring.well_formed(),
                self.ring.center() == old(self).ring.center(),
                self.ring.radius() == old(self).ring.radius(),
                ring == ring_seq(self.ring.center(), self.ring.radius()),
                ring.len() == 6 * self.ring.radius(),
                0 <= start <= self.ring.position() <= ring.len(),
                next_hit(map, ring, self.ring.position()) == next_hit(map, ring, start),
            decreases ring.len() - self.ring.position(),
        {
            let ghost at = self.ring.position();
            proof {
                lemma_next_hit(map, ring, at);
            }
            match self.ring.next() {
                Some(cc) => {
                    let entry = self.data.index_by_cube(cc);
                    if entry.is_some() {
                        return entry;
                    }
                },
                None => {
                    return None;
                },
            }
        }
    }

    /// Hands out the next cell of the ring that is being walked, or else the
    /// first cell of the next ring; nothing once a whole ring lies outside
    /// the map.
    pub fn next(&mut self) -> (r: Option<&'a Placed>)
        requires
            old(self).well_formed(),
        ensures
            final(self).map() == old(self).map(),
            final(self).center() == old(self).center(),
            r.is_some() ==> final(self).well_formed(),
            ({
                let map = old(self).map();
                let ring = ring_seq(old(self).center(), old(self).ring_radius());
                let hit = next_hit(map, ring, old(self).ring_position());
                let outer = ring_seq(old(self).center(), old(self).ring_radius() + 1);
                let outer_hit = next_hit(map, outer, 0);
                if hit < ring.len() {
                    &&& r.is_some()
                    &&& Some(*r.unwrap()) == map.lookup(ring[hit])
                    &&& final(self).ring_radius() == old(self).ring_radius()
                    &&& final(self).ring_position() == hit + 1
                } else if outer_hit < outer.len() {
                    &&& r.is_some()
                    &&& Some(*r.unwrap()) == map.lookup(outer[outer_hit])
                    &&& final(self).ring_radius() == old(self).ring_radius() + 1
                    &&& final(self).ring_position() == outer_hit + 1
                } else {
                    &&& r.is_none()
                    &&& final(self).ring_radius() == old(self).ring_radius() + 1
                    &&& final(self).ring_position() == outer.len()
                }
            }),
    {
        proof {
            let ring = ring_seq(old(self).center(), old(self).ring_radius());
            let outer = ring_seq(old(self).center(), old(self).ring_radius() + 1);
            crate::ring::lemma_ring_len(old(self).center(), old(self).ring_radius());
            crate::ring::lemma_ring_len(old(self).center(), old(self).ring_radius() + 1);
            lemma_next_hit(old(self).map(), ring, old(self).ring_position());
            lemma_next_hit(old(self).map(), outer, 0);
        }
        let found = self.scan();
        if found.is_some() {
            return found;
        }
        self.ring = CubeRing::new(self.center, self.ring.get_radius() + 1);
        let found = self.scan();
        proof {
            if found.is_some() {
                let outer = ring_seq(old(self).center(), old(self).ring_radius() + 1);
                let hit = next_hit(old(self).map(), outer, 0);
                lemma_hit_is_near(*self.data, old(self).center(), old(self).ring_radius() + 1, hit);
            }
        }
        found
    }
}

/// The first hit from `from` on lies between `from` and the end of the ring,
/// and where it lies before the end, the position there has a cell.
proof fn lemma_next_hit(map: HexMap, ring: Seq<CubePoint>, from: int)
    requires
        0 <= from <= ring.len(),
    ensures
        from <= next_hit(map, ring, from) <= ring.len(),
        next_hit(map, ring, from) < ring.len() ==> map.lookup(ring[next_hit(map, ring, from)]).is_some(),
        from < ring.len() && map.lookup(ring[from]).is_none() ==> next_hit(map, ring, from)
            == next_hit(map, ring, from + 1),
        from < ring.len() && map.lookup(ring[from]).is_some() ==> next_hit(map, ring, from) == from,
    decreases ring.len() - from,
{
    if from < ring.len() && map.lookup(ring[from]).is_none() {
        lemma_next_hit(map, ring, from + 1);
    }
}

/// A ring with a position that has a cell in a compact map is no wider than
/// twice what the map spans and what its centre adds.
proof fn lemma_hit_is_near(map: HexMap, center: CubePoint, radius: nat, k: int)
    requires
        map.compact(),
        0 <= k < 6 * radius,
        map.lookup(ring_seq(center, radius)[k]).is_some(),
        within(center, isize::MAX / 16),
    ensures
        radius <= isize::MAX / 8 + 2 * (isize::MAX / 3),
{
    let p = ring_seq(center, radius)[k];
    let at = axial_indices(point_to_axial(p), map.radius() as int);
    assert(map.rows()[at.0].len() + row_shift(map.radius() as int, at.0) <= isize::MAX / 3);
    assert(0 <= p.2 <= isize::MAX / 3);
    assert(0 <= p.0 <= isize::MAX / 3);
    let edge = crate::ring::lemma_ring_split(center, radius, k);
}

/// Looking up the position that a cell stands at finds that cell.
pub proof fn lemma_lookup_round_trip(map: HexMap, row: int, col: int)
    requires
        map.well_formed(),
        in_map(map.radius() as int, row, col),
    ensures
        map.lookup(point_from_axial(indices_axial(row, col, map.radius() as int))) == Some(
            map.rows()[row][col],
        ),
{
    lemma_indices_round_trip(map.radius() as int, row, col);
    assert(map.rows()[row].len() == row_width(map.radius() as int, row));
}

} // verus!
