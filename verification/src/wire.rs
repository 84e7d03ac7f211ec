//! The flat form in which a generated map travels: its radius, the rows of
//! its cells, its light sources and its six compressed background images.

use vstd::prelude::*;
use crate::coord::row_width;

verus! {

/// A colour as red, green and blue bytes.
#[derive(Clone, Copy, PartialEq, Eq, Debug)]
pub struct RgbByteColor(pub [u8; 3]);

/// One cell of terrain. Its height counts steps of half a unit of length.
#[derive(Clone, Copy, PartialEq, Eq, Debug)]
pub struct Hex {
    pub height: i64,
    pub color: RgbByteColor,
}

/// A light of the scene. The direction is kept as the bit patterns of its
/// three single-precision components.
#[derive(Clone, Copy, PartialEq, Eq, Debug)]
pub enum LightSource {
    Directional([u32; 3]),
}

/// One background image as it travels: absent, or the bytes of an encoded image.
#[derive(Clone, PartialEq, Eq, Debug)]
pub enum CompressedImgData {
    NoData,
    Png(Vec<u8>),
    Jpeg(Vec<u8>),
}

/// The six background images as they travel.
#[derive(Clone, PartialEq, Eq, Debug)]
pub struct SkyboxCompressed {
    pub images: [CompressedImgData; 6],
}

/// A generated map as it travels.
#[derive(Clone, PartialEq, Debug)]
pub struct MapData {
    radius: usize,
    hexes: Vec<Vec<Hex>>,
    pub light_sources: Vec<LightSource>,
    pub skybox: SkyboxCompressed,
}

/// The rows of a jagged array, each as a sequence.
pub open spec fn grid_view<T>(rows: Vec<Vec<T>>) -> Seq<Seq<T>> {
    Seq::new(rows.len() as nat, |row: int| rows[row]@)
}

/// Whether `rows` has the shape of a map of radius `radius`: `2 * radius + 1`
/// rows whose widths grow from `radius + 1` to `2 * radius + 1` and shrink again.
pub open spec fn map_shaped<T>(rows: Seq<Seq<T>>, radius: int) -> bool {
    &&& rows.len() == 2 * radius + 1
    &&& forall|row: int| 0 <= row < rows.len() ==> (#[trigger] rows[row]).len() == row_width(radius, row)
}

/// Number of cells in the first `n` rows.
pub open spec fn cell_count<T>(rows: Seq<Seq<T>>, n: nat) -> nat
    decreases n,
{
    if n == 0 {
        0
    } else {
        cell_count(rows, (n - 1) as nat) + rows[n - 1].len()
    }
}

impl MapData {
    pub closed spec fn radius(&self) -> nat {
        self.radius as nat
    }

    /// The cells, row by row.
    pub closed spec fn rows(&self) -> Seq<Seq<Hex>> {
        grid_view(self.hexes)
    }

    pub closed spec fn lights(&self) -> Seq<LightSource> {
        self.light_sources@
    }

    pub closed spec fn images(&self) -> Seq<CompressedImgData> {
        self.skybox.images@
    }

    /// There are six slots for background images.
    pub proof fn lemma_six_images(&self)
        ensures
            self.images().len() == 6,
    {
    }

    /// Whether the rows have the shape that belongs to the radius.
    pub open spec fn well_formed(&self) -> bool {
        map_shaped(self.rows(), self.radius() as int)
    }

    pub fn new(
        radius: usize,
        hexes: Vec<Vec<Hex>>,
        light_sources: Vec<LightSource>,
        skybox: SkyboxCompressed,
    ) -> (md: Self)
        ensures
            md.radius() == radius,
            md.rows() == grid_view(hexes),
            md.lights() == light_sources@,
            md.images() == skybox.images@,
    {
        Self { radius, hexes, light_sources, skybox }
    }

    pub fn get_radius(&self) -> (r: usize)
        ensures
            r == self.radius(),
    {
        self.radius
    }

    pub fn get_light_sources(&self) -> (lights: &Vec<LightSource>)
        ensures
            lights@ == self.lights(),
    {
        &self.light_sources
    }

    pub fn get_skybox(&self) -> (skybox: &SkyboxCompressed)
        ensures
            skybox.images@ == self.images(),
    {
        &self.skybox
    }

    pub fn get_hexes(&self) -> (rows: &Vec<Vec<Hex>>)
        ensures
            grid_view(*rows) == self.rows(),
    {
        &self.hexes
    }
}

impl Default for MapData {
    fn default() -> (md: Self)
        ensures
            md.radius() == 0,
            md.rows().len() == 0,
            md.lights().len() == 0,
            md.images().len() == 6,
            forall|i: int| 0 <= i < 6 ==> md.images()[i] == CompressedImgData::NoData,
    {
        Self {
            radius: 0,
            hexes: Vec::new(),
            light_sources: Vec::new(),
            skybox: SkyboxCompressed::default(),
        }
    }
}

impl Hex {
    pub fn new(height: i64, color: RgbByteColor) -> (hex: Self)
        ensures
            hex.height == height,
            hex.color == color,
    {
        Self { height, color }
    }
}

impl RgbByteColor {
    pub fn r(self) -> (v: u8)
        ensures
            v == self.0[0],
    {
        self.0[0]
    }

    pub fn g(self) -> (v: u8)
        ensures
            v == self.0[1],
    {
        self.0[1]
    }

    pub fn b(self) -> (v: u8)
        ensures
            v == self.0[2],
    {
        self.0[2]
    }

    pub fn rgb(&self) -> (bytes: &[u8])
        ensures
            bytes@ == self.0@,
    {
        self.0.as_slice()
    }

    /// The colour with full opacity as its fourth byte.
    pub fn rgba(self) -> (bytes: [u8; 4])
        ensures
            bytes@ == seq![self.0[0], self.0[1], self.0[2], 0xFFu8],
    {
        let bytes: [u8; 4] = [self.0[0], self.0[1], self.0[2], 0xFF];
        assert(bytes@ =~= seq![self.0[0], self.0[1], self.0[2], 0xFFu8]);
        bytes
    }
}

impl SkyboxCompressed {
    pub fn new(images: [CompressedImgData; 6]) -> (sc: Self)
        ensures
            sc.images == images,
    {
        Self { images }
    }
}

impl Default for SkyboxCompressed {
    fn default() -> (sc: Self)
        ensures
            forall|i: int| 0 <= i < 6 ==> sc.images[i] == CompressedImgData::NoData,
    {
        Self {
            images: [
                CompressedImgData::default(),
                CompressedImgData::default(),
                CompressedImgData::default(),
                CompressedImgData::default(),
                CompressedImgData::default(),
                CompressedImgData::default(),
            ],
        }
    }
}

impl Default for CompressedImgData {
    fn default() -> (d: Self)
        ensures
            d == CompressedImgData::NoData,
    {
        CompressedImgData::NoData
    }
}

/// A grid of the shape of a map of radius `radius` has `1 + 3 * radius *
/// (radius + 1)` cells.
pub proof fn lemma_cell_count<T>(rows: Seq<Seq<T>>, radius: nat)
    requires
        map_shaped(rows, radius as int),
    ensures
        cell_count(rows, rows.len()) == 1 + 3 * radius * (radius + 1),
{
    lemma_cell_count_rising(rows, radius, radius + 1);
    lemma_cell_count_falling(rows, radius, radius);
    assert(2 * ((radius + 1) * (radius + 1)) + (radius + 1) * radius + 2 * (radius * (2 * radius))
        - radius * (radius - 1) == 2 * (1 + 3 * radius * (radius + 1))) by (nonlinear_arith);
}

proof fn lemma_cell_count_rising<T>(rows: Seq<Seq<T>>, radius: nat, n: nat)
    requires
        map_shaped(rows, radius as int),
        n <= radius + 1,
    ensures
        2 * cell_count(rows, n) == 2 * (n * (radius + 1)) + n * (n - 1),
    decreases n,
{
    if n > 0 {
        lemma_cell_count_rising(rows, radius, (n - 1) as nat);
        assert(rows[n - 1].len() == radius + n);
        assert(2 * ((n - 1) * (radius + 1)) + (n - 1) * (n - 2) + 2 * (radius + n) == 2 * (n * (
            radius + 1)) + n * (n - 1)) by (nonlinear_arith);
    } else {
        assert(2 * (n * (radius + 1)) + n * (n - 1) == 0) by (nonlinear_arith)
            requires
                n == 0,
        ;
    }
}

proof fn lemma_cell_count_falling<T>(rows: Seq<Seq<T>>, radius: nat, m: nat)
    requires
        map_shaped(rows, radius as int),
        m <= radius,
    ensures
        2 * cell_count(rows, radius + 1 + m) == 2 * cell_count(rows, radius + 1) + 2 * (m * (2
            * radius)) - m * (m - 1),
    decreases m,
{
    if m > 0 {
        lemma_cell_count_falling(rows, radius, (m - 1) as nat);
        assert(rows[(radius + m) as int].len() == 2 * radius + 1 - m);
        assert(cell_count(rows, radius + 1 + m) == cell_count(rows, (radius + m) as nat) + rows[(radius
            + m) as int].len());
        assert(2 * ((m - 1) * (2 * radius)) - (m - 1) * (m - 2) + 2 * (2 * radius + 1 - m) == 2 * (
            m * (2 * radius)) - m * (m - 1)) by (nonlinear_arith);
    } else {
        assert(2 * (m * (2 * radius)) - m * (m - 1) == 0) by (nonlinear_arith)
            requires
                m == 0,
        ;
    }
}

} // verus!
