use hex_terrain::random::RandomSource;
use hex_terrain::terrain::{
    choose_direction, distance_from_center, draw_hex, draw_script, find_parents, generate_map,
    generate_map_scripted, radius_supported, random_byte_color, HexDraw, Script,
    STAY_DENOMINATOR, STAY_NUMERATOR,
};
use hex_terrain::wire::{CompressedImgData, MapData, RgbByteColor};

fn draw(first_parent: bool, stay: bool, first_turn: bool, shade: u8) -> HexDraw {
    HexDraw { first_parent, stay, first_turn, color: RgbByteColor([shade, shade, shade]) }
}

fn uniform_script(radius: usize, d: HexDraw) -> Script {
    let mut rings = Vec::new();
    for i in 1..=radius {
        rings.push(vec![d; 6 * i]);
    }
    Script { center_color: RgbByteColor([9, 8, 7]), rings }
}

fn heights(md: &MapData) -> Vec<Vec<i64>> {
    md.get_hexes().iter().map(|row| row.iter().map(|h| h.height).collect()).collect()
}

fn cell_count(md: &MapData) -> usize {
    md.get_hexes().iter().map(|row| row.len()).sum()
}

fn cell_distance(row: usize, col: usize, radius: usize) -> i64 {
    let r = radius as i64;
    let q = col as i64 + if radius > row { (radius - row) as i64 } else { 0 };
    let z = row as i64;
    let y = -(q + z);
    (q - r).abs().max((y + 2 * r).abs()).max((z - r).abs())
}

#[test]
fn stay_probability_is_three_quarters() {
    assert_eq!(STAY_NUMERATOR, 3);
    assert_eq!(STAY_DENOMINATOR, 4);
}

#[test]
fn radius_limits() {
    assert!(radius_supported(0));
    assert!(radius_supported(24));
    assert!(!radius_supported(usize::MAX));
    assert!(!radius_supported(isize::MAX as usize / 6));
    assert!(radius_supported((isize::MAX as usize - 6) / 6));
}

#[test]
fn distance_from_center_examples() {
    assert_eq!(distance_from_center((2, -4, 2), 2), 0);
    assert_eq!(distance_from_center((1, -4, 3), 2), 1);
    assert_eq!(distance_from_center((0, -4, 4), 2), 2);
    assert_eq!(distance_from_center((-1, -3, 4), 2), 3);
    assert_eq!(distance_from_center((0, 0, 0), 0), 0);
    assert_eq!(distance_from_center((0, 0, 0), 3), 6);
}

#[test]
fn corner_has_one_parent() {
    assert_eq!(find_parents((0, -4, 4), 2), ((1, -4, 3), None));
}

#[test]
fn edge_cell_has_two_parents_in_walking_order() {
    assert_eq!(find_parents((1, -5, 4), 2), ((2, -5, 3), Some((1, -4, 3))));
}

#[test]
fn first_ring_cells_have_the_center_as_parent() {
    for c in [(0, -2, 2), (1, -3, 2), (2, -3, 1), (2, -2, 0), (1, -1, 0), (0, -1, 1)] {
        assert_eq!(find_parents(c, 1), ((1, -2, 1), None));
    }
}

#[test]
fn the_center_sees_a_later_tie_replace_an_earlier_one() {
    // All six neighbours of the middle are equally near: the first found is
    // the best, and each later one replaces the tie before it.
    assert_eq!(find_parents((3, -6, 3), 3), ((2, -6, 4), Some((2, -5, 3))));
}

#[test]
fn direction_table() {
    for d in [-1i8, 0, 1] {
        assert_eq!(choose_direction(d, true, true), d);
        assert_eq!(choose_direction(d, true, false), d);
    }
    assert_eq!(choose_direction(0, false, true), -1);
    assert_eq!(choose_direction(0, false, false), 1);
    assert_eq!(choose_direction(1, false, true), -1);
    assert_eq!(choose_direction(1, false, false), 0);
    assert_eq!(choose_direction(-1, false, true), 0);
    assert_eq!(choose_direction(-1, false, false), 1);
    assert_eq!(choose_direction(2, false, true), 0);
    assert_eq!(choose_direction(2, false, false), 1);
}

#[test]
fn radius_zero_is_the_center_alone() {
    let script = Script { center_color: RgbByteColor([1, 2, 3]), rings: Vec::new() };
    let md = generate_map_scripted(0, &script).unwrap();
    assert_eq!(md.get_radius(), 0);
    assert_eq!(md.get_hexes().len(), 1);
    assert_eq!(md.get_hexes()[0].len(), 1);
    assert_eq!(md.get_hexes()[0][0].height, 0);
    assert_eq!(md.get_hexes()[0][0].color, RgbByteColor([1, 2, 3]));
    assert!(md.light_sources.is_empty());
    assert!(md.skybox.images.iter().all(|i| *i == CompressedImgData::NoData));
}

#[test]
fn radius_zero_from_a_random_source() {
    let mut rng = RandomSource::from_seed(7);
    let md = generate_map(0, &mut rng);
    assert_eq!(cell_count(&md), 1);
    assert_eq!(md.get_hexes()[0][0].height, 0);
}

#[test]
fn radius_one_has_seven_cells() {
    let mut rng = RandomSource::from_seed(11);
    let md = generate_map(1, &mut rng);
    assert_eq!(md.get_radius(), 1);
    assert_eq!(cell_count(&md), 7);
    let widths: Vec<usize> = md.get_hexes().iter().map(|r| r.len()).collect();
    assert_eq!(widths, vec![2, 3, 2]);
    assert_eq!(md.get_hexes()[1][1].height, 0);
}

#[test]
fn radius_one_places_each_cell_by_its_draw() {
    let script = Script {
        center_color: RgbByteColor([0, 0, 0]),
        rings: vec![vec![
            draw(true, true, true, 10),
            draw(true, false, true, 11),
            draw(true, false, false, 12),
            draw(false, true, false, 13),
            draw(false, false, true, 14),
            draw(false, false, false, 15),
        ]],
    };
    let md = generate_map_scripted(1, &script).unwrap();
    assert_eq!(heights(&md), vec![vec![-1, 0], vec![1, 0, 1], vec![0, -1]]);
    let shades: Vec<Vec<u8>> =
        md.get_hexes().iter().map(|row| row.iter().map(|h| h.color.r()).collect()).collect();
    assert_eq!(shades, vec![vec![14, 13], vec![15, 0, 12], vec![10, 11]]);
}

#[test]
fn second_ring_takes_height_and_direction_from_the_chosen_parent() {
    let mut script = uniform_script(2, draw(true, true, true, 0));
    // (2, -5, 3) turns down; (1, -4, 3) keeps the middle's direction.
    script.rings[0][1] = draw(true, false, true, 0);
    let md = generate_map_scripted(2, &script).unwrap();
    assert_eq!(md.get_hexes()[3][2].height, -1);
    assert_eq!(md.get_hexes()[3][1].height, 0);
    // (1, -5, 4) lies between the two and keeps its parent's direction.
    assert_eq!(md.get_hexes()[4][1].height, -2);
    script.rings[1][1] = draw(false, true, true, 0);
    let md = generate_map_scripted(2, &script).unwrap();
    assert_eq!(md.get_hexes()[4][1].height, 0);
    // Turning away from a downward parent gives level or up.
    script.rings[1][1] = draw(true, false, true, 0);
    let md = generate_map_scripted(2, &script).unwrap();
    assert_eq!(md.get_hexes()[4][1].height, -1);
    script.rings[1][1] = draw(true, false, false, 0);
    let md = generate_map_scripted(2, &script).unwrap();
    assert_eq!(md.get_hexes()[4][1].height, 0);
}

#[test]
fn all_staying_gives_a_flat_map() {
    let md = generate_map_scripted(5, &uniform_script(5, draw(true, true, true, 3))).unwrap();
    assert!(heights(&md).iter().all(|row| row.iter().all(|h| *h == 0)));
}

#[test]
fn always_taking_the_first_turn_sinks_every_other_ring() {
    // From level the first turn is down, from down it is level: the
    // directions of the rings go -1, 0, -1, 0.
    let md = generate_map_scripted(4, &uniform_script(4, draw(true, false, true, 3))).unwrap();
    for (row, cells) in md.get_hexes().iter().enumerate() {
        for (col, hex) in cells.iter().enumerate() {
            let expected = match cell_distance(row, col, 4) {
                0 => 0,
                1 => -1,
                2 => -1,
                3 => -2,
                _ => -2,
            };
            assert_eq!(hex.height, expected);
        }
    }
}

#[test]
fn always_taking_the_second_turn_climbs_every_other_ring() {
    // From level the second turn is up, from up it is level: the directions
    // of the rings go 1, 0, 1, 0.
    let md = generate_map_scripted(4, &uniform_script(4, draw(true, false, false, 3))).unwrap();
    for (row, cells) in md.get_hexes().iter().enumerate() {
        for (col, hex) in cells.iter().enumerate() {
            let expected = match cell_distance(row, col, 4) {
                0 => 0,
                1 => 1,
                2 => 1,
                3 => 2,
                _ => 2,
            };
            assert_eq!(hex.height, expected);
        }
    }
}

#[test]
fn a_script_of_the_wrong_size_gives_nothing() {
    let good = uniform_script(3, draw(true, true, true, 0));
    assert!(good.check(3));
    assert!(!good.check(2));
    assert!(!good.check(4));
    assert!(generate_map_scripted(2, &good).is_none());
    assert!(generate_map_scripted(4, &good).is_none());
    let mut short = good.clone();
    short.rings[1].pop();
    assert!(!short.check(3));
    assert!(generate_map_scripted(3, &short).is_none());
    let mut long = good.clone();
    long.rings[2].push(draw(true, true, true, 0));
    assert!(generate_map_scripted(3, &long).is_none());
    assert!(generate_map_scripted(3, &good).is_some());
}

#[test]
fn generation_is_complete() {
    for radius in 0..=8usize {
        let mut rng = RandomSource::from_seed(radius as u64 + 100);
        let md = generate_map(radius, &mut rng);
        assert_eq!(md.get_radius(), radius);
        assert_eq!(md.get_hexes().len(), 2 * radius + 1);
        for (row, cells) in md.get_hexes().iter().enumerate() {
            let gap = if radius > row { radius - row } else { row - radius };
            assert_eq!(cells.len(), 2 * radius + 1 - gap);
        }
        assert_eq!(cell_count(&md), 1 + 3 * radius * (radius + 1));
        assert!(md.light_sources.is_empty());
    }
}

#[test]
fn center_height_is_zero() {
    for seed in 0..20u64 {
        let mut rng = RandomSource::from_seed(seed);
        let md = generate_map(6, &mut rng);
        assert_eq!(md.get_hexes()[6][6].height, 0);
    }
}

#[test]
fn heights_are_bounded_by_the_distance_from_the_center() {
    for seed in 0..10u64 {
        let radius = 7usize;
        let mut rng = RandomSource::from_seed(seed);
        let md = generate_map(radius, &mut rng);
        for (row, cells) in md.get_hexes().iter().enumerate() {
            for (col, hex) in cells.iter().enumerate() {
                assert!(hex.height.abs() <= cell_distance(row, col, radius));
                assert!(hex.height.abs() <= radius as i64);
            }
        }
    }
}

#[test]
fn every_cell_stands_one_turn_from_its_parent() {
    let radius = 6usize;
    let mut rng = RandomSource::from_seed(31);
    let script = draw_script(radius, &mut rng);
    let md = generate_map_scripted(radius, &script).unwrap();
    let cell = |c: (isize, isize, isize)| {
        let (row, col) = hex_terrain::coord::axial_to_indices((c.0, c.2), radius);
        md.get_hexes()[row][col]
    };
    let center = (radius as isize, -2 * (radius as isize), radius as isize);
    assert_eq!(cell(center).color, script.center_color);
    let mut turned = 0;
    for i in 1..=radius {
        let mut ring = hex_terrain::ring::cube_ring(center, i);
        let mut k = 0;
        while let Some(c) = ring.next() {
            let d = script.rings[i - 1][k];
            let (first, second) = find_parents(c, radius);
            let parent = match second {
                Some(s) if !d.first_parent => s,
                _ => first,
            };
            let step = cell(c).height - cell(parent).height;
            assert!((-1..=1).contains(&step));
            assert_eq!(cell(c).color, d.color);
            if step != 0 {
                turned += 1;
            }
            k += 1;
        }
        assert_eq!(k, 6 * i);
    }
    assert!(turned > 0);
}

#[test]
fn same_script_same_map() {
    let mut rng = RandomSource::from_seed(42);
    let script = draw_script(6, &mut rng);
    let a = generate_map_scripted(6, &script).unwrap();
    let b = generate_map_scripted(6, &script).unwrap();
    assert_eq!(a, b);
}

#[test]
fn same_seed_same_map() {
    let mut first = RandomSource::from_seed(2024);
    let mut second = RandomSource::from_seed(2024);
    assert_eq!(generate_map(9, &mut first), generate_map(9, &mut second));
}

#[test]
fn generation_with_a_source_is_generation_with_its_script() {
    let mut first = RandomSource::from_seed(5);
    let mut second = RandomSource::from_seed(5);
    let script = draw_script(5, &mut first);
    assert_eq!(generate_map_scripted(5, &script).unwrap(), generate_map(5, &mut second));
}

#[test]
fn different_seeds_give_different_maps() {
    let mut first = RandomSource::from_seed(1);
    let mut second = RandomSource::from_seed(2);
    assert_ne!(generate_map(8, &mut first), generate_map(8, &mut second));
}

#[test]
fn drawn_script_fits_its_radius() {
    let mut rng = RandomSource::from_seed(3);
    let script = draw_script(4, &mut rng);
    assert!(script.check(4));
    assert_eq!(script.rings.len(), 4);
    for (i, ring) in script.rings.iter().enumerate() {
        assert_eq!(ring.len(), 6 * (i + 1));
    }
}

#[test]
fn draws_skip_the_coins_that_are_not_needed() {
    let mut rng = RandomSource::from_seed(77);
    for _ in 0..200 {
        let d = draw_hex(&mut rng, false);
        assert!(d.first_parent);
        if d.stay {
            assert!(d.first_turn);
        }
    }
}

#[test]
fn draws_use_both_sides_of_each_coin() {
    let mut rng = RandomSource::from_seed(78);
    let draws: Vec<HexDraw> = (0..400).map(|_| draw_hex(&mut rng, true)).collect();
    assert!(draws.iter().any(|d| d.first_parent));
    assert!(draws.iter().any(|d| !d.first_parent));
    assert!(draws.iter().any(|d| d.stay));
    assert!(draws.iter().any(|d| !d.stay));
    assert!(draws.iter().any(|d| !d.stay && d.first_turn));
    assert!(draws.iter().any(|d| !d.stay && !d.first_turn));
    let stays = draws.iter().filter(|d| d.stay).count();
    assert!(stays > 240 && stays < 360);
}

#[test]
fn random_colors_vary() {
    let mut rng = RandomSource::from_seed(79);
    let first = random_byte_color(&mut rng);
    assert!((0..50).any(|_| random_byte_color(&mut rng) != first));
}

#[test]
fn distance_far_from_the_map() {
    assert_eq!(distance_from_center((1000, -5, 7), 0), 1000);
    assert_eq!(distance_from_center((-40, 100, -60), 2), 104);
    assert_eq!(distance_from_center((0, 0, 0), 1000), 2000);
    let far = isize::MAX - 10;
    assert_eq!(distance_from_center((far, -far, 0), 5), far - 5);
}

#[test]
fn parents_far_from_the_map() {
    assert_eq!(find_parents((5, -5, 0), 0), ((4, -4, 0), None));
    assert_eq!(find_parents((-9, 0, 9), 0), ((-8, 0, 8), None));
    assert_eq!(find_parents((100, -300, 200), 50), ((100, -299, 199), Some((99, -299, 200))));
}
