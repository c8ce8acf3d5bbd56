use point_cloud::color::Color;
use point_cloud::lattice::{
    center_depth_units, channel, generate, generate_colors, generate_points, point_count,
    unit_denominator, LatticePoint,
};

fn pt(ix: usize, iy: usize, iz: usize) -> LatticePoint {
    LatticePoint { ix, iy, iz }
}

#[test]
fn color_depends_on_index_alone() {
    let c = pt(3, 7, 2).color(10);
    assert_eq!(c, Color { r: 76, g: 178, b: 51, a: 255 });
    let colors = generate_colors(10);
    let k = pt(3, 7, 2).flat_index(10);
    assert_eq!(k, 372);
    assert_eq!(colors[k], c);
}

#[test]
fn channel_rounds_down() {
    assert_eq!(channel(10, 0), 0);
    assert_eq!(channel(10, 9), 229);
    assert_eq!(channel(3, 1), 85);
    assert_eq!(channel(3, 2), 170);
    assert_eq!(channel(7, 6), 218);
    assert_eq!(channel(1, 0), 0);
}

#[test]
fn counts_are_cubes_and_aligned() {
    for n in 0..6usize {
        let (points, colors) = generate(n);
        assert_eq!(point_count(n), n * n * n);
        assert_eq!(points.len(), n * n * n);
        assert_eq!(colors.len(), n * n * n);
        for (k, p) in points.iter().enumerate() {
            assert_eq!(p.flat_index(n), k);
            assert_eq!(LatticePoint::at(n, k), *p);
            assert_eq!(colors[k], p.color(n));
        }
    }
}

#[test]
fn empty_grid() {
    let (points, colors) = generate(0);
    assert!(points.is_empty());
    assert!(colors.is_empty());
}

#[test]
fn order_has_iz_fastest() {
    let points = generate_points(3);
    assert_eq!(points[0], pt(0, 0, 0));
    assert_eq!(points[1], pt(0, 0, 1));
    assert_eq!(points[3], pt(0, 1, 0));
    assert_eq!(points[9], pt(1, 0, 0));
    assert_eq!(points[26], pt(2, 2, 2));
    assert_eq!(LatticePoint::at(3, 14), pt(1, 1, 2));
}

#[test]
fn generation_is_deterministic() {
    assert_eq!(generate(4), generate(4));
}

#[test]
fn grid_of_two_at_half_distance() {
    let (points, _) = generate(2);
    assert_eq!(points.len(), 8);
    assert_eq!(unit_denominator(2), 8);
    let (xu, yu, zu) = points[0].local_units(2);
    assert_eq!((xu, yu, zu), (-1, -1, 0));
    let den = unit_denominator(2) as f32;
    let z_start = 0.5f32;
    let x = xu as f32 / den;
    let y = yu as f32 / den;
    let z = z_start + zu as f32 / den;
    assert_eq!(x, -0.125);
    assert_eq!(y, -0.125);
    assert_eq!(z, 0.5);
    assert_eq!(x / z, -0.25);
    assert_eq!(y / z, -0.25);
}

#[test]
fn positions_in_units() {
    assert_eq!(pt(9, 0, 9).local_units(10), (9, -9, 18));
    assert_eq!(pt(9, 0, 9).centered_units(10), (9, -9, 9));
    assert_eq!(pt(0, 5, 0).centered_units(10), (-9, 1, -9));
    assert_eq!(center_depth_units(10), 9);
    assert_eq!(unit_denominator(10), 40);
    assert_eq!(pt(0, 0, 0).centered_units(1), (0, 0, 0));
}
