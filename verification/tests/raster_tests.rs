use metaballs::field::{Metaball, MetaballData};
use metaballs::geometry::Point;
use metaballs::raster::{draw_cross_markers, render_base, render_metaballs, RenderOpts};
use metaballs::scalar::Scalar;

const ON: [u8; 4] = [255, 0, 0, 255];
const OFF: [u8; 4] = [0, 0, 0, 255];
const MARKER: [u8; 4] = [0, 0, 255, 255];

fn scalar_of(v: f64) -> Scalar {
    Scalar::from_bits(v.to_bits())
}

fn float_of(s: Scalar) -> f64 {
    f64::from_bits(s.bits)
}

fn data_with(goo: f64, threshold: f64, width: u32, height: u32, balls: &[(u32, u32, f64)]) -> MetaballData {
    MetaballData {
        goo: scalar_of(goo),
        threshold: scalar_of(threshold),
        width,
        height,
        metaballs: balls
            .iter()
            .map(|&(x, y, size)| Metaball { location: Point { x, y }, size: scalar_of(size) })
            .collect(),
    }
}

/// The per-pixel field evaluation, over the reals: the sum of each
/// source's strength divided by the distance to it raised to the goo
/// exponent, compared against the threshold.
fn classify_pixels(data: &MetaballData) -> Vec<bool> {
    let goo = float_of(data.goo);
    let threshold = float_of(data.threshold);
    let mut on = Vec::with_capacity((data.width * data.height) as usize);
    for y in 0..data.height {
        for x in 0..data.width {
            let sum = data.metaballs.iter().fold(0f64, |acc, ball| {
                let dx = ball.location.x as f64 - x as f64;
                let dy = ball.location.y as f64 - y as f64;
                let distance = f64::sqrt(dx * dx + dy * dy);
                acc + float_of(ball.size) / distance.powf(goo)
            });
            on.push(sum > threshold);
        }
    }
    on
}

fn pixel(buf: &[u8], width: u32, x: u32, y: u32) -> [u8; 4] {
    let base = ((y * width + x) * 4) as usize;
    [buf[base], buf[base + 1], buf[base + 2], buf[base + 3]]
}

#[test]
fn single_on_pixel_renders_red() {
    let mut buf: Vec<u8> = Vec::new();
    render_base(&mut buf, &vec![true], 1, 1);
    assert_eq!(buf, vec![255, 0, 0, 255]);
}

#[test]
fn single_off_pixel_renders_black() {
    let mut buf: Vec<u8> = Vec::new();
    render_base(&mut buf, &vec![false], 1, 1);
    assert_eq!(buf, vec![0, 0, 0, 255]);
}

#[test]
fn base_pass_writes_row_major_cells() {
    let mut buf: Vec<u8> = Vec::new();
    render_base(&mut buf, &vec![true, false, false, true], 2, 2);
    assert_eq!(pixel(&buf, 2, 0, 0), ON);
    assert_eq!(pixel(&buf, 2, 1, 0), OFF);
    assert_eq!(pixel(&buf, 2, 0, 1), OFF);
    assert_eq!(pixel(&buf, 2, 1, 1), ON);
}

#[test]
fn markers_draw_a_blue_cross() {
    let data = data_with(2.0, 1e18, 5, 5, &[(2, 2, 10.0)]);
    let on = classify_pixels(&data);
    let mut buf: Vec<u8> = Vec::new();
    render_metaballs(&mut buf, &on, &data, &RenderOpts { crosses: true });
    for y in 0..5u32 {
        for x in 0..5u32 {
            let expected = if (x, y) == (2, 2)
                || (x, y) == (3, 2)
                || (x, y) == (1, 2)
                || (x, y) == (2, 3)
                || (x, y) == (2, 1)
            {
                MARKER
            } else {
                OFF
            };
            assert_eq!(pixel(&buf, 5, x, y), expected, "pixel ({}, {})", x, y);
        }
    }
}

#[test]
fn markers_outside_the_raster_are_skipped() {
    let data = data_with(2.0, 1e18, 4, 4, &[(0, 0, 10.0)]);
    let on = classify_pixels(&data);
    let mut buf: Vec<u8> = Vec::new();
    render_metaballs(&mut buf, &on, &data, &RenderOpts { crosses: true });
    assert_eq!(pixel(&buf, 4, 0, 0), MARKER);
    assert_eq!(pixel(&buf, 4, 1, 0), MARKER);
    assert_eq!(pixel(&buf, 4, 0, 1), MARKER);
    assert_eq!(pixel(&buf, 4, 3, 3), OFF);
    assert_eq!(pixel(&buf, 4, 2, 0), OFF);
}

#[test]
fn marker_pass_leaves_other_cells_untouched() {
    let mut buf: Vec<u8> = Vec::new();
    render_base(&mut buf, &vec![true; 9], 3, 3);
    let balls = vec![Metaball { location: Point { x: 1, y: 1 }, size: scalar_of(5.0) }];
    draw_cross_markers(&mut buf, &balls, 3, 3);
    assert_eq!(pixel(&buf, 3, 1, 1), MARKER);
    assert_eq!(pixel(&buf, 3, 0, 1), MARKER);
    assert_eq!(pixel(&buf, 3, 2, 1), MARKER);
    assert_eq!(pixel(&buf, 3, 1, 0), MARKER);
    assert_eq!(pixel(&buf, 3, 1, 2), MARKER);
    assert_eq!(pixel(&buf, 3, 0, 0), ON);
    assert_eq!(pixel(&buf, 3, 2, 2), ON);
}

#[test]
fn rendering_twice_is_byte_identical() {
    let data = data_with(2.0, 0.3, 16, 16, &[(4, 4, 30.0), (12, 10, -5.0), (8, 15, 12.0)]);
    let on = classify_pixels(&data);
    let opts = RenderOpts { crosses: true };
    let mut first: Vec<u8> = Vec::new();
    let mut second: Vec<u8> = vec![7; 9];
    render_metaballs(&mut first, &on, &data, &opts);
    render_metaballs(&mut second, &on, &data, &opts);
    assert_eq!(first, second);
}

#[test]
fn toggling_markers_off_restores_the_base_raster() {
    let data = data_with(1.6, 0.5, 16, 16, &[(3, 3, 40.0), (10, 12, 25.0), (14, 2, 60.0)]);
    let on = classify_pixels(&data);
    let mut buf: Vec<u8> = Vec::new();
    render_metaballs(&mut buf, &on, &data, &RenderOpts { crosses: false });
    let before = buf.clone();
    render_metaballs(&mut buf, &on, &data, &RenderOpts { crosses: true });
    assert_ne!(buf, before);
    render_metaballs(&mut buf, &on, &data, &RenderOpts { crosses: false });
    assert_eq!(buf, before);
}

#[test]
fn single_center_source_classifies_by_threshold() {
    // One source on the raster center: the sum one pixel away is the
    // source's strength, so a threshold just below it turns the center
    // region on while distant pixels stay off.
    let data = data_with(2.0, 49.9, 16, 16, &[(8, 8, 50.0)]);
    let on = classify_pixels(&data);
    let mut buf: Vec<u8> = Vec::new();
    render_metaballs(&mut buf, &on, &data, &RenderOpts { crosses: false });
    assert_eq!(pixel(&buf, 16, 8, 8), ON);
    assert_eq!(pixel(&buf, 16, 9, 8), ON);
    assert_eq!(pixel(&buf, 16, 0, 0), OFF);
    assert_eq!(pixel(&buf, 16, 15, 15), OFF);

    // No finite or infinite sum exceeds an infinite threshold, so every
    // pixel turns off.
    let all_off = data_with(2.0, f64::INFINITY, 16, 16, &[(8, 8, 50.0)]);
    let on = classify_pixels(&all_off);
    render_metaballs(&mut buf, &on, &all_off, &RenderOpts { crosses: false });
    for y in 0..16u32 {
        for x in 0..16u32 {
            assert_eq!(pixel(&buf, 16, x, y), OFF, "pixel ({}, {})", x, y);
        }
    }
}

#[test]
fn default_options_draw_no_markers() {
    let opts = RenderOpts::default();
    assert!(!opts.crosses);
}

#[test]
fn toggling_twice_returns_to_the_original_options() {
    let mut opts = RenderOpts::default();
    opts.toggle_crosses();
    assert!(opts.crosses);
    opts.toggle_crosses();
    assert!(!opts.crosses);
}
