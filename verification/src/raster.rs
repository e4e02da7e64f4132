//! The rasterizer: turns per-pixel classifications into an RGBA byte
//! buffer, with an optional marker overlay on the source centers.
//!
//! The driver evaluates the field at every pixel — a real-valued sum of
//! the sources' influences compared against the threshold — and hands the
//! classifications in row-major order to `render_metaballs`, which
//! overwrites the whole buffer: a red cell for every pixel inside the
//! shape, a black cell elsewhere, and, when markers are on, a blue
//! plus-shaped cross over each source's center, in source order, with
//! cross pixels outside the raster skipped. The contract `rendered` pins
//! every byte of the result.

use vstd::prelude::*;
use vstd::arithmetic::div_mod::{
    lemma_div_pos_is_pos,
    lemma_fundamental_div_mod,
    lemma_fundamental_div_mod_converse,
    lemma_mod_division_less_than_divisor,
};
use crate::field::{Metaball, MetaballData};

verus! {

/// Display toggles for one render.
#[derive(Copy, Clone, Debug)]
pub struct RenderOpts {
    /// Draw a cross-shaped marker over each source's center.
    pub crosses: bool,
}

impl Default for RenderOpts {
    /// The default options draw no markers.
    fn default() -> (opts: RenderOpts)
        ensures
            opts.crosses == false,
    {
        RenderOpts { crosses: false }
    }
}

impl RenderOpts {
    /// Flip the marker overlay; the caller re-renders after every flip.
    pub fn toggle_crosses(&mut self)
        ensures
            final(self).crosses == !old(self).crosses,
    {
        self.crosses = !self.crosses;
    }
}

/// The RGBA cell of a pixel inside the shape: opaque red.
pub open spec fn on_color() -> Seq<u8> {
    seq![255u8, 0u8, 0u8, 255u8]
}

/// The RGBA cell of a pixel outside the shape: opaque black.
pub open spec fn off_color() -> Seq<u8> {
    seq![0u8, 0u8, 0u8, 255u8]
}

/// The RGBA cell of a marker pixel: opaque blue.
pub open spec fn marker_color() -> Seq<u8> {
    seq![0u8, 0u8, 255u8, 255u8]
}

/// The cell a classification alone calls for.
pub open spec fn base_color(on: bool) -> Seq<u8> {
    if on {
        on_color()
    } else {
        off_color()
    }
}

/// Horizontal offset of pixel `k` of the cross: center, right, left, down, up.
pub open spec fn cross_dx(k: int) -> int {
    if k == 1 {
        1
    } else if k == 2 {
        -1
    } else {
        0
    }
}

/// Vertical offset of pixel `k` of the cross: center, right, left, down, up.
pub open spec fn cross_dy(k: int) -> int {
    if k == 3 {
        1
    } else if k == 4 {
        -1
    } else {
        0
    }
}

/// Whether cross pixel `k` of `ball` lands on row-major cell `cell`.
pub open spec fn hit(ball: Metaball, k: int, width: int, cell: int) -> bool {
    &&& cell % width == ball.location.x + cross_dx(k)
    &&& cell / width == ball.location.y + cross_dy(k)
}

/// Whether one of the first `s` cross pixels drawn — five per source, in
/// source order — lands on `cell`.
pub open spec fn covered_upto(balls: Seq<Metaball>, width: int, s: int, cell: int) -> bool {
    exists|t: int| 0 <= t < s && #[trigger] hit(balls[t / 5], t % 5, width, cell)
}

/// Whether any cross pixel of any source lands on `cell`.
pub open spec fn covered(balls: Seq<Metaball>, width: int, cell: int) -> bool {
    covered_upto(balls, width, 5 * balls.len() as int, cell)
}

/// The four bytes of cell `cell` of `buf` hold `color`.
pub open spec fn cell_is(buf: Seq<u8>, cell: int, color: Seq<u8>) -> bool {
    &&& buf[4 * cell + 0] == color[0]
    &&& buf[4 * cell + 1] == color[1]
    &&& buf[4 * cell + 2] == color[2]
    &&& buf[4 * cell + 3] == color[3]
}

/// The four bytes of cell `cell` are the same in `buf` and `base`.
pub open spec fn cell_untouched(buf: Seq<u8>, base: Seq<u8>, cell: int) -> bool {
    &&& buf[4 * cell + 0] == base[4 * cell + 0]
    &&& buf[4 * cell + 1] == base[4 * cell + 1]
    &&& buf[4 * cell + 2] == base[4 * cell + 2]
    &&& buf[4 * cell + 3] == base[4 * cell + 3]
}

/// After the first `s` cross pixels are drawn over `base`, a cell they
/// land on is the marker color and every other cell is untouched.
pub open spec fn marked_upto(
    buf: Seq<u8>,
    base: Seq<u8>,
    balls: Seq<Metaball>,
    width: int,
    s: int,
    cell: int,
) -> bool {
    if covered_upto(balls, width, s, cell) {
        cell_is(buf, cell, marker_color())
    } else {
        cell_untouched(buf, base, cell)
    }
}

/// After the whole marker pass, a cell some cross pixel lands on is the
/// marker color and every other cell is untouched.
pub open spec fn marked(
    buf: Seq<u8>,
    base: Seq<u8>,
    balls: Seq<Metaball>,
    width: int,
    cell: int,
) -> bool {
    marked_upto(buf, base, balls, width, 5 * balls.len() as int, cell)
}

/// The cell a finished render owes pixel `cell`: the marker color where a
/// cross pixel lands and markers are on, else the classification's color.
pub open spec fn cell_color(
    on: Seq<bool>,
    balls: Seq<Metaball>,
    crosses: bool,
    width: int,
    cell: int,
) -> Seq<u8> {
    if crosses && covered(balls, width, cell) {
        marker_color()
    } else {
        base_color(on[cell])
    }
}

/// Cell `cell` of `buf` holds exactly the cell a finished render owes it.
pub open spec fn cell_rendered(
    buf: Seq<u8>,
    on: Seq<bool>,
    balls: Seq<Metaball>,
    crosses: bool,
    width: int,
    cell: int,
) -> bool {
    cell_is(buf, cell, cell_color(on, balls, crosses, width, cell))
}

/// The full render contract: four bytes per raster cell, one
/// classification per cell, and every cell holds exactly the color the
/// field and the options call for.
pub open spec fn rendered(buf: Seq<u8>, on: Seq<bool>, data: MetaballData, crosses: bool) -> bool {
    &&& buf.len() == 4 * data.width * data.height
    &&& on.len() == data.width * data.height
    &&& forall|cell: int|
        0 <= cell < data.width * data.height ==> #[trigger] cell_rendered(
            buf,
            on,
            data.metaballs@,
            crosses,
            data.width as int,
            cell,
        )
}

/// The five cross pixel offsets, in drawing order.
fn cross_offset(k: usize) -> (d: (i64, i64))
    requires
        k < 5,
    ensures
        d.0 == cross_dx(k as int),
        d.1 == cross_dy(k as int),
{
    if k == 0 {
        (0, 0)
    } else if k == 1 {
        (1, 0)
    } else if k == 2 {
        (-1, 0)
    } else if k == 3 {
        (0, 1)
    } else {
        (0, -1)
    }
}

/// Classification pass: overwrite the buffer with one RGBA cell per
/// classification, red inside the shape and black outside.
pub fn render_base(screenbuffer: &mut Vec<u8>, on: &Vec<bool>, width: u32, height: u32)
    requires
        on@.len() == width * height,
        4 * (width as int) * (height as int) <= usize::MAX,
    ensures
        final(screenbuffer)@.len() == 4 * width * height,
        forall|cell: int|
            0 <= cell < width * height ==> #[trigger] cell_is(
                final(screenbuffer)@,
                cell,
                base_color(on@[cell]),
            ),
{
    let n: usize = on.len();
    let mut out: Vec<u8> = Vec::new();
    let mut p: usize = 0;
    while p < n
        invariant
            p <= n,
            n == on@.len(),
            out@.len() == 4 * p,
            forall|cell: int|
                0 <= cell < p ==> #[trigger] cell_is(out@, cell, base_color(on@[cell])),
        decreases n - p,
    {
        let ghost prev = out@;
        if on[p] {
            out.push(255);
            out.push(0);
            out.push(0);
            out.push(255);
        } else {
            out.push(0);
            out.push(0);
            out.push(0);
            out.push(255);
        }
        proof {
            assert forall|cell: int| 0 <= cell < p + 1 implies #[trigger] cell_is(
                out@,
                cell,
                base_color(on@[cell]),
            ) by {
                if cell < p {
                    assert(cell_is(prev, cell, base_color(on@[cell])));
                    assert(out@[4 * cell + 0] == prev[4 * cell + 0]);
                    assert(out@[4 * cell + 1] == prev[4 * cell + 1]);
                    assert(out@[4 * cell + 2] == prev[4 * cell + 2]);
                    assert(out@[4 * cell + 3] == prev[4 * cell + 3]);
                }
            }
        }
        p = p + 1;
    }
    proof {
        assert(4 * ((width * height) as int) == 4 * width * height) by (nonlinear_arith);
    }
    *screenbuffer = out;
}

/// Marker pass: stamp a blue cross over each source's center, in source
/// order, skipping the cross pixels that fall outside the raster.
pub fn draw_cross_markers(
    screenbuffer: &mut Vec<u8>,
    metaballs: &Vec<Metaball>,
    width: u32,
    height: u32,
)
    requires
        old(screenbuffer)@.len() == 4 * width * height,
        4 * (width as int) * (height as int) <= usize::MAX,
    ensures
        final(screenbuffer)@.len() == old(screenbuffer)@.len(),
        forall|cell: int|
            0 <= cell < width * height ==> #[trigger] marked(
                final(screenbuffer)@,
                old(screenbuffer)@,
                metaballs@,
                width as int,
                cell,
            ),
{
    let ghost w: int = width as int;
    let ghost h: int = height as int;
    let mut j: usize = 0;
    while j < metaballs.len()
        invariant
            j <= metaballs@.len(),
            screenbuffer@.len() == old(screenbuffer)@.len(),
            old(screenbuffer)@.len() == 4 * w * h,
            4 * w * h <= usize::MAX,
            w == width as int,
            h == height as int,
            forall|cell: int|
                0 <= cell < w * h ==> #[trigger] marked_upto(
                    screenbuffer@,
                    old(screenbuffer)@,
                    metaballs@,
                    w,
                    5 * j,
                    cell,
                ),
        decreases metaballs@.len() - j,
    {
        let ball = metaballs[j];
        let mut k: usize = 0;
        while k < 5
            invariant
                k <= 5,
                j < metaballs@.len(),
                ball == metaballs@[j as int],
                screenbuffer@.len() == old(screenbuffer)@.len(),
                old(screenbuffer)@.len() == 4 * w * h,
                4 * w * h <= usize::MAX,
                w == width as int,
                h == height as int,
                forall|cell: int|
                    0 <= cell < w * h ==> #[trigger] marked_upto(
                        screenbuffer@,
                        old(screenbuffer)@,
                        metaballs@,
                        w,
                        5 * j + k,
                        cell,
                    ),
            decreases 5 - k,
        {
            let d = cross_offset(k);
            let dx: i64 = d.0;
            let dy: i64 = d.1;
            let nx: i64 = ball.location.x as i64 + dx;
            let ny: i64 = ball.location.y as i64 + dy;
            let ghost s: int = 5 * j + k;
            let ghost prev: Seq<u8> = screenbuffer@;
            proof {
                lemma_fundamental_div_mod_converse(s, 5, j as int, k as int);
            }
            if nx >= 0 && nx < width as i64 && ny >= 0 && ny < height as i64 {
                let px: usize = nx as usize;
                let py: usize = ny as usize;
                proof {
                    assert(0 <= py * w + px && 4 * (py * w + px) + 3 < 4 * w * h) by (
                    nonlinear_arith)
                        requires
                            0 <= px < w,
                            0 <= py < h,
                    ;
                }
                let cellw: usize = py * (width as usize) + px;
                let b0: usize = 4 * cellw;
                screenbuffer[b0] = 0;
                screenbuffer[b0 + 1] = 0;
                screenbuffer[b0 + 2] = 255;
                screenbuffer[b0 + 3] = 255;
                proof {
                    let hc: int = cellw as int;
                    assert(4 * (w * h) == 4 * w * h) by (nonlinear_arith);
                    lemma_fundamental_div_mod_converse(hc, w, py as int, px as int);
                    assert(hit(metaballs@[j as int], k as int, w, hc));
                    assert(covered_upto(metaballs@, w, s + 1, hc));
                    assert forall|cell: int| 0 <= cell < w * h implies #[trigger] marked_upto(
                        screenbuffer@,
                        old(screenbuffer)@,
                        metaballs@,
                        w,
                        s + 1,
                        cell,
                    ) by {
                        assert(marked_upto(prev, old(screenbuffer)@, metaballs@, w, s, cell));
                        if cell == hc {
                            assert(cell_is(screenbuffer@, cell, marker_color()));
                        } else {
                            lemma_fundamental_div_mod(cell, w);
                            if covered_upto(metaballs@, w, s + 1, cell) && !covered_upto(
                                metaballs@,
                                w,
                                s,
                                cell,
                            ) {
                                let t: int = choose|t: int|
                                    0 <= t < s + 1 && #[trigger] hit(
                                        metaballs@[t / 5],
                                        t % 5,
                                        w,
                                        cell,
                                    );
                                if t < s {
                                    assert(covered_upto(metaballs@, w, s, cell));
                                }
                                assert(t == s);
                                assert(cell == w * (cell / w) + cell % w);
                                assert(w * (py as int) == (py as int) * w) by (nonlinear_arith);
                                assert(false);
                            }
                            assert(screenbuffer@[4 * cell + 0] == prev[4 * cell + 0]);
                            assert(screenbuffer@[4 * cell + 1] == prev[4 * cell + 1]);
                            assert(screenbuffer@[4 * cell + 2] == prev[4 * cell + 2]);
                            assert(screenbuffer@[4 * cell + 3] == prev[4 * cell + 3]);
                        }
                    }
                }
            } else {
                proof {
                    assert forall|cell: int| 0 <= cell < w * h implies #[trigger] marked_upto(
                        screenbuffer@,
                        old(screenbuffer)@,
                        metaballs@,
                        w,
                        s + 1,
                        cell,
                    ) by {
                        assert(marked_upto(prev, old(screenbuffer)@, metaballs@, w, s, cell));
                        if covered_upto(metaballs@, w, s + 1, cell) && !covered_upto(
                            metaballs@,
                            w,
                            s,
                            cell,
                        ) {
                            let t: int = choose|t: int|
                                0 <= t < s + 1 && #[trigger] hit(metaballs@[t / 5], t % 5, w, cell);
                            if t < s {
                                assert(covered_upto(metaballs@, w, s, cell));
                            }
                            assert(t == s);
                            assert(0 < w && 0 < h) by (nonlinear_arith)
                                requires
                                    0 <= cell < w * h,
                                    0 <= w,
                                    0 <= h,
                            ;
                            lemma_mod_division_less_than_divisor(cell, w);
                            lemma_div_pos_is_pos(cell, w);
                            let q: int = cell / w;
                            if q >= h {
                                lemma_fundamental_div_mod(cell, w);
                                assert(w * q >= w * h) by (nonlinear_arith)
                                    requires
                                        0 < w,
                                        q >= h,
                                ;
                            }
                            assert(false);
                        }
                    }
                }
            }
            k = k + 1;
            proof {
                assert forall|cell: int| 0 <= cell < w * h implies #[trigger] marked_upto(
                    screenbuffer@,
                    old(screenbuffer)@,
                    metaballs@,
                    w,
                    5 * j + k,
                    cell,
                ) by {
                    assert(marked_upto(
                        screenbuffer@,
                        old(screenbuffer)@,
                        metaballs@,
                        w,
                        s + 1,
                        cell,
                    ));
                }
            }
        }
        let ghost jdone: int = j as int;
        j = j + 1;
        proof {
            assert forall|cell: int| 0 <= cell < w * h implies #[trigger] marked_upto(
                screenbuffer@,
                old(screenbuffer)@,
                metaballs@,
                w,
                5 * j,
                cell,
            ) by {
                assert(marked_upto(
                    screenbuffer@,
                    old(screenbuffer)@,
                    metaballs@,
                    w,
                    5 * jdone + 5,
                    cell,
                ));
            }
        }
    }
    proof {
        assert forall|cell: int| 0 <= cell < w * h implies #[trigger] marked(
            screenbuffer@,
            old(screenbuffer)@,
            metaballs@,
            w,
            cell,
        ) by {
            assert(marked_upto(screenbuffer@, old(screenbuffer)@, metaballs@, w, 5 * j, cell));
        }
    }
}

/// One full render: the classification pass, then the marker overlay when
/// requested. Afterwards the buffer is exactly determined by the
/// classifications, the sources, and the options; see `rendered`.
pub fn render_metaballs(
    screenbuffer: &mut Vec<u8>,
    on: &Vec<bool>,
    metaballs: &MetaballData,
    opts: &RenderOpts,
)
    requires
        on@.len() == metaballs.width * metaballs.height,
        4 * (metaballs.width as int) * (metaballs.height as int) <= usize::MAX,
    ensures
        rendered(final(screenbuffer)@, on@, *metaballs, opts.crosses),
{
    let ghost w: int = metaballs.width as int;
    let ghost h: int = metaballs.height as int;
    render_base(screenbuffer, on, metaballs.width, metaballs.height);
    if opts.crosses {
        let ghost base: Seq<u8> = screenbuffer@;
        draw_cross_markers(screenbuffer, &metaballs.metaballs, metaballs.width, metaballs.height);
        proof {
            assert forall|cell: int| 0 <= cell < w * h implies #[trigger] cell_rendered(
                screenbuffer@,
                on@,
                metaballs.metaballs@,
                true,
                w,
                cell,
            ) by {
                assert(marked(screenbuffer@, base, metaballs.metaballs@, w, cell));
                assert(cell_is(base, cell, base_color(on@[cell])));
            }
        }
    } else {
        proof {
            assert forall|cell: int| 0 <= cell < w * h implies #[trigger] cell_rendered(
                screenbuffer@,
                on@,
                metaballs.metaballs@,
                false,
                w,
                cell,
            ) by {
                assert(cell_is(screenbuffer@, cell, base_color(on@[cell])));
            }
        }
    }
}

/// Rendering the same field, classifications and options twice produces
/// byte-identical buffers: the render contract pins every byte, so the
/// render is deterministic.
pub proof fn lemma_render_deterministic(
    b1: Seq<u8>,
    b2: Seq<u8>,
    on: Seq<bool>,
    data: MetaballData,
    crosses: bool,
)
    requires
        rendered(b1, on, data, crosses),
        rendered(b2, on, data, crosses),
    ensures
        b1 == b2,
{
    let w = data.width as int;
    let h = data.height as int;
    assert forall|i: int| 0 <= i < b1.len() implies b1[i] == b2[i] by {
        lemma_fundamental_div_mod(i, 4);
        lemma_mod_division_less_than_divisor(i, 4);
        let cell: int = i / 4;
        let r: int = i % 4;
        assert(4 * (w * h) == 4 * w * h) by (nonlinear_arith);
        assert(0 <= cell < w * h);
        assert(cell_rendered(b1, on, data.metaballs@, crosses, w, cell));
        assert(cell_rendered(b2, on, data.metaballs@, crosses, w, cell));
        let color = cell_color(on, data.metaballs@, crosses, w, cell);
        if r == 0 {
            assert(b1[i] == color[0] && b2[i] == color[0]);
        } else if r == 1 {
            assert(b1[i] == color[1] && b2[i] == color[1]);
        } else if r == 2 {
            assert(b1[i] == color[2] && b2[i] == color[2]);
        } else {
            assert(b1[i] == color[3] && b2[i] == color[3]);
        }
    }
    assert(b1 =~= b2);
}

/// Toggling the marker overlay on for one render and off again for the
/// next restores a buffer byte-identical to the base render: every render
/// fully overwrites the buffer, so the overlay leaves no residue.
pub proof fn lemma_toggle_markers_restores_base(
    base: Seq<u8>,
    overlaid: Seq<u8>,
    restored: Seq<u8>,
    on: Seq<bool>,
    data: MetaballData,
)
    requires
        rendered(base, on, data, false),
        rendered(overlaid, on, data, true),
        rendered(restored, on, data, false),
    ensures
        restored == base,
{
    lemma_render_deterministic(restored, base, on, data, false);
}

} // verus!
