//! Compositing a rasterised glyph (a coverage bitmap) onto a premultiplied
//! RGBA pixel buffer in one solid colour, with the standard "over"
//! operator, clipped to the buffer.

use vstd::prelude::*;
use vstd::arithmetic::div_mod::{lemma_fundamental_div_mod, lemma_fundamental_div_mod_converse};

verus! {

/// One premultiplied RGBA pixel.
pub type Pixel = (u8, u8, u8, u8);

/// The pixel at position `q` of a byte buffer, four bytes per pixel.
pub open spec fn pixel_at(d: Seq<u8>, q: int) -> Pixel {
    (d[4 * q], d[4 * q + 1], d[4 * q + 2], d[4 * q + 3])
}

/// A premultiplied pixel never has a colour channel above its alpha;
/// this is the check `PremultipliedColorU8::from_rgba` makes.
pub open spec fn premultiplied(p: Pixel) -> bool {
    p.0 <= p.3 && p.1 <= p.3 && p.2 <= p.3
}

/// One channel of `src` drawn over `dst` with coverage `cov` (0..=255).
pub open spec fn over_channel(src: u8, dst: u8, cov: u8) -> u8 {
    ((src * cov + dst * (255 - cov)) / 255) as u8
}

/// A solid colour `rgb` drawn over `dst` with coverage `cov`.
pub open spec fn over(rgb: (u8, u8, u8), cov: u8, dst: Pixel) -> Pixel {
    (
        over_channel(rgb.0, dst.0, cov),
        over_channel(rgb.1, dst.1, cov),
        over_channel(rgb.2, dst.2, cov),
        over_channel(255, dst.3, cov),
    )
}

/// The coverage the glyph, placed with its top-left corner at `(x0, y0)`,
/// gives pixel `(x, y)`: zero outside the glyph's `w` x `h` box.
pub open spec fn coverage_at(
    bitmap: Seq<u8>,
    w: int,
    h: int,
    x0: int,
    y0: int,
    x: int,
    y: int,
) -> u8 {
    let c = x - x0;
    let r = y - y0;
    if 0 <= r < h && 0 <= c < w {
        bitmap[r * w + c]
    } else {
        0
    }
}

/// A pixel after the glyph is drawn over it: unchanged where the glyph
/// does not cover it, or where the result would not be a valid
/// premultiplied colour.
pub open spec fn blitted(dst: Pixel, cov: u8, rgb: (u8, u8, u8)) -> Pixel {
    if cov == 0 {
        dst
    } else if premultiplied(over(rgb, cov, dst)) {
        over(rgb, cov, dst)
    } else {
        dst
    }
}

/// Drawing over a valid premultiplied pixel always gives one: the
/// validity check never drops a write.
pub proof fn lemma_over_keeps_premultiplied(rgb: (u8, u8, u8), cov: u8, dst: Pixel)
    requires
        premultiplied(dst),
    ensures
        premultiplied(over(rgb, cov, dst)),
{
    let inv = 255 - cov;
    assert(rgb.0 * cov + dst.0 * inv <= 255 * cov + dst.3 * inv) by (nonlinear_arith)
        requires
            rgb.0 <= 255,
            dst.0 <= dst.3,
            0 <= cov <= 255,
            inv == 255 - cov,
    ;
    assert(rgb.1 * cov + dst.1 * inv <= 255 * cov + dst.3 * inv) by (nonlinear_arith)
        requires
            rgb.1 <= 255,
            dst.1 <= dst.3,
            0 <= cov <= 255,
            inv == 255 - cov,
    ;
    assert(rgb.2 * cov + dst.2 * inv <= 255 * cov + dst.3 * inv) by (nonlinear_arith)
        requires
            rgb.2 <= 255,
            dst.2 <= dst.3,
            0 <= cov <= 255,
            inv == 255 - cov,
    ;
    lemma_channel_in_range(rgb.0, dst.0, cov);
    lemma_channel_in_range(rgb.1, dst.1, cov);
    lemma_channel_in_range(rgb.2, dst.2, cov);
    lemma_channel_in_range(255, dst.3, cov);
    lemma_div_monotone(rgb.0 * cov + dst.0 * inv, 255 * cov + dst.3 * inv);
    lemma_div_monotone(rgb.1 * cov + dst.1 * inv, 255 * cov + dst.3 * inv);
    lemma_div_monotone(rgb.2 * cov + dst.2 * inv, 255 * cov + dst.3 * inv);
}

proof fn lemma_div_monotone(a: int, b: int)
    requires
        0 <= a <= b,
    ensures
        a / 255 <= b / 255,
{
    vstd::arithmetic::div_mod::lemma_div_is_ordered(a, b, 255);
}

/// A blended channel stays within 0..=255, so storing it in a byte loses
/// nothing.
pub proof fn lemma_channel_in_range(src: u8, dst: u8, cov: u8)
    ensures
        0 <= src * cov + dst * (255 - cov) <= 255 * 255,
        (src * cov + dst * (255 - cov)) / 255 <= 255,
        over_channel(src, dst, cov) == (src * cov + dst * (255 - cov)) / 255,
{
    assert(0 <= src * cov + dst * (255 - cov) <= 255 * 255) by (nonlinear_arith)
        requires
            src <= 255,
            dst <= 255,
            cov <= 255,
    ;
    assert((src * cov + dst * (255 - cov)) / 255 <= 255) by (nonlinear_arith)
        requires
            0 <= src * cov + dst * (255 - cov) <= 255 * 255,
    ;
}

fn over_channel_exec(src: u8, dst: u8, cov: u8) -> (r: u8)
    ensures
        r == over_channel(src, dst, cov),
{
    proof {
        lemma_channel_in_range(src, dst, cov);
    }
    let cov32 = cov as u32;
    let inv = 255 - cov32;
    assert((src as u32) * cov32 <= 255 * 255) by (nonlinear_arith)
        requires
            src <= 255,
            cov32 <= 255,
    ;
    assert((dst as u32) * inv <= 255 * 255) by (nonlinear_arith)
        requires
            dst <= 255,
            inv <= 255,
    ;
    (((src as u32) * cov32 + (dst as u32) * inv) / 255) as u8
}

proof fn lemma_coords(q: int, pw: int, ph: int)
    requires
        0 <= q < pw * ph,
        0 < pw,
    ensures
        0 <= q % pw < pw,
        0 <= q / pw < ph,
        q == pw * (q / pw) + q % pw,
{
    lemma_fundamental_div_mod(q, pw);
    vstd::arithmetic::div_mod::lemma_mod_bound(q, pw);
    vstd::arithmetic::div_mod::lemma_div_pos_is_pos(q, pw);
    assert(q / pw < ph) by (nonlinear_arith)
        requires
            q == pw * (q / pw) + q % pw,
            0 <= q % pw,
            q < pw * ph,
            0 < pw,
    ;
}

/// Whether pixel `q` has been visited once the rows before `row`, and the
/// first `col` columns of `row`, have been drawn.
pub open spec fn visited(q: int, pw: int, x0: int, y0: int, w: int, row: int, col: int) -> bool {
    let c = q % pw - x0;
    let r = q / pw - y0;
    (0 <= r < row && 0 <= c < w) || (r == row && 0 <= c < col)
}

/// The buffer `d` after the glyph is drawn: every pixel blitted.
pub open spec fn glyph_drawn(
    old: Seq<u8>,
    d: Seq<u8>,
    pw: int,
    ph: int,
    bitmap: Seq<u8>,
    w: int,
    h: int,
    x0: int,
    y0: int,
    rgb: (u8, u8, u8),
) -> bool {
    &&& d.len() == old.len()
    &&& forall|q: int|
        0 <= q < pw * ph ==> #[trigger] pixel_at(d, q) == blitted(
            pixel_at(old, q),
            coverage_at(bitmap, w, h, x0, y0, q % pw, q / pw),
            rgb,
        )
}

/// Alpha-composites a coverage bitmap of `w` x `h` (row-major) in colour
/// `rgb` onto a `pw` x `ph` premultiplied RGBA buffer, the bitmap's
/// top-left corner at `(x0, y0)`; pixels outside the buffer are clipped.
pub fn blit_glyph(
    data: &mut [u8],
    pw: i32,
    ph: i32,
    bitmap: &[u8],
    w: usize,
    h: usize,
    x0: i32,
    y0: i32,
    rgb: (u8, u8, u8),
)
    requires
        0 <= pw,
        0 <= ph,
        pw * ph <= i32::MAX,
        old(data)@.len() == 4 * pw * ph,
        w * h <= bitmap@.len(),
        w <= i32::MAX,
        h <= i32::MAX,
        w > 0 && h > 0 ==> x0 + w - 1 <= i32::MAX && y0 + h - 1 <= i32::MAX,
    ensures
        glyph_drawn(
            old(data)@,
            final(data)@,
            pw as int,
            ph as int,
            bitmap@,
            w as int,
            h as int,
            x0 as int,
            y0 as int,
            rgb,
        ),
{
    let ghost old_d = data@;
    let ghost npix = pw * ph;
    let ghost bm = bitmap@;
    if w == 0 || h == 0 || pw == 0 {
        proof {
            assert forall|q: int| 0 <= q < pw * ph implies #[trigger] pixel_at(data@, q) == blitted(
                pixel_at(old_d, q),
                coverage_at(bm, w as int, h as int, x0 as int, y0 as int, q % (pw as int), q / (pw as int)),
                rgb,
            ) by {
                assert(pw != 0);
            }
        }
        return;
    }
    let blen = bitmap.len();
    let dlen = data.len();
    assert(4 * pw * ph == 4 * (pw * ph)) by (nonlinear_arith);
    let hi = h as i32;
    let wi = w as i32;
    let mut row: i32 = 0;
    while row < hi
        invariant
            0 < pw,
            0 <= ph,
            pw * ph <= i32::MAX,
            npix == pw * ph,
            data@.len() == old_d.len(),
            old_d.len() == 4 * npix,
            bm == bitmap@,
            blen == bm.len(),
            dlen == old_d.len(),
            w * h <= bm.len(),
            0 < w <= i32::MAX,
            0 < h <= i32::MAX,
            hi == h,
            wi == w,
            x0 + w - 1 <= i32::MAX,
            y0 + h - 1 <= i32::MAX,
            0 <= row <= hi,
            forall|q: int|
                0 <= q < npix ==> #[trigger] pixel_at(data@, q) == (if visited(
                    q,
                    pw as int,
                    x0 as int,
                    y0 as int,
                    w as int,
                    row as int,
                    0,
                ) {
                    blitted(
                        pixel_at(old_d, q),
                        coverage_at(bm, w as int, h as int, x0 as int, y0 as int, q % (pw as int), q / (pw as int)),
                        rgb,
                    )
                } else {
                    pixel_at(old_d, q)
                }),
        decreases hi - row,
    {
        let py = y0 + row;
        if py < 0 || py >= ph {
            proof {
                assert forall|q: int| 0 <= q < npix implies visited(q, pw as int, x0 as int, y0 as int, w as int, row + 1, 0)
                    == visited(q, pw as int, x0 as int, y0 as int, w as int, row as int, 0) by {
                    lemma_coords(q, pw as int, ph as int);
                }
                assert forall|q: int| 0 <= q < npix implies #[trigger] pixel_at(data@, q) == (if visited(
                    q, pw as int, x0 as int, y0 as int, w as int, row + 1, 0) {
                    blitted(
                        pixel_at(old_d, q),
                        coverage_at(bm, w as int, h as int, x0 as int, y0 as int, q % (pw as int), q / (pw as int)),
                        rgb,
                    )
                } else {
                    pixel_at(old_d, q)
                }) by {
                    assert(visited(q, pw as int, x0 as int, y0 as int, w as int, row + 1, 0)
                        == visited(q, pw as int, x0 as int, y0 as int, w as int, row as int, 0));
                }
            }
            row = row + 1;
            continue;
        }
        let mut col: i32 = 0;
        while col < wi
            invariant
                0 < pw,
                0 <= ph,
                pw * ph <= i32::MAX,
                npix == pw * ph,
                data@.len() == old_d.len(),
                old_d.len() == 4 * npix,
                bm == bitmap@,
                blen == bm.len(),
                dlen == old_d.len(),
                w * h <= bm.len(),
                0 < w <= i32::MAX,
                0 < h <= i32::MAX,
                hi == h,
                wi == w,
                x0 + w - 1 <= i32::MAX,
                0 <= row < hi,
                py == y0 + row,
                0 <= py < ph,
                0 <= col <= wi,
                forall|q: int|
                    0 <= q < npix ==> #[trigger] pixel_at(data@, q) == (if visited(
                        q,
                        pw as int,
                        x0 as int,
                        y0 as int,
                        w as int,
                        row as int,
                        col as int,
                    ) {
                        blitted(
                            pixel_at(old_d, q),
                            coverage_at(bm, w as int, h as int, x0 as int, y0 as int, q % (pw as int), q / (pw as int)),
                            rgb,
                        )
                    } else {
                        pixel_at(old_d, q)
                    }),
            decreases wi - col,
        {
            let ghost before = data@;
            let px = x0 + col;
            let ghost row_i = row as int;
            let ghost col_i = col as int;
            if px >= 0 && px < pw {
                assert((row as int) * (w as int) + (col as int) < (w as int) * (h as int)) by (nonlinear_arith)
                    requires 0 <= row < h, 0 <= col < w;
                let cov = bitmap[row as usize * w + col as usize];
                assert(0 <= (py as int) * (pw as int) + (px as int) < (pw as int) * (ph as int)) by (nonlinear_arith)
                    requires 0 <= py < ph, 0 <= px < pw;
                let idx = (py * pw + px) as usize;
                proof {
                    lemma_fundamental_div_mod_converse(idx as int, pw as int, py as int, px as int);
                }
                if cov != 0 {
                    let base = 4 * idx;
                    let dst: Pixel = (data[base], data[base + 1], data[base + 2], data[base + 3]);
                    proof {
                        assert(dst == pixel_at(before, idx as int));
                        assert(!visited(idx as int, pw as int, x0 as int, y0 as int, w as int, row as int, col as int));
                    }
                    let o_r = over_channel_exec(rgb.0, dst.0, cov);
                    let o_g = over_channel_exec(rgb.1, dst.1, cov);
                    let o_b = over_channel_exec(rgb.2, dst.2, cov);
                    let o_a = over_channel_exec(255, dst.3, cov);
                    if o_r <= o_a && o_g <= o_a && o_b <= o_a {
                        data[base] = o_r;
                        data[base + 1] = o_g;
                        data[base + 2] = o_b;
                        data[base + 3] = o_a;
                    }
                }
                proof {
                    assert forall|q: int| 0 <= q < npix implies #[trigger] pixel_at(data@, q) == (if visited(
                        q, pw as int, x0 as int, y0 as int, w as int, row_i, col_i + 1) {
                        blitted(
                            pixel_at(old_d, q),
                            coverage_at(bm, w as int, h as int, x0 as int, y0 as int, q % (pw as int), q / (pw as int)),
                            rgb,
                        )
                    } else {
                        pixel_at(old_d, q)
                    }) by {
                        lemma_coords(q, pw as int, ph as int);
                        if q == idx {
                            assert(coverage_at(bm, w as int, h as int, x0 as int, y0 as int, q % (pw as int), q / (pw as int)) == cov);
                        } else {
                            assert(pixel_at(data@, q) == pixel_at(before, q));
                            if q / (pw as int) == py && q % (pw as int) == px {
                                let qd = q / (pw as int);
                                let qm = q % (pw as int);
                                assert(q == idx) by (nonlinear_arith)
                                    requires
                                        q == (pw as int) * qd + qm,
                                        qd == py as int,
                                        qm == px as int,
                                        idx as int == (py as int) * (pw as int) + (px as int),
                                ;
                            }
                        }
                    }
                }
            } else {
                proof {
                    assert forall|q: int| 0 <= q < npix implies #[trigger] pixel_at(data@, q) == (if visited(
                        q, pw as int, x0 as int, y0 as int, w as int, row_i, col_i + 1) {
                        blitted(
                            pixel_at(old_d, q),
                            coverage_at(bm, w as int, h as int, x0 as int, y0 as int, q % (pw as int), q / (pw as int)),
                            rgb,
                        )
                    } else {
                        pixel_at(old_d, q)
                    }) by {
                        lemma_coords(q, pw as int, ph as int);
                    }
                }
            }
            col = col + 1;
        }
        proof {
            assert forall|q: int| 0 <= q < npix implies #[trigger] pixel_at(data@, q) == (if visited(
                q, pw as int, x0 as int, y0 as int, w as int, row + 1, 0) {
                blitted(
                    pixel_at(old_d, q),
                    coverage_at(bm, w as int, h as int, x0 as int, y0 as int, q % (pw as int), q / (pw as int)),
                    rgb,
                )
            } else {
                pixel_at(old_d, q)
            }) by {
                assert(visited(q, pw as int, x0 as int, y0 as int, w as int, row + 1, 0)
                    == visited(q, pw as int, x0 as int, y0 as int, w as int, row as int, w as int));
            }
        }
        row = row + 1;
    }
    proof {
        assert forall|q: int| 0 <= q < pw * ph implies #[trigger] pixel_at(data@, q) == blitted(
            pixel_at(old_d, q),
            coverage_at(bm, w as int, h as int, x0 as int, y0 as int, q % (pw as int), q / (pw as int)),
            rgb,
        ) by {
            let c = q % (pw as int) - x0;
            let r = q / (pw as int) - y0;
            if !(0 <= r < h && 0 <= c < w) {
                assert(coverage_at(bm, w as int, h as int, x0 as int, y0 as int, q % (pw as int), q / (pw as int)) == 0);
            }
        }
    }
}


/// What drawing a glyph does to the buffer pixel in column `x` and row `y`:
/// outside the glyph's `w` x `h` box it is untouched; inside, the bitmap
/// is read row-major, `w` cells to a row, so the pixel takes coverage
/// `bitmap[(y - y0) * w + (x - x0)]`. A cell of 0 leaves the pixel as it
/// was, a cell of 255 paints it solid `rgb` (fully opaque), and in general
/// a valid pixel becomes `rgb` drawn over it with that coverage.
pub proof fn lemma_glyph_pixel(
    old: Seq<u8>,
    d: Seq<u8>,
    pw: int,
    ph: int,
    bitmap: Seq<u8>,
    w: int,
    h: int,
    x0: int,
    y0: int,
    rgb: (u8, u8, u8),
    x: int,
    y: int,
)
    requires
        glyph_drawn(old, d, pw, ph, bitmap, w, h, x0, y0, rgb),
        0 <= x < pw,
        0 <= y < ph,
    ensures
        !(x0 <= x < x0 + w && y0 <= y < y0 + h) ==> pixel_at(d, y * pw + x) == pixel_at(old, y * pw + x),
        x0 <= x < x0 + w && y0 <= y < y0 + h && bitmap[(y - y0) * w + (x - x0)] == 0 ==> pixel_at(
            d,
            y * pw + x,
        ) == pixel_at(old, y * pw + x),
        x0 <= x < x0 + w && y0 <= y < y0 + h && bitmap[(y - y0) * w + (x - x0)] == 255 && premultiplied(
            pixel_at(old, y * pw + x),
        ) ==> pixel_at(d, y * pw + x) == (rgb.0, rgb.1, rgb.2, 255u8),
        x0 <= x < x0 + w && y0 <= y < y0 + h && premultiplied(pixel_at(old, y * pw + x)) ==> pixel_at(
            d,
            y * pw + x,
        ) == over(rgb, bitmap[(y - y0) * w + (x - x0)], pixel_at(old, y * pw + x)),
{
    let q = y * pw + x;
    lemma_fundamental_div_mod_converse(q, pw, y, x);
    assert(0 <= q < pw * ph) by (nonlinear_arith)
        requires
            q == y * pw + x,
            0 <= x < pw,
            0 <= y < ph,
    ;
    assert(pixel_at(d, q) == blitted(pixel_at(old, q), coverage_at(bitmap, w, h, x0, y0, x, y), rgb));
    let o = pixel_at(old, q);
    if premultiplied(o) {
        let cov = coverage_at(bitmap, w, h, x0, y0, x, y);
        lemma_over_keeps_premultiplied(rgb, cov, o);
        if cov == 255 {
            lemma_channel_in_range(rgb.0, o.0, cov);
            lemma_channel_in_range(rgb.1, o.1, cov);
            lemma_channel_in_range(rgb.2, o.2, cov);
            lemma_channel_in_range(255, o.3, cov);
            assert(over(rgb, cov, o) == (rgb.0, rgb.1, rgb.2, 255u8));
        }
        if cov == 0 {
            lemma_over_transparent(rgb.0, o.0);
            lemma_over_transparent(rgb.1, o.1);
            lemma_over_transparent(rgb.2, o.2);
            lemma_over_transparent(255, o.3);
            assert(over(rgb, cov, o) == o);
        }
    }
}


proof fn lemma_over_transparent(src: u8, dst: u8)
    ensures
        over_channel(src, dst, 0) == dst,
{
    assert((src * 0 + dst * (255 - 0)) / 255 == dst) by (nonlinear_arith);
}

} // verus!
