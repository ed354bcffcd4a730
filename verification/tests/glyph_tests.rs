use flyover::glyph::blit_glyph;

fn buffer(w: usize, h: usize, px: [u8; 4]) -> Vec<u8> {
    let mut v = Vec::new();
    for _ in 0..w * h {
        v.extend_from_slice(&px);
    }
    v
}

fn pixel(d: &[u8], w: usize, x: usize, y: usize) -> [u8; 4] {
    let i = 4 * (y * w + x);
    [d[i], d[i + 1], d[i + 2], d[i + 3]]
}

#[test]
fn full_coverage_paints_the_colour() {
    let mut d = buffer(3, 3, [0, 0, 0, 255]);
    blit_glyph(&mut d, 3, 3, &[255], 1, 1, 1, 1, (10, 200, 30));
    assert_eq!(pixel(&d, 3, 1, 1), [10, 200, 30, 255]);
    assert_eq!(pixel(&d, 3, 0, 0), [0, 0, 0, 255]);
    assert_eq!(pixel(&d, 3, 2, 2), [0, 0, 0, 255]);
}

#[test]
fn partial_coverage_blends_over() {
    let mut d = buffer(1, 1, [0, 0, 0, 255]);
    blit_glyph(&mut d, 1, 1, &[128], 1, 1, 0, 0, (255, 255, 255));
    // (255 * 128 + 0 * 127) / 255 = 128; alpha (128 * 255 + 255 * 127) / 255 = 255
    assert_eq!(pixel(&d, 1, 0, 0), [128, 128, 128, 255]);
    let mut d = buffer(1, 1, [0, 0, 0, 0]);
    blit_glyph(&mut d, 1, 1, &[51], 1, 1, 0, 0, (255, 0, 0));
    assert_eq!(pixel(&d, 1, 0, 0), [51, 0, 0, 51]);
}

#[test]
fn zero_coverage_and_clipping_leave_pixels() {
    let mut d = buffer(2, 2, [1, 2, 3, 4]);
    let bitmap = [0, 255, 255, 255];
    // Glyph placed one pixel up and left: only its bottom-right cell lands.
    blit_glyph(&mut d, 2, 2, &bitmap, 2, 2, -1, -1, (9, 9, 9));
    assert_eq!(pixel(&d, 2, 0, 0), [9, 9, 9, 255]);
    assert_eq!(pixel(&d, 2, 1, 0), [1, 2, 3, 4]);
    assert_eq!(pixel(&d, 2, 0, 1), [1, 2, 3, 4]);
    assert_eq!(pixel(&d, 2, 1, 1), [1, 2, 3, 4]);
    let mut e = buffer(2, 2, [1, 2, 3, 4]);
    blit_glyph(&mut e, 2, 2, &[0, 0, 0, 0], 2, 2, 0, 0, (9, 9, 9));
    assert_eq!(e, buffer(2, 2, [1, 2, 3, 4]));
    blit_glyph(&mut e, 2, 2, &bitmap, 2, 2, 5, 5, (9, 9, 9));
    assert_eq!(e, buffer(2, 2, [1, 2, 3, 4]));
}

#[test]
fn invalid_destination_is_left_alone() {
    // A destination with a channel above its alpha can blend to a colour
    // that is not premultiplied; such a write is dropped.
    let mut d = buffer(1, 1, [200, 0, 0, 10]);
    blit_glyph(&mut d, 1, 1, &[1], 1, 1, 0, 0, (0, 0, 0));
    assert_eq!(pixel(&d, 1, 0, 0), [200, 0, 0, 10]);
}
