use vstd::prelude::*;

verus! {

/// What the classifier decided for one pixel: a directional glyph, or a fall
/// through to the pixel's luminance level.
#[derive(Clone, Copy, Debug, PartialEq, Eq)]
pub enum PixelClass {
    Edge(char),
    Luminance(u8),
}

/// Squared gradient magnitude.
pub open spec fn mag_sq(gx: int, gy: int) -> int {
    gx * gx + gy * gy
}

/// `sqrt(gx^2 + gy^2) > 0.3 * sqrt(max_sq)`, squared and scaled to integers.
pub open spec fn fires(gx: int, gy: int, max_sq: int) -> bool {
    100 * mag_sq(gx, gy) > 9 * max_sq
}

/// The glyph of the edge orientation of gradient `(gx, gy)`.
///
/// The normalized angle `atan2(gy, gx) / (2 pi) + 1/2` falls into one of eight
/// arcs of width 1/8 starting at 0, read cyclically as `| / - \ | / - \`; an
/// angle of exactly 1 reads `'|'`. Opposite arcs carry the same glyph, so the
/// vector is folded into the upper half plane (`v >= 0`, and `u > 0` when
/// `v == 0`), where the arcs start at angles 0, `pi / 4`, `pi / 2` and
/// `3 pi / 4`: the lines `v == u`, `u == 0` and `v == -u`.
pub open spec fn edge_glyph(gx: int, gy: int) -> char {
    let flip = gy < 0 || (gy == 0 && gx < 0);
    let u = if flip { -gx } else { gx };
    let v = if flip { -gy } else { gy };
    if gx == 0 && gy == 0 {
        '|'
    } else if v < u {
        '|'
    } else if 0 < u {
        '/'
    } else if -u < v {
        '-'
    } else {
        '\\'
    }
}

/// The classification of a pixel with gradient `(gx, gy)` and level `lum`,
/// against the largest squared magnitude `max_sq` of the image.
pub open spec fn classify_spec(gx: int, gy: int, max_sq: int, lum: u8) -> PixelClass {
    if fires(gx, gy, max_sq) {
        PixelClass::Edge(edge_glyph(gx, gy))
    } else {
        PixelClass::Luminance(lum)
    }
}

/// Largest squared magnitude over the first `n` entries of the two fields.
pub open spec fn max_mag_sq(gx: Seq<i16>, gy: Seq<i16>, n: int) -> int
    decreases n,
{
    if n <= 0 {
        0
    } else {
        let rest = max_mag_sq(gx, gy, n - 1);
        let here = mag_sq(gx[n - 1] as int, gy[n - 1] as int);
        if here > rest {
            here
        } else {
            rest
        }
    }
}

/// Classifies one pixel.
pub fn classify(gx: i16, gy: i16, max_sq: u64, lum: u8) -> (r: PixelClass)
    ensures
        r == classify_spec(gx as int, gy as int, max_sq as int, lum),
{
    let x = gx as i64;
    let y = gy as i64;
    proof {
        assert(x * x <= 32768 * 32768 && y * y <= 32768 * 32768 && x * x >= 0 && y * y >= 0)
            by (nonlinear_arith)
            requires
                -32768 <= x <= 32767,
                -32768 <= y <= 32767,
        ;
    }
    let m = (x * x + y * y) as u128;
    if 100 * m > 9 * (max_sq as u128) {
        PixelClass::Edge(orientation(gx, gy))
    } else {
        PixelClass::Luminance(lum)
    }
}

/// The glyph of the edge orientation of gradient `(gx, gy)`.
pub fn orientation(gx: i16, gy: i16) -> (r: char)
    ensures
        r == edge_glyph(gx as int, gy as int),
{
    let flip = gy < 0 || (gy == 0 && gx < 0);
    let u: i32 = if flip { -(gx as i32) } else { gx as i32 };
    let v: i32 = if flip { -(gy as i32) } else { gy as i32 };
    if gx == 0 && gy == 0 {
        '|'
    } else if v < u {
        '|'
    } else if 0 < u {
        '/'
    } else if -u < v {
        '-'
    } else {
        '\\'
    }
}

/// The largest squared gradient magnitude over a `width` by `height` field.
pub fn max_magnitude_func(gx: &Vec<i16>, gy: &Vec<i16>, height: u32, width: u32) -> (r: u64)
    requires
        gx@.len() == width as int * height as int,
        gy@.len() == width as int * height as int,
    ensures
        r == max_mag_sq(gx@, gy@, width as int * height as int),
{
    let n = gx.len();
    let mut best: u64 = 0;
    let mut i: usize = 0;
    while i < n
        invariant
            n == gx@.len(),
            gy@.len() == n,
            i <= n,
            best == max_mag_sq(gx@, gy@, i as int),
            best <= 2 * 32768 * 32768,
        decreases n - i,
    {
        let x = gx[i] as i64;
        let y = gy[i] as i64;
        proof {
            assert(0 <= x * x <= 32768 * 32768 && 0 <= y * y <= 32768 * 32768)
                by (nonlinear_arith)
                requires
                    -32768 <= x <= 32767,
                    -32768 <= y <= 32767,
            ;
        }
        let here = (x * x + y * y) as u64;
        if here > best {
            best = here;
        }
        i = i + 1;
    }
    best
}

/// With a zero threshold every nonzero gradient is an edge.
pub proof fn lemma_zero_threshold_fires(gx: int, gy: int, lum: u8)
    requires
        gx != 0 || gy != 0,
    ensures
        classify_spec(gx, gy, 0, lum) is Edge,
{
    assert(gx * gx + gy * gy > 0) by (nonlinear_arith)
        requires
            gx != 0 || gy != 0,
    ;
}

/// A zero gradient is never an edge, whatever the threshold.
pub proof fn lemma_zero_gradient_falls_through(max_sq: int, lum: u8)
    requires
        max_sq >= 0,
    ensures
        classify_spec(0, 0, max_sq, lum) == PixelClass::Luminance(lum),
{
}

/// A purely horizontal gradient is a vertical edge.
pub proof fn lemma_horizontal_gradient_is_vertical_edge(gx: int)
    requires
        gx != 0,
    ensures
        edge_glyph(gx, 0) == '|',
{
}

} // verus!
