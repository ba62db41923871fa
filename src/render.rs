use vstd::prelude::*;
use crate::pattern::AsciiPattern;
use crate::quantize::{
    Gamma, MAX_RAMP_LEN, glyph_at, level_glyph, shaped_index, quantizer, quantize_linear,
    pick_glyph, lemma_index_in_ramp, lemma_index_ends, lemma_index_monotone,
    lemma_invert_is_reverse,
};
use crate::edge::{PixelClass, classify, classify_spec, max_mag_sq, max_magnitude_func};
use crate::raster::{
    GrayImage, RgbImage, luma_of, sobel_x_at, sobel_y_at, at_least_one, grayscale, resize_fit,
    horizontal_sobel, vertical_sobel,
};

verus! {

/// The factor by which the orchestrator shrinks each side of the input.
pub const DEFAULT_DOWNSCALE: u32 = 4;

/// Denominator of the color luminance `(2126 r + 7152 g + 722 b) / (255 * 10000)`.
pub const COLOR_LUM_DEN: u32 = 2550000;

/// How one image is rendered.
#[derive(Clone, Copy, Debug, PartialEq, Eq)]
pub struct RenderConfig {
    pub pattern: AsciiPattern,
    pub color: bool,
    pub invert: bool,
    pub edge_detect: bool,
    pub brighten: bool,
    /// The image is shrunk to fit within its sides divided by this.
    pub downscale: u32,
}

impl RenderConfig {
    /// The default configuration for a ramp: plain text at quarter size.
    pub fn new(pattern: AsciiPattern) -> (r: RenderConfig)
        ensures
            r == (RenderConfig {
                pattern,
                color: false,
                invert: false,
                edge_detect: false,
                brighten: false,
                downscale: DEFAULT_DOWNSCALE,
            }),
    {
        RenderConfig {
            pattern,
            color: false,
            invert: false,
            edge_detect: false,
            brighten: false,
            downscale: DEFAULT_DOWNSCALE,
        }
    }
}

/// The first `x` cells of row `y`, concatenated.
pub open spec fn row_text(cells: Seq<Seq<char>>, w: int, y: int, x: int) -> Seq<char>
    decreases x,
{
    if x <= 0 {
        Seq::empty()
    } else {
        row_text(cells, w, y, x - 1) + cells[y * w + x - 1]
    }
}

/// The first `y` rows, each followed by the row terminator `sep`.
pub open spec fn grid_text(cells: Seq<Seq<char>>, w: int, y: int, sep: Seq<char>) -> Seq<char>
    decreases y,
{
    if y <= 0 {
        Seq::empty()
    } else {
        grid_text(cells, w, y - 1, sep) + row_text(cells, w, y - 1, w) + sep
    }
}

/// The decimal digits of `n`.
pub open spec fn decimal(n: nat) -> Seq<char>
    decreases n,
{
    if n < 10 {
        seq![digit(n)]
    } else {
        decimal(n / 10) + seq![digit(n % 10)]
    }
}

pub open spec fn digit(d: nat) -> char {
    seq!['0', '1', '2', '3', '4', '5', '6', '7', '8', '9'][d as int]
}

/// `<span style="color: rgb(R, G, B)">GLYPH</span>`
pub open spec fn span_text(r: u8, g: u8, b: u8, glyph: char) -> Seq<char> {
    "<span style=\"color: rgb("@ + decimal(r as nat) + ", "@ + decimal(g as nat) + ", "@
        + decimal(b as nat) + ")\">"@ + seq![glyph] + "</span>"@
}

/// The glyph of a color pixel: its linear BT.709 luminance, quantized.
pub open spec fn color_glyph(r: u8, g: u8, b: u8, ramp: Seq<char>, invert: bool) -> char {
    let num = 2126 * r as int + 7152 * g as int + 722 * b as int;
    glyph_at(ramp, shaped_index(num, COLOR_LUM_DEN as int, 1, 1, ramp.len() - 1), invert)
}

pub open spec fn plain_cells(px: Seq<u8>, ramp: Seq<char>, invert: bool) -> Seq<Seq<char>> {
    Seq::new(px.len(), |i: int| seq![level_glyph(px[i] as int, Gamma::Standard, ramp, invert)])
}

pub open spec fn color_cells(px: Seq<u8>, n: int, ramp: Seq<char>, invert: bool) -> Seq<
    Seq<char>,
> {
    Seq::new(
        n as nat,
        |i: int|
            span_text(
                px[3 * i],
                px[3 * i + 1],
                px[3 * i + 2],
                color_glyph(px[3 * i], px[3 * i + 1], px[3 * i + 2], ramp, invert),
            ),
    )
}

/// The gamma of the luminance fall-through in edge mode.
pub open spec fn fallback_gamma(brighten: bool) -> Gamma {
    if brighten {
        Gamma::Linear
    } else {
        Gamma::Square
    }
}

pub open spec fn sobel_x_field(w: int, h: int, px: Seq<u8>) -> Seq<i16> {
    Seq::new((w * h) as nat, |i: int| sobel_x_at(w, h, px, i % w, i / w) as i16)
}

pub open spec fn sobel_y_field(w: int, h: int, px: Seq<u8>) -> Seq<i16> {
    Seq::new((w * h) as nat, |i: int| sobel_y_at(w, h, px, i % w, i / w) as i16)
}

pub open spec fn edge_cell(
    class: PixelClass,
    ramp: Seq<char>,
    invert: bool,
    brighten: bool,
) -> Seq<char> {
    match class {
        PixelClass::Edge(c) => seq![c],
        PixelClass::Luminance(l) => seq![
            level_glyph(l as int, fallback_gamma(brighten), ramp, invert),
        ],
    }
}

pub open spec fn edge_cells(
    w: int,
    h: int,
    px: Seq<u8>,
    ramp: Seq<char>,
    invert: bool,
    brighten: bool,
) -> Seq<Seq<char>> {
    let gx = sobel_x_field(w, h, px);
    let gy = sobel_y_field(w, h, px);
    let max_sq = max_mag_sq(gx, gy, w * h);
    Seq::new(
        (w * h) as nat,
        |i: int|
            edge_cell(
                classify_spec(gx[i] as int, gy[i] as int, max_sq, px[i]),
                ramp,
                invert,
                brighten,
            ),
    )
}

/// Plain text of a grayscale image: one glyph per pixel, rows ended by `'\n'`.
pub open spec fn plain_text(img: GrayImage, ramp: Seq<char>, invert: bool) -> Seq<char> {
    grid_text(
        plain_cells(img.pixels@, ramp, invert),
        img.width as int,
        img.height as int,
        seq!['\n'],
    )
}

/// Markup of a color image: one colored span per pixel, rows ended by `<br>`.
pub open spec fn color_text(img: RgbImage, ramp: Seq<char>, invert: bool) -> Seq<char> {
    let n = img.width as int * img.height as int;
    grid_text(color_cells(img.pixels@, n, ramp, invert), img.width as int, img.height as int, "<br>"@)
}

/// Edge-aware text of a grayscale image, rows ended by `'\n'`.
pub open spec fn edge_text(img: GrayImage, ramp: Seq<char>, invert: bool, brighten: bool) -> Seq<
    char,
> {
    grid_text(
        edge_cells(img.width as int, img.height as int, img.pixels@, ramp, invert, brighten),
        img.width as int,
        img.height as int,
        seq!['\n'],
    )
}

pub open spec fn gray_pixels(px: Seq<u8>, n: int) -> Seq<u8> {
    Seq::new(n as nat, |i: int| luma_of(px[3 * i], px[3 * i + 1], px[3 * i + 2]) as u8)
}

/// The rendering of an already shrunk color image: the edge, color or plain
/// variant, in that priority.
pub open spec fn render_spec(img: RgbImage, config: RenderConfig) -> Seq<char> {
    let w = img.width as int;
    let h = img.height as int;
    let ramp = config.pattern.ramp();
    let gray = gray_pixels(img.pixels@, w * h);
    if config.edge_detect {
        grid_text(edge_cells(w, h, gray, ramp, config.invert, config.brighten), w, h, seq!['\n'])
    } else if config.color {
        grid_text(color_cells(img.pixels@, w * h, ramp, config.invert), w, h, "<br>"@)
    } else {
        grid_text(plain_cells(gray, ramp, config.invert), w, h, seq!['\n'])
    }
}

/// `small` is what shrinking a `width` by `height` image by `downscale` may
/// give: it fits within the reduced sides (each at least 1) and keeps at
/// least one pixel per side of a non-empty image.
pub open spec fn shrunk_from(small: RgbImage, width: u32, height: u32, downscale: u32) -> bool {
    &&& small.wf()
    &&& small.width <= at_least_one(width / downscale)
    &&& small.height <= at_least_one(height / downscale)
    &&& width > 0 && height > 0 ==> small.width >= 1 && small.height >= 1
}

/// Relies on std's `String: FromIterator<&char>`: the string of the
/// characters, in order.
#[verifier::external_body]
pub(crate) fn string_of(chars: &Vec<char>) -> (r: String)
    ensures
        r@ == chars@,
{
    chars.iter().collect()
}

fn push_all(out: &mut Vec<char>, s: &Vec<char>)
    ensures
        final(out)@ == old(out)@ + s@,
{
    let mut j: usize = 0;
    while j < s.len()
        invariant
            j <= s@.len(),
            out@ == old(out)@ + s@.subrange(0, j as int),
        decreases s@.len() - j,
    {
        out.push(s[j]);
        j = j + 1;
        assert(s@.subrange(0, j as int) =~= s@.subrange(0, j - 1) + seq![s@[j - 1]]);
    }
    assert(s@.subrange(0, s@.len() as int) =~= s@);
}

fn push_str(out: &mut Vec<char>, s: &str)
    ensures
        final(out)@ == old(out)@ + s@,
{
    let n = s.unicode_len();
    let mut j: usize = 0;
    while j < n
        invariant
            n == s@.len(),
            j <= n,
            out@ == old(out)@ + s@.subrange(0, j as int),
        decreases n - j,
    {
        out.push(s.get_char(j));
        j = j + 1;
        assert(s@.subrange(0, j as int) =~= s@.subrange(0, j - 1) + seq![s@[j - 1]]);
    }
    assert(s@.subrange(0, n as int) =~= s@);
}

fn digit_char(d: u8) -> (c: char)
    requires
        d < 10,
    ensures
        c == digit(d as nat),
{
    let digits = vec!['0', '1', '2', '3', '4', '5', '6', '7', '8', '9'];
    assert(digits@ =~= seq!['0', '1', '2', '3', '4', '5', '6', '7', '8', '9']);
    digits[d as usize]
}

fn push_decimal(out: &mut Vec<char>, n: u8)
    ensures
        final(out)@ == old(out)@ + decimal(n as nat),
{
    let ghost start = out@;
    if n >= 100 {
        out.push(digit_char(n / 100));
    }
    if n >= 10 {
        out.push(digit_char((n / 10) % 10));
    }
    out.push(digit_char(n % 10));
    proof {
        let k = n as nat;
        if k >= 100 {
            assert(decimal(k / 100) == seq![digit(k / 100)]);
            assert(decimal(k / 10) == decimal(k / 10 / 10) + seq![digit((k / 10) % 10)]);
            assert(k / 10 / 10 == k / 100);
        } else if k >= 10 {
            assert(decimal(k / 10) == seq![digit(k / 10)]);
            assert((k / 10) % 10 == k / 10);
        }
        assert(out@ =~= start + decimal(k));
    }
}

/// The cells of every pixel in row-major order, joined row by row.
fn assemble(cells: &Vec<Vec<char>>, width: u32, height: u32, sep: &Vec<char>) -> (r: Vec<char>)
    requires
        cells@.len() == width as int * height as int,
    ensures
        r@ == grid_text(cells@.map_values(|c: Vec<char>| c@), width as int, height as int, sep@),
{
    let ghost cs = cells@.map_values(|c: Vec<char>| c@);
    let w = width as usize;
    let h = height as usize;
    let len = cells.len();
    let mut out: Vec<char> = Vec::new();
    let mut y: usize = 0;
    while y < h
        invariant
            w == width,
            h == height,
            cells@.len() == w * h,
            len == cells@.len(),
            cs == cells@.map_values(|c: Vec<char>| c@),
            y <= h,
            out@ == grid_text(cs, w as int, y as int, sep@),
        decreases h - y,
    {
        let ghost before = out@;
        let mut x: usize = 0;
        while x < w
            invariant
                w == width,
                h == height,
                cells@.len() == w * h,
                len == cells@.len(),
                cs == cells@.map_values(|c: Vec<char>| c@),
                y < h,
                x <= w,
                out@ == before + row_text(cs, w as int, y as int, x as int),
            decreases w - x,
        {
            proof {
                assert(y * w + x < w * h) by (nonlinear_arith)
                    requires
                        y < h,
                        x < w,
                ;
                assert(0 <= y * w) by (nonlinear_arith);
                assert(y * w + x < cells@.len());
            }
            push_all(&mut out, &cells[y * w + x]);
            x = x + 1;
            proof {
                assert(out@ =~= before + row_text(cs, w as int, y as int, x as int));
            }
        }
        push_all(&mut out, sep);
        y = y + 1;
        proof {
            assert(out@ =~= grid_text(cs, w as int, y as int, sep@));
        }
    }
    out
}

/// The plain rendering of a grayscale image.
pub fn plain_render(img: &GrayImage, ramp: &Vec<char>, invert: bool) -> (r: Vec<char>)
    requires
        img.wf(),
        2 <= ramp@.len() <= MAX_RAMP_LEN,
    ensures
        r@ == plain_text(*img, ramp@, invert),
{
    let n = img.pixels.len();
    let mut cells: Vec<Vec<char>> = Vec::new();
    let mut i: usize = 0;
    while i < n
        invariant
            n == img.pixels@.len(),
            2 <= ramp@.len() <= MAX_RAMP_LEN,
            i <= n,
            cells@.map_values(|c: Vec<char>| c@) =~= plain_cells(img.pixels@, ramp@, invert)
                .subrange(0, i as int),
        decreases n - i,
    {
        let g = quantizer(img.pixels[i], Gamma::Standard, ramp, invert);
        let cell = vec![g];
        assert(cell@ =~= seq![g]);
        let ghost prev = cells@;
        cells.push(cell);
        i = i + 1;
        assert(cells@.map_values(|c: Vec<char>| c@) =~= prev.map_values(|c: Vec<char>| c@).push(
            seq![g],
        ));
    }
    assert(plain_cells(img.pixels@, ramp@, invert).subrange(0, n as int) =~= plain_cells(
        img.pixels@,
        ramp@,
        invert,
    ));
    let sep = vec!['\n'];
    assert(sep@ =~= seq!['\n']);
    assemble(&cells, img.width, img.height, &sep)
}

/// The colored markup rendering of a color image.
pub fn color_render(img: &RgbImage, ramp: &Vec<char>, invert: bool) -> (r: Vec<char>)
    requires
        img.wf(),
        2 <= ramp@.len() <= MAX_RAMP_LEN,
    ensures
        r@ == color_text(*img, ramp@, invert),
{
    let n = img.pixels.len() / 3;
    let ghost cc = color_cells(img.pixels@, img.width as int * img.height as int, ramp@, invert);
    let mut cells: Vec<Vec<char>> = Vec::new();
    let mut i: usize = 0;
    while i < n
        invariant
            n == img.width as int * img.height as int,
            img.pixels@.len() == 3 * n,
            3 * n <= usize::MAX,
            cc == color_cells(img.pixels@, n as int, ramp@, invert),
            2 <= ramp@.len() <= MAX_RAMP_LEN,
            i <= n,
            cells@.map_values(|c: Vec<char>| c@) =~= cc.subrange(0, i as int),
        decreases n - i,
    {
        assert(3 * i + 2 < img.pixels@.len());
        let r = img.pixels[3 * i];
        let g = img.pixels[3 * i + 1];
        let b = img.pixels[3 * i + 2];
        let num = 2126 * (r as u32) + 7152 * (g as u32) + 722 * (b as u32);
        let idx = quantize_linear(num, COLOR_LUM_DEN, ramp.len());
        let glyph = pick_glyph(ramp, idx, invert);
        let mut cell: Vec<char> = Vec::new();
        push_str(&mut cell, "<span style=\"color: rgb(");
        push_decimal(&mut cell, r);
        push_str(&mut cell, ", ");
        push_decimal(&mut cell, g);
        push_str(&mut cell, ", ");
        push_decimal(&mut cell, b);
        push_str(&mut cell, ")\">");
        cell.push(glyph);
        push_str(&mut cell, "</span>");
        assert(cell@ =~= cc[i as int]);
        let ghost prev = cells@;
        let ghost cv = cell@;
        cells.push(cell);
        i = i + 1;
        assert(cells@.map_values(|c: Vec<char>| c@) =~= prev.map_values(|c: Vec<char>| c@).push(
            cv,
        ));
    }
    assert(cc.subrange(0, n as int) =~= cc);
    let mut sep: Vec<char> = Vec::new();
    push_str(&mut sep, "<br>");
    assemble(&cells, img.width, img.height, &sep)
}


/// The edge-aware rendering of a grayscale image.
pub fn edge_render(img: &GrayImage, ramp: &Vec<char>, invert: bool, brighten: bool) -> (r: Vec<
    char,
>)
    requires
        img.wf(),
        2 <= ramp@.len() <= MAX_RAMP_LEN,
    ensures
        r@ == edge_text(*img, ramp@, invert, brighten),
{
    let ghost w = img.width as int;
    let ghost h = img.height as int;
    let gx = horizontal_sobel(img);
    let gy = vertical_sobel(img);
    assert(gx@ =~= sobel_x_field(w, h, img.pixels@));
    assert(gy@ =~= sobel_y_field(w, h, img.pixels@));
    let max_sq = max_magnitude_func(&gx, &gy, img.height, img.width);
    let gamma = if brighten {
        Gamma::Linear
    } else {
        Gamma::Square
    };
    let ghost ec = edge_cells(w, h, img.pixels@, ramp@, invert, brighten);
    let n = img.pixels.len();
    let mut cells: Vec<Vec<char>> = Vec::new();
    let mut i: usize = 0;
    while i < n
        invariant
            n == img.pixels@.len(),
            n == w * h,
            gx@.len() == n,
            gy@.len() == n,
            gx@ == sobel_x_field(w, h, img.pixels@),
            gy@ == sobel_y_field(w, h, img.pixels@),
            max_sq == max_mag_sq(gx@, gy@, w * h),
            gamma == fallback_gamma(brighten),
            ec == edge_cells(w, h, img.pixels@, ramp@, invert, brighten),
            2 <= ramp@.len() <= MAX_RAMP_LEN,
            i <= n,
            cells@.map_values(|c: Vec<char>| c@) =~= ec.subrange(0, i as int),
        decreases n - i,
    {
        let class = classify(gx[i], gy[i], max_sq, img.pixels[i]);
        let g = match class {
            PixelClass::Edge(c) => c,
            PixelClass::Luminance(l) => quantizer(l, gamma, ramp, invert),
        };
        let cell = vec![g];
        assert(cell@ =~= ec[i as int]);
        let ghost prev = cells@;
        cells.push(cell);
        i = i + 1;
        assert(cells@.map_values(|c: Vec<char>| c@) =~= prev.map_values(|c: Vec<char>| c@).push(
            seq![g],
        ));
    }
    assert(ec.subrange(0, n as int) =~= ec);
    let sep = vec!['\n'];
    assert(sep@ =~= seq!['\n']);
    assemble(&cells, img.width, img.height, &sep)
}

/// Renders an already shrunk color image under `config`: edge-aware if
/// `edge_detect` is set, else as colored markup if `color` is set, else as
/// plain text.
pub fn render_image(img: &RgbImage, config: RenderConfig) -> (r: String)
    requires
        img.wf(),
    ensures
        r@ == render_spec(*img, config),
{
    let ramp = config.pattern.pattern();
    let ghost n = img.width as int * img.height as int;
    let out = if config.edge_detect {
        let gray = grayscale(img);
        assert(gray.pixels@ =~= gray_pixels(img.pixels@, n));
        edge_render(&gray, &ramp, config.invert, config.brighten)
    } else if config.color {
        color_render(img, &ramp, config.invert)
    } else {
        let gray = grayscale(img);
        assert(gray.pixels@ =~= gray_pixels(img.pixels@, n));
        plain_render(&gray, &ramp, config.invert)
    };
    string_of(&out)
}

/// Renders a decoded color image under `config`: the image is shrunk with
/// Lanczos3 resampling, aspect ratio kept, to fit within its sides divided by
/// `config.downscale`, then rendered by `render_image`.
pub fn run(img: &RgbImage, config: RenderConfig) -> (r: String)
    requires
        img.wf(),
        config.downscale >= 1,
    ensures
        exists|small: RgbImage|
            shrunk_from(small, img.width, img.height, config.downscale) && r@ == render_spec(
                small,
                config,
            ),
{
    let small = resize_fit(img, img.width / config.downscale, img.height / config.downscale);
    let r = render_image(&small, config);
    assert(shrunk_from(small, img.width, img.height, config.downscale) && r@ == render_spec(
        small,
        config,
    ));
    r
}

/// Rendering is a function of the shrunk image and the configuration alone:
/// two renderings of the same input are identical.
pub proof fn lemma_render_deterministic(
    img: RgbImage,
    config: RenderConfig,
    out1: Seq<char>,
    out2: Seq<char>,
)
    requires
        out1 == render_spec(img, config),
        out2 == render_spec(img, config),
    ensures
        out1 == out2,
{
}

/// Each span of the colored rendering carries the ramp entry at the
/// quantized index of its pixel, which lies inside the ramp; a black pixel
/// gives the first glyph and a white one the last.
pub proof fn lemma_color_glyph(r: u8, g: u8, b: u8, ramp: Seq<char>)
    requires
        ramp.len() >= 2,
    ensures
        ({
            let num = 2126 * r as int + 7152 * g as int + 722 * b as int;
            let idx = shaped_index(num, COLOR_LUM_DEN as int, 1, 1, ramp.len() - 1);
            &&& 0 <= idx < ramp.len()
            &&& color_glyph(r, g, b, ramp, false) == ramp[idx]
            &&& r == 0 && g == 0 && b == 0 ==> color_glyph(r, g, b, ramp, false) == ramp[0]
            &&& r == 255 && g == 255 && b == 255 ==> color_glyph(r, g, b, ramp, false)
                == ramp[ramp.len() - 1]
        }),
{
    let num = 2126 * r as int + 7152 * g as int + 722 * b as int;
    lemma_index_in_ramp(num, COLOR_LUM_DEN as int, 1, 1, ramp.len() - 1);
    lemma_index_ends(COLOR_LUM_DEN as int, 1, 1, ramp.len() - 1);
}


/// Each glyph of the plain rendering is the ramp entry at the quantized index
/// of its pixel, which lies inside the ramp; a black pixel gives the first
/// glyph and a white one the last.
pub proof fn lemma_plain_cell(px: Seq<u8>, ramp: Seq<char>, i: int)
    requires
        0 <= i < px.len(),
        ramp.len() >= 2,
    ensures
        ({
            let idx = shaped_index(px[i] as int, 255, 17, 10, ramp.len() - 1);
            &&& 0 <= idx < ramp.len()
            &&& plain_cells(px, ramp, false)[i] == seq![ramp[idx]]
            &&& px[i] == 0 ==> plain_cells(px, ramp, false)[i] == seq![ramp[0]]
            &&& px[i] == 255 ==> plain_cells(px, ramp, false)[i] == seq![ramp[ramp.len() - 1]]
        }),
{
    lemma_index_in_ramp(px[i] as int, 255, 17, 10, ramp.len() - 1);
    lemma_index_ends(255, 17, 10, ramp.len() - 1);
}

/// In the plain rendering a brighter pixel never gets an earlier glyph.
pub proof fn lemma_plain_cells_monotone(px: Seq<u8>, ramp: Seq<char>, i: int, j: int)
    requires
        0 <= i < px.len(),
        0 <= j < px.len(),
        px[i] < px[j],
        ramp.len() >= 2,
    ensures
        shaped_index(px[i] as int, 255, 17, 10, ramp.len() - 1) <= shaped_index(
            px[j] as int,
            255,
            17,
            10,
            ramp.len() - 1,
        ),
{
    lemma_index_monotone(px[i] as int, px[j] as int, 255, 17, 10, ramp.len() - 1);
}

/// A pixel of the edge-aware rendering that falls through to its luminance
/// gets the ramp entry at its quantized index, which lies inside the ramp; a
/// black pixel gives the first glyph and a white one the last.
pub proof fn lemma_edge_fallback_cell(l: u8, ramp: Seq<char>, brighten: bool)
    requires
        ramp.len() >= 2,
    ensures
        ({
            let g = fallback_gamma(brighten);
            let idx = shaped_index(l as int, 255, g.num(), g.den(), ramp.len() - 1);
            &&& 0 <= idx < ramp.len()
            &&& edge_cell(PixelClass::Luminance(l), ramp, false, brighten) == seq![ramp[idx]]
            &&& l == 0 ==> edge_cell(PixelClass::Luminance(l), ramp, false, brighten)
                == seq![ramp[0]]
            &&& l == 255 ==> edge_cell(PixelClass::Luminance(l), ramp, false, brighten)
                == seq![ramp[ramp.len() - 1]]
        }),
{
    let g = fallback_gamma(brighten);
    lemma_index_in_ramp(l as int, 255, g.num(), g.den(), ramp.len() - 1);
    lemma_index_ends(255, g.num(), g.den(), ramp.len() - 1);
}

/// Rendering plain text with the ramp inverted is rendering it with the
/// reversed ramp.
pub proof fn lemma_plain_invert_is_reverse(img: GrayImage, ramp: Seq<char>)
    requires
        ramp.len() >= 1,
    ensures
        plain_text(img, ramp, true) == plain_text(img, ramp.reverse(), false),
{
    let px = img.pixels@;
    assert forall|i: int| 0 <= i < px.len() implies plain_cells(px, ramp, true)[i]
        == plain_cells(px, ramp.reverse(), false)[i] by {
        lemma_invert_is_reverse(px[i] as int, Gamma::Standard, ramp);
    }
    assert(plain_cells(px, ramp, true) =~= plain_cells(px, ramp.reverse(), false));
}

/// Rendering edge-aware text with the ramp inverted is rendering it with the
/// reversed ramp.
pub proof fn lemma_edge_invert_is_reverse(img: GrayImage, ramp: Seq<char>, brighten: bool)
    requires
        ramp.len() >= 1,
    ensures
        edge_text(img, ramp, true, brighten) == edge_text(img, ramp.reverse(), false, brighten),
{
    let w = img.width as int;
    let h = img.height as int;
    let px = img.pixels@;
    let a = edge_cells(w, h, px, ramp, true, brighten);
    let b = edge_cells(w, h, px, ramp.reverse(), false, brighten);
    assert forall|i: int| 0 <= i < a.len() implies a[i] == b[i] by {
        let gx = sobel_x_field(w, h, px);
        let gy = sobel_y_field(w, h, px);
        let c = classify_spec(gx[i] as int, gy[i] as int, max_mag_sq(gx, gy, w * h), px[i]);
        if let PixelClass::Luminance(l) = c {
            lemma_invert_is_reverse(l as int, fallback_gamma(brighten), ramp);
        }
    }
    assert(a =~= b);
}

} // verus!
