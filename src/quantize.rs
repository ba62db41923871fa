use vstd::prelude::*;
use vstd::arithmetic::power::{pow, lemma_pow_adds, lemma_pow_distributes};

verus! {

/// The longest ramp the quantizer accepts: it bounds the exact power
/// comparisons of the standard gamma to 128 bits.
pub const MAX_RAMP_LEN: usize = 12;

/// The gamma exponent applied to a luminance before it is quantized.
#[derive(Clone, Copy, Debug, PartialEq, Eq)]
pub enum Gamma {
    /// gamma = 1
    Linear,
    /// gamma = 17/10, the standard grayscale shaping
    Standard,
    /// gamma = 2, the edge-mode fallback shaping
    Square,
}

impl Gamma {
    /// Numerator of the exponent.
    pub open spec fn num(self) -> nat {
        match self {
            Gamma::Linear => 1,
            Gamma::Standard => 17,
            Gamma::Square => 2,
        }
    }

    /// Denominator of the exponent.
    pub open spec fn den(self) -> nat {
        match self {
            Gamma::Linear => 1,
            Gamma::Standard => 10,
            Gamma::Square => 1,
        }
    }
}

/// `(num / den)^(gn / gd) * m >= k - 1/2`, for `k >= 1`: the shaped value,
/// scaled to the ramp, rounds to `k` or above. Both sides are raised to the
/// power `gd` and multiplied out, so the comparison is exact.
pub open spec fn reaches(num: int, den: int, gn: nat, gd: nat, m: int, k: int) -> bool {
    pow(num, gn) * pow(2 * m, gd) >= pow(2 * k - 1, gd) * pow(den, gn)
}

/// The largest `j <= k` that the shaped value reaches, or 0.
pub open spec fn level(num: int, den: int, gn: nat, gd: nat, m: int, k: int) -> int
    decreases k,
{
    if k <= 0 {
        0
    } else if reaches(num, den, gn, gd, m, k) {
        k
    } else {
        level(num, den, gn, gd, m, k - 1)
    }
}

/// `round(clamp(num / den, 0, 1)^(gn / gd) * m)`, halves rounding up.
pub open spec fn shaped_index(num: int, den: int, gn: nat, gd: nat, m: int) -> int {
    let c = if num < 0 { 0 } else if num > den { den } else { num };
    level(c, den, gn, gd, m, m)
}

/// The glyph picked for index `idx`, reading the ramp from its far end when
/// `invert` is set.
pub open spec fn glyph_at(ramp: Seq<char>, idx: int, invert: bool) -> char {
    if invert {
        ramp[ramp.len() - 1 - idx]
    } else {
        ramp[idx]
    }
}

/// The glyph of a pixel level `p` (luminance `p / 255`) under `gamma`.
pub open spec fn level_glyph(p: int, gamma: Gamma, ramp: Seq<char>, invert: bool) -> char {
    glyph_at(ramp, shaped_index(p, 255, gamma.num(), gamma.den(), ramp.len() - 1), invert)
}

proof fn lemma_level_bounds(num: int, den: int, gn: nat, gd: nat, m: int, k: int)
    ensures
        0 <= level(num, den, gn, gd, m, k),
        k >= 0 ==> level(num, den, gn, gd, m, k) <= k,
    decreases k,
{
    if k > 0 {
        lemma_level_bounds(num, den, gn, gd, m, k - 1);
    }
}

proof fn lemma_pow_base_mono(a: int, b: int, e: nat)
    requires
        0 <= a <= b,
    ensures
        0 <= pow(a, e) <= pow(b, e),
    decreases e,
{
    reveal(pow);
    if e > 0 {
        lemma_pow_base_mono(a, b, (e - 1) as nat);
        assert(a * pow(a, (e - 1) as nat) <= b * pow(b, (e - 1) as nat)) by (nonlinear_arith)
            requires
                0 <= a <= b,
                0 <= pow(a, (e - 1) as nat) <= pow(b, (e - 1) as nat),
        ;
    }
}

proof fn lemma_reaches_mono(n1: int, n2: int, den: int, gn: nat, gd: nat, m: int, k: int)
    requires
        0 <= n1 <= n2,
        m >= 0,
        reaches(n1, den, gn, gd, m, k),
    ensures
        reaches(n2, den, gn, gd, m, k),
{
    lemma_pow_base_mono(n1, n2, gn);
    lemma_pow_base_mono(0, 2 * m, gd);
    let a = pow(n1, gn);
    let b = pow(n2, gn);
    let c = pow(2 * m, gd);
    assert(a * c <= b * c) by (nonlinear_arith)
        requires
            0 <= a <= b,
            0 <= c,
    ;
}

proof fn lemma_level_mono(n1: int, n2: int, den: int, gn: nat, gd: nat, m: int, k: int)
    requires
        0 <= n1 <= n2,
        m >= 0,
    ensures
        level(n1, den, gn, gd, m, k) <= level(n2, den, gn, gd, m, k),
    decreases k,
{
    if k > 0 {
        if reaches(n1, den, gn, gd, m, k) {
            lemma_reaches_mono(n1, n2, den, gn, gd, m, k);
        } else {
            lemma_level_mono(n1, n2, den, gn, gd, m, k - 1);
            if reaches(n2, den, gn, gd, m, k) {
                lemma_level_bounds(n1, den, gn, gd, m, k - 1);
            }
        }
    }
}

/// The index the quantizer picks always lies inside the ramp.
pub proof fn lemma_index_in_ramp(num: int, den: int, gn: nat, gd: nat, m: int)
    requires
        m >= 0,
    ensures
        0 <= shaped_index(num, den, gn, gd, m) <= m,
{
    let c = if num < 0 { 0 } else if num > den { den } else { num };
    lemma_level_bounds(c, den, gn, gd, m, m);
}

/// The darkest luminance maps to the first glyph and the brightest to the
/// last, for every positive gamma.
pub proof fn lemma_index_ends(den: int, gn: nat, gd: nat, m: int)
    requires
        den > 0,
        gn > 0,
        m >= 1,
    ensures
        shaped_index(0, den, gn, gd, m) == 0,
        shaped_index(den, den, gn, gd, m) == m,
{
    reveal(pow);
    lemma_pow_base_mono(2 * m - 1, 2 * m, gd);
    lemma_pow_base_mono(0, den, gn);
    assert(reaches(den, den, gn, gd, m, m)) by {
        let a = pow(den, gn);
        let b = pow(2 * m - 1, gd);
        let c = pow(2 * m, gd);
        assert(a * c >= b * a) by (nonlinear_arith)
            requires
                0 <= b <= c,
                0 <= a,
        ;
    }
    lemma_zero_level(den, gn, gd, m, m);
}

proof fn lemma_zero_level(den: int, gn: nat, gd: nat, m: int, k: int)
    requires
        den > 0,
        gn > 0,
        k <= m,
    ensures
        level(0, den, gn, gd, m, k) == 0,
    decreases k,
{
    if k > 0 {
        reveal(pow);
        vstd::arithmetic::power::lemma0_pow(gn);
        vstd::arithmetic::power::lemma_pow_positive(2 * k - 1, gd);
        vstd::arithmetic::power::lemma_pow_positive(den, gn);
        let b = pow(2 * k - 1, gd);
        let d = pow(den, gn);
        assert(b * d > 0) by (nonlinear_arith)
            requires
                b > 0,
                d > 0,
        ;
        lemma_zero_level(den, gn, gd, m, k - 1);
    }
}

/// A brighter luminance never maps to an earlier glyph.
pub proof fn lemma_index_monotone(n1: int, n2: int, den: int, gn: nat, gd: nat, m: int)
    requires
        n1 < n2,
        m >= 0,
        den >= 0,
    ensures
        shaped_index(n1, den, gn, gd, m) <= shaped_index(n2, den, gn, gd, m),
{
    let c1 = if n1 < 0 { 0 } else if n1 > den { den } else { n1 };
    let c2 = if n2 < 0 { 0 } else if n2 > den { den } else { n2 };
    lemma_level_mono(c1, c2, den, gn, gd, m, m);
}

/// Quantizing against the ramp inverted gives the glyph that quantizing
/// against the reversed ramp gives.
pub proof fn lemma_invert_is_reverse(p: int, gamma: Gamma, ramp: Seq<char>)
    requires
        ramp.len() >= 1,
    ensures
        level_glyph(p, gamma, ramp, true) == level_glyph(p, gamma, ramp.reverse(), false),
{
    lemma_index_in_ramp(p, 255, gamma.num(), gamma.den(), ramp.len() - 1);
}


proof fn lemma_frac_step(a: int, b: int, c: int, d: int)
    requires
        a >= 0,
        c >= 0,
        b > 0,
        d > 0,
    ensures
        a / b > c / d ==> a * d > c * b,
        a / b < c / d ==> a * d < c * b,
        a / b == c / d ==> (a * d >= c * b <==> d * (a % b) >= b * (c % d)),
        0 <= a % b < b,
        0 <= c % d < d,
{
    let (qa, ra, qc, rc) = (a / b, a % b, c / d, c % d);
    vstd::arithmetic::div_mod::lemma_fundamental_div_mod(a, b);
    vstd::arithmetic::div_mod::lemma_fundamental_div_mod(c, d);
    assert(a * d - c * b == (qa - qc) * b * d + ra * d - rc * b) by (nonlinear_arith)
        requires
            a == b * qa + ra,
            c == d * qc + rc,
    ;
    assert(qa > qc ==> a * d > c * b) by (nonlinear_arith)
        requires
            a * d - c * b == (qa - qc) * b * d + ra * d - rc * b,
            0 <= ra < b,
            0 <= rc < d,
    ;
    assert(qa < qc ==> a * d < c * b) by (nonlinear_arith)
        requires
            a * d - c * b == (qa - qc) * b * d + ra * d - rc * b,
            0 <= ra < b,
            0 <= rc < d,
    ;
    assert(qa == qc ==> (a * d >= c * b <==> d * ra >= b * rc)) by (nonlinear_arith)
        requires
            a * d - c * b == (qa - qc) * b * d + ra * d - rc * b,
    ;
}

/// Whether `a / b >= c / d`, decided without forming either cross product.
fn frac_ge(a: u128, b: u128, c: u128, d: u128) -> (r: bool)
    requires
        b > 0,
        d > 0,
    ensures
        r == (a * d >= c * b),
    decreases b + d,
{
    let qa = a / b;
    let ra = a % b;
    let qc = c / d;
    let rc = c % d;
    proof {
        lemma_frac_step(a as int, b as int, c as int, d as int);
    }
    if qa != qc {
        qa > qc
    } else if rc == 0 {
        proof {
            assert((d as int) * (ra as int) >= 0) by (nonlinear_arith)
                requires
                    ra >= 0,
                    d > 0,
            ;
            assert((b as int) * (rc as int) == 0) by (nonlinear_arith)
                requires
                    rc == 0,
            ;
        }
        true
    } else if ra == 0 {
        proof {
            assert((b as int) * (rc as int) > 0) by (nonlinear_arith)
                requires
                    rc > 0,
                    b > 0,
            ;
            assert((d as int) * (ra as int) == 0) by (nonlinear_arith)
                requires
                    ra == 0,
            ;
        }
        false
    } else {
        frac_ge(d, rc, b, ra)
    }
}

/// `b^e`, where it fits in 128 bits.
fn pow_u128(b: u128, e: u32) -> (r: u128)
    requires
        pow(b as int, e as nat) <= u128::MAX,
        b >= 1,
    ensures
        r == pow(b as int, e as nat),
{
    let mut r: u128 = 1;
    let mut i: u32 = 0;
    proof {
        reveal(pow);
    }
    while i < e
        invariant
            i <= e,
            b >= 1,
            r == pow(b as int, i as nat),
            pow(b as int, e as nat) <= u128::MAX,
        decreases e - i,
    {
        proof {
            reveal(pow);
            lemma_pow_base_mono(1, b as int, i as nat);
            vstd::arithmetic::power::lemma_pow_increases(b as nat, (i + 1) as nat, e as nat);
            vstd::arithmetic::power::lemma1_pow(i as nat);
        }
        proof {
            reveal(pow);
            assert(r * b == pow(b as int, (i + 1) as nat)) by (nonlinear_arith)
                requires
                    r == pow(b as int, i as nat),
                    pow(b as int, (i + 1) as nat) == b * pow(b as int, i as nat),
            ;
        }
        r = r * b;
        i = i + 1;
    }
    r
}

/// Whether pixel level `p` under `gamma` reaches rank `k` of a ramp with last
/// index `m`.
fn reaches_level(p: u8, gamma: Gamma, m: usize, k: usize) -> (r: bool)
    requires
        1 <= k <= m,
        m < MAX_RAMP_LEN,
    ensures
        r == reaches(p as int, 255, gamma.num(), gamma.den(), m as int, k as int),
{
    let pp = p as u128;
    let two_m = 2 * (m as u128);
    let odd = 2 * (k as u128) - 1;
    match gamma {
        Gamma::Linear => {
            proof {
                vstd::arithmetic::power::lemma_pow1(p as int);
                vstd::arithmetic::power::lemma_pow1(2 * m as int);
                vstd::arithmetic::power::lemma_pow1(2 * k - 1);
                vstd::arithmetic::power::lemma_pow1(255);
            }
            proof {
                assert(pp * two_m <= 255 * 22) by (nonlinear_arith)
                    requires
                        pp <= 255,
                        two_m <= 22,
                ;
            }
            pp * two_m >= odd * 255
        },
        Gamma::Square => {
            proof {
                vstd::arithmetic::power::lemma_square_is_pow2(p as int);
                vstd::arithmetic::power::lemma_square_is_pow2(255);
                vstd::arithmetic::power::lemma_pow1(2 * m as int);
                vstd::arithmetic::power::lemma_pow1(2 * k - 1);
                assert(pp * pp <= 255 * 255 && pp * pp * two_m <= 255 * 255 * 22 && odd * (255
                    * 255) <= 22 * 255 * 255) by (nonlinear_arith)
                    requires
                        pp <= 255,
                        two_m <= 22,
                        odd <= 22,
                ;
            }
            pp * pp * two_m >= odd * (255 * 255)
        },
        Gamma::Standard => {
            if p == 0 {
                proof {
                    vstd::arithmetic::power::lemma0_pow(17);
                    vstd::arithmetic::power::lemma_pow_positive(2 * k - 1, 10);
                    vstd::arithmetic::power::lemma_pow_positive(255, 17);
                    let x = pow(2 * k - 1, 10);
                    let y = pow(255, 17);
                    assert(x * y > 0) by (nonlinear_arith)
                        requires
                            x > 0,
                            y > 0,
                    ;
                }
                return false;
            }
            // p^17 (2m)^10 >= (2k-1)^10 255^17  iff
            // (p 2m)^10 / 255^7 >= (255 (2k-1))^10 / p^7
            proof {
                assert(1 <= pp * two_m <= 5610) by (nonlinear_arith)
                    requires
                        1 <= pp <= 255,
                        2 <= two_m <= 22,
                ;
                vstd::arithmetic::power::lemma_pow_positive(pp as int, 7);
                lemma_pow_base_mono(pp as int * two_m as int, 5610, 10);
                lemma_pow_base_mono(255 * odd as int, 5355, 10);
                lemma_pow_base_mono(pp as int, 255, 7);
                reveal_with_fuel(pow, 11);
                assert(pow(5610, 10) <= u128::MAX);
                assert(pow(5355, 10) <= u128::MAX);
                assert(pow(255, 7) <= u128::MAX);
            }
            let a = pow_u128(pp * two_m, 10);
            let b = pow_u128(255, 7);
            let c = pow_u128(255 * odd, 10);
            let d = pow_u128(pp, 7);
            let r = frac_ge(a, b, c, d);
            proof {
                let ip = pp as int;
                let im = two_m as int;
                let io = odd as int;
                lemma_pow_distributes(ip, im, 10);
                lemma_pow_distributes(255, io, 10);
                lemma_pow_adds(ip, 10, 7);
                lemma_pow_adds(255, 10, 7);
                let p10 = pow(ip, 10);
                let p7 = pow(ip, 7);
                let m10 = pow(im, 10);
                let o10 = pow(io, 10);
                let f10 = pow(255, 10);
                let f7 = pow(255, 7);
                assert(p10 * m10 * p7 == p10 * p7 * m10 && o10 * f10 * f7 == o10 * (f10 * f7))
                    by (nonlinear_arith);
                assert(pow(255, 10) * pow(io, 10) * pow(255, 7) == pow(io, 10) * (f10 * f7))
                    by (nonlinear_arith)
                    requires
                        f10 == pow(255, 10),
                        f7 == pow(255, 7),
                        o10 == pow(io, 10),
                ;
            }
            r
        },
    }
}

/// The ramp index of pixel level `p` (luminance `p / 255`) under `gamma`,
/// for a ramp of `n` glyphs.
pub fn quantize_level(p: u8, gamma: Gamma, n: usize) -> (r: usize)
    requires
        2 <= n <= MAX_RAMP_LEN,
    ensures
        r == shaped_index(p as int, 255, gamma.num(), gamma.den(), n - 1),
        r < n,
{
    let m = n - 1;
    let mut k = m;
    while k > 0
        invariant
            k <= m,
            m == n - 1,
            2 <= n <= MAX_RAMP_LEN,
            level(p as int, 255, gamma.num(), gamma.den(), m as int, m as int) == level(
                p as int,
                255,
                gamma.num(),
                gamma.den(),
                m as int,
                k as int,
            ),
        decreases k,
    {
        if reaches_level(p, gamma, m, k) {
            return k;
        }
        k = k - 1;
    }
    proof {
        lemma_index_in_ramp(p as int, 255, gamma.num(), gamma.den(), m as int);
    }
    0
}

/// The ramp index of the linear luminance `num / den` (clamped to `[0, 1]`)
/// for a ramp of `n` glyphs.
pub fn quantize_linear(num: u32, den: u32, n: usize) -> (r: usize)
    requires
        den > 0,
        2 <= n <= MAX_RAMP_LEN,
    ensures
        r == shaped_index(num as int, den as int, 1, 1, n - 1),
        r < n,
{
    let c: u32 = if num > den { den } else { num };
    let m = n - 1;
    let mut k = m;
    proof {
        vstd::arithmetic::power::lemma_pow1(c as int);
        vstd::arithmetic::power::lemma_pow1(den as int);
        vstd::arithmetic::power::lemma_pow1(2 * m as int);
    }
    while k > 0
        invariant
            k <= m,
            m == n - 1,
            2 <= n <= MAX_RAMP_LEN,
            c == (if num > den { den } else { num }),
            pow(c as int, 1) == c,
            pow(den as int, 1) == den,
            pow(2 * m as int, 1) == 2 * m,
            level(c as int, den as int, 1, 1, m as int, m as int) == level(
                c as int,
                den as int,
                1,
                1,
                m as int,
                k as int,
            ),
        decreases k,
    {
        proof {
            vstd::arithmetic::power::lemma_pow1(2 * k - 1);
        }
        proof {
            assert((c as int) * (2 * m) <= 4294967295 * 22 && (2 * k - 1) * (den as int)
                <= 22 * 4294967295) by (nonlinear_arith)
                requires
                    c <= 4294967295,
                    den <= 4294967295,
                    2 * m <= 22,
                    1 <= 2 * k - 1 <= 22,
            ;
        }
        if (c as u64) * (2 * m as u64) >= (2 * k as u64 - 1) * (den as u64) {
            assert(reaches(c as int, den as int, 1, 1, m as int, k as int));
            return k;
        }
        k = k - 1;
    }
    0
}

/// The glyph for ramp index `idx`, read from the far end when `invert` is set.
pub fn pick_glyph(ramp: &Vec<char>, idx: usize, invert: bool) -> (r: char)
    requires
        idx < ramp@.len(),
    ensures
        r == glyph_at(ramp@, idx as int, invert),
{
    if invert {
        ramp[ramp.len() - 1 - idx]
    } else {
        ramp[idx]
    }
}

/// The glyph of pixel level `p` under `gamma`.
pub fn quantizer(p: u8, gamma: Gamma, ramp: &Vec<char>, invert: bool) -> (r: char)
    requires
        2 <= ramp@.len() <= MAX_RAMP_LEN,
    ensures
        r == level_glyph(p as int, gamma, ramp@, invert),
{
    let idx = quantize_level(p, gamma, ramp.len());
    pick_glyph(ramp, idx, invert)
}

} // verus!
