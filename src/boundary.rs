use vstd::prelude::*;
use crate::edge::{max_mag_sq, mag_sq};
use crate::quantize::lemma_index_ends;
use crate::raster::{level_at, sobel_y_at};
use crate::render::{edge_cells, sobel_x_field, sobel_y_field};

verus! {

/// A `w` by `h` image that is black left of column `k` and white from it on.
pub open spec fn split_image(w: int, h: int, k: int, px: Seq<u8>) -> bool {
    &&& px.len() == w * h
    &&& forall|i: int| 0 <= i < w * h ==> px[i] == (if i % w < k { 0u8 } else { 255u8 })
}

proof fn lemma_split_level(w: int, h: int, k: int, px: Seq<u8>, x: int, y: int)
    requires
        w >= 1,
        h >= 1,
        split_image(w, h, k, px),
    ensures
        ({
            let cx = if x < 0 { 0 } else if x >= w { w - 1 } else { x };
            level_at(w, h, px, x, y) == if cx < k { 0int } else { 255int }
        }),
{
    let cx = if x < 0 { 0 } else if x >= w { w - 1 } else { x };
    let cy = if y < 0 { 0 } else if y >= h { h - 1 } else { y };
    assert(0 <= cy * w + cx < w * h) by (nonlinear_arith)
        requires
            0 <= cy < h,
            0 <= cx < w,
    ;
    vstd::arithmetic::div_mod::lemma_fundamental_div_mod_converse(cy * w + cx, w, cy, cx);
}

proof fn lemma_max_bounded(gx: Seq<i16>, gy: Seq<i16>, n: int, b: int)
    requires
        0 <= n <= gx.len(),
        n <= gy.len(),
        b >= 0,
        forall|i: int| 0 <= i < n ==> mag_sq(gx[i] as int, gy[i] as int) <= b,
    ensures
        max_mag_sq(gx, gy, n) <= b,
    decreases n,
{
    if n > 0 {
        lemma_max_bounded(gx, gy, n - 1, b);
    }
}

proof fn lemma_max_reaches(gx: Seq<i16>, gy: Seq<i16>, n: int, j: int)
    requires
        0 <= j < n,
    ensures
        max_mag_sq(gx, gy, n) >= mag_sq(gx[j] as int, gy[j] as int),
    decreases n,
{
    if j < n - 1 {
        lemma_max_reaches(gx, gy, n - 1, j);
    }
}

/// On an image split into a black left part and a white right part at column
/// `k`, the edge-aware rendering (no inversion, no brightening) marks exactly
/// the two columns at the boundary with the vertical-edge glyph; every other
/// pixel gets the first or last glyph of the ramp.
pub proof fn lemma_vertical_boundary(w: int, h: int, k: int, px: Seq<u8>, ramp: Seq<char>)
    requires
        w >= 2,
        h >= 1,
        1 <= k <= w - 1,
        split_image(w, h, k, px),
        ramp.len() >= 2,
    ensures
        forall|i: int|
            0 <= i < w * h ==> edge_cells(w, h, px, ramp, false, false)[i] == if i % w == k - 1
                || i % w == k {
                seq!['|']
            } else if i % w < k {
                seq![ramp[0]]
            } else {
                seq![ramp[ramp.len() - 1]]
            },
{
    let gx = sobel_x_field(w, h, px);
    let gy = sobel_y_field(w, h, px);
    let n = w * h;
    assert(n >= w) by (nonlinear_arith)
        requires
            n == w * h,
            w >= 2,
            h >= 1,
    ;
    assert forall|i: int| 0 <= i < n implies {
        let x = i % w;
        &&& gy[i] as int == 0
        &&& (#[trigger] gx[i]) as int == if x == k - 1 || x == k { 1020int } else { 0int }
    } by {
        let x = i % w;
        let y = i / w;
        vstd::arithmetic::div_mod::lemma_fundamental_div_mod(i, w);
        vstd::arithmetic::div_mod::lemma_mod_pos_bound(i, w);
        lemma_split_level(w, h, k, px, x - 1, y - 1);
        lemma_split_level(w, h, k, px, x - 1, y);
        lemma_split_level(w, h, k, px, x - 1, y + 1);
        lemma_split_level(w, h, k, px, x, y - 1);
        lemma_split_level(w, h, k, px, x, y + 1);
        lemma_split_level(w, h, k, px, x + 1, y - 1);
        lemma_split_level(w, h, k, px, x + 1, y);
        lemma_split_level(w, h, k, px, x + 1, y + 1);
        assert(sobel_y_at(w, h, px, x, y) == 0);
    }
    let top = 1040400int;
    assert forall|i: int| 0 <= i < n implies mag_sq(gx[i] as int, gy[i] as int) <= top by {}
    lemma_max_bounded(gx, gy, n, top);
    assert(0 <= k - 1 < n);
    vstd::arithmetic::div_mod::lemma_small_mod((k - 1) as nat, w as nat);
    lemma_max_reaches(gx, gy, n, k - 1);
    let max_sq = max_mag_sq(gx, gy, n);
    assert(max_sq == top);
    lemma_index_ends(255, 2, 1, ramp.len() - 1);
    assert forall|i: int| 0 <= i < n implies edge_cells(w, h, px, ramp, false, false)[i] == if i
        % w == k - 1 || i % w == k {
        seq!['|']
    } else if i % w < k {
        seq![ramp[0]]
    } else {
        seq![ramp[ramp.len() - 1]]
    } by {
        let x = i % w;
        vstd::arithmetic::div_mod::lemma_fundamental_div_mod(i, w);
        vstd::arithmetic::div_mod::lemma_mod_pos_bound(i, w);
        assert(px[i] == (if x < k { 0u8 } else { 255u8 }));
    }
}

} // verus!
