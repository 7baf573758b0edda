//! The order in which pixels are rendered and written: row-major, from the top
//! row of the image down to the bottom one, columns left to right. Rows are
//! numbered from the bottom (row 0 is lowest in world space), as the image
//! plane's vertical coordinate grows upwards.
use vstd::prelude::*;

verus! {

/// The column of the pixel at position `k` of the scan.
pub open spec fn scan_column(k: nat, width: nat) -> nat
    recommends
        width > 0,
{
    k % width
}

/// The row of the pixel at position `k` of the scan.
pub open spec fn scan_row(k: nat, width: nat, height: nat) -> int
    recommends
        width > 0,
{
    height - 1 - k / width
}

/// The position in the scan of the pixel at column `i` and row `j`.
pub open spec fn scan_position(i: nat, j: nat, width: nat, height: nat) -> int {
    (height - 1 - j) * width + i
}

proof fn lemma_row_in_image(index: int, width: int, height: int)
    requires
        0 <= index < width * height,
        width > 0,
    ensures
        index / width < height,
{
    vstd::arithmetic::div_mod::lemma_fundamental_div_mod(index, width);
    assert(index / width < height) by (nonlinear_arith)
        requires
            index == width * (index / width) + index % width,
            0 <= index % width,
            index < width * height,
            width > 0,
    ;
}

/// The column and row of the pixel written at position `index` of the scan of
/// a `width` by `height` image.
pub fn pixel_at(index: u64, width: u32, height: u32) -> (r: (u32, u32))
    requires
        width > 0,
        index < width as nat * height as nat,
    ensures
        r.0 as nat == scan_column(index as nat, width as nat),
        r.1 as int == scan_row(index as nat, width as nat, height as nat),
        r.0 < width,
        r.1 < height,
{
    let w = width as u64;
    proof {
        lemma_row_in_image(index as int, width as int, height as int);
    }
    let column = (index % w) as u32;
    let row = height - 1 - (index / w) as u32;
    (column, row)
}

/// The position in the scan at which the pixel at column `i` and row `j` of a
/// `width` by `height` image is written.
pub fn scan_index(i: u32, j: u32, width: u32, height: u32) -> (r: u64)
    requires
        i < width,
        j < height,
    ensures
        r as int == scan_position(i as nat, j as nat, width as nat, height as nat),
        (r as nat) < width as nat * height as nat,
{
    let rows_above = (height - 1 - j) as u64;
    proof {
        assert((rows_above * width as u64 + i as u64) < width as nat * height as nat) by (nonlinear_arith)
            requires
                rows_above < height,
                i < width,
        ;
        assert(width as nat * height as nat <= 0xffff_ffff * 0xffff_ffff) by (nonlinear_arith)
            requires
                width <= 0xffff_ffff,
                height <= 0xffff_ffff,
        ;
    }
    rows_above * width as u64 + i as u64
}


/// Every pixel of the image is written exactly once: the pixel at column `i`
/// and row `j` is written at one position of the scan, inside the image's
/// `width * height` positions, and the scan at that position yields back
/// column `i` and row `j`.
pub proof fn lemma_scan_round_trip(i: nat, j: nat, width: nat, height: nat)
    requires
        i < width,
        j < height,
    ensures
        0 <= scan_position(i, j, width, height) < width * height,
        scan_column(scan_position(i, j, width, height) as nat, width) == i,
        scan_row(scan_position(i, j, width, height) as nat, width, height) == j,
{
    let rows_above = height - 1 - j;
    let k = scan_position(i, j, width, height);
    assert(0 <= k < width * height) by (nonlinear_arith)
        requires
            k == rows_above * width + i,
            0 <= rows_above < height,
            i < width,
    ;
    vstd::arithmetic::div_mod::lemma_fundamental_div_mod_converse(
        k,
        width as int,
        rows_above,
        i as int,
    );
}

/// Each position of the scan names a pixel inside the image, and that pixel is
/// written at exactly that position.
pub proof fn lemma_scan_position_of_index(k: nat, width: nat, height: nat)
    requires
        k < width * height,
    ensures
        scan_column(k, width) < width,
        0 <= scan_row(k, width, height) < height,
        scan_position(scan_column(k, width), scan_row(k, width, height) as nat, width, height)
            == k,
{
    lemma_row_in_image(k as int, width as int, height as int);
    vstd::arithmetic::div_mod::lemma_fundamental_div_mod(k as int, width as int);
    vstd::arithmetic::mul::lemma_mul_is_commutative(width as int, (k / width) as int);
}

/// Rows are written from the top of the image down, and within a row the
/// columns go from left to right.
pub proof fn lemma_scan_top_to_bottom(k1: nat, k2: nat, width: nat, height: nat)
    requires
        width > 0,
        k1 <= k2,
    ensures
        scan_row(k1, width, height) >= scan_row(k2, width, height),
        scan_row(k1, width, height) == scan_row(k2, width, height) ==> scan_column(k1, width)
            <= scan_column(k2, width),
{
    vstd::arithmetic::div_mod::lemma_div_is_ordered(k1 as int, k2 as int, width as int);
    if k1 / width == k2 / width {
        vstd::arithmetic::div_mod::lemma_fundamental_div_mod(k1 as int, width as int);
        vstd::arithmetic::div_mod::lemma_fundamental_div_mod(k2 as int, width as int);
    }
}

} // verus!
