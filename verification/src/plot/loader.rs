//! What part of an array a plot reads: fixed indices for the leading
//! dimensions and a centred window of the last two, within a pixel budget.
use vstd::prelude::*;

use std::ops::Range;

use crate::comparison::array_io::{range_pair, ranges_view};
use crate::debug_text::{decimal, u64_text, u64s_debug, u64s_debug_text};
use crate::plot::flags::FlagSelection;
use crate::text::{chars_concat, str_chars, string_from_chars};

verus! {

/// Largest number of pixels a heatmap shows (4096 × 4096).
pub const MAX_PLOT_PIXELS: u64 = 16777216;

/// Parameters for loading and plotting a Zarr array subset.
#[derive(Clone, Debug, PartialEq, Eq)]
pub struct PlotRequest {
    /// Hierarchy path of the array to plot.
    pub array_path: String,
    /// Fixed indices for dimensions above the trailing 2D slice.
    pub slice_indices: Vec<usize>,
    /// Raw values or a selected CF flag layer.
    pub flag_selection: FlagSelection,
    /// Spatial window size as a percentage of each plotted dimension (1–100).
    pub resolution_percent: u8,
    /// Keep one pixel every N along plotted dimensions (≥ 1).
    pub sample_stride: u32,
}

impl PlotRequest {
    /// Default request for an array: raw values at full resolution, no
    /// fixed indices, every pixel kept.
    pub fn new(array_path: &str) -> (r: PlotRequest)
        ensures
            r.array_path@ == array_path@,
            r.slice_indices@.len() == 0,
            r.flag_selection == FlagSelection::Raw,
            r.resolution_percent == 100,
            r.sample_stride == 1,
    {
        PlotRequest {
            array_path: String::from_str(array_path),
            slice_indices: Vec::new(),
            flag_selection: FlagSelection::Raw,
            resolution_percent: 100,
            sample_stride: 1,
        }
    }
}

pub open spec fn clamp_pct(pct: int) -> int {
    if pct < 1 {
        1
    } else if pct > 100 {
        100
    } else {
        pct
    }
}

/// Pixels kept along a dimension of size `full` at `pct` percent: rounded
/// up, at least one.
pub open spec fn spec_target_dim(full: int, pct: int) -> int {
    let v = (full * clamp_pct(pct) + 99) / 100;
    if v < 1 {
        1
    } else {
        v
    }
}

/// The integer square root: the `r` with `r² ≤ x < (r+1)²`.
pub open spec fn is_isqrt(x: int, r: int) -> bool {
    r >= 0 && r * r <= x && x < (r + 1) * (r + 1)
}

pub open spec fn isqrt(x: int) -> int {
    choose|r: int| is_isqrt(x, r)
}

pub open spec fn at_least_one(v: int) -> int {
    if v < 1 {
        1
    } else {
        v
    }
}

/// Window sizes within the pixel budget: unchanged when `h × w` fits, else
/// each side scaled by `√(MAX / (h × w))` and rounded down (at least one).
/// The rounding is that of the exact real number (`⌊h·√(MAX/(h·w))⌋ =
/// ⌊√(h·MAX/w)⌋`); the viewer's `f64` arithmetic approximates it, and can
/// differ by one where a floating-point rounding crosses a whole number.
pub open spec fn spec_pixel_budget(h: int, w: int) -> (int, int, bool) {
    if h * w <= MAX_PLOT_PIXELS {
        (h, w, false)
    } else {
        (
            at_least_one(isqrt((h * MAX_PLOT_PIXELS) / w)),
            at_least_one(isqrt((w * MAX_PLOT_PIXELS) / h)),
            true,
        )
    }
}

/// The centred window of `target` along a dimension of `size`.
pub open spec fn spec_center_crop(size: int, target: int) -> (int, int) {
    if size <= target {
        (0, size)
    } else {
        ((size - target) / 2, (size - target) / 2 + target)
    }
}

proof fn lemma_isqrt_unique(x: int, r: int, s: int)
    requires
        is_isqrt(x, r),
        is_isqrt(x, s),
    ensures
        r == s,
{
    if r < s {
        assert((r + 1) * (r + 1) <= s * s) by (nonlinear_arith)
            requires
                0 <= r + 1 <= s,
        ;
    } else if s < r {
        assert((s + 1) * (s + 1) <= r * r) by (nonlinear_arith)
            requires
                0 <= s + 1 <= r,
        ;
    }
}

/// Integer square root of `x` (`x < 2^96`), by bisection.
fn isqrt_exec(x: u128) -> (r: u64)
    requires
        x < 0x1_0000_0000_0000_0000_0000_0000u128,
    ensures
        r as int == isqrt(x as int),
{
    let mut lo: u64 = 0;
    let mut hi: u64 = 0x1_0000_0000_0000u64;
    proof {
        assert(0x1_0000_0000_0000int * 0x1_0000_0000_0000int == 0x1_0000_0000_0000_0000_0000_0000int);
    }
    while hi - lo > 1
        invariant
            lo < hi,
            hi <= 0x1_0000_0000_0000u64,
            (lo as int) * (lo as int) <= x as int,
            (x as int) < (hi as int) * (hi as int),
        decreases hi - lo,
    {
        let mid: u64 = lo + (hi - lo) / 2;
        proof {
            assert((mid as int) * (mid as int) <= 0x1_0000_0000_0000int * 0x1_0000_0000_0000int)
                by (nonlinear_arith)
                requires
                    mid <= 0x1_0000_0000_0000u64,
            ;
        }
        let sq: u128 = (mid as u128) * (mid as u128);
        if sq <= x {
            lo = mid;
        } else {
            hi = mid;
        }
    }
    proof {
        assert(hi == lo + 1);
        assert(is_isqrt(x as int, lo as int));
        lemma_isqrt_unique(x as int, lo as int, isqrt(x as int));
    }
    lo
}

fn spatial_target_dim(full: u64, pct: u8) -> (r: u64)
    ensures
        r as int == spec_target_dim(full as int, pct as int),
        r >= 1,
        r as int <= at_least_one(full as int),
{
    let p: u64 = if pct < 1 {
        1
    } else if pct > 100 {
        100
    } else {
        pct as u64
    };
    proof {
        assert((full as int) * (p as int) <= 0xffff_ffff_ffff_ffffint * 100) by (nonlinear_arith)
            requires
                p <= 100,
                full <= 0xffff_ffff_ffff_ffffu64,
        ;
    }
    let prod: u128 = (full as u128) * (p as u128);
    let v: u128 = (prod + 99) / 100;
    proof {
        assert((full as int) * (p as int) <= (full as int) * 100) by (nonlinear_arith)
            requires
                p <= 100,
        ;
        assert(v <= full || v <= 1);
    }
    if v < 1 {
        1
    } else {
        v as u64
    }
}

fn apply_pixel_budget(h: u64, w: u64) -> (r: (u64, u64, bool))
    requires
        h >= 1,
        w >= 1,
    ensures
        (r.0 as int, r.1 as int, r.2) == spec_pixel_budget(h as int, w as int),
{
    proof {
        assert((h as int) * (w as int) <= 0xffff_ffff_ffff_ffffint * 0xffff_ffff_ffff_ffffint)
            by (nonlinear_arith)
            requires
                h <= 0xffff_ffff_ffff_ffffu64,
                w <= 0xffff_ffff_ffff_ffffu64,
        ;
    }
    let pixels: u128 = (h as u128) * (w as u128);
    if pixels <= MAX_PLOT_PIXELS as u128 {
        return (h, w, false);
    }
    let hm: u128 = (h as u128) * (MAX_PLOT_PIXELS as u128) / (w as u128);
    let wm: u128 = (w as u128) * (MAX_PLOT_PIXELS as u128) / (h as u128);
    proof {
        assert((h as int) * MAX_PLOT_PIXELS <= 0xffff_ffff_ffff_ffffint * 16777216) by (nonlinear_arith)
            requires
                h <= 0xffff_ffff_ffff_ffffu64,
        ;
        assert((w as int) * MAX_PLOT_PIXELS <= 0xffff_ffff_ffff_ffffint * 16777216) by (nonlinear_arith)
            requires
                w <= 0xffff_ffff_ffff_ffffu64,
        ;
    }
    let a = isqrt_exec(hm);
    let b = isqrt_exec(wm);
    let a1: u64 = if a < 1 {
        1
    } else {
        a
    };
    let b1: u64 = if b < 1 {
        1
    } else {
        b
    };
    (a1, b1, true)
}

fn center_crop_range(size: u64, target: u64) -> (r: Range<u64>)
    ensures
        range_pair(r) == spec_center_crop(size as int, target as int),
{
    if size <= target {
        return Range { start: 0, end: size };
    }
    let start = (size - target) / 2;
    Range { start: start, end: start + target }
}

/// Why a plot request does not fit the array's shape.
#[derive(Clone, Debug, PartialEq, Eq)]
pub enum SubsetError {
    /// One fixed index is needed per dimension above the last two.
    SliceCount { expected: u64, shape: Vec<u64>, got: u64 },
    /// A fixed index is not below its dimension's size.
    OutOfRange { index: u64, size: u64 },
}

pub enum SubsetErrorView {
    SliceCount { expected: u64, shape: Seq<u64>, got: u64 },
    OutOfRange { index: u64, size: u64 },
}

impl View for SubsetError {
    type V = SubsetErrorView;

    open spec fn view(&self) -> SubsetErrorView {
        match self {
            SubsetError::SliceCount { expected, shape, got } => SubsetErrorView::SliceCount {
                expected: *expected,
                shape: shape@,
                got: *got,
            },
            SubsetError::OutOfRange { index, size } => SubsetErrorView::OutOfRange {
                index: *index,
                size: *size,
            },
        }
    }
}

pub open spec fn subset_error_text(e: SubsetErrorView) -> Seq<char> {
    match e {
        SubsetErrorView::SliceCount { expected, shape, got } => "expected "@ + decimal(
            expected as nat,
        ) + " slice indices for shape "@ + u64s_debug(shape) + ", got "@ + decimal(got as nat),
        SubsetErrorView::OutOfRange { index, size } => "slice index "@ + decimal(index as nat)
            + " out of range for dimension size "@ + decimal(size as nat),
    }
}

fn join4(a: &str, b: &str, c: &str, d: &str) -> (r: String)
    ensures
        r@ == a@ + b@ + c@ + d@,
{
    let x = str_chars(a);
    let y = str_chars(b);
    let z = str_chars(c);
    let w = str_chars(d);
    let xy = chars_concat(&x, &y);
    let xyz = chars_concat(&xy, &z);
    let all = chars_concat(&xyz, &w);
    string_from_chars(&all)
}

impl SubsetError {
    /// The error text.
    pub fn message(&self) -> (r: String)
        ensures
            r@ == subset_error_text(self@),
    {
        match self {
            SubsetError::SliceCount { expected, shape, got } => {
                let e = u64_text(*expected);
                let s = u64s_debug_text(shape.as_slice());
                let g = u64_text(*got);
                let first = join4("expected ", e.as_str(), " slice indices for shape ", s.as_str());
                proof {
                    reveal_strlit("");
                }
                join4(first.as_str(), ", got ", g.as_str(), "")
            },
            SubsetError::OutOfRange { index, size } => {
                let i = u64_text(*index);
                let z = u64_text(*size);
                join4("slice index ", i.as_str(), " out of range for dimension size ", z.as_str())
            },
        }
    }
}

/// Number of fixed indices a shape needs: one per dimension above the last two.
pub open spec fn extra_dims(n: int) -> int {
    if n >= 2 {
        n - 2
    } else {
        0
    }
}

/// Read ranges for a plot request, with the row and column windows and
/// whether the pixel budget reduced the resolution.
pub open spec fn spec_build_subset(shape: Seq<u64>, slices: Seq<usize>, pct: int) -> Result<
    (Seq<(int, int)>, (int, int), (int, int), bool),
    SubsetErrorView,
> {
    let n = shape.len() as int;
    if n == 0 {
        Ok((seq![(0int, 1int)], (0int, 1int), (0int, 1int), false))
    } else if slices.len() != extra_dims(n) {
        Err(
            SubsetErrorView::SliceCount {
                expected: extra_dims(n) as u64,
                shape: shape,
                got: slices.len() as u64,
            },
        )
    } else if exists|i: int| 0 <= i < slices.len() && slices[i] >= shape[i] {
        let i = choose|i: int|
            0 <= i < slices.len() && slices[i] >= shape[i] && forall|j: int|
                0 <= j < i ==> slices[j] < shape[j];
        Err(SubsetErrorView::OutOfRange { index: slices[i] as u64, size: shape[i] })
    } else {
        let fixed = Seq::new(slices.len(), |i: int| (slices[i] as int, slices[i] as int + 1));
        if n >= 2 {
            let h = spec_target_dim(shape[n - 2] as int, pct);
            let w = spec_target_dim(shape[n - 1] as int, pct);
            let b = spec_pixel_budget(h, w);
            let y = spec_center_crop(shape[n - 2] as int, b.0);
            let x = spec_center_crop(shape[n - 1] as int, b.1);
            Ok((fixed.push(y).push(x), y, x, b.2))
        } else {
            let requested = spec_target_dim(shape[0] as int, pct);
            let len = if requested > MAX_PLOT_PIXELS {
                MAX_PLOT_PIXELS as int
            } else {
                requested
            };
            let r = spec_center_crop(shape[0] as int, len);
            Ok((seq![r], (0int, 1int), r, len < requested))
        }
    }
}


fn copy_shape(s: &[u64]) -> (r: Vec<u64>)
    ensures
        r@ == s@,
{
    let mut r: Vec<u64> = Vec::new();
    let mut i: usize = 0;
    while i < s.len()
        invariant
            i <= s.len(),
            r@ == s@.subrange(0, i as int),
        decreases s.len() - i,
    {
        r.push(s[i]);
        i = i + 1;
        assert(r@ =~= s@.subrange(0, i as int));
    }
    assert(s@.subrange(0, s@.len() as int) =~= s@);
    r
}

/// Build per-dimension read ranges for a plot request: one fixed index for
/// each dimension above the last two, then the centred windows of the last
/// two (or of the only one) at `resolution_percent`, reduced to the pixel
/// budget. An empty shape reads `0..1`.
pub fn build_subset(shape: &[u64], slice_indices: &[usize], resolution_percent: u8) -> (r: Result<
    (Vec<Range<u64>>, Range<u64>, Range<u64>, bool),
    SubsetError,
>)
    ensures
        match spec_build_subset(shape@, slice_indices@, resolution_percent as int) {
            Ok((rs, y, x, capped)) => r matches Ok((v, ry, rx, c)) && ranges_view(v@) == rs
                && range_pair(ry) == y && range_pair(rx) == x && c == capped,
            Err(e) => r matches Err(err) && err@ == e,
        },
{
    if shape.len() == 0 {
        let mut v: Vec<Range<u64>> = Vec::new();
        v.push(Range { start: 0, end: 1 });
        assert(ranges_view(v@) =~= seq![(0int, 1int)]);
        return Ok((v, Range { start: 0, end: 1 }, Range { start: 0, end: 1 }, false));
    }
    let n = shape.len();
    let extra: usize = if n >= 2 {
        n - 2
    } else {
        0
    };
    if slice_indices.len() != extra {
        return Err(
            SubsetError::SliceCount {
                expected: extra as u64,
                shape: copy_shape(shape),
                got: slice_indices.len() as u64,
            },
        );
    }
    let mut subset: Vec<Range<u64>> = Vec::new();
    let mut i: usize = 0;
    while i < slice_indices.len()
        invariant
            i <= slice_indices.len(),
            slice_indices.len() == extra,
            extra <= n,
            n == shape.len(),
            n > 0,
            extra as int == extra_dims(n as int),
            forall|j: int| 0 <= j < i ==> slice_indices@[j] < shape@[j],
            ranges_view(subset@) == Seq::new(
                i as nat,
                |k: int| (slice_indices@[k] as int, slice_indices@[k] as int + 1),
            ),
        decreases slice_indices.len() - i,
    {
        let idx = slice_indices[i];
        if idx as u64 >= shape[i] {
            proof {
                let w = i as int;
                assert(0 <= w < slice_indices@.len() && slice_indices@[w] >= shape@[w]);
                let c = choose|c: int|
                    0 <= c < slice_indices@.len() && slice_indices@[c] >= shape@[c] && forall|j: int|
                        0 <= j < c ==> slice_indices@[j] < shape@[j];
                assert(c == w) by {
                    if c < w {
                        assert(slice_indices@[c] < shape@[c]);
                    } else if c > w {
                        assert(slice_indices@[w] < shape@[w]);
                    }
                }
            }
            return Err(SubsetError::OutOfRange { index: idx as u64, size: shape[i] });
        }
        let ghost before = subset@;
        subset.push(Range { start: idx as u64, end: idx as u64 + 1 });
        assert(ranges_view(subset@) =~= ranges_view(before).push(
            (slice_indices@[i as int] as int, slice_indices@[i as int] as int + 1),
        ));
        assert(ranges_view(subset@) =~= Seq::new(
            (i + 1) as nat,
            |k: int| (slice_indices@[k] as int, slice_indices@[k] as int + 1),
        ));
        i = i + 1;
    }
    proof {
        assert(!(exists|j: int| 0 <= j < slice_indices@.len() && slice_indices@[j] >= shape@[j]));
    }
    if n >= 2 {
        let h = spatial_target_dim(shape[n - 2], resolution_percent);
        let w = spatial_target_dim(shape[n - 1], resolution_percent);
        let (h2, w2, capped) = apply_pixel_budget(h, w);
        let y = center_crop_range(shape[n - 2], h2);
        let x = center_crop_range(shape[n - 1], w2);
        let ghost fixed = ranges_view(subset@);
        subset.push(Range { start: y.start, end: y.end });
        subset.push(Range { start: x.start, end: x.end });
        assert(ranges_view(subset@) =~= fixed.push(range_pair(y)).push(range_pair(x)));
        Ok((subset, y, x, capped))
    } else {
        let requested = spatial_target_dim(shape[0], resolution_percent);
        let len: u64 = if requested > MAX_PLOT_PIXELS {
            MAX_PLOT_PIXELS
        } else {
            requested
        };
        let r = center_crop_range(shape[0], len);
        let mut v: Vec<Range<u64>> = Vec::new();
        v.push(Range { start: r.start, end: r.end });
        assert(ranges_view(v@) =~= seq![range_pair(r)]);
        Ok((v, r_copy_zero(), r, len < requested))
    }
}

fn r_copy_zero() -> (r: Range<u64>)
    ensures
        range_pair(r) == (0int, 1int),
{
    Range { start: 0, end: 1 }
}

/// When neither side is brought down to one pixel, the reduced window fits
/// the pixel budget; reduced sides are never larger than requested.
pub proof fn lemma_pixel_budget_fits(h: int, w: int)
    requires
        h >= 1,
        w >= 1,
        h * w > MAX_PLOT_PIXELS,
        isqrt((h * MAX_PLOT_PIXELS) / w) >= 1,
        isqrt((w * MAX_PLOT_PIXELS) / h) >= 1,
    ensures
        spec_pixel_budget(h, w).0 * spec_pixel_budget(h, w).1 <= MAX_PLOT_PIXELS,
        spec_pixel_budget(h, w).0 <= h,
        spec_pixel_budget(h, w).1 <= w,
{
    let m = MAX_PLOT_PIXELS as int;
    let x = (h * m) / w;
    let y = (w * m) / h;
    let a = isqrt(x);
    let b = isqrt(y);
    lemma_isqrt_exists(x);
    lemma_isqrt_exists(y);
    assert(a * a <= x && b * b <= y);
    assert(x * w <= h * m) by (nonlinear_arith)
        requires
            w >= 1,
            x == (h * m) / w,
            h * m >= 0,
    ;
    assert(y * h <= w * m) by (nonlinear_arith)
        requires
            h >= 1,
            y == (w * m) / h,
            w * m >= 0,
    ;
    assert((a * b) * (a * b) <= m * m) by (nonlinear_arith)
        requires
            a >= 1,
            b >= 1,
            a * a <= x,
            b * b <= y,
            x * w <= h * m,
            y * h <= w * m,
            h >= 1,
            w >= 1,
            x >= 0,
            y >= 0,
            m >= 0,
    {
        assert((a * a) * (b * b) <= x * y);
        assert((x * y) * (h * w) <= (h * m) * (w * m));
    }
    assert(a * b <= m) by (nonlinear_arith)
        requires
            (a * b) * (a * b) <= m * m,
            a >= 1,
            b >= 1,
            m >= 0,
    ;
    assert(a <= h) by (nonlinear_arith)
        requires
            a * a <= x,
            x * w <= h * m,
            h * w > m,
            w >= 1,
            a >= 1,
            h >= 1,
    {
        assert(x * w < h * (h * w));
        assert(x < h * h);
    }
    assert(b <= w) by (nonlinear_arith)
        requires
            b * b <= y,
            y * h <= w * m,
            h * w > m,
            h >= 1,
            b >= 1,
            w >= 1,
    {
        assert(y * h < w * (h * w));
        assert(y < w * w);
    }
}

proof fn lemma_isqrt_exists(x: int)
    requires
        x >= 0,
    ensures
        is_isqrt(x, isqrt(x)),
{
    let r = isqrt_witness(x, 0);
    assert(is_isqrt(x, r));
}

proof fn isqrt_witness(x: int, r: int) -> (s: int)
    requires
        x >= 0,
        r >= 0,
        r * r <= x,
    ensures
        is_isqrt(x, s),
    decreases x - r,
{
    if x < (r + 1) * (r + 1) {
        r
    } else {
        assert(r + 1 <= x) by (nonlinear_arith)
            requires
                (r + 1) * (r + 1) <= x,
                r >= 0,
        ;
        isqrt_witness(x, r + 1)
    }
}

} // verus!
