//! Popup sizing: overlays take a configurable share of the terminal.
use vstd::prelude::*;

verus! {

/// Default share of the terminal width, in percent.
pub const DEFAULT_POPUP_WIDTH_PERCENT: u8 = 95;
/// Default share of the terminal height, in percent.
pub const DEFAULT_POPUP_HEIGHT_PERCENT: u8 = 90;
/// Smallest popup dimension, in cells.
pub const MIN_POPUP_DIMENSION: usize = 3;

/// The configured popup percentages, each kept in 10..=100.
pub struct PopupPercent {
    width: u8,
    height: u8,
}

impl PopupPercent {
    /// Both percentages are in range.
    pub closed spec fn wf(&self) -> bool {
        10 <= self.width <= 100 && 10 <= self.height <= 100
    }

    /// Configured width percentage.
    pub closed spec fn width(&self) -> u8 {
        self.width
    }

    /// Configured height percentage.
    pub closed spec fn height(&self) -> u8 {
        self.height
    }

    /// The defaults: 95% of the width and 90% of the height.
    pub fn new() -> (p: Self)
        ensures
            p.wf(),
            p.width() == DEFAULT_POPUP_WIDTH_PERCENT,
            p.height() == DEFAULT_POPUP_HEIGHT_PERCENT,
    {
        PopupPercent { width: DEFAULT_POPUP_WIDTH_PERCENT, height: DEFAULT_POPUP_HEIGHT_PERCENT }
    }
}

/// `v` clamped to 10..=100.
pub open spec fn clamp_percent(v: u8) -> u8 {
    if v < 10 {
        10
    } else if v > 100 {
        100
    } else {
        v
    }
}

fn clamp_to_percent(v: u8) -> (r: u8)
    ensures
        r == clamp_percent(v),
{
    if v < 10 {
        10
    } else if v > 100 {
        100
    } else {
        v
    }
}

/// Configure the popup-size percentages. Values outside [10, 100] are clamped;
/// pass 80 to mirror the historical default.
pub fn set_popup_percent(layout: &mut PopupPercent, width: u8, height: u8)
    ensures
        final(layout).wf(),
        final(layout).width() == clamp_percent(width),
        final(layout).height() == clamp_percent(height),
{
    layout.width = clamp_to_percent(width);
    layout.height = clamp_to_percent(height);
}

/// The configured width percentage.
pub fn popup_width_percent(layout: &PopupPercent) -> (r: u8)
    ensures
        r == layout.width(),
{
    layout.width
}

/// The configured height percentage.
pub fn popup_height_percent(layout: &PopupPercent) -> (r: u8)
    ensures
        r == layout.height(),
{
    layout.height
}

/// `⌊n · pct / 100⌋`, at least `MIN_POPUP_DIMENSION`.
pub open spec fn scaled_dimension(n: nat, pct: nat) -> nat {
    let v = n * pct / 100;
    if v < MIN_POPUP_DIMENSION {
        MIN_POPUP_DIMENSION as nat
    } else {
        v
    }
}

/// `⌊n · pct / 100⌋` computed without overflow for `pct <= 100`.
fn scale(n: usize, pct: u8) -> (r: usize)
    requires
        pct <= 100,
    ensures
        r == n * pct / 100,
{
    let q = n / 100;
    let rem = n % 100;
    let p = pct as usize;
    proof {
        assert(n == 100 * q + rem);
        assert(n * p == 100 * (q * p) + rem * p) by (nonlinear_arith)
            requires
                n == 100 * q + rem,
        ;
        assert((100 * (q * p) + rem * p) / 100 == q * p + (rem * p) / 100) by (nonlinear_arith)
            requires
                rem * p >= 0,
        ;
        assert(q * p <= n) by (nonlinear_arith)
            requires
                p <= 100,
                q == n / 100,
        ;
        assert(rem * p < 10000) by (nonlinear_arith)
            requires
                rem < 100,
                p <= 100,
        ;
        assert((n * p) / 100 <= n) by (nonlinear_arith)
            requires
                p <= 100,
        ;
        assert(q * p + (rem * p) / 100 == (n * p) / 100);
    }
    q * p + rem * p / 100
}

/// Compute (popup_w, popup_h) for an overlay given the terminal dimensions.
/// Honors the configured percentages and the historical floor of 3 cells.
pub fn popup_size(layout: &PopupPercent, cols: usize, rows: usize) -> (r: (usize, usize))
    requires
        layout.wf(),
    ensures
        r.0 == scaled_dimension(cols as nat, layout.width() as nat),
        r.1 == scaled_dimension(rows as nat, layout.height() as nat),
{
    let w = scale(cols, popup_width_percent(layout));
    let h = scale(rows, popup_height_percent(layout));
    (if w < MIN_POPUP_DIMENSION {
        MIN_POPUP_DIMENSION
    } else {
        w
    }, if h < MIN_POPUP_DIMENSION {
        MIN_POPUP_DIMENSION
    } else {
        h
    })
}

} // verus!
