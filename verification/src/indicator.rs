//! The pointer-following indicator marker: its colors and its placement.
//!
//! The marker window itself belongs to the UI layer; this module fixes
//! where it sits relative to the pointer and which color each pipeline
//! stage shows.

use vstd::prelude::*;

verus! {

/// What the indicator currently signals.
#[derive(Clone, Copy, PartialEq, Eq, Structural, Debug)]
pub enum IndicatorColor {
    /// Audio is being captured: a calm teal.
    Recording,
    /// The correction request is in flight: a contrasting red.
    Processing,
}

/// The hex color shown for each stage.
pub fn indicator_color(c: IndicatorColor) -> (r: &'static str)
    ensures
        c is Recording ==> r@ == "#4f9d9a"@,
        c is Processing ==> r@ == "#dc2626"@,
{
    match c {
        IndicatorColor::Recording => "#4f9d9a",
        IndicatorColor::Processing => "#dc2626",
    }
}

/// Marker x: 12 units right of the pointer (saturating at the screen
/// coordinate range).
pub open spec fn spec_indicator_x(x: i64) -> int {
    if x + 12 <= i64::MAX {
        x + 12
    } else {
        i64::MAX as int
    }
}

/// Marker y: 12 units above the pointer (saturating at the screen
/// coordinate range).
pub open spec fn spec_indicator_y(y: i64) -> int {
    if y - 12 >= i64::MIN {
        y - 12
    } else {
        i64::MIN as int
    }
}

/// Where the marker goes for a pointer at `(x, y)`: right of and
/// vertically centered on the pointer tip at the default glyph size.
pub fn indicator_position(x: i64, y: i64) -> (r: (i64, i64))
    ensures
        r.0 == spec_indicator_x(x),
        r.1 == spec_indicator_y(y),
{
    let nx = if x <= i64::MAX - 12 {
        x + 12
    } else {
        i64::MAX
    };
    let ny = if y >= i64::MIN + 12 {
        y - 12
    } else {
        i64::MIN
    };
    (nx, ny)
}

} // verus!
