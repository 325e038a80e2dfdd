//! Text marks, the health label, and the color class of a health score.

use vstd::prelude::*;
use crate::text::{chars_of, push_all, string_of};

verus! {

/// `✓ <text>`.
pub fn mark_success(text: &str) -> (r: String)
    ensures
        r@ == "✓ "@ + text@,
{
    let mut t = chars_of("✓ ");
    let c = chars_of(text);
    push_all(&mut t, c.as_slice());
    string_of(t.as_slice())
}

/// `✗ <text>`.
pub fn mark_error(text: &str) -> (r: String)
    ensures
        r@ == "✗ "@ + text@,
{
    let mut t = chars_of("✗ ");
    let c = chars_of(text);
    push_all(&mut t, c.as_slice());
    string_of(t.as_slice())
}

/// The qualitative label of a health score: under 30 poor, under 60 fair,
/// else good.
pub fn health_label(score: i64) -> (r: &'static str)
    ensures
        r@ == (if score < 30 {
            "Poor"@
        } else if score < 60 {
            "Fair"@
        } else {
            "Good"@
        }),
{
    if score < 30 {
        "Poor"
    } else if score < 60 {
        "Fair"
    } else {
        "Good"
    }
}

/// The color class of a reading: the failure color, amber, or the success
/// color.
#[derive(Clone, Copy, Debug, PartialEq, Eq, Structural)]
pub enum Hue {
    Danger,
    Amber,
    Success,
}

/// The color class of a health score: under 30 the failure color, under
/// 60 amber, else the success color.
pub fn health_color(score: i64) -> (h: Hue)
    ensures
        h == (if score < 30 {
            Hue::Danger
        } else if score < 60 {
            Hue::Amber
        } else {
            Hue::Success
        }),
{
    if score < 30 {
        Hue::Danger
    } else if score < 60 {
        Hue::Amber
    } else {
        Hue::Success
    }
}

} // verus!
