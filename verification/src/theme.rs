//! One palette for the whole UI, so nothing picks a colour on its own. The
//! front end maps each tone to a fixed RGB value.

use vstd::prelude::*;

verus! {

/// A colour role of the palette.
#[derive(PartialEq, Eq, Structural, Clone, Copy, Debug)]
pub enum Tone {
    Text,
    MuteText,
    Faint,
    Line,
    Focus,
    Green,
    Amber,
    Red,
    Violet,
    Cyan,
    Ink,
}

/// Meter colour for the position `num / den` along the scale: the last 15%
/// (from 85%) reads as clipping, the 15% before that (from 70%) as hot.
pub open spec fn spec_zone(num: nat, den: nat) -> Tone {
    if 100 * num >= 85 * den {
        Tone::Red
    } else if 100 * num >= 70 * den {
        Tone::Amber
    } else {
        Tone::Green
    }
}

pub fn zone(num: u64, den: u64) -> (t: Tone)
    requires
        0 < den,
    ensures
        t == spec_zone(num as nat, den as nat),
{
    let n: u128 = 100 * num as u128;
    if n >= 85 * den as u128 {
        Tone::Red
    } else if n >= 70 * den as u128 {
        Tone::Amber
    } else {
        Tone::Green
    }
}

/// Colour of a battery percentage.
pub open spec fn spec_battery_tone(pct: u16) -> Tone {
    if pct <= 15 {
        Tone::Red
    } else if pct <= 35 {
        Tone::Amber
    } else {
        Tone::Green
    }
}

pub fn battery(pct: u16) -> (t: Tone)
    ensures
        t == spec_battery_tone(pct),
{
    if pct <= 15 {
        Tone::Red
    } else if pct <= 35 {
        Tone::Amber
    } else {
        Tone::Green
    }
}

/// Law: the zones are ordered along the scale: once a position reads hot it
/// never reads safe further up, and once it reads as clipping it stays so.
pub proof fn lemma_zone_monotone(a: nat, b: nat, den: nat)
    requires
        a <= b,
    ensures
        spec_zone(a, den) == Tone::Red ==> spec_zone(b, den) == Tone::Red,
        spec_zone(a, den) == Tone::Amber ==> spec_zone(b, den) != Tone::Green,
{
}

/// Law: the meter zones by position: green below 70% of the scale, amber
/// from 70% to below 85%, red from 85%.
pub proof fn lemma_zone_thresholds(num: nat, den: nat)
    requires
        den > 0,
    ensures
        (spec_zone(num, den) == Tone::Red) <==> 100 * num >= 85 * den,
        (spec_zone(num, den) == Tone::Amber) <==> 70 * den <= 100 * num < 85 * den,
        (spec_zone(num, den) == Tone::Green) <==> 100 * num < 70 * den,
{
}

/// Law: the battery reads red up to 15%, amber from 16% to 35%, green above.
pub proof fn lemma_battery_tones(pct: u16)
    ensures
        (spec_battery_tone(pct) == Tone::Red) <==> pct <= 15,
        (spec_battery_tone(pct) == Tone::Amber) <==> 16 <= pct <= 35,
        (spec_battery_tone(pct) == Tone::Green) <==> pct >= 36,
{
}

} // verus!
