//! Text shown on the instrument cluster and timing panels.
use vstd::prelude::*;
use crate::text::{decimal, decimal_chars, extend_chars, extend_str, string_of, zero_padded, zero_padded_chars};

verus! {

/// A time in milliseconds as `MM:SS.mmm`; minutes keep growing past 99.
pub open spec fn clock_spec(millis: nat) -> Seq<char> {
    zero_padded(millis / 60_000, 2) + ":"@ + zero_padded((millis / 1000) % 60, 2) + "."@
        + zero_padded(millis % 1000, 3)
}

/// Formats a run time given in whole milliseconds.
pub fn clock_text(millis: u64) -> (r: String)
    ensures
        r@ == clock_spec(millis as nat),
{
    let mut m: Vec<char> = Vec::new();
    let minutes = zero_padded_chars((millis / 60_000) as u128, 2);
    let seconds = zero_padded_chars(((millis / 1000) % 60) as u128, 2);
    let rest = zero_padded_chars((millis % 1000) as u128, 3);
    extend_chars(&mut m, &minutes);
    extend_str(&mut m, ":");
    extend_chars(&mut m, &seconds);
    extend_str(&mut m, ".");
    extend_chars(&mut m, &rest);
    assert(m@ =~= clock_spec(millis as nat));
    string_of(&m)
}

/// A time that may be missing: the clock, or dashes in its place.
pub open spec fn optional_clock_spec(millis: Option<u64>) -> Seq<char> {
    match millis {
        Some(m) => clock_spec(m as nat),
        None => "--:--.---"@,
    }
}

/// Formats a best or last time, which does not exist before the first
/// counted run.
pub fn optional_clock_text(millis: Option<u64>) -> (r: String)
    ensures
        r@ == optional_clock_spec(millis),
{
    match millis {
        Some(m) => clock_text(m),
        None => String::from_str("--:--.---"),
    }
}

/// Checkpoint progress as `passed / count`, two digits each, never showing
/// more passed than exist.
pub open spec fn checkpoint_spec(passed: nat, count: nat) -> Seq<char> {
    let shown = if passed < count {
        passed
    } else {
        count
    };
    zero_padded(shown, 2) + " / "@ + zero_padded(count, 2)
}

/// Formats checkpoint progress.
pub fn checkpoint_text(passed: usize, count: usize) -> (r: String)
    ensures
        r@ == checkpoint_spec(passed as nat, count as nat),
{
    let shown = if passed < count {
        passed
    } else {
        count
    };
    let mut m: Vec<char> = Vec::new();
    let a = zero_padded_chars(shown as u128, 2);
    let b = zero_padded_chars(count as u128, 2);
    extend_chars(&mut m, &a);
    extend_str(&mut m, " / ");
    extend_chars(&mut m, &b);
    assert(m@ =~= checkpoint_spec(passed as nat, count as nat));
    string_of(&m)
}

/// The gear indicator: `N` for neutral (0), `R` for reverse (7), otherwise
/// the gear number.
pub open spec fn gear_spec(gear: u8) -> Seq<char> {
    if gear == 0 {
        "N"@
    } else if gear == 7 {
        "R"@
    } else {
        decimal(gear as nat)
    }
}

/// Formats the gear indicator.
pub fn gear_label(gear: u8) -> (r: String)
    ensures
        r@ == gear_spec(gear),
{
    if gear == 0 {
        String::from_str("N")
    } else if gear == 7 {
        String::from_str("R")
    } else {
        let d = decimal_chars(gear as u128);
        string_of(&d)
    }
}

/// The speedometer reading: whole km/h with at least three digits.
pub fn speed_text(kmh: u32) -> (r: String)
    ensures
        r@ == zero_padded(kmh as nat, 3),
{
    let d = zero_padded_chars(kmh as u128, 3);
    string_of(&d)
}

/// The traction label under the grip indicator.
pub open spec fn grip_spec(airborne: bool, offroad: bool, sliding: bool) -> Seq<char> {
    if airborne {
        "AIRBORNE"@
    } else if offroad {
        "OFF ROAD"@
    } else if sliding {
        "TRACTION"@
    } else {
        "GRIP"@
    }
}

/// Chooses the traction label: airborne first, then off road, then a slide.
pub fn grip_status(airborne: bool, offroad: bool, sliding: bool) -> (r: &'static str)
    ensures
        r@ == grip_spec(airborne, offroad, sliding),
{
    if airborne {
        "AIRBORNE"
    } else if offroad {
        "OFF ROAD"
    } else if sliding {
        "TRACTION"
    } else {
        "GRIP"
    }
}

} // verus!
