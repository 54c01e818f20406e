//! Human-readable text for the formats, sizes and intervals that a device
//! offers.
use vstd::prelude::*;
use crate::format::{lossy_text, text_of, FormatInfo, IntervalInfo, ResolutionInfo};

verus! {

/// The decimal digit of `d`, below ten.
pub open spec fn digit(d: nat) -> char {
    if d == 0 { '0' }
    else if d == 1 { '1' }
    else if d == 2 { '2' }
    else if d == 3 { '3' }
    else if d == 4 { '4' }
    else if d == 5 { '5' }
    else if d == 6 { '6' }
    else if d == 7 { '7' }
    else if d == 8 { '8' }
    else { '9' }
}

/// The decimal digits of `n`, without sign or leading zeros.
pub open spec fn decimal_text(n: nat) -> Seq<char>
    decreases n,
{
    if n < 10 {
        seq![digit(n)]
    } else {
        decimal_text(n / 10) + seq![digit(n % 10)]
    }
}

/// Relies on the `Display` of `u32`, through `ToString`: its decimal digits.
#[verifier::external_body]
fn decimal(n: u32) -> (r: String)
    ensures
        r@ == decimal_text(n as nat),
{
    n.to_string()
}

/// A frame size as `WIDTHxHEIGHT`.
pub open spec fn size_text(p: (u32, u32)) -> Seq<char> {
    decimal_text(p.0 as nat) + "x"@ + decimal_text(p.1 as nat)
}

/// A frame interval as the whole frames per second it gives.
pub open spec fn fps_text(p: (u32, u32)) -> Seq<char>
    recommends
        p.0 != 0,
{
    decimal_text((p.1 / p.0) as nat) + "fps"@
}

/// Each item preceded by a comma and a space.
pub open spec fn listed(items: Seq<Seq<char>>) -> Seq<char>
    decreases items.len(),
{
    if items.len() == 0 {
        Seq::empty()
    } else {
        listed(items.drop_last()) + ", "@ + items.last()
    }
}

/// The text of the frame sizes that a device offers.
pub open spec fn resolution_text(r: ResolutionInfo) -> Seq<char> {
    match r {
        ResolutionInfo::Discretes(d) => "Discretes: "@ + size_text(d@[0]) + listed(
            d@.drop_first().map_values(|p: (u32, u32)| size_text(p)),
        ),
        ResolutionInfo::Stepwise { min, max, step } => "Stepwise from "@ + size_text(min)
            + " to "@ + size_text(max) + " by "@ + size_text(step),
    }
}

/// The text of the frame intervals that a device offers.
pub open spec fn interval_text(r: IntervalInfo) -> Seq<char> {
    match r {
        IntervalInfo::Discretes(d) => "Discretes: "@ + fps_text(d@[0]) + listed(
            d@.drop_first().map_values(|p: (u32, u32)| fps_text(p)),
        ),
        IntervalInfo::Stepwise { min, max, step } => "Stepwise from "@ + fps_text(max)
            + " to "@ + fps_text(min) + " by "@ + fps_text(step),
    }
}

/// The words that follow a format's description for its flags.
pub open spec fn flags_text(compressed: bool, emulated: bool) -> Seq<char> {
    if compressed && emulated {
        ", compressed, emulated"@
    } else if compressed {
        ", compressed"@
    } else if emulated {
        ", emulated"@
    } else {
        ""@
    }
}

/// The text of a pixel format.
pub open spec fn format_text(f: FormatInfo) -> Seq<char> {
    lossy_text(f.format@) + " ("@ + f.description@ + flags_text(f.compressed, f.emulated) + ")"@
}

fn push_str(s: &mut String, t: &str)
    ensures
        final(s)@ == old(s)@ + t@,
{
    s.append(t);
}

fn push_size(s: &mut String, p: (u32, u32))
    ensures
        final(s)@ == old(s)@ + size_text(p),
{
    let w = decimal(p.0);
    let h = decimal(p.1);
    s.append(w.as_str());
    s.append("x");
    s.append(h.as_str());
    assert(final(s)@ =~= old(s)@ + size_text(p)) by {
        assert(s@ =~= old(s)@ + size_text(p));
    }
}

fn push_fps(s: &mut String, p: (u32, u32))
    requires
        p.0 != 0,
    ensures
        final(s)@ == old(s)@ + fps_text(p),
{
    let f = decimal(p.1 / p.0);
    s.append(f.as_str());
    s.append("fps");
    assert(s@ =~= old(s)@ + fps_text(p));
}

impl ResolutionInfo {
    /// The sizes as text: `Discretes: 640x480, 1280x720`, or
    /// `Stepwise from 16x16 to 1920x1080 by 8x4`.
    pub fn describe(&self) -> (r: String)
        requires
            self matches ResolutionInfo::Discretes(d) ==> d@.len() > 0,
        ensures
            r@ == resolution_text(*self),
    {
        match self {
            ResolutionInfo::Discretes(d) => {
                let mut s = String::from_str("Discretes: ");
                push_size(&mut s, d[0]);
                let ghost head = s@;
                let mut i: usize = 1;
                assert(d@.subrange(1, 1).map_values(|p: (u32, u32)| size_text(p)) =~= Seq::<Seq<char>>::empty());
                while i < d.len()
                    invariant
                        1 <= i <= d@.len(),
                        s@ == head + listed(d@.subrange(1, i as int).map_values(|p: (u32, u32)| size_text(p))),
                    decreases d@.len() - i,
                {
                    push_str(&mut s, ", ");
                    push_size(&mut s, d[i]);
                    let ghost items = d@.subrange(1, i as int + 1).map_values(|p: (u32, u32)| size_text(p));
                    assert(items.drop_last() =~= d@.subrange(1, i as int).map_values(|p: (u32, u32)| size_text(p)));
                    assert(d@.subrange(1, i as int + 1)[i as int - 1] == d@[i as int]);
                    assert(items.last() == size_text(d@[i as int]));
                    i = i + 1;
                    assert(s@ =~= head + listed(items));
                }
                assert(d@.subrange(1, d@.len() as int) =~= d@.drop_first());
                s
            },
            ResolutionInfo::Stepwise { min, max, step } => {
                let mut s = String::from_str("Stepwise from ");
                push_size(&mut s, *min);
                push_str(&mut s, " to ");
                push_size(&mut s, *max);
                push_str(&mut s, " by ");
                push_size(&mut s, *step);
                s
            },
        }
    }
}

impl IntervalInfo {
    /// The intervals as frames per second: `Discretes: 30fps, 15fps`, or
    /// `Stepwise from 60fps to 5fps by 1fps`.
    pub fn describe(&self) -> (r: String)
        requires
            self matches IntervalInfo::Discretes(d) ==> d@.len() > 0 && forall|i: int|
                0 <= i < d@.len() ==> (#[trigger] d@[i]).0 != 0,
            self matches IntervalInfo::Stepwise { min, max, step } ==> min.0 != 0 && max.0 != 0
                && step.0 != 0,
        ensures
            r@ == interval_text(*self),
    {
        match self {
            IntervalInfo::Discretes(d) => {
                let mut s = String::from_str("Discretes: ");
                push_fps(&mut s, d[0]);
                let ghost head = s@;
                let mut i: usize = 1;
                assert(d@.subrange(1, 1).map_values(|p: (u32, u32)| fps_text(p)) =~= Seq::<Seq<char>>::empty());
                while i < d.len()
                    invariant
                        1 <= i <= d@.len(),
                        forall|j: int| 0 <= j < d@.len() ==> (#[trigger] d@[j]).0 != 0,
                        s@ == head + listed(d@.subrange(1, i as int).map_values(|p: (u32, u32)| fps_text(p))),
                    decreases d@.len() - i,
                {
                    push_str(&mut s, ", ");
                    push_fps(&mut s, d[i]);
                    let ghost items = d@.subrange(1, i as int + 1).map_values(|p: (u32, u32)| fps_text(p));
                    assert(items.drop_last() =~= d@.subrange(1, i as int).map_values(|p: (u32, u32)| fps_text(p)));
                    assert(d@.subrange(1, i as int + 1)[i as int - 1] == d@[i as int]);
                    assert(items.last() == fps_text(d@[i as int]));
                    i = i + 1;
                    assert(s@ =~= head + listed(items));
                }
                assert(d@.subrange(1, d@.len() as int) =~= d@.drop_first());
                s
            },
            IntervalInfo::Stepwise { min, max, step } => {
                let mut s = String::from_str("Stepwise from ");
                push_fps(&mut s, *max);
                push_str(&mut s, " to ");
                push_fps(&mut s, *min);
                push_str(&mut s, " by ");
                push_fps(&mut s, *step);
                s
            },
        }
    }
}

impl FormatInfo {
    /// The format as text: its code, then its description and flags in
    /// parentheses, e.g. `MJPG (Motion-JPEG, compressed)`.
    pub fn describe(&self) -> (r: String)
        ensures
            r@ == format_text(*self),
    {
        let mut s = text_of(&self.format);
        push_str(&mut s, " (");
        push_str(&mut s, self.description.as_str());
        if self.compressed && self.emulated {
            push_str(&mut s, ", compressed, emulated");
        } else if self.compressed {
            push_str(&mut s, ", compressed");
        } else if self.emulated {
            push_str(&mut s, ", emulated");
        } else {
            push_str(&mut s, "");
        }
        push_str(&mut s, ")");
        assert(s@ =~= format_text(*self));
        s
    }
}

} // verus!
