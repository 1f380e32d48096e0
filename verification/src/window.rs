//! What the desktop window mirrors of the receiver, and how announcements
//! update it.
//!
//! The window keeps the noise reduction setting as the selector position it
//! shows (0 off, 1 low, 2 mid, 3 high) and follows the receiver's own button
//! order: see `panel::spec_segment_after`.

use vstd::prelude::*;
use crate::panel::{
    nr_segment, segment_after, spec_nr_segment, spec_segment_after, spec_segment_after_all,
};
use crate::protocol::{
    level_units, spec_level_units, BATTERY, GAIN, LEVEL, LIGHT, LIGHT_MODE, MUTE, NR, NR_LEVEL,
};

verus! {

/// The window's mirror of the receiver.
#[derive(PartialEq, Eq, Structural, Clone, Copy, Debug)]
pub struct Window {
    /// Battery percent, 0 until it answers.
    pub battery: u16,
    pub muted: bool,
    pub gain: u16,
    /// Noise reduction selector position, 0 to 3.
    pub nr: u16,
    pub light_on: bool,
    pub light_mode: u16,
    /// Input level in meter units, 0 to 63.
    pub units: u16,
}

/// A reading, 0 when the field did not answer.
pub open spec fn or_zero(v: Option<u16>) -> u16 {
    match v {
        Some(x) => x,
        None => 0,
    }
}

fn value_or_zero(v: Option<u16>) -> (x: u16)
    ensures
        x == or_zero(v),
{
    match v {
        Some(x) => x,
        None => 0,
    }
}

/// The window after the receiver announces field `id` as `val`.
pub open spec fn spec_window_noticed(w: Window, id: u16, val: u16) -> Window {
    let w = Window { nr: spec_segment_after(w.nr, id, val), ..w };
    if id == LEVEL {
        Window { units: spec_level_units(val), ..w }
    } else if id == MUTE {
        Window { muted: val != 0, ..w }
    } else if id == GAIN {
        Window { gain: val, ..w }
    } else if id == LIGHT {
        Window { light_on: val != 0, ..w }
    } else if id == LIGHT_MODE {
        Window { light_mode: val, ..w }
    } else if id == BATTERY {
        Window { battery: val, ..w }
    } else {
        w
    }
}

/// The window after a run of announcements `(id, value)`, taken in order.
pub open spec fn spec_window_noticed_each(w: Window, pairs: Seq<(u16, u16)>) -> Window
    decreases pairs.len(),
{
    if pairs.len() == 0 {
        w
    } else {
        spec_window_noticed(
            spec_window_noticed_each(w, pairs.drop_last()),
            pairs.last().0,
            pairs.last().1,
        )
    }
}

/// The selector of the window after a run of announcements is the selector
/// fold over the same run.
proof fn lemma_window_selector(w: Window, pairs: Seq<(u16, u16)>)
    ensures
        spec_window_noticed_each(w, pairs).nr == spec_segment_after_all(w.nr, pairs),
    decreases pairs.len(),
{
    if pairs.len() > 0 {
        lemma_window_selector(w, pairs.drop_last());
    }
}

/// Law: the window's noise reduction selector stays a valid position (0 to
/// 3) through any run of announcements that starts from one.
pub proof fn lemma_window_selector_in_range(w: Window, pairs: Seq<(u16, u16)>)
    requires
        w.nr <= 3,
    ensures
        spec_window_noticed_each(w, pairs).nr <= 3,
{
    lemma_window_selector(w, pairs);
    crate::panel::lemma_segment_stays_in_range(w.nr, pairs);
}

/// Law: each announcement sets exactly the field it names, from the value
/// announced: mute, light and the switches are on for any non-zero value,
/// the level meter takes the low byte capped at 63, noise reduction switched
/// off selects `off` and switched on keeps a chosen level (or `low`), and a
/// level is taken only while switched on. Any other id changes nothing.
pub proof fn lemma_window_notice(w: Window, id: u16, v: u16)
    ensures
        id == MUTE ==> spec_window_noticed(w, id, v) == (Window { muted: v != 0, ..w }),
        id == GAIN ==> spec_window_noticed(w, id, v) == (Window { gain: v, ..w }),
        id == LIGHT ==> spec_window_noticed(w, id, v) == (Window { light_on: v != 0, ..w }),
        id == LIGHT_MODE ==> spec_window_noticed(w, id, v) == (Window { light_mode: v, ..w }),
        id == BATTERY ==> spec_window_noticed(w, id, v) == (Window { battery: v, ..w }),
        id == LEVEL ==> spec_window_noticed(w, id, v) == (Window {
            units: if v % 256 < 63 {
                (v % 256) as u16
            } else {
                63
            },
            ..w
        }),
        id == NR && v == 0 ==> spec_window_noticed(w, id, v) == (Window { nr: 0, ..w }),
        id == NR && v != 0 ==> spec_window_noticed(w, id, v) == (Window {
            nr: if w.nr == 0 {
                1
            } else {
                w.nr
            },
            ..w
        }),
        id == NR_LEVEL && w.nr > 0 ==> spec_window_noticed(w, id, v) == (Window {
            nr: if v < 2 {
                (v + 1) as u16
            } else {
                3
            },
            ..w
        }),
        id == NR_LEVEL && w.nr == 0 ==> spec_window_noticed(w, id, v) == w,
        id != MUTE && id != GAIN && id != LIGHT && id != LIGHT_MODE && id != BATTERY && id
            != LEVEL && id != NR && id != NR_LEVEL ==> spec_window_noticed(w, id, v) == w,
{
}

/// The window from the readings taken when it connects.
pub open spec fn spec_window_from_readings(
    battery: Option<u16>,
    mute: Option<u16>,
    gain: Option<u16>,
    nr: Option<u16>,
    nr_level: Option<u16>,
    light: Option<u16>,
    light_mode: Option<u16>,
) -> Window {
    Window {
        battery: or_zero(battery),
        muted: or_zero(mute) != 0,
        gain: or_zero(gain),
        nr: spec_nr_segment(or_zero(nr) != 0, or_zero(nr_level)),
        light_on: or_zero(light) != 0,
        light_mode: or_zero(light_mode),
        units: 0,
    }
}

/// Law: the window starts from its readings, a field that did not answer
/// counting as 0: each switch on exactly for a non-zero reading, and the
/// selector off when noise reduction is off, else one past the level (at
/// most 3).
pub proof fn lemma_window_from_readings(
    battery: Option<u16>,
    mute: Option<u16>,
    gain: Option<u16>,
    nr: Option<u16>,
    nr_level: Option<u16>,
    light: Option<u16>,
    light_mode: Option<u16>,
)
    ensures
        ({
            let w = spec_window_from_readings(battery, mute, gain, nr, nr_level, light, light_mode);
            let lvl: u16 = match nr_level {
                Some(l) => l,
                None => 0,
            };
            &&& w.battery == (match battery {
                Some(b) => b,
                None => 0,
            })
            &&& w.muted <==> (mute matches Some(v) && v != 0)
            &&& w.light_on <==> (light matches Some(v) && v != 0)
            &&& w.gain == (match gain {
                Some(g) => g,
                None => 0,
            })
            &&& w.light_mode == (match light_mode {
                Some(m) => m,
                None => 0,
            })
            &&& !(nr matches Some(v) && v != 0) ==> w.nr == 0
            &&& (nr matches Some(v) && v != 0) ==> w.nr == (if lvl >= 2 {
                3
            } else {
                lvl + 1
            })
            &&& w.units == 0
        }),
{
}

impl Window {
    /// The window from the readings taken when it connects; a field that did
    /// not answer reads as 0.
    pub fn from_readings(
        battery: Option<u16>,
        mute: Option<u16>,
        gain: Option<u16>,
        nr: Option<u16>,
        nr_level: Option<u16>,
        light: Option<u16>,
        light_mode: Option<u16>,
    ) -> (w: Window)
        ensures
            w == (Window {
                battery: or_zero(battery),
                muted: or_zero(mute) != 0,
                gain: or_zero(gain),
                nr: spec_nr_segment(or_zero(nr) != 0, or_zero(nr_level)),
                light_on: or_zero(light) != 0,
                light_mode: or_zero(light_mode),
                units: 0,
            }),
            w == spec_window_from_readings(battery, mute, gain, nr, nr_level, light, light_mode),
            w.nr <= 3,
    {
        Window {
            battery: value_or_zero(battery),
            muted: value_or_zero(mute) != 0,
            gain: value_or_zero(gain),
            nr: nr_segment(value_or_zero(nr) != 0, value_or_zero(nr_level)),
            light_on: value_or_zero(light) != 0,
            light_mode: value_or_zero(light_mode),
            units: 0,
        }
    }

    /// Take in one field the receiver announced.
    pub fn notice(&mut self, id: u16, val: u16)
        ensures
            *final(self) == spec_window_noticed(*old(self), id, val),
    {
        self.nr = segment_after(self.nr, id, val);
        if id == LEVEL {
            self.units = level_units(val);
        } else if id == MUTE {
            self.muted = val != 0;
        } else if id == GAIN {
            self.gain = val;
        } else if id == LIGHT {
            self.light_on = val != 0;
        } else if id == LIGHT_MODE {
            self.light_mode = val;
        } else if id == BATTERY {
            self.battery = val;
        }
    }

    /// Take in a run of announced fields `(id, value)`, in order.
    pub fn notice_all(&mut self, pairs: &Vec<(u16, u16)>)
        ensures
            *final(self) == spec_window_noticed_each(*old(self), pairs@),
            final(self).nr == spec_segment_after_all(old(self).nr, pairs@),
    {
        let ghost start = *self;
        let mut i: usize = 0;
        while i < pairs.len()
            invariant
                i <= pairs@.len(),
                *self == spec_window_noticed_each(start, pairs@.take(i as int)),
            decreases pairs@.len() - i,
        {
            let (id, val) = pairs[i];
            assert(pairs@.take(i + 1).drop_last() =~= pairs@.take(i as int));
            self.notice(id, val);
            i = i + 1;
        }
        assert(pairs@.take(i as int) =~= pairs@);
        proof {
            lemma_window_selector(start, pairs@);
        }
    }
}

} // verus!
