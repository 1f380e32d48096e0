//! The state machine behind the interactive front ends.
//!
//! The receiver streams its level meter and announces every physical button
//! press, so a panel follows the hardware: each notification updates the
//! mirrored state, and each user action becomes a short list of field writes
//! plus the state the panel takes on once they went through.

use vstd::prelude::*;
use std::collections::VecDeque;
use crate::report::{decimal, nr_name, spec_decimal, spec_nr_name};
use crate::protocol::{
    spec_level_units, level_units, BATTERY, GAIN, GAIN_MAX, LEVEL, LIGHT, LIGHT_MODE,
    LIGHT_MODE_MAX, MUTE, NR, NR_LEVEL,
};

verus! {

/// The control that arrow keys act on.
#[derive(PartialEq, Eq, Structural, Clone, Copy, Debug)]
pub enum Focus {
    Mute,
    Gain,
    Noise,
    Light,
}

pub open spec fn spec_focus_next(f: Focus) -> Focus {
    match f {
        Focus::Mute => Focus::Gain,
        Focus::Gain => Focus::Noise,
        Focus::Noise => Focus::Light,
        Focus::Light => Focus::Mute,
    }
}

impl Focus {
    /// The control after this one, wrapping round.
    pub fn next(self) -> (f: Focus)
        ensures
            f == spec_focus_next(self),
    {
        match self {
            Focus::Mute => Focus::Gain,
            Focus::Gain => Focus::Noise,
            Focus::Noise => Focus::Light,
            Focus::Light => Focus::Mute,
        }
    }

    /// The control before this one, wrapping round.
    pub fn prev(self) -> (f: Focus)
        ensures
            f == spec_focus_next(spec_focus_next(spec_focus_next(self))),
    {
        self.next().next().next()
    }
}

/// Law: stepping back undoes stepping forward, and the other way round.
pub proof fn lemma_focus_prev_undoes_next(f: Focus)
    ensures
        spec_focus_next(spec_focus_next(spec_focus_next(spec_focus_next(f)))) == f,
{
}

/// A rectangle of terminal cells.
#[derive(PartialEq, Eq, Structural, Clone, Copy, Debug)]
pub struct Area {
    pub x: u16,
    pub y: u16,
    pub width: u16,
    pub height: u16,
}

pub open spec fn spec_inside(r: Area, x: u16, y: u16) -> bool {
    r.width > 0 && r.height > 0 && x >= r.x && x < r.x + r.width && y >= r.y && y < r.y
        + r.height
}

/// Is the cell `(x, y)` inside `r` (an empty area contains nothing).
pub fn inside(r: Area, x: u16, y: u16) -> (b: bool)
    ensures
        b == spec_inside(r, x, y),
{
    r.width > 0 && r.height > 0 && x >= r.x && (x as u32) < r.x as u32 + r.width as u32 && y
        >= r.y && (y as u32) < r.y as u32 + r.height as u32
}

/// Width of the label column, so every row lines up without boxes.
pub const LABEL: u16 = 7;

/// A row split into its label cell and the rest.
pub open spec fn spec_split(row: Area) -> (Area, Area) {
    let lw = if row.width < LABEL {
        row.width
    } else {
        LABEL
    };
    (
        Area { width: lw, ..row },
        Area {
            x: (row.x + lw) as u16,
            width: if row.width < LABEL {
                0
            } else {
                (row.width - LABEL) as u16
            },
            ..row
        },
    )
}

/// Split a row into its label cell and the rest.
pub fn split(row: Area) -> (parts: (Area, Area))
    requires
        row.x + (if row.width < LABEL {
            row.width
        } else {
            LABEL
        }) <= 0xFFFF,
    ensures
        parts.0 == (Area {
            width: if row.width < LABEL {
                row.width
            } else {
                LABEL
            },
            ..row
        }),
        parts.1 == (Area {
            x: (row.x + if row.width < LABEL {
                row.width
            } else {
                LABEL
            }) as u16,
            width: if row.width < LABEL {
                0
            } else {
                (row.width - LABEL) as u16
            },
            ..row
        }),
        parts == spec_split(row),
{
    let lw = if row.width < LABEL {
        row.width
    } else {
        LABEL
    };
    let l = Area { width: lw, ..row };
    let r = Area { x: row.x + lw, width: row.width.saturating_sub(LABEL), ..row };
    (l, r)
}

/// Widths of the four noise reduction cells: `off`, `low`, `mid`, `high`,
/// each padded by a space on both sides.
pub open spec fn segment_width(i: int) -> int {
    if i == 3 {
        6
    } else {
        5
    }
}

/// Left edge of segment `i` when the segments are laid out from `x0`.
pub open spec fn segment_x(x0: int, i: int) -> int
    decreases i,
{
    if i <= 0 {
        x0
    } else {
        segment_x(x0, i - 1) + segment_width(i - 1)
    }
}

/// Right edge of segment `i` when the segments are laid out from `x0`.
pub open spec fn segment_end(x0: int, i: int) -> int {
    segment_x(x0, i + 1)
}

/// The cell of segment `i` in a row starting at `r`: empty when it does
/// not fit.
pub open spec fn spec_noise_cell(r: Area, i: int) -> Area {
    if segment_end(r.x as int, i) <= r.x + r.width {
        Area { x: segment_x(r.x as int, i) as u16, y: r.y, width: segment_width(i) as u16, height: 1 }
    } else {
        Area { x: 0, y: 0, width: 0, height: 0 }
    }
}

/// Click targets of the noise reduction row: the segments laid side by side
/// from the left of `r`, stopping at the first that would not fit; cells
/// that do not fit stay empty.
pub fn noise_cells(r: Area) -> (cells: [Area; 4])
    ensures
        forall|i: int| 0 <= i < 4 ==> #[trigger] cells@[i] == spec_noise_cell(r, i),
{
    let empty = Area { x: 0, y: 0, width: 0, height: 0 };
    let mut cells = [empty, empty, empty, empty];
    let mut x: u32 = r.x as u32;
    let end: u32 = r.x as u32 + r.width as u32;
    let mut i: usize = 0;
    while i < 4
        invariant
            i <= 4,
            end == r.x + r.width,
            empty == (Area { x: 0, y: 0, width: 0, height: 0 }),
            x == segment_x(r.x as int, i as int),
            x <= end,
            cells@.len() == 4,
            forall|k: int| 0 <= k < i ==> #[trigger] cells@[k] == spec_noise_cell(r, k),
            forall|k: int| i <= k < 4 ==> #[trigger] cells@[k] == empty,
        decreases 4 - i,
    {
        let w: u32 = if i == 3 {
            6
        } else {
            5
        };
        assert(segment_end(r.x as int, i as int) == x + w);
        if x + w > end {
            proof {
                assert forall|k: int| i <= k < 4 implies #[trigger] segment_end(r.x as int, k) > r.x
                    + r.width by {
                    lemma_segment_x_grows(r.x as int, i as int + 1, k + 1);
                }
                assert forall|k: int| 0 <= k < 4 implies #[trigger] cells@[k] == spec_noise_cell(
                    r,
                    k,
                ) by {
                    if k >= i {
                        assert(segment_end(r.x as int, k) > r.x + r.width);

                    }
                }
            }
            return cells;
        }
        cells[i] = Area { x: x as u16, y: r.y, width: w as u16, height: 1 };
        x = x + w;
        i = i + 1;
    }
    cells
}

proof fn lemma_segment_x_grows(x0: int, i: int, j: int)
    requires
        0 <= i <= j,
    ensures
        segment_x(x0, i) <= segment_x(x0, j),
    decreases j - i,
{
    if i < j {
        lemma_segment_x_grows(x0, i, j - 1);
    }
}

/// The noise reduction selector position: 0 off, then 1 low, 2 mid, 3 high,
/// matching the receiver's own button order.
pub open spec fn spec_nr_segment(on: bool, level: u16) -> u16 {
    if on {
        if level + 1 < 3 {
            (level + 1) as u16
        } else {
            3
        }
    } else {
        0
    }
}

pub fn nr_segment(on: bool, level: u16) -> (i: u16)
    ensures
        i == spec_nr_segment(on, level),
        i <= 3,
{
    if on {
        if level < 2 {
            level + 1
        } else {
            3
        }
    } else {
        0
    }
}

/// The selector position after the receiver announces field `id` as `val`:
/// switching off selects `off`, switching on keeps a level already selected
/// (or `low`), and a new level is taken only while switched on.
pub open spec fn spec_segment_after(seg: u16, id: u16, val: u16) -> u16 {
    if id == NR {
        if val != 0 {
            if seg < 1 {
                1
            } else {
                seg
            }
        } else {
            0
        }
    } else if id == NR_LEVEL {
        if seg > 0 {
            spec_nr_segment(true, val)
        } else {
            seg
        }
    } else {
        seg
    }
}

pub fn segment_after(seg: u16, id: u16, val: u16) -> (s: u16)
    ensures
        s == spec_segment_after(seg, id, val),
{
    if id == NR {
        if val != 0 {
            if seg < 1 {
                1
            } else {
                seg
            }
        } else {
            0
        }
    } else if id == NR_LEVEL {
        if seg > 0 {
            nr_segment(true, val)
        } else {
            seg
        }
    } else {
        seg
    }
}

/// The selector position after a run of announcements `(id, value)`, taken
/// in order.
pub open spec fn spec_segment_after_all(seg: u16, pairs: Seq<(u16, u16)>) -> u16
    decreases pairs.len(),
{
    if pairs.len() == 0 {
        seg
    } else {
        spec_segment_after(
            spec_segment_after_all(seg, pairs.drop_last()),
            pairs.last().0,
            pairs.last().1,
        )
    }
}

pub fn segment_after_all(seg: u16, pairs: &Vec<(u16, u16)>) -> (s: u16)
    ensures
        s == spec_segment_after_all(seg, pairs@),
{
    let mut s = seg;
    let mut i: usize = 0;
    while i < pairs.len()
        invariant
            i <= pairs@.len(),
            s == spec_segment_after_all(seg, pairs@.take(i as int)),
        decreases pairs@.len() - i,
    {
        let (id, val) = pairs[i];
        assert(pairs@.take(i + 1).drop_last() =~= pairs@.take(i as int));
        s = segment_after(s, id, val);
        i = i + 1;
    }
    assert(pairs@.take(i as int) =~= pairs@);
    s
}

/// Law: the selector stays a valid position (0 to 3) through any run of
/// announcements that starts from one.
pub proof fn lemma_segment_stays_in_range(seg: u16, pairs: Seq<(u16, u16)>)
    requires
        seg <= 3,
    ensures
        spec_segment_after_all(seg, pairs) <= 3,
    decreases pairs.len(),
{
    if pairs.len() > 0 {
        lemma_segment_stays_in_range(seg, pairs.drop_last());
    }
}

/// The light mode `delta` steps from `mode`, wrapping round the nine modes
/// the way the receiver's own button does.
pub open spec fn spec_step_light_mode(mode: u16, delta: i32) -> u16 {
    let span = LIGHT_MODE_MAX + 1;
    (((mode + delta) % (span as int) + span) % (span as int)) as u16
}

pub fn step_light_mode(mode: u16, delta: i32) -> (m: u16)
    requires
        mode + delta <= 0x7FFF_FFFF,
    ensures
        m == spec_step_light_mode(mode, delta),
        m <= LIGHT_MODE_MAX,
{
    // shift by a multiple of the span so the remainder is taken of a
    // non-negative number
    let t: i64 = mode as i64 + delta as i64 + 9 * 238609295;
    let m: i64 = t % 9;
    assert(m == ((mode + delta) % 9 + 9) % 9);
    m as u16
}

/// One field write, followed by a pause before the next one.
#[derive(PartialEq, Eq, Structural, Clone, Copy, Debug)]
pub struct Write {
    pub id: u16,
    pub value: u16,
    pub pause_ms: u64,
}

/// What a user action asks of the receiver.
#[derive(PartialEq, Eq, Structural, Clone, Copy, Debug)]
pub enum Intent {
    Nothing,
    /// Mute (`true`) or unmute.
    Mute(bool),
    /// Set the gain to this value (capped at the maximum).
    Gain(u16),
    /// Select noise reduction position 0 off, 1 low, 2 mid, 3 high.
    Noise(u16),
    /// Switch the light on or off.
    Light(bool),
    /// Step the light mode by this much, switching the light on.
    StepLight(i32),
}

/// The writes that select noise reduction position `index`: the switch, a
/// pause, then the level.
pub open spec fn spec_noise_writes(index: u16, pause_ms: u64) -> Seq<Write> {
    seq![
        Write { id: NR, value: if index > 0 { 1 } else { 0 }, pause_ms },
        Write { id: NR_LEVEL, value: if index > 0 { (index - 1) as u16 } else { 0 }, pause_ms: 0 },
    ]
}

pub fn noise_writes(index: u16, pause_ms: u64) -> (w: Vec<Write>)
    ensures
        w@ == spec_noise_writes(index, pause_ms),
{
    let on: u16 = if index > 0 {
        1
    } else {
        0
    };
    let mut w = Vec::new();
    w.push(Write { id: NR, value: on, pause_ms });
    w.push(Write { id: NR_LEVEL, value: index.saturating_sub(1), pause_ms: 0 });
    assert(w@ =~= spec_noise_writes(index, pause_ms));
    w
}

/// The writes that step the light mode: switch the light on, pause, then
/// select the mode.
pub open spec fn spec_light_step_writes(mode: u16, delta: i32, pause_ms: u64) -> Seq<Write> {
    seq![
        Write { id: LIGHT, value: 1, pause_ms },
        Write { id: LIGHT_MODE, value: spec_step_light_mode(mode, delta), pause_ms: 0 },
    ]
}

pub fn light_step_writes(mode: u16, delta: i32, pause_ms: u64) -> (w: Vec<Write>)
    requires
        mode + delta <= 0x7FFF_FFFF,
    ensures
        w@ == spec_light_step_writes(mode, delta, pause_ms),
{
    let next = step_light_mode(mode, delta);
    let mut w = Vec::new();
    w.push(Write { id: LIGHT, value: 1, pause_ms });
    w.push(Write { id: LIGHT_MODE, value: next, pause_ms: 0 });
    assert(w@ =~= spec_light_step_writes(mode, delta, pause_ms));
    w
}

/// A terminal cell.
#[derive(PartialEq, Eq, Structural, Clone, Copy, Debug)]
pub struct Point {
    pub x: u16,
    pub y: u16,
}

/// The terminal panel's mirror of the receiver, plus its interaction state.
#[derive(PartialEq, Eq, Structural, Clone, Copy, Debug)]
pub struct Panel {
    pub battery: Option<u16>,
    pub muted: bool,
    pub gain: u16,
    pub nr_on: bool,
    pub nr_level: u16,
    pub light_on: bool,
    pub light_mode: u16,
    /// Input level in meter units, 0 to 63.
    pub level: u16,
    pub focus: Focus,
    /// The last cell the pointer was seen at.
    pub mouse: Option<Point>,
    pub dragging: bool,
    pub quit: bool,
}

/// A reading of a switch or value that may not have answered.
pub open spec fn or_zero(v: Option<u16>) -> u16 {
    match v {
        Some(x) => x,
        None => 0,
    }
}

fn value_or_zero(v: Option<u16>) -> (x: u16)
    ensures
        x == or_zero(v),
{
    match v {
        Some(x) => x,
        None => 0,
    }
}

/// Pause between the two writes of a noise reduction change.
pub const NOISE_PAUSE_MS: u64 = 110;
/// Pause between the two writes of a light mode step.
pub const LIGHT_PAUSE_MS: u64 = 90;

/// The writes an intent makes from panel state `p`.
pub open spec fn spec_writes(p: Panel, intent: Intent) -> Seq<Write> {
    match intent {
        Intent::Nothing => Seq::empty(),
        Intent::Mute(want) => seq![Write { id: MUTE, value: if want { 1 } else { 0 }, pause_ms: 0 }],
        Intent::Gain(want) => {
            let w = if want < GAIN_MAX {
                want
            } else {
                GAIN_MAX
            };
            if w == p.gain {
                Seq::empty()
            } else {
                seq![Write { id: GAIN, value: w, pause_ms: 0 }]
            }
        },
        Intent::Noise(i) => spec_noise_writes(i, NOISE_PAUSE_MS),
        Intent::Light(on) => seq![Write { id: LIGHT, value: if on { 1 } else { 0 }, pause_ms: 0 }],
        Intent::StepLight(d) => spec_light_step_writes(p.light_mode, d, LIGHT_PAUSE_MS),
    }
}

/// Is an intent one panel `p` can carry out: a noise position 0-3, and a
/// light step that keeps the mode arithmetic within 32 bits.
pub open spec fn intent_ok(p: Panel, intent: Intent) -> bool {
    match intent {
        Intent::Noise(i) => i <= 3,
        Intent::StepLight(d) => p.light_mode + d <= 0x7FFF_FFFF,
        _ => true,
    }
}

/// The panel after an intent's writes, given whether the last write went
/// through: mute, gain, light and light mode change only when it did, the
/// noise reduction selection changes regardless.
pub open spec fn spec_settled(p: Panel, intent: Intent, last_ok: bool) -> Panel {
    match intent {
        Intent::Nothing => p,
        Intent::Mute(want) => if last_ok {
            Panel { muted: want, ..p }
        } else {
            p
        },
        Intent::Gain(want) => {
            let w = if want < GAIN_MAX {
                want
            } else {
                GAIN_MAX
            };
            if w != p.gain && last_ok {
                Panel { gain: w, ..p }
            } else {
                p
            }
        },
        Intent::Noise(i) => Panel {
            nr_on: i > 0,
            nr_level: if i > 0 {
                (i - 1) as u16
            } else {
                0
            },
            ..p
        },
        Intent::Light(on) => if last_ok {
            Panel { light_on: on, ..p }
        } else {
            p
        },
        Intent::StepLight(d) => if last_ok {
            Panel { light_on: true, light_mode: spec_step_light_mode(p.light_mode, d), ..p }
        } else {
            p
        },
    }
}

/// The panel after the receiver announces field `id` as `val`.
pub open spec fn spec_noticed(p: Panel, id: u16, val: u16) -> Panel {
    if id == LEVEL {
        Panel { level: spec_level_units(val), ..p }
    } else if id == MUTE {
        Panel { muted: val != 0, ..p }
    } else if id == GAIN {
        Panel { gain: val, ..p }
    } else if id == NR {
        Panel { nr_on: val != 0, ..p }
    } else if id == NR_LEVEL {
        Panel { nr_level: val, ..p }
    } else if id == LIGHT {
        Panel { light_on: val != 0, ..p }
    } else if id == LIGHT_MODE {
        Panel { light_mode: val, ..p }
    } else if id == BATTERY {
        Panel { battery: Some(val), ..p }
    } else {
        p
    }
}

/// The panel after a run of announcements `(id, value)`, taken in order.
pub open spec fn spec_noticed_each(p: Panel, pairs: Seq<(u16, u16)>) -> Panel
    decreases pairs.len(),
{
    if pairs.len() == 0 {
        p
    } else {
        spec_noticed(spec_noticed_each(p, pairs.drop_last()), pairs.last().0, pairs.last().1)
    }
}

/// Law: each announcement sets exactly the panel field it names, from the
/// value announced: the switches (mute, noise reduction, light) are on for
/// any non-zero value, the level meter takes the low byte capped at 63, and
/// the battery becomes known. Any other id changes nothing.
pub proof fn lemma_panel_notice(p: Panel, id: u16, v: u16)
    ensures
        id == MUTE ==> spec_noticed(p, id, v) == (Panel { muted: v != 0, ..p }),
        id == GAIN ==> spec_noticed(p, id, v) == (Panel { gain: v, ..p }),
        id == NR ==> spec_noticed(p, id, v) == (Panel { nr_on: v != 0, ..p }),
        id == NR_LEVEL ==> spec_noticed(p, id, v) == (Panel { nr_level: v, ..p }),
        id == LIGHT ==> spec_noticed(p, id, v) == (Panel { light_on: v != 0, ..p }),
        id == LIGHT_MODE ==> spec_noticed(p, id, v) == (Panel { light_mode: v, ..p }),
        id == BATTERY ==> spec_noticed(p, id, v) == (Panel { battery: Some(v), ..p }),
        id == LEVEL ==> spec_noticed(p, id, v) == (Panel {
            level: if v % 256 < 63 {
                (v % 256) as u16
            } else {
                63
            },
            ..p
        }),
        id != MUTE && id != GAIN && id != LIGHT && id != LIGHT_MODE && id != BATTERY && id
            != LEVEL && id != NR && id != NR_LEVEL ==> spec_noticed(p, id, v) == p,
{
}

/// The gain one step from `gain`, kept within range.
pub open spec fn spec_nudged(gain: u16, d: int) -> u16 {
    let g = gain + d;
    if g < 0 {
        0
    } else if g > GAIN_MAX {
        GAIN_MAX
    } else {
        g as u16
    }
}

/// What the arrow keys (and Enter/Space) ask for, by focus.
pub open spec fn spec_arrow_intent(p: Panel, forward: bool) -> Intent {
    let d: int = if forward {
        1
    } else {
        -1
    };
    match p.focus {
        Focus::Mute => Intent::Mute(!p.muted),
        Focus::Gain => Intent::Gain(spec_nudged(p.gain, d)),
        Focus::Noise => {
            let i = spec_nr_segment(p.nr_on, p.nr_level) + d;
            Intent::Noise(
                if i < 0 {
                    0
                } else if i > 3 {
                    3
                } else {
                    i as u16
                },
            )
        },
        Focus::Light => Intent::StepLight(d as i32),
    }
}

/// A key press, as far as the panel tells keys apart.
#[derive(PartialEq, Eq, Structural, Clone, Copy, Debug)]
pub enum Key {
    Char(char),
    Esc,
    Tab,
    BackTab,
    Left,
    Right,
    Enter,
    Home,
    End,
    Other,
}

/// The panel after a key press, and what the key asks of the receiver.
/// `ctrl` tells whether Control was held.
pub open spec fn spec_key(p: Panel, key: Key, ctrl: bool) -> (Panel, Intent) {
    match key {
        Key::Char('q') | Key::Esc => (Panel { quit: true, ..p }, Intent::Nothing),
        Key::Char('c') if ctrl => (Panel { quit: true, ..p }, Intent::Nothing),
        Key::Tab => (Panel { focus: spec_focus_next(p.focus), ..p }, Intent::Nothing),
        Key::BackTab => (
            Panel {
                focus: spec_focus_next(spec_focus_next(spec_focus_next(p.focus))),
                ..p
            },
            Intent::Nothing,
        ),
        Key::Right | Key::Char('+') | Key::Char('=') | Key::Enter | Key::Char(' ') => (
            p,
            spec_arrow_intent(p, true),
        ),
        Key::Left | Key::Char('-') => (p, spec_arrow_intent(p, false)),
        Key::Char('m') => (p, Intent::Mute(!p.muted)),
        Key::Char('l') => (p, Intent::Light(!p.light_on)),
        Key::Home => (p, Intent::Gain(0)),
        Key::End => (p, Intent::Gain(GAIN_MAX)),
        Key::Char('0') => (p, Intent::Noise(0)),
        Key::Char('1') => (p, Intent::Noise(1)),
        Key::Char('2') => (p, Intent::Noise(2)),
        Key::Char('3') => (p, Intent::Noise(3)),
        _ => (p, Intent::Nothing),
    }
}

/// Law: the digit keys `0` to `3` ask for that noise reduction position (0
/// off, 1 low, 2 mid, 3 high) and leave the panel as it was.
pub proof fn lemma_digit_keys(p: Panel, d: u16, ctrl: bool)
    requires
        d <= 3,
    ensures
        spec_key(p, Key::Char((0x30 + d) as char), ctrl) == (p, Intent::Noise(d)),
{
    if d == 0 {
        assert((0x30 + d) as char == '0');
    } else if d == 1 {
        assert((0x30 + d) as char == '1');
    } else if d == 2 {
        assert((0x30 + d) as char == '2');
    } else {
        assert((0x30 + d) as char == '3');
    }
}

/// Law: the other keys of the key table. `m` and `l` flip mute and the
/// light, `Home` and `End` take the gain to 0 and 20, `q` and `Esc` (and
/// Control-C) quit, and `Tab` / `Shift-Tab` move the focus forward and back
/// through mute, gain, noise and light; none of them asks for more.
pub proof fn lemma_key_table(p: Panel, ctrl: bool)
    ensures
        spec_key(p, Key::Char('m'), ctrl) == (p, Intent::Mute(!p.muted)),
        spec_key(p, Key::Char('l'), ctrl) == (p, Intent::Light(!p.light_on)),
        spec_key(p, Key::Home, ctrl) == (p, Intent::Gain(0)),
        spec_key(p, Key::End, ctrl) == (p, Intent::Gain(20)),
        spec_key(p, Key::Char('q'), ctrl) == ((Panel { quit: true, ..p }), Intent::Nothing),
        spec_key(p, Key::Esc, ctrl) == ((Panel { quit: true, ..p }), Intent::Nothing),
        spec_key(p, Key::Char('c'), true) == ((Panel { quit: true, ..p }), Intent::Nothing),
        spec_key(p, Key::Char('c'), false) == (p, Intent::Nothing),
        spec_key(p, Key::Tab, ctrl).1 == Intent::Nothing,
        spec_key(p, Key::BackTab, ctrl).1 == Intent::Nothing,
        spec_key(p, Key::Tab, ctrl).0 == (Panel {
            focus: match p.focus {
                Focus::Mute => Focus::Gain,
                Focus::Gain => Focus::Noise,
                Focus::Noise => Focus::Light,
                Focus::Light => Focus::Mute,
            },
            ..p
        }),
        spec_key(p, Key::BackTab, ctrl).0 == (Panel {
            focus: match p.focus {
                Focus::Mute => Focus::Light,
                Focus::Gain => Focus::Mute,
                Focus::Noise => Focus::Gain,
                Focus::Light => Focus::Noise,
            },
            ..p
        }),
{
}

/// Law: noise reduction position `d` writes the switch (on for 1 to 3) and
/// then the level (`d - 1`, or 0 for off), and afterwards the panel shows
/// position `d`: on at level `d - 1`, or off.
pub proof fn lemma_noise_position(p: Panel, d: u16, last_ok: bool)
    requires
        d <= 3,
    ensures
        spec_writes(p, Intent::Noise(d)).len() == 2,
        spec_writes(p, Intent::Noise(d))[0].id == NR,
        spec_writes(p, Intent::Noise(d))[0].value == (if d > 0 { 1u16 } else { 0u16 }),
        spec_writes(p, Intent::Noise(d))[0].pause_ms == 110,
        spec_writes(p, Intent::Noise(d))[1].pause_ms == 0,
        spec_writes(p, Intent::Noise(d))[1].id == NR_LEVEL,
        spec_writes(p, Intent::Noise(d))[1].value == (if d > 0 { (d - 1) as u16 } else { 0u16 }),
        spec_settled(p, Intent::Noise(d), last_ok).nr_on == (d > 0),
        d > 0 ==> spec_settled(p, Intent::Noise(d), last_ok).nr_level == d - 1,
        spec_nr_segment(
            spec_settled(p, Intent::Noise(d), last_ok).nr_on,
            spec_settled(p, Intent::Noise(d), last_ok).nr_level,
        ) == d,
{
}

/// Law: the light mode `delta` steps on from `mode` is `mode + delta`
/// counted round the nine modes 0 to 8.
pub proof fn lemma_step_light_mode(mode: u16, delta: i32)
    ensures
        spec_step_light_mode(mode, delta) == (mode + delta) % 9,
        spec_step_light_mode(mode, delta) <= 8,
{
    let x = mode + delta;
    assert(((x % 9) + 9) % 9 == x % 9) by {
        vstd::arithmetic::div_mod::lemma_mod_bound(x, 9);
        vstd::arithmetic::div_mod::lemma_add_mod_noop(x % 9, 9, 9);
        vstd::arithmetic::div_mod::lemma_mod_twice(x, 9);
    }
}

/// Law: what each action writes and what the panel then shows. Mute, the
/// light switch and the gain (capped at 20) each write their one field, the
/// gain only when it changes, and the panel takes the new value when the
/// write went through; a light step switches the light on, pauses 90 ms,
/// then writes the mode `delta` steps round the nine modes.
pub proof fn lemma_intent_effects(p: Panel, last_ok: bool, want: bool, g: u16, d: i32)
    ensures
        spec_writes(p, Intent::Nothing).len() == 0,
        spec_settled(p, Intent::Nothing, last_ok) == p,
        spec_writes(p, Intent::Mute(want)) == seq![
            Write { id: MUTE, value: if want { 1u16 } else { 0u16 }, pause_ms: 0 },
        ],
        spec_settled(p, Intent::Mute(want), last_ok) == (if last_ok {
            Panel { muted: want, ..p }
        } else {
            p
        }),
        spec_writes(p, Intent::Light(want)) == seq![
            Write { id: LIGHT, value: if want { 1u16 } else { 0u16 }, pause_ms: 0 },
        ],
        spec_settled(p, Intent::Light(want), last_ok) == (if last_ok {
            Panel { light_on: want, ..p }
        } else {
            p
        }),
        ({
            let w: u16 = if g > 20 {
                20
            } else {
                g
            };
            &&& w == p.gain ==> spec_writes(p, Intent::Gain(g)).len() == 0
                && spec_settled(p, Intent::Gain(g), last_ok) == p
            &&& w != p.gain ==> spec_writes(p, Intent::Gain(g)) == seq![
                Write { id: GAIN, value: w, pause_ms: 0 },
            ]
            &&& w != p.gain && last_ok ==> spec_settled(p, Intent::Gain(g), last_ok) == (Panel {
                gain: w,
                ..p
            })
            &&& !last_ok ==> spec_settled(p, Intent::Gain(g), last_ok) == p
        }),
        ({
            let m = (p.light_mode + d) % 9;
            &&& spec_writes(p, Intent::StepLight(d)).len() == 2
            &&& spec_writes(p, Intent::StepLight(d))[0] == (Write { id: LIGHT, value: 1, pause_ms: 90 })
            &&& spec_writes(p, Intent::StepLight(d))[1].id == LIGHT_MODE
            &&& spec_writes(p, Intent::StepLight(d))[1].value == m
            &&& spec_writes(p, Intent::StepLight(d))[1].pause_ms == 0
            &&& last_ok ==> spec_settled(p, Intent::StepLight(d), last_ok).light_on
                && spec_settled(p, Intent::StepLight(d), last_ok).light_mode == m
                && spec_settled(p, Intent::StepLight(d), last_ok) == (Panel {
                    light_on: true,
                    light_mode: m as u16,
                    ..p
                })
            &&& !last_ok ==> spec_settled(p, Intent::StepLight(d), last_ok) == p
        }),
{
    lemma_step_light_mode(p.light_mode, d);
}

/// Law: the arrow keys act on whatever has focus, the way a form behaves:
/// on mute they flip it, on gain they step it by one within 0 to 20, on noise
/// reduction they step the position by one within 0 to 3, and on the light
/// they step the mode round. Right, `+`, `=`, Enter and Space step forward;
/// Left and `-` step back; none changes the panel.
pub proof fn lemma_arrow_keys(p: Panel, ctrl: bool)
    ensures
        ({
            let up = if p.gain + 1 > 20 {
                20
            } else {
                p.gain + 1
            };
            let down = if p.gain - 1 < 0 {
                0
            } else if p.gain - 1 > 20 {
                20
            } else {
                p.gain - 1
            };
            let seg = if !p.nr_on {
                0
            } else if p.nr_level >= 2 {
                3
            } else {
                p.nr_level + 1
            };
            let fwd = match p.focus {
                Focus::Mute => Intent::Mute(!p.muted),
                Focus::Gain => Intent::Gain(up as u16),
                Focus::Noise => Intent::Noise(if seg + 1 > 3 {
                    3
                } else {
                    (seg + 1) as u16
                }),
                Focus::Light => Intent::StepLight(1i32),
            };
            let back = match p.focus {
                Focus::Mute => Intent::Mute(!p.muted),
                Focus::Gain => Intent::Gain(down as u16),
                Focus::Noise => Intent::Noise(if seg == 0 {
                    0
                } else {
                    (seg - 1) as u16
                }),
                Focus::Light => Intent::StepLight(-1i32),
            };
            &&& spec_key(p, Key::Right, ctrl) == (p, fwd)
            &&& spec_key(p, Key::Char('+'), ctrl) == (p, fwd)
            &&& spec_key(p, Key::Char('='), ctrl) == (p, fwd)
            &&& spec_key(p, Key::Enter, ctrl) == (p, fwd)
            &&& spec_key(p, Key::Char(' '), ctrl) == (p, fwd)
            &&& spec_key(p, Key::Left, ctrl) == (p, back)
            &&& spec_key(p, Key::Char('-'), ctrl) == (p, back)
        }),
{
}

/// Law: a cell is inside an area when it lies in the area's columns and
/// rows; an empty area holds no cell.
pub proof fn lemma_inside(r: Area, x: u16, y: u16)
    ensures
        spec_inside(r, x, y) <==> (r.x <= x < r.x + r.width && r.y <= y < r.y + r.height),
{
}

/// Law: the selector position of a noise reduction reading: 0 when off,
/// otherwise one more than the level, at most 3.
pub proof fn lemma_nr_segment(on: bool, level: u16)
    ensures
        !on ==> spec_nr_segment(on, level) == 0,
        on && level <= 2 ==> spec_nr_segment(on, level) == level + 1,
        on && level > 2 ==> spec_nr_segment(on, level) == 3,
{
}

/// Law: a row splits into its first 7 cells (or all of them) for the label
/// and the rest after them.
pub proof fn lemma_split(row: Area)
    ensures
        ({
            let lw: int = if row.width >= 7 {
                7
            } else {
                row.width as int
            };
            row.x + lw <= 0xFFFF ==> (spec_split(row).0 == (Area { width: lw as u16, ..row })
                && spec_split(row).1 == (Area {
                x: (row.x + lw) as u16,
                width: (row.width - lw) as u16,
                ..row
            }))
        }),
{
}

/// Law: the noise reduction segments sit side by side from the left of the
/// row, `off`, `low` and `mid` 5 cells wide and `high` 6, each one row tall;
/// a segment that does not fit, and every one after it, is empty.
pub proof fn lemma_noise_cells(r: Area)
    ensures
        r.width >= 5 ==> spec_noise_cell(r, 0) == (Area { x: r.x, y: r.y, width: 5, height: 1 }),
        r.width >= 10 && r.x + 5 <= 0xFFFF ==> spec_noise_cell(r, 1) == (Area {
            x: (r.x + 5) as u16,
            y: r.y,
            width: 5,
            height: 1,
        }),
        r.width >= 15 && r.x + 10 <= 0xFFFF ==> spec_noise_cell(r, 2) == (Area {
            x: (r.x + 10) as u16,
            y: r.y,
            width: 5,
            height: 1,
        }),
        r.width >= 21 && r.x + 15 <= 0xFFFF ==> spec_noise_cell(r, 3) == (Area {
            x: (r.x + 15) as u16,
            y: r.y,
            width: 6,
            height: 1,
        }),
        r.width < 5 ==> spec_noise_cell(r, 0).width == 0,
        r.width < 10 ==> spec_noise_cell(r, 1).width == 0,
        r.width < 15 ==> spec_noise_cell(r, 2).width == 0,
        r.width < 21 ==> spec_noise_cell(r, 3).width == 0,
{
    reveal_with_fuel(segment_x, 5);
}

/// What the mouse did.
#[derive(PartialEq, Eq, Structural, Clone, Copy, Debug)]
pub enum MouseKind {
    LeftDown,
    LeftDrag,
    LeftUp,
    ScrollUp,
    ScrollDown,
    Other,
}

/// Where the clickable controls are on screen, refreshed from the layout
/// every frame.
#[derive(Clone, Copy, Debug)]
pub struct Hits {
    pub mute: Area,
    pub gain: Area,
    pub segments: [Area; 4],
    pub light_toggle: Area,
    pub light_prev: Area,
    pub light_next: Area,
    pub close: Area,
}

/// The first noise segment that contains the cell, if any.
pub open spec fn spec_segment_at(segments: Seq<Area>, x: u16, y: u16) -> Option<u16> {
    if spec_inside(segments[0], x, y) {
        Some(0)
    } else if spec_inside(segments[1], x, y) {
        Some(1)
    } else if spec_inside(segments[2], x, y) {
        Some(2)
    } else if spec_inside(segments[3], x, y) {
        Some(3)
    } else {
        None
    }
}

/// The panel after a mouse event at `(x, y)`, and what it asks of the
/// receiver. `gain_at_x` is the gain the gain track maps column `x` to.
pub open spec fn spec_mouse(
    p: Panel,
    kind: MouseKind,
    x: u16,
    y: u16,
    hits: Hits,
    gain_at_x: u16,
) -> (Panel, Intent) {
    let p = Panel { mouse: Some(Point { x, y }), ..p };
    match kind {
        MouseKind::LeftDown => if spec_inside(hits.close, x, y) {
            (Panel { quit: true, ..p }, Intent::Nothing)
        } else if spec_inside(hits.mute, x, y) {
            (Panel { focus: Focus::Mute, ..p }, Intent::Mute(!p.muted))
        } else if spec_inside(hits.gain, x, y) {
            (Panel { focus: Focus::Gain, dragging: true, ..p }, Intent::Gain(gain_at_x))
        } else if spec_segment_at(hits.segments@, x, y) is Some {
            (
                Panel { focus: Focus::Noise, ..p },
                Intent::Noise(spec_segment_at(hits.segments@, x, y)->0),
            )
        } else if spec_inside(hits.light_toggle, x, y) {
            (Panel { focus: Focus::Light, ..p }, Intent::Light(!p.light_on))
        } else if spec_inside(hits.light_prev, x, y) {
            (Panel { focus: Focus::Light, ..p }, Intent::StepLight(-1i32))
        } else if spec_inside(hits.light_next, x, y) {
            (Panel { focus: Focus::Light, ..p }, Intent::StepLight(1i32))
        } else {
            (p, Intent::Nothing)
        },
        MouseKind::LeftDrag => if p.dragging {
            (p, Intent::Gain(gain_at_x))
        } else {
            (p, Intent::Nothing)
        },
        MouseKind::LeftUp => (Panel { dragging: false, ..p }, Intent::Nothing),
        MouseKind::ScrollUp => (p, Intent::Gain(spec_nudged(p.gain, 1))),
        MouseKind::ScrollDown => (p, Intent::Gain(spec_nudged(p.gain, -1))),
        MouseKind::Other => (p, Intent::Nothing),
    }
}

/// Law: a mouse event records where the pointer is, and a left click acts
/// on the first control it lands in, in this order: the close button quits,
/// the mute pill flips mute, the gain track starts a drag and sets the gain
/// the column maps to, a noise reduction segment selects its position, the
/// light toggle flips the light and the arrows step the mode. Dragging keeps
/// setting the gain, releasing ends the drag, and the wheel steps the gain
/// by one within 0 to 20.
pub proof fn lemma_mouse(p: Panel, kind: MouseKind, x: u16, y: u16, hits: Hits, gain_at_x: u16)
    ensures
        ({
            let q = Panel { mouse: Some(Point { x, y }), ..p };
            let (r, intent) = spec_mouse(p, kind, x, y, hits, gain_at_x);
            &&& r.mouse == Some(Point { x, y })
            &&& kind == MouseKind::LeftDown && spec_inside(hits.close, x, y) ==> r == (Panel {
                quit: true,
                ..q
            }) && intent == Intent::Nothing
            &&& kind == MouseKind::LeftDown && !spec_inside(hits.close, x, y) && spec_inside(
                hits.mute,
                x,
                y,
            ) ==> r == (Panel { focus: Focus::Mute, ..q }) && intent == Intent::Mute(!p.muted)
            &&& kind == MouseKind::LeftDown && !spec_inside(hits.close, x, y) && !spec_inside(
                hits.mute,
                x,
                y,
            ) && spec_inside(hits.gain, x, y) ==> r == (Panel {
                focus: Focus::Gain,
                dragging: true,
                ..q
            }) && intent == Intent::Gain(gain_at_x)
            &&& forall|i: int|
                0 <= i < 4 && kind == MouseKind::LeftDown && !spec_inside(hits.close, x, y)
                    && !spec_inside(hits.mute, x, y) && !spec_inside(hits.gain, x, y)
                    && spec_inside(#[trigger] hits.segments@[i], x, y) && (forall|j: int|
                    0 <= j < i ==> !spec_inside(hits.segments@[j], x, y)) ==> r == (Panel {
                    focus: Focus::Noise,
                    ..q
                }) && intent == Intent::Noise(i as u16)
            &&& kind == MouseKind::LeftDown && !spec_inside(hits.close, x, y) && !spec_inside(
                hits.mute,
                x,
                y,
            ) && !spec_inside(hits.gain, x, y) && (forall|j: int|
                0 <= j < 4 ==> !spec_inside(#[trigger] hits.segments@[j], x, y)) ==> {
                &&& spec_inside(hits.light_toggle, x, y) ==> r == (Panel {
                    focus: Focus::Light,
                    ..q
                }) && intent == Intent::Light(!p.light_on)
                &&& !spec_inside(hits.light_toggle, x, y) && spec_inside(hits.light_prev, x, y)
                    ==> r == (Panel { focus: Focus::Light, ..q }) && intent == Intent::StepLight(
                    -1i32,
                )
                &&& !spec_inside(hits.light_toggle, x, y) && !spec_inside(hits.light_prev, x, y)
                    && spec_inside(hits.light_next, x, y) ==> r == (Panel {
                    focus: Focus::Light,
                    ..q
                }) && intent == Intent::StepLight(1i32)
                &&& !spec_inside(hits.light_toggle, x, y) && !spec_inside(hits.light_prev, x, y)
                    && !spec_inside(hits.light_next, x, y) ==> r == q && intent == Intent::Nothing
            }
            &&& kind == MouseKind::LeftDrag && p.dragging ==> r == q && intent == Intent::Gain(
                gain_at_x,
            )
            &&& kind == MouseKind::LeftDrag && !p.dragging ==> r == q && intent == Intent::Nothing
            &&& kind == MouseKind::LeftUp ==> r == (Panel { dragging: false, ..q }) && intent
                == Intent::Nothing
            &&& kind == MouseKind::ScrollUp ==> r == q && intent == Intent::Gain(
                if p.gain >= 20 {
                    20
                } else {
                    (p.gain + 1) as u16
                },
            )
            &&& kind == MouseKind::ScrollDown ==> r == q && intent == Intent::Gain(
                if p.gain == 0 {
                    0
                } else if p.gain > 21 {
                    20
                } else {
                    (p.gain - 1) as u16
                },
            )
            &&& kind == MouseKind::Other ==> r == q && intent == Intent::Nothing
        }),
{
    let segs = hits.segments@;
    if forall|j: int| 0 <= j < 4 ==> !spec_inside(#[trigger] segs[j], x, y) {
        assert(!spec_inside(segs[0], x, y));
        assert(!spec_inside(segs[1], x, y));
        assert(!spec_inside(segs[2], x, y));
        assert(!spec_inside(segs[3], x, y));
    }
    assert forall|i: int|
        0 <= i < 4 && kind == MouseKind::LeftDown && !spec_inside(hits.close, x, y)
            && !spec_inside(hits.mute, x, y) && !spec_inside(hits.gain, x, y) && spec_inside(
            #[trigger] segs[i],
            x,
            y,
        ) && (forall|j: int| 0 <= j < i ==> !spec_inside(segs[j], x, y)) implies spec_segment_at(
        segs,
        x,
        y,
    ) == Some(i as u16) by {
        if i > 0 {
            assert(!spec_inside(segs[0], x, y));
        }
        if i > 1 {
            assert(!spec_inside(segs[1], x, y));
        }
        if i > 2 {
            assert(!spec_inside(segs[2], x, y));
        }
    }
}

/// The panel from the readings taken when it starts.
pub open spec fn spec_from_readings(
    battery: Option<u16>,
    mute: Option<u16>,
    gain: Option<u16>,
    nr: Option<u16>,
    nr_level: Option<u16>,
    light: Option<u16>,
    light_mode: Option<u16>,
) -> Panel {
    Panel {
        battery,
        muted: or_zero(mute) != 0,
        gain: or_zero(gain),
        nr_on: or_zero(nr) != 0,
        nr_level: or_zero(nr_level),
        light_on: or_zero(light) != 0,
        light_mode: or_zero(light_mode),
        level: 0,
        focus: Focus::Mute,
        mouse: None,
        dragging: false,
        quit: false,
    }
}

/// Law: the panel starts from its readings, a field that did not answer
/// counting as 0 (the battery stays unknown): each switch on exactly for a
/// non-zero reading; it starts with the focus on mute, the level at 0, no
/// pointer, no drag, and running.
pub proof fn lemma_from_readings(
    battery: Option<u16>,
    mute: Option<u16>,
    gain: Option<u16>,
    nr: Option<u16>,
    nr_level: Option<u16>,
    light: Option<u16>,
    light_mode: Option<u16>,
)
    ensures
        ({
            let p = spec_from_readings(battery, mute, gain, nr, nr_level, light, light_mode);
            &&& p.battery == battery
            &&& p.muted <==> (mute matches Some(v) && v != 0)
            &&& p.nr_on <==> (nr matches Some(v) && v != 0)
            &&& p.light_on <==> (light matches Some(v) && v != 0)
            &&& p.gain == (match gain {
                Some(g) => g,
                None => 0,
            })
            &&& p.nr_level == (match nr_level {
                Some(l) => l,
                None => 0,
            })
            &&& p.light_mode == (match light_mode {
                Some(m) => m,
                None => 0,
            })
            &&& p.level == 0 && p.focus == Focus::Mute && p.mouse is None && !p.dragging
                && !p.quit
        }),
{
}

impl Panel {
    /// A panel showing the given readings, focused on the mute control. A
    /// reading that did not answer counts as 0; battery stays unknown.
    pub fn from_readings(
        battery: Option<u16>,
        mute: Option<u16>,
        gain: Option<u16>,
        nr: Option<u16>,
        nr_level: Option<u16>,
        light: Option<u16>,
        light_mode: Option<u16>,
    ) -> (p: Panel)
        ensures
            p == (Panel {
                battery,
                muted: or_zero(mute) != 0,
                gain: or_zero(gain),
                nr_on: or_zero(nr) != 0,
                nr_level: or_zero(nr_level),
                light_on: or_zero(light) != 0,
                light_mode: or_zero(light_mode),
                level: 0,
                focus: Focus::Mute,
                mouse: None,
                dragging: false,
                quit: false,
            }),
            p == spec_from_readings(battery, mute, gain, nr, nr_level, light, light_mode),
    {
        Panel {
            battery,
            muted: value_or_zero(mute) != 0,
            gain: value_or_zero(gain),
            nr_on: value_or_zero(nr) != 0,
            nr_level: value_or_zero(nr_level),
            light_on: value_or_zero(light) != 0,
            light_mode: value_or_zero(light_mode),
            level: 0,
            focus: Focus::Mute,
            mouse: None,
            dragging: false,
            quit: false,
        }
    }

    /// Take in one field the receiver announced.
    pub fn notice(&mut self, id: u16, val: u16)
        ensures
            *final(self) == spec_noticed(*old(self), id, val),
    {
        if id == LEVEL {
            self.level = level_units(val);
        } else if id == MUTE {
            self.muted = val != 0;
        } else if id == GAIN {
            self.gain = val;
        } else if id == NR {
            self.nr_on = val != 0;
        } else if id == NR_LEVEL {
            self.nr_level = val;
        } else if id == LIGHT {
            self.light_on = val != 0;
        } else if id == LIGHT_MODE {
            self.light_mode = val;
        } else if id == BATTERY {
            self.battery = Some(val);
        }
    }

    /// Take in a run of announced fields `(id, value)`, in order.
    pub fn notice_all(&mut self, pairs: &Vec<(u16, u16)>)
        ensures
            *final(self) == spec_noticed_each(*old(self), pairs@),
    {
        let ghost start = *self;
        let mut i: usize = 0;
        while i < pairs.len()
            invariant
                i <= pairs@.len(),
                *self == spec_noticed_each(start, pairs@.take(i as int)),
            decreases pairs@.len() - i,
        {
            let (id, val) = pairs[i];
            assert(pairs@.take(i + 1).drop_last() =~= pairs@.take(i as int));
            self.notice(id, val);
            i = i + 1;
        }
        assert(pairs@.take(i as int) =~= pairs@);
    }

    /// The noise reduction selector position.
    pub fn nr_index(&self) -> (i: u16)
        ensures
            i == spec_nr_segment(self.nr_on, self.nr_level),
    {
        nr_segment(self.nr_on, self.nr_level)
    }

    fn nudged(&self, forward: bool) -> (g: u16)
        ensures
            g == spec_nudged(self.gain, if forward { 1 } else { -1 }),
    {
        if forward {
            if self.gain < GAIN_MAX {
                self.gain + 1
            } else {
                GAIN_MAX
            }
        } else if self.gain == 0 {
            0
        } else if self.gain > GAIN_MAX + 1 {
            GAIN_MAX
        } else {
            self.gain - 1
        }
    }

    /// What the arrow keys ask for: they act on the focused control, the way
    /// a form behaves.
    pub fn arrow_intent(&self, forward: bool) -> (intent: Intent)
        ensures
            intent == spec_arrow_intent(*self, forward),
            intent_ok(*self, intent),
    {
        match self.focus {
            Focus::Mute => Intent::Mute(!self.muted),
            Focus::Gain => Intent::Gain(self.nudged(forward)),
            Focus::Noise => {
                let i = self.nr_index();
                Intent::Noise(
                    if forward {
                        if i < 3 {
                            i + 1
                        } else {
                            3
                        }
                    } else if i > 0 {
                        i - 1
                    } else {
                        0
                    },
                )
            },
            Focus::Light => Intent::StepLight(
                if forward {
                    1
                } else {
                    -1
                },
            ),
        }
    }

    /// Handle a key press.
    pub fn on_key(&mut self, key: Key, ctrl: bool) -> (intent: Intent)
        ensures
            (*final(self), intent) == spec_key(*old(self), key, ctrl),
            intent_ok(*final(self), intent),
    {
        match key {
            Key::Char('q') | Key::Esc => {
                self.quit = true;
                Intent::Nothing
            },
            Key::Char('c') if ctrl => {
                self.quit = true;
                Intent::Nothing
            },
            Key::Tab => {
                self.focus = self.focus.next();
                Intent::Nothing
            },
            Key::BackTab => {
                self.focus = self.focus.prev();
                Intent::Nothing
            },
            Key::Right | Key::Char('+') | Key::Char('=') | Key::Enter | Key::Char(' ') => {
                self.arrow_intent(true)
            },
            Key::Left | Key::Char('-') => self.arrow_intent(false),
            Key::Char('m') => Intent::Mute(!self.muted),
            Key::Char('l') => Intent::Light(!self.light_on),
            Key::Home => Intent::Gain(0),
            Key::End => Intent::Gain(GAIN_MAX),
            Key::Char('0') => Intent::Noise(0),
            Key::Char('1') => Intent::Noise(1),
            Key::Char('2') => Intent::Noise(2),
            Key::Char('3') => Intent::Noise(3),
            _ => Intent::Nothing,
        }
    }

    /// Handle a mouse event at `(x, y)`; `gain_at_x` is the gain the gain
    /// track maps column `x` to.
    pub fn on_mouse(&mut self, kind: MouseKind, x: u16, y: u16, hits: &Hits, gain_at_x: u16) -> (intent: Intent)
        ensures
            (*final(self), intent) == spec_mouse(*old(self), kind, x, y, *hits, gain_at_x),
            intent_ok(*final(self), intent),
    {
        self.mouse = Some(Point { x, y });
        match kind {
            MouseKind::LeftDown => {
                if inside(hits.close, x, y) {
                    self.quit = true;
                    Intent::Nothing
                } else if inside(hits.mute, x, y) {
                    self.focus = Focus::Mute;
                    Intent::Mute(!self.muted)
                } else if inside(hits.gain, x, y) {
                    self.focus = Focus::Gain;
                    self.dragging = true;
                    Intent::Gain(gain_at_x)
                } else if inside(hits.segments[0], x, y) {
                    self.focus = Focus::Noise;
                    Intent::Noise(0)
                } else if inside(hits.segments[1], x, y) {
                    self.focus = Focus::Noise;
                    Intent::Noise(1)
                } else if inside(hits.segments[2], x, y) {
                    self.focus = Focus::Noise;
                    Intent::Noise(2)
                } else if inside(hits.segments[3], x, y) {
                    self.focus = Focus::Noise;
                    Intent::Noise(3)
                } else if inside(hits.light_toggle, x, y) {
                    self.focus = Focus::Light;
                    Intent::Light(!self.light_on)
                } else if inside(hits.light_prev, x, y) {
                    self.focus = Focus::Light;
                    Intent::StepLight(-1)
                } else if inside(hits.light_next, x, y) {
                    self.focus = Focus::Light;
                    Intent::StepLight(1)
                } else {
                    Intent::Nothing
                }
            },
            MouseKind::LeftDrag => {
                if self.dragging {
                    Intent::Gain(gain_at_x)
                } else {
                    Intent::Nothing
                }
            },
            MouseKind::LeftUp => {
                self.dragging = false;
                Intent::Nothing
            },
            MouseKind::ScrollUp => Intent::Gain(self.nudged(true)),
            MouseKind::ScrollDown => Intent::Gain(self.nudged(false)),
            MouseKind::Other => Intent::Nothing,
        }
    }

    /// The writes an intent makes, in order.
    pub fn writes(&self, intent: Intent) -> (w: Vec<Write>)
        requires
            intent_ok(*self, intent),
        ensures
            w@ == spec_writes(*self, intent),
    {
        let mut w = Vec::new();
        match intent {
            Intent::Nothing => {},
            Intent::Mute(want) => {
                w.push(Write { id: MUTE, value: if want { 1 } else { 0 }, pause_ms: 0 });
            },
            Intent::Gain(want) => {
                let g = if want < GAIN_MAX {
                    want
                } else {
                    GAIN_MAX
                };
                if g != self.gain {
                    w.push(Write { id: GAIN, value: g, pause_ms: 0 });
                }
            },
            Intent::Noise(i) => {
                w = noise_writes(i, NOISE_PAUSE_MS);
            },
            Intent::Light(on) => {
                w.push(Write { id: LIGHT, value: if on { 1 } else { 0 }, pause_ms: 0 });
            },
            Intent::StepLight(d) => {
                w = light_step_writes(self.light_mode, d, LIGHT_PAUSE_MS);
            },
        }
        assert(w@ =~= spec_writes(*self, intent));
        w
    }

    /// Take on the outcome of an intent's writes; `last_ok` tells whether
    /// the last of them went through.
    pub fn settle(&mut self, intent: Intent, last_ok: bool)
        requires
            intent_ok(*old(self), intent),
        ensures
            *final(self) == spec_settled(*old(self), intent, last_ok),
    {
        match intent {
            Intent::Nothing => {},
            Intent::Mute(want) => {
                if last_ok {
                    self.muted = want;
                }
            },
            Intent::Gain(want) => {
                let g = if want < GAIN_MAX {
                    want
                } else {
                    GAIN_MAX
                };
                if g != self.gain && last_ok {
                    self.gain = g;
                }
            },
            Intent::Noise(i) => {
                self.nr_on = i > 0;
                self.nr_level = i.saturating_sub(1);
            },
            Intent::Light(on) => {
                if last_ok {
                    self.light_on = on;
                }
            },
            Intent::StepLight(d) => {
                if last_ok {
                    self.light_on = true;
                    self.light_mode = step_light_mode(self.light_mode, d);
                }
            },
        }
    }
}

/// The panel after the receiver announces each of `ws` in turn.
pub open spec fn noticed_all(p: Panel, ws: Seq<Write>) -> Panel
    decreases ws.len(),
{
    if ws.len() == 0 {
        p
    } else {
        noticed_all(spec_noticed(p, ws[0].id, ws[0].value), ws.drop_first())
    }
}

/// Law: when its writes go through, an intent leaves the panel exactly as
/// the receiver's own announcements of those writes would, so the panel
/// agrees with the hardware whether it hears the echo or not.
pub proof fn lemma_settle_agrees_with_echo(p: Panel, intent: Intent)
    requires
        intent_ok(p, intent),
    ensures
        noticed_all(p, spec_writes(p, intent)) == spec_settled(p, intent, true),
{
    let ws = spec_writes(p, intent);
    reveal_with_fuel(noticed_all, 3);
    if ws.len() == 2 {
        assert(ws.drop_first().drop_first() =~= Seq::<Write>::empty());
        assert(ws.drop_first()[0] == ws[1]);
    } else if ws.len() == 1 {
        assert(ws.drop_first() =~= Seq::<Write>::empty());
    }
}

/// Law: whatever an intent's writes did, the panel's gain stays within
/// range when it started there.
pub proof fn lemma_settled_gain_in_range(p: Panel, intent: Intent, last_ok: bool)
    requires
        p.gain <= GAIN_MAX,
    ensures
        spec_settled(p, intent, last_ok).gain <= GAIN_MAX,
{
}

/// The status line shown after an intent's writes, when they changed
/// something.
pub open spec fn spec_status_note(p: Panel, intent: Intent, last_ok: bool) -> Option<Seq<char>> {
    match intent {
        Intent::Mute(want) => if last_ok {
            Some(
                if want {
                    "muted"@
                } else {
                    "live"@
                },
            )
        } else {
            None
        },
        Intent::Gain(want) => {
            let w = if want < GAIN_MAX {
                want
            } else {
                GAIN_MAX
            };
            if w != p.gain && last_ok {
                Some("gain "@ + spec_decimal(w as nat))
            } else {
                None
            }
        },
        Intent::Noise(i) => Some(
            if i > 0 {
                "noise "@ + spec_nr_name((i - 1) as u16)
            } else {
                "noise off"@
            },
        ),
        Intent::Light(on) => if last_ok {
            Some(
                if on {
                    "light on"@
                } else {
                    "light off"@
                },
            )
        } else {
            None
        },
        Intent::StepLight(d) => if last_ok {
            Some("light mode "@ + spec_decimal(spec_step_light_mode(p.light_mode, d) as nat))
        } else {
            None
        },
        Intent::Nothing => None,
    }
}

/// Law: the status line after an action: `muted` or `live`, `light on` or
/// `light off`, `gain <n>` for a gain that changed and `light mode <m>` for a
/// step, each only when the write went through; `noise off` or `noise
/// low`/`mid`/`high` in any case; nothing otherwise.
pub proof fn lemma_status_notes(p: Panel, want: bool, g: u16, d: i32)
    ensures
        spec_status_note(p, Intent::Mute(want), true) == Some(if want {
            "muted"@
        } else {
            "live"@
        }),
        spec_status_note(p, Intent::Light(want), true) == Some(if want {
            "light on"@
        } else {
            "light off"@
        }),
        spec_status_note(p, Intent::Noise(0), want) == Some("noise off"@),
        spec_status_note(p, Intent::Noise(1), want) == Some("noise "@ + "low"@),
        spec_status_note(p, Intent::Noise(2), want) == Some("noise "@ + "mid"@),
        spec_status_note(p, Intent::Noise(3), want) == Some("noise "@ + "high"@),
        ({
            let w: u16 = if g > 20 {
                20
            } else {
                g
            };
            &&& w != p.gain ==> spec_status_note(p, Intent::Gain(g), true) == Some(
                "gain "@ + spec_decimal(w as nat),
            )
            &&& w == p.gain ==> spec_status_note(p, Intent::Gain(g), true) is None
        }),
        spec_status_note(p, Intent::StepLight(d), true) == Some(
            "light mode "@ + spec_decimal(((p.light_mode + d) % 9) as nat),
        ),
        spec_status_note(p, Intent::Mute(want), false) is None,
        spec_status_note(p, Intent::Light(want), false) is None,
        spec_status_note(p, Intent::Gain(g), false) is None,
        spec_status_note(p, Intent::StepLight(d), false) is None,
        spec_status_note(p, Intent::Nothing, want) is None,
{
    lemma_step_light_mode(p.light_mode, d);
}

impl Panel {
    /// The status line to show after an intent's writes (taken before
    /// settling), or `None` when the status stays as it is.
    pub fn status_note(&self, intent: Intent, last_ok: bool) -> (note: Option<String>)
        requires
            intent_ok(*self, intent),
        ensures
            match note {
                Some(s) => spec_status_note(*self, intent, last_ok) == Some(s@),
                None => spec_status_note(*self, intent, last_ok) is None,
            },
    {
        match intent {
            Intent::Mute(want) => if last_ok {
                Some(
                    String::from_str(
                        if want {
                            "muted"
                        } else {
                            "live"
                        },
                    ),
                )
            } else {
                None
            },
            Intent::Gain(want) => {
                let g = if want < GAIN_MAX {
                    want
                } else {
                    GAIN_MAX
                };
                if g != self.gain && last_ok {
                    let mut s = String::from_str("gain ");
                    s.append(decimal(g).as_str());
                    Some(s)
                } else {
                    None
                }
            },
            Intent::Noise(i) => {
                if i > 0 {
                    let mut s = String::from_str("noise ");
                    s.append(nr_name(i - 1));
                    Some(s)
                } else {
                    Some(String::from_str("noise off"))
                }
            },
            Intent::Light(on) => if last_ok {
                Some(
                    String::from_str(
                        if on {
                            "light on"
                        } else {
                            "light off"
                        },
                    ),
                )
            } else {
                None
            },
            Intent::StepLight(d) => if last_ok {
                let mut s = String::from_str("light mode ");
                s.append(decimal(step_light_mode(self.light_mode, d)).as_str());
                Some(s)
            } else {
                None
            },
            Intent::Nothing => None,
        }
    }
}

/// The activity graph sample for a level, in percent of full scale
/// (truncated); 0 while muted.
pub open spec fn spec_history_sample(muted: bool, units: u16) -> u64 {
    if muted {
        0
    } else {
        let u: int = if units < 63 {
            units as int
        } else {
            63
        };
        (u * 100 / 63) as u64
    }
}

/// Law: a graph sample is the level as a whole percentage of full scale
/// (63 units), rounded down, and 0 while muted.
pub proof fn lemma_history_sample(muted: bool, units: u16)
    ensures
        muted ==> spec_history_sample(muted, units) == 0,
        !muted && units <= 63 ==> spec_history_sample(muted, units) * 63 <= 100 * units < (
        spec_history_sample(muted, units) + 1) * 63,
        !muted && units > 63 ==> spec_history_sample(muted, units) == 100,
{
}

/// Law: the history after a sample ends with that sample, holds the
/// samples before it in their order, and never more than 600 of them: all
/// of them while they fit, else the newest 600.
pub proof fn lemma_history(before: Seq<u64>, sample: u64)
    ensures
        ({
            let h = newest(before.push(sample), HISTORY_LEN as nat);
            &&& h.len() == (if before.len() + 1 <= 600 {
                before.len() + 1
            } else {
                600
            })
            &&& h[h.len() - 1] == sample
            &&& forall|i: int|
                0 <= i < h.len() - 1 ==> #[trigger] h[i] == before[before.len() - (h.len() - 1) + i]
        }),
{
}

pub fn history_sample(muted: bool, units: u16) -> (v: u64)
    ensures
        v == spec_history_sample(muted, units),
        v <= 100,
{
    if muted {
        0
    } else {
        let u: u64 = if units < 63 {
            units as u64
        } else {
            63
        };
        u * 100 / 63
    }
}

/// How many samples the activity graph keeps.
pub const HISTORY_LEN: usize = 600;

/// The newest `n` items of `s`: all of them when there are no more than `n`.
pub open spec fn newest(s: Seq<u64>, n: nat) -> Seq<u64> {
    if s.len() <= n {
        s
    } else {
        s.subrange(s.len() - n, s.len() as int)
    }
}

/// Append a sample to the activity history, dropping the oldest so that
/// at most `HISTORY_LEN` remain.
pub fn record_sample(history: &mut VecDeque<u64>, sample: u64)
    ensures
        final(history)@ == newest(old(history)@.push(sample), HISTORY_LEN as nat),
{
    let ghost all = old(history)@.push(sample);
    history.push_back(sample);
    assert(all.subrange(0, all.len() as int) =~= all);
    while history.len() > HISTORY_LEN
        invariant
            history@.len() <= all.len(),
            history@ == all.subrange(all.len() - history@.len(), all.len() as int),
            history@.len() >= HISTORY_LEN || history@ == all,
        decreases history@.len(),
    {
        history.pop_front();
        assert(history@ =~= all.subrange(all.len() - history@.len(), all.len() as int));
    }
}

/// Does a level in meter units count as clipping (95% of full scale).
/// Does a level in meter units read as clipping: at least 95% of full scale.
pub open spec fn spec_is_clipping(units: u16) -> bool {
    100 * (if units < 63 {
        units as int
    } else {
        63
    }) >= 95 * 63
}

/// Law: a level clips from 60 meter units up (95% of the 63-unit scale).
pub proof fn lemma_clipping(units: u16)
    ensures
        spec_is_clipping(units) <==> units >= 60,
{
}

pub fn is_clipping_level(units: u16) -> (b: bool)
    ensures
        b == (100 * (if units < 63 { units as int } else { 63 }) >= 95 * 63),
        b == spec_is_clipping(units),
{
    units >= 60
}

} // verus!
