//! Where the terminal panel's click targets sit, from the rows they are drawn
//! in. The panel hands these to `Panel::on_mouse` as its `Hits`, so what a
//! click does follows from where it lands.

use vstd::prelude::*;
use ratatui::layout::{Constraint, Layout, Rect};
use crate::panel::Area;

verus! {

/// Width of the mute pill.
pub const PILL: u16 = 8;
/// Width kept for the gain readout right of the gain track.
pub const GAIN_READOUT: u16 = 8;

/// The close button: the last cell of the header row.
pub open spec fn spec_close_cell(row: Area) -> Area {
    Area {
        x: (row.x + if row.width > 0 {
            row.width - 1
        } else {
            0
        }) as u16,
        width: 1,
        ..row
    }
}

pub fn close_cell(row: Area) -> (a: Area)
    requires
        row.x + (if row.width > 0 {
            row.width - 1
        } else {
            0
        }) <= 0xFFFF,
    ensures
        a == spec_close_cell(row),
{
    Area { x: row.x + row.width.saturating_sub(1), width: 1, ..row }
}

/// The mute pill: the first `PILL` cells of the row's control part.
pub open spec fn spec_mute_pill(r: Area) -> Area {
    Area {
        width: if r.width < PILL {
            r.width
        } else {
            PILL
        },
        ..r
    }
}

pub fn mute_pill(r: Area) -> (a: Area)
    ensures
        a == spec_mute_pill(r),
{
    Area {
        width: if r.width < PILL {
            r.width
        } else {
            PILL
        },
        ..r
    }
}

/// The gain track: the row's control part less the readout at its right.
pub open spec fn spec_gain_track(r: Area) -> Area {
    Area {
        width: if r.width < GAIN_READOUT {
            0
        } else {
            (r.width - GAIN_READOUT) as u16
        },
        ..r
    }
}

pub fn gain_track(r: Area) -> (a: Area)
    ensures
        a == spec_gain_track(r),
{
    Area { width: r.width.saturating_sub(GAIN_READOUT), ..r }
}

/// Cell `i` of a row split into cells of the given lengths from its left
/// edge, without gaps.
pub open spec fn packed_cell(r: Area, lengths: Seq<u16>, i: int) -> Area {
    Area { x: (r.x + lengths.take(i).fold_left(0int, |acc: int, l: u16| acc + l)) as u16, width: lengths[i], ..r }
}

/// Sum of the lengths.
pub open spec fn total_length(lengths: Seq<u16>) -> int {
    lengths.fold_left(0int, |acc: int, l: u16| acc + l)
}

/// What holds of the cells of a horizontal layout of `r`, whatever the
/// solver chose: each spans the row's height at its top, and lies within
/// the row.
pub open spec fn within_row(r: Area, cells: Seq<Area>) -> bool {
    forall|i: int|
        0 <= i < cells.len() ==> {
            &&& #[trigger] cells[i].y == r.y
            &&& cells[i].height == r.height
            &&& r.x <= cells[i].x
            &&& cells[i].x + cells[i].width <= r.x + r.width
        }
}

/// `ratatui::layout::Layout::horizontal` with a `Constraint::Length` for each
/// of the four lengths and a `Constraint::Min(0)` after them, split over `r`
/// by `Layout::areas`, with the default `Flex::Start`, no margin and no
/// spacing.
///
/// Claimed, from ratatui's `try_split` and `changes_to_rects`: every cell has
/// the row's `y` and height and lies between the row's edges (the solver's
/// required constraints keep every edge within the area). When the row is
/// wide enough for all four lengths and ends inside the 16-bit range, the
/// cells are packed from the left edge at exactly those lengths and the last
/// cell takes the rest: the length constraints (strength `STRONG * 10`) and
/// the zero-size spacers (`REQUIRED / 10`, `REQUIRED - 1`) can then all
/// hold, and every weaker constraint (`FILL_GROW`, `GROW`, `ALL_SEGMENT_GROW`)
/// gains by handing the remainder to the last cell. Narrower rows are left
/// open: the solver then has several equally good answers, and which one it
/// returns follows the iteration order of its hash maps, which differs
/// between processes.
#[verifier::external_body]
fn row_layout(r: Area, lengths: [u16; 4]) -> (cells: [Area; 5])
    ensures
        within_row(r, cells@),
        r.width >= total_length(lengths@) && r.x + r.width <= 0xFFFF ==> {
            &&& forall|i: int| 0 <= i < 4 ==> #[trigger] cells@[i] == packed_cell(r, lengths@, i)
            &&& cells@[4] == (Area {
                x: (r.x + total_length(lengths@)) as u16,
                width: (r.width - total_length(lengths@)) as u16,
                ..r
            })
        },
{
    let rect = Rect { x: r.x, y: r.y, width: r.width, height: r.height };
    let cells: [Rect; 5] = Layout::horizontal([
        Constraint::Length(lengths[0]),
        Constraint::Length(lengths[1]),
        Constraint::Length(lengths[2]),
        Constraint::Length(lengths[3]),
        Constraint::Min(0),
    ]).areas(rect);
    cells.map(|c| Area { x: c.x, y: c.y, width: c.width, height: c.height })
}

/// Width the light row's controls need: the toggle and three arrows/number
/// cells.
pub const LIGHT_CONTROLS: u16 = 14;

/// The light row's cells when the row is wide enough for all of them: the
/// on/off toggle (5 cells), the previous-mode arrow, the mode number and the
/// next-mode arrow (3 cells each), then the rest of the row.
pub open spec fn spec_light_cells(r: Area) -> Seq<Area> {
    seq![
        Area { width: 5, ..r },
        Area { x: (r.x + 5) as u16, width: 3, ..r },
        Area { x: (r.x + 8) as u16, width: 3, ..r },
        Area { x: (r.x + 11) as u16, width: 3, ..r },
        Area { x: (r.x + 14) as u16, width: (r.width - 14) as u16, ..r },
    ]
}

/// The light row's control part, left to right: the on/off toggle, the
/// previous-mode arrow, the mode number, the next-mode arrow, then the rest
/// of the row. Laid out by ratatui; on a row narrower than the controls the
/// cells still lie within the row, but how the room is shared is ratatui's.
pub fn light_cells(r: Area) -> (cells: [Area; 5])
    ensures
        within_row(r, cells@),
        r.width >= LIGHT_CONTROLS && r.x + r.width <= 0xFFFF ==> cells@ == spec_light_cells(r),
{
    let lengths: [u16; 4] = [5, 3, 3, 3];
    let cells = row_layout(r, lengths);
    proof {
        let l = lengths@;
        assert(l =~= seq![5u16, 3, 3, 3]);
        assert(l.take(0) =~= Seq::<u16>::empty());
        assert(l.take(1) =~= seq![5u16]);
        assert(l.take(2) =~= seq![5u16, 3]);
        assert(l.take(3) =~= seq![5u16, 3, 3]);
        reveal_with_fuel(Seq::fold_left, 5);
        assert(total_length(l) == 14);
        assert(l.take(1).fold_left(0int, |acc: int, x: u16| acc + x) == 5);
        assert(l.take(2).fold_left(0int, |acc: int, x: u16| acc + x) == 8);
        assert(l.take(3).fold_left(0int, |acc: int, x: u16| acc + x) == 11);
        if r.width >= LIGHT_CONTROLS && r.x + r.width <= 0xFFFF {
            assert(cells@[0] == packed_cell(r, l, 0));
            assert(cells@[1] == packed_cell(r, l, 1));
            assert(cells@[2] == packed_cell(r, l, 2));
            assert(cells@[3] == packed_cell(r, l, 3));
            assert(cells@ =~= spec_light_cells(r));
        }
    }
    cells
}

/// Law: the close button is the single cell at the right end of the header
/// row (its first cell when the row is empty); the mute pill is the first 8
/// cells of the control part, or all of it when narrower; the gain track is
/// the control part less 8 cells at its right for the readout. All keep the
/// row's `y` and height.
pub proof fn lemma_click_targets(r: Area)
    ensures
        spec_close_cell(r).width == 1 && spec_close_cell(r).y == r.y && spec_close_cell(r).height
            == r.height,
        r.width > 0 && r.x + r.width <= 0x10000 ==> spec_close_cell(r).x + 1 == r.x + r.width,
        r.width == 0 ==> spec_close_cell(r).x == r.x,
        spec_mute_pill(r).x == r.x && spec_mute_pill(r).y == r.y && spec_mute_pill(r).height
            == r.height,
        spec_mute_pill(r).width == (if r.width >= 8 {
            8
        } else {
            r.width
        }),
        spec_gain_track(r).x == r.x && spec_gain_track(r).y == r.y && spec_gain_track(r).height
            == r.height,
        spec_gain_track(r).width + (if r.width >= 8 {
            8
        } else {
            r.width
        }) == r.width,
{
}

} // verus!
