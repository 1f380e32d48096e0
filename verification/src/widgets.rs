//! Layout arithmetic of the small presentational components: where the
//! meter ruler's labels go, and how tall each column of the activity graph
//! is drawn, with which glyph and in which colour.

use vstd::prelude::*;
use crate::theme::{spec_zone, zone, Tone};

verus! {

/// `x - y`, or 0 when that would be negative.
pub open spec fn sat_sub(x: int, y: int) -> int {
    if x > y {
        x - y
    } else {
        0
    }
}

/// Column of the ruler position `percent` along a `w`-column ruler,
/// rounded to the nearest column (halves round up).
pub open spec fn ruler_column(percent: nat, w: nat) -> int {
    (2 * percent * sat_sub(w as int, 1) + 100) / 200
}

/// First column of a label of `len` characters centred on column `centre`,
/// kept inside a `w`-column ruler.
pub open spec fn label_start(centre: int, len: int, w: int) -> int {
    let s = sat_sub(centre, len / 2);
    let m = sat_sub(w, len);
    if s < m {
        s
    } else {
        m
    }
}

/// `row` with `label` written from column `start`, clipped at its end.
pub open spec fn placed(row: Seq<char>, start: int, label: Seq<char>) -> Seq<char> {
    Seq::new(
        row.len(),
        |i: int|
            if start <= i < start + label.len() {
                label[i - start]
            } else {
                row[i]
            },
    )
}

/// `row` with the label for `percent` placed at its true position.
pub open spec fn with_mark(row: Seq<char>, percent: nat, label: Seq<char>) -> Seq<char> {
    let w = row.len() as int;
    placed(row, label_start(ruler_column(percent, w as nat), label.len() as int, w), label)
}

/// The ruler under the level meter: `width` columns (at least one) with the
/// labels 0, 20, 40, 60, 85 and 100 at their true positions, later labels
/// written over earlier ones.
pub open spec fn spec_meter_scale(width: u16) -> Seq<char> {
    let w: nat = if width < 1 {
        1
    } else {
        width as nat
    };
    let blank = Seq::new(w, |i: int| ' ');
    with_mark(
        with_mark(
            with_mark(
                with_mark(with_mark(with_mark(blank, 0, "0"@), 20, "20"@), 40, "40"@),
                60,
                "60"@,
            ),
            85,
            "85"@,
        ),
        100,
        "100"@,
    )
}

fn place_mark(row: &mut Vec<char>, percent: u64, label: &str)
    requires
        percent <= 100,
        1 <= old(row)@.len() <= 0xFFFF,
    ensures
        final(row)@ == with_mark(old(row)@, percent as nat, label@),
{
    let w = row.len();
    let len = label.unicode_len();
    assert(2 * percent * (w as u64 - 1) <= 200 * 0xFFFF) by (nonlinear_arith)
        requires
            percent <= 100,
            w <= 0xFFFF,
            w >= 1,
    ;
    let centre: u64 = (2 * percent * (w as u64 - 1) + 100) / 200;
    let half = len / 2;
    let s: u64 = if centre > half as u64 {
        centre - half as u64
    } else {
        0
    };
    let m: u64 = if w > len {
        (w - len) as u64
    } else {
        0
    };
    let start: u64 = if s < m {
        s
    } else {
        m
    };
    assert(start == label_start(ruler_column(percent as nat, w as nat), len as int, w as int));
    let ghost before = row@;
    let mut k: usize = 0;
    while k < len
        invariant
            k <= len,
            len == label@.len(),
            w == row@.len(),
            w == before.len(),
            start <= w,
            forall|i: int|
                0 <= i < w ==> #[trigger] row@[i] == if start <= i < start + k {
                    label@[i - start]
                } else {
                    before[i]
                },
        decreases len - k,
    {
        if (k as u64) < w as u64 - start {
            row.set(start as usize + k, label.get_char(k));
        }
        k = k + 1;
    }
    assert(row@ =~= placed(before, start as int, label@));
}

/// The ruler under the level meter, one character per column.
pub fn meter_scale(width: u16) -> (row: Vec<char>)
    ensures
        row@ == spec_meter_scale(width),
        row@.len() == if width < 1 {
            1
        } else {
            width as int
        },
{
    let w: usize = if width < 1 {
        1
    } else {
        width as usize
    };
    let mut row: Vec<char> = Vec::new();
    let mut i: usize = 0;
    while i < w
        invariant
            i <= w,
            row@.len() == i,
            forall|j: int| 0 <= j < i ==> row@[j] == ' ',
        decreases w - i,
    {
        row.push(' ');
        i = i + 1;
    }
    let ghost w_nat: nat = w as nat;
    assert(row@ =~= Seq::new(w_nat, |i: int| ' '));
    place_mark(&mut row, 0, "0");
    place_mark(&mut row, 20, "20");
    place_mark(&mut row, 40, "40");
    place_mark(&mut row, 60, "60");
    place_mark(&mut row, 85, "85");
    place_mark(&mut row, 100, "100");
    row
}

/// Total eighth-cells of a graph column for a sample of `value` percent
/// (capped at 100) in a graph `h` rows tall, rounded to the nearest eighth.
pub open spec fn column_eighths(value: nat, h: nat) -> nat {
    let v = if value < 100 {
        value
    } else {
        100
    };
    (4 * v * h + 25) / 50
}

/// Eighths of column cell `row` (counting from the top of an `h`-row graph)
/// that are filled.
pub open spec fn spec_cell_eighths(value: nat, h: nat, row: nat) -> nat {
    let below = (h - 1 - row) * 8;
    let here = sat_sub(column_eighths(value, h) as int, below);
    if here < 8 {
        here as nat
    } else {
        8
    }
}

/// Filled eighths (0 to 8) of the cell in row `row` of a graph column for a
/// sample of `value` percent; the graph is `height` rows tall (at least one).
pub fn cell_eighths(value: u64, height: u16, row: u16) -> (e: u16)
    requires
        row < if height < 1 {
            1
        } else {
            height
        },
    ensures
        e == spec_cell_eighths(
            value as nat,
            if height < 1 {
                1
            } else {
                height as nat
            },
            row as nat,
        ),
        e <= 8,
{
    let h: u64 = if height < 1 {
        1
    } else {
        height as u64
    };
    let v: u64 = if value < 100 {
        value
    } else {
        100
    };
    assert(4 * v * h <= 400 * 0xFFFF) by (nonlinear_arith)
        requires
            v <= 100,
            h <= 0xFFFF,
    ;
    let total: u64 = (4 * v * h + 25) / 50;
    let below: u64 = (h - 1 - row as u64) * 8;
    let here: u64 = if total > below {
        total - below
    } else {
        0
    };
    if here < 8 {
        here as u16
    } else {
        8
    }
}

/// The first sample shown and the blank columns before it.
pub open spec fn spec_graph_window(samples: int, width: int) -> (int, int) {
    let w = if width < 1 {
        1
    } else {
        width
    };
    let start = sat_sub(samples, w);
    (start, sat_sub(w, samples - start))
}

/// Law: a graph shows its newest samples, right-aligned: as many as fit in
/// its columns (at least one), after blank columns for any it lacks, so
/// that shown samples and blanks fill the width exactly.
pub proof fn lemma_graph_window(samples: nat, width: nat)
    ensures
        ({
            let w = if width < 1 {
                1
            } else {
                width as int
            };
            let (start, pad) = spec_graph_window(samples as int, width as int);
            &&& 0 <= start <= samples
            &&& (samples - start) + pad == w
            &&& samples >= w ==> pad == 0 && samples - start == w
            &&& samples < w ==> start == 0 && pad == w - samples
        }),
{
}

/// Which samples a graph `width` columns wide shows, newest at the right
/// edge: the index of the first sample shown and the number of blank
/// columns before it.
pub fn graph_window(samples: usize, width: u16) -> (r: (usize, usize))
    ensures
        ({
            let w = if width < 1 {
                1
            } else {
                width as int
            };
            let start = sat_sub(samples as int, w);
            &&& r.0 == start
            &&& r.1 == sat_sub(w, samples - start)
        }),
        (r.0 as int, r.1 as int) == spec_graph_window(samples as int, width as int),
{
    let w: usize = if width < 1 {
        1
    } else {
        width as usize
    };
    let start = samples.saturating_sub(w);
    (start, w.saturating_sub(samples - start))
}

/// Law: a column's cells together hold exactly its rounded height: the
/// eighths of all rows sum to the column total.
pub proof fn lemma_column_cells_sum(value: nat, h: nat)
    requires
        h >= 1,
    ensures
        cells_sum(value, h, h) == column_eighths(value, h),
{
    lemma_cells_sum_from_bottom(value, h, h);
    let v: nat = if value < 100 {
        value
    } else {
        100
    };
    assert(4 * v * h <= 400 * h) by (nonlinear_arith)
        requires
            v <= 100,
    ;
}

/// Sum of the eighths of the bottom `k` rows of a column.
pub open spec fn cells_sum(value: nat, h: nat, k: nat) -> nat
    decreases k,
{
    if k == 0 {
        0
    } else {
        cells_sum(value, h, (k - 1) as nat) + spec_cell_eighths(value, h, (h - k) as nat)
    }
}

proof fn lemma_cells_sum_from_bottom(value: nat, h: nat, k: nat)
    requires
        h >= 1,
        k <= h,
    ensures
        cells_sum(value, h, k) == if column_eighths(value, h) < 8 * k {
            column_eighths(value, h)
        } else {
            8 * k
        },
    decreases k,
{
    if k > 0 {
        lemma_cells_sum_from_bottom(value, h, (k - 1) as nat);
    }
}


/// The block glyph for a cell filled `e` eighths from the bottom: a space,
/// then the lower eighth blocks up to the full block.
pub open spec fn spec_eighth_glyph(e: nat) -> char {
    if e == 0 {
        ' '
    } else if e == 1 {
        '\u{2581}'
    } else if e == 2 {
        '\u{2582}'
    } else if e == 3 {
        '\u{2583}'
    } else if e == 4 {
        '\u{2584}'
    } else if e == 5 {
        '\u{2585}'
    } else if e == 6 {
        '\u{2586}'
    } else if e == 7 {
        '\u{2587}'
    } else {
        '\u{2588}'
    }
}

pub fn eighth_glyph(e: u16) -> (c: char)
    requires
        e <= 8,
    ensures
        c == spec_eighth_glyph(e as nat),
{
    match e {
        0 => ' ',
        1 => '\u{2581}',
        2 => '\u{2582}',
        3 => '\u{2583}',
        4 => '\u{2584}',
        5 => '\u{2585}',
        6 => '\u{2586}',
        7 => '\u{2587}',
        _ => '\u{2588}',
    }
}

/// Colour of a graph column: faint while muted, else the meter zone of its
/// sample (a percentage, capped at 100).
pub open spec fn spec_column_tone(muted: bool, sample: u64) -> Tone {
    if muted {
        Tone::Faint
    } else {
        spec_zone(
            if sample < 100 {
                sample as nat
            } else {
                100
            },
            100,
        )
    }
}

pub fn column_tone(muted: bool, sample: u64) -> (t: Tone)
    ensures
        t == spec_column_tone(muted, sample),
{
    if muted {
        Tone::Faint
    } else {
        zone(
            if sample < 100 {
                sample
            } else {
                100
            },
            100,
        )
    }
}

/// Law: a graph column is the sample's share of the graph's height, in
/// eighths of a row, rounded to the nearest eighth (halves up); samples
/// over 100% draw as 100%.
pub proof fn lemma_column_eighths(value: nat, h: nat)
    ensures
        ({
            let v = if value < 100 {
                value
            } else {
                100
            };
            let c = column_eighths(value, h);
            &&& 100 * c <= 8 * h * v + 50
            &&& 8 * h * v + 50 < 100 * (c + 1)
        }),
{
    let v = if value < 100 {
        value
    } else {
        100
    };
    let c = column_eighths(value, h);
    vstd::arithmetic::div_mod::lemma_fundamental_div_mod((4 * v * h + 25) as int, 50);
    vstd::arithmetic::div_mod::lemma_mod_bound((4 * v * h + 25) as int, 50);
    assert(8 * h * v == 2 * (4 * v * h)) by (nonlinear_arith);
}

/// Law: a column fills its cells from the bottom: every cell holds 0 to 8
/// eighths, and a cell holds anything only when every cell below it is
/// full.
pub proof fn lemma_cells_fill_from_bottom(value: nat, h: nat, row: nat)
    requires
        h >= 1,
        row < h,
    ensures
        spec_cell_eighths(value, h, row) <= 8,
        spec_cell_eighths(value, h, row) > 0 && row + 1 < h ==> spec_cell_eighths(
            value,
            h,
            row + 1,
        ) == 8,
{
}

/// Law: the graph's glyphs are a blank for an empty cell and the lower
/// eighth blocks U+2581 to U+2588 for one to eight eighths.
pub proof fn lemma_eighth_glyphs(e: nat)
    ensures
        e == 0 ==> spec_eighth_glyph(e) == ' ',
        1 <= e <= 8 ==> spec_eighth_glyph(e) as u32 == 0x2580 + e,
{
}

/// Law: a graph column is faint while muted and otherwise takes the meter's
/// colour for its sample, a sample over 100% reading as full scale.
pub proof fn lemma_column_tones(muted: bool, sample: u64)
    ensures
        muted ==> spec_column_tone(muted, sample) == Tone::Faint,
        !muted && sample <= 100 ==> spec_column_tone(muted, sample) == spec_zone(
            sample as nat,
            100,
        ),
        !muted && sample > 100 ==> spec_column_tone(muted, sample) == Tone::Red,
{
}

/// Law: the ruler is as wide as asked (at least one column) and, when at
/// least three wide, ends in the label `100` at its right edge.
pub proof fn lemma_meter_scale(width: u16)
    ensures
        spec_meter_scale(width).len() == (if width < 1 {
            1
        } else {
            width as int
        }),
        width >= 3 ==> spec_meter_scale(width).subrange(width - 3, width as int) == "100"@,
{
    reveal_strlit("100");
    reveal_strlit("85");
    reveal_strlit("60");
    reveal_strlit("40");
    reveal_strlit("20");
    reveal_strlit("0");
    let w: nat = if width < 1 {
        1
    } else {
        width as nat
    };
    if width >= 3 {
        let row = spec_meter_scale(width);
        let centre = ruler_column(100, w);
        assert(centre == w - 1) by {
            assert((2 * 100 * (w - 1) + 100) / 200 == w - 1) by (nonlinear_arith)
                requires
                    w >= 3,
            ;
        }
        assert(row.subrange(width - 3, width as int) =~= "100"@);
    }
}

} // verus!
