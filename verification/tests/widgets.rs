use maono::theme::{battery, zone, Tone};
use maono::widgets::{cell_eighths, column_tone, eighth_glyph, graph_window, meter_scale};

/// The original float placement of the ruler labels.
fn float_scale(width: u16) -> String {
    let w = width.max(1) as usize;
    let marks: [(f64, &str); 6] =
        [(0.0, "0"), (0.2, "20"), (0.4, "40"), (0.6, "60"), (0.85, "85"), (1.0, "100")];
    let mut row = vec![' '; w];
    for (frac, label) in marks {
        let centre = (frac * (w.saturating_sub(1)) as f64).round() as usize;
        let start = centre.saturating_sub(label.len() / 2).min(w.saturating_sub(label.len()));
        for (k, ch) in label.chars().enumerate() {
            if start + k < w {
                row[start + k] = ch;
            }
        }
    }
    row.into_iter().collect()
}

#[test]
fn meter_scale_places_labels() {
    assert_eq!(meter_scale(21).iter().collect::<String>(), "0  20  40  60   85100");
    assert_eq!(meter_scale(0).iter().collect::<String>(), "1");
    assert_eq!(meter_scale(1).len(), 1);
    for w in 0..300u16 {
        assert_eq!(meter_scale(w).iter().collect::<String>(), float_scale(w), "width {w}");
    }
}

#[test]
fn meter_scale_known_row() {
    assert_eq!(meter_scale(11).iter().collect::<String>(), float_scale(11));
    assert_eq!(meter_scale(11).len(), 11);
}

#[test]
fn zones() {
    assert_eq!(zone(0, 100), Tone::Green);
    assert_eq!(zone(60, 100), Tone::Green);
    assert_eq!(zone(65, 100), Tone::Green);
    assert_eq!(zone(69, 100), Tone::Green);
    assert_eq!(zone(70, 100), Tone::Amber);
    assert_eq!(zone(84, 100), Tone::Amber);
    assert_eq!(zone(85, 100), Tone::Red);
    assert_eq!(zone(17, 20), Tone::Red);
    assert_eq!(zone(63, 63), Tone::Red);
    assert_eq!(zone(45, 63), Tone::Amber);
    assert_eq!(zone(44, 63), Tone::Green);
    assert_eq!(zone(u64::MAX, u64::MAX), Tone::Red);
    assert_eq!(zone(u64::MAX / 100 * 70, u64::MAX), Tone::Green);
    assert_eq!(zone(u64::MAX, 1), Tone::Red);
}

#[test]
fn battery_tones() {
    assert_eq!(battery(0), Tone::Red);
    assert_eq!(battery(15), Tone::Red);
    assert_eq!(battery(16), Tone::Amber);
    assert_eq!(battery(35), Tone::Amber);
    assert_eq!(battery(36), Tone::Green);
    assert_eq!(battery(87), Tone::Green);
}

#[test]
fn graph_cells_match_float_heights() {
    for h in 1..=12u16 {
        for d in 0..=120u64 {
            let v = d.min(100) as f64 / 100.0;
            let total = (v * (h as usize * 8) as f64).round() as usize;
            let mut sum = 0;
            for row in 0..h {
                let below = (h - 1 - row) as usize * 8;
                let here = total.saturating_sub(below).min(8);
                assert_eq!(cell_eighths(d, h, row) as usize, here);
                sum += here;
            }
            assert_eq!(sum, total);
        }
    }
    assert_eq!(cell_eighths(100, 0, 0), 8);
}

#[test]
fn graph_window_right_aligns() {
    assert_eq!(graph_window(10, 4), (6, 0));
    assert_eq!(graph_window(3, 8), (0, 5));
    assert_eq!(graph_window(0, 0), (0, 1));
}

#[test]
fn graph_glyphs_and_colours() {
    let glyphs: String = (0..=8).map(eighth_glyph).collect();
    assert_eq!(glyphs, " ▁▂▃▄▅▆▇█");
    assert_eq!(column_tone(true, 99), Tone::Faint);
    assert_eq!(column_tone(false, 50), Tone::Green);
    assert_eq!(column_tone(false, 70), Tone::Amber);
    assert_eq!(column_tone(false, 85), Tone::Red);
    assert_eq!(column_tone(false, 5000), Tone::Red);
}
