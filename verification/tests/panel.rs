use maono::panel::{
    history_sample, inside, is_clipping_level, noise_cells, noise_writes, nr_segment,
    segment_after, split, step_light_mode, Area, Focus, Hits, Intent, Key, MouseKind, Panel,
    Point, Write,
};
use maono::protocol::{BATTERY, GAIN, LEVEL, LIGHT, LIGHT_MODE, MUTE, NR, NR_LEVEL};

fn panel() -> Panel {
    Panel::from_readings(Some(80), Some(0), Some(10), Some(1), Some(1), Some(0), Some(4))
}

fn area(x: u16, y: u16, width: u16, height: u16) -> Area {
    Area { x, y, width, height }
}

fn hits() -> Hits {
    Hits {
        mute: area(8, 5, 8, 1),
        gain: area(8, 6, 40, 1),
        segments: noise_cells(area(8, 7, 60, 1)),
        light_toggle: area(8, 8, 5, 1),
        light_prev: area(13, 8, 3, 1),
        light_next: area(19, 8, 3, 1),
        close: area(79, 0, 1, 1),
    }
}

#[test]
fn focus_cycles_both_ways() {
    let all = [Focus::Mute, Focus::Gain, Focus::Noise, Focus::Light];
    for (i, f) in all.iter().enumerate() {
        assert_eq!(f.next(), all[(i + 1) % 4]);
        assert_eq!(f.next().prev(), *f);
        assert_eq!(f.prev().next(), *f);
        assert_eq!(f.next().next().next().next(), *f);
    }
    assert_eq!(Focus::Mute.prev(), Focus::Light);
}

#[test]
fn readings_become_panel_state() {
    let p = panel();
    assert_eq!(p.battery, Some(80));
    assert!(!p.muted);
    assert_eq!(p.gain, 10);
    assert!(p.nr_on);
    assert_eq!(p.nr_level, 1);
    assert!(!p.light_on);
    assert_eq!(p.light_mode, 4);
    assert_eq!(p.focus, Focus::Mute);
    let q = Panel::from_readings(None, None, None, None, None, None, None);
    assert_eq!(q.battery, None);
    assert_eq!(q.gain, 0);
}

#[test]
fn notifications_update_the_mirror() {
    let mut p = panel();
    p.notice(MUTE, 1);
    assert!(p.muted);
    p.notice(GAIN, 17);
    assert_eq!(p.gain, 17);
    p.notice(NR, 0);
    assert!(!p.nr_on);
    p.notice(NR_LEVEL, 2);
    assert_eq!(p.nr_level, 2);
    p.notice(LIGHT, 5);
    assert!(p.light_on);
    p.notice(LIGHT_MODE, 7);
    assert_eq!(p.light_mode, 7);
    p.notice(BATTERY, 55);
    assert_eq!(p.battery, Some(55));
    p.notice(LEVEL, 0x3030);
    assert_eq!(p.level, 0x30);
    let before = p;
    p.notice(0x3000, 9);
    assert_eq!(p, before);
}

#[test]
fn nr_segments() {
    assert_eq!(nr_segment(false, 2), 0);
    assert_eq!(nr_segment(true, 0), 1);
    assert_eq!(nr_segment(true, 2), 3);
    assert_eq!(nr_segment(true, 9), 3);
    assert_eq!(panel().nr_index(), 2);
    assert_eq!(segment_after(0, NR, 1), 1);
    assert_eq!(segment_after(2, NR, 1), 2);
    assert_eq!(segment_after(2, NR, 0), 0);
    assert_eq!(segment_after(1, NR_LEVEL, 2), 3);
    assert_eq!(segment_after(0, NR_LEVEL, 2), 0);
    assert_eq!(segment_after(2, GAIN, 2), 2);
}

#[test]
fn light_modes_wrap() {
    assert_eq!(step_light_mode(8, 1), 0);
    assert_eq!(step_light_mode(0, -1), 8);
    assert_eq!(step_light_mode(4, 1), 5);
    assert_eq!(step_light_mode(20, 1), 3);
}

#[test]
fn keys() {
    let mut p = panel();
    assert_eq!(p.on_key(Key::Tab, false), Intent::Nothing);
    assert_eq!(p.focus, Focus::Gain);
    assert_eq!(p.on_key(Key::Right, false), Intent::Gain(11));
    assert_eq!(p.on_key(Key::Char('-'), false), Intent::Gain(9));
    assert_eq!(p.on_key(Key::BackTab, false), Intent::Nothing);
    assert_eq!(p.focus, Focus::Mute);
    assert_eq!(p.on_key(Key::Enter, false), Intent::Mute(true));
    assert_eq!(p.on_key(Key::Char('m'), false), Intent::Mute(true));
    assert_eq!(p.on_key(Key::Char('l'), false), Intent::Light(true));
    assert_eq!(p.on_key(Key::Home, false), Intent::Gain(0));
    assert_eq!(p.on_key(Key::End, false), Intent::Gain(20));
    assert_eq!(p.on_key(Key::Char('3'), false), Intent::Noise(3));
    assert_eq!(p.on_key(Key::Char('4'), false), Intent::Nothing);
    assert_eq!(p.on_key(Key::Char('c'), false), Intent::Nothing);
    assert!(!p.quit);
    assert_eq!(p.on_key(Key::Char('c'), true), Intent::Nothing);
    assert!(p.quit);
    let mut q = panel();
    q.on_key(Key::Esc, false);
    assert!(q.quit);
}

#[test]
fn arrows_act_on_focus() {
    let mut p = panel();
    p.focus = Focus::Noise;
    assert_eq!(p.arrow_intent(true), Intent::Noise(3));
    assert_eq!(p.arrow_intent(false), Intent::Noise(1));
    p.nr_level = 2;
    assert_eq!(p.arrow_intent(true), Intent::Noise(3));
    p.nr_on = false;
    assert_eq!(p.arrow_intent(false), Intent::Noise(0));
    p.focus = Focus::Light;
    assert_eq!(p.arrow_intent(false), Intent::StepLight(-1));
    p.focus = Focus::Gain;
    p.gain = 20;
    assert_eq!(p.arrow_intent(true), Intent::Gain(20));
    p.gain = 0;
    assert_eq!(p.arrow_intent(false), Intent::Gain(0));
}

#[test]
fn mouse_hits() {
    let h = hits();
    let mut p = panel();
    assert_eq!(p.on_mouse(MouseKind::LeftDown, 9, 5, &h, 0), Intent::Mute(true));
    assert_eq!(p.mouse, Some(Point { x: 9, y: 5 }));
    assert_eq!(p.on_mouse(MouseKind::LeftDown, 20, 6, &h, 6), Intent::Gain(6));
    assert!(p.dragging);
    assert_eq!(p.focus, Focus::Gain);
    assert_eq!(p.on_mouse(MouseKind::LeftDrag, 30, 6, &h, 11), Intent::Gain(11));
    assert_eq!(p.on_mouse(MouseKind::LeftUp, 30, 6, &h, 11), Intent::Nothing);
    assert_eq!(p.on_mouse(MouseKind::LeftDrag, 30, 6, &h, 11), Intent::Nothing);
    // segments: off at 8..13, low 13..18, mid 18..23, high 23..29
    assert_eq!(p.on_mouse(MouseKind::LeftDown, 24, 7, &h, 0), Intent::Noise(3));
    assert_eq!(p.focus, Focus::Noise);
    assert_eq!(p.on_mouse(MouseKind::LeftDown, 8, 8, &h, 0), Intent::Light(true));
    assert_eq!(p.on_mouse(MouseKind::LeftDown, 14, 8, &h, 0), Intent::StepLight(-1));
    assert_eq!(p.on_mouse(MouseKind::LeftDown, 20, 8, &h, 0), Intent::StepLight(1));
    assert_eq!(p.on_mouse(MouseKind::ScrollUp, 0, 0, &h, 0), Intent::Gain(11));
    assert_eq!(p.on_mouse(MouseKind::ScrollDown, 0, 0, &h, 0), Intent::Gain(9));
    assert_eq!(p.on_mouse(MouseKind::LeftDown, 50, 20, &h, 0), Intent::Nothing);
    assert!(!p.quit);
    assert_eq!(p.on_mouse(MouseKind::LeftDown, 79, 0, &h, 0), Intent::Nothing);
    assert!(p.quit);
}

#[test]
fn writes_and_settling() {
    let p = panel();
    assert_eq!(p.writes(Intent::Mute(true)), vec![Write { id: MUTE, value: 1, pause_ms: 0 }]);
    assert_eq!(p.writes(Intent::Gain(10)), vec![]);
    assert_eq!(p.writes(Intent::Gain(30)), vec![Write { id: GAIN, value: 20, pause_ms: 0 }]);
    assert_eq!(
        p.writes(Intent::Noise(3)),
        vec![Write { id: NR, value: 1, pause_ms: 110 }, Write { id: NR_LEVEL, value: 2, pause_ms: 0 }]
    );
    assert_eq!(
        p.writes(Intent::StepLight(1)),
        vec![Write { id: LIGHT, value: 1, pause_ms: 90 }, Write { id: LIGHT_MODE, value: 5, pause_ms: 0 }]
    );
    assert_eq!(noise_writes(0, 90), vec![
        Write { id: NR, value: 0, pause_ms: 90 },
        Write { id: NR_LEVEL, value: 0, pause_ms: 0 }
    ]);

    let mut q = p;
    q.settle(Intent::Mute(true), false);
    assert!(!q.muted);
    q.settle(Intent::Mute(true), true);
    assert!(q.muted);
    q.settle(Intent::Noise(0), false);
    assert!(!q.nr_on);
    assert_eq!(q.nr_level, 0);
    q.settle(Intent::StepLight(-1), true);
    assert!(q.light_on);
    assert_eq!(q.light_mode, 3);
    q.settle(Intent::Gain(25), true);
    assert_eq!(q.gain, 20);
}

#[test]
fn settling_agrees_with_the_echo() {
    let p = panel();
    for intent in [
        Intent::Mute(true),
        Intent::Gain(3),
        Intent::Gain(10),
        Intent::Noise(2),
        Intent::Noise(0),
        Intent::Light(true),
        Intent::StepLight(-1),
        Intent::Nothing,
    ] {
        let mut echoed = p;
        for w in p.writes(intent) {
            echoed.notice(w.id, w.value);
        }
        let mut settled = p;
        settled.settle(intent, true);
        assert_eq!(echoed, settled, "{intent:?}");
    }
}

#[test]
fn status_notes() {
    let p = panel();
    assert_eq!(p.status_note(Intent::Mute(true), true).as_deref(), Some("muted"));
    assert_eq!(p.status_note(Intent::Mute(false), true).as_deref(), Some("live"));
    assert_eq!(p.status_note(Intent::Mute(true), false), None);
    assert_eq!(p.status_note(Intent::Gain(15), true).as_deref(), Some("gain 15"));
    assert_eq!(p.status_note(Intent::Gain(10), true), None);
    assert_eq!(p.status_note(Intent::Noise(2), false).as_deref(), Some("noise mid"));
    assert_eq!(p.status_note(Intent::Noise(0), true).as_deref(), Some("noise off"));
    assert_eq!(p.status_note(Intent::Light(false), true).as_deref(), Some("light off"));
    assert_eq!(p.status_note(Intent::StepLight(1), true).as_deref(), Some("light mode 5"));
    assert_eq!(p.status_note(Intent::Nothing, true), None);
}

#[test]
fn geometry() {
    assert!(inside(area(2, 3, 4, 1), 2, 3));
    assert!(inside(area(2, 3, 4, 1), 5, 3));
    assert!(!inside(area(2, 3, 4, 1), 6, 3));
    assert!(!inside(area(2, 3, 4, 1), 3, 4));
    assert!(!inside(area(2, 3, 0, 1), 2, 3));
    assert_eq!(split(area(1, 2, 30, 1)), (area(1, 2, 7, 1), area(8, 2, 23, 1)));
    assert_eq!(split(area(1, 2, 5, 1)), (area(1, 2, 5, 1), area(6, 2, 0, 1)));
    let cells = noise_cells(area(10, 4, 16, 1));
    assert_eq!(cells[0], area(10, 4, 5, 1));
    assert_eq!(cells[1], area(15, 4, 5, 1));
    assert_eq!(cells[2], area(20, 4, 5, 1));
    assert_eq!(cells[3], area(0, 0, 0, 0));
}

#[test]
fn history_and_clipping() {
    assert_eq!(history_sample(false, 63), 100);
    assert_eq!(history_sample(false, 0), 0);
    assert_eq!(history_sample(false, 32), 50);
    assert_eq!(history_sample(true, 63), 0);
    for u in 0..=63u16 {
        assert_eq!(history_sample(false, u), ((u as f64 / 63.0) * 100.0) as u64);
        assert_eq!(is_clipping_level(u), u as f64 / 63.0 >= 0.95);
    }
}

use maono::panel::{record_sample, segment_after_all, HISTORY_LEN};
use maono::targets::{close_cell, gain_track, light_cells, mute_pill};
use std::collections::VecDeque;

#[test]
fn history_keeps_the_newest_samples() {
    let mut h: VecDeque<u64> = VecDeque::new();
    for i in 0..(HISTORY_LEN as u64 + 25) {
        record_sample(&mut h, i);
        assert!(h.len() <= HISTORY_LEN);
        assert_eq!(*h.back().unwrap(), i);
    }
    assert_eq!(h.len(), HISTORY_LEN);
    assert_eq!(*h.front().unwrap(), 25);
    let mut short: VecDeque<u64> = VecDeque::from(vec![1, 2]);
    record_sample(&mut short, 3);
    assert_eq!(short, VecDeque::from(vec![1, 2, 3]));
}

#[test]
fn selector_over_a_drain() {
    assert_eq!(segment_after_all(0, &vec![]), 0);
    assert_eq!(segment_after_all(0, &vec![(NR, 1), (NR_LEVEL, 2)]), 3);
    assert_eq!(segment_after_all(2, &vec![(NR, 0), (NR_LEVEL, 1)]), 0);
    assert_eq!(segment_after_all(0, &vec![(NR_LEVEL, 1), (GAIN, 4), (NR, 7)]), 1);
    assert_eq!(segment_after_all(1, &vec![(NR_LEVEL, 9000)]), 3);
}

#[test]
fn click_targets() {
    let row = Area { x: 1, y: 2, width: 40, height: 1 };
    assert_eq!(close_cell(row), Area { x: 40, y: 2, width: 1, height: 1 });
    assert_eq!(close_cell(Area { width: 0, ..row }), Area { x: 1, y: 2, width: 1, height: 1 });
    assert_eq!(mute_pill(row), Area { width: 8, ..row });
    assert_eq!(mute_pill(Area { width: 5, ..row }), Area { width: 5, ..row });
    assert_eq!(gain_track(row), Area { width: 32, ..row });
    assert_eq!(gain_track(Area { width: 6, ..row }), Area { width: 0, ..row });
}

#[test]
fn light_row_cells() {
    let r = Area { x: 8, y: 10, width: 30, height: 1 };
    let [toggle, prev, num, next, rest] = light_cells(r);
    assert_eq!(toggle, Area { x: 8, y: 10, width: 5, height: 1 });
    assert_eq!(prev, Area { x: 13, y: 10, width: 3, height: 1 });
    assert_eq!(num, Area { x: 16, y: 10, width: 3, height: 1 });
    assert_eq!(next, Area { x: 19, y: 10, width: 3, height: 1 });
    assert_eq!(rest, Area { x: 22, y: 10, width: 16, height: 1 });
}

#[test]
fn light_row_narrower_than_its_controls() {
    for width in 0..14u16 {
        let r = Area { x: 3, y: 4, width, height: 1 };
        for c in light_cells(r) {
            assert_eq!(c.y, 4);
            assert_eq!(c.height, 1);
            assert!(c.x >= r.x && c.x + c.width <= r.x + r.width, "{width} {c:?}");
        }
    }
}

#[test]
fn notice_all_takes_each_in_order() {
    let mut p = panel();
    p.notice_all(&vec![(MUTE, 1), (GAIN, 3), (MUTE, 0), (BATTERY, 12), (LIGHT_MODE, 6)]);
    let mut q = panel();
    q.notice(MUTE, 1);
    q.notice(GAIN, 3);
    q.notice(MUTE, 0);
    q.notice(BATTERY, 12);
    q.notice(LIGHT_MODE, 6);
    assert_eq!(p, q);
    assert!(!p.muted);
    assert_eq!(p.gain, 3);
    assert_eq!(p.battery, Some(12));
    let before = panel();
    let mut same = panel();
    same.notice_all(&vec![]);
    assert_eq!(same, before);
}

#[test]
fn light_row_wide_enough_is_packed() {
    for width in 14..300u16 {
        let r = Area { x: 2, y: 1, width, height: 2 };
        let c = light_cells(r);
        assert_eq!(c[0], Area { x: 2, width: 5, ..r });
        assert_eq!(c[1], Area { x: 7, width: 3, ..r });
        assert_eq!(c[2], Area { x: 10, width: 3, ..r });
        assert_eq!(c[3], Area { x: 13, width: 3, ..r });
        assert_eq!(c[4], Area { x: 16, width: width - 14, ..r });
    }
}
