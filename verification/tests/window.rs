use maono::protocol::{BATTERY, GAIN, LEVEL, LIGHT, LIGHT_MODE, MUTE, NR, NR_LEVEL};
use maono::window::Window;

fn start() -> Window {
    Window::from_readings(Some(70), Some(0), Some(9), Some(1), Some(2), Some(0), Some(4))
}

#[test]
fn readings_when_connecting() {
    let w = start();
    assert_eq!(
        w,
        Window { battery: 70, muted: false, gain: 9, nr: 3, light_on: false, light_mode: 4, units: 0 }
    );
    let blank = Window::from_readings(None, None, None, None, None, None, None);
    assert_eq!(
        blank,
        Window { battery: 0, muted: false, gain: 0, nr: 0, light_on: false, light_mode: 0, units: 0 }
    );
    assert_eq!(Window::from_readings(None, None, None, Some(1), None, None, None).nr, 1);
}

#[test]
fn announcements_update_the_window() {
    let mut w = start();
    w.notice_all(&vec![
        (MUTE, 1),
        (GAIN, 14),
        (LIGHT, 1),
        (LIGHT_MODE, 7),
        (BATTERY, 55),
        (LEVEL, 0x3F3F),
        (NR, 0),
        (0x9999, 5),
    ]);
    assert_eq!(
        w,
        Window { battery: 55, muted: true, gain: 14, nr: 0, light_on: true, light_mode: 7, units: 63 }
    );
    // a level announced while off is not taken; switching on selects low
    w.notice_all(&vec![(NR_LEVEL, 2), (NR, 1)]);
    assert_eq!(w.nr, 1);
    w.notice(NR_LEVEL, 1);
    assert_eq!(w.nr, 2);
}
