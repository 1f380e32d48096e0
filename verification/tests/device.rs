use maono::device::{is_receiver_uevent, names_receiver};

#[test]
fn receiver_uevent_is_recognised() {
    let text = "DRIVER=hid-generic\nHID_ID=0003:0000352F:00000414\nHID_NAME=Maono PD100W\n";
    assert!(is_receiver_uevent(text));
}

#[test]
fn lower_case_ids_are_upper_cased_first() {
    // only matches once the text is upper-cased
    assert!(is_receiver_uevent("hid_id=0003:0000352f:00000414"));
    assert!(!names_receiver("hid_id=0003:0000352f:00000414"));
}

#[test]
fn other_devices_are_not() {
    assert!(!is_receiver_uevent("HID_ID=0003:0000046D:0000C52B"));
    assert!(!is_receiver_uevent(""));
    assert!(!is_receiver_uevent("352F"));
}

#[test]
fn zero_groups_are_removed_left_to_right() {
    // "00000352F" loses its first four zeros only, leaving "0352F"
    assert!(names_receiver("00000352F:0414"));
    // "000414" keeps its last two zeros: no group of four
    assert!(!names_receiver("352F:000414"));
    assert!(names_receiver("0000352F:00000414"));
    assert!(names_receiver("352F:0000000000000414"));
}

#[test]
fn matches_std_replace() {
    for t in ["0003:0000352F:00000414", "00000000352F:0414", "352F0000:0414", "x352F:0414y"] {
        let want = t.to_uppercase().replace("0000", "").contains("352F:0414");
        assert_eq!(is_receiver_uevent(t), want, "{t}");
    }
}

use maono::device::{device_path, names_in_order, pick_receiver, HidrawNode};

fn node(name: &str, uevent: &str) -> HidrawNode {
    HidrawNode { name: name.as_bytes().to_vec(), uevent: uevent.to_string() }
}

const RECEIVER: &str = "HID_ID=0003:0000352F:00000414\n";
const MOUSE: &str = "HID_ID=0003:0000046D:0000C52B\n";

#[test]
fn first_matching_node_in_name_order() {
    let nodes = vec![
        node("hidraw3", RECEIVER),
        node("hidraw0", MOUSE),
        node("hidraw10", RECEIVER),
        node("hidraw2", MOUSE),
    ];
    // "hidraw10" sorts before "hidraw3", as the paths do
    assert_eq!(pick_receiver(&nodes), Some(2));
    assert_eq!(pick_receiver(&vec![node("hidraw0", MOUSE)]), None);
    assert_eq!(pick_receiver(&vec![]), None);
    assert_eq!(pick_receiver(&vec![node("hidraw5", RECEIVER)]), Some(0));
}

#[test]
fn name_order_matches_path_order() {
    let names = ["hidraw0", "hidraw1", "hidraw10", "hidraw2", "a", "", "hidraw", "Hidraw9"];
    for a in names {
        for b in names {
            let want = std::path::Path::new("/sys/class/hidraw").join(a)
                <= std::path::Path::new("/sys/class/hidraw").join(b);
            if !a.is_empty() && !b.is_empty() {
                assert_eq!(names_in_order(a.as_bytes(), b.as_bytes()), want, "{a} {b}");
            }
            assert_eq!(names_in_order(a.as_bytes(), b.as_bytes()), a.as_bytes() <= b.as_bytes());
        }
    }
}

#[test]
fn device_file_of_a_node() {
    assert_eq!(device_path("hidraw4"), "/dev/hidraw4");
}
