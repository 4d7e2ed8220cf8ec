use telink_ota::device::{dev_major, dev_minor, link_names_hidraw, subsystem_link};
use telink_ota::text::str_eq;

#[test]
fn device_numbers_decode_major_and_minor() {
    // makedev(241, 3) and makedev(10, 0x12345).
    assert_eq!(dev_major(0xF103), 241);
    assert_eq!(dev_minor(0xF103), 3);
    let rdev: u64 = (0x45) | (10 << 8) | ((0x12345 & !0xff) << 12);
    assert_eq!(dev_major(rdev), 10);
    assert_eq!(dev_minor(rdev), 0x12345);
}

#[test]
fn subsystem_link_names_the_sysfs_class_link() {
    assert_eq!(subsystem_link(241, 3), "/sys/dev/char/241:3/subsystem");
    assert_eq!(subsystem_link(0, 10), "/sys/dev/char/0:10/subsystem");
}

#[test]
fn str_eq_compares_characters() {
    assert!(str_eq("flash", "flash"));
    assert!(!str_eq("flash", "flas"));
    assert!(!str_eq("flash", "fla5h"));
    assert!(str_eq("", ""));
}

#[test]
fn hidraw_link_is_recognized_by_its_last_component() {
    assert!(link_names_hidraw("../../../../class/hidraw"));
    assert!(link_names_hidraw("hidraw"));
    assert!(link_names_hidraw("../class/hidraw/"));
    assert!(link_names_hidraw("../class/hidraw/."));
    assert!(link_names_hidraw("./hidraw"));
    assert!(!link_names_hidraw("../../../../class/cec"));
    assert!(!link_names_hidraw("../class/nothidraw"));
    assert!(!link_names_hidraw("../class/hidraw2"));
    assert!(!link_names_hidraw("hidraw/.."));
    assert!(!link_names_hidraw(""));
    assert!(!link_names_hidraw("/"));
}
