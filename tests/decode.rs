use kmsynth::kmctrler::{Event as Edge, Input, State};
use kmsynth::registry::{qualifies, Registry};

#[test]
fn decode_keys_304_to_316() {
    for raw in 304u16..=316 {
        assert!(Input::is_known_code(raw));
        assert_eq!(Input::from_raw(raw), Some(Input::Key((raw - 304) as u8)));
    }
}

#[test]
fn decode_buttons_and_wheel() {
    assert_eq!(Input::from_raw(317), Some(Input::Select));
    assert_eq!(Input::from_raw(708), Some(Input::Start));
    assert_eq!(Input::from_raw(714), Some(Input::WheelUp));
    assert_eq!(Input::from_raw(715), Some(Input::WheelDown));
}

#[test]
fn decode_key_15_alias() {
    assert_eq!(Input::from_raw(320), Some(Input::Key(15)));
    assert_eq!(Input::from_raw(704), Some(Input::Key(15)));
}

#[test]
fn decode_upper_key_ranges() {
    assert_eq!(Input::from_raw(318), Some(Input::Key(13)));
    assert_eq!(Input::from_raw(705), Some(Input::Key(16)));
    assert_eq!(Input::from_raw(707), Some(Input::Key(18)));
    assert_eq!(Input::from_raw(709), Some(Input::Key(19)));
    assert_eq!(Input::from_raw(713), Some(Input::Key(23)));
}

#[test]
fn decode_ignored_codes() {
    for raw in 745u16..=750 {
        assert!(Input::is_known_code(raw));
        assert_eq!(Input::from_raw(raw), None);
    }
}

#[test]
fn decode_unknown_codes_are_rejected() {
    assert!(!Input::is_known_code(900));
    assert!(!Input::is_known_code(303));
    assert!(!Input::is_known_code(716));
    assert!(!Input::is_known_code(751));
}

#[test]
fn edge_from_raw_value() {
    assert_eq!(Edge::from_raw(304, 0), Some(Edge::Release(Input::Key(0))));
    assert_eq!(Edge::from_raw(304, 1), Some(Edge::Press(Input::Key(0))));
    assert_eq!(Edge::from_raw(714, 2), Some(Edge::Press(Input::WheelUp)));
    assert_eq!(Edge::from_raw(746, 1), None);
}

#[test]
fn state_folds_edges() {
    let mut st = State::new();
    assert!(!st.key(3));
    st.update(&Edge::Press(Input::Key(3)));
    assert!(st.key(3));
    assert!(st.keys()[3]);
    st.update(&Edge::Press(Input::Start));
    st.update(&Edge::Press(Input::Select));
    st.update(&Edge::Press(Input::WheelDown));
    assert!(st.start() && st.select() && st.wheel_down() && !st.wheel_up());
    st.reset_select_start();
    assert!(!st.start() && !st.select());
    assert!(st.key(3));
    st.update(&Edge::Release(Input::Key(3)));
    assert!(!st.key(3));
}

#[test]
fn registry_rank_instability() {
    let mut reg = Registry::new();
    assert!(reg.insert("/a".to_string()));
    assert!(reg.insert("/b".to_string()));
    assert_eq!(reg.channel_of("/a"), Some(0));
    assert_eq!(reg.channel_of("/b"), Some(1));
    assert!(reg.remove("/a"));
    assert_eq!(reg.channel_of("/b"), Some(0));
    assert_eq!(reg.channel_of("/a"), None);
}

#[test]
fn registry_rank_follows_sort_order_not_attach_order() {
    let mut reg = Registry::new();
    assert!(reg.insert("usb-3/input0".to_string()));
    assert!(reg.insert("usb-1/input0".to_string()));
    assert!(!reg.insert("usb-1/input0".to_string()));
    assert_eq!(reg.len(), 2);
    assert_eq!(reg.channel_of("usb-1/input0"), Some(0));
    assert_eq!(reg.channel_of("usb-3/input0"), Some(1));
    assert!(reg.insert("usb-2/input0".to_string()));
    assert_eq!(reg.channel_of("usb-3/input0"), Some(2));
    assert!(!reg.remove("usb-9/input0"));
    assert!(reg.contains("usb-2/input0"));
}

#[test]
fn registry_prefix_sorts_first() {
    let mut reg = Registry::new();
    assert!(reg.insert("/dev/ab".to_string()));
    assert!(reg.insert("/dev/a".to_string()));
    assert_eq!(reg.channel_of("/dev/a"), Some(0));
    assert_eq!(reg.channel_of("/dev/ab"), Some(1));
}

#[test]
fn controller_qualification() {
    assert!(qualifies(Some("KONAMI USB Multipurpose Controller"), 34));
    assert!(!qualifies(Some("KONAMI USB Multipurpose Controller"), 33));
    assert!(!qualifies(Some("Other Controller"), 34));
    assert!(!qualifies(None, 34));
}
