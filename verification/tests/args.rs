use r_uwp::args::UwpPlan;
use r_uwp::Args;

#[test]
fn default_settings_match_usage() {
    let a = Args::default();
    assert!(!a.disable_ws);
    assert_eq!(a.port, 8080);
    assert_eq!(a.shift_lock_key, 160);
    assert!(!a.disable_clip_mouse && !a.disable_clip_shift && !a.disable_mouse_tp && !a.disable_tp_crash);
    assert!(!a.silent);
}

#[test]
fn ws_port_unless_disabled() {
    let mut a = Args::default();
    a.port = 9000;
    assert_eq!(a.ws_port(), Some(9000));
    a.disable_ws = true;
    assert_eq!(a.ws_port(), None);
}

#[test]
fn plan_follows_switches() {
    let a = Args::default();
    assert_eq!(a.uwp_plan(), UwpPlan { right_click: Some(true), shift_lock: Some(0xA0), duplicate_checker: true });
    let mut b = Args::default();
    b.disable_clip_mouse = true;
    b.disable_clip_shift = true;
    b.disable_tp_crash = true;
    assert_eq!(b.uwp_plan(), UwpPlan { right_click: Some(false), shift_lock: None, duplicate_checker: false });
    let mut c = Args::default();
    c.disable_mouse_tp = true;
    c.shift_lock_key = 0x10;
    assert_eq!(c.uwp_plan(), UwpPlan { right_click: None, shift_lock: Some(0x10), duplicate_checker: true });
}
