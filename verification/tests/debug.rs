use riggen_app::debug::{HitDebug, InputDebug, TreeDragDebug};

#[test]
fn the_plain_viewport_suppresses_nothing() {
    let off = InputDebug {
        pick_suppressed: false,
        select_suppressed: false,
        camera_blocked: false,
        primary_drag_claimed: false,
        wheel_claimed: false,
    };
    assert!(off.is_off());
    assert!(!InputDebug { wheel_claimed: true, ..off }.is_off());
    assert!(!InputDebug { camera_blocked: true, ..off }.is_off());
    assert_eq!(HitDebug { instance: 1, triangle: 120 }, HitDebug { instance: 1, triangle: 120 });
    let drag = TreeDragDebug { link: "l2".into(), over: None, allowed: false };
    assert_eq!(drag.clone(), drag);
}
