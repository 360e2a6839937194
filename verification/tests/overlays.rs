use riggen_app::overlays::{hidden_note, Overlay, Overlays};

#[test]
fn defaults_are_everything_but_collision() {
    let overlays = Overlays::default();
    for overlay in Overlay::ALL {
        assert_eq!(overlays.get(overlay), overlay.default_on(), "{overlay:?}");
    }
    assert_eq!(overlays.hidden(), vec!["collision"]);
}

#[test]
fn hidden_lists_what_is_off_in_the_rows_order() {
    let mut overlays = Overlays::default();
    overlays.set(Overlay::Collision, true);
    assert!(overlays.hidden().is_empty());
    overlays.set(Overlay::Links, false);
    overlays.set(Overlay::Joints, false);
    assert_eq!(overlays.hidden(), vec!["joints", "links"]);
}

#[test]
fn every_toggle_has_its_own_storage_key() {
    let mut keys: Vec<&str> = Overlay::ALL.iter().map(|o| o.key()).collect();
    keys.sort_unstable();
    keys.dedup();
    assert_eq!(keys.len(), Overlay::ALL.len());
}

#[test]
fn the_note_is_for_what_was_turned_off_on_purpose() {
    let mut overlays = Overlays::default();
    assert_eq!(hidden_note(overlays), None);
    overlays.set(Overlay::Collision, true);
    assert_eq!(hidden_note(overlays), None);
    overlays.set(Overlay::Joints, false);
    assert_eq!(hidden_note(overlays).as_deref(), Some("hidden: joints"));
    overlays.set(Overlay::Collision, false);
    overlays.set(Overlay::JointNames, false);
    assert_eq!(hidden_note(overlays).as_deref(), Some("hidden: joints, joint names, collision"));
}

#[test]
fn a_profile_round_trips_and_a_missing_key_keeps_the_default() {
    let mut overlays = Overlays::default();
    overlays.set(Overlay::Frames, false);
    overlays.set(Overlay::Collision, true);
    let saved = overlays.save();
    assert_eq!(saved[0], ("riggen.overlays.joints", "true"));
    assert_eq!(saved[2], ("riggen.overlays.frames", "false"));
    let stored: Vec<Option<String>> = saved.iter().map(|(_, v)| Some(v.to_string())).collect();
    assert_eq!(Overlays::load(&stored), overlays);
    // An old profile: only the first key, and nothing else.
    let old = vec![Some("false".to_string())];
    let loaded = Overlays::load(&old);
    assert!(!loaded.joints);
    assert!(loaded.joint_names && loaded.frames && loaded.links && !loaded.collision);
    // Anything but `true` reads as off.
    let odd = vec![None, Some("yes".to_string())];
    assert!(!Overlays::load(&odd).joint_names);
}

#[test]
fn names_and_tooltips() {
    assert_eq!(Overlay::JointNames.name(), "joint names");
    assert!(Overlay::Collision.tooltip().starts_with("Collision geometry"));
    assert_eq!(Overlay::all(), Overlay::ALL.to_vec());
}
