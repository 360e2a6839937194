use riggen_app::names::{name_from_stem, unique_name};
use riggen_app::selection::{FrameId, JointId, LinkId, Selection};

/// The document's rule for a valid name: a letter or `_` first, then
/// letters, digits, `_`, `.` and `-`.
fn is_valid_name(name: &str) -> bool {
    let mut chars = name.chars();
    match chars.next() {
        Some(c) if c.is_ascii_alphabetic() || c == '_' => {},
        _ => return false,
    }
    chars.all(|c| c.is_ascii_alphanumeric() || matches!(c, '_' | '.' | '-'))
}

#[test]
fn stems_become_valid_names() {
    assert_eq!(name_from_stem("arm"), "arm");
    assert_eq!(name_from_stem("my part v2"), "my_part_v2");
    assert_eq!(name_from_stem("3d_print"), "_3d_print");
    assert_eq!(name_from_stem(""), "part");
    assert_eq!(name_from_stem("ärm"), "_rm");
    for stem in ["arm", "my part v2", "3d_print", "", "ärm", "a.b-c"] {
        assert!(is_valid_name(&name_from_stem(stem)));
    }
}

#[test]
fn unique_names_count_up() {
    let taken: Vec<String> = ["arm", "arm_2", "leg"].iter().map(|s| s.to_string()).collect();
    assert_eq!(unique_name("hand", &taken), "hand");
    assert_eq!(unique_name("arm", &taken), "arm_3");
    assert_eq!(unique_name("leg", &taken), "leg_2");
}

#[test]
fn unique_names_skip_every_taken_variant() {
    let taken: Vec<String> = ["frame", "frame_2", "frame_3", "frame_4", "frame_5", "frame_6", "frame_7", "frame_8", "frame_9", "frame_10"]
        .iter()
        .map(|s| s.to_string())
        .collect();
    assert_eq!(unique_name("frame", &taken), "frame_11");
    assert_eq!(unique_name("frame", &Vec::new()), "frame");
    // A variant that is free is taken even when a later one is not.
    let gappy: Vec<String> = ["x", "x_3"].iter().map(|s| s.to_string()).collect();
    assert_eq!(unique_name("x", &gappy), "x_2");
}

#[test]
fn a_selection_describes_itself() {
    assert_eq!(Selection::Nothing.describe(), None);
    assert_eq!(Selection::Link(LinkId(3)).describe().as_deref(), Some("link l3"));
    assert_eq!(Selection::Joint(JointId(7)).describe().as_deref(), Some("joint j7"));
    assert_eq!(Selection::Frame(FrameId(12)).describe().as_deref(), Some("frame f12"));
    assert_eq!(LinkId(0).text(), "l0");
    assert_eq!(Selection::default(), Selection::Nothing);
}
