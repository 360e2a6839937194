use riggen_app::document::{Outline, Removal};
use riggen_app::selection::{FrameId, JointId, LinkId, Selection};

fn arm() -> Outline {
    Outline {
        root: LinkId(1),
        links: vec![LinkId(1), LinkId(2), LinkId(3)],
        joints: vec![(JointId(10), LinkId(2)), (JointId(11), LinkId(3))],
        frames: vec![(FrameId(20), LinkId(3))],
    }
}

#[test]
fn a_new_link_goes_under_the_selection_or_the_root() {
    let outline = arm();
    assert_eq!(outline.insertion_parent(Selection::Nothing), LinkId(1));
    assert_eq!(outline.insertion_parent(Selection::Link(LinkId(2))), LinkId(2));
    assert_eq!(outline.insertion_parent(Selection::Joint(JointId(11))), LinkId(3));
    assert_eq!(outline.insertion_parent(Selection::Frame(FrameId(20))), LinkId(3));
}

#[test]
fn delete_removes_a_joint_by_its_child() {
    let outline = arm();
    assert_eq!(outline.removal(Selection::Nothing), None);
    assert_eq!(outline.removal(Selection::Link(LinkId(3))), Some(Removal::Link(LinkId(3))));
    assert_eq!(outline.removal(Selection::Joint(JointId(10))), Some(Removal::Link(LinkId(2))));
    assert_eq!(outline.removal(Selection::Frame(FrameId(20))), Some(Removal::Frame(FrameId(20))));
}

#[test]
fn a_selection_whose_thing_is_gone_becomes_nothing() {
    let mut outline = arm();
    outline.links.retain(|l| *l != LinkId(3));
    outline.joints.retain(|(_, child)| *child != LinkId(3));
    outline.frames.clear();
    assert_eq!(outline.surviving(Selection::Link(LinkId(3))), Selection::Nothing);
    assert_eq!(outline.surviving(Selection::Joint(JointId(11))), Selection::Nothing);
    assert_eq!(outline.surviving(Selection::Frame(FrameId(20))), Selection::Nothing);
    assert_eq!(outline.surviving(Selection::Link(LinkId(2))), Selection::Link(LinkId(2)));
    assert_eq!(outline.surviving(Selection::Joint(JointId(10))), Selection::Joint(JointId(10)));
    assert_eq!(outline.surviving(Selection::Nothing), Selection::Nothing);
    let kept = outline.surviving(Selection::Link(LinkId(3)));
    assert_eq!(outline.surviving(kept), kept);
}
