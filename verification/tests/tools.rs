use riggen_app::arrows::StepArrow;
use riggen_app::gizmo::RingAxis;
use riggen_app::mode::{set_mode, Mode};
use riggen_app::properties::{CollisionMode, InertialMode, PrimitiveKind};
use riggen_app::selection::{JointId, LinkId, Selection};
use riggen_app::snap::{choose_snap, SnapKind};
use riggen_app::tool::{refresh_tool_status, set_tool, switch_tool, ToolChange, tool_need, Tool, ALIGN_NEEDS_LINK, MOVE_NEEDS_TARGET, MOVE_ROOT, PLACE_JOINT_NEEDS_JOINT, ROTATE_NEEDS_TARGET};

#[test]
fn only_the_placement_tools_snap() {
    assert!(Tool::PlaceJoint.snaps() && Tool::Align.snaps());
    for tool in [Tool::Select, Tool::Move, Tool::Rotate] {
        assert!(!tool.snaps(), "{}", tool.label());
    }
}

#[test]
fn the_ladder_prefers_vertex_then_box_then_circle_then_point() {
    let point = (9.0, 9.0, 9.0);
    let vertex = (1.0, 0.0, 0.0);
    let corner = (0.0, 1.0, 0.0);
    let fit = |radius: f64| ((1.0, 2.0, 3.0), radius);

    let (kind, at, circle) = choose_snap(Some(vertex), Some((SnapKind::BoxCorner, corner)), Some(fit(0.5)), point);
    assert_eq!((kind, at), (SnapKind::Vertex, vertex));
    assert_eq!(circle, None, "a vertex is not a circle");

    let (kind, at, _) = choose_snap(None, Some((SnapKind::BoxFaceCenter, corner)), Some(fit(0.5)), point);
    assert_eq!((kind, at), (SnapKind::BoxFaceCenter, corner));

    let (kind, at, circle) = choose_snap(None, None, Some(fit(0.5)), point);
    assert_eq!(kind, SnapKind::Circle);
    assert_eq!(at, fit(0.5).0, "a circle snaps to its centre");
    assert_eq!(circle, Some(0.5));

    let (kind, at, circle) = choose_snap::<(f64, f64, f64), f64>(None, None, None, point);
    assert_eq!((kind, at, circle), (SnapKind::Point, point, None));
}

#[test]
fn snap_kinds_rank_in_declaration_order() {
    let kinds = [SnapKind::Vertex, SnapKind::BoxCorner, SnapKind::BoxFaceCenter, SnapKind::Circle, SnapKind::Point];
    for pair in kinds.windows(2) {
        assert!(pair[0] < pair[1]);
        assert!(pair[0].rank() < pair[1].rank());
    }
    assert_eq!(SnapKind::BoxFaceCenter.label(), "box face");
}

#[test]
fn tool_needs_follow_the_selection() {
    let root = LinkId(0);
    assert_eq!(tool_need(Tool::Select, Selection::Nothing, root), None);
    assert_eq!(tool_need(Tool::Move, Selection::Nothing, root), Some(MOVE_NEEDS_TARGET));
    assert_eq!(tool_need(Tool::Move, Selection::Link(root), root), Some(MOVE_ROOT));
    assert_eq!(tool_need(Tool::Move, Selection::Link(LinkId(2)), root), None);
    assert_eq!(tool_need(Tool::Rotate, Selection::Nothing, root), Some(ROTATE_NEEDS_TARGET));
    assert_eq!(tool_need(Tool::PlaceJoint, Selection::Link(LinkId(2)), root), Some(PLACE_JOINT_NEEDS_JOINT));
    assert_eq!(tool_need(Tool::PlaceJoint, Selection::Joint(JointId(1)), root), None);
    assert_eq!(tool_need(Tool::Align, Selection::Link(root), root), Some(ALIGN_NEEDS_LINK));
    assert_eq!(tool_need(Tool::Align, Selection::Link(LinkId(4)), root), None);
}

#[test]
fn a_met_need_leaves_the_status_bar_and_another_line_stays() {
    assert_eq!(refresh_tool_status(None, Some(MOVE_NEEDS_TARGET)).as_deref(), Some(MOVE_NEEDS_TARGET));
    assert_eq!(refresh_tool_status(Some(MOVE_ROOT.to_string()), None), None);
    assert_eq!(refresh_tool_status(Some("saved arm.riggen".to_string()), None).as_deref(), Some("saved arm.riggen"));
    assert_eq!(refresh_tool_status(None, None), None);
}

#[test]
fn view_has_only_the_select_tool() {
    assert_eq!(switch_tool(Mode::View, Tool::Move), Tool::Select);
    assert_eq!(switch_tool(Mode::Edit, Tool::Move), Tool::Move);
    assert_eq!(Tool::default(), Tool::Select);
    let keys: Vec<char> = Tool::ALL.iter().map(|t| t.shortcut()).collect();
    assert_eq!(keys, vec!['V', 'G', 'R', 'J', 'B']);
}

#[test]
fn switching_modes_stashes_and_restores() {
    assert_eq!(Mode::View.other(), Mode::Edit);
    assert_eq!(Mode::Edit.other().other(), Mode::Edit);
    assert_eq!(Mode::View.label(), "View");
    let there = set_mode(Mode::View, Mode::Edit, Tool::Select, Selection::Joint(JointId(3)));
    assert!(there.stash_joint_values && !there.restore_joint_values && there.sync_scene);
    assert_eq!(there.selection, Selection::Joint(JointId(3)));
    let edited = set_mode(Mode::Edit, Mode::View, Tool::Rotate, Selection::Link(LinkId(2)));
    assert!(edited.restore_joint_values);
    assert_eq!(edited.tool, Tool::Select);
    assert_eq!(edited.selection, Selection::Nothing);
    let same = set_mode(Mode::Edit, Mode::Edit, Tool::Rotate, Selection::Link(LinkId(2)));
    assert!(!same.sync_scene && !same.stash_joint_values && !same.restore_joint_values);
    assert_eq!(same.tool, Tool::Rotate);
    assert!(!same.cancels_align);
    assert!(edited.cancels_align);
    assert!(!there.cancels_align, "a joint stays selected and Edit keeps the tool");
    let link_to_edit = set_mode(Mode::View, Mode::Edit, Tool::Select, Selection::Link(LinkId(2)));
    assert!(link_to_edit.cancels_align);
}

#[test]
fn a_tool_switch_drops_a_half_finished_align() {
    assert_eq!(set_tool(Mode::Edit, Tool::Move), ToolChange { tool: Tool::Move, cancels_align: true });
    assert_eq!(set_tool(Mode::View, Tool::Align), ToolChange { tool: Tool::Select, cancels_align: true });
}

#[test]
fn rings_arrows_and_choosers() {
    let axes: Vec<(i8, i8, i8)> = RingAxis::ALL.iter().map(|a| a.local()).collect();
    assert_eq!(axes, vec![(1, 0, 0), (0, 1, 0), (0, 0, 1)]);
    assert_eq!(RingAxis::Y.label(), "y");
    assert_eq!(StepArrow::Up.direction(), (0, -1));
    // A drag up turns the pitch down; a drag right turns the yaw down.
    assert_eq!(StepArrow::Up.turn(), (0, -1));
    assert_eq!(StepArrow::Right.turn(), (-1, 0));
    assert_eq!(StepArrow::Left.turn(), (1, 0));
    assert_eq!(StepArrow::Down.tooltip(), "Turn the view 15° down");
    assert_eq!(InertialMode::Hybrid.label(), "Hybrid");
    assert_eq!(CollisionMode::Meshes.label(), "Meshes (imported)");
    assert!(!CollisionMode::Meshes.offered());
    assert!(CollisionMode::OFFERED.iter().all(|m| m.offered()));
    assert_eq!(PrimitiveKind::ALL.map(|k| k.label()), ["Box", "Cylinder", "Sphere", "Capsule"]);
}
