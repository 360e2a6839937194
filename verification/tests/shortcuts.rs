use riggen_app::mode::Mode;
use riggen_app::selection::{FrameId, LinkId, Selection};
use riggen_app::shortcuts::{answer, next_question, KeyChord, ShortcutAction, ShortcutStage, ShortcutView};
use riggen_app::tool::Tool;

fn view() -> ShortcutView {
    ShortcutView {
        text_field_focused: false,
        pending: false,
        mode: Mode::Edit,
        tool: Tool::Select,
        material_hovered: false,
        selection: Selection::Nothing,
    }
}

/// One frame with the window held at `view`: the chords asked, in order,
/// and the actions taken. A pressed chord is taken out of `pressed` when it
/// is asked for.
fn frame(view: ShortcutView, pressed: &mut Vec<KeyChord>) -> (Vec<KeyChord>, Vec<ShortcutAction>) {
    let mut asked = Vec::new();
    let mut actions = Vec::new();
    let mut stage = ShortcutStage::SaveAs;
    while let Some((at, chord)) = next_question(stage, view) {
        asked.push(chord);
        let hit = pressed.iter().position(|c| *c == chord);
        if let Some(i) = hit {
            pressed.remove(i);
        }
        let (action, next) = answer(at, hit.is_some(), view);
        actions.extend(action);
        stage = next;
        assert!(asked.len() <= 16, "the handling must end");
    }
    (asked, actions)
}

#[test]
fn a_quiet_frame_asks_every_question_once_and_does_nothing() {
    let (asked, actions) = frame(view(), &mut Vec::new());
    assert!(actions.is_empty());
    assert_eq!(
        asked,
        vec![
            KeyChord::SaveAs,
            KeyChord::Save,
            KeyChord::New,
            KeyChord::Open,
            KeyChord::Tab,
            KeyChord::RedoShifted,
            KeyChord::RedoY,
            KeyChord::Undo,
            KeyChord::ToolKey(Tool::Select),
            KeyChord::ToolKey(Tool::Move),
            KeyChord::ToolKey(Tool::Rotate),
            KeyChord::ToolKey(Tool::PlaceJoint),
            KeyChord::ToolKey(Tool::Align),
            KeyChord::Delete,
            KeyChord::Rename,
        ]
    );
}

#[test]
fn the_shifted_chord_wins_and_leaves_the_bare_one_alone() {
    let mut pressed = vec![KeyChord::Save, KeyChord::SaveAs, KeyChord::Undo, KeyChord::RedoShifted];
    let (_, actions) = frame(view(), &mut pressed);
    assert_eq!(actions, vec![ShortcutAction::SaveAs, ShortcutAction::Redo]);
    assert_eq!(pressed, vec![KeyChord::Save, KeyChord::Undo], "never asked, so still there");
}

#[test]
fn a_focused_text_field_keeps_all_but_the_file_keys() {
    let focused = ShortcutView { text_field_focused: true, ..view() };
    let mut pressed = vec![KeyChord::New, KeyChord::Delete, KeyChord::Tab, KeyChord::ToolKey(Tool::Move)];
    let (asked, actions) = frame(focused, &mut pressed);
    assert_eq!(actions, vec![ShortcutAction::New]);
    assert_eq!(asked.last(), Some(&KeyChord::Open));
    assert_eq!(pressed.len(), 3);
}

#[test]
fn tab_and_escape_wait_for_the_modal() {
    let waiting = ShortcutView { pending: true, tool: Tool::Move, ..view() };
    let mut pressed = vec![KeyChord::Tab, KeyChord::Escape];
    let (asked, actions) = frame(waiting, &mut pressed);
    assert!(actions.is_empty());
    assert!(!asked.contains(&KeyChord::Tab) && !asked.contains(&KeyChord::Escape));

    let free = ShortcutView { tool: Tool::Move, ..view() };
    let mut pressed = vec![KeyChord::Tab, KeyChord::Escape];
    let (_, actions) = frame(free, &mut pressed);
    assert_eq!(
        actions,
        vec![ShortcutAction::SwitchMode(Mode::View), ShortcutAction::SetTool(Tool::Select)]
    );
}

#[test]
fn escape_is_left_alone_while_select_is_active() {
    let mut pressed = vec![KeyChord::Escape];
    let (asked, actions) = frame(view(), &mut pressed);
    assert!(actions.is_empty());
    assert!(!asked.contains(&KeyChord::Escape));
    assert_eq!(pressed, vec![KeyChord::Escape]);
}

#[test]
fn the_first_tool_key_in_toolbar_order_wins() {
    let mut pressed = vec![KeyChord::ToolKey(Tool::Align), KeyChord::ToolKey(Tool::Rotate)];
    let (_, actions) = frame(view(), &mut pressed);
    assert_eq!(actions, vec![ShortcutAction::SetTool(Tool::Rotate)]);
    assert_eq!(pressed, vec![KeyChord::ToolKey(Tool::Align)]);
}

#[test]
fn f2_renames_the_hovered_material_before_the_selection() {
    let link = ShortcutView { selection: Selection::Link(LinkId(4)), ..view() };
    let (_, actions) = frame(link, &mut vec![KeyChord::Rename]);
    assert_eq!(actions, vec![ShortcutAction::RenameLink(LinkId(4))]);

    let frame_selected = ShortcutView { selection: Selection::Frame(FrameId(2)), ..view() };
    let (_, actions) = frame(frame_selected, &mut vec![KeyChord::Rename]);
    assert_eq!(actions, vec![ShortcutAction::RenameFrame(FrameId(2))]);

    let hovered = ShortcutView { material_hovered: true, ..link };
    let (_, actions) = frame(hovered, &mut vec![KeyChord::Rename]);
    assert_eq!(actions, vec![ShortcutAction::RenameMaterial]);

    let nothing = view();
    let (_, actions) = frame(nothing, &mut vec![KeyChord::Rename, KeyChord::Delete]);
    assert_eq!(actions, vec![ShortcutAction::RemoveSelected]);
}
