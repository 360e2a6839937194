//! Keyboard shortcuts, handled once per frame before the panels, so a
//! panel never sees a key the window already acted on.
//!
//! Two rules. A shortcut that a text field would also want (Tab, Delete,
//! F2, undo and redo, the tool keys) yields while a text field has focus,
//! so the field's own editing keeps working; the file shortcuts fire
//! always. And a key combination is asked for from the most specific
//! modifier set down, because a bare pattern would also take its shifted
//! variant.
//!
//! The window asks for one combination at a time (asking takes the key
//! press, when there is one, out of the frame's input), then acts on the
//! answer before asking the next question, so each question reads the
//! window as the previous answer left it. `shortcut_question` says what to
//! ask at a stage, `shortcut_answer` what to do with the answer and where
//! to go next.

use vstd::prelude::*;
use crate::mode::{mode_other, Mode};
use crate::selection::{FrameId, LinkId, Selection};
use crate::tool::{toolbar, Tool};

verus! {

/// One key combination the window asks for. `Cmd` is Ctrl, or ⌘ on a Mac.
#[derive(Debug, Clone, Copy, PartialEq, Eq, Structural)]
pub enum KeyChord {
    /// Cmd+Shift+S.
    SaveAs,
    /// Cmd+S.
    Save,
    /// Cmd+N.
    New,
    /// Cmd+O.
    Open,
    /// Tab, with no modifier.
    Tab,
    /// Cmd+Shift+Z.
    RedoShifted,
    /// Cmd+Y.
    RedoY,
    /// Cmd+Z.
    Undo,
    /// Escape, with no modifier.
    Escape,
    /// A tool's key (`Tool::shortcut`), with no modifier.
    ToolKey(Tool),
    /// Delete, with no modifier.
    Delete,
    /// F2, with no modifier.
    Rename,
}

/// What the window does on a shortcut.
#[derive(Debug, Clone, Copy, PartialEq, Eq, Structural)]
pub enum ShortcutAction {
    /// File › Save As….
    SaveAs,
    /// File › Save (Save As… while untitled).
    Save,
    /// File › New, after the unsaved-changes check.
    New,
    /// File › Open…, after the unsaved-changes check.
    OpenDialog,
    /// Switch to this mode.
    SwitchMode(Mode),
    /// Edit › Redo.
    Redo,
    /// Edit › Undo.
    Undo,
    /// Make this tool active.
    SetTool(Tool),
    /// Remove what is selected.
    RemoveSelected,
    /// Start renaming the material under the cursor in the Materials window.
    RenameMaterial,
    /// Start renaming this link in the tree.
    RenameLink(LinkId),
    /// Start renaming this frame in the tree.
    RenameFrame(FrameId),
}

/// Where a frame's shortcut handling has got to, in the order the
/// questions are asked.
#[derive(Debug, Clone, Copy, PartialEq, Eq, Structural)]
pub enum ShortcutStage {
    SaveAs,
    Save,
    New,
    Open,
    /// The text-field guard, then Tab.
    ModeSwitch,
    RedoShifted,
    RedoY,
    Undo,
    /// Escape, leaving an editing tool.
    Leave,
    /// This tool's key.
    ToolKey(Tool),
    Delete,
    Rename,
    Done,
}

/// What the handling reads of the window at each question.
#[derive(Debug, Clone, Copy, PartialEq, Eq, Structural)]
pub struct ShortcutView {
    /// The widget with keyboard focus is a text field.
    pub text_field_focused: bool,
    /// The unsaved-changes modal is waiting for an answer.
    pub pending: bool,
    /// The window's mode.
    pub mode: Mode,
    /// The active tool.
    pub tool: Tool,
    /// The Materials window is open with a material name under the cursor.
    pub material_hovered: bool,
    /// What is selected.
    pub selection: Selection,
}

/// Where a stage stands in the order of questions.
pub open spec fn stage_rank(stage: ShortcutStage) -> int {
    match stage {
        ShortcutStage::SaveAs => 0,
        ShortcutStage::Save => 1,
        ShortcutStage::New => 2,
        ShortcutStage::Open => 3,
        ShortcutStage::ModeSwitch => 4,
        ShortcutStage::RedoShifted => 5,
        ShortcutStage::RedoY => 6,
        ShortcutStage::Undo => 7,
        ShortcutStage::Leave => 8,
        ShortcutStage::ToolKey(tool) => 9 + toolbar_position(tool),
        ShortcutStage::Delete => 14,
        ShortcutStage::Rename => 15,
        ShortcutStage::Done => 16,
    }
}

/// Where a tool stands on the toolbar.
pub open spec fn toolbar_position(tool: Tool) -> int {
    match tool {
        Tool::Select => 0,
        Tool::Move => 1,
        Tool::Rotate => 2,
        Tool::PlaceJoint => 3,
        Tool::Align => 4,
    }
}

/// The tool after `tool` on the toolbar, `None` after the last.
pub open spec fn toolbar_next(tool: Tool) -> Option<Tool> {
    match tool {
        Tool::Select => Some(Tool::Move),
        Tool::Move => Some(Tool::Rotate),
        Tool::Rotate => Some(Tool::PlaceJoint),
        Tool::PlaceJoint => Some(Tool::Align),
        Tool::Align => None,
    }
}

/// The first question of a frame.
pub open spec fn first_stage() -> ShortcutStage {
    ShortcutStage::SaveAs
}

/// What to ask at `stage`, and at which stage the answer is taken: `None`
/// when the frame's handling is over. A focused text field ends it after
/// the file shortcuts; Tab is asked only with no modal waiting; Escape only
/// with an editing tool active and no modal waiting.
pub open spec fn shortcut_question(stage: ShortcutStage, view: ShortcutView) -> Option<(ShortcutStage, KeyChord)> {
    match stage {
        ShortcutStage::SaveAs => Some((ShortcutStage::SaveAs, KeyChord::SaveAs)),
        ShortcutStage::Save => Some((ShortcutStage::Save, KeyChord::Save)),
        ShortcutStage::New => Some((ShortcutStage::New, KeyChord::New)),
        ShortcutStage::Open => Some((ShortcutStage::Open, KeyChord::Open)),
        ShortcutStage::ModeSwitch => if view.text_field_focused {
            None
        } else if view.pending {
            Some((ShortcutStage::RedoShifted, KeyChord::RedoShifted))
        } else {
            Some((ShortcutStage::ModeSwitch, KeyChord::Tab))
        },
        ShortcutStage::RedoShifted => Some((ShortcutStage::RedoShifted, KeyChord::RedoShifted)),
        ShortcutStage::RedoY => Some((ShortcutStage::RedoY, KeyChord::RedoY)),
        ShortcutStage::Undo => Some((ShortcutStage::Undo, KeyChord::Undo)),
        ShortcutStage::Leave => if view.tool != Tool::Select && !view.pending {
            Some((ShortcutStage::Leave, KeyChord::Escape))
        } else {
            Some((ShortcutStage::ToolKey(toolbar()[0]), KeyChord::ToolKey(toolbar()[0])))
        },
        ShortcutStage::ToolKey(tool) => Some((ShortcutStage::ToolKey(tool), KeyChord::ToolKey(tool))),
        ShortcutStage::Delete => Some((ShortcutStage::Delete, KeyChord::Delete)),
        ShortcutStage::Rename => Some((ShortcutStage::Rename, KeyChord::Rename)),
        ShortcutStage::Done => None,
    }
}

/// F2's target: the material under the cursor before the selection, and
/// only a link or a frame among the selections.
pub open spec fn rename_action(view: ShortcutView) -> Option<ShortcutAction> {
    if view.material_hovered {
        Some(ShortcutAction::RenameMaterial)
    } else {
        match view.selection {
            Selection::Link(link) => Some(ShortcutAction::RenameLink(link)),
            Selection::Frame(frame) => Some(ShortcutAction::RenameFrame(frame)),
            _ => None,
        }
    }
}

/// What the window does when the combination asked at `stage` was pressed
/// (`pressed`) or not, and the stage that comes next. A pressed
/// Cmd+Shift+S skips the plain Save; a pressed Cmd+Shift+Z or Cmd+Y skips
/// Undo; the first tool key pressed, in toolbar order, is the tool.
pub open spec fn shortcut_answer(stage: ShortcutStage, pressed: bool, view: ShortcutView) -> (Option<ShortcutAction>, ShortcutStage) {
    match stage {
        ShortcutStage::SaveAs => if pressed {
            (Some(ShortcutAction::SaveAs), ShortcutStage::New)
        } else {
            (None, ShortcutStage::Save)
        },
        ShortcutStage::Save => (if pressed { Some(ShortcutAction::Save) } else { None }, ShortcutStage::New),
        ShortcutStage::New => (if pressed { Some(ShortcutAction::New) } else { None }, ShortcutStage::Open),
        ShortcutStage::Open => (if pressed { Some(ShortcutAction::OpenDialog) } else { None }, ShortcutStage::ModeSwitch),
        ShortcutStage::ModeSwitch => (
            if pressed { Some(ShortcutAction::SwitchMode(mode_other(view.mode))) } else { None },
            ShortcutStage::RedoShifted,
        ),
        ShortcutStage::RedoShifted => if pressed {
            (Some(ShortcutAction::Redo), ShortcutStage::Leave)
        } else {
            (None, ShortcutStage::RedoY)
        },
        ShortcutStage::RedoY => if pressed {
            (Some(ShortcutAction::Redo), ShortcutStage::Leave)
        } else {
            (None, ShortcutStage::Undo)
        },
        ShortcutStage::Undo => (if pressed { Some(ShortcutAction::Undo) } else { None }, ShortcutStage::Leave),
        ShortcutStage::Leave => (
            if pressed { Some(ShortcutAction::SetTool(Tool::Select)) } else { None },
            ShortcutStage::ToolKey(toolbar()[0]),
        ),
        ShortcutStage::ToolKey(tool) => if pressed {
            (Some(ShortcutAction::SetTool(tool)), ShortcutStage::Delete)
        } else {
            match toolbar_next(tool) {
                Some(next) => (None, ShortcutStage::ToolKey(next)),
                None => (None, ShortcutStage::Delete),
            }
        },
        ShortcutStage::Delete => (if pressed { Some(ShortcutAction::RemoveSelected) } else { None }, ShortcutStage::Rename),
        ShortcutStage::Rename => (if pressed { rename_action(view) } else { None }, ShortcutStage::Done),
        ShortcutStage::Done => (None, ShortcutStage::Done),
    }
}

/// What to ask at `stage`, and at which stage the answer is taken; `None`
/// when the frame's shortcut handling is over.
pub fn next_question(stage: ShortcutStage, view: ShortcutView) -> (question: Option<(ShortcutStage, KeyChord)>)
    ensures
        question == shortcut_question(stage, view),
{
    match stage {
        ShortcutStage::SaveAs => Some((ShortcutStage::SaveAs, KeyChord::SaveAs)),
        ShortcutStage::Save => Some((ShortcutStage::Save, KeyChord::Save)),
        ShortcutStage::New => Some((ShortcutStage::New, KeyChord::New)),
        ShortcutStage::Open => Some((ShortcutStage::Open, KeyChord::Open)),
        ShortcutStage::ModeSwitch => {
            // A focused text field owns Tab, Delete, F2, undo, redo and the
            // tool keys: its own editing keeps working inside it.
            if view.text_field_focused {
                None
            } else if view.pending {
                Some((ShortcutStage::RedoShifted, KeyChord::RedoShifted))
            } else {
                Some((ShortcutStage::ModeSwitch, KeyChord::Tab))
            }
        },
        ShortcutStage::RedoShifted => Some((ShortcutStage::RedoShifted, KeyChord::RedoShifted)),
        ShortcutStage::RedoY => Some((ShortcutStage::RedoY, KeyChord::RedoY)),
        ShortcutStage::Undo => Some((ShortcutStage::Undo, KeyChord::Undo)),
        ShortcutStage::Leave => {
            // Escape is taken only while an editing tool is active, so a
            // rename, a modal or a field revert still sees it otherwise.
            if view.tool != Tool::Select && !view.pending {
                Some((ShortcutStage::Leave, KeyChord::Escape))
            } else {
                Some((ShortcutStage::ToolKey(Tool::ALL[0]), KeyChord::ToolKey(Tool::ALL[0])))
            }
        },
        ShortcutStage::ToolKey(tool) => Some((ShortcutStage::ToolKey(tool), KeyChord::ToolKey(tool))),
        ShortcutStage::Delete => Some((ShortcutStage::Delete, KeyChord::Delete)),
        ShortcutStage::Rename => Some((ShortcutStage::Rename, KeyChord::Rename)),
        ShortcutStage::Done => None,
    }
}

/// What the window does when the combination asked at `stage` was pressed
/// or not, and the stage whose question comes next.
pub fn answer(stage: ShortcutStage, pressed: bool, view: ShortcutView) -> (outcome: (Option<ShortcutAction>, ShortcutStage))
    ensures
        outcome == shortcut_answer(stage, pressed, view),
{
    match stage {
        ShortcutStage::SaveAs => {
            if pressed {
                (Some(ShortcutAction::SaveAs), ShortcutStage::New)
            } else {
                (None, ShortcutStage::Save)
            }
        },
        ShortcutStage::Save => (if pressed { Some(ShortcutAction::Save) } else { None }, ShortcutStage::New),
        ShortcutStage::New => (if pressed { Some(ShortcutAction::New) } else { None }, ShortcutStage::Open),
        ShortcutStage::Open => (if pressed { Some(ShortcutAction::OpenDialog) } else { None }, ShortcutStage::ModeSwitch),
        ShortcutStage::ModeSwitch => (
            if pressed { Some(ShortcutAction::SwitchMode(view.mode.other())) } else { None },
            ShortcutStage::RedoShifted,
        ),
        ShortcutStage::RedoShifted => {
            if pressed {
                (Some(ShortcutAction::Redo), ShortcutStage::Leave)
            } else {
                (None, ShortcutStage::RedoY)
            }
        },
        ShortcutStage::RedoY => {
            if pressed {
                (Some(ShortcutAction::Redo), ShortcutStage::Leave)
            } else {
                (None, ShortcutStage::Undo)
            }
        },
        ShortcutStage::Undo => (if pressed { Some(ShortcutAction::Undo) } else { None }, ShortcutStage::Leave),
        ShortcutStage::Leave => (
            if pressed { Some(ShortcutAction::SetTool(Tool::Select)) } else { None },
            ShortcutStage::ToolKey(Tool::ALL[0]),
        ),
        ShortcutStage::ToolKey(tool) => {
            if pressed {
                (Some(ShortcutAction::SetTool(tool)), ShortcutStage::Delete)
            } else {
                // The tools in toolbar order: the first one pressed wins.
                let next = match tool {
                    Tool::Select => Some(Tool::Move),
                    Tool::Move => Some(Tool::Rotate),
                    Tool::Rotate => Some(Tool::PlaceJoint),
                    Tool::PlaceJoint => Some(Tool::Align),
                    Tool::Align => None,
                };
                match next {
                    Some(next) => (None, ShortcutStage::ToolKey(next)),
                    None => (None, ShortcutStage::Delete),
                }
            }
        },
        ShortcutStage::Delete => (if pressed { Some(ShortcutAction::RemoveSelected) } else { None }, ShortcutStage::Rename),
        ShortcutStage::Rename => {
            if !pressed {
                (None, ShortcutStage::Done)
            } else if view.material_hovered {
                // The material under the cursor is the nearer thing to
                // rename than the selected link.
                (Some(ShortcutAction::RenameMaterial), ShortcutStage::Done)
            } else {
                let action = match view.selection {
                    Selection::Link(link) => Some(ShortcutAction::RenameLink(link)),
                    Selection::Frame(frame) => Some(ShortcutAction::RenameFrame(frame)),
                    _ => None,
                };
                (action, ShortcutStage::Done)
            }
        },
        ShortcutStage::Done => (None, ShortcutStage::Done),
    }
}

/// Every answer moves the handling on, and the question asked at a stage is
/// never one of an earlier stage: a frame asks at most sixteen questions
/// and none twice.
pub proof fn lemma_shortcuts_move_forward(stage: ShortcutStage, pressed: bool, view: ShortcutView)
    ensures
        0 <= stage_rank(stage) <= 16,
        shortcut_question(stage, view) matches Some((at, _)) ==> stage_rank(stage) <= stage_rank(at) < 16,
        stage != ShortcutStage::Done ==> stage_rank(shortcut_answer(stage, pressed, view).1) > stage_rank(stage),
{
}

/// A focused text field keeps every key but the file shortcuts: once the
/// file shortcuts have been asked for, the handling is over.
pub proof fn lemma_focused_field_keeps_its_keys(view: ShortcutView)
    requires
        view.text_field_focused,
    ensures
        shortcut_question(shortcut_answer(ShortcutStage::Open, true, view).1, view) is None,
        shortcut_question(shortcut_answer(ShortcutStage::Open, false, view).1, view) is None,
{
}

/// Escape is asked for only while an editing tool is active and no modal
/// waits, and Tab only while no modal waits.
pub proof fn lemma_escape_and_tab_wait_for_the_modal(stage: ShortcutStage, view: ShortcutView)
    ensures
        shortcut_question(stage, view) matches Some((_, chord)) ==> {
            &&& (chord == KeyChord::Escape ==> view.tool != Tool::Select && !view.pending)
            &&& (chord == KeyChord::Tab ==> !view.pending && !view.text_field_focused)
        },
{
}

/// The shifted pattern is asked before the bare one, and pressing it takes
/// the place of the bare one: Cmd+Shift+S saves as and skips Save,
/// Cmd+Shift+Z redoes and skips Undo.
pub proof fn lemma_shifted_before_bare(view: ShortcutView)
    ensures
        shortcut_answer(ShortcutStage::SaveAs, true, view) == (Some(ShortcutAction::SaveAs), ShortcutStage::New),
        shortcut_answer(ShortcutStage::SaveAs, false, view).1 == ShortcutStage::Save,
        shortcut_answer(ShortcutStage::RedoShifted, true, view) == (Some(ShortcutAction::Redo), ShortcutStage::Leave),
        shortcut_answer(ShortcutStage::RedoY, true, view) == (Some(ShortcutAction::Redo), ShortcutStage::Leave),
        stage_rank(ShortcutStage::Leave) > stage_rank(ShortcutStage::Undo),
        stage_rank(ShortcutStage::New) > stage_rank(ShortcutStage::Save),
{
}

/// A tool key makes its own tool active, and the keys are asked in toolbar
/// order, so of two pressed at once the earlier tool wins: after the key at
/// toolbar position `i` comes the one at `i + 1`, and after the last,
/// Delete.
pub proof fn lemma_tool_keys_in_toolbar_order(i: int, view: ShortcutView)
    requires
        0 <= i < 5,
    ensures
        shortcut_question(ShortcutStage::ToolKey(toolbar()[i]), view) == Some(
            (ShortcutStage::ToolKey(toolbar()[i]), KeyChord::ToolKey(toolbar()[i])),
        ),
        shortcut_answer(ShortcutStage::ToolKey(toolbar()[i]), true, view) == (
            Some(ShortcutAction::SetTool(toolbar()[i])),
            ShortcutStage::Delete,
        ),
        i + 1 < 5 ==> shortcut_answer(ShortcutStage::ToolKey(toolbar()[i]), false, view).1
            == ShortcutStage::ToolKey(toolbar()[i + 1]),
        i + 1 == 5 ==> shortcut_answer(ShortcutStage::ToolKey(toolbar()[i]), false, view).1
            == ShortcutStage::Delete,
        shortcut_answer(ShortcutStage::Leave, false, view).1 == ShortcutStage::ToolKey(toolbar()[0]),
{
}

/// Every key combination does what it names, whatever the window shows:
/// when the combination asked for was pressed, Cmd+Shift+S saves as,
/// Cmd+S saves, Cmd+N starts a new document, Cmd+O opens, Tab switches to
/// the other mode, Cmd+Shift+Z and Cmd+Y redo, Cmd+Z undoes, Escape goes
/// back to Select, a tool's key makes that tool active and Delete removes
/// the selection; F2 renames the hovered material, else a selected link or
/// frame. A combination that was not pressed does nothing.
pub proof fn lemma_each_chord_does_what_it_names(stage: ShortcutStage, view: ShortcutView)
    ensures
        shortcut_answer(ShortcutStage::SaveAs, true, view).0 == Some(ShortcutAction::SaveAs),
        shortcut_answer(ShortcutStage::Save, true, view).0 == Some(ShortcutAction::Save),
        shortcut_answer(ShortcutStage::New, true, view).0 == Some(ShortcutAction::New),
        shortcut_answer(ShortcutStage::Open, true, view).0 == Some(ShortcutAction::OpenDialog),
        shortcut_answer(ShortcutStage::ModeSwitch, true, view).0 == Some(
            ShortcutAction::SwitchMode(if view.mode == Mode::View { Mode::Edit } else { Mode::View }),
        ),
        shortcut_answer(ShortcutStage::RedoShifted, true, view).0 == Some(ShortcutAction::Redo),
        shortcut_answer(ShortcutStage::RedoY, true, view).0 == Some(ShortcutAction::Redo),
        shortcut_answer(ShortcutStage::Undo, true, view).0 == Some(ShortcutAction::Undo),
        shortcut_answer(ShortcutStage::Leave, true, view).0 == Some(ShortcutAction::SetTool(Tool::Select)),
        forall|tool: Tool| #[trigger] shortcut_answer(ShortcutStage::ToolKey(tool), true, view).0 == Some(
            ShortcutAction::SetTool(tool),
        ),
        shortcut_answer(ShortcutStage::Delete, true, view).0 == Some(ShortcutAction::RemoveSelected),
        view.material_hovered ==> shortcut_answer(ShortcutStage::Rename, true, view).0 == Some(
            ShortcutAction::RenameMaterial,
        ),
        !view.material_hovered ==> shortcut_answer(ShortcutStage::Rename, true, view).0 == match view.selection {
            Selection::Link(link) => Some(ShortcutAction::RenameLink(link)),
            Selection::Frame(frame) => Some(ShortcutAction::RenameFrame(frame)),
            _ => None,
        },
        shortcut_answer(stage, false, view).0 is None,
{
}

/// The question asked at a stage names the combination whose action the
/// answer takes: the chord asked for and the action done when it was
/// pressed always agree.
pub proof fn lemma_question_and_answer_agree(stage: ShortcutStage, view: ShortcutView)
    ensures
        shortcut_question(stage, view) matches Some((at, chord)) ==> {
            let done = shortcut_answer(at, true, view).0;
            &&& chord == KeyChord::Undo ==> done == Some(ShortcutAction::Undo)
            &&& (chord == KeyChord::RedoShifted || chord == KeyChord::RedoY) ==> done == Some(ShortcutAction::Redo)
            &&& chord == KeyChord::Save ==> done == Some(ShortcutAction::Save)
            &&& chord == KeyChord::SaveAs ==> done == Some(ShortcutAction::SaveAs)
            &&& chord == KeyChord::New ==> done == Some(ShortcutAction::New)
            &&& chord == KeyChord::Open ==> done == Some(ShortcutAction::OpenDialog)
            &&& chord == KeyChord::Delete ==> done == Some(ShortcutAction::RemoveSelected)
            &&& chord == KeyChord::Escape ==> done == Some(ShortcutAction::SetTool(Tool::Select))
            &&& chord == KeyChord::Tab ==> (done matches Some(ShortcutAction::SwitchMode(m)) && m != view.mode)
            &&& forall|tool: Tool| chord == KeyChord::ToolKey(tool) ==> done == Some(ShortcutAction::SetTool(tool))
        },
{
}

} // verus!
