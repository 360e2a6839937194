//! The window's two modes: **View** is the posed robot, **Edit** the editor
//! at the zero configuration. `Tab` switches them.

use vstd::prelude::*;
use crate::selection::Selection;
use crate::tool::Tool;

verus! {

/// Which of the two windows the user is looking at.
#[derive(Debug, Clone, Copy, PartialEq, Eq, Structural)]
pub enum Mode {
    /// The joint tree, the glyphs alone under the cursor, the wheel posing
    /// a hovered joint.
    View,
    /// The link tree, the properties panel, the toolbar and the gizmos.
    Edit,
}

/// The name the control, the status bar and `debug_state` use.
pub open spec fn mode_label(mode: Mode) -> Seq<char> {
    match mode {
        Mode::View => "View"@,
        Mode::Edit => "Edit"@,
    }
}

/// What `Tab` switches to.
pub open spec fn mode_other(mode: Mode) -> Mode {
    match mode {
        Mode::View => Mode::Edit,
        Mode::Edit => Mode::View,
    }
}

impl Mode {
    /// The name the control, the status bar and `debug_state` use.
    pub fn label(self) -> (label: &'static str)
        ensures
            label@ == mode_label(self),
    {
        match self {
            Mode::View => "View",
            Mode::Edit => "Edit",
        }
    }

    /// What `Tab` switches to.
    pub fn other(self) -> (other: Mode)
        ensures
            other == mode_other(self),
            other != self,
    {
        match self {
            Mode::View => Mode::Edit,
            Mode::Edit => Mode::View,
        }
    }
}

/// Switching twice comes back: `Tab` is its own inverse.
pub proof fn lemma_other_involutive(mode: Mode)
    ensures
        mode_other(mode_other(mode)) == mode,
{
}

/// What switching modes does to the window's state.
#[derive(Debug, Clone, Copy, PartialEq, Eq)]
pub struct ModeChange {
    /// The mode afterwards.
    pub mode: Mode,
    /// Edit is the zero configuration: going there stashes the joint
    /// values and rewinds them.
    pub stash_joint_values: bool,
    /// Coming back to View restores what was stashed.
    pub restore_joint_values: bool,
    /// The tool afterwards: the tools are Edit's.
    pub tool: Tool,
    /// The selection afterwards: a joint is a thing in both modes, a link
    /// or a frame has no row in View.
    pub selection: Selection,
    /// Whether the scene is rebuilt.
    pub sync_scene: bool,
    /// Whether a half-finished align gesture is dropped: coming back to
    /// View switches the tool, and a selection that clears is a new one.
    pub cancels_align: bool,
}

/// What switching from `current` to `wanted` does, with `tool` active and
/// `selection` picked.
pub open spec fn mode_change(current: Mode, wanted: Mode, tool: Tool, selection: Selection) -> ModeChange {
    if wanted == current {
        ModeChange {
            mode: current,
            stash_joint_values: false,
            restore_joint_values: false,
            tool,
            selection,
            sync_scene: false,
            cancels_align: false,
        }
    } else {
        ModeChange {
            mode: wanted,
            stash_joint_values: wanted == Mode::Edit,
            restore_joint_values: wanted == Mode::View,
            tool: if wanted == Mode::View { Tool::Select } else { tool },
            selection: match selection {
                Selection::Link(_) | Selection::Frame(_) => Selection::Nothing,
                _ => selection,
            },
            sync_scene: true,
            cancels_align: wanted == Mode::View || selection is Link || selection is Frame,
        }
    }
}

/// Switches modes. Edit is the zero configuration: going there stashes the
/// joint values and rewinds, coming back restores them, and leaves the
/// tool at Select. A selected joint survives; a selected link or frame
/// clears. Asking for the mode the window is in changes nothing.
pub fn set_mode(current: Mode, wanted: Mode, tool: Tool, selection: Selection) -> (change: ModeChange)
    ensures
        change == mode_change(current, wanted, tool, selection),
{
    if wanted == current {
        return ModeChange {
            mode: current,
            stash_joint_values: false,
            restore_joint_values: false,
            tool,
            selection,
            sync_scene: false,
            cancels_align: false,
        };
    }
    let restore = wanted == Mode::View;
    let next_tool = crate::tool::switch_tool(wanted, tool);
    let clears = match selection {
        Selection::Link(_) | Selection::Frame(_) => true,
        _ => false,
    };
    let next_selection = if clears { Selection::Nothing } else { selection };
    ModeChange {
        mode: wanted,
        stash_joint_values: wanted == Mode::Edit,
        restore_joint_values: restore,
        tool: next_tool,
        selection: next_selection,
        sync_scene: true,
        cancels_align: restore || clears,
    }
}

/// Going to Edit and back comes back to View with Select active, the joint
/// values stashed on the way out and restored on the way in, and a joint
/// selection untouched.
pub proof fn lemma_edit_and_back(tool: Tool, selection: Selection)
    ensures
        ({
            let there = mode_change(Mode::View, Mode::Edit, tool, selection);
            let back = mode_change(there.mode, Mode::View, there.tool, there.selection);
            &&& there.stash_joint_values && !there.restore_joint_values
            &&& back.restore_joint_values && !back.stash_joint_values
            &&& back.mode == Mode::View
            &&& back.tool == Tool::Select
            &&& (selection is Joint ==> back.selection == selection)
            &&& (selection is Link || selection is Frame ==> back.selection == Selection::Nothing)
        }),
{
}

/// A real switch, in either direction, clears a selected link or frame (a
/// link or frame has no row in View, and a selection that clears is a new
/// one) and keeps a selected joint or nothing; it always rebuilds the
/// scene, leaves Select active in View and keeps the tool in Edit. Asking
/// for the mode the window is in changes nothing.
pub proof fn lemma_switch_clears_links_and_frames(current: Mode, wanted: Mode, tool: Tool, selection: Selection)
    ensures
        ({
            let change = mode_change(current, wanted, tool, selection);
            &&& change.mode == wanted
            &&& current != wanted && (selection is Link || selection is Frame) ==> change.selection
                == Selection::Nothing
            &&& current != wanted && (selection is Link || selection is Frame) ==> change.cancels_align
            &&& (selection is Joint || selection is Nothing) ==> change.selection == selection
            &&& current != wanted ==> change.sync_scene
            &&& current != wanted && wanted == Mode::View ==> change.tool == Tool::Select
            &&& wanted == Mode::Edit ==> change.tool == tool
            &&& current == wanted ==> change.selection == selection && change.tool == tool && !change.sync_scene
                && !change.cancels_align && !change.stash_joint_values && !change.restore_joint_values
        }),
{
}

} // verus!
