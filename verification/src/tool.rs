//! The active tool: what a click and a drag in the viewport mean. `Select`
//! is the resting state, and `Esc` always comes back to it. The tools are
//! Edit's: in View the only tool is Select.

use vstd::prelude::*;
use crate::mode::Mode;
use crate::selection::{LinkId, Selection};
use crate::text::{chars_equal, chars_of};

verus! {

/// What a viewport gesture means.
#[derive(Debug, Clone, Copy, PartialEq, Eq, Structural)]
pub enum Tool {
    /// Click picks a link, drag orbits.
    Select,
    /// Gizmo: drag translates the selected link, joint pivot or frame.
    Move,
    /// The same gizmo, rotating.
    Rotate,
    /// Click a feature to put the selected joint's origin and axis on it.
    PlaceJoint,
    /// Click a feature on the selected link, then one anywhere, to bring
    /// the first onto the second.
    Align,
}

impl Default for Tool {
    /// The resting state.
    fn default() -> (tool: Tool)
        ensures
            tool == Tool::Select,
    {
        Tool::Select
    }
}

/// The toolbar button's text, and the name `debug_state` reports.
pub open spec fn tool_label(tool: Tool) -> Seq<char> {
    match tool {
        Tool::Select => "Select"@,
        Tool::Move => "Move"@,
        Tool::Rotate => "Rotate"@,
        Tool::PlaceJoint => "Place joint"@,
        Tool::Align => "Align"@,
    }
}

/// The key that switches to a tool.
pub open spec fn tool_key(tool: Tool) -> char {
    match tool {
        Tool::Select => 'V',
        Tool::Move => 'G',
        Tool::Rotate => 'R',
        Tool::PlaceJoint => 'J',
        Tool::Align => 'B',
    }
}

/// Whether a tool snaps: snapping is a placement affordance.
pub open spec fn tool_snaps(tool: Tool) -> bool {
    tool == Tool::PlaceJoint || tool == Tool::Align
}

/// The toolbar, in order.
pub open spec fn toolbar() -> Seq<Tool> {
    seq![Tool::Select, Tool::Move, Tool::Rotate, Tool::PlaceJoint, Tool::Align]
}

impl Tool {
    /// Toolbar order.
    pub const ALL: [Tool; 5] = [Tool::Select, Tool::Move, Tool::Rotate, Tool::PlaceJoint, Tool::Align];

    /// The toolbar button's text.
    pub fn label(self) -> (label: &'static str)
        ensures
            label@ == tool_label(self),
    {
        match self {
            Tool::Select => "Select",
            Tool::Move => "Move",
            Tool::Rotate => "Rotate",
            Tool::PlaceJoint => "Place joint",
            Tool::Align => "Align",
        }
    }

    /// The key that switches to this tool: Blender's `G` grab and `R`
    /// rotate, `V` and `B` for Select and Align, `J` for the joint. `W A S
    /// D E Q` are left for a fly camera and the digits for the views.
    pub fn shortcut(self) -> (key: char)
        ensures
            key == tool_key(self),
    {
        match self {
            Tool::Select => 'V',
            Tool::Move => 'G',
            Tool::Rotate => 'R',
            Tool::PlaceJoint => 'J',
            Tool::Align => 'B',
        }
    }

    /// Whether this tool snaps. Snapping is a placement affordance:
    /// markers under the cursor while merely selecting would be noise.
    pub fn snaps(self) -> (snaps: bool)
        ensures
            snaps == tool_snaps(self),
    {
        match self {
            Tool::PlaceJoint | Tool::Align => true,
            _ => false,
        }
    }
}

/// The status bar's line while Move waits for a selection.
pub const MOVE_NEEDS_TARGET: &'static str = "move: select a link, a joint or a frame to move";
/// The status bar's line while Rotate waits for a selection.
pub const ROTATE_NEEDS_TARGET: &'static str = "rotate: select a link, a joint or a frame to rotate";
/// Move with the root selected.
pub const MOVE_ROOT: &'static str = "move: the root link is the world — select a child link, a joint or a frame";
/// Rotate with the root selected.
pub const ROTATE_ROOT: &'static str = "rotate: the root link is the world — select a child link, a joint or a frame";
/// Place joint without a joint selected.
pub const PLACE_JOINT_NEEDS_JOINT: &'static str = "place joint: select the joint to place — in the tree, or by its glyph";
/// Align without a child link selected.
pub const ALIGN_NEEDS_LINK: &'static str = "align: select the link to bring onto another (not the root)";

/// Every line a tool's need puts in the status bar.
pub open spec fn tool_needs() -> Seq<Seq<char>> {
    seq![
        MOVE_NEEDS_TARGET@,
        ROTATE_NEEDS_TARGET@,
        MOVE_ROOT@,
        ROTATE_ROOT@,
        PLACE_JOINT_NEEDS_JOINT@,
        ALIGN_NEEDS_LINK@,
    ]
}

/// What the active tool is missing before a click means something, if
/// anything.
pub open spec fn need_of(tool: Tool, selection: Selection, root: LinkId) -> Option<Seq<char>> {
    match tool {
        Tool::Select => None,
        Tool::Move => match selection {
            Selection::Nothing => Some(MOVE_NEEDS_TARGET@),
            Selection::Link(l) => if l == root { Some(MOVE_ROOT@) } else { None },
            _ => None,
        },
        Tool::Rotate => match selection {
            Selection::Nothing => Some(ROTATE_NEEDS_TARGET@),
            Selection::Link(l) => if l == root { Some(ROTATE_ROOT@) } else { None },
            _ => None,
        },
        Tool::PlaceJoint => match selection {
            Selection::Joint(_) => None,
            _ => Some(PLACE_JOINT_NEEDS_JOINT@),
        },
        Tool::Align => match selection {
            Selection::Link(l) => if l != root { None } else { Some(ALIGN_NEEDS_LINK@) },
            _ => Some(ALIGN_NEEDS_LINK@),
        },
    }
}

/// What the active tool is missing, if anything: the selection it needs
/// before a click means something, with `root` the document's root link.
pub fn tool_need(tool: Tool, selection: Selection, root: LinkId) -> (need: Option<&'static str>)
    ensures
        match need {
            Some(n) => need_of(tool, selection, root) == Some(n@),
            None => need_of(tool, selection, root) is None,
        },
{
    match tool {
        Tool::Select => None,
        Tool::Move | Tool::Rotate => {
            let (target, on_root) = if tool == Tool::Move {
                (MOVE_NEEDS_TARGET, MOVE_ROOT)
            } else {
                (ROTATE_NEEDS_TARGET, ROTATE_ROOT)
            };
            match selection {
                Selection::Nothing => Some(target),
                Selection::Link(l) => if l == root { Some(on_root) } else { None },
                _ => None,
            }
        },
        Tool::PlaceJoint => match selection {
            Selection::Joint(_) => None,
            _ => Some(PLACE_JOINT_NEEDS_JOINT),
        },
        Tool::Align => match selection {
            Selection::Link(l) => if l != root { None } else { Some(ALIGN_NEEDS_LINK) },
            _ => Some(ALIGN_NEEDS_LINK),
        },
    }
}

/// The status line after the tool or the selection changed: the tool's
/// need when it has one; otherwise a need that is now met is taken out and
/// any other line is kept.
pub open spec fn refreshed_status(status: Option<Seq<char>>, need: Option<Seq<char>>) -> Option<Seq<char>> {
    match need {
        Some(n) => Some(n),
        None => match status {
            Some(s) => if tool_needs().contains(s) { None } else { Some(s) },
            None => None,
        },
    }
}

/// Whether `status` is one of the lines a tool's need writes.
fn is_tool_need(status: &String) -> (b: bool)
    ensures
        b == tool_needs().contains(status@),
{
    let text = chars_of(status.as_str());
    let needs = [
        MOVE_NEEDS_TARGET,
        ROTATE_NEEDS_TARGET,
        MOVE_ROOT,
        ROTATE_ROOT,
        PLACE_JOINT_NEEDS_JOINT,
        ALIGN_NEEDS_LINK,
    ];
    assert(needs@.map_values(|s: &'static str| s@) == tool_needs());
    let mut i: usize = 0;
    while i < 6
        invariant
            i <= 6,
            text@ == status@,
            needs@.map_values(|s: &'static str| s@) == tool_needs(),
            forall|j: int| 0 <= j < i ==> tool_needs()[j] != status@,
        decreases 6 - i,
    {
        let need = chars_of(needs[i]);
        if chars_equal(&text, &need) {
            assert(tool_needs()[i as int] == status@);
            return true;
        }
        i = i + 1;
    }
    false
}

/// Puts the tool's need in the status bar, or takes a need that is now met
/// out of it.
pub fn refresh_tool_status(status: Option<String>, need: Option<&'static str>) -> (next: Option<String>)
    ensures
        match next {
            Some(s) => refreshed_status(opt_text(status), opt_str_text(need)) == Some(s@),
            None => refreshed_status(opt_text(status), opt_str_text(need)) is None,
        },
{
    match need {
        Some(n) => {
            let chars = chars_of(n);
            Some(crate::text::string_of(&chars))
        },
        None => match status {
            Some(s) => if is_tool_need(&s) { None } else { Some(s) },
            None => None,
        },
    }
}

/// The text of an optional `String`.
pub open spec fn opt_text(s: Option<String>) -> Option<Seq<char>> {
    match s {
        Some(t) => Some(t@),
        None => None,
    }
}

/// The text of an optional `&str`.
pub open spec fn opt_str_text(s: Option<&'static str>) -> Option<Seq<char>> {
    match s {
        Some(t) => Some(t@),
        None => None,
    }
}

/// The tool a switch to `wanted` leaves active in `mode`: the tools are
/// Edit's, so in View it is Select whatever was asked for.
pub open spec fn tool_in(mode: Mode, wanted: Tool) -> Tool {
    if mode == Mode::View { Tool::Select } else { wanted }
}

/// Switches tools in `mode`.
pub fn switch_tool(mode: Mode, wanted: Tool) -> (tool: Tool)
    ensures
        tool == tool_in(mode, wanted),
{
    if mode == Mode::View {
        Tool::Select
    } else {
        wanted
    }
}

/// What a tool switch does: the tool left active, and whether a
/// half-finished align gesture is dropped.
#[derive(Debug, Clone, Copy, PartialEq, Eq, Structural)]
pub struct ToolChange {
    pub tool: Tool,
    pub cancels_align: bool,
}

/// A switch to `wanted` in `mode`: the tool `tool_in` gives, and the align
/// gesture's first pick, if one is waiting, dropped: it belongs to the
/// gesture, not to the window.
pub open spec fn tool_change(mode: Mode, wanted: Tool) -> ToolChange {
    ToolChange { tool: tool_in(mode, wanted), cancels_align: true }
}

/// Switches tools in `mode`, dropping a half-finished align. The caller
/// then refreshes the status bar ([`refresh_tool_status`]).
pub fn set_tool(mode: Mode, wanted: Tool) -> (change: ToolChange)
    ensures
        change == tool_change(mode, wanted),
{
    ToolChange { tool: switch_tool(mode, wanted), cancels_align: true }
}

/// Select needs nothing, and a met need is never reported: whatever the
/// status was, refreshing it with no need leaves no tool need behind.
pub proof fn lemma_met_need_clears(status: Option<Seq<char>>)
    ensures
        match refreshed_status(status, None) {
            Some(s) => !tool_needs().contains(s),
            None => true,
        },
{
}

/// The five tools have five different keys, and only the placement tools
/// snap.
pub proof fn lemma_keys_distinct(a: Tool, b: Tool)
    ensures
        a != b ==> tool_key(a) != tool_key(b),
        tool_snaps(a) <==> (a == Tool::PlaceJoint || a == Tool::Align),
{
}

/// What each tool needs before a click means something, as a relation on
/// the selection: the gizmo tools (Move and Rotate) are ready exactly when
/// what is selected can move (a joint, a frame, or a link other than the
/// root, which is the world), and they agree on that; Place joint is ready
/// exactly on a joint; Align exactly on a link other than the root; Select
/// always.
pub proof fn lemma_tools_need_a_movable_selection(tool: Tool, selection: Selection, root: LinkId)
    ensures
        tool == Tool::Move || tool == Tool::Rotate ==> (need_of(tool, selection, root) is None <==> (
        selection is Joint || selection is Frame || (selection is Link && selection->Link_0 != root))),
        need_of(Tool::Move, selection, root) is None <==> need_of(Tool::Rotate, selection, root) is None,
        need_of(Tool::Move, Selection::Link(root), root) is Some,
        need_of(Tool::Rotate, Selection::Link(root), root) is Some,
        need_of(Tool::PlaceJoint, selection, root) is None <==> selection is Joint,
        need_of(Tool::Align, selection, root) is None <==> (selection is Link && selection->Link_0 != root),
        need_of(Tool::Select, selection, root) is None,
{
}

} // verus!
