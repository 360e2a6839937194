//! What the app thinks it drew, as inspectable data: the panels' state,
//! the links, the viewport's pointer policy and the resolved picks. The
//! JSON form of these lives beside the application, which serialises them.

use vstd::prelude::*;

verus! {

/// What the panels are in the middle of.
#[derive(Debug, Clone)]
pub struct UiDebug {
    /// `"View"` or `"Edit"`.
    pub mode: &'static str,
    /// Every panel and all corner chrome hidden.
    pub zen: bool,
    /// The active tool, by its toolbar label.
    pub tool: &'static str,
    /// The link an inline rename is editing, as `"l3"`, and the text so far.
    pub renaming: Option<(String, String)>,
    /// Floating windows currently open, by name.
    pub windows: Vec<&'static str>,
    /// The modal being shown, if any: `"unsaved_changes"`.
    pub modal: Option<&'static str>,
    /// What the OS window title reads.
    pub title: String,
    /// The names of the overlay classes switched off, in the row's order.
    pub overlays: Vec<&'static str>,
    /// A tree row being dragged, if one is.
    pub drag: Option<TreeDragDebug>,
}

/// A link row mid-drag: what, over which row, and whether a drop there
/// would be accepted.
#[derive(Debug, Clone, PartialEq, Eq)]
pub struct TreeDragDebug {
    pub link: String,
    pub over: Option<String>,
    pub allowed: bool,
}

/// One link of the document.
#[derive(Debug, Clone)]
pub struct LinkDebug {
    pub id: String,
    pub name: String,
    /// The joint whose child this is; `None` for the root.
    pub parent_joint: Option<String>,
    pub geoms: usize,
    pub material: Option<String>,
}

/// What the ID buffer resolved: the hovered and the selected triangle.
#[derive(Debug, Clone)]
pub struct SelectionDebug {
    pub hovered: Option<HitDebug>,
    pub selected: Option<HitDebug>,
}

/// Which of the viewport's pointer switches are on.
#[derive(Debug, Clone, Copy, PartialEq, Eq, Structural)]
pub struct InputDebug {
    /// Neither pick runs; the camera is still live.
    pub pick_suppressed: bool,
    /// A click means "place here", not "select what is under the cursor".
    pub select_suppressed: bool,
    /// The camera ignores the pointer: something else owns the gesture.
    pub camera_blocked: bool,
    /// The left drag is spoken for — a gizmo handle has it.
    pub primary_drag_claimed: bool,
    /// The wheel is spoken for — a rotate ring under the cursor steps on it.
    pub wheel_claimed: bool,
}

impl InputDebug {
    /// Nothing suppressed — the plain viewport.
    pub fn is_off(&self) -> (off: bool)
        ensures
            off == (!self.pick_suppressed && !self.select_suppressed && !self.camera_blocked
                && !self.primary_drag_claimed && !self.wheel_claimed),
    {
        !self.pick_suppressed && !self.select_suppressed && !self.camera_blocked
            && !self.primary_drag_claimed && !self.wheel_claimed
    }
}

/// One resolved pick: the instance and the triangle under the cursor.
#[derive(Debug, Clone, Copy, PartialEq, Eq, Structural)]
pub struct HitDebug {
    pub instance: u32,
    pub triangle: u32,
}

} // verus!
