//! What the window's document edits read of the robot: which links,
//! joints and frames there are, each joint's child link, each frame's link,
//! and the root. Where a new link goes, what Delete removes, and what is
//! left selected after an edit are decided over that outline.

use vstd::prelude::*;
use crate::selection::{FrameId, JointId, LinkId, Selection};

verus! {

/// The robot as the selection logic reads it.
#[derive(Debug, Clone)]
pub struct Outline {
    /// The root link: the world.
    pub root: LinkId,
    /// Every link.
    pub links: Vec<LinkId>,
    /// Every joint, with the link it carries (its child).
    pub joints: Vec<(JointId, LinkId)>,
    /// Every named frame, with the link it hangs on.
    pub frames: Vec<(FrameId, LinkId)>,
}

/// What `entries` holds under `key`: the first entry with that key.
pub open spec fn lookup<K, V>(entries: Seq<(K, V)>, key: K) -> Option<V>
    decreases entries.len(),
{
    if entries.len() == 0 {
        None
    } else if entries[0].0 == key {
        Some(entries[0].1)
    } else {
        lookup(entries.drop_first(), key)
    }
}

/// A well-formed robot: the root is a link, and every joint's child and
/// every frame's link are links of it.
pub open spec fn outline_wf(root: LinkId, links: Seq<LinkId>, joints: Seq<(JointId, LinkId)>, frames: Seq<(FrameId, LinkId)>) -> bool {
    &&& links.contains(root)
    &&& forall|i: int| 0 <= i < joints.len() ==> links.contains(#[trigger] joints[i].1)
    &&& forall|i: int| 0 <= i < frames.len() ==> links.contains(#[trigger] frames[i].1)
}

/// Whether `selection` names something the robot has (nothing selected
/// counts as present).
pub open spec fn selection_present(links: Seq<LinkId>, joints: Seq<(JointId, LinkId)>, frames: Seq<(FrameId, LinkId)>, selection: Selection) -> bool {
    match selection {
        Selection::Nothing => true,
        Selection::Link(l) => links.contains(l),
        Selection::Joint(j) => lookup(joints, j) is Some,
        Selection::Frame(f) => lookup(frames, f) is Some,
    }
}

/// Where a new link goes: under the selected link, under a selected joint's
/// child, beside a selected frame (under its link), else under the root.
pub open spec fn insertion_parent_of(root: LinkId, joints: Seq<(JointId, LinkId)>, frames: Seq<(FrameId, LinkId)>, selection: Selection) -> LinkId {
    match selection {
        Selection::Nothing => root,
        Selection::Link(l) => l,
        Selection::Joint(j) => lookup(joints, j).unwrap(),
        Selection::Frame(f) => lookup(frames, f).unwrap(),
    }
}

/// The document edit Delete makes.
#[derive(Debug, Clone, Copy, PartialEq, Eq, Structural)]
pub enum Removal {
    /// The link, with its subtree and the joint that carries it.
    Link(LinkId),
    /// The named frame.
    Frame(FrameId),
}

/// What Delete removes: a selected link; for a selected joint, the link it
/// carries (a joint cannot exist without its child); a selected frame;
/// nothing when nothing is selected.
pub open spec fn removal_of(joints: Seq<(JointId, LinkId)>, selection: Selection) -> Option<Removal> {
    match selection {
        Selection::Nothing => None,
        Selection::Link(l) => Some(Removal::Link(l)),
        Selection::Joint(j) => Some(Removal::Link(lookup(joints, j).unwrap())),
        Selection::Frame(f) => Some(Removal::Frame(f)),
    }
}

/// What stays selected after the document changed: the selection if the
/// thing it names is still there, else nothing.
pub open spec fn surviving_selection(links: Seq<LinkId>, joints: Seq<(JointId, LinkId)>, frames: Seq<(FrameId, LinkId)>, selection: Selection) -> Selection {
    if selection_present(links, joints, frames, selection) {
        selection
    } else {
        Selection::Nothing
    }
}

/// The child of joint `key`, as `lookup` reads the joints.
fn find_joint(entries: &Vec<(JointId, LinkId)>, key: JointId) -> (found: Option<LinkId>)
    ensures
        found == lookup(entries@, key),
{
    let mut i: usize = 0;
    assert(entries@.skip(0) == entries@);
    while i < entries.len()
        invariant
            i <= entries@.len(),
            lookup(entries@, key) == lookup(entries@.skip(i as int), key),
        decreases entries@.len() - i,
    {
        assert(entries@.skip(i as int)[0] == entries@[i as int]);
        if entries[i].0 == key {
            return Some(entries[i].1);
        }
        assert(entries@.skip(i as int).drop_first() == entries@.skip(i + 1));
        i = i + 1;
    }
    None
}

/// The link of frame `key`, as `lookup` reads the frames.
fn find_frame(entries: &Vec<(FrameId, LinkId)>, key: FrameId) -> (found: Option<LinkId>)
    ensures
        found == lookup(entries@, key),
{
    let mut i: usize = 0;
    assert(entries@.skip(0) == entries@);
    while i < entries.len()
        invariant
            i <= entries@.len(),
            lookup(entries@, key) == lookup(entries@.skip(i as int), key),
        decreases entries@.len() - i,
    {
        assert(entries@.skip(i as int)[0] == entries@[i as int]);
        if entries[i].0 == key {
            return Some(entries[i].1);
        }
        assert(entries@.skip(i as int).drop_first() == entries@.skip(i + 1));
        i = i + 1;
    }
    None
}

/// Whether `link` is one of `links`.
fn has_link(links: &Vec<LinkId>, link: LinkId) -> (found: bool)
    ensures
        found == links@.contains(link),
{
    let mut i: usize = 0;
    while i < links.len()
        invariant
            i <= links@.len(),
            forall|k: int| 0 <= k < i ==> links@[k] != link,
        decreases links@.len() - i,
    {
        if links[i] == link {
            return true;
        }
        i = i + 1;
    }
    false
}

impl Outline {
    /// Where a new link goes: under the selected link, under a selected
    /// joint's child, under a selected frame's link ("add here" means
    /// beside the thing shown), else under the root. A selected joint or
    /// frame is one the robot has.
    pub fn insertion_parent(&self, selection: Selection) -> (parent: LinkId)
        requires
            selection is Joint ==> lookup(self.joints@, selection->Joint_0) is Some,
            selection is Frame ==> lookup(self.frames@, selection->Frame_0) is Some,
        ensures
            parent == insertion_parent_of(self.root, self.joints@, self.frames@, selection),
    {
        match selection {
            Selection::Link(l) => l,
            Selection::Joint(j) => find_joint(&self.joints, j).unwrap(),
            Selection::Frame(f) => find_frame(&self.frames, f).unwrap(),
            Selection::Nothing => self.root,
        }
    }

    /// What Delete removes for `selection`. A selected joint is one the
    /// robot has.
    pub fn removal(&self, selection: Selection) -> (removal: Option<Removal>)
        requires
            selection is Joint ==> lookup(self.joints@, selection->Joint_0) is Some,
        ensures
            removal == removal_of(self.joints@, selection),
    {
        match selection {
            Selection::Link(l) => Some(Removal::Link(l)),
            Selection::Joint(j) => Some(Removal::Link(find_joint(&self.joints, j).unwrap())),
            Selection::Frame(f) => Some(Removal::Frame(f)),
            Selection::Nothing => None,
        }
    }

    /// What stays selected after an edit: a selection whose link, joint or
    /// frame is gone becomes nothing.
    pub fn surviving(&self, selection: Selection) -> (kept: Selection)
        ensures
            kept == surviving_selection(self.links@, self.joints@, self.frames@, selection),
    {
        let present = match selection {
            Selection::Nothing => true,
            Selection::Link(l) => has_link(&self.links, l),
            Selection::Joint(j) => find_joint(&self.joints, j).is_some(),
            Selection::Frame(f) => find_frame(&self.frames, f).is_some(),
        };
        if present {
            selection
        } else {
            Selection::Nothing
        }
    }
}

/// What `lookup` finds is one of the entries.
proof fn lemma_lookup_is_an_entry<K, V>(entries: Seq<(K, V)>, key: K)
    ensures
        lookup(entries, key) matches Some(v) ==> exists|i: int| 0 <= i < entries.len() && #[trigger] entries[i].1 == v,
    decreases entries.len(),
{
    if entries.len() > 0 && entries[0].0 != key {
        lemma_lookup_is_an_entry(entries.drop_first(), key);
        if let Some(v) = lookup(entries, key) {
            let i = choose|i: int| 0 <= i < entries.drop_first().len() && #[trigger] entries.drop_first()[i].1 == v;
            assert(entries[i + 1].1 == v);
        }
    }
}

/// The fix-up after an edit settles at once: what survives survives again,
/// and names something the robot has.
pub proof fn lemma_surviving_settles(links: Seq<LinkId>, joints: Seq<(JointId, LinkId)>, frames: Seq<(FrameId, LinkId)>, selection: Selection)
    ensures
        surviving_selection(links, joints, frames, surviving_selection(links, joints, frames, selection))
            == surviving_selection(links, joints, frames, selection),
        selection_present(links, joints, frames, surviving_selection(links, joints, frames, selection)),
        selection_present(links, joints, frames, selection) ==> surviving_selection(links, joints, frames, selection) == selection,
{
}

/// In a well-formed robot, a new link always goes under a link the robot
/// has, whatever survived an edit as the selection.
pub proof fn lemma_new_links_hang_on_a_link(root: LinkId, links: Seq<LinkId>, joints: Seq<(JointId, LinkId)>, frames: Seq<(FrameId, LinkId)>, selection: Selection)
    requires
        outline_wf(root, links, joints, frames),
    ensures
        links.contains(insertion_parent_of(root, joints, frames, surviving_selection(links, joints, frames, selection))),
{
    let kept = surviving_selection(links, joints, frames, selection);
    match kept {
        Selection::Joint(j) => {
            lemma_lookup_is_an_entry(joints, j);
            let i = choose|i: int| 0 <= i < joints.len() && #[trigger] joints[i].1 == lookup(joints, j).unwrap();
            assert(links.contains(joints[i].1));
        },
        Selection::Frame(f) => {
            lemma_lookup_is_an_entry(frames, f);
            let i = choose|i: int| 0 <= i < frames.len() && #[trigger] frames[i].1 == lookup(frames, f).unwrap();
            assert(links.contains(frames[i].1));
        },
        _ => {},
    }
}

/// Delete on a selection that survived an edit removes a link or frame the
/// robot has: for a joint, the link it carries.
pub proof fn lemma_delete_removes_something_present(root: LinkId, links: Seq<LinkId>, joints: Seq<(JointId, LinkId)>, frames: Seq<(FrameId, LinkId)>, selection: Selection)
    requires
        outline_wf(root, links, joints, frames),
        selection_present(links, joints, frames, selection),
    ensures
        removal_of(joints, selection) matches Some(Removal::Link(l)) ==> links.contains(l),
        removal_of(joints, selection) matches Some(Removal::Frame(f)) ==> lookup(frames, f) is Some,
        removal_of(joints, selection) is None <==> selection == Selection::Nothing,
{
    if let Selection::Joint(j) = selection {
        lemma_lookup_is_an_entry(joints, j);
        let i = choose|i: int| 0 <= i < joints.len() && #[trigger] joints[i].1 == lookup(joints, j).unwrap();
        assert(links.contains(joints[i].1));
    }
}

} // verus!
