//! The visibility row: five class toggles in the viewport's corner.
//!
//! **A hidden thing answers nothing**: a toggle takes away the drawing and
//! the pointer target together. Visibility is app state, remembered between
//! sessions and never in the document.

use vstd::prelude::*;
use crate::text::{join, push_str, string_of};

verus! {

/// One class of thing the viewport draws, and one button in the row.
#[derive(Debug, Clone, Copy, PartialEq, Eq, Hash, Structural)]
pub enum Overlay {
    Joints,
    JointNames,
    Links,
    Frames,
    Collision,
}

/// The row, left to right: the two that are geometry last, so the three
/// overlay toggles sit together.
pub open spec fn overlay_row() -> Seq<Overlay> {
    seq![Overlay::Joints, Overlay::JointNames, Overlay::Frames, Overlay::Links, Overlay::Collision]
}

/// What a toggle is called.
pub open spec fn overlay_name(overlay: Overlay) -> Seq<char> {
    match overlay {
        Overlay::Joints => "joints"@,
        Overlay::JointNames => "joint names"@,
        Overlay::Frames => "frames"@,
        Overlay::Links => "links"@,
        Overlay::Collision => "collision"@,
    }
}

/// The storage key a toggle is remembered under.
pub open spec fn overlay_key(overlay: Overlay) -> Seq<char> {
    match overlay {
        Overlay::Joints => "riggen.overlays.joints"@,
        Overlay::JointNames => "riggen.overlays.joint_names"@,
        Overlay::Frames => "riggen.overlays.frames"@,
        Overlay::Links => "riggen.overlays.links"@,
        Overlay::Collision => "riggen.overlays.collision"@,
    }
}

impl Overlay {
    /// Left to right in the row.
    pub const ALL: [Overlay; 5] = [
        Overlay::Joints,
        Overlay::JointNames,
        Overlay::Frames,
        Overlay::Links,
        Overlay::Collision,
    ];

    /// The row's order, as a `Vec`.
    pub fn all() -> (all: Vec<Overlay>)
        ensures
            all@ == overlay_row(),
    {
        let v = vec![
            Overlay::Joints,
            Overlay::JointNames,
            Overlay::Frames,
            Overlay::Links,
            Overlay::Collision,
        ];
        assert(v@ == overlay_row());
        v
    }
}

/// Whether a toggle is on in a fresh profile: everything but collision,
/// which is a check on a robot rather than a part of it.
pub open spec fn overlay_default_on(overlay: Overlay) -> bool {
    overlay != Overlay::Collision
}

impl Overlay {
    /// What the toggle is called — in its tooltip, in the status bar's
    /// "… hidden" line and in `debug_state().ui.overlays`.
    pub fn name(self) -> (name: &'static str)
        ensures
            name@ == overlay_name(self),
    {
        match self {
            Overlay::Joints => "joints",
            Overlay::JointNames => "joint names",
            Overlay::Frames => "frames",
            Overlay::Links => "links",
            Overlay::Collision => "collision",
        }
    }

    /// What it costs to switch off, said once in the tooltip.
    pub fn tooltip(self) -> (tip: &'static str)
        ensures
            tip@ == match self {
                Overlay::Joints => "Joints — the glyphs, and in View the only thing the cursor can hit"@,
                Overlay::JointNames => "Joint names — the mimic and actuator labels, and frame names"@,
                Overlay::Frames => "Frames — the named triads (ADR-0012)"@,
                Overlay::Links => "Links — the visual meshes, which the Edit tools aim at"@,
                Overlay::Collision => "Collision geometry — the translucent hulls"@,
            },
    {
        match self {
            Overlay::Joints => "Joints — the glyphs, and in View the only thing the cursor can hit",
            Overlay::JointNames => "Joint names — the mimic and actuator labels, and frame names",
            Overlay::Frames => "Frames — the named triads (ADR-0012)",
            Overlay::Links => "Links — the visual meshes, which the Edit tools aim at",
            Overlay::Collision => "Collision geometry — the translucent hulls",
        }
    }

    /// Off by default only for collision.
    pub fn default_on(self) -> (on: bool)
        ensures
            on == overlay_default_on(self),
    {
        match self {
            Overlay::Collision => false,
            _ => true,
        }
    }

    /// The storage key: one per toggle rather than one packed string, so a
    /// key added later defaults on its own.
    pub fn key(self) -> (key: &'static str)
        ensures
            key@ == overlay_key(self),
    {
        match self {
            Overlay::Joints => "riggen.overlays.joints",
            Overlay::JointNames => "riggen.overlays.joint_names",
            Overlay::Frames => "riggen.overlays.frames",
            Overlay::Links => "riggen.overlays.links",
            Overlay::Collision => "riggen.overlays.collision",
        }
    }
}

/// What the viewport is currently drawing, class by class.
#[derive(Debug, Clone, Copy, PartialEq, Eq, Structural)]
pub struct Overlays {
    pub joints: bool,
    pub joint_names: bool,
    pub frames: bool,
    pub links: bool,
    pub collision: bool,
}

/// Whether `overlays` draws `overlay`.
pub open spec fn shown(overlays: Overlays, overlay: Overlay) -> bool {
    match overlay {
        Overlay::Joints => overlays.joints,
        Overlay::JointNames => overlays.joint_names,
        Overlay::Frames => overlays.frames,
        Overlay::Links => overlays.links,
        Overlay::Collision => overlays.collision,
    }
}

/// `overlays` with `overlay` switched to `on`.
pub open spec fn with_shown(overlays: Overlays, overlay: Overlay, on: bool) -> Overlays {
    match overlay {
        Overlay::Joints => Overlays { joints: on, ..overlays },
        Overlay::JointNames => Overlays { joint_names: on, ..overlays },
        Overlay::Frames => Overlays { frames: on, ..overlays },
        Overlay::Links => Overlays { links: on, ..overlays },
        Overlay::Collision => Overlays { collision: on, ..overlays },
    }
}

/// The names of the classes switched off, in the row's order.
pub open spec fn hidden_names(overlays: Overlays) -> Seq<Seq<char>> {
    overlay_row().filter(|o: Overlay| !shown(overlays, o)).map_values(|o: Overlay| overlay_name(o))
}

impl Default for Overlays {
    /// Everything shown but collision.
    fn default() -> (overlays: Overlays)
        ensures
            forall|o: Overlay| #[trigger] shown(overlays, o) == overlay_default_on(o),
    {
        let mut overlays = Overlays {
            joints: false,
            joint_names: false,
            frames: false,
            links: false,
            collision: false,
        };
        let all = Overlay::all();
        let mut i: usize = 0;
        while i < all.len()
            invariant
                i <= all@.len(),
                all@ == overlay_row(),
                forall|j: int| 0 <= j < i ==> shown(overlays, #[trigger] overlay_row()[j])
                    == overlay_default_on(overlay_row()[j]),
                forall|o: Overlay| (forall|j: int| 0 <= j < i ==> overlay_row()[j] != o)
                    ==> !#[trigger] shown(overlays, o),
            decreases all@.len() - i,
        {
            let overlay = all[i];
            let ghost before = overlays;
            overlays.set(overlay, overlay.default_on());
            assert forall|o: Overlay| (forall|j: int| 0 <= j < i + 1 ==> overlay_row()[j] != o)
                implies !#[trigger] shown(overlays, o) by {
                assert(overlay_row()[i as int] != o);
                assert(shown(overlays, o) == shown(before, o));
                assert forall|j: int| 0 <= j < i implies overlay_row()[j] != o by {
                    assert(0 <= j < i + 1);
                }
            }
            i = i + 1;
        }
        assert forall|o: Overlay| #[trigger] shown(overlays, o) == overlay_default_on(o) by {
            lemma_in_row(o);
        }
        overlays
    }
}

/// The row names each class once.
pub proof fn lemma_row_distinct()
    ensures
        forall|j: int, k: int|
            0 <= j < 5 && 0 <= k < 5 && j != k ==> overlay_row()[j] != overlay_row()[k],
{
}

/// Every overlay has its place in the row.
pub proof fn lemma_in_row(overlay: Overlay)
    ensures
        exists|j: int| 0 <= j < 5 && #[trigger] overlay_row()[j] == overlay,
{
    match overlay {
        Overlay::Joints => assert(overlay_row()[0] == overlay),
        Overlay::JointNames => assert(overlay_row()[1] == overlay),
        Overlay::Frames => assert(overlay_row()[2] == overlay),
        Overlay::Links => assert(overlay_row()[3] == overlay),
        Overlay::Collision => assert(overlay_row()[4] == overlay),
    }
}

impl Overlays {
    /// Whether `overlay` is drawn.
    pub fn get(self, overlay: Overlay) -> (on: bool)
        ensures
            on == shown(self, overlay),
    {
        match overlay {
            Overlay::Joints => self.joints,
            Overlay::JointNames => self.joint_names,
            Overlay::Frames => self.frames,
            Overlay::Links => self.links,
            Overlay::Collision => self.collision,
        }
    }

    /// Switches one class on or off, and nothing else.
    pub fn set(&mut self, overlay: Overlay, on: bool)
        ensures
            *final(self) == with_shown(*old(self), overlay, on),
    {
        match overlay {
            Overlay::Joints => self.joints = on,
            Overlay::JointNames => self.joint_names = on,
            Overlay::Frames => self.frames = on,
            Overlay::Links => self.links = on,
            Overlay::Collision => self.collision = on,
        }
    }

    /// The names of what is switched off, in the row's order: what
    /// `debug_state()` reports and what the status bar reads out.
    pub fn hidden(self) -> (names: Vec<&'static str>)
        ensures
            names@.map_values(|s: &'static str| s@) == hidden_names(self),
    {
        let all = Overlay::all();
        let mut names: Vec<&'static str> = Vec::new();
        let mut i: usize = 0;
        while i < all.len()
            invariant
                i <= all@.len(),
                all@ == overlay_row(),
                names@.map_values(|s: &'static str| s@) == overlay_row().take(i as int).filter(
                    |o: Overlay| !shown(self, o),
                ).map_values(|o: Overlay| overlay_name(o)),
            decreases all@.len() - i,
        {
            let overlay = all[i];
            let ghost before = names@;
            assert(overlay_row().take(i + 1) == overlay_row().take(i as int).push(overlay));
            reveal_with_fuel(Seq::filter, 1);
            assert(overlay_row().take(i + 1).drop_last() == overlay_row().take(i as int));
            if !self.get(overlay) {
                names.push(overlay.name());
                assert(names@.map_values(|s: &'static str| s@) == before.map_values(
                    |s: &'static str| s@,
                ).push(overlay_name(overlay)));
            }
            i = i + 1;
        }
        assert(overlay_row().take(5) == overlay_row());
        names
    }
}

/// The text a toggle is stored as: `true` or `false`.
pub open spec fn stored_text(on: bool) -> Seq<char> {
    if on { "true"@ } else { "false"@ }
}

/// What a profile's stored value makes of a toggle: on exactly when it
/// reads `true`; a key that is not there keeps the default.
pub open spec fn restored_value(overlay: Overlay, stored: Option<Seq<char>>) -> bool {
    match stored {
        Some(text) => text == "true"@,
        None => overlay_default_on(overlay),
    }
}

impl Overlays {
    /// Read back from the last session: `stored[i]` is what the profile
    /// holds under the key of the row's `i`th toggle (`None` where it holds
    /// nothing, and for a position past the end of `stored`).
    pub fn load(stored: &Vec<Option<String>>) -> (overlays: Overlays)
        ensures
            forall|i: int|
                0 <= i < 5 ==> #[trigger] shown(overlays, overlay_row()[i]) == restored_value(
                    overlay_row()[i],
                    if i < stored@.len() {
                        match stored@[i] {
                            Some(s) => Some(s@),
                            None => None,
                        }
                    } else {
                        None
                    },
                ),
    {
        let mut overlays = Overlays::default();
        let all = Overlay::all();
        let mut i: usize = 0;
        while i < all.len()
            invariant
                i <= all@.len(),
                all@ == overlay_row(),
                forall|j: int|
                    0 <= j < i ==> #[trigger] shown(overlays, overlay_row()[j]) == restored_value(
                        overlay_row()[j],
                        if j < stored@.len() {
                            match stored@[j] {
                                Some(s) => Some(s@),
                                None => None,
                            }
                        } else {
                            None
                        },
                    ),
                forall|j: int|
                    i <= j < 5 ==> #[trigger] shown(overlays, overlay_row()[j])
                        == overlay_default_on(overlay_row()[j]),
            decreases all@.len() - i,
        {
            let overlay = all[i];
            let ghost before = overlays;
            proof { lemma_row_distinct(); }
            if i < stored.len() {
                match &stored[i] {
                    Some(text) => {
                        let on = is_true(text);
                        overlays.set(overlay, on);
                    },
                    None => {},
                }
            }
            assert forall|j: int| 0 <= j < 5 && j != i implies #[trigger] shown(overlays, overlay_row()[j])
                == shown(before, overlay_row()[j]) by {
                assert(overlay_row()[j] != overlay_row()[i as int]);
            }
            i = i + 1;
        }
        overlays
    }

    /// What the profile stores, key by key in the row's order: `(key,
    /// "true" | "false")`.
    pub fn save(self) -> (stored: Vec<(&'static str, &'static str)>)
        ensures
            stored@.len() == 5,
            forall|i: int|
                0 <= i < 5 ==> (#[trigger] stored@[i]).0@ == overlay_key(overlay_row()[i])
                    && stored@[i].1@ == stored_text(shown(self, overlay_row()[i])),
    {
        let all = Overlay::all();
        let mut stored: Vec<(&'static str, &'static str)> = Vec::new();
        let mut i: usize = 0;
        while i < all.len()
            invariant
                i <= all@.len(),
                all@ == overlay_row(),
                stored@.len() == i,
                forall|j: int|
                    0 <= j < i ==> (#[trigger] stored@[j]).0@ == overlay_key(overlay_row()[j])
                        && stored@[j].1@ == stored_text(shown(self, overlay_row()[j])),
            decreases all@.len() - i,
        {
            let overlay = all[i];
            let text = if self.get(overlay) {
                "true"
            } else {
                "false"
            };
            stored.push((overlay.key(), text));
            i = i + 1;
        }
        stored
    }
}

/// Whether `text` reads `true`.
fn is_true(text: &String) -> (b: bool)
    ensures
        b == (text@ == "true"@),
{
    let mut word: Vec<char> = Vec::new();
    push_str(&mut word, "true");
    let word = string_of(&word);
    *text == word
}

/// The status bar's note about the row: the classes switched off, unless
/// nothing is or only collision is (which is the default and not news).
pub open spec fn hidden_note_text(overlays: Overlays) -> Option<Seq<char>> {
    let hidden = hidden_names(overlays);
    if hidden.len() == 0 || hidden == seq![overlay_name(Overlay::Collision)] {
        None
    } else {
        Some("hidden: "@ + crate::text::joined(hidden, ", "@))
    }
}

/// What the status bar says about the row: `hidden: joints, links`, or
/// nothing when all is shown or only collision is off.
pub fn hidden_note(overlays: Overlays) -> (note: Option<String>)
    ensures
        match note {
            Some(s) => hidden_note_text(overlays) == Some(s@),
            None => hidden_note_text(overlays) is None,
        },
{
    let hidden = overlays.hidden();
    let ghost names = hidden@.map_values(|s: &'static str| s@);
    if hidden.len() == 0 {
        return None;
    }
    if hidden.len() == 1 {
        let only = hidden[0];
        let collision = Overlay::Collision.name();
        assert(names[0] == only@);
        if str_equal(only, collision) {
            assert(names == seq![overlay_name(Overlay::Collision)]);
            return None;
        }
        assert(names != seq![overlay_name(Overlay::Collision)]) by {
            if names == seq![overlay_name(Overlay::Collision)] {
                assert(names[0] == overlay_name(Overlay::Collision));
            }
        }
    } else {
        assert(names != seq![overlay_name(Overlay::Collision)]) by {
            if names == seq![overlay_name(Overlay::Collision)] {
                assert(names.len() == 1);
            }
        }
    }
    let mut out: Vec<char> = Vec::new();
    push_str(&mut out, "hidden: ");
    join(&mut out, &hidden, ", ");
    Some(string_of(&out))
}

/// Whether two `&str` hold the same text.
fn str_equal(a: &str, b: &str) -> (same: bool)
    ensures
        same == (a@ == b@),
{
    let a_chars = crate::text::chars_of(a);
    let b_chars = crate::text::chars_of(b);
    crate::text::chars_equal(&a_chars, &b_chars)
}

/// Toggling a class sets that class and leaves the other four as they were.
pub proof fn lemma_set_then_get(overlays: Overlays, overlay: Overlay, on: bool, other: Overlay)
    ensures
        shown(with_shown(overlays, overlay, on), overlay) == on,
        other != overlay ==> shown(with_shown(overlays, overlay, on), other) == shown(
            overlays,
            other,
        ),
{
}

/// Every toggle has its own storage key, and its own name.
pub proof fn lemma_keys_and_names_distinct(a: Overlay, b: Overlay)
    requires
        a != b,
    ensures
        overlay_key(a) != overlay_key(b),
        overlay_name(a) != overlay_name(b),
{
    reveal_strlit("riggen.overlays.joints");
    reveal_strlit("riggen.overlays.joint_names");
    reveal_strlit("riggen.overlays.frames");
    reveal_strlit("riggen.overlays.links");
    reveal_strlit("riggen.overlays.collision");
    reveal_strlit("joints");
    reveal_strlit("joint names");
    reveal_strlit("frames");
    reveal_strlit("links");
    reveal_strlit("collision");
    assert(overlay_key(a) != overlay_key(b) && overlay_name(a) != overlay_name(b)) by {
        if overlay_key(a) == overlay_key(b) {
            assert(overlay_key(a).len() == overlay_key(b).len());
            assert(overlay_key(a)[16] == overlay_key(b)[16]);
            assert(overlay_key(a)[22] == overlay_key(b)[22]);
        }
        if overlay_name(a) == overlay_name(b) {
            assert(overlay_name(a).len() == overlay_name(b).len());
            assert(overlay_name(a)[0] == overlay_name(b)[0]);
            assert(overlay_name(a)[5] == overlay_name(b)[5]);
        }
    }
}

/// The defaults hide collision and nothing else.
pub proof fn lemma_default_hides_only_collision(overlays: Overlays)
    requires
        forall|o: Overlay| #[trigger] shown(overlays, o) == overlay_default_on(o),
    ensures
        hidden_names(overlays) == seq![overlay_name(Overlay::Collision)],
        hidden_note_text(overlays) is None,
{
    reveal_with_fuel(Seq::filter, 6);
    assert(shown(overlays, Overlay::Joints));
    assert(shown(overlays, Overlay::JointNames));
    assert(shown(overlays, Overlay::Frames));
    assert(shown(overlays, Overlay::Links));
    assert(!shown(overlays, Overlay::Collision));
    let row = overlay_row();
    let keep = |o: Overlay| !shown(overlays, o);
    assert(row.drop_last() == seq![Overlay::Joints, Overlay::JointNames, Overlay::Frames, Overlay::Links]);
    assert(row.drop_last().drop_last() == seq![Overlay::Joints, Overlay::JointNames, Overlay::Frames]);
    assert(row.drop_last().drop_last().drop_last() == seq![Overlay::Joints, Overlay::JointNames]);
    assert(row.drop_last().drop_last().drop_last().drop_last() == seq![Overlay::Joints]);
    assert(seq![Overlay::Joints].drop_last() == Seq::<Overlay>::empty());
    assert(row.filter(keep) == seq![Overlay::Collision]);
    let hidden = hidden_names(overlays);
    assert(hidden =~= seq![overlay_name(Overlay::Collision)]);
    assert(hidden.len() == 1);
}

/// A row with every class shown hides nothing.
pub proof fn lemma_all_shown_hides_nothing(overlays: Overlays)
    requires
        forall|o: Overlay| #[trigger] shown(overlays, o),
    ensures
        hidden_names(overlays) == Seq::<Seq<char>>::empty(),
{
    let keep = |o: Overlay| !shown(overlays, o);
    broadcast use vstd::seq_lib::group_filter_ensures;
    assert(overlay_row().filter(keep).len() == 0) by {
        if overlay_row().filter(keep).len() > 0 {
            let o = overlay_row().filter(keep)[0];
            assert(keep(o));
        }
    }
}

/// What a session saves, the next one loads back unchanged.
pub proof fn lemma_save_then_load(overlays: Overlays, overlay: Overlay)
    ensures
        restored_value(overlay, Some(stored_text(shown(overlays, overlay)))) == shown(
            overlays,
            overlay,
        ),
{
    reveal_strlit("true");
    reveal_strlit("false");
    if !shown(overlays, overlay) {
        assert(stored_text(false).len() != "true"@.len());
    }
}

} // verus!
