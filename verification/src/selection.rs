//! What the user has picked, in document terms: a link, a joint, a named
//! frame, or nothing. Ids are the document's numbers; each reads as a
//! letter and its number (`l3`, `j7`, `f2`).

use vstd::prelude::*;
use crate::text::{decimal, push_decimal, push_str, string_of};

verus! {

/// A link of the document.
#[derive(Debug, Clone, Copy, PartialEq, Eq, Structural)]
pub struct LinkId(pub u64);

/// A joint of the document.
#[derive(Debug, Clone, Copy, PartialEq, Eq, Structural)]
pub struct JointId(pub u64);

/// A named frame of the document.
#[derive(Debug, Clone, Copy, PartialEq, Eq, Structural)]
pub struct FrameId(pub u64);

/// What the user has picked.
#[derive(Debug, Clone, Copy, PartialEq, Eq, Structural)]
pub enum Selection {
    /// Nothing picked.
    Nothing,
    Link(LinkId),
    Joint(JointId),
    /// A named frame on a link. Has no instance in the viewport: its glyph
    /// is drawn by the overlay.
    Frame(FrameId),
}

impl Default for Selection {
    /// Nothing picked.
    fn default() -> (s: Selection)
        ensures
            s == Selection::Nothing,
    {
        Selection::Nothing
    }
}

/// How an id reads: its letter, then its number.
pub open spec fn id_text(letter: char, n: u64) -> Seq<char> {
    seq![letter] + decimal(n as nat)
}

/// `link l3` / `joint j7` / `frame f2`, or nothing.
pub open spec fn describe_text(selection: Selection) -> Option<Seq<char>> {
    match selection {
        Selection::Nothing => None,
        Selection::Link(l) => Some("link "@ + id_text('l', l.0)),
        Selection::Joint(j) => Some("joint "@ + id_text('j', j.0)),
        Selection::Frame(f) => Some("frame "@ + id_text('f', f.0)),
    }
}

impl LinkId {
    /// `l3`.
    pub fn text(self) -> (t: String)
        ensures
            t@ == id_text('l', self.0),
    {
        let mut out: Vec<char> = Vec::new();
        out.push('l');
        push_decimal(&mut out, self.0 as u128);
        string_of(&out)
    }
}

impl JointId {
    /// `j7`.
    pub fn text(self) -> (t: String)
        ensures
            t@ == id_text('j', self.0),
    {
        let mut out: Vec<char> = Vec::new();
        out.push('j');
        push_decimal(&mut out, self.0 as u128);
        string_of(&out)
    }
}

impl FrameId {
    /// `f2`.
    pub fn text(self) -> (t: String)
        ensures
            t@ == id_text('f', self.0),
    {
        let mut out: Vec<char> = Vec::new();
        out.push('f');
        push_decimal(&mut out, self.0 as u128);
        string_of(&out)
    }
}

impl Selection {
    /// `"link l3"` / `"joint j7"` / `"frame f2"` for the status bar and
    /// `debug_state()`.
    pub fn describe(self) -> (text: Option<String>)
        ensures
            match text {
                Some(t) => describe_text(self) == Some(t@),
                None => describe_text(self) is None,
            },
    {
        let mut out: Vec<char> = Vec::new();
        match self {
            Selection::Nothing => return None,
            Selection::Link(l) => {
                push_str(&mut out, "link ");
                out.push('l');
                push_decimal(&mut out, l.0 as u128);
            },
            Selection::Joint(j) => {
                push_str(&mut out, "joint ");
                out.push('j');
                push_decimal(&mut out, j.0 as u128);
            },
            Selection::Frame(f) => {
                push_str(&mut out, "frame ");
                out.push('f');
                push_decimal(&mut out, f.0 as u128);
            },
        }
        Some(string_of(&out))
    }
}

} // verus!
