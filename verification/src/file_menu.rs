//! New / Open / Save / Quit and the unsaved-changes confirm. Every route
//! that would drop the current document asks first when it is dirty; the
//! answer decides whether the pending action runs.

use vstd::prelude::*;
use crate::file_io::{extension_of, extension_text, file_name, is_document_extension, path_file_name, replaces_document, DOCUMENT_EXTENSION};
use crate::text::{chars_equal, chars_of, push_str, string_of};

verus! {

/// What the user asked for while the document was dirty, waiting on the
/// Save / Don't save / Cancel answer.
#[derive(Debug, Clone, PartialEq)]
pub enum PendingAction {
    New,
    /// `None`: the open dialog; `Some`: these files (a drop, the command
    /// line).
    Open(Option<Vec<String>>),
    Quit,
}

/// The dirty check's state: the action waiting on an answer, and whether
/// the app has agreed to close.
#[derive(Debug, Clone)]
pub struct Confirm {
    pub pending: Option<PendingAction>,
    pub quit_confirmed: bool,
}

/// `state` after `action` runs: running Quit is what agrees to close.
pub open spec fn after_run(state: Confirm, action: PendingAction) -> Confirm {
    Confirm {
        pending: state.pending,
        quit_confirmed: state.quit_confirmed || action is Quit,
    }
}

impl Confirm {
    /// Nothing pending, no close agreed.
    pub fn new() -> (c: Confirm)
        ensures
            c.pending is None,
            !c.quit_confirmed,
    {
        Confirm { pending: None, quit_confirmed: false }
    }

    /// Runs `action`: Quit agrees to close; the caller carries out the
    /// others.
    fn run(&mut self, action: PendingAction) -> (ran: PendingAction)
        ensures
            ran == action,
            *final(self) == after_run(*old(self), action),
    {
        if let PendingAction::Quit = action {
            self.quit_confirmed = true;
        }
        action
    }

    /// The user asked for `action`. With unsaved changes it waits for an
    /// answer and nothing runs; otherwise it runs now and is returned for
    /// the caller to carry out.
    pub fn request(&mut self, action: PendingAction, dirty: bool) -> (run: Option<PendingAction>)
        ensures
            dirty ==> run is None && final(self).pending == Some(action)
                && final(self).quit_confirmed == old(self).quit_confirmed,
            !dirty ==> run == Some(action) && *final(self) == after_run(*old(self), action),
    {
        if dirty {
            self.pending = Some(action);
            None
        } else {
            Some(self.run(action))
        }
    }

    /// The modal's "Save" answer, first half: the pending action is taken
    /// off, and the caller saves only when there was one.
    pub fn begin_save(&mut self) -> (taken: Option<PendingAction>)
        ensures
            taken == old(self).pending,
            final(self).pending is None,
            final(self).quit_confirmed == old(self).quit_confirmed,
    {
        self.pending.take()
    }

    /// The "Save" answer, second half: the action taken off runs only if
    /// the save succeeded. A failed save leaves nothing pending.
    pub fn finish_save(&mut self, action: PendingAction, saved: bool) -> (run: Option<PendingAction>)
        ensures
            saved ==> run == Some(action) && *final(self) == after_run(*old(self), action),
            !saved ==> run is None && *final(self) == *old(self),
    {
        if saved {
            Some(self.run(action))
        } else {
            None
        }
    }

    /// The modal's "Don't save" answer: the pending action runs.
    pub fn answer_discard(&mut self) -> (run: Option<PendingAction>)
        ensures
            run == old(self).pending,
            final(self).pending is None,
            final(self).quit_confirmed == (old(self).quit_confirmed || (old(self).pending matches Some(a) && a is Quit)),
    {
        match self.pending.take() {
            Some(action) => Some(self.run(action)),
            None => None,
        }
    }

    /// The modal's "Cancel" answer (also Escape): nothing runs.
    pub fn answer_cancel(&mut self)
        ensures
            final(self).pending is None,
            final(self).quit_confirmed == old(self).quit_confirmed,
    {
        self.pending = None;
    }

    /// The OS close button. Refused — the answer is `true`, cancel the
    /// close — while there are unsaved changes and no answer has agreed to
    /// close; then Quit waits for the modal. Once agreed, every close goes
    /// through.
    pub fn close_requested(&mut self, requested: bool, dirty: bool) -> (cancel: bool)
        ensures
            cancel == (!old(self).quit_confirmed && requested && dirty),
            cancel ==> final(self).pending == Some(PendingAction::Quit),
            !cancel ==> *final(self) == *old(self),
            final(self).quit_confirmed == old(self).quit_confirmed,
    {
        if self.quit_confirmed {
            return false;
        }
        if requested && dirty {
            self.pending = Some(PendingAction::Quit);
            return true;
        }
        false
    }
}

/// Running an action never touches what waits on the modal, and agrees to
/// close exactly when the action is Quit or closing was already agreed.
pub proof fn lemma_running_keeps_the_wait(state: Confirm, action: PendingAction)
    ensures
        after_run(state, action).pending == state.pending,
        after_run(state, action).quit_confirmed <==> (state.quit_confirmed || action is Quit),
{
}

/// What the OS window shows: `name.riggen* — riggen`.
pub open spec fn title_text(label: Seq<char>, dirty: bool) -> Seq<char> {
    label + (if dirty { "*"@ } else { Seq::empty() }) + " — riggen"@
}

/// `pendulum.riggen* — riggen`: the document's label, a `*` when there are
/// unsaved changes, and the app's name.
pub fn window_title(label: &str, dirty: bool) -> (title: String)
    ensures
        title@ == title_text(label@, dirty),
{
    let mut out: Vec<char> = Vec::new();
    push_str(&mut out, label);
    if dirty {
        push_str(&mut out, "*");
    } else {
        assert(out@ + Seq::<char>::empty() == out@);
    }
    push_str(&mut out, " — riggen");
    string_of(&out)
}

/// The document's label: its file's name, or `untitled`.
pub open spec fn label_text(file: Option<Seq<char>>) -> Seq<char> {
    match file {
        Some(path) => match path_file_name(path) {
            Some(name) => name,
            None => "untitled"@,
        },
        None => "untitled"@,
    }
}

/// `name.riggen` or `untitled`, for the status bar and the title.
pub fn document_label(file: Option<&str>) -> (label: String)
    ensures
        label@ == label_text(match file {
            Some(f) => Some(f@),
            None => None,
        }),
{
    let name = match file {
        Some(path) => file_name(path),
        None => None,
    };
    match name {
        Some(n) => n,
        None => {
            let mut out: Vec<char> = Vec::new();
            push_str(&mut out, "untitled");
            string_of(&out)
        },
    }
}

/// Whether opening `paths` would replace the document: one of them is a
/// document (a `.riggen`, a `.urdf` or an `.xml`). Meshes alone never ask;
/// they add to the document.
pub open spec fn opens_document_spec(paths: Seq<Seq<char>>) -> bool {
    exists|i: int| 0 <= i < paths.len() && is_document_extension(extension_text(#[trigger] paths[i]))
}

/// Whether opening `paths` goes through the dirty check.
pub fn opens_document(paths: &Vec<String>) -> (asks: bool)
    ensures
        asks == opens_document_spec(paths@.map_values(|p: String| p@)),
{
    let ghost all = paths@.map_values(|p: String| p@);
    let mut i: usize = 0;
    while i < paths.len()
        invariant
            i <= paths@.len(),
            all == paths@.map_values(|p: String| p@),
            forall|j: int| 0 <= j < i ==> !is_document_extension(extension_text(#[trigger] all[j])),
        decreases paths@.len() - i,
    {
        if replaces_document(paths[i].as_str()) {
            assert(is_document_extension(extension_text(all[i as int])));
            return true;
        }
        i = i + 1;
    }
    false
}

/// What std's `Path::with_extension` makes of `path` and `ext`.
pub uninterp spec fn path_with_extension(path: Seq<char>, ext: Seq<char>) -> Seq<char>;

/// `Path::new(path).with_extension(ext)`, as text. std panics when the
/// extension holds a path separator, so such an extension is not handed
/// over.
#[verifier::external_body]
fn with_extension(path: &str, ext: &str) -> (renamed: String)
    requires
        forall|i: int| 0 <= i < ext@.len() ==> ext@[i] != '/' && ext@[i] != '\\',
    ensures
        renamed@ == path_with_extension(path@, ext@),
{
    std::path::Path::new(path).with_extension(ext).to_string_lossy().into_owned()
}

/// Where Save writes: `path` itself when it already has the document's
/// extension, else `path` given that extension.
pub open spec fn save_path_text(path: Seq<char>) -> Seq<char> {
    if extension_text(path) == DOCUMENT_EXTENSION@ {
        path
    } else {
        path_with_extension(path, DOCUMENT_EXTENSION@)
    }
}

/// The path Save writes `path` to.
pub fn save_path(path: &str) -> (target: String)
    ensures
        target@ == save_path_text(path@),
{
    let ext = chars_of(extension_of(path).as_str());
    let doc = chars_of(DOCUMENT_EXTENSION);
    if chars_equal(&ext, &doc) {
        let chars = chars_of(path);
        string_of(&chars)
    } else {
        proof {
            reveal_strlit("riggen");
        }
        with_extension(path, DOCUMENT_EXTENSION)
    }
}

} // verus!
