//! Getting files into the app. A `.riggen`, a `.urdf` or an `.xml` replaces
//! the document; an STL or OBJ becomes a new link. There are two ways in:
//! paths read off the disk, and the bytes of one drop gesture, which a
//! browser hands over as a flat set of files resolved by file name.

use vstd::prelude::*;
use crate::text::{chars_of, chars_equal, decimal, push_chars, push_decimal, push_str, string_of};

verus! {

/// The final component of a path as std's `Path::file_name` reads it:
/// `None` when the path ends in `..` or has no component.
pub uninterp spec fn path_file_name(path: Seq<char>) -> Option<Seq<char>>;

/// `Path::file_name`, as text: the final component of `path`, `None` when
/// the path terminates in `..` or has none. A path held as a `String` is
/// valid UTF-8, so the component converts back to text unchanged.
#[verifier::external_body]
fn file_name_of(path: &str) -> (name: Option<String>)
    ensures
        match name {
            Some(n) => path_file_name(path@) == Some(n@),
            None => path_file_name(path@) is None,
        },
{
    std::path::Path::new(path).file_name().map(|n| n.to_string_lossy().into_owned())
}

/// The text of a file's name, as the library reads it.
pub fn file_name(path: &str) -> (name: Option<String>)
    ensures
        match name {
            Some(n) => path_file_name(path@) == Some(n@),
            None => path_file_name(path@) is None,
        },
{
    file_name_of(path)
}

/// Where the last `.` of `name` is, if it has one.
pub open spec fn last_dot(name: Seq<char>) -> Option<int> {
    if exists|i: int| 0 <= i < name.len() && name[i] == '.' {
        Some(choose|i: int| 0 <= i < name.len() && name[i] == '.' && forall|j: int| i < j < name.len() ==> name[j] != '.')
    } else {
        None
    }
}

/// `Path::extension`: the part of the file name after its final `.`;
/// nothing when there is no file name, no `.`, or only a leading one.
pub open spec fn path_extension(path: Seq<char>) -> Option<Seq<char>> {
    match path_file_name(path) {
        None => None,
        Some(name) => match last_dot(name) {
            None => None,
            Some(k) => if k == 0 { None } else { Some(name.skip(k + 1)) },
        },
    }
}

/// `c` in lower case, for an ASCII letter; unchanged otherwise.
pub open spec fn ascii_lower(c: char) -> char {
    if 'A' <= c && c <= 'Z' { ((c as u32) + 32) as char } else { c }
}

/// A path's extension in ASCII lower case, empty when it has none.
pub open spec fn extension_text(path: Seq<char>) -> Seq<char> {
    match path_extension(path) {
        Some(ext) => ext.map_values(|c: char| ascii_lower(c)),
        None => Seq::empty(),
    }
}

/// The extensions that open as a new document: the document's own, a
/// URDF, and an MJCF `.xml`.
pub open spec fn is_document_extension(ext: Seq<char>) -> bool {
    ext == DOCUMENT_EXTENSION@ || ext == URDF_EXTENSION@ || ext == MJCF_EXTENSION@
}

/// The document's own extension.
pub const DOCUMENT_EXTENSION: &'static str = "riggen";
/// A URDF opens as a new document.
pub const URDF_EXTENSION: &'static str = "urdf";
/// An MJCF opens as a new document; `.xml` is what MuJoCo ships.
pub const MJCF_EXTENSION: &'static str = "xml";
/// The directory dropped files are given, so that every path in the
/// document is absolute as it is on disk. No such directory exists.
pub const DROPPED_ROOT: &'static str = "/dropped";

fn lower(c: char) -> (l: char)
    ensures
        l == ascii_lower(c),
{
    if 'A' <= c && c <= 'Z' {
        let code: u8 = (c as u32 + 32) as u8;
        code as char
    } else {
        c
    }
}

/// The extension of `path`, in ASCII lower case, empty when it has none.
pub fn extension_of(path: &str) -> (ext: String)
    ensures
        ext@ == extension_text(path@),
{
    let name = match file_name(path) {
        None => return string_of(&Vec::new()),
        Some(name) => name,
    };
    let chars = chars_of(name.as_str());
    let mut k = chars.len();
    while k > 0 && chars[k - 1] != '.'
        invariant
            k <= chars@.len(),
            forall|j: int| k <= j < chars@.len() ==> chars@[j] != '.',
        decreases k,
    {
        k = k - 1;
    }
    if k == 0 {
        assert(!exists|i: int| 0 <= i < chars@.len() && chars@[i] == '.');
        return string_of(&Vec::new());
    }
    let dot = k - 1;
    assert(chars@[dot as int] == '.');
    proof {
        let c = choose|i: int| 0 <= i < chars@.len() && chars@[i] == '.' && forall|j: int| i < j < chars@.len() ==> chars@[j] != '.';
        assert(c == dot) by {
            if c < dot {
                assert(chars@[dot as int] != '.');
            } else if c > dot {
                assert(chars@[c] != '.');
            }
        }
    }
    if dot == 0 {
        return string_of(&Vec::new());
    }
    let mut ext: Vec<char> = Vec::new();
    let mut i = dot + 1;
    while i < chars.len()
        invariant
            dot + 1 <= i <= chars@.len(),
            ext@ == chars@.subrange(dot + 1, i as int).map_values(|c: char| ascii_lower(c)),
        decreases chars@.len() - i,
    {
        ext.push(lower(chars[i]));
        i = i + 1;
        assert(chars@.subrange(dot + 1, i as int) == chars@.subrange(dot + 1, i - 1).push(chars@[i - 1]));
    }
    assert(chars@.subrange(dot + 1, chars@.len() as int) == chars@.skip(dot + 1));
    string_of(&ext)
}

/// Whether opening `path` replaces the document (a `.riggen`, a `.urdf` or
/// an `.xml`) rather than adding a link to it.
pub fn replaces_document(path: &str) -> (replaces: bool)
    ensures
        replaces == is_document_extension(extension_text(path@)),
{
    let ext = chars_of(extension_of(path).as_str());
    let doc = chars_of(DOCUMENT_EXTENSION);
    let urdf = chars_of(URDF_EXTENSION);
    let mjcf = chars_of(MJCF_EXTENSION);
    chars_equal(&ext, &doc) || chars_equal(&ext, &urdf) || chars_equal(&ext, &mjcf)
}

/// The status-bar line for a dropped mesh that is not closed: its file
/// name (the whole path when it has none), then why.
pub open spec fn open_mesh_text(path: Seq<char>) -> Seq<char> {
    (match path_file_name(path) {
        Some(name) => name,
        None => path,
    }) + ": mesh is not closed, so its mass properties cannot be computed"@
}

/// The status-bar line for a dropped mesh that is not closed.
pub fn open_mesh_warning(path: &str) -> (text: String)
    ensures
        text@ == open_mesh_text(path@),
{
    let mut out: Vec<char> = Vec::new();
    match file_name(path) {
        Some(name) => push_str(&mut out, name.as_str()),
        None => push_str(&mut out, path),
    }
    push_str(&mut out, ": mesh is not closed, so its mass properties cannot be computed");
    string_of(&out)
}

/// The status-bar line after a batch of files: the first error if there
/// was one (with the count when more than one file was asked for), else
/// the warning handed in (the batch's first), else how many files opened.
pub open spec fn report_text(opened: nat, asked: nat, first_error: Option<Seq<char>>, warning: Option<Seq<char>>) -> Seq<char> {
    match (first_error, warning) {
        (Some(err), _) => if asked > 1 {
            "opened "@ + decimal(opened) + " of "@ + decimal(asked) + " files; first error: "@ + err
        } else {
            err
        },
        (None, Some(w)) => w,
        (None, None) => "opened "@ + decimal(opened) + " file"@ + if opened == 1 { Seq::empty() } else { "s"@ },
    }
}

/// The text of an optional `String`.
pub open spec fn opt_text(s: Option<String>) -> Option<Seq<char>> {
    match s {
        Some(t) => Some(t@),
        None => None,
    }
}

/// The status-bar line after a batch of files.
pub fn report(opened: usize, asked: usize, first_error: Option<String>, warning: Option<String>) -> (line: Option<String>)
    ensures
        line matches Some(l) && l@ == report_text(opened as nat, asked as nat, opt_text(first_error), opt_text(warning)),
{
    let mut out: Vec<char> = Vec::new();
    match (first_error, warning) {
        (Some(err), _) => {
            if asked > 1 {
                push_str(&mut out, "opened ");
                push_decimal(&mut out, opened as u128);
                push_str(&mut out, " of ");
                push_decimal(&mut out, asked as u128);
                push_str(&mut out, " files; first error: ");
                push_str(&mut out, err.as_str());
            } else {
                return Some(err);
            }
        },
        (None, Some(w)) => return Some(w),
        (None, None) => {
            push_str(&mut out, "opened ");
            push_decimal(&mut out, opened as u128);
            push_str(&mut out, " file");
            if opened != 1 {
                push_str(&mut out, "s");
            } else {
                assert(out@ + Seq::<char>::empty() == out@);
            }
        },
    }
    Some(string_of(&out))
}

/// Why a file could not be read.
#[derive(Debug, Clone, PartialEq, Eq)]
pub enum ReadError {
    /// There is no such file; the message says which name was missing.
    NotFound(String),
}

/// The files of a drop gesture, resolved by **file name**: `meshes/base.stl`,
/// `../base.stl` and `base.stl` all mean the file called `base.stl` that
/// came with this drop. A reference the set does not carry is missing.
#[derive(Debug, Clone)]
pub struct DroppedSet {
    entries: Vec<(String, Vec<u8>)>,
}

/// The names of `entries`, in order.
pub open spec fn entry_names(entries: Seq<(String, Vec<u8>)>) -> Seq<Seq<char>> {
    entries.map_values(|e: (String, Vec<u8>)| e.0@)
}

/// The bytes each name of `entries` stands for.
pub open spec fn entry_map(entries: Seq<(String, Vec<u8>)>) -> Map<Seq<char>, Seq<u8>>
    decreases entries.len(),
{
    if entries.len() == 0 {
        Map::empty()
    } else {
        entry_map(entries.drop_last()).insert(entries.last().0@, entries.last().1@)
    }
}

/// `set` with a gesture's files added: each one under its file name, a
/// later file with a name already used replacing it, a path with no file
/// name left out.
pub open spec fn with_files(set: Map<Seq<char>, Seq<u8>>, files: Seq<(Seq<char>, Seq<u8>)>) -> Map<Seq<char>, Seq<u8>>
    decreases files.len(),
{
    if files.len() == 0 {
        set
    } else {
        let before = with_files(set, files.drop_last());
        match path_file_name(files.last().0) {
            Some(name) => before.insert(name, files.last().1),
            None => before,
        }
    }
}

/// The paths and bytes of a gesture, as text and bytes.
pub open spec fn file_texts(files: Seq<(String, Vec<u8>)>) -> Seq<(Seq<char>, Seq<u8>)> {
    files.map_values(|f: (String, Vec<u8>)| (f.0@, f.1@))
}

impl View for DroppedSet {
    type V = Map<Seq<char>, Seq<u8>>;

    closed spec fn view(&self) -> Map<Seq<char>, Seq<u8>> {
        entry_map(self.entries@)
    }
}

impl DroppedSet {
    /// No name is held twice.
    pub closed spec fn wf(&self) -> bool {
        entry_names(self.entries@).no_duplicates()
    }

    /// An empty set.
    pub fn empty() -> (set: DroppedSet)
        ensures
            set.wf(),
            set@ == Map::<Seq<char>, Seq<u8>>::empty(),
    {
        let set = DroppedSet { entries: Vec::new() };
        assert(entry_names(set.entries@) =~= Seq::<Seq<char>>::empty());
        set
    }

    /// The gesture's files, keyed by name. A later file with a name an
    /// earlier one already used wins: that is what a second drop of a
    /// re-exported mesh means.
    pub fn new(files: Vec<(String, Vec<u8>)>) -> (set: DroppedSet)
        ensures
            set.wf(),
            set@ == with_files(Map::empty(), file_texts(files@)),
    {
        let mut set = DroppedSet::empty();
        set.extend(files);
        set
    }

    /// Adds a gesture's files to the set, each under its file name.
    pub fn extend(&mut self, files: Vec<(String, Vec<u8>)>)
        requires
            old(self).wf(),
        ensures
            final(self).wf(),
            final(self)@ == with_files(old(self)@, file_texts(files@)),
    {
        let ghost start = self@;
        let mut i: usize = 0;
        while i < files.len()
            invariant
                i <= files@.len(),
                self.wf(),
                self@ == with_files(start, file_texts(files@).take(i as int)),
            decreases files@.len() - i,
        {
            let (path, bytes) = &files[i];
            match file_name(path.as_str()) {
                Some(name) => self.insert(name, bytes.clone()),
                None => {},
            }
            assert(file_texts(files@).take(i + 1).drop_last() == file_texts(files@).take(i as int));
            i = i + 1;
        }
        assert(file_texts(files@).take(files@.len() as int) == file_texts(files@));
    }

    /// Where `name` is held, if it is.
    fn position(&self, name: &String) -> (at: Option<usize>)
        requires
            self.wf(),
        ensures
            match at {
                Some(i) => i < self.entries@.len() && self.entries@[i as int].0@ == name@,
                None => !entry_names(self.entries@).contains(name@),
            },
    {
        let mut i: usize = 0;
        while i < self.entries.len()
            invariant
                i <= self.entries@.len(),
                forall|j: int| 0 <= j < i ==> self.entries@[j].0@ != name@,
            decreases self.entries@.len() - i,
        {
            if self.entries[i].0 == *name {
                return Some(i);
            }
            i = i + 1;
        }
        assert(!entry_names(self.entries@).contains(name@)) by {
            if entry_names(self.entries@).contains(name@) {
                let j = choose|j: int| 0 <= j < entry_names(self.entries@).len() && entry_names(self.entries@)[j] == name@;
                assert(self.entries@[j].0@ == name@);
            }
        }
        None
    }

    /// Holds `bytes` under `name`, replacing what was there.
    fn insert(&mut self, name: String, bytes: Vec<u8>)
        requires
            old(self).wf(),
        ensures
            final(self).wf(),
            final(self)@ == old(self)@.insert(name@, bytes@),
    {
        let ghost before = self.entries@;
        match self.position(&name) {
            Some(i) => {
                self.entries.set(i, (name, bytes));
                proof { lemma_replace_entry(before, i as int, self.entries@); }
            },
            None => {
                self.entries.push((name, bytes));
                proof {
                    assert(self.entries@.drop_last() == before);
                    assert(entry_names(self.entries@) == entry_names(before).push(self.entries@.last().0@));
                    assert(entry_names(self.entries@).no_duplicates()) by {
                        let names = entry_names(self.entries@);
                        assert forall|a: int, b: int| 0 <= a < names.len() && 0 <= b < names.len() && a != b implies names[a] != names[b] by {
                            if a == names.len() - 1 {
                                assert(entry_names(before)[b] == names[b]);
                            } else if b == names.len() - 1 {
                                assert(entry_names(before)[a] == names[a]);
                            }
                        }
                    }
                }
            },
        }
    }

    /// The bytes held under `path`'s file name; the reason in words when
    /// there are none.
    pub fn read(&self, path: &str) -> (bytes: Result<Vec<u8>, ReadError>)
        requires
            self.wf(),
        ensures
            match bytes {
                Ok(b) => path_file_name(path@) matches Some(name) && self@.contains_key(name)
                    && self@[name] == b@,
                Err(ReadError::NotFound(message)) => !(path_file_name(path@) matches Some(name) && self@.contains_key(name))
                    && message@ == (match path_file_name(path@) {
                        Some(name) => name,
                        None => Seq::empty(),
                    }) + " was not among the dropped files"@,
            },
    {
        let found = match file_name(path) {
            Some(name) => match self.position(&name) {
                Some(i) => {
                    proof { lemma_entry_lookup(self.entries@, i as int); }
                    return Ok(self.entries[i].1.clone());
                },
                None => {
                    proof { lemma_entry_absent(self.entries@, name@); }
                    Some(name)
                },
            },
            None => None,
        };
        let mut out: Vec<char> = Vec::new();
        match found {
            Some(name) => push_str(&mut out, name.as_str()),
            None => {},
        }
        push_str(&mut out, " was not among the dropped files");
        Err(ReadError::NotFound(string_of(&out)))
    }

    /// Whether the set holds a file by `path`'s file name.
    pub fn contains(&self, path: &str) -> (found: bool)
        requires
            self.wf(),
        ensures
            found == (path_file_name(path@) matches Some(name) && self@.contains_key(name)),
    {
        match file_name(path) {
            Some(name) => match self.position(&name) {
                Some(i) => {
                    proof { lemma_entry_lookup(self.entries@, i as int); }
                    true
                },
                None => {
                    proof { lemma_entry_absent(self.entries@, name@); }
                    false
                },
            },
            None => false,
        }
    }

    /// How many files the set holds.
    pub fn len(&self) -> (n: usize)
        requires
            self.wf(),
        ensures
            n == self@.len(),
    {
        proof { lemma_entry_map_len(self.entries@); }
        self.entries.len()
    }

    /// Where a file of this set lives, as a path: `/dropped/<name>`.
    pub fn path_of(name: &str) -> (path: String)
        ensures
            path@ == path_joined(DROPPED_ROOT@, match path_file_name(name@) {
                Some(n) => n,
                None => name@,
            }),
    {
        match file_name(name) {
            Some(n) => join_path(DROPPED_ROOT, n.as_str()),
            None => join_path(DROPPED_ROOT, name),
        }
    }
}

/// What std's `Path::join` makes of `base` and `part`: `part` alone when
/// it is absolute, else `part` appended to `base` after a separator.
pub uninterp spec fn path_joined(base: Seq<char>, part: Seq<char>) -> Seq<char>;

/// `Path::new(base).join(part)`, as text.
#[verifier::external_body]
fn join_path(base: &str, part: &str) -> (joined: String)
    ensures
        joined@ == path_joined(base@, part@),
{
    std::path::Path::new(base).join(part).to_string_lossy().into_owned()
}

/// Entry `i` is what the map holds under its name.
proof fn lemma_entry_lookup(entries: Seq<(String, Vec<u8>)>, i: int)
    requires
        0 <= i < entries.len(),
        entry_names(entries).no_duplicates(),
    ensures
        entry_map(entries).contains_key(entries[i].0@),
        entry_map(entries)[entries[i].0@] == entries[i].1@,
    decreases entries.len(),
{
    let last = entries.len() - 1;
    assert(entry_names(entries.drop_last()) == entry_names(entries).drop_last());
    if i < last {
        lemma_entry_lookup(entries.drop_last(), i);
        assert(entry_names(entries)[i] != entry_names(entries)[last]);
    }
}

/// A name no entry has is not in the map.
proof fn lemma_entry_absent(entries: Seq<(String, Vec<u8>)>, name: Seq<char>)
    requires
        !entry_names(entries).contains(name),
    ensures
        !entry_map(entries).contains_key(name),
    decreases entries.len(),
{
    if entries.len() > 0 {
        assert(entry_names(entries.drop_last()) == entry_names(entries).drop_last());
        assert(entry_names(entries)[entries.len() - 1] == entries.last().0@);
        assert(!entry_names(entries.drop_last()).contains(name)) by {
            if entry_names(entries.drop_last()).contains(name) {
                let j = choose|j: int| 0 <= j < entry_names(entries.drop_last()).len() && entry_names(entries.drop_last())[j] == name;
                assert(entry_names(entries)[j] == name);
            }
        }
        lemma_entry_absent(entries.drop_last(), name);
    }
}

/// With no name twice, the map has one key per entry.
proof fn lemma_entry_map_len(entries: Seq<(String, Vec<u8>)>)
    requires
        entry_names(entries).no_duplicates(),
    ensures
        entry_map(entries).len() == entries.len(),
        entry_map(entries).dom().finite(),
    decreases entries.len(),
{
    if entries.len() > 0 {
        let rest = entries.drop_last();
        assert(entry_names(rest) == entry_names(entries).drop_last());
        lemma_entry_map_len(rest);
        assert(!entry_names(rest).contains(entries.last().0@)) by {
            if entry_names(rest).contains(entries.last().0@) {
                let j = choose|j: int| 0 <= j < entry_names(rest).len() && entry_names(rest)[j] == entries.last().0@;
                assert(entry_names(entries)[j] == entry_names(entries)[entries.len() - 1]);
            }
        }
        lemma_entry_absent(rest, entries.last().0@);
    }
}

/// Replacing entry `i` by one with the same name re-maps that name and
/// keeps every name once.
proof fn lemma_replace_entry(before: Seq<(String, Vec<u8>)>, i: int, after: Seq<(String, Vec<u8>)>)
    requires
        0 <= i < before.len(),
        entry_names(before).no_duplicates(),
        after.len() == before.len(),
        after[i].0@ == before[i].0@,
        forall|j: int| 0 <= j < before.len() && j != i ==> after[j] == before[j],
    ensures
        entry_names(after).no_duplicates(),
        entry_names(after) == entry_names(before),
        entry_map(after) == entry_map(before).insert(after[i].0@, after[i].1@),
    decreases before.len(),
{
    assert(entry_names(after) =~= entry_names(before));
    let last = before.len() - 1;
    assert(entry_names(before.drop_last()) == entry_names(before).drop_last());
    assert(entry_names(after.drop_last()) == entry_names(after).drop_last());
    if i == last {
        assert(after.drop_last() =~= before.drop_last());
        assert(!entry_names(before.drop_last()).contains(before[i].0@)) by {
            if entry_names(before.drop_last()).contains(before[i].0@) {
                let j = choose|j: int| 0 <= j < entry_names(before.drop_last()).len() && entry_names(before.drop_last())[j] == before[i].0@;
                assert(entry_names(before)[j] == entry_names(before)[last]);
            }
        }
        lemma_entry_absent(before.drop_last(), before[i].0@);
        assert(entry_map(after) =~= entry_map(before).insert(after[i].0@, after[i].1@));
    } else {
        lemma_replace_entry(before.drop_last(), i, after.drop_last());
        assert(after.last() == before.last());
        assert(entry_names(before)[i] != entry_names(before)[last]);
        assert(entry_map(after) =~= entry_map(before).insert(after[i].0@, after[i].1@));
    }
}

/// Where the app reads bytes from: the filesystem on the desktop, what was
/// dropped on it in the browser.
#[derive(Debug, Clone)]
pub enum Files {
    Disk,
    Dropped(DroppedSet),
}

/// Puts a gesture's files into the app's source. A gesture that carries a
/// document replaces the set: that document's meshes are the ones it came
/// with. A gesture of meshes alone adds to a set already there.
pub fn install_dropped(files: Files, dropped: Vec<(String, Vec<u8>)>, replace: bool) -> (next: Files)
    requires
        files matches Files::Dropped(set) ==> set.wf(),
    ensures
        next matches Files::Dropped(set) && set.wf() && set@ == with_files(
            match files {
                Files::Dropped(old_set) if !replace => old_set@,
                _ => Map::empty(),
            },
            file_texts(dropped@),
        ),
{
    match files {
        Files::Dropped(mut set) if !replace => {
            set.extend(dropped);
            Files::Dropped(set)
        },
        _ => Files::Dropped(DroppedSet::new(dropped)),
    }
}

/// Which of a gesture's paths to open: its documents when it carries any
/// (the meshes beside them are theirs, not more links), else every path.
pub open spec fn to_open(paths: Seq<Seq<char>>) -> Seq<Seq<char>> {
    let documents = paths.filter(|p: Seq<char>| is_document_extension(extension_text(p)));
    if documents.len() > 0 { documents } else { paths }
}

/// The plan for one drop gesture: whether its set replaces the app's, and
/// which paths to open, in order.
pub fn plan_dropped(paths: &Vec<String>) -> (plan: (bool, Vec<String>))
    ensures
        plan.0 == (paths@.map_values(|p: String| p@).filter(
            |p: Seq<char>| is_document_extension(extension_text(p)),
        ).len() > 0),
        plan.1@.map_values(|p: String| p@) == to_open(paths@.map_values(|p: String| p@)),
{
    let ghost all = paths@.map_values(|p: String| p@);
    let ghost doc = |p: Seq<char>| is_document_extension(extension_text(p));
    let mut documents: Vec<String> = Vec::new();
    let mut i: usize = 0;
    while i < paths.len()
        invariant
            i <= paths@.len(),
            all == paths@.map_values(|p: String| p@),
            doc == |p: Seq<char>| is_document_extension(extension_text(p)),
            documents@.map_values(|p: String| p@) == all.take(i as int).filter(doc),
        decreases paths@.len() - i,
    {
        assert(all.take(i + 1).drop_last() == all.take(i as int));
        reveal_with_fuel(Seq::filter, 1);
        let ghost before = documents@;
        if replaces_document(paths[i].as_str()) {
            documents.push(paths[i].clone());
            assert(documents@.map_values(|p: String| p@) == before.map_values(|p: String| p@).push(all[i as int]));
        }
        i = i + 1;
    }
    assert(all.take(paths@.len() as int) == all);
    if documents.len() > 0 {
        (true, documents)
    } else {
        (false, paths.clone())
    }
}

/// The status line an import leaves: `imported NAME`, then the first thing
/// the import dropped and how many more there were.
pub open spec fn import_status_text(name: Seq<char>, warnings: Seq<Seq<char>>) -> Seq<char> {
    if warnings.len() == 0 {
        "imported "@ + name
    } else if warnings.len() == 1 {
        "imported "@ + name + ": "@ + warnings[0]
    } else {
        "imported "@ + name + ": "@ + warnings[0] + " (+"@ + decimal((warnings.len() - 1) as nat) + " more warnings)"@
    }
}

/// What the status bar says after importing the file called `name` with
/// these warnings.
pub fn import_status(name: &str, warnings: &Vec<String>) -> (line: String)
    ensures
        line@ == import_status_text(name@, warnings@.map_values(|w: String| w@)),
{
    let mut out: Vec<char> = Vec::new();
    push_str(&mut out, "imported ");
    push_str(&mut out, name);
    if warnings.len() >= 1 {
        push_str(&mut out, ": ");
        push_str(&mut out, warnings[0].as_str());
        if warnings.len() > 1 {
            push_str(&mut out, " (+");
            push_decimal(&mut out, (warnings.len() - 1) as u128);
            push_str(&mut out, " more warnings)");
        }
    }
    string_of(&out)
}

/// The status line a document that opened with warnings leaves: the first,
/// and how many more there were.
pub open spec fn warnings_status_text(warnings: Seq<Seq<char>>) -> Option<Seq<char>> {
    if warnings.len() == 0 {
        None
    } else if warnings.len() == 1 {
        Some(warnings[0])
    } else {
        Some(warnings[0] + " (+"@ + decimal((warnings.len() - 1) as nat) + " more warnings)"@)
    }
}

/// What the status bar says about a document that opened with these
/// warnings, if anything.
pub fn warnings_status(warnings: &Vec<String>) -> (line: Option<String>)
    ensures
        match line {
            Some(l) => warnings_status_text(warnings@.map_values(|w: String| w@)) == Some(l@),
            None => warnings_status_text(warnings@.map_values(|w: String| w@)) is None,
        },
{
    if warnings.len() == 0 {
        return None;
    }
    let mut out: Vec<char> = Vec::new();
    push_str(&mut out, warnings[0].as_str());
    if warnings.len() > 1 {
        push_str(&mut out, " (+");
        push_decimal(&mut out, (warnings.len() - 1) as u128);
        push_str(&mut out, " more warnings)");
    }
    Some(string_of(&out))
}

} // verus!
