//! An export directory as one download. A browser can only hand the user
//! one file, so the directory becomes a zip whose entries are stored, not
//! compressed, and named by their paths relative to the export directory.

use vstd::prelude::*;
use crate::file_io::{file_name, path_file_name};
use crate::text::joined;
use vstd::utf8::encode_utf8;

verus! {

/// How an entry's bytes are kept in the archive.
#[derive(Debug, Clone, Copy, PartialEq, Eq, Structural)]
pub enum Compression {
    /// As they are, not compressed (zip's `CompressionMethod::STORE`).
    Stored,
}

/// An entry of an archive: its name, how its bytes are kept, its MS-DOS
/// timestamp (date part and time part) and the bytes written into it.
pub struct ZipEntry {
    pub name: Seq<char>,
    pub compression: Compression,
    pub date: u16,
    pub time: u16,
    pub data: Seq<u8>,
}

/// zip's default timestamp, 1980-01-01 00:00:00, as an MS-DOS date part
/// (day 1, month 1, year 0 counted from 1980)...
pub const ZIP_EPOCH_DATE: u16 = 33;
/// ...and time part.
pub const ZIP_EPOCH_TIME: u16 = 0;

/// The largest size a zip without its 64-bit extensions records:
/// `u32::MAX` bytes.
pub const ZIP32_LIMIT: u64 = 4294967295;

/// The longest entry name, in UTF-8 bytes, that a zip header can record.
pub const MAX_ENTRY_NAME_BYTES: usize = 65535;

/// A zip archive being written into memory: zip's `ZipWriter` over a
/// `Cursor<Vec<u8>>`, kept in a private field. What it holds is read
/// through `archive_entries`, and it changes only through the methods
/// below.
#[verifier::external_body]
pub struct Archive {
    writer: zip::ZipWriter<std::io::Cursor<Vec<u8>>>,
}

/// The entries of an archive every step of which zip accepted, in the
/// order they were started; `None` for an archive that a refused step left
/// in some other state.
pub uninterp spec fn archive_entries(archive: Archive) -> Option<Seq<ZipEntry>>;

/// The bytes zip's `ZipWriter::finish` writes for an archive that holds
/// `entries` and nothing else.
pub uninterp spec fn finished_archive(entries: Seq<ZipEntry>) -> Seq<u8>;

/// The names of `entries`, in order.
pub open spec fn entry_names_of(entries: Seq<ZipEntry>) -> Seq<Seq<char>> {
    entries.map_values(|e: ZipEntry| e.name)
}

/// What an archive of `entries` takes before its central directory: a
/// 30-byte local header, the name (in UTF-8) and the bytes, for each.
pub open spec fn archive_size(entries: Seq<ZipEntry>) -> nat
    decreases entries.len(),
{
    if entries.len() == 0 {
        0
    } else {
        archive_size(entries.drop_last()) + 30 + encode_utf8(entries.last().name).len() + entries.last().data.len()
    }
}

impl Archive {
    /// `ZipWriter::new` over an empty `Cursor<Vec<u8>>`: no entries yet.
    #[verifier::external_body]
    fn new() -> (archive: Archive)
        ensures
            archive_entries(archive) == Some(Seq::<ZipEntry>::empty()),
    {
        Archive { writer: zip::ZipWriter::new(std::io::Cursor::new(Vec::new())) }
    }

    /// `ZipWriter::start_file` for an entry named `name`, with
    /// `SimpleFileOptions` set to `compression` and the timestamp `date`,
    /// `time` (zip's `DateTime::try_from_msdos`, which refuses an invalid
    /// one before the writer is touched). When zip accepts it, a new empty
    /// entry follows the others. A name the archive already holds is
    /// always refused (zip's "Duplicate filename"). A new name at zip's
    /// default timestamp is accepted while the archive so far takes less
    /// than `ZIP32_LIMIT` bytes: nothing else in the writer can fail for a
    /// stored entry in memory. zip records the name's length in 16 bits
    /// and panics on a longer one, so such a name is not handed over.
    #[verifier::external_body]
    fn start_entry(&mut self, name: &str, compression: Compression, date: u16, time: u16) -> (started: bool)
        requires
            encode_utf8(name@).len() <= MAX_ENTRY_NAME_BYTES,
        ensures
            archive_entries(*old(self)) matches Some(before) ==> {
                let entry = ZipEntry { name: name@, compression, date, time, data: Seq::empty() };
                &&& started ==> archive_entries(*final(self)) == Some(before.push(entry))
                &&& entry_names_of(before).contains(name@) ==> !started
                &&& !entry_names_of(before).contains(name@) && date == ZIP_EPOCH_DATE
                    && time == ZIP_EPOCH_TIME && archive_size(before) < ZIP32_LIMIT ==> started
            },
    {
        let method = match compression {
            Compression::Stored => zip::CompressionMethod::STORE,
        };
        let stamp = match zip::DateTime::try_from_msdos(date, time) {
            Ok(stamp) => stamp,
            Err(_) => return false,
        };
        let options = zip::write::SimpleFileOptions::default()
            .compression_method(method)
            .last_modified_time(stamp);
        self.writer.start_file(name, options).is_ok()
    }

    /// `Write::write_all` on the writer: `bytes` go on the end of the entry
    /// started last. std's `write_all` hands an empty `bytes` nowhere and
    /// succeeds, leaving the archive as it was. zip refuses to let an entry
    /// grow past `ZIP32_LIMIT` bytes (its "large file" option is not set);
    /// below that, writing into an entry of an archive every step of which
    /// was accepted succeeds.
    #[verifier::external_body]
    fn write(&mut self, bytes: &[u8]) -> (written: bool)
        ensures
            bytes@.len() == 0 ==> written && *final(self) == *old(self),
            archive_entries(*old(self)) matches Some(before) ==> {
                &&& written && before.len() > 0 ==> archive_entries(*final(self)) == Some(
                    before.update(
                        before.len() - 1,
                        ZipEntry { data: before.last().data + bytes@, ..before.last() },
                    ),
                )
                &&& before.len() > 0 && before.last().data.len() + bytes@.len() <= ZIP32_LIMIT ==> written
            },
    {
        std::io::Write::write_all(&mut self.writer, bytes).is_ok()
    }

    /// `ZipWriter::finish`, then the cursor's vector: the whole archive.
    /// For an archive every step of which zip accepted, finishing succeeds
    /// and gives the bytes of those entries. `None` when zip fails to
    /// finish it.
    #[verifier::external_body]
    fn finish(self) -> (bytes: Option<Vec<u8>>)
        ensures
            archive_entries(self) is Some ==> bytes is Some,
            bytes matches Some(b) ==> (archive_entries(self) is Some ==> b@ == finished_archive(
                archive_entries(self)->0,
            )),
    {
        self.writer.finish().ok().map(|cursor| cursor.into_inner())
    }
}

/// The final components of a path relative to a root, as std's
/// `Path::strip_prefix` reads them: `None` when `root` is not a
/// component-wise prefix of `path`.
pub uninterp spec fn path_stripped(path: Seq<char>, root: Seq<char>) -> Option<Seq<char>>;

/// `Path::strip_prefix`, as text.
#[verifier::external_body]
fn strip_root(path: &str, root: &str) -> (rest: Option<String>)
    ensures
        match rest {
            Some(r) => path_stripped(path@, root@) == Some(r@),
            None => path_stripped(path@, root@) is None,
        },
{
    std::path::Path::new(path).strip_prefix(root).ok().map(|p| p.to_string_lossy().into_owned())
}

/// The components of a path, each as text, as std's `Path::components`
/// yields them.
pub uninterp spec fn path_parts(path: Seq<char>) -> Seq<Seq<char>>;

/// `Path::components`, each component as text.
#[verifier::external_body]
fn parts_of(path: &str) -> (parts: Vec<String>)
    ensures
        parts@.map_values(|p: String| p@) == path_parts(path@),
{
    std::path::Path::new(path).components().map(|c| c.as_os_str().to_string_lossy().into_owned()).collect()
}

/// What an entry of the archive is called: the path relative to `root`,
/// or, for a path outside `root`, its file name (the path itself when it
/// has none), with `/` between the components whatever the host's
/// separator is.
pub open spec fn entry_name(path: Seq<char>, root: Seq<char>) -> Seq<char> {
    let base = match path_stripped(path, root) {
        Some(rest) => rest,
        None => match path_file_name(path) {
            Some(name) => name,
            None => path,
        },
    };
    joined(path_parts(base), seq!['/'])
}

/// The entries an archive of `files` under `root` holds, in order.
pub open spec fn zip_entries(files: Seq<(String, Vec<u8>)>, root: Seq<char>) -> Seq<ZipEntry> {
    files.map_values(|f: (String, Vec<u8>)| ZipEntry {
        name: entry_name(f.0@, root),
        compression: Compression::Stored,
        date: ZIP_EPOCH_DATE,
        time: ZIP_EPOCH_TIME,
        data: f.1@,
    })
}

/// Whether zip takes `entries` without its 64-bit extensions: no name
/// twice, every name within what a header records, and the whole within
/// `ZIP32_LIMIT` bytes before the central directory.
pub open spec fn fits_zip32(entries: Seq<ZipEntry>) -> bool {
    &&& entry_names_of(entries).no_duplicates()
    &&& forall|k: int| 0 <= k < entries.len() ==> encode_utf8(#[trigger] entries[k].name).len() <= MAX_ENTRY_NAME_BYTES
    &&& archive_size(entries) <= ZIP32_LIMIT
}

/// A longer archive takes at least as many bytes as its start.
proof fn lemma_archive_size_grows(entries: Seq<ZipEntry>, i: int)
    requires
        0 <= i <= entries.len(),
    ensures
        archive_size(entries.take(i)) <= archive_size(entries),
    decreases entries.len() - i,
{
    if i < entries.len() {
        lemma_archive_size_grows(entries, i + 1);
        assert(entries.take(i + 1).drop_last() == entries.take(i));
    } else {
        assert(entries.take(i) == entries);
    }
}

/// The entry name of `path` in an archive of the directory `root`.
pub fn zip_entry_name(path: &str, root: &str) -> (name: String)
    ensures
        name@ == entry_name(path@, root@),
{
    let base = match strip_root(path, root) {
        Some(rest) => rest,
        None => match file_name(path) {
            Some(name) => name,
            None => path.to_string(),
        },
    };
    let parts = parts_of(base.as_str());
    let mut out: Vec<char> = Vec::new();
    let ghost all = parts@.map_values(|p: String| p@);
    let mut i: usize = 0;
    while i < parts.len()
        invariant
            i <= parts@.len(),
            all == parts@.map_values(|p: String| p@),
            out@ == joined(all.take(i as int), seq!['/']),
        decreases parts@.len() - i,
    {
        if i > 0 {
            out.push('/');
        }
        crate::text::push_str(&mut out, parts[i].as_str());
        assert(all.take(i + 1).drop_last() == all.take(i as int));
        assert(all.take(i + 1).last() == parts@[i as int]@);
        if i == 0 {
            assert(all.take(1).len() == 1);
        }
        i = i + 1;
    }
    assert(all.take(parts@.len() as int) == all);
    crate::text::string_of(&out)
}

/// `files` as one zip, entry names relative to `root`: every entry stored,
/// not compressed, and stamped with zip's default time, so the archive is
/// the same bytes whenever the same files are archived under the same
/// root. It is made whenever the entry names are distinct, each within
/// 65535 UTF-8 bytes, and the whole within `ZIP32_LIMIT` bytes; it is never
/// made when two files would share an entry name or a name is longer.
pub fn stored_zip(files: &[(String, Vec<u8>)], root: &str) -> (archive: Option<Vec<u8>>)
    ensures
        archive matches Some(bytes) ==> {
            &&& bytes@ == finished_archive(zip_entries(files@, root@))
            &&& entry_names_of(zip_entries(files@, root@)).no_duplicates()
            &&& forall|k: int| 0 <= k < files@.len() ==>
                encode_utf8(#[trigger] entry_name(files@[k].0@, root@)).len() <= MAX_ENTRY_NAME_BYTES
        },
        fits_zip32(zip_entries(files@, root@)) ==> archive is Some,
{
    let ghost all = zip_entries(files@, root@);
    let mut writer = Archive::new();
    let mut i: usize = 0;
    assert(zip_entries(files@.take(0), root@) == Seq::<ZipEntry>::empty());
    while i < files.len()
        invariant
            i <= files@.len(),
            all == zip_entries(files@, root@),
            archive_entries(writer) == Some(zip_entries(files@.take(i as int), root@)),
            entry_names_of(zip_entries(files@.take(i as int), root@)).no_duplicates(),
            forall|k: int| 0 <= k < i ==>
                encode_utf8(#[trigger] entry_name(files@[k].0@, root@)).len() <= MAX_ENTRY_NAME_BYTES,
        decreases files@.len() - i,
    {
        let ghost before = zip_entries(files@.take(i as int), root@);
        let ghost entry = all[i as int];
        proof {
            assert(before == all.take(i as int));
            assert(all.take(i + 1) == before.push(entry));
            assert(all.take(i + 1).drop_last() == before);
            assert(entry_names_of(before) == entry_names_of(all).take(i as int));
            if fits_zip32(all) {
                lemma_archive_size_grows(all, i + 1);
                assert(encode_utf8(all[i as int].name).len() <= MAX_ENTRY_NAME_BYTES);
                if entry_names_of(before).contains(entry.name) {
                    let j = choose|j: int| 0 <= j < entry_names_of(before).len() && entry_names_of(before)[j] == entry.name;
                    assert(entry_names_of(all)[j] == entry_names_of(all)[i as int]);
                }
            }
        }
        let name = zip_entry_name(files[i].0.as_str(), root);
        assert(name@ == entry.name);
        if name.as_str().as_bytes().len() > MAX_ENTRY_NAME_BYTES {
            return None;
        }
        if !writer.start_entry(name.as_str(), Compression::Stored, ZIP_EPOCH_DATE, ZIP_EPOCH_TIME) {
            return None;
        }
        let ghost started = ZipEntry { data: Seq::empty(), ..entry };
        assert(archive_entries(writer) == Some(before.push(started)));
        if !writer.write(files[i].1.as_slice()) {
            return None;
        }
        proof {
            assert(started.data + files@[i as int].1@ == entry.data);
            assert(before.push(started).update(before.len() as int, entry) == before.push(entry));
            assert(zip_entries(files@.take(i + 1), root@) == before.push(entry));
            assert(entry_names_of(before.push(entry)) == entry_names_of(before).push(entry.name));
            let names = entry_names_of(before);
            assert(names.push(entry.name).no_duplicates()) by {
                assert forall|x: int, y: int| 0 <= x < y < names.len() + 1 implies names.push(entry.name)[x]
                    != names.push(entry.name)[y] by {
                    if y == names.len() {
                        assert(names.contains(names[x]));
                    }
                }
            }
        }
        i = i + 1;
    }
    assert(files@.take(files@.len() as int) == files@);
    writer.finish()
}

} // verus!
