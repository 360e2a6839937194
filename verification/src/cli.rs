//! The command line: `riggen [FILE...]` opens the window, `riggen --export
//! mjcf|urdf|sdf|both|all --out DIR INPUT` is the headless export, and
//! `--help`, `--version` and `--example arm` are the rest.
//!
//! The parser accepts only what [`flags`] lists, and [`help`] is generated
//! from the same table, so a flag cannot exist without its help line.

use vstd::prelude::*;
use crate::example::{Example, example_named};
use crate::text::{chars_of, chars_equal, join, joined, push_chars, push_str, string_of};

verus! {

/// The one-line reminder under every parse error.
pub const USAGE: &'static str = "usage: riggen [FILE...] | riggen --example arm | riggen --export mjcf|urdf|sdf|both|all --out DIR [--fk-samples] INPUT\ntry `riggen --help`";

/// The crate version `--version` reports.
pub const VERSION: &'static str = "0.1.0";

/// Which writers an export runs: one of the five sets the command line
/// can name.
#[derive(Debug, Clone, Copy, PartialEq, Eq, Structural)]
pub enum Format {
    /// MuJoCo's MJCF.
    MJCF,
    /// URDF.
    URDF,
    /// SDF.
    SDF,
    /// MJCF and URDF, from when there were two writers.
    BOTH,
    /// Every writer.
    ALL,
}

/// The set a word on the command line names.
pub open spec fn format_named(word: Seq<char>) -> Option<Format> {
    if word == "mjcf"@ {
        Some(Format::MJCF)
    } else if word == "urdf"@ {
        Some(Format::URDF)
    } else if word == "sdf"@ {
        Some(Format::SDF)
    } else if word == "both"@ {
        Some(Format::BOTH)
    } else if word == "all"@ {
        Some(Format::ALL)
    } else {
        None
    }
}

/// The words the parser takes, in the order the usage spells them.
pub open spec fn format_words() -> Seq<Seq<char>> {
    seq!["mjcf"@, "urdf"@, "sdf"@, "both"@, "all"@]
}

impl Format {
    /// Every word `--export` takes.
    pub const NAMES: [&'static str; 5] = ["mjcf", "urdf", "sdf", "both", "all"];

    /// The set `word` names.
    pub fn from_name(word: &str) -> (format: Option<Format>)
        ensures
            format == format_named(word@),
    {
        let chars = chars_of(word);
        let names = Format::NAMES;
        let mut i: usize = 0;
        while i < 5
            invariant
                chars@ == word@,
                names@.map_values(|n: &'static str| n@) == format_words(),
                i <= 5,
                forall|j: int| 0 <= j < i ==> word@ != #[trigger] format_words()[j],
            decreases 5 - i,
        {
            let candidate = chars_of(names[i]);
            if chars_equal(&chars, &candidate) {
                assert(word@ == format_words()[i as int]);
                return Some(Format::of_word(i));
            }
            i = i + 1;
        }
        proof { lemma_format_words(); }
        None
    }

    /// The set the `i`th word names.
    fn of_word(i: usize) -> (format: Format)
        requires
            i < 5,
        ensures
            Some(format) == format_named(format_words()[i as int]),
    {
        proof { lemma_format_words(); }
        if i == 0 {
            Format::MJCF
        } else if i == 1 {
            Format::URDF
        } else if i == 2 {
            Format::SDF
        } else if i == 3 {
            Format::BOTH
        } else {
            Format::ALL
        }
    }

    /// The word that names this set: what `Display` writes and what
    /// `from_name` reads back.
    pub fn name(self) -> (word: &'static str)
        ensures
            format_named(word@) == Some(self),
    {
        proof { lemma_format_words(); }
        match self {
            Format::MJCF => "mjcf",
            Format::URDF => "urdf",
            Format::SDF => "sdf",
            Format::BOTH => "both",
            Format::ALL => "all",
        }
    }
}

/// The five words are the ones [`format_named`] knows, each naming its own
/// set.
pub proof fn lemma_format_words()
    ensures
        forall|w: Seq<char>| #[trigger] format_named(w) is Some <==> format_words().contains(w),
        format_named("mjcf"@) == Some(Format::MJCF),
        format_named("urdf"@) == Some(Format::URDF),
        format_named("sdf"@) == Some(Format::SDF),
        format_named("both"@) == Some(Format::BOTH),
        format_named("all"@) == Some(Format::ALL),
{
    reveal_strlit("mjcf");
    reveal_strlit("urdf");
    reveal_strlit("sdf");
    reveal_strlit("both");
    reveal_strlit("all");
    assert forall|w: Seq<char>| #[trigger] format_named(w) is Some <==> format_words().contains(w) by {
        if format_named(w) is Some {
            if w == "mjcf"@ { assert(format_words()[0] == w); }
            else if w == "urdf"@ { assert(format_words()[1] == w); }
            else if w == "sdf"@ { assert(format_words()[2] == w); }
            else if w == "both"@ { assert(format_words()[3] == w); }
            else { assert(format_words()[4] == w); }
        }
    }
    assert("urdf"@ != "mjcf"@) by { assert("urdf"@[0] != "mjcf"@[0]); }
    assert("sdf"@ != "mjcf"@) by { assert("sdf"@.len() != "mjcf"@.len()); }
    assert("sdf"@ != "urdf"@) by { assert("sdf"@.len() != "urdf"@.len()); }
    assert("both"@ != "mjcf"@) by { assert("both"@[0] != "mjcf"@[0]); }
    assert("both"@ != "urdf"@) by { assert("both"@[0] != "urdf"@[0]); }
    assert("both"@ != "sdf"@) by { assert("both"@.len() != "sdf"@.len()); }
    assert("all"@ != "mjcf"@) by { assert("all"@.len() != "mjcf"@.len()); }
    assert("all"@ != "urdf"@) by { assert("all"@.len() != "urdf"@.len()); }
    assert("all"@ != "sdf"@) by { assert("all"@[0] != "sdf"@[0]); }
    assert("all"@ != "both"@) by { assert("all"@.len() != "both"@.len()); }
}

/// One command-line flag: its spelling, an optional short form, the name
/// of the value it takes (if any) and the help line.
#[derive(Debug, Clone, Copy, PartialEq, Eq)]
pub struct Flag {
    pub long: &'static str,
    pub short: Option<&'static str>,
    pub value: Option<&'static str>,
    pub doc: &'static str,
}

/// A flag as text.
pub struct FlagText {
    pub long: Seq<char>,
    pub short: Option<Seq<char>>,
    pub value: Option<Seq<char>>,
    pub doc: Seq<char>,
}

/// The text of an optional `&str`.
pub open spec fn opt_text(s: Option<&'static str>) -> Option<Seq<char>> {
    match s {
        Some(t) => Some(t@),
        None => None,
    }
}

/// A flag's text.
pub open spec fn flag_text(flag: Flag) -> FlagText {
    FlagText { long: flag.long@, short: opt_text(flag.short), value: opt_text(flag.value), doc: flag.doc@ }
}

/// Every flag the parser accepts, in the order `--help` lists them.
pub open spec fn flag_table() -> Seq<FlagText> {
    seq![
        FlagText {
            long: "--example"@,
            short: None,
            value: Some("NAME"@),
            doc: "open a bundled example: arm (the five-link sample robot)"@,
        },
        FlagText {
            long: "--export"@,
            short: None,
            value: Some("FORMAT"@),
            doc: "headless export of INPUT (.riggen, .urdf or .xml): mjcf, urdf, sdf, both or all"@,
        },
        FlagText {
            long: "--out"@,
            short: None,
            value: Some("DIR"@),
            doc: "where --export writes; created if missing"@,
        },
        FlagText {
            long: "--fk-samples"@,
            short: None,
            value: None,
            doc: "with --export: also write <name>.fk.json, five sampled joint configurations"@,
        },
        FlagText {
            long: "--timing"@,
            short: None,
            value: None,
            doc: "print the time from launch to the first frame on stderr"@,
        },
        FlagText { long: "--help"@, short: Some("-h"@), value: None, doc: "print this help"@ },
        FlagText {
            long: "--version"@,
            short: Some("-V"@),
            value: None,
            doc: "print the version and the git commit it was built from"@,
        },
    ]
}

/// Every flag the parser accepts, in the order `--help` lists them.
pub fn flags() -> (flags: Vec<Flag>)
    ensures
        flags@.map_values(|f: Flag| flag_text(f)) == flag_table(),
{
    let flags = vec![
        Flag {
            long: "--example",
            short: None,
            value: Some("NAME"),
            doc: "open a bundled example: arm (the five-link sample robot)",
        },
        Flag {
            long: "--export",
            short: None,
            value: Some("FORMAT"),
            doc: "headless export of INPUT (.riggen, .urdf or .xml): mjcf, urdf, sdf, both or all",
        },
        Flag {
            long: "--out",
            short: None,
            value: Some("DIR"),
            doc: "where --export writes; created if missing",
        },
        Flag {
            long: "--fk-samples",
            short: None,
            value: None,
            doc: "with --export: also write <name>.fk.json, five sampled joint configurations",
        },
        Flag {
            long: "--timing",
            short: None,
            value: None,
            doc: "print the time from launch to the first frame on stderr",
        },
        Flag { long: "--help", short: Some("-h"), value: None, doc: "print this help" },
        Flag {
            long: "--version",
            short: Some("-V"),
            value: None,
            doc: "print the version and the git commit it was built from",
        },
    ];
    assert(flags@.map_values(|f: Flag| flag_text(f)) =~= flag_table());
    flags
}

/// `riggen 0.1.0 (HASH DATE)`: the crate version, then the git hash the
/// binary was built from and its commit date.
pub open spec fn version_text_of(hash: Seq<char>, date: Seq<char>) -> Seq<char> {
    "riggen "@ + VERSION@ + " ("@ + hash + " "@ + date + ")"@
}

/// The version line of a build that recorded neither a git hash nor a
/// date: both read `unknown`.
pub open spec fn version_text() -> Seq<char> {
    version_text_of("unknown"@, "unknown"@)
}

/// `riggen 0.1.0 (2b60ae4 2026-08-29)`: the crate version, then the git
/// hash the binary was built from and its date, as the build recorded
/// them.
pub fn version_of(hash: &str, date: &str) -> (v: String)
    ensures
        v@ == version_text_of(hash@, date@),
{
    let mut out: Vec<char> = Vec::new();
    push_str(&mut out, "riggen ");
    push_str(&mut out, VERSION);
    push_str(&mut out, " (");
    push_str(&mut out, hash);
    push_str(&mut out, " ");
    push_str(&mut out, date);
    push_str(&mut out, ")");
    string_of(&out)
}

/// `riggen 0.1.0 (unknown unknown)`: the version line of a build that
/// recorded neither the git hash nor the date.
pub fn version() -> (v: String)
    ensures
        v@ == version_text(),
{
    version_of("unknown", "unknown")
}

/// How a flag is spelt in `--help`: `-h, --help`, `--out DIR`.
pub open spec fn spelling(flag: FlagText) -> Seq<char> {
    (match flag.short {
        Some(short) => short + ", "@,
        None => Seq::empty(),
    }) + flag.long + (match flag.value {
        Some(value) => " "@ + value,
        None => Seq::empty(),
    })
}

/// `text` padded with spaces on the right to `width` characters.
pub open spec fn padded(text: Seq<char>, width: nat) -> Seq<char> {
    if text.len() < width {
        text + Seq::new((width - text.len()) as nat, |i: int| ' ')
    } else {
        text
    }
}

/// One line of the options list.
pub open spec fn flag_line(flag: FlagText) -> Seq<char> {
    "  "@ + padded(spelling(flag), 22) + "  "@ + flag.doc + "\n"@
}

/// The options list, one line per flag.
pub open spec fn flag_lines(flags: Seq<FlagText>) -> Seq<char>
    decreases flags.len(),
{
    if flags.len() == 0 {
        Seq::empty()
    } else {
        flag_lines(flags.drop_last()) + flag_line(flags.last())
    }
}

/// Everything `--help` prints before the options list.
pub open spec fn help_head() -> Seq<char> {
    help_head_of(version_text())
}

/// The `--help` text down to the options, under the version line `v`.
pub open spec fn help_head_of(v: Seq<char>) -> Seq<char> {
    v
        + "\nThe robot assembler for RL researchers: meshes in, MJCF, URDF and SDF out.\n\n"@
        + "usage:\n"@
        + "  riggen [FILE...]        open a .riggen document, or drop meshes (.stl, .obj) as links\n"@
        + "  riggen --example arm    open the bundled sample arm\n"@
        + "  riggen --export mjcf|urdf|sdf|both|all --out DIR [--fk-samples] INPUT\n"@
        + "                          write INPUT's export to DIR without opening a window\n\n"@
        + "options:\n"@
}

/// The `--help` text.
pub open spec fn help_text() -> Seq<char> {
    help_text_of(version_text())
}

/// The `--help` text under the version line `v`.
pub open spec fn help_text_of(v: Seq<char>) -> Seq<char> {
    help_head_of(v) + flag_lines(flag_table())
}

fn push_padded(out: &mut Vec<char>, text: &Vec<char>, width: usize)
    ensures
        final(out)@ == old(out)@ + padded(text@, width as nat),
{
    push_chars(out, text);
    let ghost mid = out@;
    let mut n = text.len();
    while n < width
        invariant
            n >= text@.len(),
            text@.len() < width ==> n <= width,
            text@.len() >= width ==> n == text@.len(),
            out@ == mid + Seq::new((n - text@.len()) as nat, |i: int| ' '),
        decreases width - n,
    {
        out.push(' ');
        n = n + 1;
        assert(out@ =~= mid + Seq::new((n - text@.len()) as nat, |i: int| ' '));
    }
    if text.len() < width {
        assert(n == width);
        assert(out@ =~= old(out)@ + padded(text@, width as nat));
    } else {
        assert(out@ =~= old(out)@ + padded(text@, width as nat));
    }
}

/// Appends `flag`'s line of the options list to `out`.
fn push_flag_line(out: &mut Vec<char>, flag: Flag)
    ensures
        final(out)@ == old(out)@ + flag_line(flag_text(flag)),
{
    let mut spelled: Vec<char> = Vec::new();
    match flag.short {
        Some(short) => {
            push_str(&mut spelled, short);
            push_str(&mut spelled, ", ");
        },
        None => {},
    }
    push_str(&mut spelled, flag.long);
    match flag.value {
        Some(value) => {
            push_str(&mut spelled, " ");
            push_str(&mut spelled, value);
        },
        None => {},
    }
    assert(spelled@ == spelling(flag_text(flag)));
    push_str(out, "  ");
    push_padded(out, &spelled, 22);
    push_str(out, "  ");
    push_str(out, flag.doc);
    push_str(out, "\n");
}

/// The `--help` text under the version line `version_line`: usage forms,
/// then one line per [`flags`] entry.
pub fn help_with(version_line: &str) -> (text: String)
    ensures
        text@ == help_text_of(version_line@),
{
    let mut out: Vec<char> = Vec::new();
    push_str(&mut out, version_line);
    push_str(&mut out, "\nThe robot assembler for RL researchers: meshes in, MJCF, URDF and SDF out.\n\n");
    push_str(&mut out, "usage:\n");
    push_str(&mut out, "  riggen [FILE...]        open a .riggen document, or drop meshes (.stl, .obj) as links\n");
    push_str(&mut out, "  riggen --example arm    open the bundled sample arm\n");
    push_str(&mut out, "  riggen --export mjcf|urdf|sdf|both|all --out DIR [--fk-samples] INPUT\n");
    push_str(&mut out, "                          write INPUT's export to DIR without opening a window\n\n");
    push_str(&mut out, "options:\n");
    assert(out@ == help_head_of(version_line@));
    let table = flags();
    let ghost texts = table@.map_values(|f: Flag| flag_text(f));
    let mut i: usize = 0;
    while i < table.len()
        invariant
            i <= table@.len(),
            texts == table@.map_values(|f: Flag| flag_text(f)),
            out@ == help_head_of(version_line@) + flag_lines(texts.take(i as int)),
        decreases table@.len() - i,
    {
        let flag = table[i];
        push_flag_line(&mut out, flag);
        assert(texts.take(i + 1).drop_last() == texts.take(i as int));
        assert(texts.take(i + 1).last() == flag_text(flag));
        i = i + 1;
    }
    assert(texts.take(table@.len() as int) == texts);
    string_of(&out)
}

/// The `--help` text of a build that recorded neither the git hash nor
/// the date: usage forms, then one line per [`flags`] entry.
pub fn help() -> (text: String)
    ensures
        text@ == help_text(),
{
    let v = version();
    help_with(v.as_str())
}

/// What the command line asked for to open the window.
#[derive(Debug, Clone, PartialEq, Eq, Default)]
pub struct OpenArgs {
    /// The files to open, in the order given.
    pub files: Vec<String>,
    /// The example to open first.
    pub example: Option<Example>,
    /// `--timing`: report the first frame on stderr.
    pub timing: bool,
}

/// What the command line asked for to export without a window.
#[derive(Debug, Clone, PartialEq, Eq)]
pub struct ExportArgs {
    pub format: Format,
    pub out: String,
    pub input: String,
    /// Also write `<name>.fk.json`.
    pub fk_samples: bool,
}

/// What the command line asked for.
#[derive(Debug, Clone, PartialEq, Eq)]
pub enum Invocation {
    /// Open the window on `files` (possibly none) and, first, the example.
    Open(OpenArgs),
    /// The headless export; never opens a window.
    Export(ExportArgs),
    Help,
    Version,
}

/// Why the command line was refused.
#[derive(Debug, Clone, PartialEq, Eq)]
pub enum CliError {
    /// `--export` was given no word, or one that names no format.
    ExportExpects(Option<String>),
    /// `--out` was the last argument.
    OutExpectsDirectory,
    /// `--example` was given no name, or one that names no example.
    ExampleExpects(Option<String>),
    /// A `-`-prefixed argument the table does not list.
    UnknownFlag(String),
    /// `--out` or `--fk-samples` without `--export`.
    ExportFlagsWithoutExport,
    /// `--example` or `--timing` with `--export`.
    WindowFlagsWithExport,
    /// `--export` with no input file.
    InputRequired,
    /// `--export` with more than one input file.
    OneInputOnly,
    /// `--export` with no `--out`.
    OutRequired,
}

/// An invocation as text.
pub enum InvocationText {
    Open { files: Seq<Seq<char>>, example: Option<Example>, timing: bool },
    Export { format: Format, out: Seq<char>, input: Seq<char>, fk_samples: bool },
    Help,
    Version,
}

/// A refusal as text.
pub enum Refusal {
    ExportExpects(Option<Seq<char>>),
    OutExpectsDirectory,
    ExampleExpects(Option<Seq<char>>),
    UnknownFlag(Seq<char>),
    ExportFlagsWithoutExport,
    WindowFlagsWithExport,
    InputRequired,
    OneInputOnly,
    OutRequired,
}

/// The text of each string in `strings`.
pub open spec fn texts(strings: Seq<String>) -> Seq<Seq<char>> {
    strings.map_values(|s: String| s@)
}

/// The text of an optional `String`.
pub open spec fn opt_string_text(s: Option<String>) -> Option<Seq<char>> {
    match s {
        Some(t) => Some(t@),
        None => None,
    }
}

impl View for Invocation {
    type V = InvocationText;

    open spec fn view(&self) -> InvocationText {
        match self {
            Invocation::Open(o) => InvocationText::Open {
                files: texts(o.files@),
                example: o.example,
                timing: o.timing,
            },
            Invocation::Export(e) => InvocationText::Export {
                format: e.format,
                out: e.out@,
                input: e.input@,
                fk_samples: e.fk_samples,
            },
            Invocation::Help => InvocationText::Help,
            Invocation::Version => InvocationText::Version,
        }
    }
}

impl View for CliError {
    type V = Refusal;

    open spec fn view(&self) -> Refusal {
        match self {
            CliError::ExportExpects(v) => Refusal::ExportExpects(opt_string_text(*v)),
            CliError::OutExpectsDirectory => Refusal::OutExpectsDirectory,
            CliError::ExampleExpects(v) => Refusal::ExampleExpects(opt_string_text(*v)),
            CliError::UnknownFlag(f) => Refusal::UnknownFlag(f@),
            CliError::ExportFlagsWithoutExport => Refusal::ExportFlagsWithoutExport,
            CliError::WindowFlagsWithExport => Refusal::WindowFlagsWithExport,
            CliError::InputRequired => Refusal::InputRequired,
            CliError::OneInputOnly => Refusal::OneInputOnly,
            CliError::OutRequired => Refusal::OutRequired,
        }
    }
}

/// What the parser has gathered so far.
pub struct ScanState {
    pub format: Option<Format>,
    pub out: Option<Seq<char>>,
    pub fk_samples: bool,
    pub example: Option<Example>,
    pub timing: bool,
    pub positional: Seq<Seq<char>>,
}

/// How reading the arguments ended.
pub enum ScanEnd {
    /// Every argument read.
    Finished(ScanState),
    Help,
    Version,
    Failed(Refusal),
}

/// Before the first argument.
pub open spec fn scan_start() -> ScanState {
    ScanState {
        format: None,
        out: None,
        fk_samples: false,
        example: None,
        timing: false,
        positional: Seq::empty(),
    }
}

/// Whether `arg` reads as a flag: a `-` and more after it (a lone `-` is a
/// file name).
pub open spec fn flag_like(arg: Seq<char>) -> bool {
    arg.len() > 1 && arg[0] == '-'
}

/// Reads `args` from the `i`th on, having gathered `st`. `--help` and
/// `--version` end it at once; a value-taking flag takes the argument after
/// it, whatever that is.
pub open spec fn scan(args: Seq<Seq<char>>, i: int, st: ScanState) -> ScanEnd
    decreases args.len() - i,
{
    if i < 0 || i >= args.len() {
        ScanEnd::Finished(st)
    } else {
        let arg = args[i];
        let next = if i + 1 < args.len() { Some(args[i + 1]) } else { None };
        if arg == "--help"@ || arg == "-h"@ {
            ScanEnd::Help
        } else if arg == "--version"@ || arg == "-V"@ {
            ScanEnd::Version
        } else if arg == "--export"@ {
            match next {
                Some(word) => match format_named(word) {
                    Some(format) => scan(args, i + 2, ScanState { format: Some(format), ..st }),
                    None => ScanEnd::Failed(Refusal::ExportExpects(next)),
                },
                None => ScanEnd::Failed(Refusal::ExportExpects(None)),
            }
        } else if arg == "--out"@ {
            match next {
                Some(dir) => scan(args, i + 2, ScanState { out: Some(dir), ..st }),
                None => ScanEnd::Failed(Refusal::OutExpectsDirectory),
            }
        } else if arg == "--fk-samples"@ {
            scan(args, i + 1, ScanState { fk_samples: true, ..st })
        } else if arg == "--timing"@ {
            scan(args, i + 1, ScanState { timing: true, ..st })
        } else if arg == "--example"@ {
            match next {
                Some(name) => match example_named(name) {
                    Some(example) => scan(args, i + 2, ScanState { example: Some(example), ..st }),
                    None => ScanEnd::Failed(Refusal::ExampleExpects(next)),
                },
                None => ScanEnd::Failed(Refusal::ExampleExpects(None)),
            }
        } else if flag_like(arg) {
            ScanEnd::Failed(Refusal::UnknownFlag(arg))
        } else {
            scan(args, i + 1, ScanState { positional: st.positional.push(arg), ..st })
        }
    }
}

/// What the gathered arguments amount to: the window form unless
/// `--export` was given, whose other arguments are then checked.
pub open spec fn finish(st: ScanState) -> Result<InvocationText, Refusal> {
    match st.format {
        None => if st.out is Some || st.fk_samples {
            Err(Refusal::ExportFlagsWithoutExport)
        } else {
            Ok(InvocationText::Open { files: st.positional, example: st.example, timing: st.timing })
        },
        Some(format) => if st.example is Some || st.timing {
            Err(Refusal::WindowFlagsWithExport)
        } else if st.positional.len() == 0 {
            Err(Refusal::InputRequired)
        } else if st.positional.len() > 1 {
            Err(Refusal::OneInputOnly)
        } else {
            match st.out {
                None => Err(Refusal::OutRequired),
                Some(out) => Ok(
                    InvocationText::Export {
                        format,
                        out,
                        input: st.positional[0],
                        fk_samples: st.fk_samples,
                    },
                ),
            }
        },
    }
}

/// Whether `arg` is a flag that takes the argument after it as its value.
pub open spec fn takes_value(arg: Seq<char>) -> bool {
    arg == "--export"@ || arg == "--out"@ || arg == "--example"@
}

/// The first `--help`/`-h` or `--version`/`-V` among the arguments from
/// the `i`th on that is not a flag's value: the argument after `--export`,
/// `--out` or `--example` is that flag's value, whatever it says.
pub open spec fn meta_token(args: Seq<Seq<char>>, i: int) -> Option<InvocationText>
    decreases args.len() + 1 - i,
{
    if i < 0 || i >= args.len() {
        None
    } else if args[i] == "--help"@ || args[i] == "-h"@ {
        Some(InvocationText::Help)
    } else if args[i] == "--version"@ || args[i] == "-V"@ {
        Some(InvocationText::Version)
    } else if takes_value(args[i]) {
        meta_token(args, i + 2)
    } else {
        meta_token(args, i + 1)
    }
}

/// Whether reading from the `i`th argument, a flag with a value taken
/// with it, lands on the `k`th: the `k`th is an argument of its own, not a
/// flag's value.
pub open spec fn reaches(args: Seq<Seq<char>>, i: int, k: int) -> bool
    decreases args.len() + 1 - i,
{
    if i >= k || i < 0 || i >= args.len() {
        i == k
    } else if takes_value(args[i]) {
        reaches(args, i + 2, k)
    } else {
        reaches(args, i + 1, k)
    }
}

/// What the arguments amount to once no `--help` or `--version` is among
/// them: read in order, the first mistake refused.
pub open spec fn gathered(args: Seq<Seq<char>>) -> Result<InvocationText, Refusal> {
    match scan(args, 0, scan_start()) {
        ScanEnd::Help => Ok(InvocationText::Help),
        ScanEnd::Version => Ok(InvocationText::Version),
        ScanEnd::Failed(refusal) => Err(refusal),
        ScanEnd::Finished(st) => finish(st),
    }
}

/// What the command line `args` (after the program name) asks for:
/// `--help` and `--version` win wherever they appear (the first of the two
/// to appear), unless as a flag's value; otherwise what the arguments
/// gather to.
pub open spec fn parsed(args: Seq<Seq<char>>) -> Result<InvocationText, Refusal> {
    match meta_token(args, 0) {
        Some(meta) => Ok(meta),
        None => gathered(args),
    }
}

/// The first `--help` or `--version` that is not a flag's value, if any.
fn meta_flag(args: &[String]) -> (meta: Option<bool>)
    ensures
        meta == Some(true) <==> meta_token(texts(args@), 0) == Some(InvocationText::Help),
        meta == Some(false) <==> meta_token(texts(args@), 0) == Some(InvocationText::Version),
        meta is None <==> meta_token(texts(args@), 0) is None,
{
    let ghost all = texts(args@);
    let mut i: usize = 0;
    while i < args.len()
        invariant
            all == texts(args@),
            meta_token(all, 0) == meta_token(all, i as int),
        decreases args@.len() - i,
    {
        let arg = args[i].as_str();
        assert(arg@ == all[i as int]);
        if is_word(arg, "--help") || is_word(arg, "-h") {
            return Some(true);
        } else if is_word(arg, "--version") || is_word(arg, "-V") {
            return Some(false);
        } else if is_word(arg, "--export") || is_word(arg, "--out") || is_word(arg, "--example") {
            if args.len() - i <= 2 {
                assert(meta_token(all, i + 2) is None);
                return None;
            }
            i = i + 2;
        } else {
            i = i + 1;
        }
    }
    None
}

/// The text of a parse result.
pub open spec fn outcome_text(result: Result<Invocation, CliError>) -> Result<InvocationText, Refusal> {
    match result {
        Ok(inv) => Ok(inv@),
        Err(e) => Err(e@),
    }
}

/// Whether `s` holds the text `word`.
pub fn is_word(s: &str, word: &str) -> (same: bool)
    ensures
        same == (s@ == word@),
{
    let a = chars_of(s);
    let b = chars_of(word);
    chars_equal(&a, &b)
}

fn copy_string(s: &String) -> (c: String)
    ensures
        c@ == s@,
{
    s.clone()
}

/// Parses everything after the program name. `--help` and `--version` win
/// wherever they appear; an `--export` anywhere makes it the export form,
/// whose other arguments are checked; otherwise every positional is a file
/// to open.
pub fn parse_args(args: &[String]) -> (result: Result<Invocation, CliError>)
    ensures
        outcome_text(result) == parsed(texts(args@)),
{
    match meta_flag(args) {
        Some(true) => return Ok(Invocation::Help),
        Some(false) => return Ok(Invocation::Version),
        None => {},
    }
    let ghost all = texts(args@);
    let mut format: Option<Format> = None;
    let mut out: Option<String> = None;
    let mut fk_samples = false;
    let mut example: Option<Example> = None;
    let mut timing = false;
    let mut positional: Vec<String> = Vec::new();
    let mut i: usize = 0;
    assert(texts(positional@) =~= Seq::<Seq<char>>::empty());
    while i < args.len()
        invariant
            i <= args@.len(),
            all == texts(args@),
            meta_token(all, i as int) is None,
            meta_token(all, 0) is None,
            scan(all, 0, scan_start()) == scan(all, i as int, ScanState {
                format,
                out: opt_string_text(out),
                fk_samples,
                example,
                timing,
                positional: texts(positional@),
            }),
        decreases args@.len() - i,
    {
        let ghost st = ScanState {
            format,
            out: opt_string_text(out),
            fk_samples,
            example,
            timing,
            positional: texts(positional@),
        };
        let arg = args[i].as_str();
        assert(arg@ == all[i as int]);
        proof {
            reveal_strlit("--export");
            reveal_strlit("--out");
            reveal_strlit("--example");
            reveal_strlit("--fk-samples");
            reveal_strlit("--timing");
            let a = all[i as int];
            if !(a == "--help"@ || a == "-h"@ || a == "--version"@ || a == "-V"@) {
                assert(meta_token(all, i as int) == if takes_value(a) {
                    meta_token(all, i + 2)
                } else {
                    meta_token(all, i + 1)
                });
            }
        }
        let has_next = i + 1 < args.len();
        if has_next {
            assert(args@[i + 1]@ == all[i + 1]);
        }
        if is_word(arg, "--help") || is_word(arg, "-h") {
            return Ok(Invocation::Help);
        } else if is_word(arg, "--version") || is_word(arg, "-V") {
            return Ok(Invocation::Version);
        } else if is_word(arg, "--export") {
            if !has_next {
                return Err(CliError::ExportExpects(None));
            }
            let word = &args[i + 1];
            match Format::from_name(word.as_str()) {
                Some(f) => {
                    format = Some(f);
                    i = i + 2;
                },
                None => {
                    return Err(CliError::ExportExpects(Some(copy_string(word))));
                },
            }
        } else if is_word(arg, "--out") {
            if !has_next {
                return Err(CliError::OutExpectsDirectory);
            }
            out = Some(copy_string(&args[i + 1]));
            i = i + 2;
        } else if is_word(arg, "--fk-samples") {
            fk_samples = true;
            i = i + 1;
        } else if is_word(arg, "--timing") {
            timing = true;
            i = i + 1;
        } else if is_word(arg, "--example") {
            if !has_next {
                return Err(CliError::ExampleExpects(None));
            }
            let name = &args[i + 1];
            match Example::from_name(name.as_str()) {
                Some(e) => {
                    example = Some(e);
                    i = i + 2;
                },
                None => {
                    return Err(CliError::ExampleExpects(Some(copy_string(name))));
                },
            }
        } else {
            let chars = chars_of(arg);
            if chars.len() > 1 && chars[0] == '-' {
                return Err(CliError::UnknownFlag(copy_string(&args[i])));
            }
            let ghost before = positional@;
            positional.push(copy_string(&args[i]));
            assert(texts(positional@) == texts(before).push(arg@));
            i = i + 1;
        }
    }
    let ghost st = ScanState {
        format,
        out: opt_string_text(out),
        fk_samples,
        example,
        timing,
        positional: texts(positional@),
    };
    assert(scan(all, i as int, st) == ScanEnd::Finished(st));
    match format {
        None => {
            if out.is_some() || fk_samples {
                return Err(CliError::ExportFlagsWithoutExport);
            }
            Ok(Invocation::Open(OpenArgs { files: positional, example, timing }))
        },
        Some(format) => {
            if example.is_some() || timing {
                return Err(CliError::WindowFlagsWithExport);
            }
            if positional.len() == 0 {
                return Err(CliError::InputRequired);
            }
            if positional.len() > 1 {
                return Err(CliError::OneInputOnly);
            }
            match out {
                None => Err(CliError::OutRequired),
                Some(out) => {
                    let input = copy_string(&positional[0]);
                    Ok(Invocation::Export(ExportArgs { format, out, input, fk_samples }))
                },
            }
        },
    }
}

/// What std's `Debug` writes for a `&str`: the text in double quotes, with
/// quotes, backslashes and control characters escaped.
pub uninterp spec fn debug_quoted(text: Seq<char>) -> Seq<char>;

/// `text` as std's `Debug` for `str` writes it (`format!("{text:?}")`).
#[verifier::external_body]
fn quoted(text: &str) -> (q: String)
    ensures
        q@ == debug_quoted(text@),
{
    format!("{text:?}")
}

/// An optional word as `{:?}` writes an `Option<&str>`: `None` or
/// `Some("word")`.
pub open spec fn debug_option(word: Option<Seq<char>>) -> Seq<char> {
    match word {
        None => "None"@,
        Some(w) => "Some("@ + debug_quoted(w) + ")"@,
    }
}

/// The example names, as `--help` and the errors list them.
pub open spec fn example_words() -> Seq<Seq<char>> {
    seq!["arm"@]
}

/// What a refusal says: the mistake, then [`USAGE`].
pub open spec fn refusal_message(refusal: Refusal) -> Seq<char> {
    (match refusal {
        Refusal::ExportExpects(word) => "--export expects one of "@ + joined(format_words(), ", "@)
            + ", got "@ + debug_option(word),
        Refusal::OutExpectsDirectory => "--out expects a directory"@,
        Refusal::ExampleExpects(word) => "--example expects one of "@ + joined(example_words(), ", "@)
            + ", got "@ + debug_option(word),
        Refusal::UnknownFlag(flag) => "unknown flag "@ + flag,
        Refusal::ExportFlagsWithoutExport => "--out and --fk-samples need --export"@,
        Refusal::WindowFlagsWithExport => "--example and --timing are for the window; --export opens none"@,
        Refusal::InputRequired => "INPUT is required"@,
        Refusal::OneInputOnly => "only one INPUT is exported at a time"@,
        Refusal::OutRequired => "--out is required"@,
    }) + "\n"@ + USAGE@
}

fn push_debug_option(out: &mut Vec<char>, word: &Option<String>)
    ensures
        final(out)@ == old(out)@ + debug_option(opt_string_text(*word)),
{
    match word {
        None => push_str(out, "None"),
        Some(w) => {
            push_str(out, "Some(");
            let q = quoted(w.as_str());
            push_str(out, q.as_str());
            push_str(out, ")");
        },
    }
}

impl CliError {
    /// What the user reads on stderr: the mistake, then the usage.
    pub fn message(&self) -> (text: String)
        ensures
            text@ == refusal_message(self@),
    {
        let mut out: Vec<char> = Vec::new();
        match self {
            CliError::ExportExpects(word) => {
                push_str(&mut out, "--export expects one of ");
                let names = Format::NAMES;
                let list = vec![names[0], names[1], names[2], names[3], names[4]];
                assert(list@.map_values(|s: &str| s@) == format_words());
                join(&mut out, &list, ", ");
                push_str(&mut out, ", got ");
                push_debug_option(&mut out, word);
            },
            CliError::OutExpectsDirectory => push_str(&mut out, "--out expects a directory"),
            CliError::ExampleExpects(word) => {
                push_str(&mut out, "--example expects one of ");
                let names = Example::NAMES;
                let list = vec![names[0]];
                assert(list@.map_values(|s: &str| s@) == example_words());
                join(&mut out, &list, ", ");
                push_str(&mut out, ", got ");
                push_debug_option(&mut out, word);
            },
            CliError::UnknownFlag(flag) => {
                push_str(&mut out, "unknown flag ");
                push_str(&mut out, flag.as_str());
            },
            CliError::ExportFlagsWithoutExport => push_str(&mut out, "--out and --fk-samples need --export"),
            CliError::WindowFlagsWithExport => push_str(
                &mut out,
                "--example and --timing are for the window; --export opens none",
            ),
            CliError::InputRequired => push_str(&mut out, "INPUT is required"),
            CliError::OneInputOnly => push_str(&mut out, "only one INPUT is exported at a time"),
            CliError::OutRequired => push_str(&mut out, "--out is required"),
        }
        push_str(&mut out, "\n");
        push_str(&mut out, USAGE);
        string_of(&out)
    }
}

/// [`parse_args`], with a refusal as the text the user reads.
pub fn parse(args: &[String]) -> (result: Result<Invocation, String>)
    ensures
        match (result, parsed(texts(args@))) {
            (Ok(inv), Ok(text)) => inv@ == text,
            (Err(message), Err(refusal)) => message@ == refusal_message(refusal),
            _ => false,
        },
{
    match parse_args(args) {
        Ok(inv) => Ok(inv),
        Err(e) => Err(e.message()),
    }
}

} // verus!

verus! {

/// Whether `word` is spelt by a flag of the table, long or short.
pub open spec fn listed(word: Seq<char>) -> bool {
    exists|k: int|
        0 <= k < flag_table().len() && (#[trigger] flag_table()[k].long == word || flag_table()[k].short
            == Some(word))
}

/// The nine spellings the parser reads are the table's.
proof fn lemma_listed_words(word: Seq<char>)
    ensures
        listed(word) <==> (word == "--example"@ || word == "--export"@ || word == "--out"@ || word
            == "--fk-samples"@ || word == "--timing"@ || word == "--help"@ || word == "-h"@ || word
            == "--version"@ || word == "-V"@),
{
    let t = flag_table();
    assert(t[0].long == "--example"@ && t[0].short is None);
    assert(t[1].long == "--export"@ && t[1].short is None);
    assert(t[2].long == "--out"@ && t[2].short is None);
    assert(t[3].long == "--fk-samples"@ && t[3].short is None);
    assert(t[4].long == "--timing"@ && t[4].short is None);
    assert(t[5].long == "--help"@ && t[5].short == Some("-h"@));
    assert(t[6].long == "--version"@ && t[6].short == Some("-V"@));
    if listed(word) {
        let k = choose|k: int|
            0 <= k < flag_table().len() && (#[trigger] flag_table()[k].long == word
                || flag_table()[k].short == Some(word));
        assert(0 <= k < 7);
    } else {
        if word == "--example"@ { assert(flag_table()[0].long == word); }
        if word == "--export"@ { assert(flag_table()[1].long == word); }
        if word == "--out"@ { assert(flag_table()[2].long == word); }
        if word == "--fk-samples"@ { assert(flag_table()[3].long == word); }
        if word == "--timing"@ { assert(flag_table()[4].long == word); }
        if word == "--help"@ { assert(flag_table()[5].long == word); }
        if word == "-h"@ { assert(flag_table()[5].short == Some(word)); }
        if word == "--version"@ { assert(flag_table()[6].long == word); }
        if word == "-V"@ { assert(flag_table()[6].short == Some(word)); }
    }
}

/// Reading never refuses a listed flag as unknown: what it refuses so is a
/// `-`-word of the arguments that the table does not spell.
proof fn lemma_scan_unknown(args: Seq<Seq<char>>, i: int, st: ScanState, word: Seq<char>)
    requires
        scan(args, i, st) == ScanEnd::Failed(Refusal::UnknownFlag(word)),
    ensures
        flag_like(word),
        !listed(word),
        args.contains(word),
    decreases args.len() - i,
{
    lemma_listed_words(word);
    if 0 <= i < args.len() {
        let arg = args[i];
        let next = if i + 1 < args.len() { Some(args[i + 1]) } else { None };
        if arg == "--help"@ || arg == "-h"@ || arg == "--version"@ || arg == "-V"@ {
        } else if arg == "--export"@ {
            match next {
                Some(w) => match format_named(w) {
                    Some(format) => lemma_scan_unknown(args, i + 2, ScanState { format: Some(format), ..st }, word),
                    None => {},
                },
                None => {},
            }
        } else if arg == "--out"@ {
            match next {
                Some(dir) => lemma_scan_unknown(args, i + 2, ScanState { out: Some(dir), ..st }, word),
                None => {},
            }
        } else if arg == "--fk-samples"@ {
            lemma_scan_unknown(args, i + 1, ScanState { fk_samples: true, ..st }, word);
        } else if arg == "--timing"@ {
            lemma_scan_unknown(args, i + 1, ScanState { timing: true, ..st }, word);
        } else if arg == "--example"@ {
            match next {
                Some(name) => match example_named(name) {
                    Some(example) => lemma_scan_unknown(args, i + 2, ScanState { example: Some(example), ..st }, word),
                    None => {},
                },
                None => {},
            }
        } else if flag_like(arg) {
            assert(word == arg);
            assert(args[i] == word);
        } else {
            lemma_scan_unknown(args, i + 1, ScanState { positional: st.positional.push(arg), ..st }, word);
        }
    }
}

/// The parser accepts only what the table lists, and all of it: what it
/// refuses as an unknown flag is a `-`-word of the line that the table does
/// not spell, and such a word first on a line without `--help` or
/// `--version` is always refused so.
pub proof fn lemma_only_listed_flags(args: Seq<Seq<char>>, word: Seq<char>, rest: Seq<Seq<char>>)
    ensures
        parsed(args) == Err::<InvocationText, Refusal>(Refusal::UnknownFlag(word)) ==> flag_like(word)
            && !listed(word) && args.contains(word),
        flag_like(word) && !listed(word) && meta_token(seq![word] + rest, 0) is None ==> parsed(
            seq![word] + rest,
        ) == Err::<InvocationText, Refusal>(Refusal::UnknownFlag(word)),
{
    if parsed(args) == Err::<InvocationText, Refusal>(Refusal::UnknownFlag(word)) {
        assert(meta_token(args, 0) is None);
        match scan(args, 0, scan_start()) {
            ScanEnd::Finished(st) => {
                assert(finish(st) != Err::<InvocationText, Refusal>(Refusal::UnknownFlag(word)));
            },
            ScanEnd::Failed(_) => lemma_scan_unknown(args, 0, scan_start(), word),
            _ => {},
        }
    }
    if flag_like(word) && !listed(word) {
        lemma_listed_words(word);
        assert((seq![word] + rest)[0] == word);
    }
}

/// The kind of `--help`, `-h`, `--version` or `-V`.
pub open spec fn meta_kind(word: Seq<char>) -> InvocationText {
    if word == "--help"@ || word == "-h"@ {
        InvocationText::Help
    } else {
        InvocationText::Version
    }
}

/// Reading on from the `i`th argument of `pre` to its end without meeting
/// `--help` or `--version`, the next argument is the first of the two.
proof fn lemma_meta_found(pre: Seq<Seq<char>>, word: Seq<char>, post: Seq<Seq<char>>, i: int)
    requires
        word == "--help"@ || word == "-h"@ || word == "--version"@ || word == "-V"@,
        0 <= i <= pre.len(),
        reaches(pre, i, pre.len() as int),
        meta_token(pre, i) is None,
    ensures
        meta_token(pre + seq![word] + post, i) == Some(meta_kind(word)),
    decreases pre.len() - i,
{
    let all = pre + seq![word] + post;
    if i == pre.len() {
        assert(all[i] == word);
    } else {
        assert(all[i] == pre[i]);
        if takes_value(pre[i]) {
            assert(reaches(pre, i + 2, pre.len() as int));
            assert(i + 2 <= pre.len());
            lemma_meta_found(pre, word, post, i + 2);
        } else {
            lemma_meta_found(pre, word, post, i + 1);
        }
    }
}

/// `--help` and `--version` win wherever they stand as arguments of their
/// own (not as the value of `--export`, `--out` or `--example`): whatever
/// comes before them, mistakes included, and whatever follows, the line
/// asks for help (or the version), the first of the two to appear.
pub proof fn lemma_help_wins_wherever(pre: Seq<Seq<char>>, word: Seq<char>, post: Seq<Seq<char>>)
    requires
        word == "--help"@ || word == "-h"@ || word == "--version"@ || word == "-V"@,
        reaches(pre, 0, pre.len() as int),
        meta_token(pre, 0) is None,
    ensures
        parsed(pre + seq![word] + post) == Ok::<InvocationText, Refusal>(meta_kind(word)),
{
    lemma_meta_found(pre, word, post, 0);
}

/// Whether `u` is one whole argument the parser accepts: a flag without a
/// value, a flag with a value it accepts, or a positional.
pub open spec fn valid_unit(u: Seq<Seq<char>>) -> bool {
    ||| u.len() == 1 && (u[0] == "--fk-samples"@ || u[0] == "--timing"@ || !flag_like(u[0]))
    ||| u.len() == 2 && (u[0] == "--out"@ || (u[0] == "--export"@ && format_named(u[1]) is Some) || (
    u[0] == "--example"@ && example_named(u[1]) is Some))
}

/// Whether `u` is a positional (a file name).
pub open spec fn positional_unit(u: Seq<Seq<char>>) -> bool {
    u.len() == 1 && !flag_like(u[0])
}

/// What reading the whole argument `u` adds to `st`.
pub open spec fn unit_step(u: Seq<Seq<char>>, st: ScanState) -> ScanState {
    if u[0] == "--fk-samples"@ {
        ScanState { fk_samples: true, ..st }
    } else if u[0] == "--timing"@ {
        ScanState { timing: true, ..st }
    } else if u[0] == "--out"@ {
        ScanState { out: Some(u[1]), ..st }
    } else if u[0] == "--export"@ {
        ScanState { format: format_named(u[1]), ..st }
    } else if u[0] == "--example"@ {
        ScanState { example: example_named(u[1]), ..st }
    } else {
        ScanState { positional: st.positional.push(u[0]), ..st }
    }
}

/// Reading depends only on what is left to read.
proof fn lemma_scan_shift(a: Seq<Seq<char>>, i: int, b: Seq<Seq<char>>, j: int)
    requires
        0 <= i <= a.len(),
        0 <= j <= b.len(),
        a.skip(i) == b.skip(j),
    ensures
        forall|st: ScanState| #[trigger] scan(a, i, st) == scan(b, j, st),
        meta_token(a, i) == meta_token(b, j),
    decreases a.len() - i,
{
    assert(a.len() - i == b.len() - j) by {
        assert(a.skip(i).len() == b.skip(j).len());
    }
    if i < a.len() {
        assert(a[i] == a.skip(i)[0] && b[j] == b.skip(j)[0]);
        if i + 1 < a.len() {
            assert(a[i + 1] == a.skip(i)[1] && b[j + 1] == b.skip(j)[1]);
        }
        assert(a.skip(i + 1) == b.skip(j + 1)) by {
            assert(a.skip(i + 1) =~= a.skip(i).skip(1));
            assert(b.skip(j + 1) =~= b.skip(j).skip(1));
        }
        lemma_scan_shift(a, i + 1, b, j + 1);
        if i + 2 <= a.len() {
            assert(a.skip(i + 2) == b.skip(j + 2)) by {
                assert(a.skip(i + 2) =~= a.skip(i).skip(2));
                assert(b.skip(j + 2) =~= b.skip(j).skip(2));
            }
            lemma_scan_shift(a, i + 2, b, j + 2);
        }
    }
    assert forall|st: ScanState| #[trigger] scan(a, i, st) == scan(b, j, st) by {
        if i < a.len() {
            lemma_scan_step(a, i, b, j, st);
        }
    }
}

/// One step of reading, the same on two lines that agree from there on.
proof fn lemma_scan_step(a: Seq<Seq<char>>, i: int, b: Seq<Seq<char>>, j: int, st: ScanState)
    requires
        0 <= i < a.len(),
        0 <= j < b.len(),
        a.len() - i == b.len() - j,
        a[i] == b[j],
        i + 1 < a.len() ==> a[i + 1] == b[j + 1],
        forall|s: ScanState| #[trigger] scan(a, i + 1, s) == scan(b, j + 1, s),
        i + 2 <= a.len() ==> forall|s: ScanState| #[trigger] scan(a, i + 2, s) == scan(b, j + 2, s),
    ensures
        scan(a, i, st) == scan(b, j, st),
{
    let arg = a[i];
    if arg == "--help"@ || arg == "-h"@ || arg == "--version"@ || arg == "-V"@ {
    } else if arg == "--export"@ {
        if i + 1 < a.len() {
            if let Some(f) = format_named(a[i + 1]) {
                assert(scan(a, i + 2, ScanState { format: Some(f), ..st }) == scan(b, j + 2, ScanState { format: Some(f), ..st }));
            }
        }
    } else if arg == "--out"@ {
        if i + 1 < a.len() {
            assert(scan(a, i + 2, ScanState { out: Some(a[i + 1]), ..st }) == scan(b, j + 2, ScanState { out: Some(a[i + 1]), ..st }));
        }
    } else if arg == "--fk-samples"@ {
        assert(scan(a, i + 1, ScanState { fk_samples: true, ..st }) == scan(b, j + 1, ScanState { fk_samples: true, ..st }));
    } else if arg == "--timing"@ {
        assert(scan(a, i + 1, ScanState { timing: true, ..st }) == scan(b, j + 1, ScanState { timing: true, ..st }));
    } else if arg == "--example"@ {
        if i + 1 < a.len() {
            if let Some(e) = example_named(a[i + 1]) {
                assert(scan(a, i + 2, ScanState { example: Some(e), ..st }) == scan(b, j + 2, ScanState { example: Some(e), ..st }));
            }
        }
    } else if flag_like(arg) {
    } else {
        let next = ScanState { positional: st.positional.push(arg), ..st };
        assert(scan(a, i + 1, next) == scan(b, j + 1, next));
    }
}

/// Reading a prefix made of whole arguments: either it ends the reading
/// (a mistake, or help), or the rest is read from where it left off.
proof fn lemma_scan_prefix(pre: Seq<Seq<char>>, rest: Seq<Seq<char>>, i: int)
    requires
        0 <= i <= pre.len(),
        reaches(pre, i, pre.len() as int),
    ensures
        forall|st: ScanState| #[trigger] scan(pre + rest, i, st) == match scan(pre, i, st) {
            ScanEnd::Finished(after) => scan(pre + rest, pre.len() as int, after),
            other => other,
        },
        meta_token(pre + rest, i) == match meta_token(pre, i) {
            Some(m) => Some(m),
            None => meta_token(pre + rest, pre.len() as int),
        },
    decreases pre.len() - i,
{
    let all = pre + rest;
    reveal_strlit("--help");
    reveal_strlit("-h");
    reveal_strlit("--version");
    reveal_strlit("-V");
    reveal_strlit("--export");
    reveal_strlit("--out");
    reveal_strlit("--example");
    reveal_strlit("--fk-samples");
    reveal_strlit("--timing");
    if i < pre.len() {
        assert(all[i] == pre[i]);
        if takes_value(pre[i]) {
            assert(reaches(pre, i + 2, pre.len() as int));
            assert(i + 2 <= pre.len());
            assert(all[i + 1] == pre[i + 1]);
            lemma_scan_prefix(pre, rest, i + 2);
        } else {
            if i + 1 < pre.len() {
                assert(all[i + 1] == pre[i + 1]);
            }
            lemma_scan_prefix(pre, rest, i + 1);
        }
    }
    assert forall|st: ScanState| #[trigger] scan(pre + rest, i, st) == match scan(pre, i, st) {
        ScanEnd::Finished(after) => scan(pre + rest, pre.len() as int, after),
        other => other,
    } by {
        if i < pre.len() {
            let arg = pre[i];
            if arg == "--help"@ || arg == "-h"@ || arg == "--version"@ || arg == "-V"@ {
            } else if arg == "--export"@ {
                if let Some(f) = format_named(pre[i + 1]) {
                    let next = ScanState { format: Some(f), ..st };
                    assert(scan(all, i + 2, next) == match scan(pre, i + 2, next) {
                        ScanEnd::Finished(after) => scan(all, pre.len() as int, after),
                        other => other,
                    });
                }
            } else if arg == "--out"@ {
                let next = ScanState { out: Some(pre[i + 1]), ..st };
                assert(scan(all, i + 2, next) == match scan(pre, i + 2, next) {
                    ScanEnd::Finished(after) => scan(all, pre.len() as int, after),
                    other => other,
                });
            } else if arg == "--fk-samples"@ {
                let next = ScanState { fk_samples: true, ..st };
                assert(scan(all, i + 1, next) == match scan(pre, i + 1, next) {
                    ScanEnd::Finished(after) => scan(all, pre.len() as int, after),
                    other => other,
                });
            } else if arg == "--timing"@ {
                let next = ScanState { timing: true, ..st };
                assert(scan(all, i + 1, next) == match scan(pre, i + 1, next) {
                    ScanEnd::Finished(after) => scan(all, pre.len() as int, after),
                    other => other,
                });
            } else if arg == "--example"@ {
                if let Some(e) = example_named(pre[i + 1]) {
                    let next = ScanState { example: Some(e), ..st };
                    assert(scan(all, i + 2, next) == match scan(pre, i + 2, next) {
                        ScanEnd::Finished(after) => scan(all, pre.len() as int, after),
                        other => other,
                    });
                }
            } else if flag_like(arg) {
            } else {
                let next = ScanState { positional: st.positional.push(arg), ..st };
                assert(scan(all, i + 1, next) == match scan(pre, i + 1, next) {
                    ScanEnd::Finished(after) => scan(all, pre.len() as int, after),
                    other => other,
                });
            }
        }
    }
}

/// Reading a whole argument the parser accepts adds it to what is
/// gathered, and it holds no `--help` or `--version`.
proof fn lemma_scan_unit(u: Seq<Seq<char>>, rest: Seq<Seq<char>>)
    requires
        valid_unit(u),
    ensures
        forall|st: ScanState| #[trigger] scan(u + rest, 0, st) == scan(rest, 0, unit_step(u, st)),
        meta_token(u + rest, 0) == meta_token(rest, 0),
{
    reveal_strlit("--help");
    reveal_strlit("-h");
    reveal_strlit("--version");
    reveal_strlit("-V");
    reveal_strlit("--export");
    reveal_strlit("--out");
    reveal_strlit("--example");
    reveal_strlit("--fk-samples");
    reveal_strlit("--timing");
    let all = u + rest;
    assert(all[0] == u[0]);
    if u.len() == 2 {
        assert(all[1] == u[1]);
    }
    assert(all.skip(u.len() as int) == rest.skip(0)) by {
        assert(all.skip(u.len() as int) =~= rest);
        assert(rest.skip(0) =~= rest);
    }
    lemma_scan_shift(all, u.len() as int, rest, 0);
    assert(flag_like("--help"@) && flag_like("-h"@) && flag_like("--version"@) && flag_like("-V"@));
    assert(flag_like("--export"@) && flag_like("--out"@) && flag_like("--example"@));
    assert(flag_like("--help"@) && flag_like("-h"@) && flag_like("--version"@) && flag_like("-V"@));
    assert(flag_like("--export"@) && flag_like("--out"@) && flag_like("--example"@));
    assert(flag_like("--fk-samples"@) && flag_like("--timing"@));
    assert("--help"@.len() == 6 && "-h"@.len() == 2 && "--version"@.len() == 9 && "-V"@.len() == 2);
    assert("--out"@.len() == 5 && "--export"@.len() == 8 && "--example"@.len() == 9);
    assert("--fk-samples"@.len() == 12 && "--timing"@.len() == 8);
    assert("-h"@[1] == 'h' && "-V"@[1] == 'V' && "--version"@[2] == 'v' && "--example"@[2] == 'e');
    assert("--timing"@[2] == 't' && "--export"@[2] == 'e' && "--out"@[2] == 'o' && "--fk-samples"@[2] == 'f');
    assert(!(u[0] == "--help"@ || u[0] == "-h"@ || u[0] == "--version"@ || u[0] == "-V"@));
    assert(takes_value(u[0]) <==> u.len() == 2);
    assert(meta_token(all, 0) == meta_token(all, u.len() as int));
    assert forall|st: ScanState| #[trigger] scan(u + rest, 0, st) == scan(rest, 0, unit_step(u, st)) by {
        let next = unit_step(u, st);
        assert(scan(all, u.len() as int, next) == scan(rest, 0, next));
        if u[0] == "--fk-samples"@ {
        } else if u[0] == "--timing"@ {
        } else if u[0] == "--out"@ {
        } else if u[0] == "--export"@ {
            assert(format_named(all[1]) is Some);
        } else if u[0] == "--example"@ {
            assert(example_named(all[1]) is Some);
        } else {
            assert(!flag_like(all[0]));
        }
        assert(scan(all, 0, st) == scan(all, u.len() as int, next));
    }
}

/// The order of the arguments does not matter: two neighbouring arguments
/// the parser accepts, not both file names and not the same flag, can be
/// exchanged wherever they stand among whole arguments, and the line asks
/// for the same thing (a file name keeps its place among the others; of a
/// flag given twice the later wins, so those are not exchanged).
pub proof fn lemma_argument_order_free(pre: Seq<Seq<char>>, u: Seq<Seq<char>>, v: Seq<Seq<char>>, post: Seq<Seq<char>>)
    requires
        reaches(pre, 0, pre.len() as int),
        valid_unit(u),
        valid_unit(v),
        u[0] != v[0],
        !(positional_unit(u) && positional_unit(v)),
    ensures
        parsed(pre + u + v + post) == parsed(pre + v + u + post),
{
    let x = pre + u + v + post;
    let y = pre + v + u + post;
    let xr = u + (v + post);
    let yr = v + (u + post);
    assert(x == pre + xr);
    assert(y == pre + yr);
    lemma_scan_prefix(pre, xr, 0);
    lemma_scan_prefix(pre, yr, 0);
    assert(x.skip(pre.len() as int) == xr.skip(0)) by {
        assert(x.skip(pre.len() as int) =~= xr);
        assert(xr.skip(0) =~= xr);
    }
    assert(y.skip(pre.len() as int) == yr.skip(0)) by {
        assert(y.skip(pre.len() as int) =~= yr);
        assert(yr.skip(0) =~= yr);
    }
    lemma_scan_shift(x, pre.len() as int, xr, 0);
    lemma_scan_shift(y, pre.len() as int, yr, 0);
    lemma_scan_unit(u, v + post);
    lemma_scan_unit(v, post);
    lemma_scan_unit(v, u + post);
    lemma_scan_unit(u, post);
    assert forall|st: ScanState| unit_step(v, unit_step(u, st)) == unit_step(u, unit_step(v, st)) by {
        reveal_strlit("--export");
        reveal_strlit("--out");
        reveal_strlit("--example");
        reveal_strlit("--fk-samples");
        reveal_strlit("--timing");
    }
    match scan(pre, 0, scan_start()) {
        ScanEnd::Finished(after) => {
            assert(scan(x, 0, scan_start()) == scan(xr, 0, after));
            assert(scan(y, 0, scan_start()) == scan(yr, 0, after));
            assert(scan(xr, 0, after) == scan(post, 0, unit_step(v, unit_step(u, after))));
            assert(scan(yr, 0, after) == scan(post, 0, unit_step(u, unit_step(v, after))));
        },
        _ => {},
    }
}

/// A line made of whole arguments, in order.
pub open spec fn flatten(units: Seq<Seq<Seq<char>>>) -> Seq<Seq<char>>
    decreases units.len(),
{
    if units.len() == 0 {
        Seq::empty()
    } else {
        units[0] + flatten(units.drop_first())
    }
}

/// What reading the whole arguments `units` in order adds to `st`.
pub open spec fn fold_units(units: Seq<Seq<Seq<char>>>, st: ScanState) -> ScanState
    decreases units.len(),
{
    if units.len() == 0 {
        st
    } else {
        fold_units(units.drop_first(), unit_step(units[0], st))
    }
}

/// The file names among `units`, in order.
pub open spec fn positionals(units: Seq<Seq<Seq<char>>>) -> Seq<Seq<char>>
    decreases units.len(),
{
    if units.len() == 0 {
        Seq::empty()
    } else {
        (if positional_unit(units[0]) { seq![units[0][0]] } else { Seq::empty() }) + positionals(
            units.drop_first(),
        )
    }
}

/// Every one of `units` is a whole argument the parser accepts, and no
/// flag is given twice.
pub open spec fn plain_line(units: Seq<Seq<Seq<char>>>) -> bool {
    &&& forall|k: int| 0 <= k < units.len() ==> valid_unit(#[trigger] units[k])
    &&& forall|j: int, k: int|
        0 <= j < k < units.len() && !positional_unit(units[j]) && !positional_unit(units[k]) ==> #[trigger] units[j][0]
            != #[trigger] units[k][0]
}

/// Reading a line of whole arguments the parser accepts gathers them all,
/// and meets no `--help` or `--version`.
proof fn lemma_scan_units(units: Seq<Seq<Seq<char>>>, rest: Seq<Seq<char>>)
    requires
        forall|k: int| 0 <= k < units.len() ==> valid_unit(#[trigger] units[k]),
    ensures
        forall|st: ScanState| #[trigger] scan(flatten(units) + rest, 0, st) == scan(rest, 0, fold_units(units, st)),
        meta_token(flatten(units) + rest, 0) == meta_token(rest, 0),
    decreases units.len(),
{
    if units.len() == 0 {
        assert(flatten(units) + rest == rest);
    } else {
        let tail = units.drop_first();
        assert forall|k: int| 0 <= k < tail.len() implies valid_unit(#[trigger] tail[k]) by {
            assert(tail[k] == units[k + 1]);
        }
        lemma_scan_units(tail, rest);
        assert(valid_unit(units[0]));
        lemma_scan_unit(units[0], flatten(tail) + rest);
        assert(flatten(units) + rest == units[0] + (flatten(tail) + rest));
    }
}

/// What a line of whole arguments gathers, field by field: each flag's
/// value is the one its argument gave (or the earlier one when the line
/// has no such flag), and the file names follow on in their order.
proof fn lemma_fold_fields(units: Seq<Seq<Seq<char>>>, st: ScanState)
    requires
        plain_line(units),
    ensures
        fold_units(units, st).positional == st.positional + positionals(units),
        fold_units(units, st).fk_samples == (st.fk_samples || exists|k: int|
            0 <= k < units.len() && #[trigger] units[k][0] == "--fk-samples"@),
        fold_units(units, st).timing == (st.timing || exists|k: int|
            0 <= k < units.len() && #[trigger] units[k][0] == "--timing"@),
        forall|k: int| 0 <= k < units.len() && #[trigger] units[k][0] == "--out"@ ==> fold_units(units, st).out
            == Some(units[k][1]),
        (forall|k: int| 0 <= k < units.len() ==> #[trigger] units[k][0] != "--out"@) ==> fold_units(units, st).out
            == st.out,
        forall|k: int| 0 <= k < units.len() && #[trigger] units[k][0] == "--export"@ ==> fold_units(units, st).format
            == format_named(units[k][1]),
        (forall|k: int| 0 <= k < units.len() ==> #[trigger] units[k][0] != "--export"@) ==> fold_units(units, st).format
            == st.format,
        forall|k: int| 0 <= k < units.len() && #[trigger] units[k][0] == "--example"@ ==> fold_units(units, st).example
            == example_named(units[k][1]),
        (forall|k: int| 0 <= k < units.len() ==> #[trigger] units[k][0] != "--example"@) ==> fold_units(units, st).example
            == st.example,
    decreases units.len(),
{
    reveal_strlit("--export");
    reveal_strlit("--out");
    reveal_strlit("--example");
    reveal_strlit("--fk-samples");
    reveal_strlit("--timing");
    assert("--out"@.len() == 5 && "--export"@.len() == 8 && "--example"@.len() == 9);
    assert("--fk-samples"@.len() == 12 && "--timing"@.len() == 8);
    assert("--timing"@[2] == 't' && "--export"@[2] == 'e' && "--example"@[3] == 'x' && "--export"@[3] == 'x');
    assert("--example"@[4] == 'a' && "--export"@[4] == 'p');
    assert(flag_like("--export"@) && flag_like("--out"@) && flag_like("--example"@));
    assert(flag_like("--fk-samples"@) && flag_like("--timing"@));
    if units.len() > 0 {
        let u = units[0];
        let tail = units.drop_first();
        let next = unit_step(u, st);
        assert(valid_unit(u));
        assert forall|k: int| 0 <= k < tail.len() implies valid_unit(#[trigger] tail[k]) by {
            assert(tail[k] == units[k + 1]);
        }
        assert forall|j: int, k: int|
            0 <= j < k < tail.len() && !positional_unit(tail[j]) && !positional_unit(tail[k]) implies #[trigger] tail[j][0]
                != #[trigger] tail[k][0] by {
            assert(tail[j] == units[j + 1] && tail[k] == units[k + 1]);
        }
        lemma_fold_fields(tail, next);
        assert(fold_units(units, st) == fold_units(tail, next));
        assert(positionals(units) == (if positional_unit(u) { seq![u[0]] } else { Seq::<Seq<char>>::empty() })
            + positionals(tail));
        // A flag the first argument gives is given nowhere after it.
        assert forall|k: int| 0 <= k < tail.len() && !positional_unit(u) implies #[trigger] tail[k][0] != u[0] by {
            assert(tail[k] == units[k + 1]);
            if !positional_unit(units[k + 1]) {
                assert(units[0][0] != units[k + 1][0]);
            }
        }
        assert forall|k: int| 0 <= k < units.len() && k > 0 implies #[trigger] units[k] == tail[k - 1] by {}
        if positional_unit(u) {
            assert(st.positional + seq![u[0]] + positionals(tail) == st.positional + (seq![u[0]] + positionals(tail)));
        } else {
            assert(st.positional + Seq::<Seq<char>>::empty() == st.positional);
        }
        assert forall|k: int| 0 <= k < units.len() && #[trigger] units[k][0] == "--out"@ implies fold_units(units, st).out
            == Some(units[k][1]) by {
            if k > 0 {
                assert(tail[k - 1] == units[k]);
            }
        }
        assert forall|k: int| 0 <= k < units.len() && #[trigger] units[k][0] == "--export"@ implies fold_units(units, st).format
            == format_named(units[k][1]) by {
            if k > 0 {
                assert(tail[k - 1] == units[k]);
            }
        }
        assert forall|k: int| 0 <= k < units.len() && #[trigger] units[k][0] == "--example"@ implies fold_units(units, st).example
            == example_named(units[k][1]) by {
            if k > 0 {
                assert(tail[k - 1] == units[k]);
            }
        }
        if forall|k: int| 0 <= k < units.len() ==> #[trigger] units[k][0] != "--out"@ {
            assert forall|k: int| 0 <= k < tail.len() implies #[trigger] tail[k][0] != "--out"@ by {
                assert(tail[k] == units[k + 1]);
            }
        }
        if forall|k: int| 0 <= k < units.len() ==> #[trigger] units[k][0] != "--export"@ {
            assert forall|k: int| 0 <= k < tail.len() implies #[trigger] tail[k][0] != "--export"@ by {
                assert(tail[k] == units[k + 1]);
            }
        }
        if forall|k: int| 0 <= k < units.len() ==> #[trigger] units[k][0] != "--example"@ {
            assert forall|k: int| 0 <= k < tail.len() implies #[trigger] tail[k][0] != "--example"@ by {
                assert(tail[k] == units[k + 1]);
            }
        }
        if exists|k: int| 0 <= k < tail.len() && #[trigger] tail[k][0] == "--fk-samples"@ {
            let k = choose|k: int| 0 <= k < tail.len() && #[trigger] tail[k][0] == "--fk-samples"@;
            assert(units[k + 1][0] == "--fk-samples"@);
        }
        if exists|k: int| 0 <= k < units.len() && #[trigger] units[k][0] == "--fk-samples"@ {
            let k = choose|k: int| 0 <= k < units.len() && #[trigger] units[k][0] == "--fk-samples"@;
            if k > 0 {
                assert(tail[k - 1][0] == "--fk-samples"@);
            }
        }
        if exists|k: int| 0 <= k < tail.len() && #[trigger] tail[k][0] == "--timing"@ {
            let k = choose|k: int| 0 <= k < tail.len() && #[trigger] tail[k][0] == "--timing"@;
            assert(units[k + 1][0] == "--timing"@);
        }
        if exists|k: int| 0 <= k < units.len() && #[trigger] units[k][0] == "--timing"@ {
            let k = choose|k: int| 0 <= k < units.len() && #[trigger] units[k][0] == "--timing"@;
            if k > 0 {
                assert(tail[k - 1][0] == "--timing"@);
            }
        }
    }
}

/// The order of the arguments does not matter: two lines made of the same
/// whole arguments, each accepted by the parser and no flag given twice,
/// ask for the same thing as long as their file names come in the same
/// order (a flag keeps its value with it).
pub proof fn lemma_reordering_free(a: Seq<Seq<Seq<char>>>, b: Seq<Seq<Seq<char>>>)
    requires
        plain_line(a),
        plain_line(b),
        a.to_multiset() == b.to_multiset(),
        positionals(a) == positionals(b),
    ensures
        parsed(flatten(a)) == parsed(flatten(b)),
{
    lemma_scan_units(a, Seq::empty());
    lemma_scan_units(b, Seq::empty());
    assert(flatten(a) + Seq::<Seq<char>>::empty() == flatten(a));
    assert(flatten(b) + Seq::<Seq<char>>::empty() == flatten(b));
    let s0 = scan_start();
    lemma_fold_fields(a, s0);
    lemma_fold_fields(b, s0);
    let fa = fold_units(a, s0);
    let fb = fold_units(b, s0);
    a.to_multiset_ensures();
    b.to_multiset_ensures();
    assert forall|u: Seq<Seq<char>>| a.contains(u) <==> b.contains(u) by {
        assert(a.to_multiset().count(u) == b.to_multiset().count(u));
        assert(a.contains(u) <==> a.to_multiset().count(u) > 0);
        assert(b.contains(u) <==> b.to_multiset().count(u) > 0);
    }
    // Each flag is in one line exactly when it is in the other, with the
    // same value.
    assert(fa.out == fb.out) by {
        if exists|k: int| 0 <= k < a.len() && #[trigger] a[k][0] == "--out"@ {
            let k = choose|k: int| 0 <= k < a.len() && #[trigger] a[k][0] == "--out"@;
            assert(a.contains(a[k]));
            let j = choose|j: int| 0 <= j < b.len() && b[j] == a[k];
            assert(b[j][0] == "--out"@);
        } else if exists|k: int| 0 <= k < b.len() && #[trigger] b[k][0] == "--out"@ {
            let k = choose|k: int| 0 <= k < b.len() && #[trigger] b[k][0] == "--out"@;
            assert(b.contains(b[k]));
            let j = choose|j: int| 0 <= j < a.len() && a[j] == b[k];
            assert(a[j][0] == "--out"@);
        }
    }
    assert(fa.format == fb.format) by {
        if exists|k: int| 0 <= k < a.len() && #[trigger] a[k][0] == "--export"@ {
            let k = choose|k: int| 0 <= k < a.len() && #[trigger] a[k][0] == "--export"@;
            assert(a.contains(a[k]));
            let j = choose|j: int| 0 <= j < b.len() && b[j] == a[k];
            assert(b[j][0] == "--export"@);
        } else if exists|k: int| 0 <= k < b.len() && #[trigger] b[k][0] == "--export"@ {
            let k = choose|k: int| 0 <= k < b.len() && #[trigger] b[k][0] == "--export"@;
            assert(b.contains(b[k]));
            let j = choose|j: int| 0 <= j < a.len() && a[j] == b[k];
            assert(a[j][0] == "--export"@);
        }
    }
    assert(fa.example == fb.example) by {
        if exists|k: int| 0 <= k < a.len() && #[trigger] a[k][0] == "--example"@ {
            let k = choose|k: int| 0 <= k < a.len() && #[trigger] a[k][0] == "--example"@;
            assert(a.contains(a[k]));
            let j = choose|j: int| 0 <= j < b.len() && b[j] == a[k];
            assert(b[j][0] == "--example"@);
        } else if exists|k: int| 0 <= k < b.len() && #[trigger] b[k][0] == "--example"@ {
            let k = choose|k: int| 0 <= k < b.len() && #[trigger] b[k][0] == "--example"@;
            assert(b.contains(b[k]));
            let j = choose|j: int| 0 <= j < a.len() && a[j] == b[k];
            assert(a[j][0] == "--example"@);
        }
    }
    assert(fa.fk_samples == fb.fk_samples) by {
        if exists|k: int| 0 <= k < a.len() && #[trigger] a[k][0] == "--fk-samples"@ {
            let k = choose|k: int| 0 <= k < a.len() && #[trigger] a[k][0] == "--fk-samples"@;
            assert(a.contains(a[k]));
            let j = choose|j: int| 0 <= j < b.len() && b[j] == a[k];
            assert(b[j][0] == "--fk-samples"@);
        }
        if exists|k: int| 0 <= k < b.len() && #[trigger] b[k][0] == "--fk-samples"@ {
            let k = choose|k: int| 0 <= k < b.len() && #[trigger] b[k][0] == "--fk-samples"@;
            assert(b.contains(b[k]));
            let j = choose|j: int| 0 <= j < a.len() && a[j] == b[k];
            assert(a[j][0] == "--fk-samples"@);
        }
    }
    assert(fa.timing == fb.timing) by {
        if exists|k: int| 0 <= k < a.len() && #[trigger] a[k][0] == "--timing"@ {
            let k = choose|k: int| 0 <= k < a.len() && #[trigger] a[k][0] == "--timing"@;
            assert(a.contains(a[k]));
            let j = choose|j: int| 0 <= j < b.len() && b[j] == a[k];
            assert(b[j][0] == "--timing"@);
        }
        if exists|k: int| 0 <= k < b.len() && #[trigger] b[k][0] == "--timing"@ {
            let k = choose|k: int| 0 <= k < b.len() && #[trigger] b[k][0] == "--timing"@;
            assert(b.contains(b[k]));
            let j = choose|j: int| 0 <= j < a.len() && a[j] == b[k];
            assert(a[j][0] == "--timing"@);
        }
    }
    assert(fa.positional == fb.positional);
    assert(fa == fb);
}

/// The arguments from the `i`th on that are neither flags nor a flag's
/// value, in order: the file names of the line.
pub open spec fn plain_args(args: Seq<Seq<char>>, i: int) -> Seq<Seq<char>>
    decreases args.len() + 1 - i,
{
    if i < 0 || i >= args.len() {
        Seq::empty()
    } else if takes_value(args[i]) {
        plain_args(args, i + 2)
    } else if flag_like(args[i]) {
        plain_args(args, i + 1)
    } else {
        seq![args[i]] + plain_args(args, i + 1)
    }
}

/// Reading to the end gathers every argument that is neither a flag nor a
/// flag's value, in order, after the ones gathered before.
proof fn lemma_scan_gathers_plain_args(args: Seq<Seq<char>>, i: int, st: ScanState)
    requires
        0 <= i,
    ensures
        scan(args, i, st) matches ScanEnd::Finished(end) ==> end.positional == st.positional + plain_args(
            args,
            i,
        ),
    decreases args.len() - i,
{
    reveal_strlit("--help");
    reveal_strlit("-h");
    reveal_strlit("--version");
    reveal_strlit("-V");
    reveal_strlit("--export");
    reveal_strlit("--out");
    reveal_strlit("--example");
    reveal_strlit("--fk-samples");
    reveal_strlit("--timing");
    assert(flag_like("--help"@) && flag_like("-h"@) && flag_like("--version"@) && flag_like("-V"@));
    assert(flag_like("--export"@) && flag_like("--out"@) && flag_like("--example"@));
    assert(flag_like("--fk-samples"@) && flag_like("--timing"@));
    if i >= args.len() {
        assert(st.positional + Seq::<Seq<char>>::empty() == st.positional);
    } else {
        let arg = args[i];
        if arg == "--help"@ || arg == "-h"@ || arg == "--version"@ || arg == "-V"@ {
        } else if arg == "--export"@ {
            if i + 1 < args.len() {
                if let Some(f) = format_named(args[i + 1]) {
                    lemma_scan_gathers_plain_args(args, i + 2, ScanState { format: Some(f), ..st });
                }
            }
        } else if arg == "--out"@ {
            if i + 1 < args.len() {
                lemma_scan_gathers_plain_args(args, i + 2, ScanState { out: Some(args[i + 1]), ..st });
            }
        } else if arg == "--fk-samples"@ {
            lemma_scan_gathers_plain_args(args, i + 1, ScanState { fk_samples: true, ..st });
        } else if arg == "--timing"@ {
            lemma_scan_gathers_plain_args(args, i + 1, ScanState { timing: true, ..st });
        } else if arg == "--example"@ {
            if i + 1 < args.len() {
                if let Some(e) = example_named(args[i + 1]) {
                    lemma_scan_gathers_plain_args(args, i + 2, ScanState { example: Some(e), ..st });
                }
            }
        } else if flag_like(arg) {
        } else {
            let next = ScanState { positional: st.positional.push(arg), ..st };
            lemma_scan_gathers_plain_args(args, i + 1, next);
            assert(st.positional.push(arg) + plain_args(args, i + 1) == st.positional + (seq![arg] + plain_args(
                args,
                i + 1,
            )));
        }
    }
}

/// What `--help` or `--version` gives is help or the version.
proof fn lemma_meta_is_help_or_version(args: Seq<Seq<char>>, i: int)
    ensures
        meta_token(args, i) matches Some(m) ==> m == InvocationText::Help || m == InvocationText::Version,
    decreases args.len() + 1 - i,
{
    if 0 <= i < args.len() {
        lemma_meta_is_help_or_version(args, i + 1);
        lemma_meta_is_help_or_version(args, i + 2);
    }
}

/// Every file name on the line is used, whatever flags stand beside it:
/// the window opens exactly the arguments that are neither flags nor a
/// flag's value, in the order given, and the export's input is the one
/// such argument.
pub proof fn lemma_every_file_is_used(args: Seq<Seq<char>>)
    ensures
        parsed(args) matches Ok(InvocationText::Open { files, .. }) ==> files == plain_args(args, 0),
        parsed(args) matches Ok(InvocationText::Export { input, .. }) ==> plain_args(args, 0) == seq![input],
{
    lemma_scan_gathers_plain_args(args, 0, scan_start());
    lemma_meta_is_help_or_version(args, 0);
    assert(Seq::<Seq<char>>::empty() + plain_args(args, 0) == plain_args(args, 0));
    if meta_token(args, 0) is None {
        assert(parsed(args) == gathered(args));
        if let ScanEnd::Finished(end) = scan(args, 0, scan_start()) {
            assert(gathered(args) == finish(end));
            assert(end.positional == plain_args(args, 0));
            if end.positional.len() == 1 {
                assert(end.positional == seq![end.positional[0]]);
            }
        }
    }
}

/// `--help` or `-h` first is help, whatever follows.
pub proof fn lemma_help_first_wins(word: Seq<char>, rest: Seq<Seq<char>>)
    requires
        word == "--help"@ || word == "-h"@,
    ensures
        parsed(seq![word] + rest) == Ok::<InvocationText, Refusal>(InvocationText::Help),
{
    assert((seq![word] + rest)[0] == word);
}

/// Whether `word` occurs somewhere in `text`.
pub open spec fn contains_text(text: Seq<char>, word: Seq<char>) -> bool {
    exists|i: int| crate::text::occurs_at(text, word, i)
}

proof fn lemma_occurs_in_middle(a: Seq<char>, b: Seq<char>, c: Seq<char>, word: Seq<char>, i: int)
    requires
        crate::text::occurs_at(b, word, i),
    ensures
        crate::text::occurs_at(a + b + c, word, a.len() + i),
{
    assert((a + b + c).subrange(a.len() + i, a.len() + i + word.len()) =~= b.subrange(i, i + word.len()));
}

/// The options list for the first `j` flags is a prefix of the whole:
/// the rest is returned.
proof fn lemma_lines_prefix(flags: Seq<FlagText>, j: int) -> (tail: Seq<char>)
    requires
        0 <= j <= flags.len(),
    ensures
        flag_lines(flags) == flag_lines(flags.take(j)) + tail,
    decreases flags.len() - j,
{
    if j == flags.len() {
        assert(flags.take(j) == flags);
        assert(flag_lines(flags) == flag_lines(flags.take(j)) + Seq::<char>::empty());
        Seq::empty()
    } else {
        let tail = lemma_lines_prefix(flags, j + 1);
        assert(flags.take(j + 1).drop_last() == flags.take(j));
        assert(flag_lines(flags.take(j + 1)) == flag_lines(flags.take(j)) + flag_line(flags[j]));
        assert(flag_lines(flags) == flag_lines(flags.take(j)) + (flag_line(flags[j]) + tail));
        flag_line(flags[j]) + tail
    }
}

/// `--help` is generated from the table, so every flag the parser knows has
/// its help line: each long spelling, each short one and each description
/// is in the text.
pub proof fn lemma_help_lists_every_flag(k: int)
    requires
        0 <= k < flag_table().len(),
    ensures
        contains_text(help_text(), flag_table()[k].long),
        contains_text(help_text(), flag_table()[k].doc),
        flag_table()[k].short matches Some(short) ==> contains_text(help_text(), short),
{
    let t = flag_table();
    let f = t[k];
    let tail = lemma_lines_prefix(t, k + 1);
    assert(t.take(k + 1).drop_last() == t.take(k));
    assert(t.take(k + 1).last() == f);
    let before = help_head() + flag_lines(t.take(k));
    assert(help_text() == before + flag_line(f) + tail);
    let short_part = match f.short {
        Some(s) => s + ", "@,
        None => Seq::empty(),
    };
    let value_part = match f.value {
        Some(v) => " "@ + v,
        None => Seq::empty(),
    };
    reveal_strlit("  ");
    reveal_strlit("\n");
    reveal_strlit(", ");
    let spelled = spelling(f);
    assert(spelled == short_part + f.long + value_part);
    let pad = padded(spelled, 22);
    assert(pad.take(spelled.len() as int) == spelled);
    let line = flag_line(f);
    assert(line == "  "@ + pad + "  "@ + f.doc + "\n"@);
    // The long spelling.
    let at_long: int = 2 + short_part.len() as int;
    assert(line.subrange(at_long, at_long + f.long.len()) =~= f.long);
    assert(crate::text::occurs_at(line, f.long, at_long));
    lemma_occurs_in_middle(before, line, tail, f.long, at_long);
    // The description.
    let at_doc: int = 2 + pad.len() as int + 2;
    assert(line.subrange(at_doc, at_doc + f.doc.len()) =~= f.doc);
    lemma_occurs_in_middle(before, line, tail, f.doc, at_doc);
    // The short spelling.
    if let Some(short) = f.short {
        assert(line.subrange(2, 2 + short.len() as int) =~= short);
        lemma_occurs_in_middle(before, line, tail, short, 2);
    }
}

} // verus!
