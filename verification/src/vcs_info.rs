//! The commit a registry build came from, for `riggen --version`.
//!
//! `cargo package` writes `.cargo_vcs_info.json` into the crate it packs:
//! `{"git": {"sha1": "…", "dirty": true}, "path_in_vcs": "…"}`, with
//! `dirty` only under `--allow-dirty`. The format is fixed and small, so a
//! string search stands in for a JSON parser.

use vstd::prelude::*;
use crate::text::{chars_of, find, first_occurrence, push_chars, push_str, string_of};

verus! {

/// Whether `c` has the Unicode `White_Space` property, which is what
/// std's `char::is_whitespace` reads: the 25 code points that Unicode's
/// PropList lists as white space.
pub open spec fn white_space(c: char) -> bool {
    let n = c as u32;
    ||| 0x09 <= n <= 0x0D
    ||| n == 0x20
    ||| n == 0x85
    ||| n == 0xA0
    ||| n == 0x1680
    ||| 0x2000 <= n <= 0x200A
    ||| n == 0x2028
    ||| n == 0x2029
    ||| n == 0x202F
    ||| n == 0x205F
    ||| n == 0x3000
}

/// Whether `c` is white space, as `char::is_whitespace` reads it.
fn is_white(c: char) -> (b: bool)
    ensures
        b == white_space(c),
{
    let n = c as u32;
    (0x09 <= n && n <= 0x0D) || n == 0x20 || n == 0x85 || n == 0xA0 || n == 0x1680
        || (0x2000 <= n && n <= 0x200A) || n == 0x2028 || n == 0x2029 || n == 0x202F
        || n == 0x205F || n == 0x3000
}

/// `text` without its leading white space (`str::trim_start`).
pub open spec fn trimmed_start(text: Seq<char>) -> Seq<char>
    decreases text.len(),
{
    if text.len() > 0 && white_space(text[0]) {
        trimmed_start(text.drop_first())
    } else {
        text
    }
}

/// `text` without its leading colons (`trim_start_matches(':')`).
pub open spec fn without_colons(text: Seq<char>) -> Seq<char>
    decreases text.len(),
{
    if text.len() > 0 && text[0] == ':' {
        without_colons(text.drop_first())
    } else {
        text
    }
}

/// The string value of the first `"key": "value"` in `json`: what follows
/// the first `"key"`, past white space, one `:`, white space and an opening
/// `"`, up to the next `"`.
pub open spec fn field_value(json: Seq<char>, key: Seq<char>) -> Option<Seq<char>> {
    let pattern = seq!['"'] + key + seq!['"'];
    match first_occurrence(json, pattern) {
        None => None,
        Some(at) => {
            let rest = trimmed_start(json.skip(at + pattern.len()));
            if rest.len() > 0 && rest[0] == ':' {
                let rest = trimmed_start(rest.drop_first());
                if rest.len() > 0 && rest[0] == '"' {
                    let rest = rest.drop_first();
                    match first_occurrence(rest, seq!['"']) {
                        Some(end) => Some(rest.take(end)),
                        None => None,
                    }
                } else {
                    None
                }
            } else {
                None
            }
        },
    }
}

/// An ASCII hexadecimal digit.
pub open spec fn is_hex_digit(c: char) -> bool {
    ('0' <= c && c <= '9') || ('a' <= c && c <= 'f') || ('A' <= c && c <= 'F')
}

/// Whether the first `"dirty"` in `json` is followed, past white space and
/// colons, by `true`.
pub open spec fn is_dirty(json: Seq<char>) -> bool {
    match first_occurrence(json, "\"dirty\""@) {
        None => false,
        Some(at) => {
            let rest = trimmed_start(without_colons(trimmed_start(json.skip(at + 7))));
            rest.len() >= 4 && rest.take(4) == "true"@
        },
    }
}

/// The short hash the file names: the first seven characters of its `sha1`
/// (which must be at least seven hexadecimal digits), with `-dirty` when
/// Cargo packed an unclean tree.
pub open spec fn hash_of(json: Seq<char>) -> Option<Seq<char>> {
    match field_value(json, "sha1"@) {
        None => None,
        Some(sha) => if sha.len() < 7 || !(forall|i: int| 0 <= i < sha.len() ==> is_hex_digit(
            #[trigger] sha[i],
        )) {
            None
        } else {
            Some(sha.take(7) + if is_dirty(json) { "-dirty"@ } else { Seq::empty() })
        },
    }
}

/// The index of the first character of `text` from `from` on that is not
/// white space (`text.len()` when there is none).
fn skip_white(text: &Vec<char>, from: usize) -> (at: usize)
    requires
        from <= text@.len(),
    ensures
        from <= at <= text@.len(),
        text@.skip(at as int) == trimmed_start(text@.skip(from as int)),
    decreases text@.len() - from,
{
    if from < text.len() && is_white(text[from]) {
        assert(text@.skip(from as int).drop_first() == text@.skip(from + 1));
        skip_white(text, from + 1)
    } else {
        from
    }
}

/// The index of the first character of `text` from `from` on that is not a
/// colon.
fn skip_colons(text: &Vec<char>, from: usize) -> (at: usize)
    requires
        from <= text@.len(),
    ensures
        from <= at <= text@.len(),
        text@.skip(at as int) == without_colons(text@.skip(from as int)),
    decreases text@.len() - from,
{
    if from < text.len() && text[from] == ':' {
        assert(text@.skip(from as int).drop_first() == text@.skip(from + 1));
        skip_colons(text, from + 1)
    } else {
        from
    }
}

/// The characters of `text` from `from` on.
fn tail(text: &Vec<char>, from: usize) -> (rest: Vec<char>)
    requires
        from <= text@.len(),
    ensures
        rest@ == text@.skip(from as int),
{
    let mut rest: Vec<char> = Vec::new();
    let mut i = from;
    while i < text.len()
        invariant
            from <= i <= text@.len(),
            rest@ == text@.subrange(from as int, i as int),
        decreases text@.len() - i,
    {
        rest.push(text[i]);
        i = i + 1;
    }
    rest
}

/// The first `n` characters of `text`.
fn head(text: &Vec<char>, n: usize) -> (first: Vec<char>)
    requires
        n <= text@.len(),
    ensures
        first@ == text@.take(n as int),
{
    let mut first: Vec<char> = Vec::new();
    let mut i: usize = 0;
    while i < n
        invariant
            i <= n <= text@.len(),
            first@ == text@.take(i as int),
        decreases n - i,
    {
        first.push(text[i]);
        i = i + 1;
    }
    first
}

/// The string value of `"key": "value"`, the first occurrence.
pub fn string_field(json: &str, key: &str) -> (value: Option<String>)
    ensures
        match value {
            Some(v) => field_value(json@, key@) == Some(v@),
            None => field_value(json@, key@) is None,
        },
{
    let text = chars_of(json);
    let mut pattern: Vec<char> = Vec::new();
    pattern.push('"');
    push_str(&mut pattern, key);
    pattern.push('"');
    assert(pattern@ == seq!['"'] + key@ + seq!['"']);
    let at = match find(&text, &pattern) {
        None => return None,
        Some(at) => at,
    };
    let n = text.len();
    assert(at + pattern@.len() <= n);
    let ghost pat = seq!['"'] + key@ + seq!['"'];
    let after = at + pattern.len();
    let r1 = skip_white(&text, after);
    let ghost rest1 = trimmed_start(json@.skip(at + pat.len()));
    assert(text@.skip(r1 as int) == rest1);
    if r1 >= text.len() || text[r1] != ':' {
        assert(!(rest1.len() > 0 && rest1[0] == ':'));
        return None;
    }
    assert(rest1[0] == ':');
    assert(text@.skip(r1 as int).drop_first() == text@.skip(r1 + 1));
    let r2 = skip_white(&text, r1 + 1);
    let ghost rest2 = trimmed_start(rest1.drop_first());
    assert(text@.skip(r2 as int) == rest2);
    if r2 >= text.len() || text[r2] != '"' {
        assert(!(rest2.len() > 0 && rest2[0] == '"'));
        return None;
    }
    assert(rest2[0] == '"');
    assert(text@.skip(r2 as int).drop_first() == text@.skip(r2 + 1));
    let body = tail(&text, r2 + 1);
    assert(body@ == rest2.drop_first());
    let quote = vec!['"'];
    assert(quote@ == seq!['"']);
    match find(&body, &quote) {
        None => None,
        Some(end) => {
            let value = head(&body, end);
            Some(string_of(&value))
        },
    }
}

/// Whether `c` is an ASCII hexadecimal digit.
fn hex_digit(c: char) -> (b: bool)
    ensures
        b == is_hex_digit(c),
{
    ('0' <= c && c <= '9') || ('a' <= c && c <= 'f') || ('A' <= c && c <= 'F')
}

/// Whether every character of `digits` is a hexadecimal digit.
fn all_hex(digits: &Vec<char>) -> (b: bool)
    ensures
        b == forall|j: int| 0 <= j < digits@.len() ==> is_hex_digit(#[trigger] digits@[j]),
{
    let mut i: usize = 0;
    while i < digits.len()
        invariant
            i <= digits@.len(),
            forall|j: int| 0 <= j < i ==> is_hex_digit(#[trigger] digits@[j]),
        decreases digits@.len() - i,
    {
        if !hex_digit(digits[i]) {
            return false;
        }
        i = i + 1;
    }
    true
}

/// Whether the package was dirty.
fn dirty(text: &Vec<char>) -> (d: bool)
    ensures
        d == is_dirty(text@),
{
    let mut pattern: Vec<char> = Vec::new();
    push_str(&mut pattern, "\"dirty\"");
    proof { reveal_strlit("\"dirty\""); reveal_strlit("true"); }
    match find(text, &pattern) {
        None => false,
        Some(at) => {
            let n = text.len();
            assert(at + 7 <= n);
            let a = skip_white(text, at + 7);
            let b = skip_colons(text, a);
            let c = skip_white(text, b);
            if c < text.len() && text.len() - c >= 4 && text[c] == 't' && text[c + 1] == 'r' && text[c + 2] == 'u'
                && text[c + 3] == 'e' {
                assert(text@.skip(c as int).take(4) =~= "true"@);
                true
            } else {
                assert(!(text@.skip(c as int).len() >= 4 && text@.skip(c as int).take(4) == "true"@)) by {
                    if text@.skip(c as int).len() >= 4 && text@.skip(c as int).take(4) == "true"@ {
                        assert(text@.skip(c as int).take(4)[0] == 't');
                        assert(text@.skip(c as int).take(4)[1] == 'r');
                        assert(text@.skip(c as int).take(4)[2] == 'u');
                        assert(text@.skip(c as int).take(4)[3] == 'e');
                    }
                }
                false
            }
        },
    }
}

/// The short hash (seven characters) from the file's contents, with
/// `-dirty` when Cargo packed an unclean tree; `None` when there is no
/// `sha1` or it is not one.
pub fn short_hash(json: &str) -> (hash: Option<String>)
    ensures
        match hash {
            Some(h) => hash_of(json@) == Some(h@),
            None => hash_of(json@) is None,
        },
{
    let sha = match string_field(json, "sha1") {
        None => return None,
        Some(sha) => sha,
    };
    let digits = chars_of(sha.as_str());
    if digits.len() < 7 {
        return None;
    }
    if !all_hex(&digits) {
        return None;
    }
    let text = chars_of(json);
    let mut short = head(&digits, 7);
    if dirty(&text) {
        push_str(&mut short, "-dirty");
    } else {
        assert(short@ + Seq::<char>::empty() == short@);
    }
    Some(string_of(&short))
}

} // verus!
