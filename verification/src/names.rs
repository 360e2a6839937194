//! Names for what a dropped file adds to the document: a valid link name
//! made from the file's stem, and the first free variant of a name.

use vstd::prelude::*;
use vstd::set_lib::{lemma_int_range, lemma_len_subset, lemma_map_size, set_int_range};
use crate::text::{chars_of, decimal, lemma_decimal_injective, push_chars, push_decimal, push_str, string_of};

verus! {

/// An ASCII letter.
pub open spec fn is_ascii_alpha(c: char) -> bool {
    ('a' <= c && c <= 'z') || ('A' <= c && c <= 'Z')
}

/// An ASCII letter or digit.
pub open spec fn is_ascii_alnum(c: char) -> bool {
    is_ascii_alpha(c) || ('0' <= c && c <= '9')
}

/// What a stem's character becomes in a name: itself when a name may hold
/// it (ASCII letters and digits, `_`, `.`, `-`), `_` otherwise.
pub open spec fn name_char(c: char) -> char {
    if is_ascii_alnum(c) || c == '_' || c == '.' || c == '-' { c } else { '_' }
}

/// The name a file stem gives a link: every character mapped by
/// [`name_char`]; `part` when there is none; a `_` in front when the first
/// is neither a letter nor `_`.
pub open spec fn stem_name(stem: Seq<char>) -> Seq<char> {
    let mapped = stem.map_values(|c: char| name_char(c));
    if mapped.len() == 0 {
        "part"@
    } else if !(is_ascii_alpha(mapped[0]) || mapped[0] == '_') {
        seq!['_'] + mapped
    } else {
        mapped
    }
}

/// A valid link name: it starts with an ASCII letter or `_`, and holds
/// only ASCII letters and digits, `_`, `.` and `-`.
pub open spec fn is_valid_name(name: Seq<char>) -> bool {
    &&& name.len() > 0
    &&& (('a' <= name[0] && name[0] <= 'z') || ('A' <= name[0] && name[0] <= 'Z') || name[0] == '_')
    &&& forall|i: int|
        0 <= i < name.len() ==> {
            let c = #[trigger] name[i];
            ('a' <= c && c <= 'z') || ('A' <= c && c <= 'Z') || ('0' <= c && c <= '9') || c == '_' || c == '.'
                || c == '-'
        }
}

/// A stem's name is always a valid name; a stem that already is one keeps
/// it unchanged; and otherwise each character a name may hold stays where
/// it was (after a `_` put in front when the stem starts with neither a
/// letter nor `_`), every other one becoming `_`.
pub proof fn lemma_stem_names_are_valid(stem: Seq<char>)
    ensures
        is_valid_name(stem_name(stem)),
        is_valid_name(stem) ==> stem_name(stem) == stem,
        stem.len() > 0 ==> {
            let name = stem_name(stem);
            let shift = name.len() - stem.len();
            &&& shift == 0 || shift == 1
            &&& shift == 1 ==> name[0] == '_'
            &&& forall|i: int|
                0 <= i < stem.len() ==> {
                    let c = #[trigger] stem[i];
                    name[i + shift] == if ('a' <= c && c <= 'z') || ('A' <= c && c <= 'Z') || ('0' <= c && c
                        <= '9') || c == '_' || c == '.' || c == '-' {
                        c
                    } else {
                        '_'
                    }
                }
        },
{
    let mapped = stem.map_values(|c: char| name_char(c));
    reveal_strlit("part");
    if is_valid_name(stem) {
        assert(mapped =~= stem);
    }
    if mapped.len() > 0 && !(is_ascii_alpha(mapped[0]) || mapped[0] == '_') {
        let name = seq!['_'] + mapped;
        assert forall|i: int| 0 <= i < name.len() implies ({
            let c = #[trigger] name[i];
            ('a' <= c && c <= 'z') || ('A' <= c && c <= 'Z') || ('0' <= c && c <= '9') || c == '_' || c == '.'
                || c == '-'
        }) by {
            if i > 0 {
                assert(name[i] == mapped[i - 1]);
            }
        }
        assert forall|i: int| 0 <= i < stem.len() implies #[trigger] name[i + 1] == mapped[i] by {}
    }
}

fn is_alpha(c: char) -> (b: bool)
    ensures
        b == is_ascii_alpha(c),
{
    ('a' <= c && c <= 'z') || ('A' <= c && c <= 'Z')
}

fn is_alnum(c: char) -> (b: bool)
    ensures
        b == is_ascii_alnum(c),
{
    is_alpha(c) || ('0' <= c && c <= '9')
}

/// Turns a file stem into a valid link name: every other character becomes
/// `_`, a leading digit gets one in front, nothing at all is `part`.
pub fn name_from_stem(stem: &str) -> (name: String)
    ensures
        name@ == stem_name(stem@),
{
    let chars = chars_of(stem);
    let mut mapped: Vec<char> = Vec::new();
    let mut i: usize = 0;
    while i < chars.len()
        invariant
            i <= chars@.len(),
            chars@ == stem@,
            mapped@ == chars@.take(i as int).map_values(|c: char| name_char(c)),
        decreases chars@.len() - i,
    {
        let c = chars[i];
        let kept = if is_alnum(c) || c == '_' || c == '.' || c == '-' { c } else { '_' };
        mapped.push(kept);
        i = i + 1;
        assert(chars@.take(i as int) == chars@.take(i - 1).push(c));
    }
    assert(chars@.take(chars@.len() as int) == chars@);
    if mapped.len() == 0 {
        let mut part: Vec<char> = Vec::new();
        push_str(&mut part, "part");
        return string_of(&part);
    }
    let first = mapped[0];
    if !(is_alpha(first) || first == '_') {
        let mut named: Vec<char> = Vec::new();
        named.push('_');
        push_chars(&mut named, &mapped);
        assert(named@ == seq!['_'] + mapped@);
        string_of(&named)
    } else {
        string_of(&mapped)
    }
}

/// The `n`th variant of `base`: `base_n`.
pub open spec fn variant(base: Seq<char>, n: nat) -> Seq<char> {
    base + "_"@ + decimal(n)
}

/// The names already in use, as text.
pub open spec fn taken_names(taken: Seq<String>) -> Set<Seq<char>> {
    taken.map_values(|s: String| s@).to_set()
}

/// What [`unique_name`] returns: `base` when it is free, else `base_n` for
/// the least `n >= 2` that is.
pub open spec fn is_unique_name(base: Seq<char>, taken: Set<Seq<char>>, name: Seq<char>) -> bool {
    if !taken.contains(base) {
        name == base
    } else {
        exists|n: nat|
            #![trigger variant(base, n)]
            n >= 2 && name == variant(base, n) && !taken.contains(variant(base, n)) && (forall|m: nat|
                2 <= m < n ==> taken.contains(#[trigger] variant(base, m)))
    }
}

proof fn lemma_variant_injective(base: Seq<char>, n: nat, m: nat)
    requires
        variant(base, n) == variant(base, m),
    ensures
        n == m,
{
    reveal_strlit("_");
    let k = base.len() + 1;
    assert(variant(base, n).skip(k as int) == decimal(n));
    assert(variant(base, m).skip(k as int) == decimal(m));
    lemma_decimal_injective(n, m);
}

/// When the variants `base_2` to `base_{n-1}` are all taken, there are at
/// least `n - 2` taken names.
proof fn lemma_variants_fit(base: Seq<char>, taken: Seq<String>, n: nat)
    requires
        n >= 2,
        forall|m: nat| 2 <= m < n ==> taken_names(taken).contains(#[trigger] variant(base, m)),
    ensures
        n - 2 <= taken.len(),
{
    let x = set_int_range(2, n as int);
    let f = |i: int| variant(base, i as nat);
    lemma_int_range(2, n as int);
    assert(vstd::relations::injective_on(f, x)) by {
        assert forall|a: int, b: int| x.contains(a) && x.contains(b) && #[trigger] f(a) == #[trigger] f(b)
            implies a == b by {
            lemma_variant_injective(base, a as nat, b as nat);
        }
    }
    let y = x.map(f);
    lemma_map_size(x, y, f);
    let names = taken.map_values(|s: String| s@);
    assert(y.subset_of(names.to_set())) by {
        assert forall|v: Seq<char>| y.contains(v) implies names.to_set().contains(v) by {
            let i = choose|i: int| x.contains(i) && f(i) == v;
            assert(taken_names(taken).contains(variant(base, i as nat)));
        }
    }
    names.lemma_cardinality_of_set();
    lemma_len_subset(y, names.to_set());
}

/// Whether `taken` holds `name`.
fn holds(taken: &Vec<String>, name: &String) -> (found: bool)
    ensures
        found == taken_names(taken@).contains(name@),
{
    let mut i: usize = 0;
    while i < taken.len()
        invariant
            i <= taken@.len(),
            forall|j: int| 0 <= j < i ==> taken@[j]@ != name@,
        decreases taken@.len() - i,
    {
        if taken[i] == *name {
            assert(taken@.map_values(|s: String| s@)[i as int] == name@);
            return true;
        }
        i = i + 1;
    }
    assert forall|v: Seq<char>| taken_names(taken@).contains(v) implies v != name@ by {
        let names = taken@.map_values(|s: String| s@);
        let j = choose|j: int| 0 <= j < names.len() && names[j] == v;
    }
    false
}

/// `base`, or the first of `base_2`, `base_3`, … that `taken` does not
/// contain.
pub fn unique_name(base: &str, taken: &Vec<String>) -> (name: String)
    ensures
        is_unique_name(base@, taken_names(taken@), name@),
{
    let mut base_chars: Vec<char> = Vec::new();
    push_str(&mut base_chars, base);
    let base_string = string_of(&base_chars);
    if !holds(taken, &base_string) {
        return base_string;
    }
    let mut n: u128 = 2;
    let limit: u128 = taken.len() as u128 + 2;
    while n <= limit
        invariant
            2 <= n <= taken@.len() + 3,
            limit == taken@.len() + 2,
            taken@.len() <= usize::MAX,
            taken_names(taken@).contains(base@),
            forall|m: nat| 2 <= m < n ==> taken_names(taken@).contains(#[trigger] variant(base@, m)),
        decreases taken@.len() + 3 - n,
    {
        let mut candidate: Vec<char> = Vec::new();
        push_str(&mut candidate, base);
        push_str(&mut candidate, "_");
        push_decimal(&mut candidate, n);
        let name = string_of(&candidate);
        proof { reveal_strlit("_"); }
        assert(name@ == variant(base@, n as nat));
        if !holds(taken, &name) {
            return name;
        }
        n = n + 1;
    }
    proof {
        lemma_variants_fit(base@, taken@, n as nat);
    }
    base_string
}

} // verus!
