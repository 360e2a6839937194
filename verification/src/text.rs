//! Text built a character at a time: what the rest of the library uses to
//! read a `&str` as its characters and to hand back a `String`.

use vstd::prelude::*;

verus! {

/// The characters of `s`, in order.
pub fn chars_of(s: &str) -> (chars: Vec<char>)
    ensures
        chars@ == s@,
{
    let mut chars: Vec<char> = Vec::new();
    for c in it: s.chars()
        invariant
            chars@ == it.seq().take(it.index() as int),
            it.seq() == s@,
    {
        chars.push(c);
    }
    chars
}

/// `chars` as a `String`, through std's `FromIterator<&char> for String`,
/// which pushes each character in turn: the string's characters are
/// `chars`, in order.
#[verifier::external_body]
pub(crate) fn string_of(chars: &Vec<char>) -> (s: String)
    ensures
        s@ == chars@,
{
    chars.iter().collect()
}

/// Appends the characters of `s` to `out`.
pub fn push_str(out: &mut Vec<char>, s: &str)
    ensures
        final(out)@ == old(out)@ + s@,
{
    let chars = chars_of(s);
    push_chars(out, &chars);
}

/// Appends `chars` to `out`.
pub fn push_chars(out: &mut Vec<char>, chars: &Vec<char>)
    ensures
        final(out)@ == old(out)@ + chars@,
{
    let ghost start = out@;
    let mut i: usize = 0;
    while i < chars.len()
        invariant
            i <= chars@.len(),
            out@ == start + chars@.take(i as int),
        decreases chars@.len() - i,
    {
        out.push(chars[i]);
        i = i + 1;
        assert(chars@.take(i as int) == chars@.take(i - 1).push(chars@[i - 1]));
    }
    assert(chars@.take(chars@.len() as int) == chars@);
}

/// The digit for `d`, `0` to `9`.
pub open spec fn digit(d: nat) -> char {
    if d == 0 { '0' }
    else if d == 1 { '1' }
    else if d == 2 { '2' }
    else if d == 3 { '3' }
    else if d == 4 { '4' }
    else if d == 5 { '5' }
    else if d == 6 { '6' }
    else if d == 7 { '7' }
    else if d == 8 { '8' }
    else { '9' }
}

/// `n` in decimal, no leading zeros (`0` is `"0"`).
pub open spec fn decimal(n: nat) -> Seq<char>
    decreases n,
{
    if n < 10 {
        seq![digit(n)]
    } else {
        decimal(n / 10).push(digit(n % 10))
    }
}

fn digit_char(d: u128) -> (c: char)
    requires
        d < 10,
    ensures
        c == digit(d as nat),
{
    if d == 0 { '0' }
    else if d == 1 { '1' }
    else if d == 2 { '2' }
    else if d == 3 { '3' }
    else if d == 4 { '4' }
    else if d == 5 { '5' }
    else if d == 6 { '6' }
    else if d == 7 { '7' }
    else if d == 8 { '8' }
    else { '9' }
}

/// Appends `n` in decimal to `out`.
pub fn push_decimal(out: &mut Vec<char>, n: u128)
    ensures
        final(out)@ == old(out)@ + decimal(n as nat),
    decreases n,
{
    if n < 10 {
        out.push(digit_char(n));
        assert(decimal(n as nat) == seq![digit(n as nat)]);
    } else {
        push_decimal(out, n / 10);
        out.push(digit_char(n % 10));
        assert(decimal(n as nat) == decimal((n / 10) as nat).push(digit((n % 10) as nat)));
    }
}

} // verus!

verus! {

/// Every number's decimal spelling has at least one digit.
pub proof fn lemma_decimal_nonempty(n: nat)
    ensures
        decimal(n).len() >= 1,
    decreases n,
{
    if n >= 10 {
        lemma_decimal_nonempty(n / 10);
    }
}

/// Two numbers with one decimal spelling are one number.
pub proof fn lemma_decimal_injective(n: nat, m: nat)
    requires
        decimal(n) == decimal(m),
    ensures
        n == m,
    decreases n,
{
    if n < 10 && m < 10 {
        assert(decimal(n) == seq![digit(n)]);
        assert(decimal(m) == seq![digit(m)]);
        assert(seq![digit(n)][0] == digit(n));
        assert(seq![digit(m)][0] == digit(m));
        assert(digit(n) == digit(m));
    } else if n < 10 {
        lemma_decimal_nonempty(m / 10);
        assert(decimal(m).len() >= 2);
    } else if m < 10 {
        lemma_decimal_nonempty(n / 10);
        assert(decimal(n).len() >= 2);
    } else {
        let a = decimal(n / 10);
        let b = decimal(m / 10);
        assert(decimal(n).len() == a.len() + 1);
        assert(a.len() == b.len());
        assert(decimal(n).last() == digit(n % 10));
        assert(decimal(m).last() == digit(m % 10));
        assert(a == decimal(n).drop_last());
        assert(b == decimal(m).drop_last());
        lemma_decimal_injective(n / 10, m / 10);
        assert(digit(n % 10) == digit(m % 10));
        assert(n % 10 == m % 10);
        assert(n == 10 * (n / 10) + n % 10) by (nonlinear_arith);
        assert(m == 10 * (m / 10) + m % 10) by (nonlinear_arith);
    }
}

} // verus!

verus! {

/// The items of `items` with `sep` between each two.
pub open spec fn joined(items: Seq<Seq<char>>, sep: Seq<char>) -> Seq<char>
    decreases items.len(),
{
    if items.len() == 0 {
        Seq::empty()
    } else if items.len() == 1 {
        items[0]
    } else {
        joined(items.drop_last(), sep) + sep + items.last()
    }
}

/// Appends `items` joined by `sep` to `out`.
pub fn join(out: &mut Vec<char>, items: &Vec<&str>, sep: &str)
    ensures
        final(out)@ == old(out)@ + joined(items@.map_values(|s: &str| s@), sep@),
{
    let ghost start = out@;
    let ghost all = items@.map_values(|s: &str| s@);
    let mut i: usize = 0;
    while i < items.len()
        invariant
            i <= items@.len(),
            all == items@.map_values(|s: &str| s@),
            out@ == start + joined(all.take(i as int), sep@),
        decreases items@.len() - i,
    {
        let ghost before = out@;
        if i > 0 {
            push_str(out, sep);
        }
        push_str(out, items[i]);
        assert(all.take(i + 1).drop_last() == all.take(i as int));
        assert(all.take(i + 1).last() == items@[i as int]@);
        if i == 0 {
            assert(all.take(1).len() == 1);
            assert(joined(all.take(0), sep@) == Seq::<char>::empty());
            assert(out@ == start + items@[0]@);
        } else {
            assert(out@ == start + joined(all.take(i as int), sep@) + sep@ + items@[i as int]@);
        }
        i = i + 1;
    }
    assert(all.take(items@.len() as int) == all);
}

/// Whether two character sequences are the same.
pub fn chars_equal(a: &Vec<char>, b: &Vec<char>) -> (same: bool)
    ensures
        same == (a@ == b@),
{
    if a.len() != b.len() {
        return false;
    }
    let mut i: usize = 0;
    while i < a.len()
        invariant
            i <= a@.len(),
            a@.len() == b@.len(),
            forall|j: int| 0 <= j < i ==> a@[j] == b@[j],
        decreases a@.len() - i,
    {
        if a[i] != b[i] {
            return false;
        }
        i = i + 1;
    }
    assert(a@ == b@);
    true
}

} // verus!

verus! {

/// Whether `needle` occurs in `hay` starting at `i`.
pub open spec fn occurs_at(hay: Seq<char>, needle: Seq<char>, i: int) -> bool {
    0 <= i && i + needle.len() <= hay.len() && hay.subrange(i, i + needle.len()) == needle
}

/// Whether `i` is where `needle` first occurs in `hay`.
pub open spec fn first_at(hay: Seq<char>, needle: Seq<char>, i: int) -> bool {
    occurs_at(hay, needle, i) && forall|j: int| 0 <= j < i ==> !occurs_at(hay, needle, j)
}

/// Where `needle` first occurs in `hay`, if it does.
pub open spec fn first_occurrence(hay: Seq<char>, needle: Seq<char>) -> Option<int> {
    if exists|i: int| first_at(hay, needle, i) {
        Some(choose|i: int| first_at(hay, needle, i))
    } else {
        None
    }
}

/// At most one place is the first.
pub proof fn lemma_first_at_unique(hay: Seq<char>, needle: Seq<char>, i: int, j: int)
    requires
        first_at(hay, needle, i),
        first_at(hay, needle, j),
    ensures
        i == j,
{
    if i < j {
        assert(!occurs_at(hay, needle, i));
    } else if j < i {
        assert(!occurs_at(hay, needle, j));
    }
}

/// Whether `needle` occurs in `hay` at `i`.
fn matches_at(hay: &Vec<char>, needle: &Vec<char>, i: usize) -> (b: bool)
    requires
        i + needle@.len() <= hay@.len(),
    ensures
        b == occurs_at(hay@, needle@, i as int),
{
    let n = hay.len();
    let mut k: usize = 0;
    while k < needle.len()
        invariant
            n == hay@.len(),
            i + needle@.len() <= hay@.len(),
            k <= needle@.len(),
            forall|m: int| 0 <= m < k ==> hay@[i + m] == needle@[m],
        decreases needle@.len() - k,
    {
        if hay[i + k] != needle[k] {
            assert(!occurs_at(hay@, needle@, i as int)) by {
                if occurs_at(hay@, needle@, i as int) {
                    assert(hay@.subrange(i as int, i + needle@.len())[k as int] == needle@[k as int]);
                }
            }
            return false;
        }
        k = k + 1;
    }
    assert(hay@.subrange(i as int, i + needle@.len()) =~= needle@);
    true
}

/// Where `needle` first occurs in `hay`.
pub fn find(hay: &Vec<char>, needle: &Vec<char>) -> (at: Option<usize>)
    ensures
        match at {
            Some(i) => first_occurrence(hay@, needle@) == Some(i as int) && first_at(
                hay@,
                needle@,
                i as int,
            ),
            None => first_occurrence(hay@, needle@) is None,
        },
{
    if needle.len() > hay.len() {
        assert forall|i: int| !#[trigger] first_at(hay@, needle@, i) by {}
        return None;
    }
    if needle.len() == 0 {
        assert(hay@.subrange(0, 0) =~= needle@);
        assert(first_at(hay@, needle@, 0));
        proof {
            let c = choose|c: int| first_at(hay@, needle@, c);
            lemma_first_at_unique(hay@, needle@, c, 0);
        }
        return Some(0);
    }
    let n = hay.len();
    let last = n - needle.len();
    let mut i: usize = 0;
    while i <= last
        invariant
            n == hay@.len(),
            needle@.len() >= 1,
            last == hay@.len() - needle@.len(),
            i <= last + 1,
            forall|j: int| 0 <= j < i ==> !occurs_at(hay@, needle@, j),
        decreases last + 1 - i,
    {
        if matches_at(hay, needle, i) {
            assert(first_at(hay@, needle@, i as int));
            proof {
                let c = choose|c: int| first_at(hay@, needle@, c);
                lemma_first_at_unique(hay@, needle@, c, i as int);
            }
            return Some(i);
        }
        i = i + 1;
    }
    assert forall|j: int| !#[trigger] first_at(hay@, needle@, j) by {
        if first_at(hay@, needle@, j) {
            assert(j < i);
        }
    }
    None
}

} // verus!
