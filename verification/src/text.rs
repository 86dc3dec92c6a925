//! Names and other text: equality, prefixes and the order of names.
//!
//! Names are ordered as Rust orders strings: character by character, by
//! code point, a proper prefix before what it is a prefix of.
use vstd::prelude::*;

verus! {

/// The names that a sequence of texts holds.
pub open spec fn names_of(names: Seq<String>) -> Seq<Seq<char>> {
    names.map_values(|name: String| name@)
}

/// Whether `a`, from index `from` on, comes before `b` from there on.
pub open spec fn precedes_from(a: Seq<char>, b: Seq<char>, from: int) -> bool
    decreases b.len() - from,
{
    if from < 0 || from >= b.len() {
        false
    } else if from >= a.len() {
        true
    } else if a[from] != b[from] {
        (a[from] as u32) < (b[from] as u32)
    } else {
        precedes_from(a, b, from + 1)
    }
}

/// Whether the name `a` comes before the name `b`.
pub open spec fn precedes(a: Seq<char>, b: Seq<char>) -> bool {
    precedes_from(a, b, 0)
}

proof fn lemma_precedes_from_total(a: Seq<char>, b: Seq<char>, from: int)
    requires
        0 <= from,
        from <= a.len(),
        from <= b.len(),
        a.subrange(0, from) == b.subrange(0, from),
    ensures
        precedes_from(a, b, from) || precedes_from(b, a, from) || a == b,
        !(precedes_from(a, b, from) && precedes_from(b, a, from)),
        a == b ==> !precedes_from(a, b, from),
    decreases a.len() + b.len() - 2 * from,
{
    if from >= a.len() || from >= b.len() {
        if from >= a.len() && from >= b.len() {
            assert(a.subrange(0, from) =~= a);
        }
    } else if a[from] != b[from] {
        vstd::utf8::char_u32_cast(a[from], a[from] as u32);
        vstd::utf8::char_u32_cast(b[from], b[from] as u32);
    } else {
        assert(a.subrange(0, from + 1) =~= a.subrange(0, from).push(a[from]));
        assert(b.subrange(0, from + 1) =~= b.subrange(0, from).push(b[from]));
        lemma_precedes_from_total(a, b, from + 1);
    }
}

/// Of two names exactly one comes before the other, unless they are the
/// same name.
pub proof fn lemma_precedes_total(a: Seq<char>, b: Seq<char>)
    ensures
        precedes(a, b) || precedes(b, a) || a == b,
        !(precedes(a, b) && precedes(b, a)),
        a == b ==> !precedes(a, b),
{
    assert(a.subrange(0, 0) =~= b.subrange(0, 0));
    lemma_precedes_from_total(a, b, 0);
}

proof fn lemma_precedes_from_transitive(a: Seq<char>, b: Seq<char>, c: Seq<char>, from: int)
    requires
        0 <= from,
        precedes_from(a, b, from),
        precedes_from(b, c, from),
    ensures
        precedes_from(a, c, from),
    decreases c.len() - from,
{
    if from >= a.len() {
    } else if a[from] != b[from] {
    } else if b[from] != c[from] {
    } else {
        lemma_precedes_from_transitive(a, b, c, from + 1);
    }
}

/// The order of names is transitive.
pub proof fn lemma_precedes_transitive(a: Seq<char>, b: Seq<char>, c: Seq<char>)
    requires
        precedes(a, b),
        precedes(b, c),
    ensures
        precedes(a, c),
{
    lemma_precedes_from_transitive(a, b, c, 0);
}

/// Whether two texts are the same.
pub fn same_text(a: &str, b: &str) -> (r: bool)
    ensures
        r == (a@ == b@),
{
    a.to_owned() == b.to_owned()
}

/// Whether the name `a` comes before the name `b`.
pub fn comes_before(a: &str, b: &str) -> (r: bool)
    ensures
        r == precedes(a@, b@),
{
    let n = a.unicode_len();
    let m = b.unicode_len();
    let mut i: usize = 0;
    while i < n && i < m
        invariant
            n == a@.len(),
            m == b@.len(),
            i <= n,
            i <= m,
            precedes(a@, b@) == precedes_from(a@, b@, i as int),
        decreases n - i,
    {
        let x = a.get_char(i);
        let y = b.get_char(i);
        if x != y {
            return (x as u32) < (y as u32);
        }
        i += 1;
    }
    i < m
}

/// Whether `text` begins with `prefix`.
pub fn begins_with(text: &str, prefix: &str) -> (r: bool)
    ensures
        r == prefix@.is_prefix_of(text@),
{
    let n = text.unicode_len();
    let m = prefix.unicode_len();
    if m > n {
        return false;
    }
    let mut i: usize = 0;
    while i < m
        invariant
            n == text@.len(),
            m == prefix@.len(),
            m <= n,
            i <= m,
            forall|k: int| 0 <= k < i ==> text@[k] == prefix@[k],
        decreases m - i,
    {
        if text.get_char(i) != prefix.get_char(i) {
            return false;
        }
        i += 1;
    }
    true
}

/// Whether `text` holds the character `wanted`.
pub fn holds_char(text: &str, wanted: char) -> (r: bool)
    ensures
        r == text@.contains(wanted),
{
    let n = text.unicode_len();
    let mut i: usize = 0;
    while i < n
        invariant
            n == text@.len(),
            i <= n,
            forall|k: int| 0 <= k < i ==> text@[k] != wanted,
        decreases n - i,
    {
        if text.get_char(i) == wanted {
            return true;
        }
        i += 1;
    }
    false
}

/// The lowercase form of a text, as Unicode defines it.
pub uninterp spec fn lowercase_of(text: Seq<char>) -> Seq<char>;

/// `str::to_lowercase`: the lowercase form of the text.
#[verifier::external_body]
pub(crate) fn lowercase(text: &str) -> (out: String)
    ensures
        out@ == lowercase_of(text@),
{
    text.to_lowercase()
}

} // verus!
