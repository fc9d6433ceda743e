//! Delimiter-separated text: where a separator first occurs in a sequence of
//! characters, the field before it and the remainder after it.

use vstd::prelude::*;
use vstd::std_specs::iter::IteratorSpec;

verus! {

/// `sep` occurs in `s` at position `i`.
pub open spec fn occurs_at(s: Seq<char>, sep: Seq<char>, i: int) -> bool {
    &&& 0 <= i
    &&& i + sep.len() <= s.len()
    &&& s.subrange(i, i + sep.len()) == sep
}

/// The position of the first occurrence of `sep` in `s`, or `s.len()` when
/// there is none.
pub open spec fn first_occurrence(s: Seq<char>, sep: Seq<char>) -> int
    decreases s.len(),
{
    if s.len() == 0 || occurs_at(s, sep, 0) {
        0
    } else {
        1 + first_occurrence(s.skip(1), sep)
    }
}

/// `s` holds `sep` somewhere.
pub open spec fn has_sep(s: Seq<char>, sep: Seq<char>) -> bool {
    first_occurrence(s, sep) + sep.len() <= s.len()
}

/// The field of `s` before the first `sep`: all of `s` when there is none.
pub open spec fn head(s: Seq<char>, sep: Seq<char>) -> Seq<char> {
    s.take(first_occurrence(s, sep))
}

/// What follows the first `sep` in `s`: empty when there is none.
pub open spec fn tail(s: Seq<char>, sep: Seq<char>) -> Seq<char> {
    if has_sep(s, sep) {
        s.skip(first_occurrence(s, sep) + sep.len())
    } else {
        Seq::empty()
    }
}

/// `s` begins with `prefix`.
pub open spec fn starts_with(s: Seq<char>, prefix: Seq<char>) -> bool {
    prefix.len() <= s.len() && s.take(prefix.len() as int) == prefix
}

/// The first occurrence is a position of `s`, or its length.
pub proof fn lemma_first_occurrence_bounds(s: Seq<char>, sep: Seq<char>)
    ensures
        0 <= first_occurrence(s, sep) <= s.len(),
    decreases s.len(),
{
    if s.len() == 0 || occurs_at(s, sep, 0) {
    } else {
        lemma_first_occurrence_bounds(s.skip(1), sep);
    }
}

/// A position with no occurrence before it, which holds one or is the end of
/// `s`, is the first occurrence.
pub proof fn lemma_first_occurrence_is(s: Seq<char>, sep: Seq<char>, i: int)
    requires
        0 <= i <= s.len(),
        forall|j: int| 0 <= j < i ==> !occurs_at(s, sep, j),
        occurs_at(s, sep, i) || i == s.len(),
    ensures
        first_occurrence(s, sep) == i,
    decreases s.len(),
{
    if s.len() == 0 {
    } else if occurs_at(s, sep, 0) {
    } else {
        let t = s.skip(1);
        assert forall|j: int| 0 <= j < i - 1 implies !occurs_at(t, sep, j) by {
            lemma_occurs_shift(s, sep, j);
        }
        if i < s.len() {
            lemma_occurs_shift(s, sep, i - 1);
        }
        lemma_first_occurrence_is(t, sep, i - 1);
    }
}

/// No occurrence lies before the first, and the first is one where `s`
/// holds any.
pub proof fn lemma_first_occurrence_least(s: Seq<char>, sep: Seq<char>)
    ensures
        forall|j: int| 0 <= j < first_occurrence(s, sep) ==> !occurs_at(s, sep, j),
        has_sep(s, sep) <==> occurs_at(s, sep, first_occurrence(s, sep)),
        has_sep(s, sep) <==> exists|j: int| occurs_at(s, sep, j),
    decreases s.len(),
{
    let at = first_occurrence(s, sep);
    lemma_first_occurrence_bounds(s, sep);
    if s.len() == 0 {
        assert(s.subrange(0, 0) =~= Seq::<char>::empty());
        assert(has_sep(s, sep) <==> sep =~= Seq::<char>::empty());
        assert forall|j: int| occurs_at(s, sep, j) implies has_sep(s, sep) by {}
    } else if occurs_at(s, sep, 0) {
    } else {
        let t = s.skip(1);
        lemma_first_occurrence_least(t, sep);
        lemma_first_occurrence_bounds(t, sep);
        assert forall|j: int| 0 <= j < at implies !occurs_at(s, sep, j) by {
            if j > 0 {
                lemma_occurs_shift(s, sep, j - 1);
            }
        }
        lemma_occurs_shift(s, sep, at - 1);
        if exists|j: int| occurs_at(s, sep, j) {
            let j = choose|j: int| occurs_at(s, sep, j);
            lemma_occurs_shift(s, sep, j - 1);
            assert(occurs_at(t, sep, j - 1));
        }
    }
}

/// An occurrence in `s` without its first character is one in `s`, one
/// position later.
pub proof fn lemma_occurs_shift(s: Seq<char>, sep: Seq<char>, j: int)
    requires
        s.len() > 0,
        0 <= j,
    ensures
        occurs_at(s.skip(1), sep, j) == occurs_at(s, sep, j + 1),
{
    if j + sep.len() <= s.len() - 1 {
        assert(s.skip(1).subrange(j, j + sep.len()) =~= s.subrange(j + 1, j + 1 + sep.len()));
    }
}

/// Where the first character of `sep` does not occur in `a`, the text
/// `a + sep + b` splits at that `sep`, into `a` and `b`.
pub proof fn lemma_joined_splits(a: Seq<char>, sep: Seq<char>, b: Seq<char>)
    requires
        sep.len() > 0,
        !a.contains(sep[0]),
    ensures
        first_occurrence(a + sep + b, sep) == a.len(),
        has_sep(a + sep + b, sep),
        head(a + sep + b, sep) == a,
        tail(a + sep + b, sep) == b,
{
    let s = a + sep + b;
    let n = a.len() as int;
    assert forall|j: int| 0 <= j < n implies !occurs_at(s, sep, j) by {
        if occurs_at(s, sep, j) {
            assert(s.subrange(j, j + sep.len())[0] == sep[0]);
            assert(a[j] == sep[0]);
        }
    }
    assert(s.subrange(n, n + sep.len()) =~= sep);
    lemma_first_occurrence_is(s, sep, n);
    assert(s.take(n) =~= a);
    assert(s.skip(n + sep.len()) =~= b);
}

/// The field before a separator of one character does not hold that
/// character.
pub proof fn lemma_head_holds_no_sep(s: Seq<char>, sep: Seq<char>)
    requires
        sep.len() == 1,
    ensures
        !head(s, sep).contains(sep[0]),
{
    lemma_first_occurrence_bounds(s, sep);
    lemma_first_occurrence_least(s, sep);
    let field = head(s, sep);
    assert forall|j: int| 0 <= j < field.len() implies field[j] != sep[0] by {
        if field[j] == sep[0] {
            assert(s.subrange(j, j + 1) =~= sep);
            assert(occurs_at(s, sep, j));
        }
    }
}

/// Where the first character of `sep` does not occur in `s`, neither does
/// `sep`, and `s` is one field.
pub proof fn lemma_plain_is_one_field(s: Seq<char>, sep: Seq<char>)
    requires
        sep.len() > 0,
        !s.contains(sep[0]),
    ensures
        !has_sep(s, sep),
        head(s, sep) == s,
        tail(s, sep) == Seq::<char>::empty(),
{
    let n = s.len() as int;
    assert forall|j: int| 0 <= j < n implies !occurs_at(s, sep, j) by {
        if occurs_at(s, sep, j) {
            assert(s.subrange(j, j + sep.len())[0] == sep[0]);
            assert(s[j] == sep[0]);
        }
    }
    lemma_first_occurrence_is(s, sep, n);
    assert(s.take(n) =~= s);
}

/// The characters of `s`, in order.
pub fn to_chars(s: &str) -> (chars: Vec<char>)
    ensures
        chars@ == s@,
{
    let mut chars: Vec<char> = Vec::new();
    for c in it: s.chars()
        invariant
            it.seq() == s@,
            chars@ == s@.take(it.index() as int),
    {
        chars.push(c);
    }
    chars
}

/// Whether `pat` occurs in `chars` at position `i`.
fn occurs_here(chars: &Vec<char>, pat: &Vec<char>, i: usize) -> (found: bool)
    requires
        i <= chars.len(),
    ensures
        found == occurs_at(chars@, pat@, i as int),
{
    if pat.len() > chars.len() - i {
        return false;
    }
    let mut k: usize = 0;
    while k < pat.len()
        invariant
            i + pat.len() <= chars.len(),
            k <= pat.len(),
            forall|j: int| 0 <= j < k ==> chars@[i + j] == pat@[j],
        decreases pat.len() - k,
    {
        if chars[i + k] != pat[k] {
            proof {
                let window = chars@.subrange(i as int, i + pat.len());
                assert(window[k as int] == chars@[i + k]);
            }
            return false;
        }
        k = k + 1;
    }
    assert(chars@.subrange(i as int, i + pat.len()) =~= pat@);
    true
}

/// The position of the first occurrence of `pat` in `chars`, or the length
/// of `chars`.
fn find_first(chars: &Vec<char>, pat: &Vec<char>) -> (pos: usize)
    ensures
        pos == first_occurrence(chars@, pat@),
{
    let mut i: usize = 0;
    while i < chars.len()
        invariant
            i <= chars.len(),
            forall|j: int| 0 <= j < i ==> !occurs_at(chars@, pat@, j),
        decreases chars.len() - i,
    {
        if occurs_here(chars, pat, i) {
            proof {
                lemma_first_occurrence_is(chars@, pat@, i as int);
            }
            return i;
        }
        i = i + 1;
    }
    proof {
        lemma_first_occurrence_is(chars@, pat@, i as int);
    }
    i
}

/// Splits `s` at the first `sep`: the field before it, and what follows it
/// where there is one.
pub fn split_first(s: &str, sep: &str) -> (parts: (String, Option<String>))
    ensures
        parts.0@ == head(s@, sep@),
        parts.1 is Some <==> has_sep(s@, sep@),
        parts.1 matches Some(rest) ==> rest@ == tail(s@, sep@),
{
    let chars = to_chars(s);
    let pat = to_chars(sep);
    let at = find_first(&chars, &pat);
    proof {
        lemma_first_occurrence_bounds(s@, sep@);
    }
    let field = s.substring_char(0, at).to_owned();
    if pat.len() <= chars.len() - at {
        let rest = s.substring_char(at + pat.len(), chars.len()).to_owned();
        (field, Some(rest))
    } else {
        (field, None)
    }
}

/// Whether two strings hold the same characters.
pub fn same_text(a: &str, b: &str) -> (same: bool)
    ensures
        same == (a@ == b@),
{
    let x = to_chars(a);
    let y = to_chars(b);
    if x.len() != y.len() {
        return false;
    }
    let found = occurs_here(&x, &y, 0);
    proof {
        assert(x@.subrange(0, x@.len() as int) =~= x@);
    }
    found
}

/// Whether `s` begins with `prefix`.
pub fn begins_with(s: &str, prefix: &str) -> (found: bool)
    ensures
        found == starts_with(s@, prefix@),
{
    let x = to_chars(s);
    let y = to_chars(prefix);
    occurs_here(&x, &y, 0)
}

} // verus!
