//! Comparing and searching text.

use vstd::prelude::*;

verus! {

/// Whether `pat` stands in `text` at the place `i`.
pub open spec fn occurs_at(text: Seq<char>, pat: Seq<char>, i: int) -> bool {
    &&& 0 <= i <= text.len() - pat.len()
    &&& text.subrange(i, i + pat.len()) == pat
}

/// Whether `pat` stands somewhere in `text`.
pub open spec fn occurs(text: Seq<char>, pat: Seq<char>) -> bool {
    exists|i: int| occurs_at(text, pat, i)
}

/// A text occurs in another exactly if the other is made of something, the text,
/// and something.
pub proof fn law_occurs(text: Seq<char>, pat: Seq<char>)
    ensures
        occurs(text, pat) <==> exists|a: Seq<char>, b: Seq<char>| #[trigger] (a + pat + b) == text,
{
    if occurs(text, pat) {
        let i = choose|i: int| occurs_at(text, pat, i);
        let a = text.take(i);
        let b = text.skip(i + pat.len());
        assert(a + pat + b =~= text) by {
            assert forall|j: int| 0 <= j < text.len() implies (a + pat + b)[j] == text[j] by {
                if i <= j < i + pat.len() {
                    assert(text.subrange(i, i + pat.len())[j - i] == text[j]);
                }
            }
        }
    }
    if exists|a: Seq<char>, b: Seq<char>| #[trigger] (a + pat + b) == text {
        let (a, b) = choose|a: Seq<char>, b: Seq<char>| #[trigger] (a + pat + b) == text;
        let i = a.len() as int;
        assert(text.subrange(i, i + pat.len()) =~= pat);
        assert(occurs_at(text, pat, i));
    }
}

/// The characters of a string.
fn chars_of(s: &String) -> (r: Vec<char>)
    ensures
        r@ == s@,
{
    let mut r: Vec<char> = Vec::new();
    for c in it: s.as_str().chars()
        invariant
            it.seq() == s@,
            r@ == s@.take(it.index()),
    {
        r.push(c);
        assert(s@.take(it.index() + 1) =~= s@.take(it.index()).push(c));
    }
    assert(s@.take(s@.len() as int) =~= s@);
    r
}

/// Whether `pat` stands in `text` at the place `i`.
fn stands_at(text: &Vec<char>, pat: &Vec<char>, i: usize) -> (r: bool)
    requires
        i + pat@.len() <= text@.len(),
    ensures
        r == occurs_at(text@, pat@, i as int),
{
    let mut j: usize = 0;
    while j < pat.len()
        invariant
            j <= pat@.len(),
            i + pat@.len() <= text@.len() == text.len(),
            forall|k: int| 0 <= k < j ==> text@[i + k] == #[trigger] pat@[k],
        decreases pat@.len() - j,
    {
        if text[i + j] != pat[j] {
            assert(text@.subrange(i as int, i + pat@.len())[j as int] != pat@[j as int]);
            return false;
        }
        j = j + 1;
    }
    assert(text@.subrange(i as int, i + pat@.len()) =~= pat@);
    true
}

/// Whether `pat` stands somewhere in `text`.
pub fn contains(text: &String, pat: &String) -> (r: bool)
    ensures
        r == occurs(text@, pat@),
{
    let t = chars_of(text);
    let p = chars_of(pat);
    if p.len() > t.len() {
        return false;
    }
    let last: usize = t.len() - p.len();
    let mut i: usize = 0;
    loop
        invariant
            p@ == pat@,
            t@ == text@,
            last == t@.len() - p@.len(),
            i <= last,
            forall|k: int| 0 <= k < i ==> !occurs_at(t@, p@, k),
        decreases last - i,
    {
        if stands_at(&t, &p, i) {
            return true;
        }
        if i == last {
            return false;
        }
        i = i + 1;
    }
}

/// Whether a string is the given text.
pub fn same_text(s: &String, text: &str) -> (r: bool)
    ensures
        r == (s@ == text@),
{
    *s == text.to_owned()
}

} // verus!
