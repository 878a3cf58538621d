use vstd::prelude::*;
use vstd::string::StrSliceExecFns;

verus! {

/// `needle` stands in `haystack` starting at position `i`.
pub open spec fn occurs_at(haystack: Seq<char>, needle: Seq<char>, i: int) -> bool {
    &&& 0 <= i
    &&& i + needle.len() <= haystack.len()
    &&& haystack.subrange(i, i + needle.len()) == needle
}

/// `needle` is a substring of `haystack` (the empty string is one of every string).
pub open spec fn contains_text(haystack: Seq<char>, needle: Seq<char>) -> bool {
    exists|i: int| occurs_at(haystack, needle, i)
}

/// The characters of `s`, one by one.
pub fn chars_of(s: &str) -> (chars: Vec<char>)
    ensures
        chars@ == s@,
{
    let n = s.unicode_len();
    let mut chars: Vec<char> = Vec::new();
    for i in 0..n
        invariant
            n == s@.len(),
            chars@ == s@.take(i as int),
    {
        let c = s.get_char(i);
        chars.push(c);
        assert(s@.take(i + 1) =~= s@.take(i as int).push(c));
    }
    assert(s@.take(n as int) =~= s@);
    chars
}

/// Whether `needle` stands in `haystack` at position `i`.
pub(crate) fn occurs_at_exec(haystack: &Vec<char>, needle: &Vec<char>, i: usize) -> (r: bool)
    requires
        i + needle@.len() <= haystack@.len(),
    ensures
        r == occurs_at(haystack@, needle@, i as int),
{
    let m = needle.len();
    let hl = haystack.len();
    let mut j: usize = 0;
    while j < m
        invariant
            m == needle@.len(),
            hl == haystack@.len(),
            i + m <= hl,
            j <= m,
            forall|k: int| 0 <= k < j ==> haystack@[i + k] == needle@[k],
        decreases m - j,
    {
        if haystack[i + j] != needle[j] {
            assert(haystack@.subrange(i as int, i + m)[j as int] != needle@[j as int]);
            return false;
        }
        j = j + 1;
    }
    assert(haystack@.subrange(i as int, i + m) =~= needle@);
    true
}

/// Whether `needle` is a substring of `haystack`, as `str::contains` with a
/// string pattern answers it.
pub fn contains_str(haystack: &str, needle: &str) -> (r: bool)
    ensures
        r == contains_text(haystack@, needle@),
{
    let h = chars_of(haystack);
    let nd = chars_of(needle);
    if nd.len() > h.len() {
        assert forall|i: int| !occurs_at(haystack@, needle@, i) by {}
        return false;
    }
    let last = h.len() - nd.len();
    let mut i: usize = 0;
    while i <= last
        invariant_except_break
            i <= last,
        invariant
            h@ == haystack@,
            nd@ == needle@,
            last + nd@.len() == h@.len(),
            forall|k: int| 0 <= k < i ==> !occurs_at(haystack@, needle@, k),
        ensures
            forall|k: int| 0 <= k <= last ==> !occurs_at(haystack@, needle@, k),
        decreases last - i,
    {
        if occurs_at_exec(&h, &nd, i) {
            return true;
        }
        if i == last {
            assert(forall|k: int| 0 <= k <= last ==> !occurs_at(haystack@, needle@, k));
            break;
        }
        i = i + 1;
    }
    assert forall|k: int| !occurs_at(haystack@, needle@, k) by {
        if occurs_at(haystack@, needle@, k) {
            assert(k <= last);
        }
    }
    false
}

} // verus!
