use vstd::prelude::*;

verus! {

use vstd::string::StrSliceExecFns;

/// What splitting `s` at the first occurrence of `sep` yields: the parts
/// strictly before and strictly after that occurrence, or nothing when the
/// separator does not occur.
pub open spec fn spec_split_once(s: Seq<char>, sep: char) -> Option<(Seq<char>, Seq<char>)> {
    match s.index_of_first(sep) {
        Option::Some(i) => Option::Some((s.subrange(0, i), s.subrange(i + 1, s.len() as int))),
        Option::None => Option::None,
    }
}

/// Splits a string at the first occurrence of the separator.
pub fn split_once<'a>(s: &'a str, sep: char) -> (r: Option<(&'a str, &'a str)>)
    ensures
        r matches Some(parts) ==> spec_split_once(s@, sep) == Some((parts.0@, parts.1@)),
        r is None ==> spec_split_once(s@, sep) is None,
{
    let n = s.unicode_len();
    let mut i: usize = 0;
    while i < n
        invariant
            i <= n,
            n == s@.len(),
            forall|j: int| 0 <= j < i ==> s@[j] != sep,
        decreases n - i,
    {
        if s.get_char(i) == sep {
            let before = s.substring_char(0, i);
            let after = s.substring_char(i + 1, n);
            proof {
                s@.index_of_first_ensures(sep);
                assert(s@.contains(sep));
            }
            return Some((before, after));
        }
        i += 1;
    }
    proof {
        s@.index_of_first_ensures(sep);
        if s@.contains(sep) {
            let w = choose|j: int| 0 <= j < s@.len() && s@[j] == sep;
            assert(s@[w] != sep);
        }
    }
    None
}

/// Splitting `pre + sep + post` at the first `sep` recovers `pre` and
/// `post`, provided `pre` itself is free of the separator.
pub proof fn lemma_split_once_concat(pre: Seq<char>, sep: char, post: Seq<char>)
    requires
        !pre.contains(sep),
    ensures
        spec_split_once(pre + seq![sep] + post, sep) == Some((pre, post)),
{
    let s = pre + seq![sep] + post;
    assert(s[pre.len() as int] == sep);
    assert(s.contains(sep));
    s.index_of_first_ensures(sep);
    let i = s.index_of_first(sep).unwrap();
    if i < pre.len() {
        assert(s[i] == pre[i]);
        assert(pre.contains(sep));
    }
    assert(i == pre.len());
    assert(s.subrange(0, pre.len() as int) =~= pre);
    assert(s.subrange(pre.len() as int + 1, s.len() as int) =~= post);
}

} // verus!
