//! Small verified text utilities used by the grammar: equality of a
//! token's text with a keyword, and a substring test for the diagnostic
//! type string.

use vstd::prelude::*;
use vstd::string::StrSliceExecFns;

verus! {

/// Text equality of two string slices, stated over their character views.
pub fn str_eqs(a: &str, b: &str) -> (r: bool)
    ensures
        r == (a@ == b@),
{
    let sa = a.to_owned();
    let sb = b.to_owned();
    sa == sb
}

/// `needle` occurs in `hay` starting at position `i`.
pub open spec fn is_substr_at(hay: Seq<char>, needle: Seq<char>, i: int) -> bool {
    0 <= i && i + needle.len() <= hay.len() && hay.subrange(i, i + needle.len() as int)
        == needle
}

/// `needle` occurs somewhere in `hay`.
pub open spec fn contains_seq(hay: Seq<char>, needle: Seq<char>) -> bool {
    exists|i: int| is_substr_at(hay, needle, i)
}

/// Substring search, character by character.
pub fn contains_substr(hay: &str, needle: &str) -> (r: bool)
    ensures
        r == contains_seq(hay@, needle@),
{
    let hl = hay.unicode_len();
    let nl = needle.unicode_len();
    if nl > hl {
        assert(forall|i: int| !is_substr_at(hay@, needle@, i));
        return false;
    }
    if nl == 0 {
        assert(hay@.subrange(0, 0) =~= needle@);
        assert(is_substr_at(hay@, needle@, 0));
        return true;
    }
    let mut i: usize = 0;
    while i <= hl - nl
        invariant
            1 <= nl <= hl,
            hl == hay@.len(),
            nl == needle@.len(),
            i <= hl - nl + 1,
            forall|k: int| 0 <= k < i ==> !is_substr_at(hay@, needle@, k),
        decreases hl + 1 - nl - i,
    {
        let mut j: usize = 0;
        let mut mismatch = false;
        while j < nl && !mismatch
            invariant
                nl <= hl,
                hl == hay@.len(),
                nl == needle@.len(),
                i + nl <= hl,
                j <= nl,
                !mismatch ==> forall|t: int| 0 <= t < j ==> hay@[i + t] == needle@[t],
                mismatch ==> !is_substr_at(hay@, needle@, i as int),
            decreases nl - j + (if mismatch { 0int } else { 1int }),
        {
            let hc = hay.get_char(i + j);
            let nc = needle.get_char(j);
            if hc != nc {
                proof {
                    if is_substr_at(hay@, needle@, i as int) {
                        assert(hay@.subrange(i as int, i + nl as int)[j as int]
                            == needle@[j as int]);
                    }
                }
                mismatch = true;
            } else {
                j = j + 1;
            }
        }
        if !mismatch {
            proof {
                assert(hay@.subrange(i as int, i + nl as int) =~= needle@);
                assert(is_substr_at(hay@, needle@, i as int));
            }
            return true;
        }
        i = i + 1;
    }
    proof {
        assert forall|k: int| !is_substr_at(hay@, needle@, k) by {
            if 0 <= k < i {
            } else if k + needle@.len() > hay@.len() || k < 0 {
            }
        }
    }
    false
}

} // verus!
