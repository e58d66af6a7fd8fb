//! Choosing the session file inside a directory listing: the one file whose
//! name contains the session marker and ends in the XML extension.  Reading
//! the directory itself is the caller's concern; this module decides, for a
//! given list of names in iteration order, which entry is loaded.

use vstd::prelude::*;
use crate::strutil::str_to_chars;

verus! {

/// The pattern occurs in `s` starting at position `i`.
pub open spec fn spec_contains_at(s: Seq<char>, p: Seq<char>, i: int) -> bool {
    0 <= i && i + p.len() <= s.len() && s.subrange(i, i + p.len() as int) == p
}

/// The pattern occurs somewhere in `s`.
pub open spec fn spec_contains(s: Seq<char>, p: Seq<char>) -> bool {
    exists|i: int| spec_contains_at(s, p, i)
}

/// `s` ends with the suffix.
pub open spec fn spec_ends_with(s: Seq<char>, suffix: Seq<char>) -> bool {
    s.len() >= suffix.len() && s.subrange(s.len() - suffix.len(), s.len() as int) == suffix
}

/// A name the loader accepts: it contains the session marker and carries
/// the XML extension.
pub open spec fn spec_is_session_file_name(n: Seq<char>) -> bool {
    spec_contains(n, "IExIL"@) && spec_ends_with(n, ".xml"@)
}

/// Decide whether one file name is a session file name.
pub fn file_name_matches(name: &str) -> (r: bool)
    ensures
        r == spec_is_session_file_name(name@),
{
    let v = str_to_chars(name);
    let n = v.len();
    // The extension must close the name.
    if n < 4 {
        proof {
            reveal_strlit(".xml");
        }
        return false;
    }
    let ext = v[n - 4] == '.' && v[n - 3] == 'x' && v[n - 2] == 'm' && v[n - 1] == 'l';
    proof {
        reveal_strlit(".xml");
        let suf = name@.subrange(name@.len() - 4, name@.len() as int);
        assert(suf[0] == name@[name@.len() - 4]);
        assert(suf[1] == name@[name@.len() - 3]);
        assert(suf[2] == name@[name@.len() - 2]);
        assert(suf[3] == name@[name@.len() - 1]);
        if ext {
            assert(suf =~= ".xml"@);
        }
    }
    if !ext {
        return false;
    }
    // The marker must occur somewhere.
    if n < 5 {
        proof {
            reveal_strlit("IExIL");
            assert forall|k: int| !spec_contains_at(name@, "IExIL"@, k) by {
                assert("IExIL"@.len() == 5);
            }
        }
        return false;
    }
    let last = n - 5;
    let mut i: usize = 0;
    while i <= last
        invariant
            n == v@.len(),
            v@ == name@,
            n >= 5,
            last == n - 5,
            i <= last + 1,
            spec_ends_with(name@, ".xml"@),
            forall|k: int| 0 <= k < i ==> !spec_contains_at(name@, "IExIL"@, k),
        decreases last + 1 - i,
    {
        if v[i] == 'I' && v[i + 1] == 'E' && v[i + 2] == 'x' && v[i + 3] == 'I' && v[i + 4]
            == 'L' {
            proof {
                reveal_strlit("IExIL");
                assert(name@.subrange(i as int, i + 5 as int) =~= "IExIL"@);
                assert(spec_contains_at(name@, "IExIL"@, i as int));
                assert(spec_contains(name@, "IExIL"@));
            }
            return true;
        }
        proof {
            reveal_strlit("IExIL");
            assert forall|k: int| 0 <= k < i + 1 implies !spec_contains_at(
                name@,
                "IExIL"@,
                k,
            ) by {
                if k == i && i + 5 <= name@.len() && name@.subrange(i as int, i + 5 as int)
                    == "IExIL"@ {
                    assert(name@.subrange(i as int, i + 5 as int)[0] == name@[i as int]);
                    assert(name@.subrange(i as int, i + 5 as int)[1] == name@[i + 1]);
                    assert(name@.subrange(i as int, i + 5 as int)[2] == name@[i + 2]);
                    assert(name@.subrange(i as int, i + 5 as int)[3] == name@[i + 3]);
                    assert(name@.subrange(i as int, i + 5 as int)[4] == name@[i + 4]);
                }
            }
        }
        i += 1;
    }
    proof {
        reveal_strlit("IExIL");
        assert forall|k: int| !spec_contains_at(name@, "IExIL"@, k) by {
            assert("IExIL"@.len() == 5);
            if 0 <= k && k + 5 <= name@.len() {
                assert(k <= last);
            }
        }
    }
    false
}

/// The first entry of the listing that is a session file name, if any: the
/// loader uses the first match in iteration order and never an empty
/// stand-in.
pub fn pick_session_file(names: &Vec<String>) -> (r: Option<usize>)
    ensures
        r matches Some(i) ==> i < names@.len() && spec_is_session_file_name(names@[i as int]@)
            && forall|j: int| 0 <= j < i ==> !spec_is_session_file_name(names@[j]@),
        r is None ==> forall|j: int|
            0 <= j < names@.len() ==> !spec_is_session_file_name(names@[j]@),
{
    let n = names.len();
    let mut i: usize = 0;
    while i < n
        invariant
            n == names@.len(),
            i <= n,
            forall|j: int| 0 <= j < i ==> !spec_is_session_file_name(names@[j]@),
        decreases n - i,
    {
        if file_name_matches(names[i].as_str()) {
            return Some(i);
        }
        i += 1;
    }
    None
}

} // verus!
