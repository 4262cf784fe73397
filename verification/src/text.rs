use vstd::prelude::*;
use vstd::string::*;

verus! {

/// `i` is the first position at or after `from` where a scan for a closing
/// quote may stop: the character there is `"` and no quote or backslash
/// occurs between `from` and `i`.
pub open spec fn stop_at(s: Seq<char>, from: int, i: int) -> bool {
    &&& from <= i < s.len()
    &&& s[i] == '"'
    &&& forall|j: int| from <= j < i ==> s[j] != '"' && s[j] != '\\'
}

pub proof fn lemma_stop_unique(s: Seq<char>, from: int, i: int, j: int)
    requires
        stop_at(s, from, i),
        stop_at(s, from, j),
    ensures
        i == j,
{
    if i < j {
        assert(s[i] != '"');
    }
    if j < i {
        assert(s[j] != '"');
    }
}

/// Whether `pat` occurs in `s` exactly at position `from`.
pub open spec fn matches_at(s: Seq<char>, from: int, pat: Seq<char>) -> bool {
    &&& 0 <= from
    &&& from + pat.len() <= s.len()
    &&& s.subrange(from, from + pat.len()) == pat
}

/// Decide whether `pat` occurs in `s` at character position `from`.
pub fn match_at(s: &str, from: usize, pat: &str) -> (r: bool)
    requires
        from <= s@.len(),
    ensures
        r <==> matches_at(s@, from as int, pat@),
{
    let n = s.unicode_len();
    let pn = pat.unicode_len();
    if pn > n - from {
        return false;
    }
    let mut i: usize = 0;
    while i < pn
        invariant
            i <= pn,
            from + pn <= n,
            n == s@.len(),
            pn == pat@.len(),
            forall|j: int| 0 <= j < i ==> s@[from + j] == pat@[j],
        decreases pn - i,
    {
        if s.get_char(from + i) != pat.get_char(i) {
            proof {
                let sub = s@.subrange(from as int, from + pat@.len());
                assert(sub == pat@ ==> sub[i as int] == pat@[i as int]);
            }
            return false;
        }
        i += 1;
    }
    proof {
        assert(s@.subrange(from as int, from + pat@.len()) =~= pat@);
    }
    true
}

/// Scan forward from `from` for a closing quote, refusing any blob in which a
/// backslash appears first: the canonical encodings this crate writes never
/// escape anything, so a backslash marks the blob as malformed.
pub fn find_stop(s: &str, from: usize) -> (r: Option<usize>)
    requires
        from <= s@.len(),
    ensures
        match r {
            Some(i) => stop_at(s@, from as int, i as int),
            None => forall|i: int| !stop_at(s@, from as int, i),
        },
{
    let n = s.unicode_len();
    let mut i: usize = from;
    while i < n
        invariant
            from <= i <= n,
            n == s@.len(),
            forall|j: int| from <= j < i ==> s@[j] != '"' && s@[j] != '\\',
        decreases n - i,
    {
        let c = s.get_char(i);
        if c == '"' {
            return Some(i);
        }
        if c == '\\' {
            proof {
                assert forall|k: int| !stop_at(s@, from as int, k) by {
                    if from <= k < s@.len() && s@[k] == '"' {
                        assert(k > i);
                        assert(!(forall|j: int| from <= j < k ==> s@[j] != '"' && s@[j]
                            != '\\')) by {
                            assert(s@[i as int] == '\\');
                        }
                    }
                }
            }
            return None;
        }
        i += 1;
    }
    proof {
        assert forall|k: int| !stop_at(s@, from as int, k) by {
            if from <= k < s@.len() {
                assert(s@[k] != '"');
            }
        }
    }
    None
}

} // verus!
