//! Plain-text substitution over generated code: replacing the first
//! occurrence of a pattern (custom-block expansion) and removing every
//! occurrence (stripping yield points under warp compilation). Matches
//! are found left to right and do not overlap.

use vstd::prelude::*;

use crate::value::{push_char, str_chars};

verus! {

/// The text with the first occurrence of `pat` replaced by `rep`;
/// without an occurrence the text stands unchanged. An empty pattern
/// matches at the front.
pub open spec fn spec_replace_first(s: Seq<char>, pat: Seq<char>, rep: Seq<char>) -> Seq<char>
    decreases s.len(),
{
    if pat.len() <= s.len() && s.take(pat.len() as int) == pat {
        rep + s.skip(pat.len() as int)
    } else if s.len() == 0 {
        s
    } else {
        seq![s[0]] + spec_replace_first(s.drop_first(), pat, rep)
    }
}

/// The text with every occurrence of `pat` removed, left to right,
/// without overlap. An empty pattern removes nothing.
pub open spec fn spec_remove_all(s: Seq<char>, pat: Seq<char>) -> Seq<char>
    decreases s.len(),
{
    if pat.len() == 0 || s.len() == 0 {
        s
    } else if pat.len() <= s.len() && s.take(pat.len() as int) == pat {
        spec_remove_all(s.skip(pat.len() as int), pat)
    } else {
        seq![s[0]] + spec_remove_all(s.drop_first(), pat)
    }
}

/// Whether `pat` stands at position `i` of `v`.
pub(crate) fn match_at(v: &Vec<char>, pat: &Vec<char>, i: usize) -> (r: bool)
    requires
        i <= v@.len(),
    ensures
        r == (pat@.len() <= v@.len() - i && v@.skip(i as int).take(pat@.len() as int) == pat@),
{
    if v.len() - i < pat.len() {
        proof {
            assert(pat@.len() > v@.len() - i);
        }
        return false;
    }
    let n = v.len();
    let mut k: usize = 0;
    while k < pat.len()
        invariant
            k <= pat@.len(),
            i + pat@.len() <= n,
            n == v@.len(),
            forall|j: int| 0 <= j < k ==> v@[i + j] == pat@[j],
        decreases pat@.len() - k,
    {
        if v[i + k] != pat[k] {
            proof {
                assert(v@.skip(i as int).take(pat@.len() as int)[k as int] == v@[i + k]);
            }
            return false;
        }
        k = k + 1;
    }
    proof {
        assert(v@.skip(i as int).take(pat@.len() as int) =~= pat@);
    }
    true
}

fn replace_first_from(v: &Vec<char>, pat: &Vec<char>, rep: &str, i: usize) -> (r: String)
    requires
        i <= v@.len(),
    ensures
        r@ == spec_replace_first(v@.skip(i as int), pat@, rep@),
    decreases v@.len() - i,
{
    let ghost s = v@.skip(i as int);
    if match_at(v, pat, i) {
        let mut out = String::from_str(rep);
        let n = v.len();
        proof {
            assert(i + pat@.len() <= n);
        }
        let mut k: usize = i + pat.len();
        proof {
            assert(s.take(pat@.len() as int) == pat@);
            assert(s.skip(pat@.len() as int) =~= v@.skip(i + pat@.len()));
        }
        while k < v.len()
            invariant
                i + pat@.len() <= k <= v@.len(),
                out@ == rep@ + v@.subrange(i + pat@.len(), k as int),
            decreases v@.len() - k,
        {
            push_char(&mut out, v[k]);
            proof {
                assert(v@.subrange(i + pat@.len(), k + 1 as int) =~= v@.subrange(
                    i + pat@.len(),
                    k as int,
                ).push(v@[k as int]));
            }
            k = k + 1;
        }
        proof {
            assert(v@.subrange(i + pat@.len(), v@.len() as int) =~= v@.skip(i + pat@.len()));
        }
        out
    } else if i == v.len() {
        proof {
            assert(s.len() == 0);
        }
        String::new()
    } else {
        let rest = replace_first_from(v, pat, rep, i + 1);
        let mut out = String::new();
        push_char(&mut out, v[i]);
        proof {
            assert(s[0] == v@[i as int]);
            assert(s.drop_first() =~= v@.skip(i + 1 as int));
        }
        out.concat(rest.as_str())
    }
}

/// The text with the first occurrence of `pat` replaced by `rep`.
pub fn replace_first(s: &str, pat: &str, rep: &str) -> (r: String)
    ensures
        r@ == spec_replace_first(s@, pat@, rep@),
{
    let v = str_chars(s);
    let p = str_chars(pat);
    proof {
        assert(v@.skip(0) =~= v@);
    }
    replace_first_from(&v, &p, rep, 0)
}

fn remove_all_from(v: &Vec<char>, pat: &Vec<char>, i: usize) -> (r: String)
    requires
        i <= v@.len(),
        pat@.len() > 0,
    ensures
        r@ == spec_remove_all(v@.skip(i as int), pat@),
    decreases v@.len() - i,
{
    let ghost s = v@.skip(i as int);
    if i == v.len() {
        proof {
            assert(s.len() == 0);
        }
        String::new()
    } else if match_at(v, pat, i) {
        proof {
            assert(s.take(pat@.len() as int) == pat@);
            assert(s.skip(pat@.len() as int) =~= v@.skip(i + pat@.len()));
        }
        remove_all_from(v, pat, i + pat.len())
    } else {
        let rest = remove_all_from(v, pat, i + 1);
        let mut out = String::new();
        push_char(&mut out, v[i]);
        proof {
            assert(s[0] == v@[i as int]);
            assert(s.drop_first() =~= v@.skip(i + 1 as int));
        }
        out.concat(rest.as_str())
    }
}

/// The text with every occurrence of `pat` removed.
pub fn remove_all(s: &str, pat: &str) -> (r: String)
    ensures
        r@ == spec_remove_all(s@, pat@),
{
    let v = str_chars(s);
    let p = str_chars(pat);
    proof {
        assert(v@.skip(0) =~= v@);
    }
    if p.len() == 0 {
        let r = String::from_str(s);
        proof {
            assert(spec_remove_all(s@, pat@) == s@);
        }
        r
    } else {
        remove_all_from(&v, &p, 0)
    }
}

} // verus!
