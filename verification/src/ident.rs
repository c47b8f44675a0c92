//! Parsing a project identifier: either a plain number, or a full
//! project address of the shape
//! `scheme://scratch.mit.edu/projects/NUMBER`, whose number is taken.
//! Text after the number is ignored in both forms.

use vstd::prelude::*;

use crate::value::{digits_val, is_digit, str_chars};

verus! {

/// An ASCII letter or digit.
pub open spec fn is_alnum(c: char) -> bool {
    is_digit(c) || (65 <= c as u32 <= 90) || (97 <= c as u32 <= 122)
}

/// Length of the digit run starting at `i`.
pub open spec fn digit_run(s: Seq<char>, i: int) -> int
    decreases s.len() - i when i <= s.len()
{
    if i < 0 || i >= s.len() || !is_digit(s[i]) {
        0
    } else {
        1 + digit_run(s, i + 1)
    }
}

/// Length of the letter-or-digit run starting at `i`.
pub open spec fn alnum_run(s: Seq<char>, i: int) -> int
    decreases s.len() - i when i <= s.len()
{
    if i < 0 || i >= s.len() || !is_alnum(s[i]) {
        0
    } else {
        1 + alnum_run(s, i + 1)
    }
}

/// The number an identifier text stands for: after a leading
/// letter-or-digit run and the project-address marker, the digits that
/// follow; otherwise the digits the text itself begins with. Either
/// way at least one digit must be there, and the rest of the text is
/// ignored.
pub open spec fn spec_parse_id(s: Seq<char>) -> Option<int> {
    let a = alnum_run(s, 0);
    let tag = "://scratch.mit.edu/projects/"@;
    if a + tag.len() <= s.len() && s.subrange(a, a + tag.len()) == tag && digit_run(
        s,
        a + tag.len(),
    ) >= 1 {
        Option::Some(
            digits_val(
                s.subrange(a + tag.len(), a + tag.len() + digit_run(s, a + tag.len())),
            ),
        )
    } else if digit_run(s, 0) >= 1 {
        Option::Some(digits_val(s.subrange(0, digit_run(s, 0))))
    } else {
        Option::None
    }
}

fn is_digit_ch(c: char) -> (r: bool)
    ensures
        r == is_digit(c),
{
    let u = c as u32;
    48 <= u && u <= 57
}

fn is_alnum_ch(c: char) -> (r: bool)
    ensures
        r == is_alnum(c),
{
    let u = c as u32;
    (48 <= u && u <= 57) || (65 <= u && u <= 90) || (97 <= u && u <= 122)
}

fn digit_run_ex(v: &Vec<char>, i: usize) -> (r: usize)
    requires
        i <= v@.len(),
    ensures
        r == digit_run(v@, i as int),
        i + r <= v@.len(),
    decreases v@.len() - i,
{
    if i == v.len() {
        0
    } else if !is_digit_ch(v[i]) {
        0
    } else {
        1 + digit_run_ex(v, i + 1)
    }
}

fn alnum_run_ex(v: &Vec<char>, i: usize) -> (r: usize)
    requires
        i <= v@.len(),
    ensures
        r == alnum_run(v@, i as int),
        i + r <= v@.len(),
    decreases v@.len() - i,
{
    if i == v.len() {
        0
    } else if !is_alnum_ch(v[i]) {
        0
    } else {
        1 + alnum_run_ex(v, i + 1)
    }
}

/// Read the digit run `v[start..start+len)` as a number, or nothing
/// where the number would pass the machine's range.
fn read_digits(v: &Vec<char>, start: usize, len: usize) -> (r: Option<u64>)
    requires
        start + len <= v@.len(),
        forall|j: int| start <= j < start + len ==> is_digit(#[trigger] v@[j]),
    ensures
        match r {
            Option::Some(x) => x == digits_val(v@.subrange(start as int, (start + len) as int)),
            Option::None => digits_val(v@.subrange(start as int, (start + len) as int))
                > u64::MAX,
        },
{
    let ghost s = v@.subrange(start as int, (start + len) as int);
    let n = v.len();
    let mut k: usize = 0;
    let mut acc: u64 = 0;
    let mut big: bool = false;
    while k < len
        invariant
            k <= len,
            start + len <= n,
            n == v@.len(),
            forall|j: int| start <= j < start + len ==> is_digit(#[trigger] v@[j]),
            !big ==> acc == digits_val(v@.subrange(start as int, (start + k) as int)),
            big ==> digits_val(v@.subrange(start as int, (start + k) as int)) > u64::MAX,
        decreases len - k,
    {
        let ghost pre = v@.subrange(start as int, (start + k) as int);
        let ghost pre1 = v@.subrange(start as int, (start + k + 1) as int);
        let c = v[start + k];
        proof {
            assert(pre1.drop_last() =~= pre);
            assert(pre1.last() == c);
            assert(forall|i: int| 0 <= i < pre.len() ==> #[trigger] pre[i] == v@[start + i]);
            assert(forall|i: int| 0 <= i < pre1.len() ==> #[trigger] pre1[i] == v@[start + i]);
            assert(crate::value::all_digits(pre));
            crate::value::lemma_digits_val_nonneg(pre);
        }
        let d = (c as u32 - 48) as u64;
        if !big {
            if acc > (u64::MAX - d) / 10 {
                big = true;
                proof {
                    assert(digits_val(pre1) == digits_val(pre) * 10 + (c as u32 - 48));
                    assert(digits_val(pre1) > u64::MAX);
                }
            } else {
                acc = acc * 10 + d;
            }
        } else {
            proof {
                assert(digits_val(pre1) == digits_val(pre) * 10 + (c as u32 - 48));
                assert(digits_val(pre) * 10 >= digits_val(pre));
            }
        }
        k = k + 1;
    }
    if big {
        Option::None
    } else {
        Option::Some(acc)
    }
}

/// Parse a project identifier: a plain number, or a full project
/// address whose number is taken. A text with neither form — or a
/// number too large for the machine — is refused.
pub fn parse_id(s: &str) -> (r: Result<u64, ()>)
    ensures
        match r {
            Result::Ok(x) => spec_parse_id(s@) == Option::Some(x as int),
            Result::Err(_) => spec_parse_id(s@) is None || (spec_parse_id(s@) matches Option::Some(
                n,
            ) && n > u64::MAX),
        },
{
    proof {
        reveal_strlit("://scratch.mit.edu/projects/");
    }
    let v = str_chars(s);
    let tag = str_chars("://scratch.mit.edu/projects/");
    let a = alnum_run_ex(&v, 0);
    let tlen = tag.len();
    let url_ok = if v.len() - a >= tlen {
        crate::text::match_at(&v, &tag, a)
    } else {
        false
    };
    proof {
        if a + tag@.len() <= v@.len() {
            assert(v@.skip(a as int).take(tag@.len() as int) =~= v@.subrange(
                a as int,
                a + tag@.len(),
            ));
        }
    }
    if url_ok {
        let d = digit_run_ex(&v, a + tlen);
        if d >= 1 {
            proof {
                lemma_digit_run_digits(v@, (a + tlen) as int);
            }
            return match read_digits(&v, a + tlen, d) {
                Option::Some(x) => Result::Ok(x),
                Option::None => Result::Err(()),
            };
        }
    }
    let d0 = digit_run_ex(&v, 0);
    if d0 >= 1 {
        proof {
            lemma_digit_run_digits(v@, 0);
        }
        match read_digits(&v, 0, d0) {
            Option::Some(x) => Result::Ok(x),
            Option::None => Result::Err(()),
        }
    } else {
        Result::Err(())
    }
}

/// Every character of a digit run is a digit.
pub proof fn lemma_digit_run_digits(s: Seq<char>, i: int)
    requires
        0 <= i <= s.len(),
    ensures
        forall|j: int| i <= j < i + digit_run(s, i) ==> is_digit(#[trigger] s[j]),
    decreases s.len() - i,
{
    if i < s.len() && is_digit(s[i]) {
        lemma_digit_run_digits(s, i + 1);
    }
}

} // verus!
