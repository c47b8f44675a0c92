//! The value operators the compiled code calls: rounding, the floored
//! remainder, the bounded random draw, and the string operators. Each
//! works over the fixed-point value model and carries an exact
//! contract; the random draw promises only its range.

use vstd::prelude::*;

use vstd::arithmetic::div_mod::{
    lemma_fundamental_div_mod, lemma_fundamental_div_mod_converse, lemma_mod_bound,
};

use crate::value::{
    fold_char, push_char, spec_fold_seq, spec_num_of, spec_str_of, str_chars, to_text, wf_value,
    Value, MAX_SCALED, SCALE,
};

verus! {

/// The nearest whole number, halves rounding up: the whole grid point
/// at or below the value plus one half.
pub open spec fn spec_round(n: int) -> int {
    ((n + 5000) / 10000) * 10000
}

/// Round a fixed-point number to its nearest whole, halves up.
pub fn round(n: i64) -> (r: i64)
    requires
        -MAX_SCALED <= n <= MAX_SCALED,
    ensures
        r == spec_round(n as int),
{
    let m: i64 = n + 5000;
    if m >= 0 {
        let q: i64 = m / 10000;
        q * 10000
    } else {
        let mm: i64 = -m;
        let c: i64 = (mm + 9999) / 10000;
        proof {
            // m / 10000 rounds down, so it is the negated round-up of mm
            lemma_fundamental_div_mod(mm as int + 9999, 10000);
            lemma_fundamental_div_mod_converse(
                m as int,
                10000,
                -(c as int),
                c as int * 10000 - mm,
            );
        }
        -(c * 10000)
    }
}

/// The floored remainder: the representative of `a` modulo `b` whose
/// sign follows the divisor, as the block language defines it.
pub open spec fn spec_modulus(a: int, b: int) -> int {
    let bp = if b < 0 {
        -b
    } else {
        b
    };
    let e = a % bp;
    if b > 0 || e == 0 {
        e
    } else {
        e + b
    }
}

/// The floored remainder of two fixed-point numbers; a zero divisor
/// has no answer.
pub fn modulus(a: i64, b: i64) -> (r: Option<i64>)
    requires
        -MAX_SCALED <= a <= MAX_SCALED,
        -MAX_SCALED <= b <= MAX_SCALED,
    ensures
        b == 0 <==> r is None,
        b != 0 ==> r == Option::Some(spec_modulus(a as int, b as int) as i64),
        r matches Option::Some(v) ==> -MAX_SCALED <= v <= MAX_SCALED,
{
    if b == 0 {
        return Option::None;
    }
    let bp: i64 = if b < 0 {
        -b
    } else {
        b
    };
    // the non-negative remainder of a modulo |b|
    let e: i64 = if a >= 0 {
        a % bp
    } else {
        let r0: i64 = (-a) % bp;
        proof {
            lemma_fundamental_div_mod((-a) as int, bp as int);
            lemma_mod_bound((-a) as int, bp as int);
            let q0 = (-a) as int / bp as int;
            assert((-q0 - 1) * bp as int == -(q0 * bp as int) - bp as int) by (nonlinear_arith);
            assert((-q0) * bp as int == -(q0 * bp as int)) by (nonlinear_arith);
            assert(r0 as int == (-a) as int % bp as int);
            assert((-a) as int == q0 * bp as int + r0 as int);
            if r0 != 0 {
                lemma_fundamental_div_mod_converse(
                    a as int,
                    bp as int,
                    -q0 - 1,
                    bp as int - r0 as int,
                );
            } else {
                lemma_fundamental_div_mod_converse(a as int, bp as int, -q0, 0);
            }
        }
        if r0 == 0 {
            0
        } else {
            bp - r0
        }
    };
    if b > 0 || e == 0 {
        Option::Some(e)
    } else {
        Option::Some(e + b)
    }
}

/// A fixed-point number on the whole grid.
pub open spec fn is_whole(n: int) -> bool {
    n % 10000 == 0
}

/// Draw a number between two bounds, inclusive, in either order. Only
/// the range is promised; where both bounds are whole, the draw is
/// whole too.
pub fn generate_random(a: i64, b: i64) -> (r: i64)
    requires
        -MAX_SCALED <= a <= MAX_SCALED,
        -MAX_SCALED <= b <= MAX_SCALED,
    ensures
        (if a <= b {
            a <= r <= b
        } else {
            b <= r <= a
        }),
        is_whole(a as int) && is_whole(b as int) ==> is_whole(r as int),
{
    let lo: i64 = if a <= b {
        a
    } else {
        b
    };
    let hi: i64 = if a <= b {
        b
    } else {
        a
    };
    let whole_lo = whole_check(lo);
    let whole_hi = whole_check(hi);
    if lo == hi {
        return lo;
    }
    let span: u64 = ((hi as i128) - (lo as i128)) as u64;
    proof {
        assert(span as int == hi - lo);
    }
    if whole_lo && whole_hi {
        // a whole draw on the whole grid between the bounds
        let ghost ql = lo as int / 10000;
        let ghost qh = hi as int / 10000;
        proof {
            lemma_fundamental_div_mod(lo as int, 10000);
            lemma_fundamental_div_mod(hi as int, 10000);
            lemma_fundamental_div_mod_converse(span as int, 10000, qh - ql, 0);
        }
        let units: u64 = span / 10000;
        let draw = crate::rng::random_below(units + 1);
        proof {
            assert(units as int == qh - ql);
            assert(draw as int * 10000 <= (qh - ql) * 10000);
            assert((qh - ql) * 10000 == span as int);
        }
        let r: i64 = ((lo as i128) + ((draw as i128) * 10000)) as i64;
        proof {
            lemma_fundamental_div_mod_converse(r as int, 10000, ql + draw, 0);
        }
        r
    } else {
        let draw = crate::rng::random_below(span + 1);
        let r: i64 = ((lo as i128) + (draw as i128)) as i64;
        r
    }
}

/// Whether a fixed-point number lies on the whole grid.
fn whole_check(n: i64) -> (r: bool)
    requires
        -MAX_SCALED <= n <= MAX_SCALED,
    ensures
        r == is_whole(n as int),
{
    if n >= 0 {
        n % 10000 == 0
    } else {
        let r0: i64 = (-n) % 10000;
        proof {
            lemma_fundamental_div_mod((-n) as int, 10000);
            if r0 != 0 {
                lemma_fundamental_div_mod_converse(
                    n as int,
                    10000,
                    -((-n) as int / 10000) - 1,
                    10000 - r0 as int,
                );
            } else {
                lemma_fundamental_div_mod_converse(n as int, 10000, -((-n) as int / 10000), 0);
            }
        }
        r0 == 0
    }
}

/// Join two values' string forms.
pub fn join(a: &Value, b: &Value) -> (r: Value)
    requires
        wf_value(*a),
        wf_value(*b),
    ensures
        r matches Value::Text(t) && t@ == spec_str_of(*a) + spec_str_of(*b),
{
    let ta = to_text(a);
    let tb = to_text(b);
    Value::Text(ta.concat(tb.as_str()))
}

/// The letter a one-based position names in a value's string form,
/// the position's fraction dropped; out of range reads as empty text.
pub fn letter_of(n: &Value, s: &Value) -> (r: Value)
    requires
        wf_value(*n),
        wf_value(*s),
    ensures
        ({
            let txt = spec_str_of(*s);
            match spec_num_of(*n) {
                Option::Some(v) => {
                    let q = v / (SCALE as int);
                    if 1 <= q <= txt.len() {
                        r matches Value::Text(t) && t@ == seq![txt[q - 1]]
                    } else {
                        r matches Value::Text(t) && t@ == Seq::<char>::empty()
                    }
                },
                Option::None => r matches Value::Text(t) && t@ == Seq::<char>::empty(),
            }
        }),
{
    let txt = to_text(s);
    let len = txt.as_str().unicode_len();
    match crate::value::to_number(n) {
        Option::Some(v) => {
            if v >= SCALE {
                let q = v / SCALE;
                if q as u64 <= len as u64 {
                    let c = txt.as_str().get_char((q - 1) as usize);
                    let mut out = String::new();
                    push_char(&mut out, c);
                    proof {
                        assert(out@ =~= seq![spec_str_of(*s)[v as int / (SCALE as int) - 1]]);
                    }
                    Value::Text(out)
                } else {
                    Value::Text(String::new())
                }
            } else {
                proof {
                    assert(v as int / (SCALE as int) < 1);
                }
                Value::Text(String::new())
            }
        },
        Option::None => Value::Text(String::new()),
    }
}

/// The length of a value's string form, as a whole number.
pub fn length(s: &Value) -> (r: Value)
    requires
        wf_value(*s),
        spec_str_of(*s).len() <= 900_000_000_000_000,
    ensures
        r == Value::Num((spec_str_of(*s).len() * 10000) as i64),
{
    let txt = to_text(s);
    let len = txt.as_str().unicode_len();
    Value::Num((len as i64) * 10000)
}

/// Whether the needle's folded form stands at position `i` of the
/// folded haystack.
pub open spec fn spec_match_ci(hay: Seq<char>, needle: Seq<char>, i: int) -> bool {
    &&& 0 <= i <= hay.len() - needle.len()
    &&& spec_fold_seq(hay.subrange(i, i + needle.len())) == spec_fold_seq(needle)
}

/// Whether the second value's string form occurs inside the first's,
/// compared case-insensitively.
pub open spec fn spec_contains_ci(hay: Seq<char>, needle: Seq<char>) -> bool {
    exists|i: int| #[trigger] spec_match_ci(hay, needle, i)
}

fn fold_chars(v: &Vec<char>) -> (r: Vec<u32>)
    ensures
        r@ == spec_fold_seq(v@),
{
    let mut out: Vec<u32> = Vec::new();
    let mut i: usize = 0;
    while i < v.len()
        invariant
            i <= v@.len(),
            out@.len() == i,
            forall|j: int| 0 <= j < i ==> out@[j] == fold_char(v@[j]),
        decreases v@.len() - i,
    {
        out.push(crate::value::fold_c(v[i]));
        i = i + 1;
    }
    proof {
        assert(out@ =~= spec_fold_seq(v@));
    }
    out
}

fn folded_match_at(h: &Vec<u32>, p: &Vec<u32>, i: usize) -> (r: bool)
    requires
        i + p@.len() <= h@.len(),
    ensures
        r == (h@.subrange(i as int, i + p@.len()) == p@),
{
    let n = h.len();
    let mut k: usize = 0;
    while k < p.len()
        invariant
            k <= p@.len(),
            i + p@.len() <= n,
            n == h@.len(),
            forall|j: int| 0 <= j < k ==> h@[i + j] == p@[j],
        decreases p@.len() - k,
    {
        if h[i + k] != p[k] {
            proof {
                assert(h@.subrange(i as int, i + p@.len())[k as int] == h@[i + k]);
            }
            return false;
        }
        k = k + 1;
    }
    proof {
        assert(h@.subrange(i as int, i + p@.len()) =~= p@);
    }
    true
}

/// Whether one value's string form contains another's, compared
/// case-insensitively.
pub fn contains(a: &Value, b: &Value) -> (r: Value)
    requires
        wf_value(*a),
        wf_value(*b),
    ensures
        r == Value::Boolean(spec_contains_ci(spec_str_of(*a), spec_str_of(*b))),
{
    let ta = to_text(a);
    let tb = to_text(b);
    let hv = str_chars(ta.as_str());
    let pv = str_chars(tb.as_str());
    let hay = fold_chars(&hv);
    let needle = fold_chars(&pv);
    let ghost ha = spec_str_of(*a);
    let ghost nb = spec_str_of(*b);
    if needle.len() == 0 {
        proof {
            assert(spec_fold_seq(ha.subrange(0, 0 + nb.len() as int)) =~= spec_fold_seq(nb));
            assert(spec_match_ci(ha, nb, 0));
        }
        return Value::Boolean(true);
    }
    if needle.len() > hay.len() {
        proof {
            assert(ha.len() < nb.len());
            assert forall|i: int| !(#[trigger] spec_match_ci(ha, nb, i)) by {
                assert(ha.len() - nb.len() < 0);
            }
            assert(!spec_contains_ci(ha, nb));
        }
        return Value::Boolean(false);
    }
    let n = hay.len();
    let stop = n - needle.len();
    let mut i: usize = 0;
    while i <= stop
        invariant
            i <= stop + 1,
            needle@.len() >= 1,
            n == hay@.len(),
            stop == n - needle@.len(),
            ha == spec_str_of(*a),
            nb == spec_str_of(*b),
            hay@ == spec_fold_seq(ha),
            needle@ == spec_fold_seq(nb),
            ha.len() == hay@.len(),
            nb.len() == needle@.len(),
            forall|j: int| 0 <= j < i ==> !(#[trigger] spec_match_ci(ha, nb, j)),
        decreases stop + 1 - i,
    {
        if folded_match_at(&hay, &needle, i) {
            proof {
                assert(spec_fold_seq(ha.subrange(i as int, i + nb.len())) =~= hay@.subrange(
                    i as int,
                    i + needle@.len(),
                ));
                assert(spec_match_ci(ha, nb, i as int));
            }
            return Value::Boolean(true);
        }
        proof {
            assert(spec_fold_seq(ha.subrange(i as int, i + nb.len())) =~= hay@.subrange(
                i as int,
                i + needle@.len(),
            ));
            assert(!spec_match_ci(ha, nb, i as int));
        }
        i = i + 1;
    }
    proof {
        assert forall|j: int| !(#[trigger] spec_match_ci(ha, nb, j)) by {
            if 0 <= j <= ha.len() - nb.len() {
                assert(!spec_match_ci(ha, nb, j));
            }
        }
        assert(!spec_contains_ci(ha, nb));
    }
    Value::Boolean(false)
}

} // verus!
