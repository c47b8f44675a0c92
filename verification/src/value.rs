//! The dynamic value model: a tagged union with a total order and
//! JavaScript-like coercion rules.
//!
//! Numbers are held as fixed-point decimals: an `i64` counting
//! ten-thousandths, so `25000` stands for `2.5`. The order coerces both
//! sides to a number when possible and otherwise compares the string
//! forms case-insensitively; empty and whitespace-only strings coerce to
//! no number at all (rather than zero) for ordering purposes.

use vstd::prelude::*;

verus! {

/// Number of fixed-point units in one whole number.
pub const SCALE: i64 = 10000;

/// Largest whole-number magnitude a `Value` number may hold.
pub const MAX_UNITS: i64 = 900_000_000_000_000;

/// Largest fixed-point magnitude a `Value` number may hold.
pub const MAX_SCALED: i64 = 9_000_000_000_000_009_999;

/// Result of comparing two values under the total order.
#[derive(Clone, Copy, Debug, PartialEq, Eq, Structural)]
pub enum Cmp {
    Less,
    Equal,
    Greater,
}

/// A dynamic value: number, text, boolean or null.
#[derive(Clone, Debug)]
pub enum Value {
    /// A number in fixed-point units (see [`SCALE`]).
    Num(i64),
    Text(String),
    Boolean(bool),
    Null,
}

/// A number field stays within the fixed-point range.
pub open spec fn wf_value(v: Value) -> bool {
    v matches Value::Num(n) ==> -MAX_SCALED <= n <= MAX_SCALED
}

/// Build a number value from a whole number.
pub fn from_int(n: i64) -> (r: Value)
    requires
        -MAX_UNITS <= n <= MAX_UNITS,
    ensures
        r == Value::Num((n * SCALE) as i64),
        wf_value(r),
{
    Value::Num(n * SCALE)
}

/// Build a number value from fixed-point units.
pub fn from_scaled(n: i64) -> (r: Value)
    requires
        -MAX_SCALED <= n <= MAX_SCALED,
    ensures
        r == Value::Num(n),
        wf_value(r),
{
    Value::Num(n)
}

// ---------------------------------------------------------------------
// Digits and decimal rendering
// ---------------------------------------------------------------------

/// The character for one decimal digit.
pub open spec fn spec_digit_char(d: int) -> char {
    if d == 0 {
        '0'
    } else if d == 1 {
        '1'
    } else if d == 2 {
        '2'
    } else if d == 3 {
        '3'
    } else if d == 4 {
        '4'
    } else if d == 5 {
        '5'
    } else if d == 6 {
        '6'
    } else if d == 7 {
        '7'
    } else if d == 8 {
        '8'
    } else {
        '9'
    }
}

/// Decimal digits of a non-negative number, most significant first.
pub open spec fn spec_digits(n: int) -> Seq<char>
    decreases n,
{
    if n < 10 {
        seq![spec_digit_char(n)]
    } else {
        spec_digits(n / 10).push(spec_digit_char(n % 10))
    }
}

/// The four digits of a fraction in ten-thousandths, most significant first.
pub open spec fn spec_four_digits(f: int) -> Seq<char> {
    seq![
        spec_digit_char(f / 1000 % 10),
        spec_digit_char(f / 100 % 10),
        spec_digit_char(f / 10 % 10),
        spec_digit_char(f % 10),
    ]
}

/// Drop trailing zero characters.
pub open spec fn spec_trim_zeros(s: Seq<char>) -> Seq<char>
    decreases s.len(),
{
    if s.len() > 0 && s.last() == '0' {
        spec_trim_zeros(s.drop_last())
    } else {
        s
    }
}

/// Decimal text of a non-negative fixed-point number: the whole part,
/// then a point and the trimmed fraction digits if the fraction is not
/// zero.
pub open spec fn spec_render_unsigned(n: int) -> Seq<char> {
    let units = n / (SCALE as int);
    let frac = n % (SCALE as int);
    if frac == 0 {
        spec_digits(units)
    } else {
        spec_digits(units) + seq!['.'] + spec_trim_zeros(spec_four_digits(frac))
    }
}

/// Decimal text of a fixed-point number.
pub open spec fn spec_render_scaled(n: int) -> Seq<char> {
    if n < 0 {
        seq!['-'] + spec_render_unsigned(-n)
    } else {
        spec_render_unsigned(n)
    }
}

/// Relies on std's `String::push`: appends one character at the end.
#[verifier::external_body]
pub(crate) fn push_char(s: &mut String, c: char)
    ensures
        final(s)@ == old(s)@.push(c),
{
    s.push(c);
}

fn digit_char(d: u64) -> (r: char)
    requires
        d < 10,
    ensures
        r == spec_digit_char(d as int),
{
    if d == 0 {
        '0'
    } else if d == 1 {
        '1'
    } else if d == 2 {
        '2'
    } else if d == 3 {
        '3'
    } else if d == 4 {
        '4'
    } else if d == 5 {
        '5'
    } else if d == 6 {
        '6'
    } else if d == 7 {
        '7'
    } else if d == 8 {
        '8'
    } else {
        '9'
    }
}

pub(crate) fn digits_u64(n: u64) -> (r: String)
    ensures
        r@ == spec_digits(n as int),
    decreases n,
{
    if n < 10 {
        let mut s = String::new();
        push_char(&mut s, digit_char(n));
        s
    } else {
        let mut s = digits_u64(n / 10);
        push_char(&mut s, digit_char(n % 10));
        s
    }
}

proof fn lemma_digit_char_zero(d: int)
    ensures
        (spec_digit_char(d) == '0') <==> (d == 0),
{
}

proof fn lemma_trim_last_zero(s: Seq<char>)
    requires
        s.len() > 0,
        s.last() == '0',
    ensures
        spec_trim_zeros(s) == spec_trim_zeros(s.drop_last()),
{
}

proof fn lemma_trim_stops(s: Seq<char>)
    requires
        s.len() == 0 || s.last() != '0',
    ensures
        spec_trim_zeros(s) == s,
{
}

fn render_u64(n: u64) -> (r: String)
    ensures
        r@ == spec_render_unsigned(n as int),
{
    let units: u64 = n / 10000;
    let frac: u64 = n % 10000;
    let mut s = digits_u64(units);
    if frac != 0 {
        push_char(&mut s, '.');
        let d1: u64 = frac / 1000 % 10;
        let d2: u64 = frac / 100 % 10;
        let d3: u64 = frac / 10 % 10;
        let d4: u64 = frac % 10;
        let ghost c1 = spec_digit_char(d1 as int);
        let ghost c2 = spec_digit_char(d2 as int);
        let ghost c3 = spec_digit_char(d3 as int);
        let ghost c4 = spec_digit_char(d4 as int);
        let ghost four = spec_four_digits(frac as int);
        proof {
            lemma_digit_char_zero(d1 as int);
            lemma_digit_char_zero(d2 as int);
            lemma_digit_char_zero(d3 as int);
            lemma_digit_char_zero(d4 as int);
            assert(four =~= seq![c1, c2, c3, c4]);
        }
        push_char(&mut s, digit_char(d1));
        if d2 != 0 || d3 != 0 || d4 != 0 {
            push_char(&mut s, digit_char(d2));
            if d3 != 0 || d4 != 0 {
                push_char(&mut s, digit_char(d3));
                if d4 != 0 {
                    push_char(&mut s, digit_char(d4));
                    proof {
                        lemma_trim_stops(four);
                    }
                } else {
                    proof {
                        lemma_trim_last_zero(four);
                        assert(four.drop_last() =~= seq![c1, c2, c3]);
                        lemma_trim_stops(seq![c1, c2, c3]);
                        assert(spec_trim_zeros(four) =~= seq![c1, c2, c3]);
                    }
                }
            } else {
                proof {
                    lemma_trim_last_zero(four);
                    assert(four.drop_last() =~= seq![c1, c2, c3]);
                    lemma_trim_last_zero(seq![c1, c2, c3]);
                    assert(seq![c1, c2, c3].drop_last() =~= seq![c1, c2]);
                    lemma_trim_stops(seq![c1, c2]);
                    assert(spec_trim_zeros(four) =~= seq![c1, c2]);
                }
            }
        } else {
            proof {
                assert(frac as int == (frac as int / 10) * 10 + frac as int % 10);
                assert(frac as int / 10 == (frac as int / 100) * 10 + frac as int / 10 % 10);
                assert(frac as int / 100 == (frac as int / 1000) * 10 + frac as int / 100 % 10);
                assert(frac as int / 1000 < 10);
                assert(d1 != 0);
                lemma_trim_last_zero(four);
                assert(four.drop_last() =~= seq![c1, c2, c3]);
                lemma_trim_last_zero(seq![c1, c2, c3]);
                assert(seq![c1, c2, c3].drop_last() =~= seq![c1, c2]);
                lemma_trim_last_zero(seq![c1, c2]);
                assert(seq![c1, c2].drop_last() =~= seq![c1]);
                lemma_trim_stops(seq![c1]);
                assert(spec_trim_zeros(four) =~= seq![c1]);
            }
        }
        assert(s@ =~= spec_render_unsigned(n as int));
    } else {
        assert(s@ =~= spec_render_unsigned(n as int));
    }
    s
}

/// Decimal text of a fixed-point number.
pub fn render_scaled(n: i64) -> (r: String)
    requires
        -MAX_SCALED <= n <= MAX_SCALED,
    ensures
        r@ == spec_render_scaled(n as int),
{
    if n < 0 {
        let mut s = String::new();
        push_char(&mut s, '-');
        let rest = render_u64((-n) as u64);
        let out = s.concat(rest.as_str());
        assert(out@ =~= spec_render_scaled(n as int));
        out
    } else {
        render_u64(n as u64)
    }
}

} // verus!

verus! {

// ---------------------------------------------------------------------
// Parsing decimal text to a fixed-point number
// ---------------------------------------------------------------------

/// ASCII whitespace, for trimming before numeric coercion.
pub open spec fn is_space(c: char) -> bool {
    c == ' ' || c == '\t' || c == '\n' || c == '\r'
}

/// A decimal digit character.
pub open spec fn is_digit(c: char) -> bool {
    48 <= c as u32 <= 57
}

/// The value of one digit character.
pub open spec fn digit_val(c: char) -> int {
    c as u32 - 48
}

pub open spec fn drop_lead(s: Seq<char>) -> Seq<char>
    decreases s.len(),
{
    if s.len() > 0 && is_space(s[0]) {
        drop_lead(s.drop_first())
    } else {
        s
    }
}

pub open spec fn drop_trail(s: Seq<char>) -> Seq<char>
    decreases s.len(),
{
    if s.len() > 0 && is_space(s.last()) {
        drop_trail(s.drop_last())
    } else {
        s
    }
}

/// The text with ASCII whitespace removed from both ends.
pub open spec fn spec_trim_ws(s: Seq<char>) -> Seq<char> {
    drop_lead(drop_trail(s))
}

pub open spec fn all_digits(s: Seq<char>) -> bool {
    forall|i: int| 0 <= i < s.len() ==> is_digit(#[trigger] s[i])
}

/// The number the digit text stands for.
pub open spec fn digits_val(s: Seq<char>) -> int
    decreases s.len(),
{
    if s.len() == 0 {
        0
    } else {
        digits_val(s.drop_last()) * 10 + digit_val(s.last())
    }
}

pub open spec fn spec_pow10(k: int) -> int
    decreases k,
{
    if k <= 0 {
        1
    } else {
        10 * spec_pow10(k - 1)
    }
}

/// Index of the first occurrence of a character, if any.
pub open spec fn find_char(s: Seq<char>, c: char) -> Option<int>
    decreases s.len(),
{
    if s.len() == 0 {
        Option::None
    } else if s[0] == c {
        Option::Some(0)
    } else {
        match find_char(s.drop_first(), c) {
            Option::Some(i) => Option::Some(i + 1),
            Option::None => Option::None,
        }
    }
}

/// The fixed-point value of fraction digits: the first four digits,
/// padded with zeros on the right. Further digits are beyond the model's
/// precision and are dropped.
pub open spec fn frac_val(s: Seq<char>) -> int {
    let k = if s.len() < 4 { s.len() as int } else { 4 };
    digits_val(s.take(k)) * spec_pow10(4 - k)
}

/// Parse unsigned decimal text (already trimmed, sign removed) to
/// fixed-point units. Digits with an optional point; too large a whole
/// part, a stray character or empty text give no number.
pub open spec fn spec_parse_unsigned(s: Seq<char>) -> Option<int> {
    if s.len() == 0 {
        Option::None
    } else {
        match find_char(s, '.') {
            Option::None => {
                if all_digits(s) && digits_val(s) <= MAX_UNITS {
                    Option::Some(digits_val(s) * SCALE)
                } else {
                    Option::None
                }
            },
            Option::Some(i) => {
                let whole = s.take(i);
                let frac = s.skip(i + 1);
                if whole.len() + frac.len() > 0 && all_digits(whole) && all_digits(frac)
                    && !frac.contains('.') && digits_val(whole) <= MAX_UNITS {
                    Option::Some(digits_val(whole) * SCALE + frac_val(frac))
                } else {
                    Option::None
                }
            },
        }
    }
}

/// Numeric coercion of text: trim, take an optional sign, then an
/// unsigned decimal. Empty or whitespace-only text gives no number.
pub open spec fn spec_parse(s: Seq<char>) -> Option<int> {
    let t = spec_trim_ws(s);
    if t.len() == 0 {
        Option::None
    } else if t[0] == '-' {
        match spec_parse_unsigned(t.drop_first()) {
            Option::Some(v) => Option::Some(-v),
            Option::None => Option::None,
        }
    } else if t[0] == '+' {
        spec_parse_unsigned(t.drop_first())
    } else {
        spec_parse_unsigned(t)
    }
}

} // verus!

verus! {

fn is_space_c(c: char) -> (r: bool)
    ensures
        r == is_space(c),
{
    c == ' ' || c == '\t' || c == '\n' || c == '\r'
}

fn is_digit_c(c: char) -> (r: bool)
    ensures
        r == is_digit(c),
{
    let u = c as u32;
    48 <= u && u <= 57
}

fn digit_val_c(c: char) -> (r: u64)
    requires
        is_digit(c),
    ensures
        r == digit_val(c),
{
    (c as u32 - 48) as u64
}

/// The characters of a text, one by one.
pub(crate) fn str_chars(s: &str) -> (v: Vec<char>)
    ensures
        v@ == s@,
{
    let len = s.unicode_len();
    let mut v: Vec<char> = Vec::new();
    let mut i: usize = 0;
    while i < len
        invariant
            i <= len,
            len == s@.len(),
            v@ == s@.take(i as int),
        decreases len - i,
    {
        let c = s.get_char(i);
        v.push(c);
        proof {
            assert(s@.take(i + 1 as int) =~= s@.take(i as int).push(s@[i as int]));
        }
        i = i + 1;
    }
    proof {
        assert(s@.take(len as int) =~= s@);
    }
    v
}

proof fn lemma_digits_val_bound(s: Seq<char>)
    requires
        all_digits(s),
    ensures
        0 <= digits_val(s) < spec_pow10(s.len() as int),
    decreases s.len(),
{
    if s.len() == 0 {
    } else {
        assert(all_digits(s.drop_last())) by {
            assert(forall|i: int|
                0 <= i < s.len() - 1 ==> #[trigger] s.drop_last()[i] == s[i]);
        }
        lemma_digits_val_bound(s.drop_last());
        assert(is_digit(s.last()));
    }
}

pub proof fn lemma_digits_val_nonneg(s: Seq<char>)
    requires
        all_digits(s),
    ensures
        digits_val(s) >= 0,
    decreases s.len(),
{
    if s.len() > 0 {
        assert(all_digits(s.drop_last())) by {
            assert(forall|i: int|
                0 <= i < s.len() - 1 ==> #[trigger] s.drop_last()[i] == s[i]);
        }
        lemma_digits_val_nonneg(s.drop_last());
    }
}

proof fn lemma_find_char(s: Seq<char>, c: char)
    ensures
        match find_char(s, c) {
            Option::Some(i) => 0 <= i < s.len() && s[i] == c && (forall|j: int|
                0 <= j < i ==> s[j] != c),
            Option::None => forall|j: int| 0 <= j < s.len() ==> s[j] != c,
        },
    decreases s.len(),
{
    if s.len() > 0 && s[0] != c {
        lemma_find_char(s.drop_first(), c);
        let t = s.drop_first();
        match find_char(t, c) {
            Option::Some(i) => {
                assert(s[i + 1] == t[i]);
                assert forall|j: int| 0 <= j < i + 1 implies s[j] != c by {
                    if j > 0 {
                        assert(t[j - 1] == s[j]);
                    }
                }
            },
            Option::None => {
                assert forall|j: int| 0 <= j < s.len() implies s[j] != c by {
                    if j > 0 {
                        assert(t[j - 1] == s[j]);
                    }
                }
            },
        }
    }
}

/// Parse the digit run `v[start..end)` as a whole number, reporting a
/// too-large run rather than a value.
fn scan_digits(v: &Vec<char>, start: usize, end: usize) -> (r: Option<u64>)
    requires
        start <= end <= v@.len(),
    ensures
        all_digits(v@.subrange(start as int, end as int)) ==> match r {
            Option::Some(x) => x == digits_val(v@.subrange(start as int, end as int))
                && x <= MAX_UNITS,
            Option::None => digits_val(v@.subrange(start as int, end as int)) > MAX_UNITS,
        },
        !all_digits(v@.subrange(start as int, end as int)) ==> r is None,
        r matches Option::Some(x) ==> all_digits(v@.subrange(start as int, end as int)),
{
    let ghost s = v@.subrange(start as int, end as int);
    let mut k: usize = start;
    let mut acc: u64 = 0;
    let mut big: bool = false;
    while k < end
        invariant
            start <= k <= end <= v@.len(),
            s == v@.subrange(start as int, end as int),
            all_digits(v@.subrange(start as int, k as int)),
            !big ==> acc == digits_val(v@.subrange(start as int, k as int))
                && acc <= MAX_UNITS,
            big ==> digits_val(v@.subrange(start as int, k as int)) > MAX_UNITS,
        decreases end - k,
    {
        let ghost pref = v@.subrange(start as int, k as int);
        let ghost pref1 = v@.subrange(start as int, k + 1 as int);
        let c = v[k];
        if !is_digit_c(c) {
            proof {
                assert(s[k - start as int] == c);
                assert(!all_digits(s));
            }
            return Option::None;
        }
        proof {
            assert(pref1.drop_last() =~= pref);
            assert(pref1.last() == c);
            assert(forall|i: int| 0 <= i < pref1.len() ==> #[trigger] pref1[i] == v@[start + i]);
            assert(all_digits(pref1));
            lemma_digits_val_nonneg(pref);
        }
        let d = digit_val_c(c);
        if !big {
            if acc > 90_000_000_000_000 - 1 {
                // acc * 10 + d could pass the cap only from here on
                let wide: u64 = acc;
                if wide > (MAX_UNITS as u64 - d) / 10 {
                    big = true;
                    proof {
                        assert(digits_val(pref1) == digits_val(pref) * 10 + digit_val(c));
                        assert(digits_val(pref1) > MAX_UNITS);
                    }
                } else {
                    acc = acc * 10 + d;
                }
            } else {
                acc = acc * 10 + d;
            }
        } else {
            proof {
                assert(digits_val(pref1) == digits_val(pref) * 10 + digit_val(c));
                assert(digits_val(pref) * 10 >= digits_val(pref));
            }
        }
        k = k + 1;
    }
    proof {
        assert(v@.subrange(start as int, k as int) == s);
    }
    if big {
        Option::None
    } else {
        Option::Some(acc)
    }
}

} // verus!

verus! {

/// Scan `v[start..end)` for the first point character.
fn find_dot(v: &Vec<char>, start: usize, end: usize) -> (r: Option<usize>)
    requires
        start <= end <= v@.len(),
    ensures
        find_char(v@.subrange(start as int, end as int), '.') == match r {
            Option::Some(i) => Option::Some(i - start as int),
            Option::None => Option::None::<int>,
        },
        r matches Option::Some(i) ==> start <= i < end,
{
    let ghost s = v@.subrange(start as int, end as int);
    let mut k: usize = start;
    while k < end
        invariant
            start <= k <= end <= v@.len(),
            s == v@.subrange(start as int, end as int),
            forall|j: int| 0 <= j < k - start ==> s[j] != '.',
        decreases end - k,
    {
        let c = v[k];
        if c == '.' {
            proof {
                assert(s[k - start as int] == '.');
                lemma_find_char(s, '.');
                match find_char(s, '.') {
                    Option::Some(i) => {
                        if i < k - start {
                            assert(s[i] != '.');
                        } else if i > k - start {
                            assert(s[k - start as int] != '.');
                        }
                    },
                    Option::None => {
                        assert(s[k - start as int] != '.');
                    },
                }
            }
            return Option::Some(k);
        }
        proof {
            assert(s[k - start as int] == c);
        }
        k = k + 1;
    }
    proof {
        lemma_find_char(s, '.');
        match find_char(s, '.') {
            Option::Some(i) => {
                assert(s[i] != '.');
            },
            Option::None => {},
        }
    }
    Option::None
}

/// Prove that every index of the range holding a digit makes the
/// subrange all digits.
proof fn lemma_subrange_digits(v: Seq<char>, start: int, end: int)
    requires
        0 <= start <= end <= v.len(),
    ensures
        all_digits(v.subrange(start, end)) == (forall|j: int|
            start <= j < end ==> is_digit(#[trigger] v[j])),
{
    let s = v.subrange(start, end);
    if forall|j: int| start <= j < end ==> is_digit(#[trigger] v[j]) {
        assert forall|i: int| 0 <= i < s.len() implies is_digit(#[trigger] s[i]) by {
            assert(s[i] == v[start + i]);
        }
    }
    if all_digits(s) {
        assert forall|j: int| start <= j < end implies is_digit(#[trigger] v[j]) by {
            assert(s[j - start] == v[j]);
        }
    }
}

/// Parse `v[start..end)` as an unsigned decimal with an optional point,
/// to non-negative fixed-point units.
fn parse_unsigned_range(v: &Vec<char>, start: usize, end: usize) -> (r: Option<i64>)
    requires
        start <= end <= v@.len(),
    ensures
        match r {
            Option::Some(x) => spec_parse_unsigned(v@.subrange(start as int, end as int))
                == Option::Some(x as int) && 0 <= x <= MAX_SCALED,
            Option::None => spec_parse_unsigned(v@.subrange(start as int, end as int))
                is None,
        },
{
    let ghost s = v@.subrange(start as int, end as int);
    if start == end {
        return Option::None;
    }
    let dot = find_dot(v, start, end);
    match dot {
        Option::None => {
            let whole = scan_digits(v, start, end);
            match whole {
                Option::Some(x) => {
                    proof {
                        lemma_digits_val_nonneg(s);
                    }
                    Option::Some(x as i64 * SCALE)
                },
                Option::None => Option::None,
            }
        },
        Option::Some(di) => {
            if di == start && di + 1 == end {
                // a lone point has no digits at all
                return Option::None;
            }
            let ghost whole_s = s.take(di - start as int);
            let ghost frac_s = s.skip(di - start as int + 1);
            proof {
                assert(whole_s =~= v@.subrange(start as int, di as int));
                assert(frac_s =~= v@.subrange(di + 1 as int, end as int));
            }
            let whole = scan_digits(v, start, di);
            let x = match whole {
                Option::Some(x) => x,
                Option::None => {
                    return Option::None;
                },
            };
            // the fraction: all digits, the first four give the value
            let flen = end - (di + 1);
            let k4: usize = if flen < 4 { flen } else { 4 };
            let f = match scan_digits(v, di + 1, di + 1 + k4) {
                Option::Some(f) => f,
                Option::None => {
                    proof {
                        let head = v@.subrange(di + 1 as int, di + 1 + k4 as int);
                        assert(spec_pow10(0) == 1);
                        assert(spec_pow10(1) == 10);
                        assert(spec_pow10(2) == 100);
                        assert(spec_pow10(3) == 1000);
                        assert(spec_pow10(4) == 10000);
                        if all_digits(head) {
                            lemma_digits_val_bound(head);
                            assert(digits_val(head) < 10000);
                            assert(false);
                        }
                        assert(exists|i: int| 0 <= i < head.len() && !is_digit(head[i]));
                        let i = choose|i: int| 0 <= i < head.len() && !is_digit(head[i]);
                        assert(frac_s[i] == head[i]);
                        assert(!all_digits(frac_s));
                    }
                    return Option::None;
                },
            };
            // the digits past the fourth must still be digits
            proof {
                lemma_subrange_digits(v@, di + 1 as int, di + 1 + k4 as int);
            }
            let mut k: usize = di + 1 + k4;
            while k < end
                invariant
                    di + 1 + k4 <= k <= end <= v@.len(),
                    start <= di < end,
                    s == v@.subrange(start as int, end as int),
                    find_char(s, '.') == Option::Some(di - start as int),
                    frac_s == s.skip(di - start as int + 1),
                    frac_s == v@.subrange(di + 1 as int, end as int),
                    forall|j: int| di + 1 <= j < k ==> is_digit(#[trigger] v@[j]),
                decreases end - k,
            {
                let c = v[k];
                if !is_digit_c(c) {
                    proof {
                        assert(frac_s[k - (di + 1) as int] == c);
                        assert(!all_digits(frac_s));
                    }
                    return Option::None;
                }
                k = k + 1;
            }
            proof {
                lemma_subrange_digits(v@, di + 1 as int, end as int);
                assert(all_digits(frac_s));
                assert(forall|j: int| 0 <= j < frac_s.len() ==> #[trigger] frac_s[j] != '.');
                assert(!frac_s.contains('.'));
                assert(frac_s.take(k4 as int) =~= v@.subrange(di + 1 as int, di + 1 + k4 as int));
                lemma_digits_val_bound(frac_s.take(k4 as int));
                lemma_digits_val_nonneg(whole_s);
                assert(spec_pow10(0) == 1);
                assert(spec_pow10(1) == 10);
                assert(spec_pow10(2) == 100);
                assert(spec_pow10(3) == 1000);
                assert(spec_pow10(4) == 10000);
            }
            let pow: u64 = if k4 == 0 {
                10000
            } else if k4 == 1 {
                1000
            } else if k4 == 2 {
                100
            } else if k4 == 3 {
                10
            } else {
                1
            };
            proof {
                assert(pow == spec_pow10(4 - k4 as int));
                assert(spec_pow10(4 - k4 as int) * spec_pow10(k4 as int) == 10000) by {
                    if k4 == 0 {
                        assert(spec_pow10(4) * spec_pow10(0) == 10000);
                    } else if k4 == 1 {
                        assert(spec_pow10(3) * spec_pow10(1) == 10000);
                    } else if k4 == 2 {
                        assert(spec_pow10(2) * spec_pow10(2) == 10000);
                    } else if k4 == 3 {
                        assert(spec_pow10(1) * spec_pow10(3) == 10000);
                    } else {
                        assert(spec_pow10(0) * spec_pow10(4) == 10000);
                    }
                }
                assert(digits_val(frac_s.take(k4 as int)) * spec_pow10(4 - k4 as int) < 10000)
                    by (nonlinear_arith)
                    requires
                        0 <= digits_val(frac_s.take(k4 as int)) < spec_pow10(k4 as int),
                        spec_pow10(4 - k4 as int) > 0,
                        spec_pow10(4 - k4 as int) * spec_pow10(k4 as int) == 10000,
                ;
                assert(f as int * pow as int == digits_val(frac_s.take(k4 as int)) * spec_pow10(
                    4 - k4 as int,
                ));
            }
            let fr: u64 = f * pow;
            Option::Some(x as i64 * SCALE + fr as i64)
        },
    }
}

} // verus!

verus! {

/// Index after the trailing whitespace of `v[..hi)`.
fn trim_hi(v: &Vec<char>, hi: usize) -> (r: usize)
    requires
        hi <= v@.len(),
    ensures
        r <= hi,
        drop_trail(v@.take(hi as int)) == v@.take(r as int),
    decreases hi,
{
    if hi == 0 {
        proof {
            assert(v@.take(0) =~= Seq::<char>::empty());
        }
        0
    } else {
        let c = v[hi - 1];
        proof {
            assert(v@.take(hi as int).last() == c);
        }
        if is_space_c(c) {
            proof {
                assert(v@.take(hi as int).drop_last() =~= v@.take(hi - 1 as int));
            }
            trim_hi(v, hi - 1)
        } else {
            hi
        }
    }
}

/// Index past the leading whitespace of `v[lo..hi)`.
fn trim_lo(v: &Vec<char>, lo: usize, hi: usize) -> (r: usize)
    requires
        lo <= hi <= v@.len(),
    ensures
        lo <= r <= hi,
        drop_lead(v@.subrange(lo as int, hi as int)) == v@.subrange(r as int, hi as int),
    decreases hi - lo,
{
    if lo == hi {
        lo
    } else {
        let c = v[lo];
        proof {
            assert(v@.subrange(lo as int, hi as int)[0] == c);
        }
        if is_space_c(c) {
            proof {
                assert(v@.subrange(lo as int, hi as int).drop_first() =~= v@.subrange(
                    lo + 1 as int,
                    hi as int,
                ));
            }
            trim_lo(v, lo + 1, hi)
        } else {
            lo
        }
    }
}

/// Numeric coercion of text to fixed-point units, or nothing where the
/// text does not read as a number.
pub fn parse_str(s: &str) -> (r: Option<i64>)
    ensures
        match r {
            Option::Some(x) => spec_parse(s@) == Option::Some(x as int) && -MAX_SCALED <= x
                <= MAX_SCALED,
            Option::None => spec_parse(s@) is None,
        },
{
    let v = str_chars(s);
    let len = v.len();
    proof {
        assert(v@.take(len as int) =~= v@);
    }
    let hi = trim_hi(&v, len);
    let lo = trim_lo(&v, 0, hi);
    let ghost t = spec_trim_ws(s@);
    proof {
        assert(v@.take(hi as int) =~= v@.subrange(0, hi as int));
        assert(t == v@.subrange(lo as int, hi as int));
    }
    if lo == hi {
        return Option::None;
    }
    let c0 = v[lo];
    proof {
        assert(t[0] == c0);
    }
    if c0 == '-' {
        proof {
            assert(t.drop_first() =~= v@.subrange(lo + 1 as int, hi as int));
        }
        match parse_unsigned_range(&v, lo + 1, hi) {
            Option::Some(x) => Option::Some(-x),
            Option::None => Option::None,
        }
    } else if c0 == '+' {
        proof {
            assert(t.drop_first() =~= v@.subrange(lo + 1 as int, hi as int));
        }
        parse_unsigned_range(&v, lo + 1, hi)
    } else {
        parse_unsigned_range(&v, lo, hi)
    }
}

// ---------------------------------------------------------------------
// Coercions
// ---------------------------------------------------------------------

/// Numeric coercion: a number itself; text by parsing; true is one and
/// false is zero; null is zero. Nothing stands for no number at all.
pub open spec fn spec_num_of(v: Value) -> Option<int> {
    match v {
        Value::Num(n) => Option::Some(n as int),
        Value::Text(s) => spec_parse(s@),
        Value::Boolean(b) => Option::Some(if b { SCALE as int } else { 0int }),
        Value::Null => Option::Some(0int),
    }
}

/// The string form of a value.
pub open spec fn spec_str_of(v: Value) -> Seq<char> {
    match v {
        Value::Num(n) => spec_render_scaled(n as int),
        Value::Text(s) => s@,
        Value::Boolean(b) => if b { seq!['t', 'r', 'u', 'e'] } else { seq!['f', 'a', 'l', 's', 'e'] },
        Value::Null => seq!['n', 'u', 'l', 'l'],
    }
}

/// Coerce a value to a number, in fixed-point units.
pub fn to_number(v: &Value) -> (r: Option<i64>)
    requires
        wf_value(*v),
    ensures
        match r {
            Option::Some(x) => spec_num_of(*v) == Option::Some(x as int) && -MAX_SCALED <= x
                <= MAX_SCALED,
            Option::None => spec_num_of(*v) is None,
        },
{
    match v {
        Value::Num(n) => Option::Some(*n),
        Value::Text(s) => parse_str(s.as_str()),
        Value::Boolean(b) => if *b {
            Option::Some(SCALE)
        } else {
            Option::Some(0)
        },
        Value::Null => Option::Some(0),
    }
}

/// Numeric coercion for arithmetic: what reads as no number counts as
/// zero.
pub fn to_number_or_zero(v: &Value) -> (r: i64)
    requires
        wf_value(*v),
    ensures
        match spec_num_of(*v) {
            Option::Some(x) => r == x,
            Option::None => r == 0,
        },
{
    match to_number(v) {
        Option::Some(x) => x,
        Option::None => 0,
    }
}

/// The string form of a value as text.
pub fn to_text(v: &Value) -> (r: String)
    requires
        wf_value(*v),
    ensures
        r@ == spec_str_of(*v),
{
    match v {
        Value::Num(n) => render_scaled(*n),
        Value::Text(s) => s.clone(),
        Value::Boolean(b) => {
            if *b {
                let r = String::from_str("true");
                proof {
                    reveal_strlit("true");
                    assert(r@ =~= seq!['t', 'r', 'u', 'e']);
                }
                r
            } else {
                let r = String::from_str("false");
                proof {
                    reveal_strlit("false");
                    assert(r@ =~= seq!['f', 'a', 'l', 's', 'e']);
                }
                r
            }
        },
        Value::Null => {
            let r = String::from_str("null");
            proof {
                reveal_strlit("null");
                assert(r@ =~= seq!['n', 'u', 'l', 'l']);
            }
            r
        },
    }
}

// ---------------------------------------------------------------------
// The total order
// ---------------------------------------------------------------------

/// Case folding of one character: ASCII capitals fold to small letters.
pub open spec fn fold_char(c: char) -> u32 {
    if 65 <= c as u32 <= 90 {
        (c as u32 + 32) as u32
    } else {
        c as u32
    }
}

/// Case-insensitive lexical order of two texts.
pub open spec fn spec_lex(a: Seq<char>, b: Seq<char>) -> Cmp
    decreases a.len(),
{
    if a.len() == 0 && b.len() == 0 {
        Cmp::Equal
    } else if a.len() == 0 {
        Cmp::Less
    } else if b.len() == 0 {
        Cmp::Greater
    } else if fold_char(a[0]) < fold_char(b[0]) {
        Cmp::Less
    } else if fold_char(a[0]) > fold_char(b[0]) {
        Cmp::Greater
    } else {
        spec_lex(a.drop_first(), b.drop_first())
    }
}

/// The total order on values: numeric where both sides coerce to a
/// number, else case-insensitive lexical on the string forms.
pub open spec fn spec_compare(a: Value, b: Value) -> Cmp {
    match (spec_num_of(a), spec_num_of(b)) {
        (Option::Some(x), Option::Some(y)) => if x < y {
            Cmp::Less
        } else if x > y {
            Cmp::Greater
        } else {
            Cmp::Equal
        },
        _ => spec_lex(spec_str_of(a), spec_str_of(b)),
    }
}

pub(crate) fn fold_c(c: char) -> (r: u32)
    ensures
        r == fold_char(c),
{
    let u = c as u32;
    if 65 <= u && u <= 90 {
        u + 32
    } else {
        u
    }
}

fn lex_cmp(a: &str, b: &str) -> (r: Cmp)
    ensures
        r == spec_lex(a@, b@),
{
    let la = a.unicode_len();
    let lb = b.unicode_len();
    let mut i: usize = 0;
    proof {
        assert(a@.skip(0) =~= a@);
        assert(b@.skip(0) =~= b@);
    }
    while i < la && i < lb
        invariant
            i <= la,
            i <= lb,
            la == a@.len(),
            lb == b@.len(),
            spec_lex(a@, b@) == spec_lex(a@.skip(i as int), b@.skip(i as int)),
        decreases la - i,
    {
        let ca = a.get_char(i);
        let cb = b.get_char(i);
        proof {
            assert(a@.skip(i as int)[0] == a@[i as int]);
            assert(b@.skip(i as int)[0] == b@[i as int]);
        }
        let fa = fold_c(ca);
        let fb = fold_c(cb);
        if fa < fb {
            return Cmp::Less;
        }
        if fa > fb {
            return Cmp::Greater;
        }
        proof {
            assert(a@.skip(i as int).drop_first() =~= a@.skip(i + 1 as int));
            assert(b@.skip(i as int).drop_first() =~= b@.skip(i + 1 as int));
        }
        i = i + 1;
    }
    if la == lb {
        Cmp::Equal
    } else if i == la {
        Cmp::Less
    } else {
        Cmp::Greater
    }
}

/// Compare two values under the total order.
pub fn compare(a: &Value, b: &Value) -> (r: Cmp)
    requires
        wf_value(*a),
        wf_value(*b),
    ensures
        r == spec_compare(*a, *b),
{
    let na = to_number(a);
    let nb = to_number(b);
    match (na, nb) {
        (Option::Some(x), Option::Some(y)) => {
            if x < y {
                Cmp::Less
            } else if x > y {
                Cmp::Greater
            } else {
                Cmp::Equal
            }
        },
        _ => {
            let sa = to_text(a);
            let sb = to_text(b);
            lex_cmp(sa.as_str(), sb.as_str())
        },
    }
}

/// Equality of two values is comparison yielding Equal.
pub fn equals(a: &Value, b: &Value) -> (r: bool)
    requires
        wf_value(*a),
        wf_value(*b),
    ensures
        r == (spec_compare(*a, *b) == Cmp::Equal),
{
    match compare(a, b) {
        Cmp::Equal => true,
        _ => false,
    }
}

// ---------------------------------------------------------------------
// Truthiness
// ---------------------------------------------------------------------

/// The folded code points of a text.
pub open spec fn spec_fold_seq(s: Seq<char>) -> Seq<u32> {
    Seq::new(s.len(), |i: int| fold_char(s[i]))
}

/// Boolean coercion: zero, empty text, the text of zero and the word
/// false (in any case) are false; everything else is true.
pub open spec fn spec_truthy(v: Value) -> bool {
    match v {
        Value::Num(n) => n != 0,
        Value::Boolean(b) => b,
        Value::Null => false,
        Value::Text(s) => !(s@.len() == 0 || s@ == seq!['0'] || spec_fold_seq(s@) == seq![
            102u32,
            97u32,
            108u32,
            115u32,
            101u32,
        ]),
    }
}

/// Coerce a value to a boolean.
pub fn to_bool(v: &Value) -> (r: bool)
    ensures
        r == spec_truthy(*v),
{
    match v {
        Value::Num(n) => *n != 0,
        Value::Boolean(b) => *b,
        Value::Null => false,
        Value::Text(s) => {
            let st = s.as_str();
            let len = st.unicode_len();
            if len == 0 {
                false
            } else if len == 1 {
                let c = st.get_char(0);
                if c == '0' {
                    proof {
                        assert(s@ =~= seq!['0']);
                    }
                    false
                } else {
                    proof {
                        assert(s@ != seq!['0']);
                        assert(spec_fold_seq(s@).len() != 5);
                    }
                    true
                }
            } else if len == 5 {
                let f0 = fold_c(st.get_char(0));
                let f1 = fold_c(st.get_char(1));
                let f2 = fold_c(st.get_char(2));
                let f3 = fold_c(st.get_char(3));
                let f4 = fold_c(st.get_char(4));
                if f0 == 102 && f1 == 97 && f2 == 108 && f3 == 115 && f4 == 101 {
                    proof {
                        assert(spec_fold_seq(s@) =~= seq![102u32, 97u32, 108u32, 115u32, 101u32]);
                    }
                    false
                } else {
                    proof {
                        assert(spec_fold_seq(s@) != seq![102u32, 97u32, 108u32, 115u32, 101u32]);
                    }
                    true
                }
            } else {
                proof {
                    assert(spec_fold_seq(s@).len() == s@.len());
                }
                true
            }
        },
    }
}

// ---------------------------------------------------------------------
// Laws of the order
// ---------------------------------------------------------------------

proof fn lemma_lex_flip(a: Seq<char>, b: Seq<char>)
    ensures
        (spec_lex(a, b) == Cmp::Equal) <==> (spec_lex(b, a) == Cmp::Equal),
        (spec_lex(a, b) == Cmp::Less) <==> (spec_lex(b, a) == Cmp::Greater),
    decreases a.len(),
{
    if a.len() > 0 && b.len() > 0 && fold_char(a[0]) == fold_char(b[0]) {
        lemma_lex_flip(a.drop_first(), b.drop_first());
    }
}

proof fn lemma_lex_refl(a: Seq<char>)
    ensures
        spec_lex(a, a) == Cmp::Equal,
    decreases a.len(),
{
    if a.len() > 0 {
        lemma_lex_refl(a.drop_first());
    }
}

/// Comparing two values in either order yields Equal together, and
/// swapping the order swaps Less and Greater.
pub proof fn lemma_compare_symmetric(a: Value, b: Value)
    ensures
        (spec_compare(a, b) == Cmp::Equal) <==> (spec_compare(b, a) == Cmp::Equal),
        (spec_compare(a, b) == Cmp::Less) <==> (spec_compare(b, a) == Cmp::Greater),
{
    lemma_lex_flip(spec_str_of(a), spec_str_of(b));
}

/// Every value compares Equal to itself.
pub proof fn lemma_compare_reflexive(a: Value)
    ensures
        spec_compare(a, a) == Cmp::Equal,
{
    lemma_lex_refl(spec_str_of(a));
}

} // verus!

verus! {

/// Copy a value.
pub fn clone_value(v: &Value) -> (r: Value)
    ensures
        r == *v,
{
    match v {
        Value::Num(n) => Value::Num(*n),
        Value::Text(s) => Value::Text(s.clone()),
        Value::Boolean(b) => Value::Boolean(*b),
        Value::Null => Value::Null,
    }
}

/// Copy a value list.
pub fn clone_values(v: &Vec<Value>) -> (r: Vec<Value>)
    ensures
        r@ == v@,
{
    let mut out: Vec<Value> = Vec::new();
    let mut i: usize = 0;
    while i < v.len()
        invariant
            i <= v@.len(),
            out@ == v@.take(i as int),
        decreases v@.len() - i,
    {
        out.push(clone_value(&v[i]));
        proof {
            assert(v@.take(i + 1 as int) =~= v@.take(i as int).push(v@[i as int]));
        }
        i = i + 1;
    }
    proof {
        assert(v@.take(v@.len() as int) =~= v@);
    }
    out
}

} // verus!
