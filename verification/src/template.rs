//! Code templates and fragments.
//!
//! A template is a sequence of segments: literal text, or a named
//! placeholder hole. Compiling a block fills the holes one by one —
//! each substitution fills only the first hole of the given name, and a
//! filled-in fragment is spliced as plain segments, so a later
//! substitution can never corrupt it even when the same token text
//! occurs inside. Whatever holes remain at the end (an empty loop body,
//! say) are deleted, and rendering concatenates the text segments.

use vstd::prelude::*;

verus! {

/// One segment of a template or fragment.
#[derive(Debug)]
pub enum Seg {
    /// Literal text of the generated code.
    Text(String),
    /// A placeholder hole, named by its token.
    Hole(String),
}

/// The mathematical form of a segment.
pub enum SegView {
    Text(Seq<char>),
    Hole(Seq<char>),
}

impl View for Seg {
    type V = SegView;

    open spec fn view(&self) -> SegView {
        match self {
            Seg::Text(s) => SegView::Text(s@),
            Seg::Hole(n) => SegView::Hole(n@),
        }
    }
}

/// The mathematical form of a segment vector.
pub open spec fn segs_view(v: Seq<Seg>) -> Seq<SegView> {
    Seq::new(v.len(), |i: int| v[i]@)
}

/// Whether a segment is a hole with the given name.
pub open spec fn hole_named(seg: SegView, n: Seq<char>) -> bool {
    match seg {
        SegView::Hole(m) => m == n,
        SegView::Text(_) => false,
    }
}

/// A fragment with no holes left at all.
pub open spec fn no_holes(s: Seq<SegView>) -> bool {
    forall|i: int| 0 <= i < s.len() ==> (#[trigger] s[i]) matches SegView::Text(_)
}

/// No hole of the given name in the sequence.
pub open spec fn no_hole_named(s: Seq<SegView>, n: Seq<char>) -> bool {
    forall|i: int| 0 <= i < s.len() ==> !hole_named(#[trigger] s[i], n)
}

/// Fill the first hole of the given name with the fragment, splicing its
/// segments in place; without such a hole the template stands unchanged.
pub open spec fn spec_subst(t: Seq<SegView>, n: Seq<char>, f: Seq<SegView>) -> Seq<SegView>
    decreases t.len(),
{
    if t.len() == 0 {
        t
    } else if hole_named(t[0], n) {
        f + t.drop_first()
    } else {
        seq![t[0]] + spec_subst(t.drop_first(), n, f)
    }
}

/// Delete every remaining hole.
pub open spec fn spec_clear(t: Seq<SegView>) -> Seq<SegView>
    decreases t.len(),
{
    if t.len() == 0 {
        t
    } else {
        spec_clear(t.drop_last()) + (match t.last() {
            SegView::Text(_) => seq![t.last()],
            SegView::Hole(_) => Seq::<SegView>::empty(),
        })
    }
}

/// The text of a fragment: its text segments concatenated; a hole
/// contributes nothing.
pub open spec fn spec_render(t: Seq<SegView>) -> Seq<char>
    decreases t.len(),
{
    if t.len() == 0 {
        Seq::<char>::empty()
    } else {
        spec_render(t.drop_last()) + (match t.last() {
            SegView::Text(x) => x,
            SegView::Hole(_) => Seq::<char>::empty(),
        })
    }
}

/// Copy one segment.
pub fn clone_seg(s: &Seg) -> (r: Seg)
    ensures
        r@ == s@,
{
    match s {
        Seg::Text(x) => Seg::Text(x.clone()),
        Seg::Hole(n) => Seg::Hole(n.clone()),
    }
}

/// Copy a segment vector.
pub fn clone_segs(v: &Vec<Seg>) -> (r: Vec<Seg>)
    ensures
        segs_view(r@) == segs_view(v@),
        r@.len() == v@.len(),
{
    let mut out: Vec<Seg> = Vec::new();
    let mut i: usize = 0;
    while i < v.len()
        invariant
            i <= v@.len(),
            out@.len() == i,
            forall|j: int| 0 <= j < i ==> out@[j]@ == v@[j]@,
        decreases v@.len() - i,
    {
        out.push(clone_seg(&v[i]));
        i = i + 1;
    }
    proof {
        assert(segs_view(out@) =~= segs_view(v@));
    }
    out
}

/// Append a copy of every segment of `f` to `out`.
pub fn append_segs(out: &mut Vec<Seg>, f: &Vec<Seg>)
    ensures
        final(out)@.len() == old(out)@.len() + f@.len(),
        segs_view(final(out)@) == segs_view(old(out)@) + segs_view(f@),
{
    let mut i: usize = 0;
    while i < f.len()
        invariant
            i <= f@.len(),
            out@.len() == old(out)@.len() + i,
            forall|j: int| 0 <= j < old(out)@.len() ==> out@[j]@ == old(out)@[j]@,
            forall|j: int| 0 <= j < i ==> out@[old(out)@.len() + j]@ == f@[j]@,
        decreases f@.len() - i,
    {
        out.push(clone_seg(&f[i]));
        i = i + 1;
    }
    proof {
        assert(segs_view(out@) =~= segs_view(old(out)@) + segs_view(f@));
    }
}

/// Copy the segments `t[a..b)`.
pub fn copy_range(t: &Vec<Seg>, a: usize, b: usize) -> (r: Vec<Seg>)
    requires
        a <= b <= t@.len(),
    ensures
        r@.len() == b - a,
        segs_view(r@) == segs_view(t@).subrange(a as int, b as int),
{
    let mut out: Vec<Seg> = Vec::new();
    let mut i: usize = a;
    while i < b
        invariant
            a <= i <= b <= t@.len(),
            out@.len() == i - a,
            forall|j: int| 0 <= j < i - a ==> out@[j]@ == t@[a + j]@,
        decreases b - i,
    {
        out.push(clone_seg(&t[i]));
        i = i + 1;
    }
    proof {
        assert(segs_view(out@) =~= segs_view(t@).subrange(a as int, b as int));
    }
    out
}

/// Find the first hole named `n`.
fn find_hole(t: &Vec<Seg>, n: &String) -> (r: Option<usize>)
    ensures
        match r {
            Option::Some(i) => i < t@.len() && hole_named(t@[i as int]@, n@) && no_hole_named(
                segs_view(t@).take(i as int),
                n@,
            ),
            Option::None => no_hole_named(segs_view(t@), n@),
        },
{
    let mut i: usize = 0;
    while i < t.len()
        invariant
            i <= t@.len(),
            no_hole_named(segs_view(t@).take(i as int), n@),
        decreases t@.len() - i,
    {
        let hit = match &t[i] {
            Seg::Hole(m) => *m == *n,
            Seg::Text(_) => false,
        };
        if hit {
            proof {
                assert(hole_named(t@[i as int]@, n@));
            }
            return Option::Some(i);
        }
        proof {
            assert(!hole_named(t@[i as int]@, n@));
            assert(segs_view(t@).take(i + 1 as int) =~= segs_view(t@).take(i as int).push(
                t@[i as int]@,
            ));
            assert(forall|j: int|
                0 <= j < i + 1 ==> !hole_named(
                    #[trigger] segs_view(t@).take(i + 1 as int)[j],
                    n@,
                ));
        }
        i = i + 1;
    }
    proof {
        assert(segs_view(t@).take(t@.len() as int) =~= segs_view(t@));
    }
    Option::None
}

/// Fill the first hole named `n` in `t` with the fragment `f`.
pub fn subst_first(t: &Vec<Seg>, n: &String, f: &Vec<Seg>) -> (r: Vec<Seg>)
    ensures
        segs_view(r@) == spec_subst(segs_view(t@), n@, segs_view(f@)),
{
    match find_hole(t, n) {
        Option::Some(i) => {
            let len = t.len();
            let mut out = copy_range(t, 0, i);
            append_segs(&mut out, f);
            let rest = copy_range(t, i + 1, len);
            append_segs(&mut out, &rest);
            proof {
                lemma_subst_unfold(segs_view(t@), n@, segs_view(f@), i as int);
                assert(segs_view(t@).subrange(0, i as int) =~= segs_view(t@).take(i as int));
                assert(segs_view(t@).subrange(i + 1 as int, t@.len() as int) =~= segs_view(
                    t@,
                ).skip(i + 1 as int));
                assert(segs_view(out@) =~= segs_view(t@).take(i as int) + segs_view(f@)
                    + segs_view(t@).skip(i + 1 as int));
            }
            out
        },
        Option::None => {
            let out = clone_segs(t);
            proof {
                lemma_subst_missing(segs_view(t@), n@, segs_view(f@));
            }
            out
        },
    }
}

/// Where the first hole named `n` stands at `i`, substitution splits the
/// template there.
proof fn lemma_subst_unfold(t: Seq<SegView>, n: Seq<char>, f: Seq<SegView>, i: int)
    requires
        0 <= i < t.len(),
        hole_named(t[i], n),
        no_hole_named(t.take(i), n),
    ensures
        spec_subst(t, n, f) == t.take(i) + f + t.skip(i + 1),
    decreases i,
{
    if i == 0 {
        assert(spec_subst(t, n, f) == f + t.drop_first());
        assert(t.take(0) + f + t.skip(1) =~= f + t.drop_first());
    } else {
        assert(!hole_named(t[0], n)) by {
            assert(t.take(i)[0] == t[0]);
        }
        assert forall|j: int| 0 <= j < i - 1 implies !hole_named(
            #[trigger] t.drop_first().take(i - 1)[j],
            n,
        ) by {
            assert(t.drop_first().take(i - 1)[j] == t[j + 1]);
            assert(t.take(i)[j + 1] == t[j + 1]);
        }
        assert(no_hole_named(t.drop_first().take(i - 1), n));
        assert(t.drop_first()[i - 1] == t[i]);
        lemma_subst_unfold(t.drop_first(), n, f, i - 1);
        assert(seq![t[0]] + (t.drop_first().take(i - 1) + f + t.drop_first().skip(i)) =~= t.take(i)
            + f + t.skip(i + 1));
    }
}

/// Without a hole of the name, substitution changes nothing.
proof fn lemma_subst_missing(t: Seq<SegView>, n: Seq<char>, f: Seq<SegView>)
    requires
        no_hole_named(t, n),
    ensures
        spec_subst(t, n, f) == t,
    decreases t.len(),
{
    if t.len() > 0 {
        assert(no_hole_named(t.drop_first(), n)) by {
            assert(forall|j: int|
                0 <= j < t.len() - 1 ==> t.drop_first()[j] == #[trigger] t[j + 1]);
        }
        lemma_subst_missing(t.drop_first(), n, f);
        assert(seq![t[0]] + t.drop_first() =~= t);
    }
}

/// Delete every remaining hole of a fragment.
pub fn clear_holes(t: &Vec<Seg>) -> (r: Vec<Seg>)
    ensures
        segs_view(r@) == spec_clear(segs_view(t@)),
        no_holes(segs_view(r@)),
{
    let mut out: Vec<Seg> = Vec::new();
    let mut i: usize = 0;
    proof {
        assert(segs_view(t@).take(0) =~= Seq::<SegView>::empty());
    }
    while i < t.len()
        invariant
            i <= t@.len(),
            segs_view(out@) == spec_clear(segs_view(t@).take(i as int)),
            no_holes(segs_view(out@)),
        decreases t@.len() - i,
    {
        let ghost pre = segs_view(out@);
        proof {
            assert(segs_view(t@).take(i + 1 as int).drop_last() =~= segs_view(t@).take(i as int));
            assert(segs_view(t@).take(i + 1 as int).last() == t@[i as int]@);
        }
        match &t[i] {
            Seg::Text(x) => {
                out.push(Seg::Text(x.clone()));
                proof {
                    assert(segs_view(out@) =~= pre + seq![t@[i as int]@]);
                }
            },
            Seg::Hole(_) => {
                proof {
                    assert(segs_view(out@) =~= pre + Seq::<SegView>::empty());
                }
            },
        }
        i = i + 1;
    }
    proof {
        assert(segs_view(t@).take(t@.len() as int) =~= segs_view(t@));
    }
    out
}

/// Relies on std's `String::push_str`: appends the text at the end.
#[verifier::external_body]
fn push_str(s: &mut String, t: &str)
    ensures
        final(s)@ == old(s)@ + t@,
{
    s.push_str(t);
}

/// The text of a fragment.
pub fn render(t: &Vec<Seg>) -> (r: String)
    ensures
        r@ == spec_render(segs_view(t@)),
{
    let mut out = String::new();
    let mut i: usize = 0;
    proof {
        assert(segs_view(t@).take(0) =~= Seq::<SegView>::empty());
    }
    while i < t.len()
        invariant
            i <= t@.len(),
            out@ == spec_render(segs_view(t@).take(i as int)),
        decreases t@.len() - i,
    {
        let ghost pre = out@;
        proof {
            assert(segs_view(t@).take(i + 1 as int).drop_last() =~= segs_view(t@).take(i as int));
            assert(segs_view(t@).take(i + 1 as int).last() == t@[i as int]@);
        }
        match &t[i] {
            Seg::Text(x) => {
                push_str(&mut out, x.as_str());
            },
            Seg::Hole(_) => {
                proof {
                    assert(pre + Seq::<char>::empty() =~= pre);
                }
            },
        }
        i = i + 1;
    }
    proof {
        assert(segs_view(t@).take(t@.len() as int) =~= segs_view(t@));
    }
    out
}

/// Substituting a literal never corrupts an earlier-substituted
/// fragment: once the first hole named `n` (at `i`, with none before it)
/// has been filled with the hole-free fragment `f`, filling the name
/// again leaves `f` and everything before it intact — the second
/// fragment lands only in the template's remainder.
pub proof fn lemma_subst_no_corruption(
    t: Seq<SegView>,
    n: Seq<char>,
    f: Seq<SegView>,
    g: Seq<SegView>,
    i: int,
)
    requires
        0 <= i < t.len(),
        hole_named(t[i], n),
        no_hole_named(t.take(i), n),
        no_holes(f),
    ensures
        spec_subst(spec_subst(t, n, f), n, g) == t.take(i) + f + spec_subst(t.skip(i + 1), n, g),
{
    lemma_subst_unfold(t, n, f, i);
    let a = t.take(i) + f;
    assert(no_hole_named(a, n)) by {
        assert(forall|j: int| 0 <= j < i ==> a[j] == #[trigger] t.take(i)[j]);
        assert(forall|j: int| i <= j < a.len() ==> a[j] == #[trigger] f[j - i]);
    }
    lemma_subst_prefix(a, t.skip(i + 1), n, g);
    assert(t.take(i) + f + t.skip(i + 1) =~= a + t.skip(i + 1));
    assert(t.take(i) + f + spec_subst(t.skip(i + 1), n, g) =~= a + spec_subst(
        t.skip(i + 1),
        n,
        g,
    ));
}

/// Substitution walks past a prefix without the name.
proof fn lemma_subst_prefix(a: Seq<SegView>, b: Seq<SegView>, n: Seq<char>, g: Seq<SegView>)
    requires
        no_hole_named(a, n),
    ensures
        spec_subst(a + b, n, g) == a + spec_subst(b, n, g),
    decreases a.len(),
{
    if a.len() == 0 {
        assert(a + b =~= b);
        assert(a + spec_subst(b, n, g) =~= spec_subst(b, n, g));
    } else {
        assert(!hole_named((a + b)[0], n));
        assert(no_hole_named(a.drop_first(), n)) by {
            assert(forall|j: int|
                0 <= j < a.len() - 1 ==> a.drop_first()[j] == #[trigger] a[j + 1]);
        }
        lemma_subst_prefix(a.drop_first(), b, n, g);
        assert((a + b).drop_first() =~= a.drop_first() + b);
        assert(seq![(a + b)[0]] + (a.drop_first() + spec_subst(b, n, g)) =~= a + spec_subst(
            b,
            n,
            g,
        ));
    }
}

} // verus!

verus! {

// ---------------------------------------------------------------------
// Template text: placeholder tokens
// ---------------------------------------------------------------------

/// A capital letter.
pub open spec fn is_upper(c: char) -> bool {
    65 <= c as u32 <= 90
}

/// A small letter.
pub open spec fn is_small(c: char) -> bool {
    97 <= c as u32 <= 122
}

/// A character a placeholder token may hold: capitals, digits and the
/// underscore.
pub open spec fn is_token_char(c: char) -> bool {
    is_upper(c) || (48 <= c as u32 <= 57) || c == '_'
}

/// Length of the maximal token-character run starting at `i`.
pub open spec fn run_len(s: Seq<char>, i: int) -> int
    decreases s.len() - i when i <= s.len()
{
    if i < 0 || i >= s.len() || !is_token_char(s[i]) {
        0
    } else {
        1 + run_len(s, i + 1)
    }
}

/// Whether the run `s[i..j)` holds a capital letter.
pub open spec fn run_has_upper(s: Seq<char>, i: int, j: int) -> bool
    decreases j - i,
{
    if i >= j {
        false
    } else {
        is_upper(s[i]) || run_has_upper(s, i + 1, j)
    }
}

/// A placeholder token starts at `i`: a non-empty token-character run
/// with at least one capital, not running into a small letter (which
/// would make it part of an ordinary identifier).
pub open spec fn hole_starts(s: Seq<char>, i: int) -> bool {
    let l = run_len(s, i);
    l > 0 && run_has_upper(s, i, i + l) && (i + l >= s.len() || !is_small(s[i + l]))
}

proof fn lemma_run_len_bounds(s: Seq<char>, i: int)
    requires
        0 <= i <= s.len(),
    ensures
        0 <= run_len(s, i) <= s.len() - i,
    decreases s.len() - i,
{
    if i < s.len() && is_token_char(s[i]) {
        lemma_run_len_bounds(s, i + 1);
    }
}

/// The segments of template text from position `i` on: each placeholder
/// token becomes a hole, every other character literal text.
pub open spec fn spec_tokenize(s: Seq<char>, i: int) -> Seq<SegView>
    decreases s.len() - i when 0 <= i <= s.len() via spec_tokenize_dec
{
    if i < 0 || i >= s.len() {
        Seq::<SegView>::empty()
    } else if hole_starts(s, i) {
        seq![SegView::Hole(s.subrange(i, i + run_len(s, i)))] + spec_tokenize(
            s,
            i + run_len(s, i),
        )
    } else {
        seq![SegView::Text(s.subrange(i, i + 1))] + spec_tokenize(s, i + 1)
    }
}

#[via_fn]
proof fn spec_tokenize_dec(s: Seq<char>, i: int) {
    if 0 <= i < s.len() && hole_starts(s, i) {
        lemma_run_len_bounds(s, i);
    }
}

fn is_token_char_c(c: char) -> (r: bool)
    ensures
        r == is_token_char(c),
{
    let u = c as u32;
    (65 <= u && u <= 90) || (48 <= u && u <= 57) || c == '_'
}

fn is_upper_c(c: char) -> (r: bool)
    ensures
        r == is_upper(c),
{
    let u = c as u32;
    65 <= u && u <= 90
}

fn is_small_c(c: char) -> (r: bool)
    ensures
        r == is_small(c),
{
    let u = c as u32;
    97 <= u && u <= 122
}

fn run_len_ex(v: &Vec<char>, i: usize) -> (r: usize)
    requires
        i <= v@.len(),
    ensures
        r == run_len(v@, i as int),
        i + r <= v@.len(),
    decreases v@.len() - i,
{
    if i == v.len() {
        0
    } else if !is_token_char_c(v[i]) {
        0
    } else {
        1 + run_len_ex(v, i + 1)
    }
}

fn run_has_upper_ex(v: &Vec<char>, i: usize, j: usize) -> (r: bool)
    requires
        j <= v@.len(),
    ensures
        r == run_has_upper(v@, i as int, j as int),
    decreases v@.len() - i,
{
    if i >= j {
        false
    } else if is_upper_c(v[i]) {
        true
    } else {
        run_has_upper_ex(v, i + 1, j)
    }
}

/// The text `v[a..b)`.
fn string_of_range(v: &Vec<char>, a: usize, b: usize) -> (r: String)
    requires
        a <= b <= v@.len(),
    ensures
        r@ == v@.subrange(a as int, b as int),
{
    let mut out = String::new();
    let mut i: usize = a;
    proof {
        assert(v@.subrange(a as int, a as int) =~= Seq::<char>::empty());
    }
    while i < b
        invariant
            a <= i <= b <= v@.len(),
            out@ == v@.subrange(a as int, i as int),
        decreases b - i,
    {
        crate::value::push_char(&mut out, v[i]);
        proof {
            assert(v@.subrange(a as int, i + 1 as int) =~= v@.subrange(a as int, i as int).push(
                v@[i as int],
            ));
        }
        i = i + 1;
    }
    out
}

fn tokenize_from(v: &Vec<char>, i: usize) -> (r: Vec<Seg>)
    requires
        i <= v@.len(),
    ensures
        segs_view(r@) == spec_tokenize(v@, i as int),
    decreases v@.len() - i,
{
    if i >= v.len() {
        let out: Vec<Seg> = Vec::new();
        proof {
            assert(segs_view(out@) =~= spec_tokenize(v@, i as int));
        }
        out
    } else {
        let l = run_len_ex(v, i);
        let hole = if l == 0 {
            false
        } else {
            let up = run_has_upper_ex(v, i, i + l);
            if !up {
                false
            } else if i + l == v.len() {
                true
            } else {
                !is_small_c(v[i + l])
            }
        };
        if hole {
            let name = string_of_range(v, i, i + l);
            let rest = tokenize_from(v, i + l);
            let mut out: Vec<Seg> = Vec::new();
            out.push(Seg::Hole(name));
            append_segs(&mut out, &rest);
            proof {
                assert(segs_view(out@) =~= seq![
                    SegView::Hole(v@.subrange(i as int, i + l as int)),
                ] + segs_view(rest@));
            }
            out
        } else {
            let text = string_of_range(v, i, i + 1);
            let rest = tokenize_from(v, i + 1);
            let mut out: Vec<Seg> = Vec::new();
            out.push(Seg::Text(text));
            append_segs(&mut out, &rest);
            proof {
                assert(segs_view(out@) =~= seq![
                    SegView::Text(v@.subrange(i as int, i + 1 as int)),
                ] + segs_view(rest@));
            }
            out
        }
    }
}

/// Parse template text into segments: placeholder tokens become holes,
/// the rest literal text.
pub fn parse_template(s: &str) -> (r: Vec<Seg>)
    ensures
        segs_view(r@) == spec_tokenize(s@, 0),
{
    let v = crate::value::str_chars(s);
    tokenize_from(&v, 0)
}

} // verus!
