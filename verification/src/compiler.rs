//! The block compiler: one block, and recursively its reporter inputs
//! and substacks, becomes a code fragment.
//!
//! The opcode selects a template from the table; each input slot fills
//! the template hole of the slot's name — a literal as a
//! value-construction expression, a child block by compiling it in
//! place — and each field slot fills the hole of the field's name.
//! Holes left unfilled (an empty loop body) are deleted. A stack is
//! compiled by walking `next` links and concatenating the fragments in
//! chain order. Compilation spends fuel on every link it follows, so a
//! cyclic graph ends in an error rather than running forever.

use vstd::prelude::*;

use crate::blocks::{map_find, find_block, Arg, Block, BlockMap};
use crate::table::{spec_lookup, OpTable};
use crate::template::{
    clear_holes, clone_segs, append_segs, is_upper, segs_view, spec_clear, spec_subst, subst_first,
    Seg, SegView,
};
use crate::value::push_char;

verus! {

/// Why a compilation failed.
#[derive(Debug)]
pub enum CompileError {
    /// A block's opcode is not in the table; holds the opcode.
    UnknownOpcode(String),
    /// A literal kind the compiler does not translate; holds its text.
    UnsupportedLiteral(String),
    /// A literal whose kind or shape the graph format does not allow;
    /// holds its text.
    MalformedLiteral(String),
    /// A `next` or substack link names no block; holds the id.
    MissingBlock(String),
    /// The graph nests deeper than the fuel given (as a cycle would).
    OutOfDepth,
}

/// The mathematical form of a compile error.
pub enum ErrView {
    UnknownOpcode(Seq<char>),
    UnsupportedLiteral(Seq<char>),
    MalformedLiteral(Seq<char>),
    MissingBlock(Seq<char>),
    OutOfDepth,
}

impl View for CompileError {
    type V = ErrView;

    open spec fn view(&self) -> ErrView {
        match self {
            CompileError::UnknownOpcode(s) => ErrView::UnknownOpcode(s@),
            CompileError::UnsupportedLiteral(s) => ErrView::UnsupportedLiteral(s@),
            CompileError::MalformedLiteral(s) => ErrView::MalformedLiteral(s@),
            CompileError::MissingBlock(s) => ErrView::MissingBlock(s@),
            CompileError::OutOfDepth => ErrView::OutOfDepth,
        }
    }
}

/// The mathematical form of a fragment list.
pub open spec fn frags_view(s: Seq<Vec<Seg>>) -> Seq<Seq<SegView>> {
    Seq::new(s.len(), |i: int| segs_view(s[i]@))
}

// ---------------------------------------------------------------------
// Procedure names
// ---------------------------------------------------------------------

/// An ASCII capital folded to its small letter.
pub open spec fn spec_lower_char(c: char) -> char {
    if is_upper(c) {
        ((c as u8) + 32) as char
    } else {
        c
    }
}

/// Each character folded to its small letter.
pub open spec fn spec_lower_seq(s: Seq<char>) -> Seq<char> {
    Seq::new(s.len(), |i: int| spec_lower_char(s[i]))
}

/// The canonical procedure name of a signature text, from position `i`:
/// the parameter markers " %s" and " %b" become "_percent_s" and
/// "_percent_b", other spaces become underscores, capitals fold to
/// small letters.
pub open spec fn spec_canon_from(s: Seq<char>, i: int) -> Seq<char>
    decreases s.len() - i,
{
    if i < 0 || i >= s.len() {
        Seq::<char>::empty()
    } else if i + 3 <= s.len() && s[i] == ' ' && s[i + 1] == '%' && s[i + 2] == 's' {
        seq!['_', 'p', 'e', 'r', 'c', 'e', 'n', 't', '_', 's'] + spec_canon_from(s, i + 3)
    } else if i + 3 <= s.len() && s[i] == ' ' && s[i + 1] == '%' && s[i + 2] == 'b' {
        seq!['_', 'p', 'e', 'r', 'c', 'e', 'n', 't', '_', 'b'] + spec_canon_from(s, i + 3)
    } else if s[i] == ' ' {
        seq!['_'] + spec_canon_from(s, i + 1)
    } else {
        seq![spec_lower_char(s[i])] + spec_canon_from(s, i + 1)
    }
}

fn lower_c(c: char) -> (r: char)
    ensures
        r == spec_lower_char(c),
{
    let u = c as u32;
    if 65 <= u && u <= 90 {
        ((c as u8) + 32) as char
    } else {
        c
    }
}

fn canon_from(v: &Vec<char>, i: usize) -> (r: String)
    requires
        i <= v@.len(),
    ensures
        r@ == spec_canon_from(v@, i as int),
    decreases v@.len() - i,
{
    if i >= v.len() {
        String::new()
    } else if v.len() - i >= 3 && v[i] == ' ' && v[i + 1] == '%' && (v[i + 2] == 's' || v[i + 2]
        == 'b') {
        let marker = if v[i + 2] == 's' {
            let m = String::from_str("_percent_s");
            proof {
                reveal_strlit("_percent_s");
                assert(m@ =~= seq!['_', 'p', 'e', 'r', 'c', 'e', 'n', 't', '_', 's']);
            }
            m
        } else {
            let m = String::from_str("_percent_b");
            proof {
                reveal_strlit("_percent_b");
                assert(m@ =~= seq!['_', 'p', 'e', 'r', 'c', 'e', 'n', 't', '_', 'b']);
            }
            m
        };
        let rest = canon_from(v, i + 3);
        marker.concat(rest.as_str())
    } else {
        let c = v[i];
        let mut out = String::new();
        if c == ' ' {
            push_char(&mut out, '_');
        } else {
            push_char(&mut out, lower_c(c));
        }
        let rest = canon_from(v, i + 1);
        out.concat(rest.as_str())
    }
}

/// The canonical procedure name of a signature text.
pub fn canonical_name(s: &String) -> (r: String)
    ensures
        r@ == spec_canon_from(s@, 0),
{
    let v = crate::value::str_chars(s.as_str());
    canon_from(&v, 0)
}

// ---------------------------------------------------------------------
// The fragment of one block
// ---------------------------------------------------------------------

/// The argument list of a custom-procedure call: a comma and one hole
/// per bound argument, named by the argument's id.
pub open spec fn spec_call_args(ids: Seq<String>, i: int) -> Seq<SegView>
    decreases ids.len() - i,
{
    if i < 0 || i >= ids.len() {
        Seq::<SegView>::empty()
    } else {
        seq![SegView::Text(", "@), SegView::Hole(ids[i]@)] + spec_call_args(ids, i + 1)
    }
}

/// The call fragment of a custom-procedure call block: an invocation of
/// the procedure's canonical name, passing the calling context and each
/// bound argument in declaration order.
pub open spec fn spec_call_fragment(b: Block) -> Seq<SegView> {
    seq![
        SegView::Text("stack_procedures_definition_"@),
        SegView::Text(spec_canon_from(b.proccode@, 0)),
        SegView::Text("(sprite.clone(),stage.clone()"@),
    ] + spec_call_args(b.argumentids@, 0) + seq![SegView::Text(").await;"@)]
}

/// The data-block opcodes whose name-and-id field pair substitutes as a
/// tuple literal.
pub open spec fn spec_is_data_op(op: Seq<char>) -> bool {
    ||| op == "data_setvariableto"@
    ||| op == "data_changevariableby"@
    ||| op == "data_hidevariable"@
    ||| op == "data_showvariable"@
    ||| op == "data_addtolist"@
    ||| op == "data_deleteoflist"@
    ||| op == "data_deletealloflist"@
    ||| op == "data_insertatlist"@
    ||| op == "data_replaceitemoflist"@
    ||| op == "data_itemoflist"@
    ||| op == "data_itemnumoflist"@
    ||| op == "data_lengthoflist"@
    ||| op == "data_listcontainsitem"@
    ||| op == "data_hidelist"@
    ||| op == "data_showlist"@
}

/// The fragment a field slot substitutes: data blocks take a
/// (name, id) tuple literal, the argument reporter a parameter
/// reference in the generated (small-letter) spelling, every other
/// block a quoted string value.
pub open spec fn spec_field_fragment(op: Seq<char>, name: Seq<char>, id: Seq<char>) -> Seq<
    SegView,
> {
    if spec_is_data_op(op) {
        seq![
            SegView::Text("(String::from(\""@),
            SegView::Text(name),
            SegView::Text("\"),String::from(\""@),
            SegView::Text(id),
            SegView::Text("\"))"@),
        ]
    } else if op == "argument_reporter_string_number"@ {
        seq![SegView::Text(spec_lower_seq(name)), SegView::Text(".clone()"@)]
    } else {
        seq![
            SegView::Text("Value::from(String::from(\""@),
            SegView::Text(name),
            SegView::Text("\"))"@),
        ]
    }
}

/// Substitute the field slots, in order.
pub open spec fn spec_apply_fields(
    op: Seq<char>,
    frag: Seq<SegView>,
    fields: Seq<(String, String, String)>,
    i: int,
) -> Seq<SegView>
    decreases fields.len() - i,
{
    if i < 0 || i >= fields.len() {
        frag
    } else {
        spec_apply_fields(
            op,
            spec_subst(frag, fields[i].0@, spec_field_fragment(op, fields[i].1@, fields[i].2@)),
            fields,
            i + 1,
        )
    }
}

/// The fragment an input slot substitutes, or the error that stops the
/// compile.
pub open spec fn spec_arg_fragment(
    bm: Seq<(String, Block)>,
    tv: Seq<(Seq<char>, Seq<SegView>)>,
    a: Arg,
    fuel: nat,
) -> Result<Seq<SegView>, ErrView>
    decreases fuel, 0nat, 0nat,
{
    match a {
        Arg::NumberLit(t) => Result::Ok(
            seq![SegView::Text("Value::from("@), SegView::Text(t@), SegView::Text(")"@)],
        ),
        Arg::ColorLit(t) => Result::Ok(seq![SegView::Text(t@)]),
        Arg::StringLit(t) => Result::Ok(
            seq![
                SegView::Text("Value::from(String::from(r###\""@),
                SegView::Text(t@),
                SegView::Text("\"###))"@),
            ],
        ),
        Arg::BroadcastRef(name, _) => Result::Err(ErrView::UnsupportedLiteral(name@)),
        Arg::VarRef(_, id) => Result::Ok(
            seq![
                SegView::Text("get_variable(sprite.clone(),stage.clone(),\""@),
                SegView::Text(id@),
                SegView::Text("\")"@),
            ],
        ),
        Arg::ListRef(name, id) => Result::Ok(
            seq![
                SegView::Text("get_list_contents(sprite.clone(),stage.clone(),(\""@),
                SegView::Text(name@),
                SegView::Text("\".to_string(),\""@),
                SegView::Text(id@),
                SegView::Text("\".to_string()))"@),
            ],
        ),
        Arg::SubStack(cid) => if fuel == 0 {
            Result::Err(ErrView::OutOfDepth)
        } else {
            match spec_follow_stack(bm, tv, cid@, (fuel - 1) as nat) {
                Result::Ok(frs) => Result::Ok(spec_join(frs)),
                Result::Err(e) => Result::Err(e),
            }
        },
        Arg::EmptyArg => Result::Ok(Seq::<SegView>::empty()),
        Arg::MalformedLit(t) => Result::Err(ErrView::MalformedLiteral(t@)),
    }
}

/// Substitute the input slots, in order: an empty slot is skipped, a
/// filled one substitutes its fragment for the hole of the slot's name.
pub open spec fn spec_apply_inputs(
    bm: Seq<(String, Block)>,
    tv: Seq<(Seq<char>, Seq<SegView>)>,
    frag: Seq<SegView>,
    inputs: Seq<(String, Arg)>,
    i: int,
    fuel: nat,
) -> Result<Seq<SegView>, ErrView>
    decreases fuel, 1nat, inputs.len() - i,
{
    if i < 0 || i >= inputs.len() {
        Result::Ok(frag)
    } else {
        match inputs[i].1 {
            Arg::EmptyArg => spec_apply_inputs(bm, tv, frag, inputs, i + 1, fuel),
            _ => match spec_arg_fragment(bm, tv, inputs[i].1, fuel) {
                Result::Err(e) => Result::Err(e),
                Result::Ok(sub) => spec_apply_inputs(
                    bm,
                    tv,
                    spec_subst(frag, inputs[i].0@, sub),
                    inputs,
                    i + 1,
                    fuel,
                ),
            },
        }
    }
}

/// The compiled fragment of one block: its template (or call form),
/// inputs and fields substituted, remaining holes deleted.
pub open spec fn spec_get_block(
    bm: Seq<(String, Block)>,
    tv: Seq<(Seq<char>, Seq<SegView>)>,
    b: Block,
    fuel: nat,
) -> Result<Seq<SegView>, ErrView>
    decreases fuel, 2nat, 0nat,
{
    let base = if b.opcode@ == "procedures_call"@ {
        Result::Ok(spec_call_fragment(b))
    } else {
        match spec_lookup(tv, b.opcode@) {
            Option::Some(t) => Result::Ok(t),
            Option::None => Result::Err(ErrView::UnknownOpcode(b.opcode@)),
        }
    };
    match base {
        Result::Err(e) => Result::Err(e),
        Result::Ok(t) => match spec_apply_inputs(bm, tv, t, b.inputs@, 0, fuel) {
            Result::Err(e) => Result::Err(e),
            Result::Ok(f1) => Result::Ok(
                spec_clear(spec_apply_fields(b.opcode@, f1, b.fields@, 0)),
            ),
        },
    }
}

/// The fragments joined by line breaks.
pub open spec fn spec_join(fs: Seq<Seq<SegView>>) -> Seq<SegView>
    decreases fs.len(),
{
    if fs.len() == 0 {
        Seq::<SegView>::empty()
    } else if fs.len() == 1 {
        fs[0]
    } else {
        fs[0] + seq![SegView::Text("\n"@)] + spec_join(fs.drop_first())
    }
}

/// The compiled fragments of a stack, one per block, in chain order
/// from the block with the given id to the end of its `next` links.
pub open spec fn spec_follow_stack(
    bm: Seq<(String, Block)>,
    tv: Seq<(Seq<char>, Seq<SegView>)>,
    id: Seq<char>,
    fuel: nat,
) -> Result<Seq<Seq<SegView>>, ErrView>
    decreases fuel, 3nat, 0nat,
{
    if fuel == 0 {
        Result::Err(ErrView::OutOfDepth)
    } else {
        match map_find(bm, id) {
            Option::None => Result::Err(ErrView::MissingBlock(id)),
            Option::Some(b) => match spec_get_block(bm, tv, b, fuel) {
                Result::Err(e) => Result::Err(e),
                Result::Ok(f) => match b.next {
                    Option::None => Result::Ok(seq![f]),
                    Option::Some(nid) => match spec_follow_stack(
                        bm,
                        tv,
                        nid@,
                        (fuel - 1) as nat,
                    ) {
                        Result::Err(e) => Result::Err(e),
                        Result::Ok(rest) => Result::Ok(seq![f] + rest),
                    },
                },
            },
        }
    }
}

} // verus!

verus! {

// ---------------------------------------------------------------------
// Executable compilation
// ---------------------------------------------------------------------

/// Whether the text equals the literal.
pub(crate) fn is_lit(s: &String, lit: &str) -> (r: bool)
    ensures
        r == (s@ == lit@),
{
    let t = String::from_str(lit);
    *s == t
}

fn is_data_op_ex(op: &String) -> (r: bool)
    ensures
        r == spec_is_data_op(op@),
{
    is_lit(op, "data_setvariableto") || is_lit(op, "data_changevariableby") || is_lit(
        op,
        "data_hidevariable",
    ) || is_lit(op, "data_showvariable") || is_lit(op, "data_addtolist") || is_lit(
        op,
        "data_deleteoflist",
    ) || is_lit(op, "data_deletealloflist") || is_lit(op, "data_insertatlist") || is_lit(
        op,
        "data_replaceitemoflist",
    ) || is_lit(op, "data_itemoflist") || is_lit(op, "data_itemnumoflist") || is_lit(
        op,
        "data_lengthoflist",
    ) || is_lit(op, "data_listcontainsitem") || is_lit(op, "data_hidelist") || is_lit(
        op,
        "data_showlist",
    )
}

/// Fold a text's capitals to small letters.
pub(crate) fn lower_string(s: &String) -> (r: String)
    ensures
        r@ == spec_lower_seq(s@),
{
    let st = s.as_str();
    let len = st.unicode_len();
    let mut out = String::new();
    let mut i: usize = 0;
    while i < len
        invariant
            i <= len,
            len == s@.len(),
            st@ == s@,
            out@ == spec_lower_seq(s@).take(i as int),
        decreases len - i,
    {
        push_char(&mut out, lower_c(st.get_char(i)));
        proof {
            assert(spec_lower_seq(s@).take(i + 1 as int) =~= spec_lower_seq(s@).take(
                i as int,
            ).push(spec_lower_char(s@[i as int])));
        }
        i = i + 1;
    }
    proof {
        assert(spec_lower_seq(s@).take(len as int) =~= spec_lower_seq(s@));
    }
    out
}

fn call_args_ex(ids: &Vec<String>, i: usize) -> (r: Vec<Seg>)
    requires
        i <= ids@.len(),
    ensures
        segs_view(r@) == spec_call_args(ids@, i as int),
    decreases ids@.len() - i,
{
    if i >= ids.len() {
        let out: Vec<Seg> = Vec::new();
        proof {
            assert(segs_view(out@) =~= spec_call_args(ids@, i as int));
        }
        out
    } else {
        let rest = call_args_ex(ids, i + 1);
        let mut out: Vec<Seg> = Vec::new();
        out.push(Seg::Text(String::from_str(", ")));
        out.push(Seg::Hole(ids[i].clone()));
        append_segs(&mut out, &rest);
        proof {
            assert(segs_view(out@) =~= seq![
                SegView::Text(", "@),
                SegView::Hole(ids@[i as int]@),
            ] + segs_view(rest@));
        }
        out
    }
}

fn call_fragment(b: &Block) -> (r: Vec<Seg>)
    ensures
        segs_view(r@) == spec_call_fragment(*b),
{
    let args = call_args_ex(&b.argumentids, 0);
    let mut out: Vec<Seg> = Vec::new();
    out.push(Seg::Text(String::from_str("stack_procedures_definition_")));
    out.push(Seg::Text(canonical_name(&b.proccode)));
    out.push(Seg::Text(String::from_str("(sprite.clone(),stage.clone()")));
    let ghost head = seq![
        SegView::Text("stack_procedures_definition_"@),
        SegView::Text(spec_canon_from(b.proccode@, 0)),
        SegView::Text("(sprite.clone(),stage.clone()"@),
    ];
    proof {
        assert(segs_view(out@) =~= head);
    }
    append_segs(&mut out, &args);
    let ghost mid = segs_view(out@);
    proof {
        assert(mid == head + spec_call_args(b.argumentids@, 0));
    }
    out.push(Seg::Text(String::from_str(").await;")));
    proof {
        assert(segs_view(out@) =~= mid + seq![SegView::Text(").await;"@)]);
        assert(segs_view(out@) =~= spec_call_fragment(*b));
    }
    out
}

fn field_fragment_ex(op: &String, name: &String, id: &String) -> (r: Vec<Seg>)
    ensures
        segs_view(r@) == spec_field_fragment(op@, name@, id@),
{
    let mut out: Vec<Seg> = Vec::new();
    if is_data_op_ex(op) {
        out.push(Seg::Text(String::from_str("(String::from(\"")));
        out.push(Seg::Text(name.clone()));
        out.push(Seg::Text(String::from_str("\"),String::from(\"")));
        out.push(Seg::Text(id.clone()));
        out.push(Seg::Text(String::from_str("\"))")));
    } else if is_lit(op, "argument_reporter_string_number") {
        out.push(Seg::Text(lower_string(name)));
        out.push(Seg::Text(String::from_str(".clone()")));
    } else {
        out.push(Seg::Text(String::from_str("Value::from(String::from(\"")));
        out.push(Seg::Text(name.clone()));
        out.push(Seg::Text(String::from_str("\"))")));
    }
    proof {
        assert(segs_view(out@) =~= spec_field_fragment(op@, name@, id@));
    }
    out
}

fn apply_fields_ex(
    op: &String,
    frag: Vec<Seg>,
    fields: &Vec<(String, String, String)>,
    i: usize,
) -> (r: Vec<Seg>)
    requires
        i <= fields@.len(),
    ensures
        segs_view(r@) == spec_apply_fields(op@, segs_view(frag@), fields@, i as int),
    decreases fields@.len() - i,
{
    if i >= fields.len() {
        frag
    } else {
        let sub = field_fragment_ex(op, &fields[i].1, &fields[i].2);
        let next = subst_first(&frag, &fields[i].0, &sub);
        apply_fields_ex(op, next, fields, i + 1)
    }
}

fn arg_fragment(bm: &BlockMap, table: &OpTable, a: &Arg, fuel: u64) -> (r: Result<
    Vec<Seg>,
    CompileError,
>)
    ensures
        match r {
            Result::Ok(f) => spec_arg_fragment(bm@, table@, *a, fuel as nat) == Result::<Seq<SegView>, ErrView>::Ok(
                segs_view(f@),
            ),
            Result::Err(e) => spec_arg_fragment(bm@, table@, *a, fuel as nat) == Result::<Seq<SegView>, ErrView>::Err(e@),
        },
    decreases fuel, 0int, 0int,
{
    match a {
        Arg::NumberLit(t) => {
            let mut out: Vec<Seg> = Vec::new();
            out.push(Seg::Text(String::from_str("Value::from(")));
            out.push(Seg::Text(t.clone()));
            out.push(Seg::Text(String::from_str(")")));
            proof {
                assert(segs_view(out@) =~= seq![
                    SegView::Text("Value::from("@),
                    SegView::Text(t@),
                    SegView::Text(")"@),
                ]);
            }
            Result::Ok(out)
        },
        Arg::ColorLit(t) => {
            let mut out: Vec<Seg> = Vec::new();
            out.push(Seg::Text(t.clone()));
            proof {
                assert(segs_view(out@) =~= seq![SegView::Text(t@)]);
            }
            Result::Ok(out)
        },
        Arg::StringLit(t) => {
            let mut out: Vec<Seg> = Vec::new();
            out.push(Seg::Text(String::from_str("Value::from(String::from(r###\"")));
            out.push(Seg::Text(t.clone()));
            out.push(Seg::Text(String::from_str("\"###))")));
            proof {
                assert(segs_view(out@) =~= seq![
                    SegView::Text("Value::from(String::from(r###\""@),
                    SegView::Text(t@),
                    SegView::Text("\"###))"@),
                ]);
            }
            Result::Ok(out)
        },
        Arg::BroadcastRef(name, _) => Result::Err(CompileError::UnsupportedLiteral(name.clone())),
        Arg::VarRef(_, id) => {
            let mut out: Vec<Seg> = Vec::new();
            out.push(Seg::Text(String::from_str("get_variable(sprite.clone(),stage.clone(),\"")));
            out.push(Seg::Text(id.clone()));
            out.push(Seg::Text(String::from_str("\")")));
            proof {
                assert(segs_view(out@) =~= seq![
                    SegView::Text("get_variable(sprite.clone(),stage.clone(),\""@),
                    SegView::Text(id@),
                    SegView::Text("\")"@),
                ]);
            }
            Result::Ok(out)
        },
        Arg::ListRef(name, id) => {
            let mut out: Vec<Seg> = Vec::new();
            out.push(
                Seg::Text(String::from_str("get_list_contents(sprite.clone(),stage.clone(),(\"")),
            );
            out.push(Seg::Text(name.clone()));
            out.push(Seg::Text(String::from_str("\".to_string(),\"")));
            out.push(Seg::Text(id.clone()));
            out.push(Seg::Text(String::from_str("\".to_string()))")));
            proof {
                assert(segs_view(out@) =~= seq![
                    SegView::Text("get_list_contents(sprite.clone(),stage.clone(),(\""@),
                    SegView::Text(name@),
                    SegView::Text("\".to_string(),\""@),
                    SegView::Text(id@),
                    SegView::Text("\".to_string()))"@),
                ]);
            }
            Result::Ok(out)
        },
        Arg::SubStack(cid) => {
            if fuel == 0 {
                Result::Err(CompileError::OutOfDepth)
            } else {
                match follow_stack(cid, bm, table, fuel - 1) {
                    Result::Ok(frs) => Result::Ok(join_frags(&frs)),
                    Result::Err(e) => Result::Err(e),
                }
            }
        },
        Arg::EmptyArg => {
            let out: Vec<Seg> = Vec::new();
            proof {
                assert(segs_view(out@) =~= Seq::<SegView>::empty());
            }
            Result::Ok(out)
        },
        Arg::MalformedLit(t) => Result::Err(CompileError::MalformedLiteral(t.clone())),
    }
}

fn apply_inputs(
    bm: &BlockMap,
    table: &OpTable,
    frag: Vec<Seg>,
    inputs: &Vec<(String, Arg)>,
    i: usize,
    fuel: u64,
) -> (r: Result<Vec<Seg>, CompileError>)
    requires
        i <= inputs@.len(),
    ensures
        match r {
            Result::Ok(f) => spec_apply_inputs(
                bm@,
                table@,
                segs_view(frag@),
                inputs@,
                i as int,
                fuel as nat,
            ) == Result::<Seq<SegView>, ErrView>::Ok(segs_view(f@)),
            Result::Err(e) => spec_apply_inputs(
                bm@,
                table@,
                segs_view(frag@),
                inputs@,
                i as int,
                fuel as nat,
            ) == Result::<Seq<SegView>, ErrView>::Err(e@),
        },
    decreases fuel, 1int, inputs@.len() - i,
{
    if i >= inputs.len() {
        Result::Ok(frag)
    } else {
        let skip = match &inputs[i].1 {
            Arg::EmptyArg => true,
            _ => false,
        };
        if skip {
            apply_inputs(bm, table, frag, inputs, i + 1, fuel)
        } else {
            match arg_fragment(bm, table, &inputs[i].1, fuel) {
                Result::Err(e) => Result::Err(e),
                Result::Ok(sub) => {
                    let next = subst_first(&frag, &inputs[i].0, &sub);
                    apply_inputs(bm, table, next, inputs, i + 1, fuel)
                },
            }
        }
    }
}

/// Compile one block into a code fragment. The fragment holds the
/// block's template with every input and field slot substituted and
/// the leftover holes deleted; a block naming an opcode outside the
/// table, an unsupported literal, a broken link or too deep a graph
/// gives the error that names it.
pub fn get_block(b: &Block, bm: &BlockMap, table: &OpTable, fuel: u64) -> (r: Result<
    Vec<Seg>,
    CompileError,
>)
    ensures
        match r {
            Result::Ok(f) => spec_get_block(bm@, table@, *b, fuel as nat) == Result::<Seq<SegView>, ErrView>::Ok(
                segs_view(f@),
            ),
            Result::Err(e) => spec_get_block(bm@, table@, *b, fuel as nat) == Result::<Seq<SegView>, ErrView>::Err(e@),
        },
    decreases fuel, 2int, 0int,
{
    let base = if is_lit(&b.opcode, "procedures_call") {
        call_fragment(b)
    } else {
        match table.lookup(&b.opcode) {
            Option::Some(t) => t,
            Option::None => {
                return Result::Err(CompileError::UnknownOpcode(b.opcode.clone()));
            },
        }
    };
    match apply_inputs(bm, table, base, &b.inputs, 0, fuel) {
        Result::Err(e) => Result::Err(e),
        Result::Ok(f1) => {
            let f2 = apply_fields_ex(&b.opcode, f1, &b.fields, 0);
            Result::Ok(clear_holes(&f2))
        },
    }
}

/// Join compiled fragments with line breaks, in order.
pub fn join_frags(frs: &Vec<Vec<Seg>>) -> (r: Vec<Seg>)
    ensures
        segs_view(r@) == spec_join(frags_view(frs@)),
{
    proof {
        assert(frags_view(frs@).skip(0) =~= frags_view(frs@));
    }
    join_from(frs, 0)
}

fn join_from(frs: &Vec<Vec<Seg>>, i: usize) -> (r: Vec<Seg>)
    requires
        i <= frs@.len(),
    ensures
        segs_view(r@) == spec_join(frags_view(frs@).skip(i as int)),
    decreases frs@.len() - i,
{
    let ghost fv = frags_view(frs@);
    if i >= frs.len() {
        let out: Vec<Seg> = Vec::new();
        proof {
            assert(fv.skip(i as int) =~= Seq::<Seq<SegView>>::empty());
            assert(segs_view(out@) =~= Seq::<SegView>::empty());
        }
        out
    } else if i + 1 == frs.len() {
        let out = clone_segs(&frs[i]);
        proof {
            assert(fv.skip(i as int)[0] == fv[i as int]);
            assert(fv.skip(i as int).len() == 1);
        }
        out
    } else {
        let rest = join_from(frs, i + 1);
        let mut out = clone_segs(&frs[i]);
        out.push(Seg::Text(String::from_str("\n")));
        append_segs(&mut out, &rest);
        proof {
            assert(fv.skip(i as int)[0] == fv[i as int]);
            assert(fv.skip(i as int).drop_first() =~= fv.skip(i + 1 as int));
            assert(segs_view(out@) =~= fv[i as int] + seq![SegView::Text("\n"@)] + spec_join(
                fv.skip(i + 1 as int),
            ));
        }
        out
    }
}

/// Compile a stack of blocks: from the block with the given id, walk
/// the `next` links to the stack's end and compile each block, giving
/// the fragments in exactly the chain's order.
pub fn follow_stack(id: &String, bm: &BlockMap, table: &OpTable, fuel: u64) -> (r: Result<
    Vec<Vec<Seg>>,
    CompileError,
>)
    ensures
        match r {
            Result::Ok(frs) => spec_follow_stack(bm@, table@, id@, fuel as nat) == Result::<Seq<Seq<SegView>>, ErrView>::Ok(
                frags_view(frs@),
            ),
            Result::Err(e) => spec_follow_stack(bm@, table@, id@, fuel as nat) == Result::<Seq<Seq<SegView>>, ErrView>::Err(e@),
        },
    decreases fuel, 3int, 0int,
{
    if fuel == 0 {
        return Result::Err(CompileError::OutOfDepth);
    }
    match find_block(bm, id) {
        Option::None => Result::Err(CompileError::MissingBlock(id.clone())),
        Option::Some(ix) => {
            let b = &bm[ix].1;
            match get_block(b, bm, table, fuel) {
                Result::Err(e) => Result::Err(e),
                Result::Ok(f) => {
                    match &b.next {
                        Option::None => {
                            let mut out: Vec<Vec<Seg>> = Vec::new();
                            out.push(f);
                            proof {
                                assert(frags_view(out@) =~= seq![
                                    spec_get_block(
                                        bm@,
                                        table@,
                                        bm@[ix as int].1,
                                        fuel as nat,
                                    )->Ok_0,
                                ]);
                            }
                            Result::Ok(out)
                        },
                        Option::Some(nid) => {
                            match follow_stack(nid, bm, table, fuel - 1) {
                                Result::Err(e) => Result::Err(e),
                                Result::Ok(rest) => {
                                    let mut out: Vec<Vec<Seg>> = Vec::new();
                                    out.push(f);
                                    let mut k: usize = 0;
                                    let ghost restv = frags_view(rest@);
                                    while k < rest.len()
                                        invariant
                                            k <= rest@.len(),
                                            restv == frags_view(rest@),
                                            out@.len() == 1 + k,
                                            segs_view(out@[0]@) == segs_view(f@),
                                            forall|j: int| 0 <= j < k ==> segs_view(
                                                #[trigger] out@[1 + j]@,
                                            ) == restv[j],
                                        decreases rest@.len() - k,
                                    {
                                        out.push(clone_segs(&rest[k]));
                                        k = k + 1;
                                    }
                                    proof {
                                        assert forall|j: int| 0 <= j < out@.len() implies
                                            frags_view(out@)[j] == (seq![segs_view(f@)]
                                            + restv)[j] by {
                                            if j > 0 {
                                                assert(segs_view(out@[1 + (j - 1)]@)
                                                    == restv[j - 1]);
                                            }
                                        }
                                        assert(frags_view(out@) =~= seq![segs_view(f@)] + restv);
                                    }
                                    Result::Ok(out)
                                },
                            }
                        },
                    }
                },
            }
        },
    }
}

} // verus!

verus! {

/// The blocks of a stack: the block with the given id, then the blocks
/// its `next` links reach, in chain order, as far as they are present
/// and the fuel reaches.
pub open spec fn spec_chain(bm: Seq<(String, Block)>, id: Seq<char>, fuel: nat) -> Seq<Block>
    decreases fuel,
{
    if fuel == 0 {
        Seq::<Block>::empty()
    } else {
        match map_find(bm, id) {
            Option::None => Seq::<Block>::empty(),
            Option::Some(b) => seq![b] + (match b.next {
                Option::None => Seq::<Block>::empty(),
                Option::Some(nid) => spec_chain(bm, nid@, (fuel - 1) as nat),
            }),
        }
    }
}

/// Stack ordering: when a stack compiles, it yields one fragment per
/// block of the chain, and the fragment at position `i` is exactly the
/// compilation of the chain's block at position `i` — sibling
/// statements stand in source order, first block first.
pub proof fn lemma_stack_order(
    bm: Seq<(String, Block)>,
    tv: Seq<(Seq<char>, Seq<SegView>)>,
    id: Seq<char>,
    fuel: nat,
)
    requires
        spec_follow_stack(bm, tv, id, fuel) is Ok,
    ensures
        spec_follow_stack(bm, tv, id, fuel)->Ok_0.len() == spec_chain(bm, id, fuel).len(),
        forall|i: int|
            0 <= i < spec_chain(bm, id, fuel).len() ==> spec_get_block(
                bm,
                tv,
                #[trigger] spec_chain(bm, id, fuel)[i],
                (fuel - i) as nat,
            ) == Result::<Seq<SegView>, ErrView>::Ok(spec_follow_stack(bm, tv, id, fuel)->Ok_0[i]),
    decreases fuel,
{
    let frs = spec_follow_stack(bm, tv, id, fuel)->Ok_0;
    let ch = spec_chain(bm, id, fuel);
    let b = map_find(bm, id)->Some_0;
    match b.next {
        Option::None => {
            assert(ch == seq![b]);
        },
        Option::Some(nid) => {
            lemma_stack_order(bm, tv, nid@, (fuel - 1) as nat);
            let rest = spec_follow_stack(bm, tv, nid@, (fuel - 1) as nat)->Ok_0;
            let ch2 = spec_chain(bm, nid@, (fuel - 1) as nat);
            assert(frs == seq![spec_get_block(bm, tv, b, fuel)->Ok_0] + rest);
            assert(ch == seq![b] + ch2);
            assert forall|i: int|
                0 <= i < ch.len() implies spec_get_block(
                bm,
                tv,
                #[trigger] ch[i],
                (fuel - i) as nat,
            ) == Result::<Seq<SegView>, ErrView>::Ok(frs[i]) by {
                if i > 0 {
                    assert(ch[i] == ch2[i - 1]);
                    assert(frs[i] == rest[i - 1]);
                    assert(spec_get_block(bm, tv, ch2[i - 1], ((fuel - 1) - (i - 1)) as nat)
                        == Result::<Seq<SegView>, ErrView>::Ok(rest[i - 1]));
                }
            }
        },
    }
}

} // verus!
