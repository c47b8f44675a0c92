//! The hat assembler: every top-level, parentless block whose opcode is
//! a recognised starter becomes one named procedure — its body the
//! compiled stack hanging below it, its start classification attached.
//! Custom procedure definitions are gathered in a first pass; a second
//! pass expands custom-block invocations inside other custom bodies by
//! one level of textual substitution.
//!
//! A block that fails the hat test is silently skipped (top-level
//! artifacts that are no hats are normal). A hat whose stack fails to
//! compile aborts only that hat: it is skipped and the error recorded,
//! and the other hats stand.

use vstd::prelude::*;

use crate::blocks::{map_find, Arg, Block, BlockMap};
use crate::compiler::{
    follow_stack, join_frags, spec_canon_from, spec_follow_stack, spec_join, spec_lower_seq,
    canonical_name, CompileError, ErrView,
};
use crate::table::OpTable;
use crate::template::spec_render;
use crate::text::{remove_all, replace_first, spec_remove_all, spec_replace_first};

verus! {

/// What starts a compiled procedure's thread.
#[derive(Debug)]
pub enum StartType {
    /// Runs when the program's start flag is clicked.
    FlagClicked,
    /// Runs when a clone of the named sprite is created.
    StartAsClone(String),
    /// Not started by an event: custom blocks and the remaining hats.
    NoStart,
}

/// The mathematical form of a start classification.
pub enum StartView {
    FlagClicked,
    StartAsClone(Seq<char>),
    NoStart,
}

impl View for StartType {
    type V = StartView;

    open spec fn view(&self) -> StartView {
        match self {
            StartType::FlagClicked => StartView::FlagClicked,
            StartType::StartAsClone(n) => StartView::StartAsClone(n@),
            StartType::NoStart => StartView::NoStart,
        }
    }
}

/// One assembled procedure: a hat's compiled body under a unique name.
#[derive(Debug)]
pub struct Hat {
    /// The generated procedure name.
    pub name: String,
    /// The generated body text.
    pub body: String,
    /// What starts the procedure's thread.
    pub start: StartType,
    /// For custom procedures: the declared parameter names, in order,
    /// in their generated (small-letter) spelling.
    pub params: Vec<String>,
    /// Whether this is a custom-procedure definition.
    pub custom: bool,
}

/// The mathematical form of an assembled procedure.
pub struct HatView {
    pub name: Seq<char>,
    pub body: Seq<char>,
    pub start: StartView,
    pub params: Seq<Seq<char>>,
    pub custom: bool,
}

impl View for Hat {
    type V = HatView;

    open spec fn view(&self) -> HatView {
        HatView {
            name: self.name@,
            body: self.body@,
            start: self.start@,
            params: Seq::new(self.params@.len(), |i: int| self.params@[i]@),
            custom: self.custom,
        }
    }
}

/// Why a block made no hat.
#[derive(Clone, Copy, Debug, PartialEq, Eq, Structural)]
pub enum SkipReason {
    /// The block does not sit at the target's top level.
    NotTopLevel,
    /// The block hangs under a parent.
    HasParent,
    /// The opcode is no recognised starter.
    NotHat,
}

/// A skipped block, or a compile failure inside the hat's stack.
#[derive(Debug)]
pub enum HatError {
    Skip(SkipReason),
    Fail(CompileError),
}

/// The mathematical form of a hat error.
pub enum HatErrView {
    Skip(SkipReason),
    Fail(ErrView),
}

impl View for HatError {
    type V = HatErrView;

    open spec fn view(&self) -> HatErrView {
        match self {
            HatError::Skip(s) => HatErrView::Skip(*s),
            HatError::Fail(e) => HatErrView::Fail(e@),
        }
    }
}

/// The starter opcodes a hat may carry.
pub open spec fn spec_is_hat_opcode(op: Seq<char>) -> bool {
    ||| op == "event_whenflagclicked"@
    ||| op == "event_whenkeypressed"@
    ||| op == "event_whenthisspriteclicked"@
    ||| op == "event_whentouchingobject"@
    ||| op == "event_whenstageclicked"@
    ||| op == "event_whenbackdropswitchesto"@
    ||| op == "event_whengreaterthan"@
    ||| op == "event_whenbroadcastrecieved"@
    ||| op == "control_start_as_clone"@
    ||| op == "procedures_definition"@
    ||| op == "procedures_prototype"@
}

/// The start classification an opcode gives, for a sprite of the given
/// name: flag hats auto-run on the start signal; clone hats are tagged
/// with the owning sprite's clone name; everything else waits to be
/// invoked.
pub open spec fn spec_start_type(op: Seq<char>, sprite_name: Seq<char>) -> StartView {
    if op == "event_whenflagclicked"@ {
        StartView::FlagClicked
    } else if op == "control_start_as_clone"@ {
        StartView::StartAsClone(sprite_name + "_clone"@)
    } else {
        StartView::NoStart
    }
}

/// The payload of the first input slot with the given name.
pub open spec fn spec_find_input(inputs: Seq<(String, Arg)>, name: Seq<char>) -> Option<Arg>
    decreases inputs.len(),
{
    if inputs.len() == 0 {
        Option::None
    } else if inputs[0].0@ == name {
        Option::Some(inputs[0].1)
    } else {
        spec_find_input(inputs.drop_first(), name)
    }
}

/// The rendered body of a hat: the stack under it, compiled and joined;
/// a hat with nothing below it has an empty body.
pub open spec fn spec_hat_body(
    bm: Seq<(String, Block)>,
    tv: Seq<(Seq<char>, Seq<crate::template::SegView>)>,
    b: Block,
    fuel: nat,
) -> Result<Seq<char>, ErrView> {
    match b.next {
        Option::None => Result::Ok(Seq::<char>::empty()),
        Option::Some(nid) => match spec_follow_stack(bm, tv, nid@, fuel) {
            Result::Ok(frs) => Result::Ok(spec_render(spec_join(frs))),
            Result::Err(e) => Result::Err(e),
        },
    }
}

/// The assembled hat of a block, under the given unique suffix: the
/// block must be top-level, parentless and carry a starter opcode, or
/// it is skipped. A custom definition takes its name, parameters and
/// warp flag from its prototype block, and warp strips the yield
/// points from the body; any other hat is named by its opcode and the
/// suffix.
pub open spec fn spec_create_hat(
    bm: Seq<(String, Block)>,
    tv: Seq<(Seq<char>, Seq<crate::template::SegView>)>,
    b: Block,
    sprite_name: Seq<char>,
    suffix: nat,
    fuel: nat,
) -> Result<HatView, HatErrView> {
    if !b.top_level {
        Result::Err(HatErrView::Skip(SkipReason::NotTopLevel))
    } else if b.parent is Some {
        Result::Err(HatErrView::Skip(SkipReason::HasParent))
    } else if !spec_is_hat_opcode(b.opcode@) {
        Result::Err(HatErrView::Skip(SkipReason::NotHat))
    } else {
        match spec_hat_body(bm, tv, b, fuel) {
            Result::Err(e) => Result::Err(HatErrView::Fail(e)),
            Result::Ok(body) => {
                if b.opcode@ == "procedures_definition"@ {
                    match spec_find_input(b.inputs@, "custom_block"@) {
                        Option::Some(Arg::SubStack(pid)) => match map_find(bm, pid@) {
                            Option::Some(proto) => Result::Ok(
                                HatView {
                                    name: "procedures_definition_"@ + spec_canon_from(
                                        proto.proccode@,
                                        0,
                                    ),
                                    body: if proto.warp {
                                        spec_remove_all(body, "Yield::Start.await;"@)
                                    } else {
                                        body
                                    },
                                    start: StartView::NoStart,
                                    params: Seq::new(
                                        proto.argumentnames@.len(),
                                        |i: int| spec_lower_seq(proto.argumentnames@[i]@),
                                    ),
                                    custom: true,
                                },
                            ),
                            Option::None => Result::Err(
                                HatErrView::Fail(ErrView::MissingBlock(pid@)),
                            ),
                        },
                        _ => Result::Err(
                            HatErrView::Fail(ErrView::MissingBlock("custom_block"@)),
                        ),
                    }
                } else {
                    Result::Ok(
                        HatView {
                            name: b.opcode@ + crate::value::spec_digits(suffix as int),
                            body: body,
                            start: spec_start_type(b.opcode@, sprite_name),
                            params: Seq::<Seq<char>>::empty(),
                            custom: false,
                        },
                    )
                }
            },
        }
    }
}

/// Whether the outcome of hat assembly matches its mathematical form.
pub open spec fn hat_res_matches(r: Result<Hat, HatError>, s: Result<HatView, HatErrView>) -> bool {
    match r {
        Result::Ok(h) => s == Result::<HatView, HatErrView>::Ok(h@),
        Result::Err(e) => s == Result::<HatView, HatErrView>::Err(e@),
    }
}

/// A drawn suffix for a hat's generated name.
fn random_suffix() -> (r: u64)
    ensures
        r < 99999999999999999u64,
{
    crate::rng::random_below(99999999999999999u64)
}

} // verus!

verus! {

fn is_hat_opcode_ex(op: &String) -> (r: bool)
    ensures
        r == spec_is_hat_opcode(op@),
{
    crate::compiler::is_lit(op, "event_whenflagclicked") || crate::compiler::is_lit(
        op,
        "event_whenkeypressed",
    ) || crate::compiler::is_lit(op, "event_whenthisspriteclicked") || crate::compiler::is_lit(
        op,
        "event_whentouchingobject",
    ) || crate::compiler::is_lit(op, "event_whenstageclicked") || crate::compiler::is_lit(
        op,
        "event_whenbackdropswitchesto",
    ) || crate::compiler::is_lit(op, "event_whengreaterthan") || crate::compiler::is_lit(
        op,
        "event_whenbroadcastrecieved",
    ) || crate::compiler::is_lit(op, "control_start_as_clone") || crate::compiler::is_lit(
        op,
        "procedures_definition",
    ) || crate::compiler::is_lit(op, "procedures_prototype")
}

fn start_type_ex(op: &String, sprite_name: &String) -> (r: StartType)
    ensures
        r@ == spec_start_type(op@, sprite_name@),
{
    if crate::compiler::is_lit(op, "event_whenflagclicked") {
        StartType::FlagClicked
    } else if crate::compiler::is_lit(op, "control_start_as_clone") {
        StartType::StartAsClone(sprite_name.clone().concat("_clone"))
    } else {
        StartType::NoStart
    }
}

fn find_input(inputs: &Vec<(String, Arg)>, name: &str) -> (r: Option<usize>)
    ensures
        match r {
            Option::Some(i) => i < inputs@.len() && spec_find_input(inputs@, name@)
                == Option::Some(inputs@[i as int].1),
            Option::None => spec_find_input(inputs@, name@) is None,
        },
{
    proof {
        assert(inputs@.skip(0) =~= inputs@);
    }
    find_input_from(inputs, name, 0)
}

fn find_input_from(inputs: &Vec<(String, Arg)>, name: &str, i: usize) -> (r: Option<usize>)
    requires
        i <= inputs@.len(),
    ensures
        match r {
            Option::Some(k) => i <= k < inputs@.len() && spec_find_input(
                inputs@.skip(i as int),
                name@,
            ) == Option::Some(inputs@[k as int].1),
            Option::None => spec_find_input(inputs@.skip(i as int), name@) is None,
        },
    decreases inputs@.len() - i,
{
    if i == inputs.len() {
        proof {
            assert(inputs@.skip(i as int) =~= Seq::<(String, Arg)>::empty());
        }
        Option::None
    } else {
        proof {
            assert(inputs@.skip(i as int)[0] == inputs@[i as int]);
            assert(inputs@.skip(i as int).drop_first() =~= inputs@.skip(i + 1 as int));
        }
        let nm = String::from_str(name);
        if inputs[i].0 == nm {
            Option::Some(i)
        } else {
            find_input_from(inputs, name, i + 1)
        }
    }
}

fn hat_body(b: &Block, bm: &BlockMap, table: &OpTable, fuel: u64) -> (r: Result<
    String,
    CompileError,
>)
    ensures
        match r {
            Result::Ok(s) => spec_hat_body(bm@, table@, *b, fuel as nat) == Result::<
                Seq<char>,
                ErrView,
            >::Ok(s@),
            Result::Err(e) => spec_hat_body(bm@, table@, *b, fuel as nat) == Result::<
                Seq<char>,
                ErrView,
            >::Err(e@),
        },
{
    match &b.next {
        Option::None => {
            let s = String::new();
            Result::Ok(s)
        },
        Option::Some(nid) => {
            match follow_stack(nid, bm, table, fuel) {
                Result::Err(e) => Result::Err(e),
                Result::Ok(frs) => {
                    let joined = join_frags(&frs);
                    Result::Ok(crate::template::render(&joined))
                },
            }
        },
    }
}

fn lower_params(names: &Vec<String>) -> (r: Vec<String>)
    ensures
        r@.len() == names@.len(),
        forall|i: int| 0 <= i < r@.len() ==> (#[trigger] r@[i])@ == spec_lower_seq(names@[i]@),
{
    let mut out: Vec<String> = Vec::new();
    let mut i: usize = 0;
    while i < names.len()
        invariant
            i <= names@.len(),
            out@.len() == i,
            forall|j: int| 0 <= j < i ==> (#[trigger] out@[j])@ == spec_lower_seq(names@[j]@),
        decreases names@.len() - i,
    {
        out.push(crate::compiler::lower_string(&names[i]));
        i = i + 1;
    }
    out
}

/// Assemble the hat of one block under a chosen suffix. The suffix
/// keeps names of hats sharing an opcode apart; a custom definition is
/// named by its prototype instead.
pub fn create_hat_with(
    b: &Block,
    bm: &BlockMap,
    table: &OpTable,
    sprite_name: &String,
    suffix: u64,
    fuel: u64,
) -> (r: Result<Hat, HatError>)
    ensures
        hat_res_matches(
            r,
            spec_create_hat(bm@, table@, *b, sprite_name@, suffix as nat, fuel as nat),
        ),
{
    if !b.top_level {
        return Result::Err(HatError::Skip(SkipReason::NotTopLevel));
    }
    if b.parent.is_some() {
        return Result::Err(HatError::Skip(SkipReason::HasParent));
    }
    if !is_hat_opcode_ex(&b.opcode) {
        return Result::Err(HatError::Skip(SkipReason::NotHat));
    }
    let body = match hat_body(b, bm, table, fuel) {
        Result::Ok(s) => s,
        Result::Err(e) => {
            return Result::Err(HatError::Fail(e));
        },
    };
    if crate::compiler::is_lit(&b.opcode, "procedures_definition") {
        let ix = match find_input(&b.inputs, "custom_block") {
            Option::Some(ix) => ix,
            Option::None => {
                return Result::Err(
                    HatError::Fail(CompileError::MissingBlock(String::from_str("custom_block"))),
                );
            },
        };
        match &b.inputs[ix].1 {
            Arg::SubStack(pid) => {
                match crate::blocks::find_block(bm, pid) {
                    Option::Some(pix) => {
                        let pair = &bm[pix];
                        let proto = &pair.1;
                        let name = String::from_str("procedures_definition_").concat(
                            canonical_name(&proto.proccode).as_str(),
                        );
                        let body2 = if proto.warp {
                            remove_all(body.as_str(), "Yield::Start.await;")
                        } else {
                            body
                        };
                        let params = lower_params(&proto.argumentnames);
                        let h = Hat {
                            name,
                            body: body2,
                            start: StartType::NoStart,
                            params,
                            custom: true,
                        };
                        proof {
                            assert(h@.params =~= Seq::new(
                                proto.argumentnames@.len(),
                                |i: int| spec_lower_seq(proto.argumentnames@[i]@),
                            ));
                        }
                        Result::Ok(h)
                    },
                    Option::None => Result::Err(
                        HatError::Fail(CompileError::MissingBlock(pid.clone())),
                    ),
                }
            },
            _ => Result::Err(
                HatError::Fail(CompileError::MissingBlock(String::from_str("custom_block"))),
            ),
        }
    } else {
        let name = b.opcode.clone().concat(crate::value::digits_u64(suffix).as_str());
        let start = start_type_ex(&b.opcode, sprite_name);
        let h = Hat { name, body, start, params: Vec::new(), custom: false };
        proof {
            assert(h@.params =~= Seq::<Seq<char>>::empty());
        }
        Result::Ok(h)
    }
}

/// Assemble the hat of one block, naming it with a drawn suffix: the
/// outcome is that of some suffix below the draw's bound.
pub fn create_hat(b: &Block, bm: &BlockMap, table: &OpTable, sprite_name: &String, fuel: u64) -> (r:
    Result<Hat, HatError>)
    ensures
        exists|sfx: nat|
            sfx < 99999999999999999 && hat_res_matches(
                r,
                #[trigger] spec_create_hat(bm@, table@, *b, sprite_name@, sfx, fuel as nat),
            ),
{
    let s = random_suffix();
    let r = create_hat_with(b, bm, table, sprite_name, s, fuel);
    proof {
        assert(hat_res_matches(
            r,
            spec_create_hat(bm@, table@, *b, sprite_name@, s as nat, fuel as nat),
        ));
    }
    r
}

} // verus!

verus! {

/// The custom-procedure table entry a block yields: its call name (the
/// generated invocation's spelling) and its compiled body, with yield
/// points stripped under warp. A block that is no definition, or whose
/// prototype or stack cannot be read, yields nothing.
pub open spec fn spec_handle_custom(
    bm: Seq<(String, Block)>,
    tv: Seq<(Seq<char>, Seq<crate::template::SegView>)>,
    b: Block,
    fuel: nat,
) -> Option<(Seq<char>, Seq<char>)> {
    if b.opcode@ != "procedures_definition"@ {
        Option::None
    } else {
        match spec_find_input(b.inputs@, "custom_block"@) {
            Option::Some(Arg::SubStack(pid)) => match map_find(bm, pid@) {
                Option::Some(proto) => match b.next {
                    Option::Some(nid) => match spec_follow_stack(bm, tv, nid@, fuel) {
                        Result::Ok(frs) => Option::Some(
                            (
                                "stack_procedures_definition_"@ + spec_canon_from(
                                    proto.proccode@,
                                    0,
                                ),
                                if proto.warp {
                                    spec_remove_all(
                                        spec_render(spec_join(frs)),
                                        "Yield::Start.await;"@,
                                    )
                                } else {
                                    spec_render(spec_join(frs))
                                },
                            ),
                        ),
                        Result::Err(_) => Option::None,
                    },
                    Option::None => Option::None,
                },
                Option::None => Option::None,
            },
            _ => Option::None,
        }
    }
}

/// Gather one custom-procedure definition: its call name and compiled
/// body, or nothing where the block is no readable definition.
pub fn handle_custom_block(b: &Block, bm: &BlockMap, table: &OpTable, fuel: u64) -> (r: Option<
    (String, String),
>)
    ensures
        match r {
            Option::Some(p) => spec_handle_custom(bm@, table@, *b, fuel as nat) == Option::Some(
                (p.0@, p.1@),
            ),
            Option::None => spec_handle_custom(bm@, table@, *b, fuel as nat) is None,
        },
{
    if !crate::compiler::is_lit(&b.opcode, "procedures_definition") {
        return Option::None;
    }
    let ix = match find_input(&b.inputs, "custom_block") {
        Option::Some(ix) => ix,
        Option::None => {
            return Option::None;
        },
    };
    match &b.inputs[ix].1 {
        Arg::SubStack(pid) => {
            match crate::blocks::find_block(bm, pid) {
                Option::Some(pix) => {
                    let pair = &bm[pix];
                    let proto = &pair.1;
                    match &b.next {
                        Option::Some(nid) => {
                            match follow_stack(nid, bm, table, fuel) {
                                Result::Ok(frs) => {
                                    let joined = join_frags(&frs);
                                    let body = crate::template::render(&joined);
                                    let body2 = if proto.warp {
                                        remove_all(body.as_str(), "Yield::Start.await;")
                                    } else {
                                        body
                                    };
                                    let name = String::from_str(
                                        "stack_procedures_definition_",
                                    ).concat(canonical_name(&proto.proccode).as_str());
                                    Option::Some((name, body2))
                                },
                                Result::Err(_) => Option::None,
                            }
                        },
                        Option::None => Option::None,
                    }
                },
                Option::None => Option::None,
            }
        },
        _ => Option::None,
    }
}

/// The mathematical form of a custom-procedure table.
pub open spec fn defs_view(d: Seq<(String, String)>) -> Seq<(Seq<char>, Seq<char>)> {
    Seq::new(d.len(), |i: int| (d[i].0@, d[i].1@))
}

/// The body with each table entry's name replaced, first occurrence
/// each, by that entry's definition, in table order.
pub open spec fn spec_expand(s: Seq<char>, defs: Seq<(Seq<char>, Seq<char>)>, i: int) -> Seq<char>
    decreases defs.len() - i,
{
    if i < 0 || i >= defs.len() {
        s
    } else {
        spec_expand(spec_replace_first(s, defs[i].0, defs[i].1), defs, i + 1)
    }
}

/// Expand custom-block invocations in a compiled body by one level of
/// textual substitution: for each gathered definition in turn, the
/// first occurrence of its call name is replaced by its body.
pub fn expand_custom_blocks(function: &mut String, custom_blocks: &Vec<(String, String)>)
    ensures
        final(function)@ == spec_expand(old(function)@, defs_view(custom_blocks@), 0),
{
    let ghost dv = defs_view(custom_blocks@);
    let mut i: usize = 0;
    while i < custom_blocks.len()
        invariant
            i <= custom_blocks@.len(),
            dv == defs_view(custom_blocks@),
            spec_expand(old(function)@, dv, 0) == spec_expand(function@, dv, i as int),
        decreases custom_blocks@.len() - i,
    {
        let pair = &custom_blocks[i];
        let replaced = replace_first(function.as_str(), pair.0.as_str(), pair.1.as_str());
        *function = replaced;
        i = i + 1;
    }
}

/// The custom-procedure table of the graph's first `i` entries.
pub open spec fn spec_defs_up_to(
    bm: Seq<(String, Block)>,
    tv: Seq<(Seq<char>, Seq<crate::template::SegView>)>,
    fuel: nat,
    i: int,
) -> Seq<(Seq<char>, Seq<char>)>
    decreases i,
{
    if i <= 0 {
        Seq::<(Seq<char>, Seq<char>)>::empty()
    } else {
        spec_defs_up_to(bm, tv, fuel, i - 1) + (match spec_handle_custom(
            bm,
            tv,
            bm[i - 1].1,
            fuel,
        ) {
            Option::Some(p) => seq![p],
            Option::None => Seq::<(Seq<char>, Seq<char>)>::empty(),
        })
    }
}

/// The mathematical form of an assembled hat list.
pub open spec fn hats_view(s: Seq<Hat>) -> Seq<HatView> {
    Seq::new(s.len(), |i: int| s[i]@)
}

/// The mathematical form of a failure list.
pub open spec fn errs_view(s: Seq<CompileError>) -> Seq<ErrView> {
    Seq::new(s.len(), |i: int| s[i]@)
}

/// The hats and failures of the graph's first `i` entries, under the
/// given per-entry suffixes: each qualifying block contributes its hat
/// (a custom one with its body expanded by the pass-one table), each
/// skipped block nothing, and each failing hat its error.
pub open spec fn spec_all_hats_up_to(
    bm: Seq<(String, Block)>,
    tv: Seq<(Seq<char>, Seq<crate::template::SegView>)>,
    sprite_name: Seq<char>,
    sfx: Seq<nat>,
    fuel: nat,
    i: int,
) -> (Seq<HatView>, Seq<ErrView>)
    decreases i,
{
    if i <= 0 {
        (Seq::<HatView>::empty(), Seq::<ErrView>::empty())
    } else {
        let prev = spec_all_hats_up_to(bm, tv, sprite_name, sfx, fuel, i - 1);
        let defs = spec_defs_up_to(bm, tv, fuel, bm.len() as int);
        match spec_create_hat(bm, tv, bm[i - 1].1, sprite_name, sfx[i - 1], fuel) {
            Result::Ok(h) => (
                prev.0.push(
                    if h.custom {
                        HatView {
                            name: h.name,
                            body: spec_expand(h.body, defs, 0),
                            start: h.start,
                            params: h.params,
                            custom: h.custom,
                        }
                    } else {
                        h
                    },
                ),
                prev.1,
            ),
            Result::Err(HatErrView::Skip(_)) => prev,
            Result::Err(HatErrView::Fail(e)) => (prev.0, prev.1.push(e)),
        }
    }
}

proof fn lemma_all_hats_sfx_prefix(
    bm: Seq<(String, Block)>,
    tv: Seq<(Seq<char>, Seq<crate::template::SegView>)>,
    sprite_name: Seq<char>,
    s1: Seq<nat>,
    s2: Seq<nat>,
    fuel: nat,
    i: int,
)
    requires
        forall|k: int| 0 <= k < i ==> s1[k] == s2[k],
    ensures
        spec_all_hats_up_to(bm, tv, sprite_name, s1, fuel, i) == spec_all_hats_up_to(
            bm,
            tv,
            sprite_name,
            s2,
            fuel,
            i,
        ),
    decreases i,
{
    if i > 0 {
        lemma_all_hats_sfx_prefix(bm, tv, sprite_name, s1, s2, fuel, i - 1);
    }
}

/// Every hat of one target, with the failures that skipped single
/// hats.
#[derive(Debug)]
pub struct TargetScripts {
    /// The assembled procedures, in graph order.
    pub hats: Vec<Hat>,
    /// The compile failures of hats that were skipped, in graph order.
    pub failures: Vec<CompileError>,
}

/// Whether assembled scripts match their mathematical form under the
/// given suffixes.
pub open spec fn scripts_match(
    bm: Seq<(String, Block)>,
    tv: Seq<(Seq<char>, Seq<crate::template::SegView>)>,
    sprite_name: Seq<char>,
    r: TargetScripts,
    sfx: Seq<nat>,
    fuel: nat,
) -> bool {
    let out = spec_all_hats_up_to(bm, tv, sprite_name, sfx, fuel, bm.len() as int);
    &&& sfx.len() == bm.len()
    &&& (forall|k: int| 0 <= k < sfx.len() ==> sfx[k] < 99999999999999999)
    &&& hats_view(r.hats@) == out.0
    &&& errs_view(r.failures@) == out.1
}

/// Assemble every hat of a target's block graph: pass one gathers the
/// custom-procedure table, pass two assembles each hat and expands
/// custom bodies one level. A block that is no hat is silently
/// skipped; a hat whose stack fails to compile is skipped with its
/// error recorded, and the rest stand.
pub fn create_all_hats(bm: &BlockMap, table: &OpTable, name: &String, fuel: u64) -> (r:
    TargetScripts)
    ensures
        exists|sfx: Seq<nat>| #[trigger] scripts_match(bm@, table@, name@, r, sfx, fuel as nat),
{
    let ghost tv = table@;
    // pass one: the custom-procedure table
    let mut defs: Vec<(String, String)> = Vec::new();
    let mut i: usize = 0;
    while i < bm.len()
        invariant
            i <= bm@.len(),
            tv == table@,
            defs_view(defs@) == spec_defs_up_to(bm@, tv, fuel as nat, i as int),
        decreases bm@.len() - i,
    {
        let ghost pre = defs_view(defs@);
        let pair = &bm[i];
        match handle_custom_block(&pair.1, bm, table, fuel) {
            Option::Some(p) => {
                defs.push(p);
                proof {
                    assert(defs_view(defs@) =~= pre + seq![
                        spec_handle_custom(bm@, tv, bm@[i as int].1, fuel as nat)->Some_0,
                    ]);
                }
            },
            Option::None => {
                proof {
                    assert(defs_view(defs@) =~= pre + Seq::<(Seq<char>, Seq<char>)>::empty());
                }
            },
        }
        i = i + 1;
    }
    proof {
        assert(defs_view(defs@) == spec_defs_up_to(bm@, tv, fuel as nat, bm@.len() as int));
    }
    // pass two: assemble each hat, expanding custom bodies
    let mut hats: Vec<Hat> = Vec::new();
    let mut failures: Vec<CompileError> = Vec::new();
    let ghost mut sfxs = Seq::<nat>::empty();
    let mut k: usize = 0;
    while k < bm.len()
        invariant
            k <= bm@.len(),
            tv == table@,
            defs_view(defs@) == spec_defs_up_to(bm@, tv, fuel as nat, bm@.len() as int),
            sfxs.len() == k,
            forall|j: int| 0 <= j < k ==> sfxs[j] < 99999999999999999,
            (hats_view(hats@), errs_view(failures@)) == spec_all_hats_up_to(
                bm@,
                tv,
                name@,
                sfxs,
                fuel as nat,
                k as int,
            ),
        decreases bm@.len() - k,
    {
        let ghost pre_h = hats_view(hats@);
        let ghost pre_e = errs_view(failures@);
        let pair = &bm[k];
        let hr = create_hat(&pair.1, bm, table, name, fuel);
        let ghost w = choose|sfx: nat|
            sfx < 99999999999999999 && hat_res_matches(
                hr,
                #[trigger] spec_create_hat(bm@, tv, bm@[k as int].1, name@, sfx, fuel as nat),
            );
        proof {
            lemma_all_hats_sfx_prefix(bm@, tv, name@, sfxs, sfxs.push(w), fuel as nat, k as int);
            sfxs = sfxs.push(w);
        }
        match hr {
            Result::Ok(h) => {
                let mut h = h;
                let ghost hv = h@;
                if h.custom {
                    expand_custom_blocks(&mut h.body, &defs);
                    proof {
                        assert(h@ == HatView {
                            name: hv.name,
                            body: spec_expand(
                                hv.body,
                                spec_defs_up_to(bm@, tv, fuel as nat, bm@.len() as int),
                                0,
                            ),
                            start: hv.start,
                            params: hv.params,
                            custom: hv.custom,
                        });
                    }
                }
                hats.push(h);
                proof {
                    assert(hats_view(hats@) =~= pre_h.push(h@));
                    assert(errs_view(failures@) == pre_e);
                }
            },
            Result::Err(e) => {
                match e {
                    HatError::Skip(_) => {
                        proof {
                            assert(hats_view(hats@) == pre_h);
                            assert(errs_view(failures@) == pre_e);
                        }
                    },
                    HatError::Fail(ce) => {
                        let ghost cev = ce@;
                        failures.push(ce);
                        proof {
                            assert(errs_view(failures@) =~= pre_e.push(cev));
                            assert(hats_view(hats@) == pre_h);
                        }
                    },
                }
            },
        }
        k = k + 1;
    }
    let r = TargetScripts { hats, failures };
    proof {
        assert(scripts_match(bm@, tv, name@, r, sfxs, fuel as nat));
    }
    r
}

} // verus!
