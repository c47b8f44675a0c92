//! The block graph the compiler consumes: a mapping from block id to a
//! block record, with typed input slots, enum-like fields, `next` and
//! `parent` links and the top-level flag. An outside parser hands the
//! graph over in this form; the compiler reads it and never writes it.

use vstd::prelude::*;

verus! {

/// One input slot's payload: a literal of some kind, a reference to a
/// child block (a reporter or a substack), or nothing.
#[derive(Debug)]
pub enum Arg {
    /// A numeric literal (number, positive number, positive integer,
    /// integer or angle kinds), kept as its text.
    NumberLit(String),
    /// A color literal, kept as its text.
    ColorLit(String),
    /// A string literal.
    StringLit(String),
    /// A broadcast reference: display name and id.
    BroadcastRef(String, String),
    /// A variable reference: display name and id.
    VarRef(String, String),
    /// A list reference: display name and id.
    ListRef(String, String),
    /// The id of a child block: a reporter input or a substack.
    SubStack(String),
    /// An empty slot.
    EmptyArg,
    /// A literal whose kind or shape the graph format does not allow;
    /// holds its text. Compiling it is a named error: such a literal
    /// marks a graph format violation the author must see.
    MalformedLit(String),
}

/// One block record of the graph.
#[derive(Debug)]
pub struct Block {
    /// The opcode naming what the block does.
    pub opcode: String,
    /// Input slots: slot name (the template's placeholder token) and
    /// payload, in slot order.
    pub inputs: Vec<(String, Arg)>,
    /// Field slots: field name, display value and id value.
    pub fields: Vec<(String, String, String)>,
    /// The id of the following block in the same stack.
    pub next: Option<String>,
    /// The id of the enclosing or preceding block.
    pub parent: Option<String>,
    /// Whether the block sits at the top level of the target.
    pub top_level: bool,
    /// For procedure definitions, prototypes and calls: the procedure's
    /// signature text.
    pub proccode: String,
    /// For procedures: the argument ids, in declaration order.
    pub argumentids: Vec<String>,
    /// For procedures: the argument names, in declaration order.
    pub argumentnames: Vec<String>,
    /// For procedure definitions: run without screen refresh.
    pub warp: bool,
}

/// A block graph: block records keyed by id.
pub type BlockMap = Vec<(String, Block)>;

/// The record of the first entry with the given id, if any.
pub open spec fn map_find(bm: Seq<(String, Block)>, id: Seq<char>) -> Option<Block>
    decreases bm.len(),
{
    if bm.len() == 0 {
        Option::None
    } else if bm[0].0@ == id {
        Option::Some(bm[0].1)
    } else {
        map_find(bm.drop_first(), id)
    }
}

/// Find the index of the block with the given id.
pub fn find_block(bm: &BlockMap, id: &String) -> (r: Option<usize>)
    ensures
        match r {
            Option::Some(i) => i < bm@.len() && map_find(bm@, id@) == Option::Some(bm@[i as int].1),
            Option::None => map_find(bm@, id@) is None,
        },
{
    proof {
        assert(bm@.skip(0) =~= bm@);
    }
    find_block_from(bm, id, 0)
}

fn find_block_from(bm: &BlockMap, id: &String, i: usize) -> (r: Option<usize>)
    requires
        i <= bm@.len(),
    ensures
        match r {
            Option::Some(k) => i <= k < bm@.len() && map_find(bm@.skip(i as int), id@)
                == Option::Some(bm@[k as int].1),
            Option::None => map_find(bm@.skip(i as int), id@) is None,
        },
    decreases bm@.len() - i,
{
    if i == bm.len() {
        proof {
            assert(bm@.skip(i as int) =~= Seq::<(String, Block)>::empty());
        }
        Option::None
    } else {
        proof {
            assert(bm@.skip(i as int)[0] == bm@[i as int]);
            assert(bm@.skip(i as int).drop_first() =~= bm@.skip(i + 1 as int));
        }
        if bm[i].0 == *id {
            Option::Some(i)
        } else {
            find_block_from(bm, id, i + 1)
        }
    }
}

impl Block {
    /// A block with the given opcode and nothing else set.
    pub fn bare(opcode: String) -> (r: Block)
        ensures
            r.opcode == opcode,
            r.inputs@.len() == 0,
            r.fields@.len() == 0,
            r.next is None,
            r.parent is None,
            !r.top_level,
            r.proccode@.len() == 0,
            r.argumentids@.len() == 0,
            r.argumentnames@.len() == 0,
            !r.warp,
    {
        Block {
            opcode,
            inputs: Vec::new(),
            fields: Vec::new(),
            next: Option::None,
            parent: Option::None,
            top_level: false,
            proccode: String::new(),
            argumentids: Vec::new(),
            argumentnames: Vec::new(),
            warp: false,
        }
    }
}

} // verus!
