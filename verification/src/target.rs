//! The target data model: the stage, its sprites, and the variable and
//! list storage the compiled code operates over.
//!
//! Variables and lists resolve sprite-local first and fall back to the
//! stage; writes go to whichever scope already owns the id, and create
//! a sprite-local (stage-local for stage-only operations) entry when
//! neither does. The sprite list is kept strictly sorted by layer.

use vstd::prelude::*;

use crate::value::{
    clone_value, clone_values, spec_compare, spec_num_of, spec_str_of, wf_value, Cmp, Value, SCALE,
    MAX_SCALED,
};

verus! {

/// How a sprite turns with its direction.
#[derive(Clone, Copy, Debug, PartialEq, Eq, Structural)]
pub enum RotationStyle {
    AllAround,
    LeftRight,
    DontRotate,
}

/// The stage's video input state.
#[derive(Clone, Copy, Debug, PartialEq, Eq, Structural)]
pub enum VideoState {
    On,
    Off,
    OnFlipped,
}

/// A variable table: id, display name and value, ids unique.
pub type VarTable = Vec<(String, String, Value)>;

/// A list table: id, display name and items, ids unique.
pub type ListTable = Vec<(String, String, Vec<Value>)>;

/// One sprite of the stage.
#[derive(Debug)]
pub struct Sprite {
    pub name: String,
    /// The sprite's unique identity.
    pub id: u64,
    /// Position, in fixed-point units.
    pub x: i64,
    pub y: i64,
    /// Size in percent, fixed-point units.
    pub size: i64,
    /// Direction in degrees clockwise from north, fixed-point units.
    pub direction: i64,
    pub volume: i64,
    pub visible: bool,
    pub draggable: bool,
    pub rotation_style: RotationStyle,
    /// Draw order: higher layers draw above lower ones.
    pub layer: u64,
    /// Whether the sprite was created by cloning.
    pub is_clone: bool,
    /// Marked for removal at the scheduler's delete sweep.
    pub pending_delete: bool,
    /// Index of the current costume.
    pub costume: usize,
    /// Costume names, in costume order.
    pub costumes: Vec<String>,
    /// Sound names with their durations in fixed-point seconds.
    pub sounds: Vec<(String, i64)>,
    pub vars: VarTable,
    pub lists: ListTable,
    /// Graphical effect names with their amounts, fixed-point units.
    pub effects: Vec<(String, i64)>,
}

/// The stage: the one target owning the sprite list and the global
/// scope.
#[derive(Debug)]
pub struct Stage {
    pub tempo: i64,
    pub video_state: VideoState,
    pub video_transparency: i64,
    pub tts_language: String,
    pub volume: i64,
    pub costume: usize,
    pub costumes: Vec<String>,
    pub sounds: Vec<(String, i64)>,
    pub vars: VarTable,
    pub lists: ListTable,
    pub sprites: Vec<Sprite>,
    /// The identity the next clone receives.
    pub next_id: u64,
    /// The last answer the ask operation read.
    pub answer: Value,
    /// Snapshot of the keys held down.
    pub keys: Vec<String>,
    pub mouse_x: i64,
    pub mouse_y: i64,
    pub mouse_down: bool,
    /// The pen's stamp list: position and costume of each stamp.
    pub stamps: Vec<(i64, i64, usize)>,
}

/// Two sprites equal in everything but their variable and list tables.
pub open spec fn sprite_frame(a: Sprite, b: Sprite) -> bool {
    &&& a.name == b.name
    &&& a.id == b.id
    &&& a.x == b.x
    &&& a.y == b.y
    &&& a.size == b.size
    &&& a.direction == b.direction
    &&& a.volume == b.volume
    &&& a.visible == b.visible
    &&& a.draggable == b.draggable
    &&& a.rotation_style == b.rotation_style
    &&& a.layer == b.layer
    &&& a.is_clone == b.is_clone
    &&& a.pending_delete == b.pending_delete
    &&& a.costume == b.costume
    &&& a.costumes == b.costumes
    &&& a.sounds == b.sounds
    &&& a.effects == b.effects
}

/// Two stages equal in everything but their data tables and sprites.
pub open spec fn stage_frame(a: Stage, b: Stage) -> bool {
    &&& a.tempo == b.tempo
    &&& a.video_state == b.video_state
    &&& a.video_transparency == b.video_transparency
    &&& a.tts_language == b.tts_language
    &&& a.volume == b.volume
    &&& a.costume == b.costume
    &&& a.costumes == b.costumes
    &&& a.sounds == b.sounds
    &&& a.next_id == b.next_id
    &&& a.answer == b.answer
    &&& a.keys == b.keys
    &&& a.mouse_x == b.mouse_x
    &&& a.mouse_y == b.mouse_y
    &&& a.mouse_down == b.mouse_down
    &&& a.stamps == b.stamps
}

/// The index of the variable with the given id.
pub open spec fn spec_var_idx(vars: Seq<(String, String, Value)>, id: Seq<char>) -> Option<int>
    decreases vars.len(),
{
    if vars.len() == 0 {
        Option::None
    } else if vars[0].0@ == id {
        Option::Some(0int)
    } else {
        match spec_var_idx(vars.drop_first(), id) {
            Option::Some(i) => Option::Some(i + 1),
            Option::None => Option::None,
        }
    }
}

/// The index of the list with the given id.
pub open spec fn spec_list_idx(lists: Seq<(String, String, Vec<Value>)>, id: Seq<char>) -> Option<
    int,
>
    decreases lists.len(),
{
    if lists.len() == 0 {
        Option::None
    } else if lists[0].0@ == id {
        Option::Some(0int)
    } else {
        match spec_list_idx(lists.drop_first(), id) {
            Option::Some(i) => Option::Some(i + 1),
            Option::None => Option::None,
        }
    }
}

fn var_idx(vars: &VarTable, id: &String) -> (r: Option<usize>)
    ensures
        match r {
            Option::Some(i) => i < vars@.len() && spec_var_idx(vars@, id@) == Option::Some(
                i as int,
            ),
            Option::None => spec_var_idx(vars@, id@) is None,
        },
{
    proof {
        assert(vars@.skip(0) =~= vars@);
    }
    var_idx_from(vars, id, 0)
}

fn var_idx_from(vars: &VarTable, id: &String, i: usize) -> (r: Option<usize>)
    requires
        i <= vars@.len(),
    ensures
        match r {
            Option::Some(k) => i <= k < vars@.len() && spec_var_idx(vars@.skip(i as int), id@)
                == Option::Some(k - i as int),
            Option::None => spec_var_idx(vars@.skip(i as int), id@) is None,
        },
    decreases vars@.len() - i,
{
    if i == vars.len() {
        proof {
            assert(vars@.skip(i as int) =~= Seq::<(String, String, Value)>::empty());
        }
        Option::None
    } else {
        proof {
            assert(vars@.skip(i as int)[0] == vars@[i as int]);
            assert(vars@.skip(i as int).drop_first() =~= vars@.skip(i + 1 as int));
        }
        if vars[i].0 == *id {
            Option::Some(i)
        } else {
            var_idx_from(vars, id, i + 1)
        }
    }
}

fn list_idx(lists: &ListTable, id: &String) -> (r: Option<usize>)
    ensures
        match r {
            Option::Some(i) => i < lists@.len() && spec_list_idx(lists@, id@) == Option::Some(
                i as int,
            ),
            Option::None => spec_list_idx(lists@, id@) is None,
        },
{
    proof {
        assert(lists@.skip(0) =~= lists@);
    }
    list_idx_from(lists, id, 0)
}

fn list_idx_from(lists: &ListTable, id: &String, i: usize) -> (r: Option<usize>)
    requires
        i <= lists@.len(),
    ensures
        match r {
            Option::Some(k) => i <= k < lists@.len() && spec_list_idx(lists@.skip(i as int), id@)
                == Option::Some(k - i as int),
            Option::None => spec_list_idx(lists@.skip(i as int), id@) is None,
        },
    decreases lists@.len() - i,
{
    if i == lists.len() {
        proof {
            assert(lists@.skip(i as int) =~= Seq::<(String, String, Vec<Value>)>::empty());
        }
        Option::None
    } else {
        proof {
            assert(lists@.skip(i as int)[0] == lists@[i as int]);
            assert(lists@.skip(i as int).drop_first() =~= lists@.skip(i + 1 as int));
        }
        if lists[i].0 == *id {
            Option::Some(i)
        } else {
            list_idx_from(lists, id, i + 1)
        }
    }
}

fn set_var_at(vars: &mut VarTable, j: usize, value: Value)
    requires
        j < old(vars)@.len(),
    ensures
        final(vars)@ == old(vars)@.update(
            j as int,
            (old(vars)@[j as int].0, old(vars)@[j as int].1, value),
        ),
{
    let id = vars[j].0.clone();
    let nm = vars[j].1.clone();
    vars.set(j, (id, nm, value));
}

fn set_list_at(lists: &mut ListTable, j: usize, items: Vec<Value>)
    requires
        j < old(lists)@.len(),
    ensures
        final(lists)@ == old(lists)@.update(
            j as int,
            (old(lists)@[j as int].0, old(lists)@[j as int].1, items),
        ),
{
    let id = lists[j].0.clone();
    let nm = lists[j].1.clone();
    lists.set(j, (id, nm, items));
}

/// A borrow of one sprite for in-place change.
fn sprite_mut(v: &mut Vec<Sprite>, i: usize) -> (r: &mut Sprite)
    requires
        i < old(v)@.len(),
    ensures
        *r == old(v)@[i as int],
        final(v)@ == old(v)@.update(i as int, *final(r)),
{
    &mut v[i]
}

} // verus!

verus! {

/// Every stored variable value is well formed.
pub open spec fn wf_vars(vars: Seq<(String, String, Value)>) -> bool {
    forall|i: int| 0 <= i < vars.len() ==> wf_value((#[trigger] vars[i]).2)
}

/// Every stored list item is well formed.
pub open spec fn wf_items(items: Seq<Value>) -> bool {
    forall|i: int| 0 <= i < items.len() ==> wf_value(#[trigger] items[i])
}

pub open spec fn wf_lists(lists: Seq<(String, String, Vec<Value>)>) -> bool {
    forall|i: int| 0 <= i < lists.len() ==> wf_items((#[trigger] lists[i]).2@)
}

pub open spec fn wf_sprite_data(s: Sprite) -> bool {
    wf_vars(s.vars@) && wf_lists(s.lists@)
}

/// Every value the stage stores is well formed.
pub open spec fn wf_stage(st: Stage) -> bool {
    &&& wf_vars(st.vars@)
    &&& wf_lists(st.lists@)
    &&& (forall|k: int| 0 <= k < st.sprites@.len() ==> wf_sprite_data(#[trigger] st.sprites@[k]))
    &&& wf_value(st.answer)
}

/// The value a variable read resolves to: the sprite's own entry
/// first, then the stage's, and null where neither scope owns the id.
pub open spec fn spec_lookup_var(st: Stage, sprite: Option<int>, id: Seq<char>) -> Value {
    match sprite {
        Option::Some(s) => match spec_var_idx(st.sprites@[s].vars@, id) {
            Option::Some(j) => st.sprites@[s].vars@[j].2,
            Option::None => match spec_var_idx(st.vars@, id) {
                Option::Some(j) => st.vars@[j].2,
                Option::None => Value::Null,
            },
        },
        Option::None => match spec_var_idx(st.vars@, id) {
            Option::Some(j) => st.vars@[j].2,
            Option::None => Value::Null,
        },
    }
}

/// How a variable write changes the stage: the owning scope's entry is
/// updated — the sprite's own first, then the stage's — and a
/// sprite-local (stage-local without a sprite) entry is created when
/// neither scope owns the id. Nothing else changes.
pub open spec fn spec_set_var(
    st: Stage,
    post: Stage,
    sprite: Option<int>,
    id: Seq<char>,
    name: Seq<char>,
    value: Value,
) -> bool {
    match sprite {
        Option::Some(s) => {
            let sp = st.sprites@[s];
            match spec_var_idx(sp.vars@, id) {
                Option::Some(j) => {
                    &&& stage_frame(st, post)
                    &&& post.vars == st.vars
                    &&& post.lists == st.lists
                    &&& post.sprites@.len() == st.sprites@.len()
                    &&& (forall|k: int|
                        0 <= k < st.sprites@.len() && k != s ==> post.sprites@[k]
                            == #[trigger] st.sprites@[k])
                    &&& sprite_frame(sp, post.sprites@[s])
                    &&& post.sprites@[s].lists == sp.lists
                    &&& post.sprites@[s].vars@ == sp.vars@.update(
                        j,
                        (sp.vars@[j].0, sp.vars@[j].1, value),
                    )
                },
                Option::None => match spec_var_idx(st.vars@, id) {
                    Option::Some(j) => {
                        &&& stage_frame(st, post)
                        &&& post.sprites == st.sprites
                        &&& post.lists == st.lists
                        &&& post.vars@ == st.vars@.update(
                            j,
                            (st.vars@[j].0, st.vars@[j].1, value),
                        )
                    },
                    Option::None => {
                        &&& stage_frame(st, post)
                        &&& post.vars == st.vars
                        &&& post.lists == st.lists
                        &&& post.sprites@.len() == st.sprites@.len()
                        &&& (forall|k: int|
                            0 <= k < st.sprites@.len() && k != s ==> post.sprites@[k]
                                == #[trigger] st.sprites@[k])
                        &&& sprite_frame(sp, post.sprites@[s])
                        &&& post.sprites@[s].lists == sp.lists
                        &&& post.sprites@[s].vars@.len() == sp.vars@.len() + 1
                        &&& post.sprites@[s].vars@.take(sp.vars@.len() as int) == sp.vars@
                        &&& post.sprites@[s].vars@.last().0@ == id
                        &&& post.sprites@[s].vars@.last().1@ == name
                        &&& post.sprites@[s].vars@.last().2 == value
                    },
                },
            }
        },
        Option::None => match spec_var_idx(st.vars@, id) {
            Option::Some(j) => {
                &&& stage_frame(st, post)
                &&& post.sprites == st.sprites
                &&& post.lists == st.lists
                &&& post.vars@ == st.vars@.update(j, (st.vars@[j].0, st.vars@[j].1, value))
            },
            Option::None => {
                &&& stage_frame(st, post)
                &&& post.sprites == st.sprites
                &&& post.lists == st.lists
                &&& post.vars@.len() == st.vars@.len() + 1
                &&& post.vars@.take(st.vars@.len() as int) == st.vars@
                &&& post.vars@.last().0@ == id
                &&& post.vars@.last().1@ == name
                &&& post.vars@.last().2 == value
            },
        },
    }
}

/// What a number is worth in arithmetic: its fixed-point units, or
/// zero where the value reads as no number.
pub open spec fn spec_num_or_zero(v: Value) -> int {
    match spec_num_of(v) {
        Option::Some(n) => n,
        Option::None => 0,
    }
}

/// A sum clamped into the fixed-point range.
pub open spec fn spec_clamp(n: int) -> int {
    if n < -MAX_SCALED {
        -MAX_SCALED as int
    } else if n > MAX_SCALED {
        MAX_SCALED as int
    } else {
        n
    }
}

impl Stage {
    /// Read a variable: the sprite's own entry first, then the
    /// stage's; null where neither scope owns the id.
    pub fn get_variable(&self, sprite: Option<usize>, id: &String) -> (r: Value)
        requires
            sprite matches Option::Some(s) ==> s < self.sprites@.len(),
        ensures
            r == spec_lookup_var(
                *self,
                match sprite {
                    Option::Some(s) => Option::Some(s as int),
                    Option::None => Option::None,
                },
                id@,
            ),
            wf_stage(*self) ==> wf_value(r),
    {
        match sprite {
            Option::Some(s) => {
                let sp = &self.sprites[s];
                match var_idx(&sp.vars, id) {
                    Option::Some(j) => clone_value(&sp.vars[j].2),
                    Option::None => match var_idx(&self.vars, id) {
                        Option::Some(j) => clone_value(&self.vars[j].2),
                        Option::None => Value::Null,
                    },
                }
            },
            Option::None => match var_idx(&self.vars, id) {
                Option::Some(j) => clone_value(&self.vars[j].2),
                Option::None => Value::Null,
            },
        }
    }

    /// Write a variable into whichever scope owns the id, creating a
    /// sprite-local (stage-local without a sprite) entry when neither
    /// does.
    pub fn set_variable(&mut self, sprite: Option<usize>, id: &String, name: &String, value: Value)
        requires
            sprite matches Option::Some(s) ==> s < old(self).sprites@.len(),
            wf_value(value),
        ensures
            spec_set_var(
                *old(self),
                *final(self),
                match sprite {
                    Option::Some(s) => Option::Some(s as int),
                    Option::None => Option::None,
                },
                id@,
                name@,
                value,
            ),
            wf_stage(*old(self)) ==> wf_stage(*final(self)),
    {
        match sprite {
            Option::Some(s) => {
                let local = {
                    let sp = &self.sprites[s];
                    var_idx(&sp.vars, id)
                };
                match local {
                    Option::Some(j) => {
                        let sp = sprite_mut(&mut self.sprites, s);
                        set_var_at(&mut sp.vars, j, value);
                    },
                    Option::None => {
                        match var_idx(&self.vars, id) {
                            Option::Some(j) => {
                                set_var_at(&mut self.vars, j, value);
                            },
                            Option::None => {
                                let sp = sprite_mut(&mut self.sprites, s);
                                sp.vars.push((id.clone(), name.clone(), value));
                                proof {
                                    assert(self.sprites@[s as int].vars@.take(
                                        old(self).sprites@[s as int].vars@.len() as int,
                                    ) =~= old(self).sprites@[s as int].vars@);
                                }
                            },
                        }
                    },
                }
            },
            Option::None => {
                match var_idx(&self.vars, id) {
                    Option::Some(j) => {
                        set_var_at(&mut self.vars, j, value);
                    },
                    Option::None => {
                        self.vars.push((id.clone(), name.clone(), value));
                        proof {
                            assert(self.vars@.take(old(self).vars@.len() as int) =~= old(
                                self,
                            ).vars@);
                        }
                    },
                }
            },
        }
        proof {
            if wf_stage(*old(self)) {
                assert forall|i: int|
                    0 <= i < self.vars@.len() implies wf_value((#[trigger] self.vars@[i]).2) by {
                    if i < old(self).vars@.len() {
                        assert(old(self).vars@[i] == old(self).vars@[i]);
                    }
                }
                assert forall|k: int|
                    0 <= k < self.sprites@.len() implies wf_sprite_data(
                    #[trigger] self.sprites@[k],
                ) by {
                    assert(wf_sprite_data(old(self).sprites@[k]));
                    if self.sprites@[k] != old(self).sprites@[k] {
                        assert forall|i: int|
                            0 <= i < self.sprites@[k].vars@.len() implies wf_value(
                            (#[trigger] self.sprites@[k].vars@[i]).2,
                        ) by {
                            if i < old(self).sprites@[k].vars@.len() {
                                assert(wf_value(old(self).sprites@[k].vars@[i].2));
                            }
                        }
                    }
                }
            }
        }
    }

    /// Add to a variable: the current value and the delta are coerced
    /// to numbers (no number counts as zero), their sum clamped into
    /// range, and written back under the same resolution as a write.
    pub fn change_variable(&mut self, sprite: Option<usize>, id: &String, name: &String, delta: &Value)
        requires
            sprite matches Option::Some(s) ==> s < old(self).sprites@.len(),
            wf_value(*delta),
            wf_stage(*old(self)),
        ensures
            spec_set_var(
                *old(self),
                *final(self),
                match sprite {
                    Option::Some(s) => Option::Some(s as int),
                    Option::None => Option::None,
                },
                id@,
                name@,
                Value::Num(
                    spec_clamp(
                        spec_num_or_zero(
                            spec_lookup_var(
                                *old(self),
                                match sprite {
                                    Option::Some(s) => Option::Some(s as int),
                                    Option::None => Option::None,
                                },
                                id@,
                            ),
                        ) + spec_num_or_zero(*delta),
                    ) as i64,
                ),
            ),
            wf_stage(*final(self)),
    {
        let cur = self.get_variable(sprite, id);
        let a = crate::value::to_number_or_zero(&cur);
        let b = crate::value::to_number_or_zero(delta);
        let wide: i128 = a as i128 + b as i128;
        let clamped: i64 = if wide < -MAX_SCALED as i128 {
            -MAX_SCALED
        } else if wide > MAX_SCALED as i128 {
            MAX_SCALED
        } else {
            wide as i64
        };
        self.set_variable(sprite, id, name, Value::Num(clamped));
    }
}

} // verus!

verus! {

/// The scope owning the list with the given id: the sprite's own
/// table first (true), then the stage's (false), with the entry's
/// index.
pub open spec fn spec_list_scope(st: Stage, sprite: Option<int>, id: Seq<char>) -> Option<
    (bool, int),
> {
    match sprite {
        Option::Some(s) => match spec_list_idx(st.sprites@[s].lists@, id) {
            Option::Some(j) => Option::Some((true, j)),
            Option::None => match spec_list_idx(st.lists@, id) {
                Option::Some(j) => Option::Some((false, j)),
                Option::None => Option::None,
            },
        },
        Option::None => match spec_list_idx(st.lists@, id) {
            Option::Some(j) => Option::Some((false, j)),
            Option::None => Option::None,
        },
    }
}

/// The items of the list a scope names.
pub open spec fn spec_items_at(st: Stage, sprite: Option<int>, scope: (bool, int)) -> Seq<Value> {
    if scope.0 {
        st.sprites@[sprite->Some_0].lists@[scope.1].2@
    } else {
        st.lists@[scope.1].2@
    }
}

/// How writing a list's items back changes the stage: the owning
/// entry's items are replaced and nothing else changes.
pub open spec fn spec_write_items(
    st: Stage,
    post: Stage,
    sprite: Option<int>,
    scope: (bool, int),
    items: Seq<Value>,
) -> bool {
    if scope.0 {
        let s = sprite->Some_0;
        let sp = st.sprites@[s];
        &&& stage_frame(st, post)
        &&& post.vars == st.vars
        &&& post.lists == st.lists
        &&& post.sprites@.len() == st.sprites@.len()
        &&& (forall|k: int|
            0 <= k < st.sprites@.len() && k != s ==> post.sprites@[k] == #[trigger] st.sprites@[k])
        &&& sprite_frame(sp, post.sprites@[s])
        &&& post.sprites@[s].vars == sp.vars
        &&& post.sprites@[s].lists@.len() == sp.lists@.len()
        &&& (forall|k: int|
            0 <= k < sp.lists@.len() && k != scope.1 ==> post.sprites@[s].lists@[k]
                == #[trigger] sp.lists@[k])
        &&& post.sprites@[s].lists@[scope.1].0 == sp.lists@[scope.1].0
        &&& post.sprites@[s].lists@[scope.1].1 == sp.lists@[scope.1].1
        &&& post.sprites@[s].lists@[scope.1].2@ == items
    } else {
        &&& stage_frame(st, post)
        &&& post.vars == st.vars
        &&& post.sprites == st.sprites
        &&& post.lists@.len() == st.lists@.len()
        &&& (forall|k: int|
            0 <= k < st.lists@.len() && k != scope.1 ==> post.lists@[k] == #[trigger] st.lists@[k])
        &&& post.lists@[scope.1].0 == st.lists@[scope.1].0
        &&& post.lists@[scope.1].1 == st.lists@[scope.1].1
        &&& post.lists@[scope.1].2@ == items
    }
}

impl Stage {
    /// The scope owning a list, if any.
    fn list_scope(&self, sprite: Option<usize>, id: &String) -> (r: Option<(bool, usize)>)
        requires
            sprite matches Option::Some(s) ==> s < self.sprites@.len(),
        ensures
            match r {
                Option::Some(sc) => spec_list_scope(*self, opt_int(sprite), id@) == Option::Some(
                    (sc.0, sc.1 as int),
                ) && (sc.0 ==> sprite is Some && sc.1 < self.sprites@[sprite->Some_0 as int].lists@.len())
                    && (!sc.0 ==> sc.1 < self.lists@.len()),
                Option::None => spec_list_scope(*self, opt_int(sprite), id@) is None,
            },
    {
        match sprite {
            Option::Some(s) => {
                let sp = &self.sprites[s];
                match list_idx(&sp.lists, id) {
                    Option::Some(j) => Option::Some((true, j)),
                    Option::None => match list_idx(&self.lists, id) {
                        Option::Some(j) => Option::Some((false, j)),
                        Option::None => Option::None,
                    },
                }
            },
            Option::None => match list_idx(&self.lists, id) {
                Option::Some(j) => Option::Some((false, j)),
                Option::None => Option::None,
            },
        }
    }

    /// A copy of the items of the list a scope names.
    fn read_items(&self, sprite: Option<usize>, scope: (bool, usize)) -> (r: Vec<Value>)
        requires
            scope.0 ==> (sprite matches Option::Some(s) && s < self.sprites@.len() && scope.1
                < self.sprites@[sprite->Some_0 as int].lists@.len()),
            !scope.0 ==> scope.1 < self.lists@.len(),
        ensures
            r@ == spec_items_at(*self, opt_int(sprite), (scope.0, scope.1 as int)),
    {
        if scope.0 {
            let s = match sprite {
                Option::Some(s) => s,
                Option::None => 0,
            };
            clone_values(&self.sprites[s].lists[scope.1].2)
        } else {
            clone_values(&self.lists[scope.1].2)
        }
    }

    /// Put items back into the list a scope names.
    fn write_items(&mut self, sprite: Option<usize>, scope: (bool, usize), items: Vec<Value>)
        requires
            scope.0 ==> (sprite matches Option::Some(s) && s < old(self).sprites@.len() && scope.1
                < old(self).sprites@[sprite->Some_0 as int].lists@.len()),
            !scope.0 ==> scope.1 < old(self).lists@.len(),
        ensures
            spec_write_items(
                *old(self),
                *final(self),
                opt_int(sprite),
                (scope.0, scope.1 as int),
                items@,
            ),
            wf_stage(*old(self)) && wf_items(items@) ==> wf_stage(*final(self)),
    {
        if scope.0 {
            let s = match sprite {
                Option::Some(s) => s,
                Option::None => 0,
            };
            let sp = sprite_mut(&mut self.sprites, s);
            set_list_at(&mut sp.lists, scope.1, items);
        } else {
            set_list_at(&mut self.lists, scope.1, items);
        }
        proof {
            if wf_stage(*old(self)) && wf_items(items@) {
                assert forall|i: int|
                    0 <= i < self.lists@.len() implies wf_items(
                    (#[trigger] self.lists@[i]).2@,
                ) by {
                    assert(wf_items(old(self).lists@[i].2@) || self.lists@[i].2@ == items@);
                }
                assert forall|k: int|
                    0 <= k < self.sprites@.len() implies wf_sprite_data(
                    #[trigger] self.sprites@[k],
                ) by {
                    assert(wf_sprite_data(old(self).sprites@[k]));
                    if self.sprites@[k] != old(self).sprites@[k] {
                        assert forall|i: int|
                            0 <= i < self.sprites@[k].lists@.len() implies wf_items(
                            (#[trigger] self.sprites@[k].lists@[i]).2@,
                        ) by {
                            assert(wf_items(old(self).sprites@[k].lists@[i].2@)
                                || self.sprites@[k].lists@[i].2@ == items@);
                        }
                    }
                }
            }
        }
    }
}

/// A sprite index as its mathematical form.
pub open spec fn opt_int(sprite: Option<usize>) -> Option<int> {
    match sprite {
        Option::Some(s) => Option::Some(s as int),
        Option::None => Option::None,
    }
}

// ---------------------------------------------------------------------
// List index resolution
// ---------------------------------------------------------------------

/// A keyword asking for a random item.
pub open spec fn is_random_kw(v: Value) -> bool {
    spec_str_of(v) == "random"@ || spec_str_of(v) == "any"@
}

/// Deterministic index resolution against a list of the given length,
/// zero-based: the keyword `last` names the final item of a non-empty
/// list and fails on an empty one; a number names the item of its
/// whole part (the fraction is dropped) when that lies in one through
/// length; everything else — a number out of range, the reserved
/// `all`, stray text — fails.
pub open spec fn spec_index_det(len: int, v: Value) -> Option<int> {
    if spec_str_of(v) == "last"@ {
        if len > 0 {
            Option::Some(len - 1)
        } else {
            Option::None
        }
    } else {
        match spec_num_of(v) {
            Option::Some(n) => if 1 <= n / (SCALE as int) <= len {
                Option::Some(n / (SCALE as int) - 1)
            } else {
                Option::None
            },
            Option::None => Option::None,
        }
    }
}

/// Resolve a one-based index value against a list length: `last` and
/// whole in-range numbers resolve as [`spec_index_det`] says; `random`
/// and `any` pick some index of a non-empty list; anything else fails.
pub fn resolve_index(v: &Value, len: usize) -> (r: Option<usize>)
    requires
        wf_value(*v),
    ensures
        is_random_kw(*v) ==> (match r {
            Option::Some(i) => len > 0 && i < len,
            Option::None => len == 0,
        }),
        !is_random_kw(*v) ==> (match r {
            Option::Some(i) => spec_index_det(len as int, *v) == Option::Some(i as int),
            Option::None => spec_index_det(len as int, *v) is None,
        }),
{
    proof {
        reveal_strlit("last");
        reveal_strlit("random");
        reveal_strlit("any");
    }
    let s = crate::value::to_text(v);
    let last_kw = String::from_str("last");
    let random_kw = String::from_str("random");
    let any_kw = String::from_str("any");
    if s == last_kw {
        if len > 0 {
            Option::Some(len - 1)
        } else {
            Option::None
        }
    } else if s == random_kw || s == any_kw {
        if len > 0 {
            let i = crate::rng::random_below(len as u64);
            Option::Some(i as usize)
        } else {
            Option::None
        }
    } else {
        match crate::value::to_number(v) {
            Option::Some(n) => {
                if n >= SCALE {
                    let q = n / SCALE;
                    if q as u64 <= len as u64 {
                        Option::Some((q - 1) as usize)
                    } else {
                        Option::None
                    }
                } else {
                    proof {
                        assert(n < SCALE);
                        assert(n as int / (SCALE as int) < 1);
                    }
                    Option::None
                }
            },
            Option::None => Option::None,
        }
    }
}

/// List index resolution: `last` names the final (one-based: the
/// length-th) item of a non-empty list and fails on an empty one, and
/// a number whose whole part lies out of one through length fails.
pub proof fn lemma_list_index_resolution(len: int, v: Value)
    requires
        len >= 0,
    ensures
        spec_str_of(v) == "last"@ && len > 0 ==> spec_index_det(len, v) == Option::Some(len - 1),
        spec_str_of(v) == "last"@ && len == 0 ==> spec_index_det(len, v) is None,
        forall|n: int|
            spec_num_of(v) == Option::Some(n) && spec_str_of(v) != "last"@ && !(1 <= n / (
            SCALE as int) <= len) ==> spec_index_det(len, v) is None,
{
}

} // verus!

verus! {

/// How creating a list entry changes the stage: a fresh entry appended
/// to the sprite's (stage's, without a sprite) table; nothing else
/// changes.
pub open spec fn spec_new_list(
    st: Stage,
    post: Stage,
    sprite: Option<int>,
    id: Seq<char>,
    name: Seq<char>,
    items: Seq<Value>,
) -> bool {
    match sprite {
        Option::Some(s) => {
            let sp = st.sprites@[s];
            &&& stage_frame(st, post)
            &&& post.vars == st.vars
            &&& post.lists == st.lists
            &&& post.sprites@.len() == st.sprites@.len()
            &&& (forall|k: int|
                0 <= k < st.sprites@.len() && k != s ==> post.sprites@[k]
                    == #[trigger] st.sprites@[k])
            &&& sprite_frame(sp, post.sprites@[s])
            &&& post.sprites@[s].vars == sp.vars
            &&& post.sprites@[s].lists@.len() == sp.lists@.len() + 1
            &&& post.sprites@[s].lists@.take(sp.lists@.len() as int) == sp.lists@
            &&& post.sprites@[s].lists@.last().0@ == id
            &&& post.sprites@[s].lists@.last().1@ == name
            &&& post.sprites@[s].lists@.last().2@ == items
        },
        Option::None => {
            &&& stage_frame(st, post)
            &&& post.vars == st.vars
            &&& post.sprites == st.sprites
            &&& post.lists@.len() == st.lists@.len() + 1
            &&& post.lists@.take(st.lists@.len() as int) == st.lists@
            &&& post.lists@.last().0@ == id
            &&& post.lists@.last().1@ == name
            &&& post.lists@.last().2@ == items
        },
    }
}

/// The index of the first item comparing Equal to the given value.
pub open spec fn spec_find_equal(items: Seq<Value>, item: Value) -> Option<int>
    decreases items.len(),
{
    if items.len() == 0 {
        Option::None
    } else if spec_compare(items[0], item) == Cmp::Equal {
        Option::Some(0int)
    } else {
        match spec_find_equal(items.drop_first(), item) {
            Option::Some(i) => Option::Some(i + 1),
            Option::None => Option::None,
        }
    }
}

impl Stage {
    /// Append an item to a list; a list neither scope owns is created
    /// sprite-local (stage-local without a sprite) holding the item.
    pub fn add_to_list(&mut self, sprite: Option<usize>, id: &String, name: &String, item: Value)
        requires
            sprite matches Option::Some(s) ==> s < old(self).sprites@.len(),
            wf_value(item),
            old(self).sprites@.len() < usize::MAX,
        ensures
            match spec_list_scope(*old(self), opt_int(sprite), id@) {
                Option::Some(sc) => spec_write_items(
                    *old(self),
                    *final(self),
                    opt_int(sprite),
                    sc,
                    spec_items_at(*old(self), opt_int(sprite), sc).push(item),
                ),
                Option::None => spec_new_list(
                    *old(self),
                    *final(self),
                    opt_int(sprite),
                    id@,
                    name@,
                    seq![item],
                ),
            },
            wf_stage(*old(self)) ==> wf_stage(*final(self)),
    {
        match self.list_scope(sprite, id) {
            Option::Some(sc) => {
                let mut items = self.read_items(sprite, sc);
                items.push(item);
                proof {
                    if wf_stage(*old(self)) {
                        assert(wf_items(spec_items_at(*old(self), opt_int(sprite), (sc.0, sc.1 as int))));
                        assert(wf_items(items@));
                    }
                }
                self.write_items(sprite, sc, items);
            },
            Option::None => {
                let mut items: Vec<Value> = Vec::new();
                items.push(item);
                proof {
                    assert(items@ =~= seq![item]);
                }
                match sprite {
                    Option::Some(s) => {
                        let sp = sprite_mut(&mut self.sprites, s);
                        sp.lists.push((id.clone(), name.clone(), items));
                        proof {
                            assert(self.sprites@[s as int].lists@.take(
                                old(self).sprites@[s as int].lists@.len() as int,
                            ) =~= old(self).sprites@[s as int].lists@);
                        }
                    },
                    Option::None => {
                        self.lists.push((id.clone(), name.clone(), items));
                        proof {
                            assert(self.lists@.take(old(self).lists@.len() as int) =~= old(
                                self,
                            ).lists@);
                        }
                    },
                }
                proof {
                    if wf_stage(*old(self)) {
                        assert forall|i: int|
                            0 <= i < self.lists@.len() implies wf_items(
                            (#[trigger] self.lists@[i]).2@,
                        ) by {
                            if i < old(self).lists@.len() {
                                assert(old(self).lists@[i] == self.lists@[i]);
                            }
                        }
                        assert forall|k: int|
                            0 <= k < self.sprites@.len() implies wf_sprite_data(
                            #[trigger] self.sprites@[k],
                        ) by {
                            assert(wf_sprite_data(old(self).sprites@[k]));
                            if self.sprites@[k] != old(self).sprites@[k] {
                                assert forall|i: int|
                                    0 <= i < self.sprites@[k].lists@.len() implies wf_items(
                                    (#[trigger] self.sprites@[k].lists@[i]).2@,
                                ) by {
                                    if i < old(self).sprites@[k].lists@.len() {
                                        assert(wf_items(old(self).sprites@[k].lists@[i].2@));
                                    }
                                }
                            }
                        }
                    }
                }
            },
        }
    }

    /// Delete the item a one-based index names; a failing index, or a
    /// list neither scope owns, changes nothing at all.
    pub fn delete_from_list(&mut self, sprite: Option<usize>, index: &Value, id: &String)
        requires
            sprite matches Option::Some(s) ==> s < old(self).sprites@.len(),
            wf_value(*index),
            wf_stage(*old(self)),
        ensures
            wf_stage(*final(self)),
            match spec_list_scope(*old(self), opt_int(sprite), id@) {
                Option::Some(sc) => {
                    let items = spec_items_at(*old(self), opt_int(sprite), sc);
                    if is_random_kw(*index) {
                        if items.len() == 0 {
                            *final(self) == *old(self)
                        } else {
                            exists|i: int|
                                0 <= i < items.len() && spec_write_items(
                                    *old(self),
                                    *final(self),
                                    opt_int(sprite),
                                    sc,
                                    #[trigger] items.remove(i),
                                )
                        }
                    } else {
                        match spec_index_det(items.len() as int, *index) {
                            Option::Some(i) => spec_write_items(
                                *old(self),
                                *final(self),
                                opt_int(sprite),
                                sc,
                                items.remove(i),
                            ),
                            Option::None => *final(self) == *old(self),
                        }
                    }
                },
                Option::None => *final(self) == *old(self),
            },
    {
        match self.list_scope(sprite, id) {
            Option::Some(sc) => {
                let mut items = self.read_items(sprite, sc);
                let ghost pre = items@;
                match resolve_index(index, items.len()) {
                    Option::Some(i) => {
                        items.remove(i);
                        proof {
                            assert(wf_items(pre));
                            assert(wf_items(pre.remove(i as int))) by {
                                assert(forall|j: int|
                                    0 <= j < pre.remove(i as int).len() ==> #[trigger] pre.remove(
                                        i as int,
                                    )[j] == (if j < i { pre[j] } else { pre[j + 1] }));
                            }
                        }
                        self.write_items(sprite, sc, items);
                    },
                    Option::None => {},
                }
            },
            Option::None => {},
        }
    }

    /// Empty a list; one neither scope owns changes nothing.
    pub fn delete_all_of_list(&mut self, sprite: Option<usize>, id: &String)
        requires
            sprite matches Option::Some(s) ==> s < old(self).sprites@.len(),
            wf_stage(*old(self)),
        ensures
            wf_stage(*final(self)),
            match spec_list_scope(*old(self), opt_int(sprite), id@) {
                Option::Some(sc) => spec_write_items(
                    *old(self),
                    *final(self),
                    opt_int(sprite),
                    sc,
                    Seq::<Value>::empty(),
                ),
                Option::None => *final(self) == *old(self),
            },
    {
        match self.list_scope(sprite, id) {
            Option::Some(sc) => {
                let items: Vec<Value> = Vec::new();
                proof {
                    assert(items@ =~= Seq::<Value>::empty());
                }
                self.write_items(sprite, sc, items);
            },
            Option::None => {},
        }
    }

    /// Insert an item at a one-based position, `last` and length
    /// plus one both meaning the end; a failing position, or a list
    /// neither scope owns, changes nothing.
    pub fn insert_item_in_list(
        &mut self,
        sprite: Option<usize>,
        item: Value,
        index: &Value,
        id: &String,
    )
        requires
            sprite matches Option::Some(s) ==> s < old(self).sprites@.len(),
            wf_value(item),
            wf_value(*index),
            wf_stage(*old(self)),
            (spec_list_scope(*old(self), opt_int(sprite), id@) matches Option::Some(sc)
                ==> spec_items_at(*old(self), opt_int(sprite), sc).len() < usize::MAX),
        ensures
            wf_stage(*final(self)),
            match spec_list_scope(*old(self), opt_int(sprite), id@) {
                Option::Some(sc) => {
                    let items = spec_items_at(*old(self), opt_int(sprite), sc);
                    if is_random_kw(*index) {
                        exists|i: int|
                            0 <= i <= items.len() && spec_write_items(
                                *old(self),
                                *final(self),
                                opt_int(sprite),
                                sc,
                                #[trigger] items.insert(i, item),
                            )
                    } else {
                        match spec_index_det(items.len() as int + 1, *index) {
                            Option::Some(i) => spec_write_items(
                                *old(self),
                                *final(self),
                                opt_int(sprite),
                                sc,
                                items.insert(i, item),
                            ),
                            Option::None => *final(self) == *old(self),
                        }
                    }
                },
                Option::None => *final(self) == *old(self),
            },
    {
        match self.list_scope(sprite, id) {
            Option::Some(sc) => {
                let mut items = self.read_items(sprite, sc);
                let ghost pre = items@;
                match resolve_index(index, items.len() + 1) {
                    Option::Some(i) => {
                        items.insert(i, item);
                        proof {
                            assert(wf_items(pre.insert(i as int, item))) by {
                                assert(forall|j: int|
                                    0 <= j < pre.insert(i as int, item).len()
                                        ==> #[trigger] pre.insert(i as int, item)[j] == (
                                    if j < i {
                                        pre[j]
                                    } else if j == i {
                                        item
                                    } else {
                                        pre[j - 1]
                                    }));
                            }
                        }
                        self.write_items(sprite, sc, items);
                    },
                    Option::None => {},
                }
            },
            Option::None => {},
        }
    }

    /// Replace the item a one-based index names; a failing index, or a
    /// list neither scope owns, changes nothing.
    pub fn replace_item_in_list(
        &mut self,
        sprite: Option<usize>,
        item: Value,
        index: &Value,
        id: &String,
    )
        requires
            sprite matches Option::Some(s) ==> s < old(self).sprites@.len(),
            wf_value(item),
            wf_value(*index),
            wf_stage(*old(self)),
        ensures
            wf_stage(*final(self)),
            match spec_list_scope(*old(self), opt_int(sprite), id@) {
                Option::Some(sc) => {
                    let items = spec_items_at(*old(self), opt_int(sprite), sc);
                    if is_random_kw(*index) {
                        if items.len() == 0 {
                            *final(self) == *old(self)
                        } else {
                            exists|i: int|
                                0 <= i < items.len() && spec_write_items(
                                    *old(self),
                                    *final(self),
                                    opt_int(sprite),
                                    sc,
                                    #[trigger] items.update(i, item),
                                )
                        }
                    } else {
                        match spec_index_det(items.len() as int, *index) {
                            Option::Some(i) => spec_write_items(
                                *old(self),
                                *final(self),
                                opt_int(sprite),
                                sc,
                                items.update(i, item),
                            ),
                            Option::None => *final(self) == *old(self),
                        }
                    }
                },
                Option::None => *final(self) == *old(self),
            },
    {
        match self.list_scope(sprite, id) {
            Option::Some(sc) => {
                let mut items = self.read_items(sprite, sc);
                let ghost pre = items@;
                match resolve_index(index, items.len()) {
                    Option::Some(i) => {
                        items.set(i, item);
                        proof {
                            assert(wf_items(pre.update(i as int, item)));
                        }
                        self.write_items(sprite, sc, items);
                    },
                    Option::None => {},
                }
            },
            Option::None => {},
        }
    }

    /// Read the item a one-based index names; a failing index, or a
    /// list neither scope owns, reads as empty text.
    pub fn get_item_of_list(&self, sprite: Option<usize>, index: &Value, id: &String) -> (r: Value)
        requires
            sprite matches Option::Some(s) ==> s < self.sprites@.len(),
            wf_value(*index),
            wf_stage(*self),
        ensures
            wf_value(r),
            match spec_list_scope(*self, opt_int(sprite), id@) {
                Option::Some(sc) => {
                    let items = spec_items_at(*self, opt_int(sprite), sc);
                    if is_random_kw(*index) {
                        if items.len() == 0 {
                            r matches Value::Text(t) && t@ == Seq::<char>::empty()
                        } else {
                            exists|i: int| 0 <= i < items.len() && r == #[trigger] items[i]
                        }
                    } else {
                        match spec_index_det(items.len() as int, *index) {
                            Option::Some(i) => r == items[i],
                            Option::None => r matches Value::Text(t) && t@ == Seq::<
                                char,
                            >::empty(),
                        }
                    }
                },
                Option::None => r matches Value::Text(t) && t@ == Seq::<char>::empty(),
            },
    {
        match self.list_scope(sprite, id) {
            Option::Some(sc) => {
                let items = self.read_items(sprite, sc);
                match resolve_index(index, items.len()) {
                    Option::Some(i) => clone_value(&items[i]),
                    Option::None => Value::Text(String::new()),
                }
            },
            Option::None => Value::Text(String::new()),
        }
    }

    /// The length of a list; one neither scope owns has length zero.
    pub fn length_of_list(&self, sprite: Option<usize>, id: &String) -> (r: usize)
        requires
            sprite matches Option::Some(s) ==> s < self.sprites@.len(),
        ensures
            match spec_list_scope(*self, opt_int(sprite), id@) {
                Option::Some(sc) => r == spec_items_at(*self, opt_int(sprite), sc).len(),
                Option::None => r == 0,
            },
    {
        match self.list_scope(sprite, id) {
            Option::Some(sc) => {
                if sc.0 {
                    let s = match sprite {
                        Option::Some(s) => s,
                        Option::None => 0,
                    };
                    self.sprites[s].lists[sc.1].2.len()
                } else {
                    self.lists[sc.1].2.len()
                }
            },
            Option::None => 0,
        }
    }
}

} // verus!

verus! {

proof fn lemma_find_equal(items: Seq<Value>, item: Value)
    ensures
        match spec_find_equal(items, item) {
            Option::Some(i) => 0 <= i < items.len() && spec_compare(items[i], item) == Cmp::Equal
                && (forall|j: int| 0 <= j < i ==> spec_compare(#[trigger] items[j], item) != Cmp::Equal),
            Option::None => forall|j: int|
                0 <= j < items.len() ==> spec_compare(#[trigger] items[j], item) != Cmp::Equal,
        },
    decreases items.len(),
{
    if items.len() > 0 && spec_compare(items[0], item) != Cmp::Equal {
        lemma_find_equal(items.drop_first(), item);
        let t = items.drop_first();
        match spec_find_equal(t, item) {
            Option::Some(i) => {
                assert(items[i + 1] == t[i]);
                assert forall|j: int| 0 <= j < i + 1 implies spec_compare(
                    #[trigger] items[j],
                    item,
                ) != Cmp::Equal by {
                    if j > 0 {
                        assert(t[j - 1] == items[j]);
                    }
                }
            },
            Option::None => {
                assert forall|j: int| 0 <= j < items.len() implies spec_compare(
                    #[trigger] items[j],
                    item,
                ) != Cmp::Equal by {
                    if j > 0 {
                        assert(t[j - 1] == items[j]);
                    }
                }
            },
        }
    }
}

fn find_equal_ex(items: &Vec<Value>, item: &Value) -> (r: Option<usize>)
    requires
        wf_items(items@),
        wf_value(*item),
    ensures
        match r {
            Option::Some(i) => spec_find_equal(items@, *item) == Option::Some(i as int) && i
                < items@.len(),
            Option::None => spec_find_equal(items@, *item) is None,
        },
{
    proof {
        lemma_find_equal(items@, *item);
    }
    let mut k: usize = 0;
    while k < items.len()
        invariant
            k <= items@.len(),
            wf_items(items@),
            wf_value(*item),
            forall|j: int| 0 <= j < k ==> spec_compare(#[trigger] items@[j], *item) != Cmp::Equal,
        decreases items@.len() - k,
    {
        if crate::value::equals(&items[k], item) {
            proof {
                lemma_find_equal(items@, *item);
                match spec_find_equal(items@, *item) {
                    Option::Some(i) => {
                        if i < k {
                            assert(spec_compare(items@[i], *item) != Cmp::Equal);
                        } else if i > k {
                            assert(spec_compare(items@[k as int], *item) != Cmp::Equal);
                        }
                    },
                    Option::None => {
                        assert(spec_compare(items@[k as int], *item) != Cmp::Equal);
                    },
                }
            }
            return Option::Some(k);
        }
        k = k + 1;
    }
    proof {
        lemma_find_equal(items@, *item);
        match spec_find_equal(items@, *item) {
            Option::Some(i) => {
                assert(spec_compare(items@[i], *item) != Cmp::Equal);
            },
            Option::None => {},
        }
    }
    Option::None
}

impl Stage {
    /// The one-based position of the first item equal to the value
    /// under the total order, or zero where the list holds none (or
    /// neither scope owns it).
    pub fn get_item_num_in_list(&self, sprite: Option<usize>, item: &Value, id: &String) -> (r:
        usize)
        requires
            sprite matches Option::Some(s) ==> s < self.sprites@.len(),
            wf_value(*item),
            wf_stage(*self),
        ensures
            match spec_list_scope(*self, opt_int(sprite), id@) {
                Option::Some(sc) => {
                    let items = spec_items_at(*self, opt_int(sprite), sc);
                    match spec_find_equal(items, *item) {
                        Option::Some(i) => r == i + 1,
                        Option::None => r == 0,
                    }
                },
                Option::None => r == 0,
            },
    {
        match self.list_scope(sprite, id) {
            Option::Some(sc) => {
                let items = self.read_items(sprite, sc);
                match find_equal_ex(&items, item) {
                    Option::Some(i) => i + 1,
                    Option::None => 0,
                }
            },
            Option::None => 0,
        }
    }

    /// Whether the list holds an item equal to the value under the
    /// total order.
    pub fn list_contains_item(&self, sprite: Option<usize>, id: &String, item: &Value) -> (r: bool)
        requires
            sprite matches Option::Some(s) ==> s < self.sprites@.len(),
            wf_value(*item),
            wf_stage(*self),
        ensures
            match spec_list_scope(*self, opt_int(sprite), id@) {
                Option::Some(sc) => r == (spec_find_equal(
                    spec_items_at(*self, opt_int(sprite), sc),
                    *item,
                ) is Some),
                Option::None => !r,
            },
    {
        match self.list_scope(sprite, id) {
            Option::Some(sc) => {
                let items = self.read_items(sprite, sc);
                match find_equal_ex(&items, item) {
                    Option::Some(_) => true,
                    Option::None => false,
                }
            },
            Option::None => false,
        }
    }
}

} // verus!

verus! {

// ---------------------------------------------------------------------
// Cloning
// ---------------------------------------------------------------------

/// The sprite list stands strictly sorted by layer, so layers are a
/// strict total order with no duplicates.
pub open spec fn layers_sorted(sprites: Seq<Sprite>) -> bool {
    forall|i: int, j: int| 0 <= i < j < sprites.len() ==> sprites[i].layer < sprites[j].layer
}

/// A sprite with its layer raised by one where it lies above the
/// source layer, and untouched otherwise.
pub open spec fn spec_shift(s: Sprite, source_layer: u64) -> Sprite {
    if s.layer > source_layer {
        Sprite { layer: (s.layer + 1) as u64, ..s }
    } else {
        s
    }
}

/// A clone of a source sprite: a fresh identity, the name suffixed for
/// disambiguation, the layer directly above the source's, the clone
/// flag set, and every piece of state deep-copied.
pub open spec fn clone_of(src: Sprite, c: Sprite, nid: u64) -> bool {
    &&& c.name@ == src.name@ + "_clone"@
    &&& c.id == nid
    &&& c.x == src.x
    &&& c.y == src.y
    &&& c.size == src.size
    &&& c.direction == src.direction
    &&& c.volume == src.volume
    &&& c.visible == src.visible
    &&& c.draggable == src.draggable
    &&& c.rotation_style == src.rotation_style
    &&& c.layer == src.layer + 1
    &&& c.is_clone
    &&& !c.pending_delete
    &&& c.costume == src.costume
    &&& c.costumes@ == src.costumes@
    &&& c.sounds@ == src.sounds@
    &&& c.vars@ == src.vars@
    &&& lists_equiv(c.lists@, src.lists@)
    &&& c.effects@ == src.effects@
}

/// Two list tables holding the same entries: ids, names and items
/// alike (the item vectors compared by their contents).
pub open spec fn lists_equiv(a: Seq<(String, String, Vec<Value>)>, b: Seq<(String, String, Vec<Value>)>) -> bool {
    &&& a.len() == b.len()
    &&& forall|k: int| 0 <= k < a.len() ==> (#[trigger] a[k]).0 == b[k].0 && a[k].1 == b[k].1
        && a[k].2@ == b[k].2@
}

fn clone_strings(v: &Vec<String>) -> (r: Vec<String>)
    ensures
        r@ == v@,
{
    let mut out: Vec<String> = Vec::new();
    let mut i: usize = 0;
    while i < v.len()
        invariant
            i <= v@.len(),
            out@ == v@.take(i as int),
        decreases v@.len() - i,
    {
        out.push(v[i].clone());
        proof {
            assert(v@.take(i + 1 as int) =~= v@.take(i as int).push(v@[i as int]));
        }
        i = i + 1;
    }
    proof {
        assert(v@.take(v@.len() as int) =~= v@);
    }
    out
}

fn clone_named_nums(v: &Vec<(String, i64)>) -> (r: Vec<(String, i64)>)
    ensures
        r@ == v@,
{
    let mut out: Vec<(String, i64)> = Vec::new();
    let mut i: usize = 0;
    while i < v.len()
        invariant
            i <= v@.len(),
            out@ == v@.take(i as int),
        decreases v@.len() - i,
    {
        out.push((v[i].0.clone(), v[i].1));
        proof {
            assert(v@.take(i + 1 as int) =~= v@.take(i as int).push(v@[i as int]));
        }
        i = i + 1;
    }
    proof {
        assert(v@.take(v@.len() as int) =~= v@);
    }
    out
}

fn clone_vars(v: &VarTable) -> (r: VarTable)
    ensures
        r@ == v@,
{
    let mut out: VarTable = Vec::new();
    let mut i: usize = 0;
    while i < v.len()
        invariant
            i <= v@.len(),
            out@ == v@.take(i as int),
        decreases v@.len() - i,
    {
        out.push((v[i].0.clone(), v[i].1.clone(), clone_value(&v[i].2)));
        proof {
            assert(v@.take(i + 1 as int) =~= v@.take(i as int).push(v@[i as int]));
        }
        i = i + 1;
    }
    proof {
        assert(v@.take(v@.len() as int) =~= v@);
    }
    out
}

fn clone_lists(v: &ListTable) -> (r: ListTable)
    ensures
        lists_equiv(r@, v@),
{
    let mut out: ListTable = Vec::new();
    let mut i: usize = 0;
    while i < v.len()
        invariant
            i <= v@.len(),
            out@.len() == i,
            forall|k: int| 0 <= k < i ==> (#[trigger] out@[k]).0 == v@[k].0 && out@[k].1 == v@[k].1
                && out@[k].2@ == v@[k].2@,
        decreases v@.len() - i,
    {
        let items = clone_values(&v[i].2);
        out.push((v[i].0.clone(), v[i].1.clone(), items));
        i = i + 1;
    }
    out
}

} // verus!

verus! {

fn clone_sprite_deep(src: &Sprite, nid: u64) -> (c: Sprite)
    requires
        src.layer < u64::MAX,
    ensures
        clone_of(*src, c, nid),
{
    Sprite {
        name: src.name.clone().concat("_clone"),
        id: nid,
        x: src.x,
        y: src.y,
        size: src.size,
        direction: src.direction,
        volume: src.volume,
        visible: src.visible,
        draggable: src.draggable,
        rotation_style: src.rotation_style,
        layer: src.layer + 1,
        is_clone: true,
        pending_delete: false,
        costume: src.costume,
        costumes: clone_strings(&src.costumes),
        sounds: clone_named_nums(&src.sounds),
        vars: clone_vars(&src.vars),
        lists: clone_lists(&src.lists),
        effects: clone_named_nums(&src.effects),
    }
}

impl Stage {
    /// Clone the sprite at the given position: every sprite lying
    /// above the source's layer moves up one layer, and the clone —
    /// a deep copy under a fresh identity and a suffixed name — is
    /// inserted directly above its source, at the source's layer plus
    /// one. Where an identity or a layer could not grow any more,
    /// nothing changes and nothing is returned.
    pub fn create_clone(&mut self, src: usize) -> (r: Option<usize>)
        requires
            src < old(self).sprites@.len(),
        ensures
            (r is None) <==> (old(self).next_id == u64::MAX || exists|j: int|
                0 <= j < old(self).sprites@.len() && (#[trigger] old(
                    self,
                ).sprites@[j]).layer == u64::MAX),
            layers_sorted(old(self).sprites@) && r is Some ==> layers_sorted(
                final(self).sprites@,
            ),
            match r {
                Option::Some(c) => {
                    let pre = old(self).sprites@;
                    let post = final(self).sprites@;
                    let lay = pre[src as int].layer;
                    &&& c == src + 1
                    &&& old(self).next_id < u64::MAX
                    &&& stage_frame_but_id(*old(self), *final(self))
                    &&& final(self).vars == old(self).vars
                    &&& final(self).lists == old(self).lists
                    &&& final(self).next_id == old(self).next_id + 1
                    &&& post.len() == pre.len() + 1
                    &&& (forall|k: int| 0 <= k <= src ==> post[k] == spec_shift(#[trigger] pre[k], lay))
                    &&& clone_of(pre[src as int], post[src as int + 1], old(self).next_id)
                    &&& (forall|k: int|
                        src + 2 <= k < post.len() ==> post[k] == spec_shift(
                            #[trigger] pre[k - 1],
                            lay,
                        ))
                },
                Option::None => *final(self) == *old(self),
            },
            wf_stage(*old(self)) ==> wf_stage(*final(self)),
    {
        if self.next_id == u64::MAX {
            return Option::None;
        }
        // no layer may pass the top
        let mut k: usize = 0;
        while k < self.sprites.len()
            invariant
                k <= self.sprites@.len(),
                *self == *old(self),
                forall|j: int| 0 <= j < k ==> (#[trigger] self.sprites@[j]).layer < u64::MAX,
            decreases self.sprites@.len() - k,
        {
            if self.sprites[k].layer == u64::MAX {
                return Option::None;
            }
            k = k + 1;
        }
        let lay = self.sprites[src].layer;
        let nid = self.next_id;
        let c = clone_sprite_deep(&self.sprites[src], nid);
        // raise every layer above the source's
        let mut i: usize = 0;
        let ghost pre = self.sprites@;
        while i < self.sprites.len()
            invariant
                i <= self.sprites@.len(),
                self.sprites@.len() == pre.len(),
                src < pre.len(),
                lay == pre[src as int].layer,
                forall|j: int| 0 <= j < pre.len() ==> (#[trigger] pre[j]).layer < u64::MAX,
                forall|j: int| 0 <= j < i ==> self.sprites@[j] == spec_shift(
                    #[trigger] pre[j],
                    lay,
                ),
                forall|j: int| i <= j < pre.len() ==> self.sprites@[j] == #[trigger] pre[j],
                self.vars == old(self).vars,
                self.lists == old(self).lists,
                stage_frame_but_id(*old(self), *self),
                self.next_id == old(self).next_id,
            decreases self.sprites@.len() - i,
        {
            proof {
                assert(self.sprites@[i as int] == pre[i as int]);
            }
            let l = self.sprites[i].layer;
            if l > lay {
                let sp = sprite_mut(&mut self.sprites, i);
                sp.layer = l + 1;
            }
            i = i + 1;
        }
        self.sprites.insert(src + 1, c);
        self.next_id = nid + 1;
        proof {
            assert(old(self).sprites@[src as int].layer == lay);
            assert(spec_shift(old(self).sprites@[src as int], lay) == old(
                self,
            ).sprites@[src as int]);
            if layers_sorted(old(self).sprites@) {
                let preseq = old(self).sprites@;
                let post = self.sprites@;
                assert forall|k: int|
                    0 <= k <= src implies (#[trigger] post[k]).layer == spec_shift(
                    preseq[k],
                    preseq[src as int].layer,
                ).layer by {
                    assert(post[k] == spec_shift(preseq[k], lay));
                }
                assert forall|k: int|
                    src + 2 <= k < post.len() implies (#[trigger] post[k]).layer == spec_shift(
                    preseq[k - 1],
                    preseq[src as int].layer,
                ).layer by {
                    assert(post[k] == spec_shift(preseq[k - 1], lay));
                }
                lemma_clone_layering(preseq, post, src as int);
            }
            if wf_stage(*old(self)) {
                assert forall|kk: int|
                    0 <= kk < self.sprites@.len() implies wf_sprite_data(
                    #[trigger] self.sprites@[kk],
                ) by {
                    if kk <= src {
                        assert(wf_sprite_data(old(self).sprites@[kk]));
                        assert(self.sprites@[kk].vars == old(self).sprites@[kk].vars);
                        assert(self.sprites@[kk].lists == old(self).sprites@[kk].lists);
                    } else if kk == src + 1 {
                        assert(wf_sprite_data(old(self).sprites@[src as int]));
                        assert(self.sprites@[kk].vars@ == old(self).sprites@[src as int].vars@);
                        assert(lists_equiv(
                            self.sprites@[kk].lists@,
                            old(self).sprites@[src as int].lists@,
                        ));
                        assert forall|ii: int|
                            0 <= ii < self.sprites@[kk].lists@.len() implies wf_items(
                            (#[trigger] self.sprites@[kk].lists@[ii]).2@,
                        ) by {
                            assert(self.sprites@[kk].lists@[ii].2@ == old(
                                self,
                            ).sprites@[src as int].lists@[ii].2@);
                            assert(wf_items(old(self).sprites@[src as int].lists@[ii].2@));
                        }
                    } else {
                        assert(wf_sprite_data(old(self).sprites@[kk - 1]));
                        assert(self.sprites@[kk].vars == old(self).sprites@[kk - 1].vars);
                        assert(self.sprites@[kk].lists == old(self).sprites@[kk - 1].lists);
                    }
                }
            }
        }
        Option::Some(src + 1)
    }

    /// Flag a clone for removal at the scheduler's next delete sweep;
    /// a sprite that is no clone stands as it is.
    pub fn delete_this_clone(&mut self, s: usize)
        requires
            s < old(self).sprites@.len(),
        ensures
            old(self).sprites@[s as int].is_clone ==> final(self).sprites@.len() == old(
                self,
            ).sprites@.len() && final(self).sprites@[s as int] == (Sprite {
                pending_delete: true,
                ..old(self).sprites@[s as int]
            }) && (forall|k: int|
                0 <= k < old(self).sprites@.len() && k != s ==> final(self).sprites@[k]
                    == #[trigger] old(self).sprites@[k]),
            !old(self).sprites@[s as int].is_clone ==> *final(self) == *old(self),
            stage_frame(*old(self), *final(self)),
            final(self).vars == old(self).vars,
            final(self).lists == old(self).lists,
            wf_stage(*old(self)) ==> wf_stage(*final(self)),
    {
        if !self.sprites[s].is_clone {
            return ;
        }
        let sp = sprite_mut(&mut self.sprites, s);
        sp.pending_delete = true;
        proof {
            if wf_stage(*old(self)) {
                assert forall|k: int|
                    0 <= k < self.sprites@.len() implies wf_sprite_data(
                    #[trigger] self.sprites@[k],
                ) by {
                    assert(wf_sprite_data(old(self).sprites@[k]));
                }
            }
        }
    }
}

/// Two stages equal in everything but their data tables, sprites and
/// identity counter.
pub open spec fn stage_frame_but_id(a: Stage, b: Stage) -> bool {
    &&& a.tempo == b.tempo
    &&& a.video_state == b.video_state
    &&& a.video_transparency == b.video_transparency
    &&& a.tts_language == b.tts_language
    &&& a.volume == b.volume
    &&& a.costume == b.costume
    &&& a.costumes == b.costumes
    &&& a.sounds == b.sounds
    &&& a.answer == b.answer
    &&& a.keys == b.keys
    &&& a.mouse_x == b.mouse_x
    &&& a.mouse_y == b.mouse_y
    &&& a.mouse_down == b.mouse_down
    &&& a.stamps == b.stamps
}

/// Clone layering: cloning the sprite at `src` of a list strictly
/// sorted by layer leaves a list strictly sorted by layer — so the
/// layers stay a strict total order with no duplicates — with the
/// clone directly above its source at the source's layer plus one,
/// sprites below the source untouched and sprites above it each
/// raised by exactly one.
proof fn lemma_sorted_shifted(pre: Seq<Sprite>, post: Seq<Sprite>, src: int, lay: int)
    requires
        layers_sorted(pre),
        0 <= src < pre.len(),
        post.len() == pre.len() + 1,
        lay == pre[src].layer,
        forall|k: int| 0 <= k <= src ==> (#[trigger] post[k]).layer == pre[k].layer,
        post[src + 1].layer == lay + 1,
        forall|k: int| src + 2 <= k < post.len() ==> (#[trigger] post[k]).layer == pre[k - 1].layer
            + 1,
    ensures
        layers_sorted(post),
{
    assert forall|i: int, j: int| 0 <= i < j < post.len() implies post[i].layer
        < post[j].layer by {
        if j <= src {
            assert(pre[i].layer < pre[j].layer);
        } else if j == src + 1 {
            if i <= src {
                assert(post[i].layer == pre[i].layer);
                if i < src {
                    assert(pre[i].layer < pre[src].layer);
                }
            }
        } else {
            assert(post[j].layer == pre[j - 1].layer + 1);
            assert(src <= j - 1);
            if i <= src {
                assert(post[i].layer == pre[i].layer);
                if i < src {
                    assert(pre[i].layer < pre[src].layer);
                }
                if src < j - 1 {
                    assert(pre[src].layer < pre[j - 1].layer);
                }
            } else if i == src + 1 {
                assert(post[i].layer == lay + 1);
                assert(src < j - 1);
                assert(pre[src].layer < pre[j - 1].layer);
            } else {
                assert(post[i].layer == pre[i - 1].layer + 1);
                assert(pre[i - 1].layer < pre[j - 1].layer);
            }
        }
    }
}

/// Clone layering: cloning the sprite at `src` of a list strictly
/// sorted by layer leaves a list strictly sorted by layer — so the
/// layers stay a strict total order with no duplicates — with the
/// clone directly above its source at the source's layer plus one,
/// sprites below the source untouched and sprites above it each
/// raised by exactly one.
#[verifier::rlimit(100)]
#[verifier::spinoff_prover]
pub proof fn lemma_clone_layering(pre: Seq<Sprite>, post: Seq<Sprite>, src: int)
    requires
        layers_sorted(pre),
        0 <= src < pre.len(),
        post.len() == pre.len() + 1,
        forall|j: int| 0 <= j < pre.len() ==> (#[trigger] pre[j]).layer < u64::MAX,
        forall|k: int| 0 <= k <= src ==> (#[trigger] post[k]).layer == spec_shift(
            pre[k],
            pre[src].layer,
        ).layer,
        post[src + 1].layer == pre[src].layer + 1,
        forall|k: int|
            src + 2 <= k < post.len() ==> (#[trigger] post[k]).layer == spec_shift(
                pre[k - 1],
                pre[src].layer,
            ).layer,
    ensures
        layers_sorted(post),
        post[src + 1].layer == pre[src].layer + 1,
        forall|k: int| 0 <= k <= src ==> (#[trigger] post[k]).layer == pre[k].layer,
        forall|k: int|
            src + 2 <= k < post.len() ==> (#[trigger] post[k]).layer == pre[k - 1].layer + 1,
{
    let lay = pre[src].layer;
    assert forall|k: int| 0 <= k <= src implies (#[trigger] post[k]).layer == pre[k].layer by {
        if k < src {
            assert(pre[k].layer < pre[src].layer);
        }
        assert(pre[k].layer <= lay);
        assert(spec_shift(pre[k], lay).layer == pre[k].layer);
    }
    assert forall|k: int| src + 2 <= k < post.len() implies (#[trigger] post[k]).layer == pre[k
        - 1].layer + 1 by {
        assert(pre[src].layer < pre[k - 1].layer);
        assert(spec_shift(pre[k - 1], lay).layer == pre[k - 1].layer + 1);
    }
    lemma_sorted_shifted(pre, post, src, lay as int);
}

} // verus!

verus! {

impl Stage {
    /// Set a sprite's horizontal position, in fixed-point units.
    pub fn set_x(&mut self, s: usize, v: i64)
        requires
            s < old(self).sprites@.len(),
        ensures
            final(self).sprites@ == old(self).sprites@.update(
                s as int,
                (Sprite { x: v, ..old(self).sprites@[s as int] }),
            ),
            stage_frame(*old(self), *final(self)),
            final(self).vars == old(self).vars,
            final(self).lists == old(self).lists,
    {
        let sp = sprite_mut(&mut self.sprites, s);
        sp.x = v;
    }

    /// Set a sprite's vertical position, in fixed-point units.
    pub fn set_y(&mut self, s: usize, v: i64)
        requires
            s < old(self).sprites@.len(),
        ensures
            final(self).sprites@ == old(self).sprites@.update(
                s as int,
                (Sprite { y: v, ..old(self).sprites@[s as int] }),
            ),
            stage_frame(*old(self), *final(self)),
            final(self).vars == old(self).vars,
            final(self).lists == old(self).lists,
    {
        let sp = sprite_mut(&mut self.sprites, s);
        sp.y = v;
    }

    /// Move a sprite horizontally by a delta, clamped into range.
    pub fn change_x_by(&mut self, s: usize, d: i64)
        requires
            s < old(self).sprites@.len(),
        ensures
            final(self).sprites@ == old(self).sprites@.update(
                s as int,
                (Sprite {
                    x: spec_clamp(old(self).sprites@[s as int].x + d) as i64,
                    ..old(self).sprites@[s as int]
                }),
            ),
            stage_frame(*old(self), *final(self)),
            final(self).vars == old(self).vars,
            final(self).lists == old(self).lists,
    {
        let sp = sprite_mut(&mut self.sprites, s);
        let wide: i128 = sp.x as i128 + d as i128;
        sp.x = if wide < -MAX_SCALED as i128 {
            -MAX_SCALED
        } else if wide > MAX_SCALED as i128 {
            MAX_SCALED
        } else {
            wide as i64
        };
    }

    /// Move a sprite vertically by a delta, clamped into range.
    pub fn change_y_by(&mut self, s: usize, d: i64)
        requires
            s < old(self).sprites@.len(),
        ensures
            final(self).sprites@ == old(self).sprites@.update(
                s as int,
                (Sprite {
                    y: spec_clamp(old(self).sprites@[s as int].y + d) as i64,
                    ..old(self).sprites@[s as int]
                }),
            ),
            stage_frame(*old(self), *final(self)),
            final(self).vars == old(self).vars,
            final(self).lists == old(self).lists,
    {
        let sp = sprite_mut(&mut self.sprites, s);
        let wide: i128 = sp.y as i128 + d as i128;
        sp.y = if wide < -MAX_SCALED as i128 {
            -MAX_SCALED
        } else if wide > MAX_SCALED as i128 {
            MAX_SCALED
        } else {
            wide as i64
        };
    }

    /// Point a sprite in a direction, in fixed-point degrees clockwise
    /// from north.
    pub fn point_in_direction(&mut self, s: usize, v: i64)
        requires
            s < old(self).sprites@.len(),
        ensures
            final(self).sprites@ == old(self).sprites@.update(
                s as int,
                (Sprite { direction: v, ..old(self).sprites@[s as int] }),
            ),
            stage_frame(*old(self), *final(self)),
            final(self).vars == old(self).vars,
            final(self).lists == old(self).lists,
    {
        let sp = sprite_mut(&mut self.sprites, s);
        sp.direction = v;
    }

    /// Set a sprite's rotation style.
    pub fn set_rotation_style(&mut self, s: usize, v: RotationStyle)
        requires
            s < old(self).sprites@.len(),
        ensures
            final(self).sprites@ == old(self).sprites@.update(
                s as int,
                (Sprite { rotation_style: v, ..old(self).sprites@[s as int] }),
            ),
            stage_frame(*old(self), *final(self)),
            final(self).vars == old(self).vars,
            final(self).lists == old(self).lists,
    {
        let sp = sprite_mut(&mut self.sprites, s);
        sp.rotation_style = v;
    }

    /// Set a sprite's size, in fixed-point percent.
    pub fn set_size(&mut self, s: usize, v: i64)
        requires
            s < old(self).sprites@.len(),
        ensures
            final(self).sprites@ == old(self).sprites@.update(
                s as int,
                (Sprite { size: v, ..old(self).sprites@[s as int] }),
            ),
            stage_frame(*old(self), *final(self)),
            final(self).vars == old(self).vars,
            final(self).lists == old(self).lists,
    {
        let sp = sprite_mut(&mut self.sprites, s);
        sp.size = v;
    }

    /// Show or hide a sprite.
    pub fn set_visible(&mut self, s: usize, v: bool)
        requires
            s < old(self).sprites@.len(),
        ensures
            final(self).sprites@ == old(self).sprites@.update(
                s as int,
                (Sprite { visible: v, ..old(self).sprites@[s as int] }),
            ),
            stage_frame(*old(self), *final(self)),
            final(self).vars == old(self).vars,
            final(self).lists == old(self).lists,
    {
        let sp = sprite_mut(&mut self.sprites, s);
        sp.visible = v;
    }

    /// Step a sprite to its next costume, wrapping to the front at or
    /// beyond the end; without costumes nothing changes.
    pub fn next_costume(&mut self, s: usize)
        requires
            s < old(self).sprites@.len(),
        ensures
            ({
                let sp = old(self).sprites@[s as int];
                if sp.costumes@.len() == 0 {
                    *final(self) == *old(self)
                } else {
                    final(self).sprites@ == old(self).sprites@.update(
                        s as int,
                        (Sprite {
                            costume: (if sp.costume + 1 < sp.costumes@.len() {
                                sp.costume + 1
                            } else {
                                0
                            }) as usize,
                            ..sp
                        }),
                    )
                }
            }),
            stage_frame(*old(self), *final(self)),
            final(self).vars == old(self).vars,
            final(self).lists == old(self).lists,
    {
        let n = self.sprites[s].costumes.len();
        if n > 0 {
            let cur = self.sprites[s].costume;
            let nxt = if cur < n - 1 {
                cur + 1
            } else {
                0
            };
            let sp = sprite_mut(&mut self.sprites, s);
            sp.costume = nxt;
        }
    }

    /// The duration of a sprite's or the stage's sound, by name: the
    /// caller turns it into a wait. The sprite's sounds are searched
    /// first, then the stage's.
    pub fn sound_duration(&self, sprite: Option<usize>, name: &String) -> (r: Option<i64>)
        requires
            sprite matches Option::Some(s) ==> s < self.sprites@.len(),
        ensures
            r == (match sprite {
                Option::Some(s) => match spec_sound_idx(self.sprites@[s as int].sounds@, name@) {
                    Option::Some(i) => Option::Some(self.sprites@[s as int].sounds@[i].1),
                    Option::None => match spec_sound_idx(self.sounds@, name@) {
                        Option::Some(i) => Option::Some(self.sounds@[i].1),
                        Option::None => Option::None::<i64>,
                    },
                },
                Option::None => match spec_sound_idx(self.sounds@, name@) {
                    Option::Some(i) => Option::Some(self.sounds@[i].1),
                    Option::None => Option::None::<i64>,
                },
            }),
    {
        match sprite {
            Option::Some(s) => {
                match sound_idx(&self.sprites[s].sounds, name) {
                    Option::Some(i) => Option::Some(self.sprites[s].sounds[i].1),
                    Option::None => match sound_idx(&self.sounds, name) {
                        Option::Some(i) => Option::Some(self.sounds[i].1),
                        Option::None => Option::None,
                    },
                }
            },
            Option::None => match sound_idx(&self.sounds, name) {
                Option::Some(i) => Option::Some(self.sounds[i].1),
                Option::None => Option::None,
            },
        }
    }

    /// Whether the key snapshot holds the named key.
    pub fn key_pressed(&self, key: &String) -> (r: bool)
        ensures
            r == (exists|i: int| 0 <= i < self.keys@.len() && (#[trigger] self.keys@[i])@ == key@),
    {
        let mut i: usize = 0;
        while i < self.keys.len()
            invariant
                i <= self.keys@.len(),
                forall|j: int| 0 <= j < i ==> (#[trigger] self.keys@[j])@ != key@,
            decreases self.keys@.len() - i,
        {
            if self.keys[i] == *key {
                return true;
            }
            i = i + 1;
        }
        false
    }

    /// Record the answer the ask operation read.
    pub fn set_answer(&mut self, v: Value)
        requires
            wf_value(v),
        ensures
            *final(self) == (Stage { answer: v, ..*old(self) }),
            wf_stage(*old(self)) ==> wf_stage(*final(self)),
    {
        self.answer = v;
    }

    /// Stamp a sprite's image at its position onto the pen layer.
    pub fn stamp(&mut self, s: usize)
        requires
            s < old(self).sprites@.len(),
        ensures
            final(self).stamps@ == old(self).stamps@.push(
                (
                    old(self).sprites@[s as int].x,
                    old(self).sprites@[s as int].y,
                    old(self).sprites@[s as int].costume,
                ),
            ),
            *final(self) == (Stage { stamps: final(self).stamps, ..*old(self) }),
    {
        let x = self.sprites[s].x;
        let y = self.sprites[s].y;
        let c = self.sprites[s].costume;
        self.stamps.push((x, y, c));
    }

    /// Clear the pen layer.
    pub fn clear_pen(&mut self)
        ensures
            final(self).stamps@.len() == 0,
            *final(self) == (Stage { stamps: final(self).stamps, ..*old(self) }),
    {
        self.stamps = Vec::new();
    }
}

/// The index of the first name equal to the given one.
pub open spec fn spec_name_idx(names: Seq<String>, name: Seq<char>) -> Option<int>
    decreases names.len(),
{
    if names.len() == 0 {
        Option::None
    } else if names[0]@ == name {
        Option::Some(0int)
    } else {
        match spec_name_idx(names.drop_first(), name) {
            Option::Some(i) => Option::Some(i + 1),
            Option::None => Option::None,
        }
    }
}

fn name_idx(names: &Vec<String>, name: &String) -> (r: Option<usize>)
    ensures
        match r {
            Option::Some(i) => i < names@.len() && spec_name_idx(names@, name@) == Option::Some(
                i as int,
            ),
            Option::None => spec_name_idx(names@, name@) is None,
        },
{
    proof {
        assert(names@.skip(0) =~= names@);
    }
    name_idx_from(names, name, 0)
}

fn name_idx_from(names: &Vec<String>, name: &String, i: usize) -> (r: Option<usize>)
    requires
        i <= names@.len(),
    ensures
        match r {
            Option::Some(k) => i <= k < names@.len() && spec_name_idx(names@.skip(i as int), name@)
                == Option::Some(k - i as int),
            Option::None => spec_name_idx(names@.skip(i as int), name@) is None,
        },
    decreases names@.len() - i,
{
    if i == names.len() {
        proof {
            assert(names@.skip(i as int) =~= Seq::<String>::empty());
        }
        Option::None
    } else {
        proof {
            assert(names@.skip(i as int)[0] == names@[i as int]);
            assert(names@.skip(i as int).drop_first() =~= names@.skip(i + 1 as int));
        }
        if names[i] == *name {
            Option::Some(i)
        } else {
            name_idx_from(names, name, i + 1)
        }
    }
}

/// The index of the first sound with the given name.
pub open spec fn spec_sound_idx(sounds: Seq<(String, i64)>, name: Seq<char>) -> Option<int>
    decreases sounds.len(),
{
    if sounds.len() == 0 {
        Option::None
    } else if sounds[0].0@ == name {
        Option::Some(0int)
    } else {
        match spec_sound_idx(sounds.drop_first(), name) {
            Option::Some(i) => Option::Some(i + 1),
            Option::None => Option::None,
        }
    }
}

fn sound_idx(sounds: &Vec<(String, i64)>, name: &String) -> (r: Option<usize>)
    ensures
        match r {
            Option::Some(i) => i < sounds@.len() && spec_sound_idx(sounds@, name@) == Option::Some(
                i as int,
            ),
            Option::None => spec_sound_idx(sounds@, name@) is None,
        },
{
    proof {
        assert(sounds@.skip(0) =~= sounds@);
    }
    sound_idx_from(sounds, name, 0)
}

fn sound_idx_from(sounds: &Vec<(String, i64)>, name: &String, i: usize) -> (r: Option<usize>)
    requires
        i <= sounds@.len(),
    ensures
        match r {
            Option::Some(k) => i <= k < sounds@.len() && spec_sound_idx(
                sounds@.skip(i as int),
                name@,
            ) == Option::Some(k - i as int),
            Option::None => spec_sound_idx(sounds@.skip(i as int), name@) is None,
        },
    decreases sounds@.len() - i,
{
    if i == sounds.len() {
        proof {
            assert(sounds@.skip(i as int) =~= Seq::<(String, i64)>::empty());
        }
        Option::None
    } else {
        proof {
            assert(sounds@.skip(i as int)[0] == sounds@[i as int]);
            assert(sounds@.skip(i as int).drop_first() =~= sounds@.skip(i + 1 as int));
        }
        if sounds[i].0 == *name {
            Option::Some(i)
        } else {
            sound_idx_from(sounds, name, i + 1)
        }
    }
}

} // verus!

verus! {

impl Stage {
    /// Bring a sprite to the front of the draw order: every sprite
    /// that lay above it drops one layer, and it takes the old top
    /// layer, moving to the end of the (layer-sorted) sprite list.
    pub fn go_to_front(&mut self, s: usize)
        requires
            s < old(self).sprites@.len(),
            layers_sorted(old(self).sprites@),
        ensures
            layers_sorted(final(self).sprites@),
            final(self).sprites@.len() == old(self).sprites@.len(),
            stage_frame(*old(self), *final(self)),
            final(self).vars == old(self).vars,
            final(self).lists == old(self).lists,
            ({
                let pre = old(self).sprites@;
                let post = final(self).sprites@;
                let top = pre.last().layer;
                &&& (forall|k: int| 0 <= k < s ==> post[k] == #[trigger] pre[k])
                &&& (forall|k: int|
                    s <= k < pre.len() - 1 ==> post[k] == (Sprite {
                        layer: (pre[k + 1].layer - 1) as u64,
                        ..pre[k + 1]
                    }))
                &&& post.last() == (Sprite { layer: top, ..pre[s as int] })
            }),
    {
        let n = self.sprites.len();
        if s == n - 1 {
            // already at the front
            proof {
                assert(final(self).sprites@.last() == (Sprite {
                    layer: old(self).sprites@.last().layer,
                    ..old(self).sprites@[s as int]
                }));
            }
            return ;
        }
        let top = self.sprites[n - 1].layer;
        let moving = self.sprites.remove(s);
        let ghost pre = old(self).sprites@;
        // drop every sprite that lay above by one layer
        let mut k: usize = s;
        while k < self.sprites.len()
            invariant
                s <= k <= self.sprites@.len(),
                self.sprites@.len() == pre.len() - 1,
                s < pre.len() - 1,
                layers_sorted(pre),
                forall|j: int| 0 <= j < s ==> #[trigger] self.sprites@[j] == pre[j],
                forall|j: int|
                    s <= j < k ==> #[trigger] self.sprites@[j] == (Sprite {
                        layer: (pre[j + 1].layer - 1) as u64,
                        ..pre[j + 1]
                    }),
                forall|j: int| k <= j < pre.len() - 1 ==> #[trigger] self.sprites@[j] == pre[j
                    + 1],
                self.vars == old(self).vars,
                self.lists == old(self).lists,
                stage_frame(*old(self), *self),
            decreases self.sprites@.len() - k,
        {
            proof {
                assert(self.sprites@[k as int] == pre[k + 1]);
                assert(pre[s as int].layer < pre[k + 1].layer);
            }
            let l = self.sprites[k].layer;
            let sp = sprite_mut(&mut self.sprites, k);
            sp.layer = l - 1;
            k = k + 1;
        }
        let mut moving = moving;
        moving.layer = top;
        self.sprites.push(moving);
        proof {
            let post = self.sprites@;
            assert(post.last() == (Sprite { layer: top, ..pre[s as int] }));
            assert forall|i: int, j: int| 0 <= i < j < post.len() implies post[i].layer
                < post[j].layer by {
                if j < post.len() - 1 {
                    if i < s && j < s {
                        assert(pre[i].layer < pre[j].layer);
                    } else if i < s {
                        assert(pre[i].layer < pre[s as int].layer);
                        assert(pre[s as int].layer < pre[j + 1].layer);
                    } else {
                        assert(pre[i + 1].layer < pre[j + 1].layer);
                    }
                } else {
                    // everything lies below the old top layer
                    if i < s {
                        assert(pre[i].layer < pre[pre.len() - 1].layer);
                    } else {
                        assert(pre[i + 1].layer <= pre[pre.len() - 1].layer);
                    }
                }
            }
        }
    }

    /// Send a sprite to the back of the draw order: every sprite that
    /// lay below it rises one layer, and it takes the old bottom
    /// layer, moving to the head of the (layer-sorted) sprite list.
    pub fn go_to_back(&mut self, s: usize)
        requires
            s < old(self).sprites@.len(),
            layers_sorted(old(self).sprites@),
        ensures
            layers_sorted(final(self).sprites@),
            final(self).sprites@.len() == old(self).sprites@.len(),
            stage_frame(*old(self), *final(self)),
            final(self).vars == old(self).vars,
            final(self).lists == old(self).lists,
            ({
                let pre = old(self).sprites@;
                let post = final(self).sprites@;
                let bottom = pre[0].layer;
                &&& post[0] == (Sprite { layer: bottom, ..pre[s as int] })
                &&& (forall|k: int|
                    1 <= k <= s ==> post[k] == (Sprite {
                        layer: (pre[k - 1].layer + 1) as u64,
                        ..pre[k - 1]
                    }))
                &&& (forall|k: int| s < k < pre.len() ==> post[k] == #[trigger] pre[k])
            }),
    {
        if s == 0 {
            // already at the back
            proof {
                assert(final(self).sprites@[0] == (Sprite {
                    layer: old(self).sprites@[0].layer,
                    ..old(self).sprites@[0]
                }));
            }
            return ;
        }
        let bottom = self.sprites[0].layer;
        let moving = self.sprites.remove(s);
        let ghost pre = old(self).sprites@;
        // raise every sprite that lay below by one layer
        let mut k: usize = 0;
        while k < s
            invariant
                k <= s,
                s < pre.len(),
                0 < s,
                self.sprites@.len() == pre.len() - 1,
                layers_sorted(pre),
                forall|j: int|
                    0 <= j < k ==> #[trigger] self.sprites@[j] == (Sprite {
                        layer: (pre[j].layer + 1) as u64,
                        ..pre[j]
                    }),
                forall|j: int| k <= j < s ==> #[trigger] self.sprites@[j] == pre[j],
                forall|j: int| s <= j < pre.len() - 1 ==> #[trigger] self.sprites@[j] == pre[j
                    + 1],
                self.vars == old(self).vars,
                self.lists == old(self).lists,
                stage_frame(*old(self), *self),
            decreases s - k,
        {
            proof {
                assert(self.sprites@[k as int] == pre[k as int]);
                assert(pre[k as int].layer < pre[s as int].layer);
            }
            let l = self.sprites[k].layer;
            let sp = sprite_mut(&mut self.sprites, k);
            sp.layer = l + 1;
            k = k + 1;
        }
        let mut moving = moving;
        moving.layer = bottom;
        self.sprites.insert(0, moving);
        proof {
            let post = self.sprites@;
            assert(post[0] == (Sprite { layer: bottom, ..pre[s as int] }));
            assert forall|i: int, j: int| 0 <= i < j < post.len() implies post[i].layer
                < post[j].layer by {
                if i > 0 {
                    if j <= s {
                        assert(pre[i - 1].layer < pre[j - 1].layer);
                    } else if i <= s {
                        assert(pre[i - 1].layer < pre[s as int].layer);
                        assert(pre[s as int].layer <= pre[j as int].layer);
                    } else {
                        assert(pre[i as int].layer < pre[j as int].layer);
                    }
                } else {
                    // everything lies above the old bottom layer
                    if j <= s {
                        assert(pre[0].layer <= pre[j - 1].layer);
                    } else {
                        assert(pre[0].layer < pre[j as int].layer);
                    }
                }
            }
        }
    }
}

} // verus!

verus! {

/// Volume is clamped into zero through one hundred percent, in
/// fixed-point units.
pub open spec fn spec_clamp_volume(n: int) -> int {
    if n < 0 {
        0
    } else if n > 1_000_000 {
        1_000_000int
    } else {
        n
    }
}

impl Stage {
    /// Turn a sprite clockwise by a delta, in fixed-point degrees,
    /// clamped into range.
    pub fn turn_right(&mut self, s: usize, d: i64)
        requires
            s < old(self).sprites@.len(),
        ensures
            final(self).sprites@ == old(self).sprites@.update(
                s as int,
                (Sprite {
                    direction: spec_clamp(old(self).sprites@[s as int].direction + d) as i64,
                    ..old(self).sprites@[s as int]
                }),
            ),
            stage_frame(*old(self), *final(self)),
            final(self).vars == old(self).vars,
            final(self).lists == old(self).lists,
    {
        let sp = sprite_mut(&mut self.sprites, s);
        let wide: i128 = sp.direction as i128 + d as i128;
        sp.direction = if wide < -MAX_SCALED as i128 {
            -MAX_SCALED
        } else if wide > MAX_SCALED as i128 {
            MAX_SCALED
        } else {
            wide as i64
        };
    }

    /// Turn a sprite counter-clockwise by a delta, in fixed-point
    /// degrees, clamped into range.
    pub fn turn_left(&mut self, s: usize, d: i64)
        requires
            s < old(self).sprites@.len(),
        ensures
            final(self).sprites@ == old(self).sprites@.update(
                s as int,
                (Sprite {
                    direction: spec_clamp(old(self).sprites@[s as int].direction - d) as i64,
                    ..old(self).sprites@[s as int]
                }),
            ),
            stage_frame(*old(self), *final(self)),
            final(self).vars == old(self).vars,
            final(self).lists == old(self).lists,
    {
        let sp = sprite_mut(&mut self.sprites, s);
        let wide: i128 = sp.direction as i128 - d as i128;
        sp.direction = if wide < -MAX_SCALED as i128 {
            -MAX_SCALED
        } else if wide > MAX_SCALED as i128 {
            MAX_SCALED
        } else {
            wide as i64
        };
    }

    /// Grow or shrink a sprite by a size delta, clamped into range.
    pub fn change_size(&mut self, s: usize, d: i64)
        requires
            s < old(self).sprites@.len(),
        ensures
            final(self).sprites@ == old(self).sprites@.update(
                s as int,
                (Sprite {
                    size: spec_clamp(old(self).sprites@[s as int].size + d) as i64,
                    ..old(self).sprites@[s as int]
                }),
            ),
            stage_frame(*old(self), *final(self)),
            final(self).vars == old(self).vars,
            final(self).lists == old(self).lists,
    {
        let sp = sprite_mut(&mut self.sprites, s);
        let wide: i128 = sp.size as i128 + d as i128;
        sp.size = if wide < -MAX_SCALED as i128 {
            -MAX_SCALED
        } else if wide > MAX_SCALED as i128 {
            MAX_SCALED
        } else {
            wide as i64
        };
    }

    /// Put a sprite at a position, in fixed-point units.
    pub fn go_to_xy(&mut self, s: usize, x: i64, y: i64)
        requires
            s < old(self).sprites@.len(),
        ensures
            final(self).sprites@ == old(self).sprites@.update(
                s as int,
                (Sprite { x, y, ..old(self).sprites@[s as int] }),
            ),
            stage_frame(*old(self), *final(self)),
            final(self).vars == old(self).vars,
            final(self).lists == old(self).lists,
    {
        let sp = sprite_mut(&mut self.sprites, s);
        sp.x = x;
        sp.y = y;
    }

    /// Set the sprite's (the stage's, without a sprite) volume,
    /// clamped into zero through one hundred percent.
    pub fn set_volume(&mut self, sprite: Option<usize>, v: i64)
        requires
            sprite matches Option::Some(s) ==> s < old(self).sprites@.len(),
        ensures
            match sprite {
                Option::Some(s) => final(self).sprites@ == old(self).sprites@.update(
                    s as int,
                    (Sprite {
                        volume: spec_clamp_volume(v as int) as i64,
                        ..old(self).sprites@[s as int]
                    }),
                ) && final(self).volume == old(self).volume,
                Option::None => final(self).volume == spec_clamp_volume(v as int)
                    && final(self).sprites == old(self).sprites,
            },
            final(self).vars == old(self).vars,
            final(self).lists == old(self).lists,
            volume_frame(*old(self), *final(self)),
    {
        let cl: i64 = if v < 0 {
            0
        } else if v > 1_000_000 {
            1_000_000
        } else {
            v
        };
        match sprite {
            Option::Some(s) => {
                let sp = sprite_mut(&mut self.sprites, s);
                sp.volume = cl;
            },
            Option::None => {
                self.volume = cl;
            },
        }
    }

    /// Add to the sprite's (the stage's, without a sprite) volume,
    /// clamping the sum into zero through one hundred percent.
    pub fn change_volume(&mut self, sprite: Option<usize>, d: i64)
        requires
            sprite matches Option::Some(s) ==> s < old(self).sprites@.len(),
        ensures
            match sprite {
                Option::Some(s) => final(self).sprites@ == old(self).sprites@.update(
                    s as int,
                    (Sprite {
                        volume: spec_clamp_volume(
                            old(self).sprites@[s as int].volume + d,
                        ) as i64,
                        ..old(self).sprites@[s as int]
                    }),
                ) && final(self).volume == old(self).volume,
                Option::None => final(self).volume == spec_clamp_volume(
                    old(self).volume + d,
                ) && final(self).sprites == old(self).sprites,
            },
            final(self).vars == old(self).vars,
            final(self).lists == old(self).lists,
            volume_frame(*old(self), *final(self)),
    {
        match sprite {
            Option::Some(s) => {
                let sp = sprite_mut(&mut self.sprites, s);
                let wide: i128 = sp.volume as i128 + d as i128;
                sp.volume = if wide < 0 {
                    0
                } else if wide > 1_000_000 {
                    1_000_000
                } else {
                    wide as i64
                };
            },
            Option::None => {
                let wide: i128 = self.volume as i128 + d as i128;
                self.volume = if wide < 0 {
                    0
                } else if wide > 1_000_000 {
                    1_000_000
                } else {
                    wide as i64
                };
            },
        }
    }

    /// Set a sprite's graphical effect by name: the owning entry is
    /// updated, or a fresh entry appended; without a sprite (the
    /// stage), nothing changes.
    pub fn set_effect(&mut self, sprite: Option<usize>, name: &String, v: i64)
        requires
            sprite matches Option::Some(s) ==> s < old(self).sprites@.len(),
        ensures
            match sprite {
                Option::Some(s) => {
                    let sp = old(self).sprites@[s as int];
                    &&& final(self).sprites@.len() == old(self).sprites@.len()
                    &&& (forall|k: int|
                        0 <= k < old(self).sprites@.len() && k != s ==> final(self).sprites@[k]
                            == #[trigger] old(self).sprites@[k])
                    &&& sprite_frame_but_effects(sp, final(self).sprites@[s as int])
                    &&& (match spec_sound_idx(sp.effects@, name@) {
                        Option::Some(j) => final(self).sprites@[s as int].effects@
                            == sp.effects@.update(j, (sp.effects@[j].0, v)),
                        Option::None => ({
                            let ne = final(self).sprites@[s as int].effects@;
                            ne.len() == sp.effects@.len() + 1 && ne.take(
                                sp.effects@.len() as int,
                            ) == sp.effects@ && ne.last().0@ == name@ && ne.last().1 == v
                        }),
                    })
                },
                Option::None => *final(self) == *old(self),
            },
            stage_frame(*old(self), *final(self)),
            final(self).vars == old(self).vars,
            final(self).lists == old(self).lists,
    {
        match sprite {
            Option::Some(s) => {
                let found = sound_idx(&self.sprites[s].effects, name);
                let sp = sprite_mut(&mut self.sprites, s);
                match found {
                    Option::Some(j) => {
                        let nm = sp.effects[j].0.clone();
                        sp.effects.set(j, (nm, v));
                    },
                    Option::None => {
                        sp.effects.push((name.clone(), v));
                        proof {
                            assert(self.sprites@[s as int].effects@.take(
                                old(self).sprites@[s as int].effects@.len() as int,
                            ) =~= old(self).sprites@[s as int].effects@);
                        }
                    },
                }
            },
            Option::None => {},
        }
    }

    /// Add to a sprite's graphical effect by name, a missing entry
    /// counting as zero; without a sprite, nothing changes.
    pub fn change_effect(&mut self, sprite: Option<usize>, name: &String, d: i64)
        requires
            sprite matches Option::Some(s) ==> s < old(self).sprites@.len(),
        ensures
            match sprite {
                Option::Some(s) => {
                    let sp = old(self).sprites@[s as int];
                    let cur = match spec_sound_idx(sp.effects@, name@) {
                        Option::Some(j) => sp.effects@[j].1 as int,
                        Option::None => 0int,
                    };
                    &&& final(self).sprites@.len() == old(self).sprites@.len()
                    &&& (forall|k: int|
                        0 <= k < old(self).sprites@.len() && k != s ==> final(self).sprites@[k]
                            == #[trigger] old(self).sprites@[k])
                    &&& sprite_frame_but_effects(sp, final(self).sprites@[s as int])
                    &&& (match spec_sound_idx(sp.effects@, name@) {
                        Option::Some(j) => final(self).sprites@[s as int].effects@
                            == sp.effects@.update(
                            j,
                            (sp.effects@[j].0, spec_clamp(cur + d) as i64),
                        ),
                        Option::None => ({
                            let ne = final(self).sprites@[s as int].effects@;
                            ne.len() == sp.effects@.len() + 1 && ne.take(
                                sp.effects@.len() as int,
                            ) == sp.effects@ && ne.last().0@ == name@ && ne.last().1
                                == spec_clamp(d as int) as i64
                        }),
                    })
                },
                Option::None => *final(self) == *old(self),
            },
            stage_frame(*old(self), *final(self)),
            final(self).vars == old(self).vars,
            final(self).lists == old(self).lists,
    {
        match sprite {
            Option::Some(s) => {
                let found = sound_idx(&self.sprites[s].effects, name);
                let cur: i64 = match found {
                    Option::Some(j) => self.sprites[s].effects[j].1,
                    Option::None => 0,
                };
                let wide: i128 = cur as i128 + d as i128;
                let v = if wide < -MAX_SCALED as i128 {
                    -MAX_SCALED
                } else if wide > MAX_SCALED as i128 {
                    MAX_SCALED
                } else {
                    wide as i64
                };
                let sp = sprite_mut(&mut self.sprites, s);
                match found {
                    Option::Some(j) => {
                        let nm = sp.effects[j].0.clone();
                        sp.effects.set(j, (nm, v));
                    },
                    Option::None => {
                        sp.effects.push((name.clone(), v));
                        proof {
                            assert(self.sprites@[s as int].effects@.take(
                                old(self).sprites@[s as int].effects@.len() as int,
                            ) =~= old(self).sprites@[s as int].effects@);
                        }
                    },
                }
            },
            Option::None => {},
        }
    }

    /// Clear a sprite's graphical effects; without a sprite, nothing
    /// changes.
    pub fn clear_effects(&mut self, sprite: Option<usize>)
        requires
            sprite matches Option::Some(s) ==> s < old(self).sprites@.len(),
        ensures
            match sprite {
                Option::Some(s) => {
                    &&& final(self).sprites@.len() == old(self).sprites@.len()
                    &&& (forall|k: int|
                        0 <= k < old(self).sprites@.len() && k != s ==> final(self).sprites@[k]
                            == #[trigger] old(self).sprites@[k])
                    &&& sprite_frame_but_effects(
                        old(self).sprites@[s as int],
                        final(self).sprites@[s as int],
                    )
                    &&& final(self).sprites@[s as int].effects@.len() == 0
                },
                Option::None => *final(self) == *old(self),
            },
            stage_frame(*old(self), *final(self)),
            final(self).vars == old(self).vars,
            final(self).lists == old(self).lists,
    {
        match sprite {
            Option::Some(s) => {
                let sp = sprite_mut(&mut self.sprites, s);
                sp.effects = Vec::new();
            },
            Option::None => {},
        }
    }
}

/// Two sprites equal in everything but their effect table.
pub open spec fn sprite_frame_but_effects(a: Sprite, b: Sprite) -> bool {
    &&& a.name == b.name
    &&& a.id == b.id
    &&& a.x == b.x
    &&& a.y == b.y
    &&& a.size == b.size
    &&& a.direction == b.direction
    &&& a.volume == b.volume
    &&& a.visible == b.visible
    &&& a.draggable == b.draggable
    &&& a.rotation_style == b.rotation_style
    &&& a.layer == b.layer
    &&& a.is_clone == b.is_clone
    &&& a.pending_delete == b.pending_delete
    &&& a.costume == b.costume
    &&& a.costumes == b.costumes
    &&& a.sounds == b.sounds
    &&& a.vars == b.vars
    &&& a.lists == b.lists
}

/// Two stages equal in everything but volumes (the stage's own and
/// its sprites').
pub open spec fn volume_frame(a: Stage, b: Stage) -> bool {
    &&& a.tempo == b.tempo
    &&& a.video_state == b.video_state
    &&& a.video_transparency == b.video_transparency
    &&& a.tts_language == b.tts_language
    &&& a.costume == b.costume
    &&& a.costumes == b.costumes
    &&& a.sounds == b.sounds
    &&& a.next_id == b.next_id
    &&& a.answer == b.answer
    &&& a.keys == b.keys
    &&& a.mouse_x == b.mouse_x
    &&& a.mouse_y == b.mouse_y
    &&& a.mouse_down == b.mouse_down
    &&& a.stamps == b.stamps
}

} // verus!

verus! {

/// The zero-based position one step forward from `cur`, wrapping at
/// the end of a non-empty set.
pub open spec fn spec_step_next(cur: int, len: int) -> int {
    if cur + 1 < len {
        cur + 1
    } else {
        0
    }
}

/// The zero-based position one step backward from `cur`, wrapping at
/// the front of a non-empty set.
pub open spec fn spec_step_prev(cur: int, len: int) -> int {
    if 1 <= cur < len + 1 {
        cur - 1
    } else {
        len - 1
    }
}

/// The costume a switch value names, against a costume set and the
/// current position: the value's text as a costume name first; then
/// the stepping keywords; then a number, its whole part one-based;
/// anything else names nothing.
pub open spec fn spec_costume_target(
    names: Seq<String>,
    cur: int,
    v: Value,
    next_kw: Seq<char>,
    prev_kw: Seq<char>,
) -> Option<int> {
    let len = names.len() as int;
    match spec_name_idx(names, spec_str_of(v)) {
        Option::Some(i) => Option::Some(i),
        Option::None => {
            if len == 0 {
                Option::None
            } else if spec_str_of(v) == next_kw {
                Option::Some(spec_step_next(cur, len))
            } else if spec_str_of(v) == prev_kw {
                Option::Some(spec_step_prev(cur, len))
            } else {
                match spec_num_of(v) {
                    Option::Some(n) => if 1 <= n / (crate::value::SCALE as int) <= len {
                        Option::Some(n / (crate::value::SCALE as int) - 1)
                    } else {
                        Option::None
                    },
                    Option::None => Option::None,
                }
            }
        },
    }
}

fn costume_target(names: &Vec<String>, cur: usize, v: &Value, next_kw: &str, prev_kw: &str) -> (r:
    Option<usize>)
    requires
        wf_value(*v),
    ensures
        match r {
            Option::Some(i) => spec_costume_target(names@, cur as int, *v, next_kw@, prev_kw@)
                == Option::Some(i as int) && i < names@.len(),
            Option::None => spec_costume_target(
                names@,
                cur as int,
                *v,
                next_kw@,
                prev_kw@,
            ) is None,
        },
{
    let txt = crate::value::to_text(v);
    match name_idx(names, &txt) {
        Option::Some(i) => Option::Some(i),
        Option::None => {
            let len = names.len();
            if len == 0 {
                return Option::None;
            }
            if txt == String::from_str(next_kw) {
                return Option::Some(
                    if cur < len - 1 {
                        cur + 1
                    } else {
                        0
                    },
                );
            }
            if txt == String::from_str(prev_kw) {
                return Option::Some(
                    if cur >= 1 && cur - 1 < len {
                        cur - 1
                    } else {
                        len - 1
                    },
                );
            }
            match crate::value::to_number(v) {
                Option::Some(n) => {
                    if n >= crate::value::SCALE {
                        let q = n / crate::value::SCALE;
                        if q as u64 <= len as u64 {
                            Option::Some((q - 1) as usize)
                        } else {
                            Option::None
                        }
                    } else {
                        proof {
                            assert(n as int / (crate::value::SCALE as int) < 1);
                        }
                        Option::None
                    }
                },
                Option::None => Option::None,
            }
        },
    }
}

impl Stage {
    /// Switch a sprite's costume by a value: a costume's name, the
    /// stepping keywords, or a one-based number; a value naming
    /// nothing changes nothing.
    pub fn switch_costume_to(&mut self, s: usize, v: &Value)
        requires
            s < old(self).sprites@.len(),
            wf_value(*v),
        ensures
            match spec_costume_target(
                old(self).sprites@[s as int].costumes@,
                old(self).sprites@[s as int].costume as int,
                *v,
                "next costume"@,
                "previous costume"@,
            ) {
                Option::Some(i) => final(self).sprites@ == old(self).sprites@.update(
                    s as int,
                    (Sprite { costume: i as usize, ..old(self).sprites@[s as int] }),
                ),
                Option::None => *final(self) == *old(self),
            },
            stage_frame(*old(self), *final(self)),
            final(self).vars == old(self).vars,
            final(self).lists == old(self).lists,
    {
        let found = costume_target(
            &self.sprites[s].costumes,
            self.sprites[s].costume,
            v,
            "next costume",
            "previous costume",
        );
        match found {
            Option::Some(i) => {
                let sp = sprite_mut(&mut self.sprites, s);
                sp.costume = i;
            },
            Option::None => {},
        }
    }

    /// Step a sprite to its previous costume, wrapping to the end;
    /// without costumes nothing changes.
    pub fn previous_costume(&mut self, s: usize)
        requires
            s < old(self).sprites@.len(),
        ensures
            ({
                let sp = old(self).sprites@[s as int];
                if sp.costumes@.len() == 0 {
                    *final(self) == *old(self)
                } else {
                    final(self).sprites@ == old(self).sprites@.update(
                        s as int,
                        (Sprite {
                            costume: spec_step_prev(
                                sp.costume as int,
                                sp.costumes@.len() as int,
                            ) as usize,
                            ..sp
                        }),
                    )
                }
            }),
            stage_frame(*old(self), *final(self)),
            final(self).vars == old(self).vars,
            final(self).lists == old(self).lists,
    {
        let n = self.sprites[s].costumes.len();
        if n > 0 {
            let cur = self.sprites[s].costume;
            let prev = if cur >= 1 && cur - 1 < n {
                cur - 1
            } else {
                n - 1
            };
            let sp = sprite_mut(&mut self.sprites, s);
            sp.costume = prev;
        }
    }

    /// Switch the stage's backdrop by a value: a backdrop's name, the
    /// stepping keywords, a random pick, or a one-based number; a
    /// value naming nothing changes nothing.
    pub fn switch_backdrop_to(&mut self, v: &Value)
        requires
            wf_value(*v),
        ensures
            spec_str_of(*v) == "random backdrop"@ && spec_name_idx(
                old(self).costumes@,
                spec_str_of(*v),
            ) is None ==> (if old(self).costumes@.len() == 0 {
                *final(self) == *old(self)
            } else {
                final(self).costume < old(self).costumes@.len() && *final(self) == (Stage {
                    costume: final(self).costume,
                    ..*old(self)
                })
            }),
            spec_str_of(*v) != "random backdrop"@ || spec_name_idx(
                old(self).costumes@,
                spec_str_of(*v),
            ) is Some ==> match spec_costume_target(
                old(self).costumes@,
                old(self).costume as int,
                *v,
                "next backdrop"@,
                "previous backdrop"@,
            ) {
                Option::Some(i) => *final(self) == (Stage { costume: i as usize, ..*old(self) }),
                Option::None => *final(self) == *old(self),
            },
    {
        let txt = crate::value::to_text(v);
        let is_random = txt == String::from_str("random backdrop");
        let named = name_idx(&self.costumes, &txt);
        if is_random && named.is_none() {
            let len = self.costumes.len();
            if len > 0 {
                let i = crate::rng::random_below(len as u64);
                self.costume = i as usize;
            }
            return ;
        }
        let found = costume_target(&self.costumes, self.costume, v, "next backdrop", "previous backdrop");
        match found {
            Option::Some(i) => {
                self.costume = i;
            },
            Option::None => {},
        }
    }

    /// Step the stage to its next backdrop, wrapping at the end;
    /// without backdrops nothing changes.
    pub fn next_backdrop(&mut self)
        ensures
            old(self).costumes@.len() == 0 ==> *final(self) == *old(self),
            old(self).costumes@.len() > 0 ==> *final(self) == (Stage {
                costume: spec_step_next(
                    old(self).costume as int,
                    old(self).costumes@.len() as int,
                ) as usize,
                ..*old(self)
            }),
    {
        let n = self.costumes.len();
        if n > 0 {
            let cur = self.costume;
            self.costume = if cur < n - 1 {
                cur + 1
            } else {
                0
            };
        }
    }
}

} // verus!

verus! {

/// Every item's string form is a single character.
pub open spec fn all_single(items: Seq<Value>) -> bool {
    forall|i: int| 0 <= i < items.len() ==> spec_str_of(#[trigger] items[i]).len() == 1
}

/// The first `i` items' string forms, run together.
pub open spec fn spec_contents_concat(items: Seq<Value>, i: int) -> Seq<char>
    decreases i,
{
    if i <= 0 {
        Seq::<char>::empty()
    } else {
        spec_contents_concat(items, i - 1) + spec_str_of(items[i - 1])
    }
}

/// The first `i` items' string forms, joined by single spaces.
pub open spec fn spec_contents_spaced(items: Seq<Value>, i: int) -> Seq<char>
    decreases i,
{
    if i <= 0 {
        Seq::<char>::empty()
    } else if i == 1 {
        spec_str_of(items[0])
    } else {
        spec_contents_spaced(items, i - 1) + seq![' '] + spec_str_of(items[i - 1])
    }
}

/// A list's joined contents: items that are all single characters run
/// together, any other items joined by spaces.
pub open spec fn spec_list_contents(items: Seq<Value>) -> Seq<char> {
    if all_single(items) {
        spec_contents_concat(items, items.len() as int)
    } else {
        spec_contents_spaced(items, items.len() as int)
    }
}

fn items_all_single(items: &Vec<Value>) -> (r: bool)
    requires
        wf_items(items@),
    ensures
        r == all_single(items@),
{
    let mut i: usize = 0;
    while i < items.len()
        invariant
            i <= items@.len(),
            wf_items(items@),
            forall|j: int| 0 <= j < i ==> spec_str_of(#[trigger] items@[j]).len() == 1,
        decreases items@.len() - i,
    {
        let t = clone_value(&items[i]);
        let txt = crate::value::to_text(&t);
        if txt.as_str().unicode_len() != 1 {
            return false;
        }
        i = i + 1;
    }
    true
}

/// The joined text of a list's items.
pub fn list_contents_text(items: &Vec<Value>) -> (r: String)
    requires
        wf_items(items@),
    ensures
        r@ == spec_list_contents(items@),
{
    let single = items_all_single(items);
    let mut out = String::new();
    let mut i: usize = 0;
    if single {
        while i < items.len()
            invariant
                i <= items@.len(),
                wf_items(items@),
                out@ == spec_contents_concat(items@, i as int),
            decreases items@.len() - i,
        {
            let t = clone_value(&items[i]);
            out = out.concat(crate::value::to_text(&t).as_str());
            i = i + 1;
        }
    } else {
        while i < items.len()
            invariant
                i <= items@.len(),
                wf_items(items@),
                out@ == spec_contents_spaced(items@, i as int),
            decreases items@.len() - i,
        {
            let t = clone_value(&items[i]);
            if i > 0 {
                out = out.concat(" ");
                proof {
                    reveal_strlit(" ");
                    assert(" "@ =~= seq![' ']);
                }
            }
            out = out.concat(crate::value::to_text(&t).as_str());
            proof {
                assert(out@ =~= spec_contents_spaced(items@, i + 1 as int));
            }
            i = i + 1;
        }
    }
    out
}

impl Stage {
    /// A list's contents as one text: single-character items run
    /// together, any other items joined by spaces; a list neither
    /// scope owns reads as empty text.
    pub fn get_list_contents(&self, sprite: Option<usize>, id: &String) -> (r: Value)
        requires
            sprite matches Option::Some(s) ==> s < self.sprites@.len(),
            wf_stage(*self),
        ensures
            match spec_list_scope(*self, opt_int(sprite), id@) {
                Option::Some(sc) => r matches Value::Text(t) && t@ == spec_list_contents(
                    spec_items_at(*self, opt_int(sprite), sc),
                ),
                Option::None => r matches Value::Text(t) && t@ == Seq::<char>::empty(),
            },
    {
        match self.list_scope(sprite, id) {
            Option::Some(sc) => {
                let items = self.read_items(sprite, sc);
                proof {
                    assert(wf_items(items@));
                }
                Value::Text(list_contents_text(&items))
            },
            Option::None => Value::Text(String::new()),
        }
    }
}

} // verus!

verus! {

impl Stage {
    /// Move a sprite forward (toward the front) by a number of draw
    /// layers, stopping at the front: the sprites it passes each slip
    /// one position back, and every position keeps its layer number,
    /// so the list stays sorted by layer as it was.
    pub fn go_forward_layers(&mut self, s: usize, n: usize)
        requires
            s < old(self).sprites@.len(),
        ensures
            final(self).sprites@.len() == old(self).sprites@.len(),
            stage_frame(*old(self), *final(self)),
            final(self).vars == old(self).vars,
            final(self).lists == old(self).lists,
            ({
                let pre = old(self).sprites@;
                let post = final(self).sprites@;
                let j = if s + n < pre.len() {
                    s + n
                } else {
                    pre.len() - 1
                };
                &&& (forall|k: int| 0 <= k < s ==> post[k] == #[trigger] pre[k])
                &&& (forall|k: int|
                    s <= k < j ==> post[k] == (Sprite { layer: pre[k].layer, ..pre[k + 1] }))
                &&& (j > s ==> post[j] == (Sprite { layer: pre[j].layer, ..pre[s as int] }))
                &&& (forall|k: int| j < k < pre.len() ==> post[k] == #[trigger] pre[k])
                &&& (forall|k: int|
                    0 <= k < pre.len() ==> (#[trigger] post[k]).layer == pre[k].layer)
            }),
            layers_sorted(old(self).sprites@) ==> layers_sorted(final(self).sprites@),
    {
        let len = self.sprites.len();
        let j: usize = if n < len - s {
            s + n
        } else {
            len - 1
        };
        if j == s {
            return ;
        }
        let ghost pre = self.sprites@;
        // hold on to the window's layer numbers
        let mut ws: Vec<u64> = Vec::new();
        let mut k: usize = s;
        while k <= j
            invariant
                s <= k <= j + 1,
                j < len,
                len == self.sprites@.len(),
                self.sprites@ == pre,
                ws@.len() == k - s,
                forall|t: int| 0 <= t < k - s ==> ws@[t] == pre[s + t].layer,
            decreases j + 1 - k,
        {
            ws.push(self.sprites[k].layer);
            k = k + 1;
        }
        let moving = self.sprites.remove(s);
        self.sprites.insert(j, moving);
        proof {
            assert(self.sprites@.len() == pre.len());
        }
        // every position takes its old layer back
        let mut k2: usize = s;
        let ghost mid = self.sprites@;
        while k2 <= j
            invariant
                s <= k2 <= j + 1,
                s < j < pre.len(),
                j < len,
                len == pre.len(),
                self.sprites@.len() == pre.len(),
                ws@.len() == j + 1 - s,
                forall|t: int| 0 <= t < ws@.len() ==> ws@[t] == pre[s + t].layer,
                forall|k: int| 0 <= k < s ==> self.sprites@[k] == #[trigger] mid[k],
                forall|k: int| j < k < pre.len() ==> self.sprites@[k] == #[trigger] mid[k],
                forall|k: int|
                    s <= k < k2 ==> self.sprites@[k] == (Sprite {
                        layer: pre[k].layer,
                        ..mid[k]
                    }),
                forall|k: int| k2 <= k <= j ==> self.sprites@[k] == #[trigger] mid[k],
                stage_frame(*old(self), *self),
                self.vars == old(self).vars,
                self.lists == old(self).lists,
            decreases j + 1 - k2,
        {
            let l = ws[k2 - s];
            let sp = sprite_mut(&mut self.sprites, k2);
            sp.layer = l;
            k2 = k2 + 1;
        }
        proof {
            assert forall|k: int| 0 <= k < s implies self.sprites@[k] == #[trigger] pre[k] by {
                assert(mid[k] == pre[k]);
            }
            assert forall|k: int|
                s <= k < j implies self.sprites@[k] == (Sprite {
                layer: pre[k].layer,
                ..pre[k + 1]
            }) by {
                assert(mid[k] == pre[k + 1]);
            }
            assert(mid[j as int] == pre[s as int]);
            assert forall|k: int| j < k < pre.len() implies self.sprites@[k]
                == #[trigger] pre[k] by {
                assert(mid[k] == pre[k]);
            }
            assert forall|k: int|
                0 <= k < pre.len() implies (#[trigger] self.sprites@[k]).layer
                == pre[k].layer by {}
            if layers_sorted(pre) {
                assert forall|x: int, y: int|
                    0 <= x < y < self.sprites@.len() implies self.sprites@[x].layer
                    < self.sprites@[y].layer by {
                    assert(self.sprites@[x].layer == pre[x].layer);
                    assert(self.sprites@[y].layer == pre[y].layer);
                }
            }
        }
    }

    /// Move a sprite backward (toward the back) by a number of draw
    /// layers, stopping at the back: the sprites it passes each slip
    /// one position forward, and every position keeps its layer
    /// number, so the list stays sorted by layer as it was.
    pub fn go_backward_layers(&mut self, s: usize, n: usize)
        requires
            s < old(self).sprites@.len(),
        ensures
            final(self).sprites@.len() == old(self).sprites@.len(),
            stage_frame(*old(self), *final(self)),
            final(self).vars == old(self).vars,
            final(self).lists == old(self).lists,
            ({
                let pre = old(self).sprites@;
                let post = final(self).sprites@;
                let j = if n < s {
                    s - n
                } else {
                    0int
                };
                &&& (forall|k: int| 0 <= k < j ==> post[k] == #[trigger] pre[k])
                &&& (j < s ==> post[j] == (Sprite { layer: pre[j].layer, ..pre[s as int] }))
                &&& (forall|k: int|
                    j < k <= s ==> post[k] == (Sprite { layer: pre[k].layer, ..pre[k - 1] }))
                &&& (forall|k: int| s < k < pre.len() ==> post[k] == #[trigger] pre[k])
                &&& (forall|k: int|
                    0 <= k < pre.len() ==> (#[trigger] post[k]).layer == pre[k].layer)
            }),
            layers_sorted(old(self).sprites@) ==> layers_sorted(final(self).sprites@),
    {
        let len = self.sprites.len();
        let j: usize = if n < s {
            s - n
        } else {
            0
        };
        if j == s {
            return ;
        }
        let ghost pre = self.sprites@;
        // hold on to the window's layer numbers
        let mut ws: Vec<u64> = Vec::new();
        let mut k: usize = j;
        while k <= s
            invariant
                j <= k <= s + 1,
                s < len,
                len == self.sprites@.len(),
                self.sprites@ == pre,
                ws@.len() == k - j,
                forall|t: int| 0 <= t < k - j ==> ws@[t] == pre[j + t].layer,
            decreases s + 1 - k,
        {
            ws.push(self.sprites[k].layer);
            k = k + 1;
        }
        let moving = self.sprites.remove(s);
        self.sprites.insert(j, moving);
        proof {
            assert(self.sprites@.len() == pre.len());
        }
        // every position takes its old layer back
        let mut k2: usize = j;
        let ghost mid = self.sprites@;
        while k2 <= s
            invariant
                j <= k2 <= s + 1,
                j < s < pre.len(),
                s < len,
                len == pre.len(),
                self.sprites@.len() == pre.len(),
                ws@.len() == s + 1 - j,
                forall|t: int| 0 <= t < ws@.len() ==> ws@[t] == pre[j + t].layer,
                forall|k: int| 0 <= k < j ==> self.sprites@[k] == #[trigger] mid[k],
                forall|k: int| s < k < pre.len() ==> self.sprites@[k] == #[trigger] mid[k],
                forall|k: int|
                    j <= k < k2 ==> self.sprites@[k] == (Sprite {
                        layer: pre[k].layer,
                        ..mid[k]
                    }),
                forall|k: int| k2 <= k <= s ==> self.sprites@[k] == #[trigger] mid[k],
                stage_frame(*old(self), *self),
                self.vars == old(self).vars,
                self.lists == old(self).lists,
            decreases s + 1 - k2,
        {
            let l = ws[k2 - j];
            let sp = sprite_mut(&mut self.sprites, k2);
            sp.layer = l;
            k2 = k2 + 1;
        }
        proof {
            assert forall|k: int| 0 <= k < j implies self.sprites@[k] == #[trigger] pre[k] by {
                assert(mid[k] == pre[k]);
            }
            assert(mid[j as int] == pre[s as int]);
            assert forall|k: int|
                j < k <= s implies self.sprites@[k] == (Sprite {
                layer: pre[k].layer,
                ..pre[k - 1]
            }) by {
                assert(mid[k] == pre[k - 1]);
            }
            assert forall|k: int| s < k < pre.len() implies self.sprites@[k]
                == #[trigger] pre[k] by {
                assert(mid[k] == pre[k]);
            }
            assert forall|k: int|
                0 <= k < pre.len() implies (#[trigger] self.sprites@[k]).layer
                == pre[k].layer by {}
            if layers_sorted(pre) {
                assert forall|x: int, y: int|
                    0 <= x < y < self.sprites@.len() implies self.sprites@[x].layer
                    < self.sprites@[y].layer by {
                    assert(self.sprites@[x].layer == pre[x].layer);
                    assert(self.sprites@[y].layer == pre[y].layer);
                }
            }
        }
    }
}

} // verus!
