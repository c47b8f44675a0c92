//! The opcode table: each block opcode the compiler understands maps
//! to a code template with placeholder holes. The templates target the
//! generated program's runtime support functions; the compiler only
//! fills their holes and never reads their text.

use vstd::prelude::*;

use crate::template::{parse_template, clone_segs, segs_view, spec_tokenize, Seg, SegView};

verus! {

/// A lookup table from opcode to code template.
pub struct OpTable {
    pub entries: Vec<(String, Vec<Seg>)>,
}

/// The mathematical form of the table: opcode text paired with template
/// segments, in table order.
pub open spec fn table_view(t: Seq<(String, Vec<Seg>)>) -> Seq<(Seq<char>, Seq<SegView>)> {
    Seq::new(t.len(), |i: int| (t[i].0@, segs_view(t[i].1@)))
}

impl View for OpTable {
    type V = Seq<(Seq<char>, Seq<SegView>)>;

    open spec fn view(&self) -> Seq<(Seq<char>, Seq<SegView>)> {
        table_view(self.entries@)
    }
}

/// The template of the first entry with the given opcode, if any.
pub open spec fn spec_lookup(tv: Seq<(Seq<char>, Seq<SegView>)>, op: Seq<char>) -> Option<
    Seq<SegView>,
>
    decreases tv.len(),
{
    if tv.len() == 0 {
        Option::None
    } else if tv[0].0 == op {
        Option::Some(tv[0].1)
    } else {
        spec_lookup(tv.drop_first(), op)
    }
}

impl OpTable {
    /// The code template of an opcode, if the table knows it.
    pub fn lookup(&self, op: &String) -> (r: Option<Vec<Seg>>)
        ensures
            match r {
                Option::Some(t) => spec_lookup(self@, op@) == Option::Some(segs_view(t@)),
                Option::None => spec_lookup(self@, op@) is None,
            },
    {
        proof {
            assert(self@.skip(0) =~= self@);
        }
        self.lookup_from(op, 0)
    }

    fn lookup_from(&self, op: &String, i: usize) -> (r: Option<Vec<Seg>>)
        requires
            i <= self.entries@.len(),
        ensures
            match r {
                Option::Some(t) => spec_lookup(self@.skip(i as int), op@) == Option::Some(
                    segs_view(t@),
                ),
                Option::None => spec_lookup(self@.skip(i as int), op@) is None,
            },
        decreases self.entries@.len() - i,
    {
        if i == self.entries.len() {
            proof {
                assert(self@.skip(i as int) =~= Seq::<(Seq<char>, Seq<SegView>)>::empty());
            }
            Option::None
        } else {
            proof {
                assert(self@.skip(i as int)[0] == self@[i as int]);
                assert(self@.skip(i as int).drop_first() =~= self@.skip(i + 1 as int));
            }
            if self.entries[i].0 == *op {
                Option::Some(clone_segs(&self.entries[i].1))
            } else {
                self.lookup_from(op, i + 1)
            }
        }
    }
}

/// One table entry: the opcode and its parsed template.
fn entry(op: &str, tpl: &str) -> (e: (String, Vec<Seg>))
    ensures
        e.0@ == op@,
        segs_view(e.1@) == spec_tokenize(tpl@, 0),
{
    (String::from_str(op), parse_template(tpl))
}

/// The whole opcode table, as template text keyed by opcode.
pub open spec fn spec_blocks_table() -> Seq<(Seq<char>, Seq<SegView>)> {
    seq![
        ("motion_setx"@, spec_tokenize("set_x(sprite.clone().unwrap(),X);"@, 0)),
        ("motion_sety"@, spec_tokenize("set_y(sprite.clone().unwrap(),Y);"@, 0)),
        ("motion_changexby"@, spec_tokenize("change_x_by(sprite.clone().unwrap(),DX);"@, 0)),
        ("motion_changeyby"@, spec_tokenize("change_y_by(sprite.clone().unwrap(),DY);"@, 0)),
        ("motion_xposition"@, spec_tokenize("get_x(sprite.clone().unwrap())"@, 0)),
        ("motion_yposition"@, spec_tokenize("get_y(sprite.clone().unwrap())"@, 0)),
        ("motion_movesteps"@, spec_tokenize("move_steps(sprite.clone().unwrap(),STEPS);"@, 0)),
        ("motion_turnleft"@, spec_tokenize("turn_left(sprite.clone().unwrap(),DEGREES);"@, 0)),
        ("motion_turnright"@, spec_tokenize("turn_right(sprite.clone().unwrap(),DEGREES);"@, 0)),
        ("motion_goto"@, spec_tokenize("go_to(sprite.clone().unwrap(),stage.clone(),TO);"@, 0)),
        ("motion_gotoxy"@, spec_tokenize("go_to_xy(sprite.clone().unwrap(),X,Y);"@, 0)),
        ("motion_pointindirection"@, spec_tokenize("point_in_direction(sprite.clone().unwrap(),DIRECTION);"@, 0)),
        ("motion_setrotationstyle"@, spec_tokenize("set_rotation_style(sprite.clone().unwrap(),STYLE);"@, 0)),
        ("sound_playuntildone"@, spec_tokenize("Wait::new(Duration::from_secs_f32(play_sound(sprite.clone(), stage.clone(), SOUND_MENU))).await;"@, 0)),
        ("sound_play"@, spec_tokenize("play_sound(sprite.clone(), stage.clone(), SOUND_MENU);"@, 0)),
        ("sound_setvolumeto"@, spec_tokenize("set_volume(sprite.clone(), stage.clone(), VOLUME);"@, 0)),
        ("sound_changevolumeby"@, spec_tokenize("change_volume(sprite.clone(), stage.clone(), VOLUME);"@, 0)),
        ("sound_volume"@, spec_tokenize("get_volume(sprite.clone(), stage.clone())"@, 0)),
        ("sound_sounds_menu"@, spec_tokenize("SOUND_MENU"@, 0)),
        ("event_whenflagclicked"@, spec_tokenize(""@, 0)),
        ("control_repeat"@, spec_tokenize("for z in 0..TIMES.into(){SUBSTACK\nYield::Start.await;}"@, 0)),
        ("control_wait"@, spec_tokenize("Wait::new(Duration::from_secs(DURATION.into())).await;"@, 0)),
        ("control_forever"@, spec_tokenize("loop{SUBSTACK\nYield::Start.await;}"@, 0)),
        ("control_if"@, spec_tokenize("if <Value as Into<bool>>::into(Value::from(CONDITION)) {SUBSTACK}"@, 0)),
        ("control_if_else"@, spec_tokenize("if <Value as Into<bool>>::into(Value::from(CONDITION)) {SUBSTACK}else{SUBSTACK2}"@, 0)),
        ("control_wait_until"@, spec_tokenize("while !<Value as Into<bool>>::into(Value::from(CONDITION)){\n    Yield::Start.await;\n}"@, 0)),
        ("control_repeat_until"@, spec_tokenize("while !<Value as Into<bool>>::into(CONDITION){SUBSTACK\nYield::Start.await;}"@, 0)),
        ("control_create_clone_of"@, spec_tokenize("{\n    let index = stage.lock().unwrap().sprites.len();\n    let sprite_name = create_clone(stage.clone(),sprite.clone().unwrap(),CLONE_OPTION);\n    let mut new_threads = clone_sprite(sprite_name.clone(),stage.lock().unwrap().sprites[index].clone(),stage.clone());\n    for thread in &mut new_threads{\n        if thread.start == StartType::StartAsClone(format!(\"{}_clone\",sprite_name.clone())){\n            thread.running=true;\n        }\n    }\n    stage.lock().unwrap().add_threads(new_threads.into_iter());\n}"@, 0)),
        ("control_create_clone_of_menu"@, spec_tokenize("Value::from(CLONE_OPTION)"@, 0)),
        ("control_start_as_clone"@, spec_tokenize(""@, 0)),
        ("control_delete_this_clone"@, spec_tokenize("delete_this_clone(stage.clone(),sprite.clone().unwrap());"@, 0)),
        ("looks_say"@, spec_tokenize("say(MESSAGE);"@, 0)),
        ("looks_switchbackdropto"@, spec_tokenize("switch_backdrop(stage.clone(),BACKDROP);"@, 0)),
        ("looks_backdrops"@, spec_tokenize("switch_backdrop(stage.clone(),BACKDROP);"@, 0)),
        ("looks_nextcostume"@, spec_tokenize("next_costume(sprite.clone().unwrap());"@, 0)),
        ("looks_switchcostumeto"@, spec_tokenize("switch_costume(sprite.clone().unwrap(),COSTUME);"@, 0)),
        ("looks_setsizeto"@, spec_tokenize("set_size(sprite.clone().unwrap(),SIZE);"@, 0)),
        ("looks_show"@, spec_tokenize("show(sprite.clone().unwrap());"@, 0)),
        ("looks_hide"@, spec_tokenize("hide(sprite.clone().unwrap());"@, 0)),
        ("looks_gotofrontback"@, spec_tokenize("go_to_front_or_back(sprite.clone().unwrap(),stage.clone(),FRONT_BACK);"@, 0)),
        ("looks_goforwardbackwardlayers"@, spec_tokenize("go_forward_backwards_layers(sprite.clone().unwrap(),stage.clone(),FORWARD_BACKWARD,NUM);"@, 0)),
        ("looks_seteffectto"@, spec_tokenize("set_effect(sprite.clone(), stage.clone(), EFFECT, VALUE);"@, 0)),
        ("looks_changeeffectby"@, spec_tokenize("change_effect(sprite.clone(), stage.clone(), EFFECT, CHANGE);"@, 0)),
        ("looks_cleargraphiceffects"@, spec_tokenize("clear_effects(sprite.clone(), stage.clone());"@, 0)),
        ("data_setvariableto"@, spec_tokenize("set_variable(sprite.clone(),stage.clone(),VARIABLE,VALUE);"@, 0)),
        ("data_changevariableby"@, spec_tokenize("change_variable(sprite.clone(),stage.clone(),VARIABLE,VALUE);"@, 0)),
        ("data_addtolist"@, spec_tokenize("add_to_list(sprite.clone(),stage.clone(),ITEM,LIST);"@, 0)),
        ("data_deleteoflist"@, spec_tokenize("delete_from_list(sprite.clone(),stage.clone(),INDEX,LIST);"@, 0)),
        ("data_deletealloflist"@, spec_tokenize("delete_all_of_list(sprite.clone(),stage.clone(),LIST);"@, 0)),
        ("data_insertatlist"@, spec_tokenize("insert_item_in_list(sprite.clone(),stage.clone(),ITEM,INDEX,LIST);"@, 0)),
        ("data_replaceitemoflist"@, spec_tokenize("replace_item_in_list(sprite.clone(),stage.clone(),ITEM,INDEX,LIST);"@, 0)),
        ("data_itemoflist"@, spec_tokenize("get_item_of_list(sprite.clone(),stage.clone(),INDEX,LIST)"@, 0)),
        ("data_itemnumoflist"@, spec_tokenize("get_item_num_in_list(Some(sprite.clone()),stage.clone(),ITEM,LIST)"@, 0)),
        ("data_lengthoflist"@, spec_tokenize("length_of_list(sprite.clone(),stage.clone(),LIST)"@, 0)),
        ("data_listcontainsitem"@, spec_tokenize("list_contains_item(sprite.clone(),stage.clone(),LIST,ITEM)"@, 0)),
        ("operator_add"@, spec_tokenize("NUM1+NUM2"@, 0)),
        ("operator_subtract"@, spec_tokenize("NUM1-NUM2"@, 0)),
        ("operator_multiply"@, spec_tokenize("NUM1*NUM2"@, 0)),
        ("operator_divide"@, spec_tokenize("NUM1/NUM2"@, 0)),
        ("operator_random"@, spec_tokenize("generate_random(FROM,TO)"@, 0)),
        ("operator_lt"@, spec_tokenize("Value::Bool(OPERAND1<OPERAND2)"@, 0)),
        ("operator_equals"@, spec_tokenize("Value::Bool(OPERAND1==OPERAND2)"@, 0)),
        ("operator_gt"@, spec_tokenize("Value::Bool(OPERAND1>OPERAND2)"@, 0)),
        ("operator_and"@, spec_tokenize("Value::Bool(OPERAND1.into() && OPERAND2.into())"@, 0)),
        ("operator_or"@, spec_tokenize("Value::Bool(OPERAND1.into()||OPERAND2.into())"@, 0)),
        ("operator_not"@, spec_tokenize("!OPERAND"@, 0)),
        ("operator_join"@, spec_tokenize("join(STRING1,STRING2)"@, 0)),
        ("operator_letter_of"@, spec_tokenize("letter_of(LETTER,STRING)"@, 0)),
        ("operator_length"@, spec_tokenize("length(STRING)"@, 0)),
        ("operator_contains"@, spec_tokenize("contains(STRING1,STRING2)"@, 0)),
        ("operator_round"@, spec_tokenize("round(NUM)"@, 0)),
        ("operator_mod"@, spec_tokenize("modulus(NUM1,NUM2)"@, 0)),
        ("operator_mathop"@, spec_tokenize("mathop(OPERATOR,NUM)"@, 0)),
        ("argument_reporter_string_number"@, spec_tokenize("VALUE"@, 0)),
        ("sensing_keypressed"@, spec_tokenize("key_pressed(stage.clone(),KEY_OPTION)"@, 0)),
        ("sensing_mousex"@, spec_tokenize("mousex(stage.clone())"@, 0)),
        ("sensing_mousey"@, spec_tokenize("mousey(stage.clone())"@, 0)),
        ("sensing_mousedown"@, spec_tokenize("mouse_down(stage.clone())"@, 0)),
        ("sensing_askandwait"@, spec_tokenize("ask(stage.clone(),QUESTION);"@, 0)),
        ("sensing_answer"@, spec_tokenize("answer(stage.clone())"@, 0)),
        ("sensing_username"@, spec_tokenize("username()"@, 0)),
        ("sensing_keyoptions"@, spec_tokenize("Value::from(KEY_OPTION)"@, 0)),
        ("motion_goto_menu"@, spec_tokenize("Value::from(TO)"@, 0)),
        ("sensing_dayssince2000"@, spec_tokenize("days_since_2000()"@, 0)),
        ("pen_stamp"@, spec_tokenize("stamp(sprite.clone().unwrap(),stage.clone());"@, 0)),
        ("pen_clear"@, spec_tokenize("clear_pen(stage.clone());"@, 0)),
    ]
}

/// Build the opcode lookup table. This is the full set of block
/// opcodes the compiler translates, each mapped to its code template.
#[verifier::rlimit(100)]
pub fn make_blocks_lookup() -> (r: OpTable)
    ensures
        r@ == spec_blocks_table(),
        r@.len() == 86,
{
    let mut t: Vec<(String, Vec<Seg>)> = Vec::new();
    t.push(entry("motion_setx", "set_x(sprite.clone().unwrap(),X);"));
    t.push(entry("motion_sety", "set_y(sprite.clone().unwrap(),Y);"));
    t.push(entry("motion_changexby", "change_x_by(sprite.clone().unwrap(),DX);"));
    t.push(entry("motion_changeyby", "change_y_by(sprite.clone().unwrap(),DY);"));
    t.push(entry("motion_xposition", "get_x(sprite.clone().unwrap())"));
    t.push(entry("motion_yposition", "get_y(sprite.clone().unwrap())"));
    t.push(entry("motion_movesteps", "move_steps(sprite.clone().unwrap(),STEPS);"));
    t.push(entry("motion_turnleft", "turn_left(sprite.clone().unwrap(),DEGREES);"));
    t.push(entry("motion_turnright", "turn_right(sprite.clone().unwrap(),DEGREES);"));
    t.push(entry("motion_goto", "go_to(sprite.clone().unwrap(),stage.clone(),TO);"));
    t.push(entry("motion_gotoxy", "go_to_xy(sprite.clone().unwrap(),X,Y);"));
    t.push(entry("motion_pointindirection", "point_in_direction(sprite.clone().unwrap(),DIRECTION);"));
    t.push(entry("motion_setrotationstyle", "set_rotation_style(sprite.clone().unwrap(),STYLE);"));
    t.push(entry("sound_playuntildone", "Wait::new(Duration::from_secs_f32(play_sound(sprite.clone(), stage.clone(), SOUND_MENU))).await;"));
    t.push(entry("sound_play", "play_sound(sprite.clone(), stage.clone(), SOUND_MENU);"));
    t.push(entry("sound_setvolumeto", "set_volume(sprite.clone(), stage.clone(), VOLUME);"));
    t.push(entry("sound_changevolumeby", "change_volume(sprite.clone(), stage.clone(), VOLUME);"));
    t.push(entry("sound_volume", "get_volume(sprite.clone(), stage.clone())"));
    t.push(entry("sound_sounds_menu", "SOUND_MENU"));
    t.push(entry("event_whenflagclicked", ""));
    t.push(entry("control_repeat", "for z in 0..TIMES.into(){SUBSTACK\nYield::Start.await;}"));
    t.push(entry("control_wait", "Wait::new(Duration::from_secs(DURATION.into())).await;"));
    t.push(entry("control_forever", "loop{SUBSTACK\nYield::Start.await;}"));
    t.push(entry("control_if", "if <Value as Into<bool>>::into(Value::from(CONDITION)) {SUBSTACK}"));
    t.push(entry("control_if_else", "if <Value as Into<bool>>::into(Value::from(CONDITION)) {SUBSTACK}else{SUBSTACK2}"));
    t.push(entry("control_wait_until", "while !<Value as Into<bool>>::into(Value::from(CONDITION)){\n    Yield::Start.await;\n}"));
    t.push(entry("control_repeat_until", "while !<Value as Into<bool>>::into(CONDITION){SUBSTACK\nYield::Start.await;}"));
    t.push(entry("control_create_clone_of", "{\n    let index = stage.lock().unwrap().sprites.len();\n    let sprite_name = create_clone(stage.clone(),sprite.clone().unwrap(),CLONE_OPTION);\n    let mut new_threads = clone_sprite(sprite_name.clone(),stage.lock().unwrap().sprites[index].clone(),stage.clone());\n    for thread in &mut new_threads{\n        if thread.start == StartType::StartAsClone(format!(\"{}_clone\",sprite_name.clone())){\n            thread.running=true;\n        }\n    }\n    stage.lock().unwrap().add_threads(new_threads.into_iter());\n}"));
    t.push(entry("control_create_clone_of_menu", "Value::from(CLONE_OPTION)"));
    t.push(entry("control_start_as_clone", ""));
    t.push(entry("control_delete_this_clone", "delete_this_clone(stage.clone(),sprite.clone().unwrap());"));
    t.push(entry("looks_say", "say(MESSAGE);"));
    t.push(entry("looks_switchbackdropto", "switch_backdrop(stage.clone(),BACKDROP);"));
    t.push(entry("looks_backdrops", "switch_backdrop(stage.clone(),BACKDROP);"));
    t.push(entry("looks_nextcostume", "next_costume(sprite.clone().unwrap());"));
    t.push(entry("looks_switchcostumeto", "switch_costume(sprite.clone().unwrap(),COSTUME);"));
    t.push(entry("looks_setsizeto", "set_size(sprite.clone().unwrap(),SIZE);"));
    t.push(entry("looks_show", "show(sprite.clone().unwrap());"));
    t.push(entry("looks_hide", "hide(sprite.clone().unwrap());"));
    t.push(entry("looks_gotofrontback", "go_to_front_or_back(sprite.clone().unwrap(),stage.clone(),FRONT_BACK);"));
    t.push(entry("looks_goforwardbackwardlayers", "go_forward_backwards_layers(sprite.clone().unwrap(),stage.clone(),FORWARD_BACKWARD,NUM);"));
    t.push(entry("looks_seteffectto", "set_effect(sprite.clone(), stage.clone(), EFFECT, VALUE);"));
    t.push(entry("looks_changeeffectby", "change_effect(sprite.clone(), stage.clone(), EFFECT, CHANGE);"));
    t.push(entry("looks_cleargraphiceffects", "clear_effects(sprite.clone(), stage.clone());"));
    t.push(entry("data_setvariableto", "set_variable(sprite.clone(),stage.clone(),VARIABLE,VALUE);"));
    t.push(entry("data_changevariableby", "change_variable(sprite.clone(),stage.clone(),VARIABLE,VALUE);"));
    t.push(entry("data_addtolist", "add_to_list(sprite.clone(),stage.clone(),ITEM,LIST);"));
    t.push(entry("data_deleteoflist", "delete_from_list(sprite.clone(),stage.clone(),INDEX,LIST);"));
    t.push(entry("data_deletealloflist", "delete_all_of_list(sprite.clone(),stage.clone(),LIST);"));
    t.push(entry("data_insertatlist", "insert_item_in_list(sprite.clone(),stage.clone(),ITEM,INDEX,LIST);"));
    t.push(entry("data_replaceitemoflist", "replace_item_in_list(sprite.clone(),stage.clone(),ITEM,INDEX,LIST);"));
    t.push(entry("data_itemoflist", "get_item_of_list(sprite.clone(),stage.clone(),INDEX,LIST)"));
    t.push(entry("data_itemnumoflist", "get_item_num_in_list(Some(sprite.clone()),stage.clone(),ITEM,LIST)"));
    t.push(entry("data_lengthoflist", "length_of_list(sprite.clone(),stage.clone(),LIST)"));
    t.push(entry("data_listcontainsitem", "list_contains_item(sprite.clone(),stage.clone(),LIST,ITEM)"));
    t.push(entry("operator_add", "NUM1+NUM2"));
    t.push(entry("operator_subtract", "NUM1-NUM2"));
    t.push(entry("operator_multiply", "NUM1*NUM2"));
    t.push(entry("operator_divide", "NUM1/NUM2"));
    t.push(entry("operator_random", "generate_random(FROM,TO)"));
    t.push(entry("operator_lt", "Value::Bool(OPERAND1<OPERAND2)"));
    t.push(entry("operator_equals", "Value::Bool(OPERAND1==OPERAND2)"));
    t.push(entry("operator_gt", "Value::Bool(OPERAND1>OPERAND2)"));
    t.push(entry("operator_and", "Value::Bool(OPERAND1.into() && OPERAND2.into())"));
    t.push(entry("operator_or", "Value::Bool(OPERAND1.into()||OPERAND2.into())"));
    t.push(entry("operator_not", "!OPERAND"));
    t.push(entry("operator_join", "join(STRING1,STRING2)"));
    t.push(entry("operator_letter_of", "letter_of(LETTER,STRING)"));
    t.push(entry("operator_length", "length(STRING)"));
    t.push(entry("operator_contains", "contains(STRING1,STRING2)"));
    t.push(entry("operator_round", "round(NUM)"));
    t.push(entry("operator_mod", "modulus(NUM1,NUM2)"));
    t.push(entry("operator_mathop", "mathop(OPERATOR,NUM)"));
    t.push(entry("argument_reporter_string_number", "VALUE"));
    t.push(entry("sensing_keypressed", "key_pressed(stage.clone(),KEY_OPTION)"));
    t.push(entry("sensing_mousex", "mousex(stage.clone())"));
    t.push(entry("sensing_mousey", "mousey(stage.clone())"));
    t.push(entry("sensing_mousedown", "mouse_down(stage.clone())"));
    t.push(entry("sensing_askandwait", "ask(stage.clone(),QUESTION);"));
    t.push(entry("sensing_answer", "answer(stage.clone())"));
    t.push(entry("sensing_username", "username()"));
    t.push(entry("sensing_keyoptions", "Value::from(KEY_OPTION)"));
    t.push(entry("motion_goto_menu", "Value::from(TO)"));
    t.push(entry("sensing_dayssince2000", "days_since_2000()"));
    t.push(entry("pen_stamp", "stamp(sprite.clone().unwrap(),stage.clone());"));
    t.push(entry("pen_clear", "clear_pen(stage.clone());"));
    let r = OpTable { entries: t };
    proof {
        assert(r@ =~= spec_blocks_table());
    }
    r
}

} // verus!
