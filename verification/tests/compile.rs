use blockc::blocks::{Arg, Block, BlockMap};
use blockc::compiler::{canonical_name, follow_stack, get_block, join_frags, CompileError};
use blockc::table::make_blocks_lookup;
use blockc::template::render;

fn block(opcode: &str) -> Block {
    Block::bare(String::from(opcode))
}

fn entry(id: &str, b: Block) -> (String, Block) {
    (String::from(id), b)
}

fn num_input(slot: &str, text: &str) -> (String, Arg) {
    (String::from(slot), Arg::NumberLit(String::from(text)))
}

#[test]
fn one_block_compiles_to_its_filled_template() {
    let table = make_blocks_lookup();
    let mut b = block("motion_setx");
    b.inputs.push(num_input("X", "7"));
    let bm: BlockMap = Vec::new();
    let frag = get_block(&b, &bm, &table, 10).unwrap();
    assert_eq!(render(&frag).as_str(), "set_x(sprite.clone().unwrap(),Value::from(7));");
}

#[test]
fn unknown_opcode_is_a_named_error() {
    let table = make_blocks_lookup();
    let b = block("motion_teleport");
    let bm: BlockMap = Vec::new();
    match get_block(&b, &bm, &table, 10) {
        Err(CompileError::UnknownOpcode(op)) => assert_eq!(op.as_str(), "motion_teleport"),
        _ => panic!("expected an unknown opcode error"),
    }
}

#[test]
fn malformed_literals_are_named_errors() {
    let table = make_blocks_lookup();
    let mut b = block("motion_setx");
    b.inputs.push((String::from("X"), Arg::MalformedLit(String::from("[99,\"?\"]"))));
    let bm: BlockMap = Vec::new();
    match get_block(&b, &bm, &table, 10) {
        Err(CompileError::MalformedLiteral(t)) => assert_eq!(t.as_str(), "[99,\"?\"]"),
        _ => panic!("expected a malformed literal error"),
    }
}

#[test]
fn stack_order_follows_next_links() {
    // a 3-block chain compiles to statements in exactly chain order
    let table = make_blocks_lookup();
    let mut a = block("motion_setx");
    a.inputs.push(num_input("X", "1"));
    a.next = Some(String::from("b"));
    let mut b = block("motion_changeyby");
    b.inputs.push(num_input("DY", "2"));
    b.next = Some(String::from("c"));
    let mut c = block("looks_say");
    c.inputs.push((String::from("MESSAGE"), Arg::StringLit(String::from("hi"))));
    let bm: BlockMap = vec![entry("a", a), entry("b", b), entry("c", c)];
    let frags = follow_stack(&String::from("a"), &bm, &table, 10).unwrap();
    assert_eq!(frags.len(), 3);
    assert_eq!(render(&frags[0]).as_str(), "set_x(sprite.clone().unwrap(),Value::from(1));");
    assert_eq!(render(&frags[1]).as_str(), "change_y_by(sprite.clone().unwrap(),Value::from(2));");
    assert_eq!(
        render(&frags[2]).as_str(),
        "say(Value::from(String::from(r###\"hi\"###)));"
    );
    let joined = join_frags(&frags);
    assert_eq!(
        render(&joined).as_str(),
        "set_x(sprite.clone().unwrap(),Value::from(1));\nchange_y_by(sprite.clone().unwrap(),Value::from(2));\nsay(Value::from(String::from(r###\"hi\"###)));"
    );
}

#[test]
fn substitution_never_corrupts_an_earlier_fragment() {
    // the first slot's literal text is itself a placeholder token;
    // filling the second slot must not touch it
    let table = make_blocks_lookup();
    let mut b = block("motion_gotoxy");
    b.inputs.push(num_input("X", "Y"));
    b.inputs.push(num_input("Y", "2"));
    let bm: BlockMap = Vec::new();
    let frag = get_block(&b, &bm, &table, 10).unwrap();
    assert_eq!(
        render(&frag).as_str(),
        "go_to_xy(sprite.clone().unwrap(),Value::from(Y),Value::from(2));"
    );
}

#[test]
fn nested_reporters_each_keep_their_own_literals() {
    let table = make_blocks_lookup();
    let mut inner = block("operator_add");
    inner.inputs.push(num_input("NUM1", "1"));
    inner.inputs.push(num_input("NUM2", "2"));
    let mut outer = block("operator_add");
    outer.inputs.push((String::from("NUM1"), Arg::SubStack(String::from("inner"))));
    outer.inputs.push(num_input("NUM2", "3"));
    let bm: BlockMap = vec![entry("inner", inner)];
    let frag = get_block(&outer, &bm, &table, 10).unwrap();
    assert_eq!(
        render(&frag).as_str(),
        "Value::from(1)+Value::from(2)+Value::from(3)"
    );
}

#[test]
fn leftover_holes_are_deleted() {
    // an empty loop body is legal: the hole is removed
    let table = make_blocks_lookup();
    let b = block("control_forever");
    let bm: BlockMap = Vec::new();
    let frag = get_block(&b, &bm, &table, 10).unwrap();
    assert_eq!(render(&frag).as_str(), "loop{\nYield::Start.await;}");
}

#[test]
fn substack_compiles_in_place() {
    let table = make_blocks_lookup();
    let mut body = block("motion_setx");
    body.inputs.push(num_input("X", "5"));
    let mut rep = block("control_forever");
    rep.inputs.push((String::from("SUBSTACK"), Arg::SubStack(String::from("body"))));
    let bm: BlockMap = vec![entry("body", body)];
    let frag = get_block(&rep, &bm, &table, 10).unwrap();
    assert_eq!(
        render(&frag).as_str(),
        "loop{set_x(sprite.clone().unwrap(),Value::from(5));\nYield::Start.await;}"
    );
}

#[test]
fn a_cyclic_graph_runs_out_of_fuel() {
    let table = make_blocks_lookup();
    let mut a = block("motion_setx");
    a.inputs.push(num_input("X", "1"));
    a.next = Some(String::from("a"));
    let bm: BlockMap = vec![entry("a", a)];
    match follow_stack(&String::from("a"), &bm, &table, 10) {
        Err(CompileError::OutOfDepth) => {},
        _ => panic!("expected the fuel to run out"),
    }
}

#[test]
fn procedure_calls_lower_to_the_canonical_name() {
    let table = make_blocks_lookup();
    let mut call = block("procedures_call");
    call.proccode = String::from("Jump %s");
    call.argumentids.push(String::from("input1"));
    call.inputs.push(num_input("input1", "5"));
    let bm: BlockMap = Vec::new();
    let frag = get_block(&call, &bm, &table, 10).unwrap();
    assert_eq!(
        render(&frag).as_str(),
        "stack_procedures_definition_jump_percent_s(sprite.clone(),stage.clone(), Value::from(5)).await;"
    );
}

#[test]
fn canonical_names_fold_markers_spaces_and_case() {
    assert_eq!(
        canonical_name(&String::from("Jump %s High %b")).as_str(),
        "jump_percent_s_high_percent_b"
    );
    assert_eq!(canonical_name(&String::from("Plain Name")).as_str(), "plain_name");
}

#[test]
fn variable_and_list_inputs_read_from_storage() {
    let table = make_blocks_lookup();
    let mut b = block("motion_setx");
    b.inputs.push((
        String::from("X"),
        Arg::VarRef(String::from("speed"), String::from("var-id-1")),
    ));
    let bm: BlockMap = Vec::new();
    let frag = get_block(&b, &bm, &table, 10).unwrap();
    assert_eq!(
        render(&frag).as_str(),
        "set_x(sprite.clone().unwrap(),get_variable(sprite.clone(),stage.clone(),\"var-id-1\"));"
    );
}

#[test]
fn data_fields_substitute_as_name_id_pairs() {
    let table = make_blocks_lookup();
    let mut b = block("data_setvariableto");
    b.inputs.push((String::from("VALUE"), Arg::NumberLit(String::from("1"))));
    b.fields.push((String::from("VARIABLE"), String::from("speed"), String::from("var-id-1")));
    let bm: BlockMap = Vec::new();
    let frag = get_block(&b, &bm, &table, 10).unwrap();
    assert_eq!(
        render(&frag).as_str(),
        "set_variable(sprite.clone(),stage.clone(),(String::from(\"speed\"),String::from(\"var-id-1\")),Value::from(1));"
    );
}

#[test]
fn the_table_knows_its_opcodes() {
    let table = make_blocks_lookup();
    assert!(table.lookup(&String::from("motion_setx")).is_some());
    assert!(table.lookup(&String::from("control_if_else")).is_some());
    assert!(table.lookup(&String::from("no_such_opcode")).is_none());
    assert_eq!(table.entries.len(), 86);
}
