use blockc::blocks::{Arg, Block};
use blockc::hats::{
    create_all_hats, create_hat_with, expand_custom_blocks, handle_custom_block, Hat, HatError,
    SkipReason, StartType,
};
use blockc::gen::target_code_text;
use blockc::ident::parse_id;
use blockc::table::make_blocks_lookup;
use blockc::text::{remove_all, replace_first};

fn block(opcode: &str) -> Block {
    Block::bare(String::from(opcode))
}

fn entry(id: &str, b: Block) -> (String, Block) {
    (String::from(id), b)
}

fn flag_hat_with_setx(next_id: &str) -> Block {
    let mut h = block("event_whenflagclicked");
    h.top_level = true;
    h.next = Some(String::from(next_id));
    h
}

#[test]
fn a_flag_hat_assembles_with_its_suffix() {
    let table = make_blocks_lookup();
    let mut body = block("motion_setx");
    body.inputs.push((String::from("X"), Arg::NumberLit(String::from("1"))));
    let hat_block = flag_hat_with_setx("body");
    let bm = vec![entry("hat", hat_block), entry("body", body)];
    let hat = create_hat_with(&bm[0].1, &bm, &table, &String::from("Cat"), 42, 10).unwrap();
    assert_eq!(hat.name.as_str(), "event_whenflagclicked42");
    assert_eq!(hat.body.as_str(), "set_x(sprite.clone().unwrap(),Value::from(1));");
    assert!(matches!(hat.start, StartType::FlagClicked));
    assert!(!hat.custom);
}

#[test]
fn clone_hats_carry_the_sprite_clone_name() {
    let table = make_blocks_lookup();
    let mut h = block("control_start_as_clone");
    h.top_level = true;
    let bm = vec![entry("hat", h)];
    let hat = create_hat_with(&bm[0].1, &bm, &table, &String::from("Cat"), 7, 10).unwrap();
    match &hat.start {
        StartType::StartAsClone(n) => assert_eq!(n.as_str(), "Cat_clone"),
        _ => panic!("expected a clone start"),
    }
}

#[test]
fn blocks_that_are_no_hats_are_skipped() {
    let table = make_blocks_lookup();
    let name = String::from("Cat");
    // not at the top level
    let b1 = block("event_whenflagclicked");
    let bm1 = vec![entry("x", b1)];
    assert!(matches!(
        create_hat_with(&bm1[0].1, &bm1, &table, &name, 0, 10),
        Err(HatError::Skip(SkipReason::NotTopLevel))
    ));
    // hangs under a parent
    let mut b2 = block("event_whenflagclicked");
    b2.top_level = true;
    b2.parent = Some(String::from("p"));
    let bm2 = vec![entry("x", b2)];
    assert!(matches!(
        create_hat_with(&bm2[0].1, &bm2, &table, &name, 0, 10),
        Err(HatError::Skip(SkipReason::HasParent))
    ));
    // no starter opcode
    let mut b3 = block("motion_setx");
    b3.top_level = true;
    let bm3 = vec![entry("x", b3)];
    assert!(matches!(
        create_hat_with(&bm3[0].1, &bm3, &table, &name, 0, 10),
        Err(HatError::Skip(SkipReason::NotHat))
    ));
}

fn custom_definition() -> Vec<(String, Block)> {
    // a warped custom procedure whose body is an empty forever loop
    let mut def = block("procedures_definition");
    def.top_level = true;
    def.inputs.push((String::from("custom_block"), Arg::SubStack(String::from("proto"))));
    def.next = Some(String::from("body"));
    let mut proto = block("procedures_prototype");
    proto.proccode = String::from("do thing %s");
    proto.argumentnames.push(String::from("Foo"));
    proto.warp = true;
    let body = block("control_forever");
    vec![entry("def", def), entry("proto", proto), entry("body", body)]
}

#[test]
fn warp_strips_the_yield_points() {
    let table = make_blocks_lookup();
    let bm = custom_definition();
    let hat = create_hat_with(&bm[0].1, &bm, &table, &String::from("Cat"), 0, 10).unwrap();
    assert_eq!(hat.name.as_str(), "procedures_definition_do_thing_percent_s");
    assert_eq!(hat.body.as_str(), "loop{\n}");
    assert!(hat.custom);
    assert_eq!(hat.params.len(), 1);
    assert_eq!(hat.params[0].as_str(), "foo");
}

#[test]
fn custom_definitions_are_gathered_under_their_call_name() {
    let table = make_blocks_lookup();
    let bm = custom_definition();
    let (name, body) = handle_custom_block(&bm[0].1, &bm, &table, 10).unwrap();
    assert_eq!(name.as_str(), "stack_procedures_definition_do_thing_percent_s");
    assert_eq!(body.as_str(), "loop{\n}");
}

#[test]
fn expansion_replaces_the_first_occurrence_of_each_name() {
    let mut body = String::from("A B A");
    let defs = vec![(String::from("A"), String::from("z"))];
    expand_custom_blocks(&mut body, &defs);
    assert_eq!(body.as_str(), "z B A");
}

#[test]
fn all_hats_skip_quietly_and_record_failures() {
    let table = make_blocks_lookup();
    let mut good = flag_hat_with_setx("body");
    good.next = None;
    let mut bad = block("event_whenkeypressed");
    bad.top_level = true;
    bad.next = Some(String::from("broken"));
    let broken = block("motion_teleport");
    let stray = block("motion_setx");
    let bm = vec![
        entry("good", good),
        entry("bad", bad),
        entry("broken", broken),
        entry("stray", stray),
    ];
    let scripts = create_all_hats(&bm, &table, &String::from("Cat"), 10);
    assert_eq!(scripts.hats.len(), 1);
    assert_eq!(scripts.failures.len(), 1);
    assert!(scripts.hats[0].name.as_str().starts_with("event_whenflagclicked"));
}

#[test]
fn emitted_code_registers_threads_with_their_owner() {
    let table = make_blocks_lookup();
    let name = String::from("Cat");
    let mut body = block("motion_setx");
    body.inputs.push((String::from("X"), Arg::NumberLit(String::from("1"))));
    let flag = flag_hat_with_setx("body");
    let mut clone_hat = block("control_start_as_clone");
    clone_hat.top_level = true;
    let bm = vec![entry("flag", flag), entry("clone", clone_hat), entry("body", body)];
    let h1 = create_hat_with(&bm[0].1, &bm, &table, &name, 42, 10).unwrap();
    let h2 = create_hat_with(&bm[1].1, &bm, &table, &name, 7, 10).unwrap();
    let hats = vec![h1, h2];
    let code = target_code_text(&name, false, &hats);
    let code = code.as_str();
    // each hat's procedure is emitted
    assert!(code.contains(
        "async fn stack_event_whenflagclicked42(sprite: Option<Rc<Mutex<Sprite>>>, stage: Rc<Mutex<Stage>>){set_x(sprite.clone().unwrap(),Value::from(1));}"
    ));
    // each non-custom hat is registered as a thread owned by the sprite
    assert!(code.contains(
        "program.add_thread(Thread::new(stack_event_whenflagclicked42(Some(stage.sprites[Cat_index].clone()),Stage.clone()),StartType::FlagClicked,Some(stage.sprites[Cat_index].lock().unwrap().uuid)));"
    ));
    assert_eq!(code.matches("program.add_thread").count(), 2);
    // the clone re-instantiation procedure builds a thread per
    // clone-started hat, owned by the clone's identity
    assert!(code.contains(
        "fn clone_Cat(sprite: Rc<Mutex<Sprite>>, stage: Rc<Mutex<Stage>>) -> Vec<Thread>{\nlet mut v = Vec::new();\nv.push(Thread::new(stack_control_start_as_clone7(Some(sprite.clone()),stage.clone()),StartType::StartAsClone(\"Cat_clone\".to_string()),Some(sprite.lock().unwrap().uuid)));\nv\n}"
    ));
}

#[test]
fn custom_definitions_are_emitted_with_parameters_and_never_registered() {
    let table = make_blocks_lookup();
    let name = String::from("Cat");
    let bm = custom_definition();
    let hat = create_hat_with(&bm[0].1, &bm, &table, &name, 0, 10).unwrap();
    let hats = vec![hat];
    let code = target_code_text(&name, false, &hats);
    let code = code.as_str();
    assert!(code.contains(
        "async fn stack_procedures_definition_do_thing_percent_s(sprite: Option<Rc<Mutex<Sprite>>>, stage: Rc<Mutex<Stage>>, foo: Value){loop{\n}}"
    ));
    assert_eq!(code.matches("program.add_thread").count(), 0);
}

#[test]
fn replace_first_and_remove_all_work_left_to_right() {
    assert_eq!(replace_first("abcabc", "b", "X").as_str(), "aXcabc");
    assert_eq!(replace_first("abc", "zz", "X").as_str(), "abc");
    assert_eq!(remove_all("xYxY", "Y").as_str(), "xx");
    assert_eq!(remove_all("aaa", "aa").as_str(), "a");
    assert_eq!(remove_all("abc", "").as_str(), "abc");
}

#[test]
fn project_identifiers_parse_from_both_forms() {
    assert_eq!(parse_id("510186917"), Ok(510186917));
    assert_eq!(parse_id("https://scratch.mit.edu/projects/510186917"), Ok(510186917));
    assert_eq!(parse_id("https://scratch.mit.edu/projects/510186917/editor"), Ok(510186917));
    assert_eq!(parse_id("123abc"), Ok(123));
    assert_eq!(parse_id("abc"), Err(()));
    assert_eq!(parse_id(""), Err(()));
    assert_eq!(parse_id("https://scratch.mit.edu/projects/x"), Err(()));
}
