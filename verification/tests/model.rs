use blockc::gen::{
    generate_target, get_lists, get_variables, rotation_style_of_text, video_state_of_text,
    CostumeDecl, ListDecl, SoundDecl, TargetMeta, VarDecl, target_costumes, target_sounds,
};
use blockc::table::make_blocks_lookup;
use blockc::target::{RotationStyle, Sprite, Stage, VideoState};
use blockc::value::{from_int, Value};

fn empty_stage() -> Stage {
    Stage {
        tempo: 0,
        video_state: VideoState::Off,
        video_transparency: 0,
        tts_language: String::new(),
        volume: 0,
        costume: 0,
        costumes: Vec::new(),
        sounds: Vec::new(),
        vars: Vec::new(),
        lists: Vec::new(),
        sprites: Vec::new(),
        next_id: 100,
        answer: Value::Null,
        keys: Vec::new(),
        mouse_x: 0,
        mouse_y: 0,
        mouse_down: false,
        stamps: Vec::new(),
    }
}

fn sprite(name: &str, id: u64, layer: u64) -> Sprite {
    Sprite {
        name: String::from(name),
        id,
        x: 0,
        y: 0,
        size: 0,
        direction: 0,
        volume: 0,
        visible: true,
        draggable: false,
        rotation_style: RotationStyle::AllAround,
        layer,
        is_clone: false,
        pending_delete: false,
        costume: 0,
        costumes: Vec::new(),
        sounds: Vec::new(),
        vars: Vec::new(),
        lists: Vec::new(),
        effects: Vec::new(),
    }
}

fn text(s: &str) -> Value {
    Value::Text(String::from(s))
}

#[test]
fn cloning_inserts_directly_above_and_shifts_the_layers() {
    // sprites at layers 1, 2, 3; cloning the middle one gives 1, 2, 3, 4
    let mut st = empty_stage();
    st.sprites.push(sprite("a", 1, 1));
    st.sprites.push(sprite("b", 2, 2));
    st.sprites.push(sprite("c", 3, 3));
    let r = st.create_clone(1);
    assert_eq!(r, Some(2));
    let layers: Vec<u64> = st.sprites.iter().map(|s| s.layer).collect();
    assert_eq!(layers, vec![1, 2, 3, 4]);
    assert_eq!(st.sprites[2].name.as_str(), "b_clone");
    assert!(st.sprites[2].is_clone);
    assert_eq!(st.sprites[2].id, 100);
    // the clone sits directly above its source; a and c keep their order
    assert_eq!(st.sprites[1].name.as_str(), "b");
    assert_eq!(st.sprites[0].name.as_str(), "a");
    assert_eq!(st.sprites[3].name.as_str(), "c");
    assert_eq!(st.next_id, 101);
}

#[test]
fn variables_resolve_sprite_first_then_stage() {
    let mut st = empty_stage();
    st.sprites.push(sprite("a", 1, 1));
    let id = String::from("v1");
    let name = String::from("speed");
    // neither scope owns the id: the write creates it sprite-local
    st.set_variable(Some(0), &id, &name, from_int(3));
    assert_eq!(st.sprites[0].vars.len(), 1);
    assert_eq!(st.vars.len(), 0);
    assert!(blockc::value::equals(&st.get_variable(Some(0), &id), &from_int(3)));
    // a stage-owned id is written in place, with the sprite falling back
    let gid = String::from("g1");
    st.set_variable(None, &gid, &name, from_int(8));
    assert_eq!(st.vars.len(), 1);
    assert!(blockc::value::equals(&st.get_variable(Some(0), &gid), &from_int(8)));
    st.set_variable(Some(0), &gid, &name, from_int(9));
    assert_eq!(st.sprites[0].vars.len(), 1);
    assert!(blockc::value::equals(&st.get_variable(None, &gid), &from_int(9)));
    // an unknown id reads as null
    assert!(matches!(st.get_variable(Some(0), &String::from("nope")), Value::Null));
}

#[test]
fn change_variable_adds_numerically() {
    let mut st = empty_stage();
    let id = String::from("v");
    let name = String::from("n");
    st.set_variable(None, &id, &name, text("2.5"));
    st.change_variable(None, &id, &name, &from_int(2));
    assert!(blockc::value::equals(&st.get_variable(None, &id), &text("4.5")));
    // what reads as no number counts as zero
    st.set_variable(None, &id, &name, text("pear"));
    st.change_variable(None, &id, &name, &from_int(3));
    assert!(blockc::value::equals(&st.get_variable(None, &id), &from_int(3)));
}

#[test]
fn last_resolves_to_the_length_and_fails_when_empty() {
    let mut st = empty_stage();
    let id = String::from("l");
    let name = String::from("items");
    // deleting by "last" from an empty list changes nothing
    st.add_to_list(None, &id, &name, text("a"));
    st.delete_from_list(None, &text("last"), &id);
    assert_eq!(st.length_of_list(None, &id), 0);
    st.delete_from_list(None, &text("last"), &id);
    assert_eq!(st.length_of_list(None, &id), 0);
    // "last" reads the length-th (one-based) item
    st.add_to_list(None, &id, &name, text("a"));
    st.add_to_list(None, &id, &name, text("b"));
    st.add_to_list(None, &id, &name, text("c"));
    assert_eq!(st.length_of_list(None, &id), 3);
    let last = st.get_item_of_list(None, &text("last"), &id);
    assert!(blockc::value::equals(&last, &text("c")));
}

#[test]
fn out_of_range_indexes_fail_without_mutating() {
    let mut st = empty_stage();
    let id = String::from("l");
    let name = String::from("items");
    st.add_to_list(None, &id, &name, text("a"));
    st.add_to_list(None, &id, &name, text("b"));
    st.delete_from_list(None, &from_int(10), &id);
    st.delete_from_list(None, &from_int(0), &id);
    st.delete_from_list(None, &text("0.5"), &id);
    st.replace_item_in_list(None, text("z"), &from_int(3), &id);
    assert_eq!(st.length_of_list(None, &id), 2);
    assert!(blockc::value::equals(&st.get_item_of_list(None, &from_int(1), &id), &text("a")));
    assert!(blockc::value::equals(&st.get_item_of_list(None, &from_int(2), &id), &text("b")));
    // a failing read gives empty text
    assert!(matches!(st.get_item_of_list(None, &from_int(9), &id), Value::Text(t) if t.is_empty()));
    // a fractional position names the item of its whole part
    assert!(blockc::value::equals(&st.get_item_of_list(None, &text("1.5"), &id), &text("a")));
}

#[test]
fn list_edits_land_at_their_one_based_index() {
    let mut st = empty_stage();
    let id = String::from("l");
    let name = String::from("items");
    st.add_to_list(None, &id, &name, text("a"));
    st.add_to_list(None, &id, &name, text("b"));
    st.add_to_list(None, &id, &name, text("c"));
    st.delete_from_list(None, &from_int(2), &id);
    assert_eq!(st.length_of_list(None, &id), 2);
    assert!(blockc::value::equals(&st.get_item_of_list(None, &from_int(2), &id), &text("c")));
    st.insert_item_in_list(None, text("x"), &from_int(1), &id);
    assert!(blockc::value::equals(&st.get_item_of_list(None, &from_int(1), &id), &text("x")));
    st.insert_item_in_list(None, text("z"), &text("last"), &id);
    assert!(blockc::value::equals(&st.get_item_of_list(None, &text("last"), &id), &text("z")));
    st.replace_item_in_list(None, text("y"), &from_int(2), &id);
    assert!(blockc::value::equals(&st.get_item_of_list(None, &from_int(2), &id), &text("y")));
    // positions compare under the value order, so "2" finds the number 2
    st.delete_all_of_list(None, &id);
    st.add_to_list(None, &id, &name, from_int(5));
    st.add_to_list(None, &id, &name, text("5"));
    assert_eq!(st.get_item_num_in_list(None, &text("5"), &id), 1);
    assert!(st.list_contains_item(None, &id, &from_int(5)));
    assert!(!st.list_contains_item(None, &id, &from_int(6)));
}

#[test]
fn deletion_flags_clones_only() {
    let mut st = empty_stage();
    st.sprites.push(sprite("a", 1, 1));
    // an original sprite cannot be deleted
    st.delete_this_clone(0);
    assert!(!st.sprites[0].pending_delete);
    let mut c = sprite("a_clone", 2, 2);
    c.is_clone = true;
    st.sprites.push(c);
    st.delete_this_clone(1);
    assert!(st.sprites[1].pending_delete);
}

#[test]
fn variable_declarations_render_as_builder_calls() {
    let ds = vec![
        VarDecl {
            id: String::from("id1"),
            name: String::from("speed"),
            value: String::from("10"),
            is_string: false,
            cloud: false,
        },
        VarDecl {
            id: String::from("id2"),
            name: String::from("word"),
            value: String::from("hi"),
            is_string: true,
            cloud: false,
        },
    ];
    let out = get_variables(&ds).unwrap();
    assert_eq!(
        out.as_str(),
        ".add_variable(String::from(\"id1\"),(String::from(\"speed\"),Value::from(10)))\n.add_variable(String::from(r###\"id2\"###),(String::from(r###\"word\"###),Value::from(r###\"hi\"###)))\n"
    );
}

#[test]
fn cloud_variables_are_refused() {
    let ds = vec![VarDecl {
        id: String::from("id1"),
        name: String::from("n"),
        value: String::from("1"),
        is_string: false,
        cloud: true,
    }];
    assert!(get_variables(&ds).is_err());
}

#[test]
fn list_declarations_render_their_items() {
    let ds = vec![ListDecl {
        id: String::from("lid"),
        name: String::from("xs"),
        items: vec![(String::from("1"), false), (String::from("two"), true)],
    }];
    let out = get_lists(&ds);
    assert_eq!(
        out.as_str(),
        ".add_list(String::from(\"lid\"),(String::from(\"xs\"),vec![Value::from(1),Value::from(\"two\"),]))"
    );
}

#[test]
fn only_vector_costumes_are_declared() {
    let target = String::from("Cat");
    let ds = vec![
        CostumeDecl { name: String::from("walk"), data_format: String::from("svg") },
        CostumeDecl { name: String::from("photo"), data_format: String::from("png") },
    ];
    let out = target_costumes(&target, &ds);
    assert_eq!(
        out.as_str(),
        ".add_costume(Costume::new(&window, String::from(\"walk\"),PathBuf::from(\"assets/Cat/walk.svg\"),1.0).unwrap())\n"
    );
}

#[test]
fn sound_declarations_render_as_builder_calls() {
    let ds = vec![SoundDecl {
        name: String::from("pop"),
        data_format: String::from("wav"),
        rate: String::from("44100"),
        sample_count: String::from("1024"),
    }];
    let out = target_sounds(&ds);
    assert_eq!(
        out.as_str(),
        ".add_sound(Sound::new(String::from(\"pop\"),String::from(\"wav\"),44100,1024))\n"
    );
}

#[test]
fn enum_words_parse_and_print() {
    assert_eq!(video_state_of_text("on"), Some(VideoState::On));
    assert_eq!(video_state_of_text("off"), Some(VideoState::Off));
    assert_eq!(video_state_of_text("on-flipped"), Some(VideoState::OnFlipped));
    assert_eq!(video_state_of_text("sideways"), None);
    assert_eq!(rotation_style_of_text("all around"), Some(RotationStyle::AllAround));
    assert_eq!(rotation_style_of_text("left-right"), Some(RotationStyle::LeftRight));
    assert_eq!(rotation_style_of_text("don't rotate"), Some(RotationStyle::DontRotate));
    assert_eq!(rotation_style_of_text("spin"), None);
}

#[test]
fn a_sprite_target_generates_its_declaration() {
    let table = make_blocks_lookup();
    let m = TargetMeta {
        name: String::from("Cat"),
        is_stage: false,
        tempo: String::from("60"),
        video_state: VideoState::Off,
        video_transparency: String::from("50"),
        visible: true,
        x: String::from("12"),
        y: String::from("-7"),
        direction: String::from("90"),
        draggable: false,
        rotation_style: RotationStyle::AllAround,
        layer: String::from("1"),
        volume: String::from("100"),
        vars: Vec::new(),
        lists: Vec::new(),
        costumes: Vec::new(),
        sounds: Vec::new(),
    };
    let blocks = Vec::new();
    let code = generate_target(&m, &blocks, &table, 10).unwrap();
    assert_eq!(
        code.decl.as_str(),
        "let Cat_index = Stage.lock().unwrap().sprites.len();\nStage.lock().unwrap().add_sprite(Rc::new(Mutex::new(SpriteBuilder::new(\"Cat\".to_string()).visible(true).position(12f32,-7f32).direction(90f32).draggable(false).rotation_style(RotationStyle::AllAround).layer(1).set_volume(100f32).build())));\n"
    );
    assert_eq!(code.scripts.hats.len(), 0);
    assert_eq!(code.scripts.failures.len(), 0);
}

#[test]
fn motion_setters_and_deltas() {
    let mut st = empty_stage();
    st.sprites.push(sprite("a", 1, 1));
    st.set_x(0, 120_000);
    st.set_y(0, -45_000);
    st.change_x_by(0, 5_000);
    st.change_y_by(0, 5_000);
    assert_eq!(st.sprites[0].x, 125_000);
    assert_eq!(st.sprites[0].y, -40_000);
    st.point_in_direction(0, 900_000);
    assert_eq!(st.sprites[0].direction, 900_000);
    st.set_size(0, 2_000_000);
    assert_eq!(st.sprites[0].size, 2_000_000);
    st.set_visible(0, false);
    assert!(!st.sprites[0].visible);
    st.set_rotation_style(0, RotationStyle::LeftRight);
    assert_eq!(st.sprites[0].rotation_style, RotationStyle::LeftRight);
}

#[test]
fn costumes_switch_by_name_and_wrap() {
    let mut st = empty_stage();
    let mut sp = sprite("a", 1, 1);
    sp.costumes.push(String::from("walk"));
    sp.costumes.push(String::from("jump"));
    st.sprites.push(sp);
    st.switch_costume_to(0, &text("jump"));
    assert_eq!(st.sprites[0].costume, 1);
    st.switch_costume_to(0, &text("nowhere"));
    assert_eq!(st.sprites[0].costume, 1);
    st.next_costume(0);
    assert_eq!(st.sprites[0].costume, 0);
    st.next_costume(0);
    assert_eq!(st.sprites[0].costume, 1);
    st.costumes.push(String::from("sky"));
    st.costumes.push(String::from("sea"));
    st.switch_backdrop_to(&text("sea"));
    assert_eq!(st.costume, 1);
}

#[test]
fn sound_durations_resolve_sprite_first() {
    let mut st = empty_stage();
    st.sounds.push((String::from("pop"), 20_000));
    let mut sp = sprite("a", 1, 1);
    sp.sounds.push((String::from("pop"), 5_000));
    st.sprites.push(sp);
    assert_eq!(st.sound_duration(Some(0), &String::from("pop")), Some(5_000));
    assert_eq!(st.sound_duration(None, &String::from("pop")), Some(20_000));
    assert_eq!(st.sound_duration(Some(0), &String::from("hum")), None);
}

#[test]
fn key_snapshot_and_pen_layer() {
    let mut st = empty_stage();
    st.keys.push(String::from("space"));
    assert!(st.key_pressed(&String::from("space")));
    assert!(!st.key_pressed(&String::from("a")));
    st.sprites.push(sprite("a", 1, 1));
    st.set_x(0, 3);
    st.stamp(0);
    st.stamp(0);
    assert_eq!(st.stamps.len(), 2);
    assert_eq!(st.stamps[0], (3, 0, 0));
    st.clear_pen();
    assert_eq!(st.stamps.len(), 0);
}

#[test]
fn sprite_local_lists_shadow_the_stage() {
    let mut st = empty_stage();
    st.sprites.push(sprite("a", 1, 1));
    let id = String::from("l");
    let name = String::from("xs");
    // created sprite-local when neither scope owns it
    st.add_to_list(Some(0), &id, &name, text("a"));
    assert_eq!(st.sprites[0].lists.len(), 1);
    assert_eq!(st.lists.len(), 0);
    assert_eq!(st.length_of_list(Some(0), &id), 1);
    // the stage's own list is reached when the sprite has none
    let gid = String::from("g");
    st.add_to_list(None, &gid, &name, text("x"));
    st.add_to_list(Some(0), &gid, &name, text("y"));
    assert_eq!(st.length_of_list(None, &gid), 2);
}

#[test]
fn front_and_back_reorder_the_layers() {
    let mut st = empty_stage();
    st.sprites.push(sprite("a", 1, 1));
    st.sprites.push(sprite("b", 2, 5));
    st.sprites.push(sprite("c", 3, 9));
    st.go_to_front(0);
    let names: Vec<&str> = st.sprites.iter().map(|s| s.name.as_str()).collect();
    assert_eq!(names, vec!["b", "c", "a"]);
    let layers: Vec<u64> = st.sprites.iter().map(|s| s.layer).collect();
    assert_eq!(layers, vec![4, 8, 9]);
    st.go_to_back(2);
    let names: Vec<&str> = st.sprites.iter().map(|s| s.name.as_str()).collect();
    assert_eq!(names, vec!["a", "b", "c"]);
    let layers: Vec<u64> = st.sprites.iter().map(|s| s.layer).collect();
    assert_eq!(layers, vec![4, 5, 9]);
    // the edges are no-ops
    st.go_to_front(2);
    st.go_to_back(0);
    let layers: Vec<u64> = st.sprites.iter().map(|s| s.layer).collect();
    assert_eq!(layers, vec![4, 5, 9]);
}

#[test]
fn turning_sizing_and_volume_stay_in_range() {
    let mut st = empty_stage();
    st.sprites.push(sprite("a", 1, 1));
    st.point_in_direction(0, 0);
    st.turn_right(0, 900_000);
    st.turn_left(0, 300_000);
    assert_eq!(st.sprites[0].direction, 600_000);
    st.set_size(0, 1_000_000);
    st.change_size(0, -250_000);
    assert_eq!(st.sprites[0].size, 750_000);
    st.go_to_xy(0, 70_000, -30_000);
    assert_eq!((st.sprites[0].x, st.sprites[0].y), (70_000, -30_000));
    // volume is clamped into zero through one hundred percent
    st.set_volume(Some(0), 2_000_000);
    assert_eq!(st.sprites[0].volume, 1_000_000);
    st.change_volume(Some(0), -3_000_000);
    assert_eq!(st.sprites[0].volume, 0);
    st.set_volume(None, -5);
    assert_eq!(st.volume, 0);
    st.change_volume(None, 500_000);
    assert_eq!(st.volume, 500_000);
}

#[test]
fn effects_update_append_and_clear() {
    let mut st = empty_stage();
    st.sprites.push(sprite("a", 1, 1));
    let ghost_fx = String::from("ghost");
    st.set_effect(Some(0), &ghost_fx, 500_000);
    assert_eq!(st.sprites[0].effects.len(), 1);
    assert_eq!(st.sprites[0].effects[0].1, 500_000);
    st.change_effect(Some(0), &ghost_fx, -200_000);
    assert_eq!(st.sprites[0].effects[0].1, 300_000);
    let other = String::from("whirl");
    st.change_effect(Some(0), &other, 100_000);
    assert_eq!(st.sprites[0].effects.len(), 2);
    assert_eq!(st.sprites[0].effects[1].1, 100_000);
    st.clear_effects(Some(0));
    assert_eq!(st.sprites[0].effects.len(), 0);
    // the stage has no effect table: nothing changes
    st.set_effect(None, &ghost_fx, 1);
    assert_eq!(st.sprites[0].effects.len(), 0);
}

#[test]
fn costume_switching_resolves_names_numbers_and_steps() {
    let mut st = empty_stage();
    let mut sp = sprite("a", 1, 1);
    sp.costumes.push(String::from("walk"));
    sp.costumes.push(String::from("jump"));
    sp.costumes.push(String::from("fly"));
    st.sprites.push(sp);
    st.switch_costume_to(0, &text("fly"));
    assert_eq!(st.sprites[0].costume, 2);
    st.switch_costume_to(0, &from_int(1));
    assert_eq!(st.sprites[0].costume, 0);
    st.switch_costume_to(0, &text("next costume"));
    assert_eq!(st.sprites[0].costume, 1);
    st.switch_costume_to(0, &text("previous costume"));
    assert_eq!(st.sprites[0].costume, 0);
    st.switch_costume_to(0, &text("previous costume"));
    assert_eq!(st.sprites[0].costume, 2);
    st.switch_costume_to(0, &from_int(9));
    assert_eq!(st.sprites[0].costume, 2);
    st.previous_costume(0);
    assert_eq!(st.sprites[0].costume, 1);
}

#[test]
fn backdrop_switching_resolves_and_steps() {
    let mut st = empty_stage();
    st.costumes.push(String::from("sky"));
    st.costumes.push(String::from("sea"));
    st.costumes.push(String::from("cave"));
    st.switch_backdrop_to(&text("cave"));
    assert_eq!(st.costume, 2);
    st.switch_backdrop_to(&text("next backdrop"));
    assert_eq!(st.costume, 0);
    st.switch_backdrop_to(&text("previous backdrop"));
    assert_eq!(st.costume, 2);
    st.switch_backdrop_to(&from_int(2));
    assert_eq!(st.costume, 1);
    st.next_backdrop();
    assert_eq!(st.costume, 2);
    for _ in 0..10 {
        st.switch_backdrop_to(&text("random backdrop"));
        assert!(st.costume < 3);
    }
}

#[test]
fn layer_moves_keep_the_order_sorted() {
    let mut st = empty_stage();
    st.sprites.push(sprite("a", 1, 1));
    st.sprites.push(sprite("b", 2, 4));
    st.sprites.push(sprite("c", 3, 6));
    st.sprites.push(sprite("d", 4, 9));
    st.go_forward_layers(0, 2);
    let names: Vec<&str> = st.sprites.iter().map(|s| s.name.as_str()).collect();
    assert_eq!(names, vec!["b", "c", "a", "d"]);
    let layers: Vec<u64> = st.sprites.iter().map(|s| s.layer).collect();
    assert_eq!(layers, vec![1, 4, 6, 9]);
    st.go_backward_layers(2, 9);
    let names: Vec<&str> = st.sprites.iter().map(|s| s.name.as_str()).collect();
    assert_eq!(names, vec!["a", "b", "c", "d"]);
    // moving past the ends stops there
    st.go_forward_layers(3, 5);
    st.go_backward_layers(0, 5);
    let names: Vec<&str> = st.sprites.iter().map(|s| s.name.as_str()).collect();
    assert_eq!(names, vec!["a", "b", "c", "d"]);
}

#[test]
fn list_contents_run_together_only_when_single_letters() {
    let mut st = empty_stage();
    let id = String::from("l");
    let name = String::from("xs");
    st.add_to_list(None, &id, &name, text("a"));
    st.add_to_list(None, &id, &name, text("b"));
    st.add_to_list(None, &id, &name, from_int(7));
    let joined = st.get_list_contents(None, &id);
    assert!(matches!(joined, Value::Text(t) if t.as_str() == "ab7"));
    st.add_to_list(None, &id, &name, text("word"));
    let joined = st.get_list_contents(None, &id);
    assert!(matches!(joined, Value::Text(t) if t.as_str() == "a b 7 word"));
    let missing = st.get_list_contents(None, &String::from("nope"));
    assert!(matches!(missing, Value::Text(t) if t.is_empty()));
}

#[test]
fn cloning_is_refused_only_at_the_limits() {
    let mut st = empty_stage();
    st.sprites.push(sprite("a", 1, 1));
    // success is owed while the identity and the layers have room
    assert!(st.create_clone(0).is_some());
    st.sprites.push(sprite("top", 9, u64::MAX));
    assert_eq!(st.create_clone(0), None);
    st.sprites.pop();
    st.next_id = u64::MAX;
    assert_eq!(st.create_clone(0), None);
}
