//! Generation of a target's scaffolding code: the builder chain that
//! declares a stage or sprite with its costumes, sounds, variables and
//! lists, around the assembled scripts. The declared values arrive as
//! plain text from the project's parser and are interpolated, never
//! interpreted.

use vstd::prelude::*;

use crate::hats::{create_all_hats, hats_view, scripts_match, Hat, HatView, StartType, StartView, TargetScripts};
use crate::table::OpTable;
use crate::blocks::BlockMap;
use crate::target::{RotationStyle, VideoState};

verus! {

broadcast use vstd::string::group_string_axioms;

/// One declared variable: id, display name, initial value text, and
/// whether the value is string-typed; cloud variables are refused.
#[derive(Debug)]
pub struct VarDecl {
    pub id: String,
    pub name: String,
    pub value: String,
    pub is_string: bool,
    pub cloud: bool,
}

/// One declared list: id, display name and item texts, each marked
/// string-typed or not.
#[derive(Debug)]
pub struct ListDecl {
    pub id: String,
    pub name: String,
    pub items: Vec<(String, bool)>,
}

/// One declared costume.
#[derive(Debug)]
pub struct CostumeDecl {
    pub name: String,
    pub data_format: String,
}

/// One declared sound.
#[derive(Debug)]
pub struct SoundDecl {
    pub name: String,
    pub data_format: String,
    pub rate: String,
    pub sample_count: String,
}

/// The declaration line one variable contributes.
pub open spec fn spec_var_text(d: VarDecl) -> Seq<char> {
    if d.is_string {
        ".add_variable(String::from(r###\""@ + d.id@ + "\"###),(String::from(r###\""@ + d.name@
            + "\"###),Value::from(r###\""@ + d.value@ + "\"###)))\n"@
    } else {
        ".add_variable(String::from(\""@ + d.id@ + "\"),(String::from(\""@ + d.name@
            + "\"),Value::from("@ + d.value@ + ")))\n"@
    }
}

/// The declaration lines of the first `i` variables.
pub open spec fn spec_vars_text(ds: Seq<VarDecl>, i: int) -> Seq<char>
    decreases i,
{
    if i <= 0 {
        Seq::<char>::empty()
    } else {
        spec_vars_text(ds, i - 1) + spec_var_text(ds[i - 1])
    }
}

/// The index of the first cloud variable, if any.
pub open spec fn spec_first_cloud(ds: Seq<VarDecl>) -> Option<int>
    decreases ds.len(),
{
    if ds.len() == 0 {
        Option::None
    } else if ds[0].cloud {
        Option::Some(0int)
    } else {
        match spec_first_cloud(ds.drop_first()) {
            Option::Some(i) => Option::Some(i + 1),
            Option::None => Option::None,
        }
    }
}

/// The declaration lines of a target's variables, as builder calls.
/// Cloud variables are not supported and refuse the whole target.
pub fn get_variables(ds: &Vec<VarDecl>) -> (r: Result<String, ()>)
    ensures
        match r {
            Result::Ok(s) => spec_first_cloud(ds@) is None && s@ == spec_vars_text(
                ds@,
                ds@.len() as int,
            ),
            Result::Err(_) => spec_first_cloud(ds@) is Some,
        },
{
    let mut out = String::new();
    let mut i: usize = 0;
    while i < ds.len()
        invariant
            i <= ds@.len(),
            out@ == spec_vars_text(ds@, i as int),
            forall|j: int| 0 <= j < i ==> !(#[trigger] ds@[j]).cloud,
        decreases ds@.len() - i,
    {
        let d = &ds[i];
        if d.cloud {
            proof {
                lemma_first_cloud(ds@);
            }
            return Result::Err(());
        }
        let line = if d.is_string {
            String::from_str(".add_variable(String::from(r###\"").concat(d.id.as_str()).concat(
                "\"###),(String::from(r###\"",
            ).concat(d.name.as_str()).concat("\"###),Value::from(r###\"").concat(
                d.value.as_str(),
            ).concat("\"###)))\n")
        } else {
            String::from_str(".add_variable(String::from(\"").concat(d.id.as_str()).concat(
                "\"),(String::from(\"",
            ).concat(d.name.as_str()).concat("\"),Value::from(").concat(d.value.as_str()).concat(
                ")))\n",
            )
        };
        out = out.concat(line.as_str());
        proof {
            assert(out@ =~= spec_vars_text(ds@, i + 1 as int));
        }
        i = i + 1;
    }
    proof {
        lemma_first_cloud(ds@);
    }
    Result::Ok(out)
}

proof fn lemma_first_cloud(ds: Seq<VarDecl>)
    ensures
        match spec_first_cloud(ds) {
            Option::Some(i) => 0 <= i < ds.len() && ds[i].cloud,
            Option::None => forall|j: int| 0 <= j < ds.len() ==> !(#[trigger] ds[j]).cloud,
        },
    decreases ds.len(),
{
    if ds.len() > 0 && !ds[0].cloud {
        lemma_first_cloud(ds.drop_first());
        let t = ds.drop_first();
        match spec_first_cloud(t) {
            Option::Some(i) => {
                assert(ds[i + 1] == t[i]);
            },
            Option::None => {
                assert forall|j: int| 0 <= j < ds.len() implies !(#[trigger] ds[j]).cloud by {
                    if j > 0 {
                        assert(t[j - 1] == ds[j]);
                    }
                }
            },
        }
    }
}

/// The item expressions of the first `i` items of a list literal.
pub open spec fn spec_items_text(items: Seq<(String, bool)>, i: int) -> Seq<char>
    decreases i,
{
    if i <= 0 {
        Seq::<char>::empty()
    } else {
        spec_items_text(items, i - 1) + (if items[i - 1].1 {
            "Value::from(\""@ + items[i - 1].0@ + "\")"@
        } else {
            "Value::from("@ + items[i - 1].0@ + ")"@
        }) + ","@
    }
}

/// The declaration line one list contributes.
pub open spec fn spec_list_text(d: ListDecl) -> Seq<char> {
    ".add_list(String::from(\""@ + d.id@ + "\"),(String::from(\""@ + d.name@ + "\"),vec!["@
        + spec_items_text(d.items@, d.items@.len() as int) + "]))"@
}

/// The declaration lines of the first `i` lists.
pub open spec fn spec_lists_text(ds: Seq<ListDecl>, i: int) -> Seq<char>
    decreases i,
{
    if i <= 0 {
        Seq::<char>::empty()
    } else {
        spec_lists_text(ds, i - 1) + spec_list_text(ds[i - 1])
    }
}

/// The declaration lines of a target's lists, as builder calls.
pub fn get_lists(ds: &Vec<ListDecl>) -> (r: String)
    ensures
        r@ == spec_lists_text(ds@, ds@.len() as int),
{
    let mut out = String::new();
    let mut i: usize = 0;
    while i < ds.len()
        invariant
            i <= ds@.len(),
            out@ == spec_lists_text(ds@, i as int),
        decreases ds@.len() - i,
    {
        let d = &ds[i];
        let mut lit = String::new();
        let mut k: usize = 0;
        while k < d.items.len()
            invariant
                k <= d.items@.len(),
                lit@ == spec_items_text(d.items@, k as int),
            decreases d.items@.len() - k,
        {
            let piece = if d.items[k].1 {
                String::from_str("Value::from(\"").concat(d.items[k].0.as_str()).concat("\")")
            } else {
                String::from_str("Value::from(").concat(d.items[k].0.as_str()).concat(")")
            };
            lit = lit.concat(piece.as_str()).concat(",");
            proof {
                assert(lit@ =~= spec_items_text(d.items@, k + 1 as int));
            }
            k = k + 1;
        }
        let line = String::from_str(".add_list(String::from(\"").concat(d.id.as_str()).concat(
            "\"),(String::from(\"",
        ).concat(d.name.as_str()).concat("\"),vec![").concat(lit.as_str()).concat("]))");
        out = out.concat(line.as_str());
        proof {
            assert(out@ =~= spec_lists_text(ds@, i + 1 as int));
        }
        i = i + 1;
    }
    out
}

/// The costume line one declaration contributes for the named target;
/// only vector costumes are handled, the rest are skipped.
pub open spec fn spec_costume_text(target: Seq<char>, d: CostumeDecl) -> Seq<char> {
    if d.data_format@ == "svg"@ {
        ".add_costume(Costume::new(&window, String::from(\""@ + d.name@
            + "\"),PathBuf::from(\"assets/"@ + target + "/"@ + d.name@ + "."@ + d.data_format@
            + "\"),1.0).unwrap())\n"@
    } else {
        Seq::<char>::empty()
    }
}

pub open spec fn spec_costumes_text(target: Seq<char>, ds: Seq<CostumeDecl>, i: int) -> Seq<char>
    decreases i,
{
    if i <= 0 {
        Seq::<char>::empty()
    } else {
        spec_costumes_text(target, ds, i - 1) + spec_costume_text(target, ds[i - 1])
    }
}

/// The costume declaration lines of a target.
pub fn target_costumes(target: &String, ds: &Vec<CostumeDecl>) -> (r: String)
    ensures
        r@ == spec_costumes_text(target@, ds@, ds@.len() as int),
{
    proof {
        reveal_strlit("svg");
    }
    let svg = String::from_str("svg");
    let mut out = String::new();
    let mut i: usize = 0;
    while i < ds.len()
        invariant
            i <= ds@.len(),
            svg@ == "svg"@,
            out@ == spec_costumes_text(target@, ds@, i as int),
        decreases ds@.len() - i,
    {
        let d = &ds[i];
        if d.data_format == svg {
            let line = String::from_str(".add_costume(Costume::new(&window, String::from(\"")
                .concat(d.name.as_str()).concat("\"),PathBuf::from(\"assets/")
                .concat(target.as_str()).concat("/").concat(d.name.as_str()).concat(".")
                .concat(d.data_format.as_str()).concat("\"),1.0).unwrap())\n");
            out = out.concat(line.as_str());
        }
        proof {
            assert(out@ =~= spec_costumes_text(target@, ds@, i + 1 as int));
        }
        i = i + 1;
    }
    out
}

/// The sound line one declaration contributes.
pub open spec fn spec_sound_text(d: SoundDecl) -> Seq<char> {
    ".add_sound(Sound::new(String::from(\""@ + d.name@ + "\"),String::from(\""@ + d.data_format@
        + "\"),"@ + d.rate@ + ","@ + d.sample_count@ + "))\n"@
}

pub open spec fn spec_sounds_text(ds: Seq<SoundDecl>, i: int) -> Seq<char>
    decreases i,
{
    if i <= 0 {
        Seq::<char>::empty()
    } else {
        spec_sounds_text(ds, i - 1) + spec_sound_text(ds[i - 1])
    }
}

/// The sound declaration lines of a target.
pub fn target_sounds(ds: &Vec<SoundDecl>) -> (r: String)
    ensures
        r@ == spec_sounds_text(ds@, ds@.len() as int),
{
    let mut out = String::new();
    let mut i: usize = 0;
    while i < ds.len()
        invariant
            i <= ds@.len(),
            out@ == spec_sounds_text(ds@, i as int),
        decreases ds@.len() - i,
    {
        let d = &ds[i];
        let line = String::from_str(".add_sound(Sound::new(String::from(\"").concat(
            d.name.as_str(),
        ).concat("\"),String::from(\"").concat(d.data_format.as_str()).concat("\"),").concat(
            d.rate.as_str(),
        ).concat(",").concat(d.sample_count.as_str()).concat("))\n");
        out = out.concat(line.as_str());
        proof {
            assert(out@ =~= spec_sounds_text(ds@, i + 1 as int));
        }
        i = i + 1;
    }
    out
}

} // verus!

verus! {

/// The source spelling of a video state.
pub open spec fn spec_video_state_text(v: VideoState) -> Seq<char> {
    match v {
        VideoState::On => "VideoState::On"@,
        VideoState::Off => "VideoState::Off"@,
        VideoState::OnFlipped => "VideoState::OnFlipped"@,
    }
}

/// The source spelling of a rotation style.
pub open spec fn spec_rotation_style_text(v: RotationStyle) -> Seq<char> {
    match v {
        RotationStyle::AllAround => "RotationStyle::AllAround"@,
        RotationStyle::LeftRight => "RotationStyle::LeftRight"@,
        RotationStyle::DontRotate => "RotationStyle::DontRotate"@,
    }
}

/// The source spelling of a video state.
pub fn video_state_text(v: VideoState) -> (r: String)
    ensures
        r@ == spec_video_state_text(v),
{
    match v {
        VideoState::On => String::from_str("VideoState::On"),
        VideoState::Off => String::from_str("VideoState::Off"),
        VideoState::OnFlipped => String::from_str("VideoState::OnFlipped"),
    }
}

/// The source spelling of a rotation style.
pub fn rotation_style_text(v: RotationStyle) -> (r: String)
    ensures
        r@ == spec_rotation_style_text(v),
{
    match v {
        RotationStyle::AllAround => String::from_str("RotationStyle::AllAround"),
        RotationStyle::LeftRight => String::from_str("RotationStyle::LeftRight"),
        RotationStyle::DontRotate => String::from_str("RotationStyle::DontRotate"),
    }
}

/// Read a project's video-state word.
pub fn video_state_of_text(s: &str) -> (r: Option<VideoState>)
    ensures
        s@ == "on"@ ==> r == Option::Some(VideoState::On),
        s@ == "off"@ ==> r == Option::Some(VideoState::Off),
        s@ == "on-flipped"@ ==> r == Option::Some(VideoState::OnFlipped),
        s@ != "on"@ && s@ != "off"@ && s@ != "on-flipped"@ ==> r is None,
{
    proof {
        reveal_strlit("on");
        reveal_strlit("off");
        reveal_strlit("on-flipped");
        assert("on"@ =~= seq!['o', 'n']);
        assert("off"@ =~= seq!['o', 'f', 'f']);
        assert("on-flipped"@ =~= seq!['o', 'n', '-', 'f', 'l', 'i', 'p', 'p', 'e', 'd']);
    }
    let t = String::from_str(s);
    if t == String::from_str("on") {
        Option::Some(VideoState::On)
    } else if t == String::from_str("off") {
        Option::Some(VideoState::Off)
    } else if t == String::from_str("on-flipped") {
        Option::Some(VideoState::OnFlipped)
    } else {
        Option::None
    }
}

/// Read a project's rotation-style word.
pub fn rotation_style_of_text(s: &str) -> (r: Option<RotationStyle>)
    ensures
        s@ == "all around"@ ==> r == Option::Some(RotationStyle::AllAround),
        s@ == "left-right"@ ==> r == Option::Some(RotationStyle::LeftRight),
        s@ == "don't rotate"@ ==> r == Option::Some(RotationStyle::DontRotate),
        s@ != "all around"@ && s@ != "left-right"@ && s@ != "don't rotate"@ ==> r is None,
{
    proof {
        reveal_strlit("all around");
        reveal_strlit("left-right");
        reveal_strlit("don't rotate");
        assert("all around"@ =~= seq!['a', 'l', 'l', ' ', 'a', 'r', 'o', 'u', 'n', 'd']);
        assert("left-right"@ =~= seq!['l', 'e', 'f', 't', '-', 'r', 'i', 'g', 'h', 't']);
        assert("don't rotate"@ =~= seq![
            'd', 'o', 'n', '\'', 't', ' ', 'r', 'o', 't', 'a', 't', 'e',
        ]);
    }
    let t = String::from_str(s);
    if t == String::from_str("all around") {
        Option::Some(RotationStyle::AllAround)
    } else if t == String::from_str("left-right") {
        Option::Some(RotationStyle::LeftRight)
    } else if t == String::from_str("don't rotate") {
        Option::Some(RotationStyle::DontRotate)
    } else {
        Option::None
    }
}

/// The source spelling of a truth value.
pub open spec fn spec_bool_text(b: bool) -> Seq<char> {
    if b {
        "true"@
    } else {
        "false"@
    }
}

fn bool_text(b: bool) -> (r: String)
    ensures
        r@ == spec_bool_text(b),
{
    if b {
        String::from_str("true")
    } else {
        String::from_str("false")
    }
}

/// What a target declares: its transform and presentation fields as
/// the parser's raw texts, its enum fields decoded, and its costume,
/// sound, variable and list declarations.
#[derive(Debug)]
pub struct TargetMeta {
    pub name: String,
    pub is_stage: bool,
    pub tempo: String,
    pub video_state: VideoState,
    pub video_transparency: String,
    pub visible: bool,
    pub x: String,
    pub y: String,
    pub direction: String,
    pub draggable: bool,
    pub rotation_style: RotationStyle,
    pub layer: String,
    pub volume: String,
    pub vars: Vec<VarDecl>,
    pub lists: Vec<ListDecl>,
    pub costumes: Vec<CostumeDecl>,
    pub sounds: Vec<SoundDecl>,
}

/// A target's generated code: the declaration text, the script code
/// (procedures, registrations and the clone re-instantiation
/// procedure) and the assembled scripts in structured form.
#[derive(Debug)]
pub struct TargetCode {
    pub decl: String,
    pub code: String,
    pub scripts: TargetScripts,
}

/// The stage's declaration text.
pub open spec fn spec_stage_decl(m: TargetMeta) -> Seq<char> {
    "let mut "@ + m.name@ + "=Rc::new(Mutex::new(StageBuilder::new().tempo("@ + m.tempo@
        + ").video_state("@ + spec_video_state_text(m.video_state) + ").video_transparency("@
        + m.video_transparency@ + ")"@ + spec_costumes_text(
        m.name@,
        m.costumes@,
        m.costumes@.len() as int,
    ) + spec_sounds_text(m.sounds@, m.sounds@.len() as int) + spec_vars_text(
        m.vars@,
        m.vars@.len() as int,
    ) + spec_lists_text(m.lists@, m.lists@.len() as int) + ".set_volume("@ + m.volume@
        + "f32).build()));\n"@
}

/// A sprite's declaration text.
pub open spec fn spec_sprite_decl(m: TargetMeta) -> Seq<char> {
    "let "@ + m.name@ + "_index = Stage.lock().unwrap().sprites.len();\n"@
        + "Stage.lock().unwrap().add_sprite(Rc::new(Mutex::new(SpriteBuilder::new(\""@ + m.name@
        + "\".to_string()).visible("@ + spec_bool_text(m.visible) + ").position("@ + m.x@
        + "f32,"@ + m.y@ + "f32).direction("@ + m.direction@ + "f32).draggable("@
        + spec_bool_text(m.draggable) + ").rotation_style("@ + spec_rotation_style_text(
        m.rotation_style,
    ) + ").layer("@ + m.layer@ + ")"@ + spec_costumes_text(
        m.name@,
        m.costumes@,
        m.costumes@.len() as int,
    ) + spec_sounds_text(m.sounds@, m.sounds@.len() as int) + spec_vars_text(
        m.vars@,
        m.vars@.len() as int,
    ) + spec_lists_text(m.lists@, m.lists@.len() as int) + ".set_volume("@ + m.volume@
        + "f32).build())));\n"@
}

/// Generate one target's code: the stage or sprite declaration around
/// its costume, sound, variable and list lines, and the assembled
/// scripts of its block graph. A cloud variable refuses the target.
#[verifier::rlimit(60)]
#[verifier::spinoff_prover]
pub fn generate_target(m: &TargetMeta, blocks: &BlockMap, table: &OpTable, fuel: u64) -> (r:
    Result<TargetCode, ()>)
    ensures
        match r {
            Result::Ok(code) => {
                &&& spec_first_cloud(m.vars@) is None
                &&& code.decl@ == (if m.is_stage {
                    spec_stage_decl(*m)
                } else {
                    spec_sprite_decl(*m)
                })
                &&& code.code@ == spec_target_code(
                    m.name@,
                    m.is_stage,
                    hats_view(code.scripts.hats@),
                )
                &&& (exists|sfx: Seq<nat>| #[trigger] scripts_match(
                    blocks@,
                    table@,
                    m.name@,
                    code.scripts,
                    sfx,
                    fuel as nat,
                ))
            },
            Result::Err(_) => spec_first_cloud(m.vars@) is Some,
        },
{
    let vars = match get_variables(&m.vars) {
        Result::Ok(s) => s,
        Result::Err(_) => {
            return Result::Err(());
        },
    };
    let lists = get_lists(&m.lists);
    let costumes = target_costumes(&m.name, &m.costumes);
    let sounds = target_sounds(&m.sounds);
    let scripts = create_all_hats(blocks, table, &m.name, fuel);
    let decl = if m.is_stage {
        let d = String::from_str("let mut ").concat(m.name.as_str()).concat(
            "=Rc::new(Mutex::new(StageBuilder::new().tempo(",
        ).concat(m.tempo.as_str()).concat(").video_state(").concat(
            video_state_text(m.video_state).as_str(),
        ).concat(").video_transparency(").concat(m.video_transparency.as_str()).concat(")")
            .concat(costumes.as_str()).concat(sounds.as_str()).concat(vars.as_str()).concat(
            lists.as_str(),
        ).concat(".set_volume(").concat(m.volume.as_str()).concat("f32).build()));\n");
        proof {
            assert(d@ =~= spec_stage_decl(*m));
        }
        d
    } else {
        let d = String::from_str("let ").concat(m.name.as_str()).concat(
            "_index = Stage.lock().unwrap().sprites.len();\n",
        ).concat("Stage.lock().unwrap().add_sprite(Rc::new(Mutex::new(SpriteBuilder::new(\"")
            .concat(m.name.as_str()).concat("\".to_string()).visible(").concat(
            bool_text(m.visible).as_str(),
        ).concat(").position(").concat(m.x.as_str()).concat("f32,").concat(m.y.as_str()).concat(
            "f32).direction(",
        ).concat(m.direction.as_str()).concat("f32).draggable(").concat(
            bool_text(m.draggable).as_str(),
        ).concat(").rotation_style(").concat(rotation_style_text(m.rotation_style).as_str())
            .concat(").layer(").concat(m.layer.as_str()).concat(")").concat(costumes.as_str())
            .concat(sounds.as_str()).concat(vars.as_str()).concat(lists.as_str()).concat(
            ".set_volume(",
        ).concat(m.volume.as_str()).concat("f32).build())));\n");
        proof {
            assert(d@ =~= spec_sprite_decl(*m));
        }
        d
    };
    let script_code = target_code_text(&m.name, m.is_stage, &scripts.hats);
    let code = TargetCode { decl, code: script_code, scripts };
    proof {
        let w = choose|sfx: Seq<nat>|
            #[trigger] scripts_match(blocks@, table@, m.name@, code.scripts, sfx, fuel as nat);
        assert(scripts_match(blocks@, table@, m.name@, code.scripts, w, fuel as nat));
    }
    Result::Ok(code)
}

} // verus!

verus! {

/// The source spelling of a start classification.
pub open spec fn spec_start_text(s: StartView) -> Seq<char> {
    match s {
        StartView::FlagClicked => "StartType::FlagClicked"@,
        StartView::StartAsClone(n) => "StartType::StartAsClone(\""@ + n + "\".to_string())"@,
        StartView::NoStart => "StartType::NoStart"@,
    }
}

fn start_text(s: &StartType) -> (r: String)
    ensures
        r@ == spec_start_text(s@),
{
    match s {
        StartType::FlagClicked => String::from_str("StartType::FlagClicked"),
        StartType::StartAsClone(n) => String::from_str("StartType::StartAsClone(\"").concat(
            n.as_str(),
        ).concat("\".to_string())"),
        StartType::NoStart => String::from_str("StartType::NoStart"),
    }
}

/// The declared-parameter list of a custom procedure's heading: one
/// `, name: Value` per parameter, in order.
pub open spec fn spec_params_text(ps: Seq<Seq<char>>, i: int) -> Seq<char>
    decreases i,
{
    if i <= 0 {
        Seq::<char>::empty()
    } else {
        spec_params_text(ps, i - 1) + ", "@ + ps[i - 1] + ": Value"@
    }
}

fn params_text(ps: &Vec<String>) -> (r: String)
    ensures
        r@ == spec_params_text(
            Seq::new(ps@.len(), |i: int| ps@[i]@),
            ps@.len() as int,
        ),
{
    let ghost pv = Seq::new(ps@.len(), |i: int| ps@[i]@);
    let mut out = String::new();
    let mut i: usize = 0;
    while i < ps.len()
        invariant
            i <= ps@.len(),
            pv == Seq::new(ps@.len(), |k: int| ps@[k]@),
            out@ == spec_params_text(pv, i as int),
        decreases ps@.len() - i,
    {
        out = out.concat(", ").concat(ps[i].as_str()).concat(": Value");
        proof {
            assert(out@ =~= spec_params_text(pv, i + 1 as int));
        }
        i = i + 1;
    }
    out
}

/// The procedure a hat emits: an async function over the sprite and
/// stage handles, with a custom procedure's declared parameters, whose
/// body is the hat's compiled stack.
pub open spec fn spec_hat_fn_text(h: HatView) -> Seq<char> {
    "async fn stack_"@ + h.name + "(sprite: Option<Rc<Mutex<Sprite>>>, stage: Rc<Mutex<Stage>>"@
        + spec_params_text(h.params, h.params.len() as int) + "){"@ + h.body + "}\n"@
}

fn hat_fn_text(h: &Hat) -> (r: String)
    ensures
        r@ == spec_hat_fn_text(h@),
{
    String::from_str("async fn stack_").concat(h.name.as_str()).concat(
        "(sprite: Option<Rc<Mutex<Sprite>>>, stage: Rc<Mutex<Stage>>",
    ).concat(params_text(&h.params).as_str()).concat("){").concat(h.body.as_str()).concat("}\n")
}

/// The sprite-handle argument of a target's registrations: nothing for
/// the stage, the target's own sprite handle otherwise.
pub open spec fn spec_name_arg(is_stage: bool, name: Seq<char>) -> Seq<char> {
    if is_stage {
        "None"@
    } else {
        "Some(stage.sprites["@ + name + "_index].clone())"@
    }
}

/// The owning-identity argument of a target's registrations: nothing
/// for the stage, the sprite's identity otherwise.
pub open spec fn spec_uuid_arg(is_stage: bool, name: Seq<char>) -> Seq<char> {
    if is_stage {
        "None"@
    } else {
        "Some(stage.sprites["@ + name + "_index].lock().unwrap().uuid)"@
    }
}

fn name_arg_text(is_stage: bool, name: &String) -> (r: String)
    ensures
        r@ == spec_name_arg(is_stage, name@),
{
    if is_stage {
        String::from_str("None")
    } else {
        String::from_str("Some(stage.sprites[").concat(name.as_str()).concat("_index].clone())")
    }
}

fn uuid_arg_text(is_stage: bool, name: &String) -> (r: String)
    ensures
        r@ == spec_uuid_arg(is_stage, name@),
{
    if is_stage {
        String::from_str("None")
    } else {
        String::from_str("Some(stage.sprites[").concat(name.as_str()).concat(
            "_index].lock().unwrap().uuid)",
        )
    }
}

/// The registration one hat emits: a fresh thread over the hat's
/// procedure, carrying the hat's start classification and the owning
/// sprite's identity, added to the program's registry.
pub open spec fn spec_registration_text(
    h: HatView,
    name_arg: Seq<char>,
    uuid_arg: Seq<char>,
) -> Seq<char> {
    "{\nlet stage = Stage.lock().unwrap();\nprogram.add_thread(Thread::new(stack_"@ + h.name
        + "("@ + name_arg + ",Stage.clone()),"@ + spec_start_text(h.start) + ","@ + uuid_arg
        + "));\n}\n"@
}

fn registration_text(h: &Hat, name_arg: &String, uuid_arg: &String) -> (r: String)
    ensures
        r@ == spec_registration_text(h@, name_arg@, uuid_arg@),
{
    String::from_str("{\nlet stage = Stage.lock().unwrap();\nprogram.add_thread(Thread::new(stack_")
        .concat(h.name.as_str()).concat("(").concat(name_arg.as_str()).concat(",Stage.clone()),")
        .concat(start_text(&h.start).as_str()).concat(",").concat(uuid_arg.as_str()).concat(
        "));\n}\n",
    )
}

/// The script code of the first `i` hats: every hat's procedure, and —
/// for every hat but the custom definitions, which are only ever
/// invoked — a thread registration carrying the target's identity.
pub open spec fn spec_hats_code(
    hats: Seq<HatView>,
    name_arg: Seq<char>,
    uuid_arg: Seq<char>,
    i: int,
) -> Seq<char>
    decreases i,
{
    if i <= 0 {
        Seq::<char>::empty()
    } else {
        spec_hats_code(hats, name_arg, uuid_arg, i - 1) + spec_hat_fn_text(hats[i - 1]) + (
        if hats[i - 1].custom {
            Seq::<char>::empty()
        } else {
            spec_registration_text(hats[i - 1], name_arg, uuid_arg)
        })
    }
}

/// The line the clone re-instantiation procedure holds for one
/// clone-started hat: a fresh, not-yet-running thread over the hat's
/// procedure, owned by the clone's identity.
pub open spec fn spec_clone_push_text(h: HatView) -> Seq<char> {
    "v.push(Thread::new(stack_"@ + h.name + "(Some(sprite.clone()),stage.clone()),"@
        + spec_start_text(h.start) + ",Some(sprite.lock().unwrap().uuid)));\n"@
}

/// The thread-building lines of the first `i` hats: one per hat whose
/// start classification is start-as-clone; the others build nothing.
pub open spec fn spec_clone_pushes(hats: Seq<HatView>, i: int) -> Seq<char>
    decreases i,
{
    if i <= 0 {
        Seq::<char>::empty()
    } else {
        spec_clone_pushes(hats, i - 1) + (if hats[i - 1].start is StartAsClone {
            spec_clone_push_text(hats[i - 1])
        } else {
            Seq::<char>::empty()
        })
    }
}

/// The clone re-instantiation procedure of one target: given a freshly
/// cloned sprite's handle, it builds a fresh thread for every hat that
/// starts as a clone of this target, each owned by the clone's
/// identity; the clone operation then marks them running.
pub open spec fn spec_clone_fn_text(target: Seq<char>, hats: Seq<HatView>) -> Seq<char> {
    "fn clone_"@ + target
        + "(sprite: Rc<Mutex<Sprite>>, stage: Rc<Mutex<Stage>>) -> Vec<Thread>{\nlet mut v = Vec::new();\n"@
        + spec_clone_pushes(hats, hats.len() as int) + "v\n}\n"@
}

/// The whole script code of one target: every hat's procedure with its
/// registration, then the target's clone re-instantiation procedure.
pub open spec fn spec_target_code(
    target: Seq<char>,
    is_stage: bool,
    hats: Seq<HatView>,
) -> Seq<char> {
    spec_hats_code(
        hats,
        spec_name_arg(is_stage, target),
        spec_uuid_arg(is_stage, target),
        hats.len() as int,
    ) + spec_clone_fn_text(target, hats)
}

/// Emit the script code of a target's assembled hats: procedures,
/// registrations, and the clone re-instantiation procedure.
pub fn target_code_text(target: &String, is_stage: bool, hats: &Vec<Hat>) -> (r: String)
    ensures
        r@ == spec_target_code(target@, is_stage, hats_view(hats@)),
{
    let ghost hv = hats_view(hats@);
    let name_arg = name_arg_text(is_stage, target);
    let uuid_arg = uuid_arg_text(is_stage, target);
    let mut out = String::new();
    let mut i: usize = 0;
    while i < hats.len()
        invariant
            i <= hats@.len(),
            hv == hats_view(hats@),
            name_arg@ == spec_name_arg(is_stage, target@),
            uuid_arg@ == spec_uuid_arg(is_stage, target@),
            out@ == spec_hats_code(hv, name_arg@, uuid_arg@, i as int),
        decreases hats@.len() - i,
    {
        let h = &hats[i];
        out = out.concat(hat_fn_text(h).as_str());
        let custom = h.custom;
        if !custom {
            out = out.concat(registration_text(h, &name_arg, &uuid_arg).as_str());
        }
        proof {
            assert(hv[i as int] == hats@[i as int]@);
            assert(out@ =~= spec_hats_code(hv, name_arg@, uuid_arg@, i + 1 as int));
        }
        i = i + 1;
    }
    let mut pushes = String::new();
    let mut k: usize = 0;
    while k < hats.len()
        invariant
            k <= hats@.len(),
            hv == hats_view(hats@),
            pushes@ == spec_clone_pushes(hv, k as int),
        decreases hats@.len() - k,
    {
        let h = &hats[k];
        let is_clone_hat = match &h.start {
            StartType::StartAsClone(_) => true,
            _ => false,
        };
        if is_clone_hat {
            let line = String::from_str("v.push(Thread::new(stack_").concat(
                h.name.as_str(),
            ).concat("(Some(sprite.clone()),stage.clone()),").concat(
                start_text(&h.start).as_str(),
            ).concat(",Some(sprite.lock().unwrap().uuid)));\n");
            pushes = pushes.concat(line.as_str());
        }
        proof {
            assert(hv[k as int] == hats@[k as int]@);
            assert(pushes@ =~= spec_clone_pushes(hv, k + 1 as int));
        }
        k = k + 1;
    }
    let clone_fn = String::from_str("fn clone_").concat(target.as_str()).concat(
        "(sprite: Rc<Mutex<Sprite>>, stage: Rc<Mutex<Stage>>) -> Vec<Thread>{\nlet mut v = Vec::new();\n",
    ).concat(pushes.as_str()).concat("v\n}\n");
    let r = out.concat(clone_fn.as_str());
    proof {
        assert(r@ =~= spec_target_code(target@, is_stage, hv));
    }
    r
}

} // verus!
