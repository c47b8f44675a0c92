use blockc::hats::StartType;
use blockc::sched::{
    activate_clone_threads, poll_wait, poll_yield, Op, Registry, Thread, Wait, WaitState,
    YieldState,
};
use blockc::target::{Sprite, Stage, VideoState, RotationStyle};
use blockc::value::Value;

fn empty_stage() -> Stage {
    Stage {
        tempo: 0,
        video_state: VideoState::Off,
        video_transparency: 0,
        tts_language: String::new(),
        volume: 0,
        costume: 0,
        costumes: Vec::new(),
        sounds: Vec::new(),
        vars: Vec::new(),
        lists: Vec::new(),
        sprites: Vec::new(),
        next_id: 1,
        answer: Value::Null,
        keys: Vec::new(),
        mouse_x: 0,
        mouse_y: 0,
        mouse_down: false,
        stamps: Vec::new(),
    }
}

fn sprite(name: &str, id: u64, layer: u64) -> Sprite {
    Sprite {
        name: String::from(name),
        id,
        x: 0,
        y: 0,
        size: 0,
        direction: 0,
        volume: 0,
        visible: true,
        draggable: false,
        rotation_style: RotationStyle::AllAround,
        layer,
        is_clone: false,
        pending_delete: false,
        costume: 0,
        costumes: Vec::new(),
        sounds: Vec::new(),
        vars: Vec::new(),
        lists: Vec::new(),
        effects: Vec::new(),
    }
}

#[test]
fn a_yield_resumes_on_the_next_tick_never_the_same() {
    // two markers around one yield land on consecutive ticks
    let ops = vec![Op::Work(1), Op::Yield, Op::Work(2), Op::Yield];
    let t = Thread::new(ops, StartType::FlagClicked, None);
    let mut reg = Registry::new();
    reg.enqueue(t);
    let mut stage = empty_stage();
    reg.tick(&mut stage, 0);  // drains the queue; nothing runs yet
    reg.click_flag();
    reg.tick(&mut stage, 0);  // tick 1: marker 1, suspend at the yield
    reg.tick(&mut stage, 0);  // tick 2: marker 2
    assert_eq!(reg.threads.len(), 1);
    assert_eq!(reg.threads[0].log, vec![(1, 1), (2, 2)]);
}

#[test]
fn complete_threads_are_reaped() {
    let ops = vec![Op::Work(9)];
    let t = Thread::new(ops, StartType::FlagClicked, None);
    let mut reg = Registry::new();
    reg.enqueue(t);
    let mut stage = empty_stage();
    reg.tick(&mut stage, 0);
    reg.click_flag();
    reg.tick(&mut stage, 0);  // runs to completion and is removed
    assert_eq!(reg.threads.len(), 0);
}

#[test]
fn waits_suspend_until_their_deadline() {
    let ops = vec![Op::Work(1), Op::Wait(5), Op::Work(2), Op::Yield];
    let t = Thread::new(ops, StartType::FlagClicked, None);
    let mut reg = Registry::new();
    reg.enqueue(t);
    let mut stage = empty_stage();
    reg.tick(&mut stage, 0);
    reg.click_flag();
    reg.tick(&mut stage, 0);  // tick 1: marker 1, starts waiting until 5
    reg.tick(&mut stage, 3);  // tick 2: still waiting
    reg.tick(&mut stage, 7);  // tick 3: deadline passed, marker 2
    assert_eq!(reg.threads[0].log, vec![(1, 1), (3, 2)]);
}

#[test]
fn deleting_a_sprite_purges_its_threads() {
    // both the running and the not-yet-started thread of the sprite go
    let mut reg = Registry::new();
    let mut t1 = Thread::new(vec![Op::Work(1), Op::Yield], StartType::FlagClicked, Some(7));
    t1.running = true;
    let t2 = Thread::new(vec![Op::Work(2), Op::Yield], StartType::NoStart, Some(7));
    let t3 = Thread::new(vec![Op::Work(3), Op::Yield], StartType::NoStart, None);
    reg.enqueue(t1);
    reg.enqueue(t2);
    reg.enqueue(t3);
    let mut stage = empty_stage();
    reg.tick(&mut stage, 0);
    let mut doomed = sprite("S", 7, 1);
    doomed.pending_delete = true;
    stage.sprites.push(doomed);
    stage.sprites.push(sprite("T", 8, 2));
    reg.tick(&mut stage, 0);
    assert_eq!(reg.threads.len(), 1);
    assert_eq!(reg.threads[0].owner, None);
    assert_eq!(stage.sprites.len(), 1);
    assert_eq!(stage.sprites[0].id, 8);
}

#[test]
fn the_yield_primitive_takes_exactly_two_polls() {
    let mut y = YieldState::Start;
    assert!(!poll_yield(&mut y));
    assert!(poll_yield(&mut y));
    assert_eq!(y, YieldState::End);
}

#[test]
fn the_wait_primitive_respects_its_deadline() {
    let mut w = Wait::new(10, 5);
    assert_eq!(w.deadline, 15);
    assert!(!poll_wait(&mut w, 10));
    assert!(!poll_wait(&mut w, 14));
    assert!(poll_wait(&mut w, 15));
    assert_eq!(w.state, WaitState::End);
}

#[test]
fn clone_threads_start_at_once() {
    let mut threads = vec![
        Thread::new(
            vec![Op::Work(1), Op::Yield],
            StartType::StartAsClone(String::from("Cat_clone")),
            Some(9),
        ),
        Thread::new(vec![Op::Work(2), Op::Yield], StartType::FlagClicked, Some(9)),
    ];
    activate_clone_threads(&mut threads, &String::from("Cat_clone"));
    assert!(threads[0].running);
    assert!(!threads[1].running);
}
