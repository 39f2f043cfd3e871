use advent::phys;
use advent::player_control::Status;
use advent::run;
use advent::types::Flag;
use advent::visual::Visual;
use advent::visual::VisualKind;
use advent::world::PLAYER;
use advent::Game;

fn texts(out: &Vec<Visual>) -> Vec<&str> {
    out.iter().map(|v| v.text.as_str()).collect()
}

const STORY: &str = "You don't know where you are.  You don't even know where you want to\nbe.  All you know is that your feet are wet, your hands are dirty,\nand gosh, this doesn't look anything like the toy aisle.";

#[test]
fn a_turn_fires_the_rules_and_advances_the_clock() {
    let mut g = Game::new();
    let mut out = Vec::new();
    assert_eq!(g.world.clock, 0);
    assert_eq!(g.turn("look", &mut out), Ok(Status::Normal));
    assert_eq!(g.world.clock, 1);
    assert_eq!(
        texts(&out),
        vec!["Clearing", "A wide spot in the woods.  You can go east.", "note", STORY]
    );
    out.clear();
    assert_eq!(g.turn("look", &mut out), Ok(Status::Normal));
    assert_eq!(g.world.clock, 2);
    assert_eq!(texts(&out), vec!["Clearing", "A wide spot in the woods.  You can go east.", "note"]);
    let story = g.world.lookup("rule-story-1").unwrap();
    assert!(g.world.has_flag(story, &Flag::Fired));
    assert!(g.world.has_flag(story, &Flag::FireOnce));
}

#[test]
fn only_commands_that_go_well_make_a_turn() {
    let mut g = Game::new();
    let mut out = Vec::new();
    assert!(g.turn("fly", &mut out).is_err());
    assert!(g.turn("", &mut out).is_err());
    assert!(g.turn("get unicorn", &mut out).is_err());
    assert_eq!(g.turn("!list", &mut out), Ok(Status::Normal));
    assert_eq!(g.turn("quit", &mut out), Ok(Status::Quit));
    assert_eq!(g.world.clock, 0);
    assert!(!g.has_undo());
    assert_eq!(g.turn("get note", &mut out), Ok(Status::Normal));
    assert_eq!(g.world.clock, 1);
    assert!(g.has_undo());
    assert!(g.is_sound());
}

#[test]
fn undo_brings_back_the_world_before_the_turn() {
    let mut g = Game::new();
    let mut out = Vec::new();
    g.turn("look", &mut out).unwrap();
    let before = format!("{:?}", g.world);
    let note = g.world.lookup("note").unwrap();
    let clearing = g.world.lookup("clearing").unwrap();
    let soils = g.world.lookup("on-get-note").unwrap();
    g.turn("get note", &mut out).unwrap();
    assert_eq!(g.world.clock, 2);
    assert!(g.world.has_flag(note, &Flag::user("DIRTY")));
    assert!(g.world.has_flag(soils, &Flag::Fired));
    assert_eq!(g.turn("undo", &mut out), Ok(Status::Undo));
    assert_eq!(format!("{:?}", g.world), before);
    assert_eq!(g.world.clock, 1);
    assert_eq!(phys::loc(&g.world, note), clearing);
    assert!(!g.world.has_flag(note, &Flag::user("DIRTY")));
    assert!(!g.world.has_flag(soils, &Flag::Fired));
    assert!(!g.has_undo());
    assert_eq!(g.turn("undo", &mut out), Err("Nothing to undo.".to_string()));
}

#[test]
fn undo_reaches_back_one_command() {
    let mut g = Game::new();
    let mut out = Vec::new();
    let note = g.world.lookup("note").unwrap();
    let trail = g.world.lookup("trail").unwrap();
    g.turn("get note", &mut out).unwrap();
    g.turn("east", &mut out).unwrap();
    g.turn("drop note", &mut out).unwrap();
    assert_eq!(phys::loc(&g.world, note), trail);
    g.turn("undo", &mut out).unwrap();
    assert_eq!(phys::loc(&g.world, note), PLAYER);
    assert_eq!(phys::loc(&g.world, PLAYER), trail);
    assert_eq!(g.world.clock, 2);
    assert!(g.turn("undo", &mut out).is_err());
}

#[test]
fn saved_worlds_come_back_as_they_were() {
    let mut g = Game::new();
    let saved = g.world.clone();
    let before = format!("{:?}", saved);
    g.save_for_undo(saved);
    assert!(g.has_undo());
    g.world.set_flag(PLAYER, Flag::Dead);
    g.world.clock = 41;
    phys::take_out(&mut g.world, PLAYER);
    g.undo();
    assert_eq!(format!("{:?}", g.world), before);
    assert!(!g.has_undo());
    // Nothing saved: nothing changes.
    g.world.clock = 3;
    g.undo();
    assert_eq!(g.world.clock, 3);
    g.restart();
    assert_eq!(format!("{:?}", g.world), before);
}

#[test]
fn a_session_runs_to_its_end() {
    let inputs: Vec<String> =
        vec!["get note", "fly", "east", "get sword", "undo", "inventory"].iter().map(|s| s.to_string()).collect();
    let out = run(&inputs);
    let shown: Vec<(VisualKind, &str)> = out.iter().map(|v| (v.kind, v.text.as_str())).collect();
    assert_eq!(
        shown,
        vec![
            (VisualKind::Info, "Welcome to Advent!\n"),
            (VisualKind::Room, "Clearing"),
            (VisualKind::Prose, "A wide spot in the woods.  You can go east."),
            (VisualKind::Item, "note"),
            // get note
            (VisualKind::Act, "Taken."),
            (VisualKind::Info, "The dirt from your hands got all over the note."),
            (VisualKind::Info, STORY),
            // fly
            (VisualKind::Error, "I don't understand."),
            // east
            (VisualKind::Room, "Trail"),
            (VisualKind::Prose, "A trail from hither to yon.  You can go east or west."),
            (VisualKind::Item, "sword"),
            // get sword
            (
                VisualKind::Info,
                "Oh, you so didn't want to touch the sword with dirty hands.\nOnly the pure may touch this sword."
            ),
            // undo
            (VisualKind::Act, "Undone."),
            // inventory
            (VisualKind::Item, "note"),
        ]
    );
}

#[test]
fn a_session_ends_when_the_player_quits() {
    let inputs: Vec<String> = vec!["quit", "look", "get note"].iter().map(|s| s.to_string()).collect();
    let out = run(&inputs);
    assert_eq!(
        texts(&out),
        vec![
            "Welcome to Advent!\n",
            "Clearing",
            "A wide spot in the woods.  You can go east.",
            "note",
            "Bye, then."
        ]
    );
    let out = run(&Vec::new());
    assert_eq!(out.len(), 4);
}

#[test]
fn a_session_can_be_started_again() {
    let inputs: Vec<String> =
        vec!["get note", "restart", "inventory", "look"].iter().map(|s| s.to_string()).collect();
    let out = run(&inputs);
    let tail: Vec<&str> = texts(&out)[7..].to_vec();
    assert_eq!(
        tail,
        vec![
            "Restarting...",
            // inventory: nothing, but the story is told again
            STORY,
            "Clearing",
            "A wide spot in the woods.  You can go east.",
            "note"
        ]
    );
}
