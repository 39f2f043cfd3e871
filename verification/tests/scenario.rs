use advent::phys;
use advent::player_control;
use advent::player_control::Status;
use advent::scenario;
use advent::types::Flag;
use advent::visual::Visual;
use advent::visual::VisualKind;
use advent::Game;

fn id(game: &Game, tag: &str) -> usize {
    game.world.lookup(tag).unwrap()
}

#[test]
fn scenario_is_sound() {
    let world = scenario::build();
    assert_eq!(world.pid, 1);
    let clearing = world.lookup("clearing").unwrap();
    assert_eq!(phys::loc(&world, world.pid), clearing);
    assert!(world.is_well_shaped());
    assert_eq!(world.clock, 0);
}

#[test]
fn scenario_places_things() {
    let world = scenario::build();
    let clearing = world.lookup("clearing").unwrap();
    let trail = world.lookup("trail").unwrap();
    let bridge = world.lookup("bridge").unwrap();
    let note = world.lookup("note").unwrap();
    let sword = world.lookup("sword").unwrap();
    let stream = world.lookup("stream").unwrap();
    assert_eq!(phys::loc(&world, note), clearing);
    assert_eq!(phys::loc(&world, sword), trail);
    assert_eq!(phys::loc(&world, stream), bridge);
    assert!(world.has_flag(stream, &Flag::Scenery));
    assert!(world.has_flag(world.pid, &Flag::user("DIRTY_HANDS")));
    assert!(world.has_flag(bridge, &Flag::user("HAS_WATER")));
    assert!(world.has_flag(world.pid, &Flag::Seen(clearing)));
    assert!(world.is_room(clearing) && world.is_room(trail) && world.is_room(bridge));
    assert!(world.is_thing(note) && world.is_thing(sword) && world.is_thing(stream));
    assert!(world.lookup("on-get-note").is_some());
    assert!(world.lookup("allow-get-sword").is_some());
    assert!(world.lookup("nowhere").is_none());
}

#[test]
fn get_drop_and_undo_move_the_note() {
    let mut game = Game::new();
    let note = id(&game, "note");
    let clearing = id(&game, "clearing");
    let pid = game.world.pid;
    assert!(phys::contents(&game.world, clearing).contains(&note));
    assert!(phys::contents(&game.world, clearing).contains(&pid));

    let mut out: Vec<Visual> = Vec::new();
    let r = player_control::system(&mut game, "get note", &mut out);
    assert_eq!(r, Ok(Status::Normal));
    assert!(phys::contents(&game.world, pid).contains(&note));
    assert!(!phys::contents(&game.world, clearing).contains(&note));
    assert_eq!(phys::loc(&game.world, note), pid);
    assert_eq!(out[0].kind, VisualKind::Act);
    assert_eq!(out[0].text, "Taken.");

    let r = player_control::system(&mut game, "drop note", &mut out);
    assert_eq!(r, Ok(Status::Normal));
    assert!(!phys::contents(&game.world, pid).contains(&note));
    assert!(phys::contents(&game.world, clearing).contains(&note));
    assert_eq!(phys::loc(&game.world, note), clearing);
    assert_eq!(out.last().unwrap().text, "Dropped.");
}

#[test]
fn undo_after_get_restores_the_note() {
    let mut game = Game::new();
    let note = id(&game, "note");
    let clearing = id(&game, "clearing");
    let pid = game.world.pid;
    let before = format!("{:?}", game.world);
    let mut out: Vec<Visual> = Vec::new();
    assert_eq!(player_control::system(&mut game, "get note", &mut out), Ok(Status::Normal));
    assert_eq!(phys::loc(&game.world, note), pid);
    assert!(game.has_undo());
    assert_eq!(player_control::system(&mut game, "undo", &mut out), Ok(Status::Undo));
    assert_eq!(phys::loc(&game.world, note), clearing);
    assert!(phys::contents(&game.world, clearing).contains(&note));
    assert!(!phys::contents(&game.world, pid).contains(&note));
    assert_eq!(format!("{:?}", game.world), before);
    assert!(!game.has_undo());
    assert_eq!(out.last().unwrap().text, "Undone.");
}

#[test]
fn dirty_hands_soil_the_note() {
    let mut game = Game::new();
    let note = id(&game, "note");
    let mut out: Vec<Visual> = Vec::new();
    assert!(!game.world.has_flag(note, &Flag::user("DIRTY")));
    player_control::system(&mut game, "get note", &mut out).unwrap();
    assert!(game.world.has_flag(note, &Flag::user("DIRTY")));
    let texts: Vec<&str> = out.iter().map(|v| v.text.as_str()).collect();
    assert_eq!(texts, vec!["Taken.", "The dirt from your hands got all over the note."]);
    // The rule fires again only while the note is clean.
    player_control::system(&mut game, "drop note", &mut out).unwrap();
    let shown = out.len();
    player_control::system(&mut game, "get note", &mut out).unwrap();
    assert_eq!(out.len(), shown + 1);
    assert_eq!(out.last().unwrap().text, "Taken.");
    // The rule has fired, and the flag says so.
    let rule = id(&game, "on-get-note");
    assert!(game.world.has_flag(rule, &Flag::Fired));
}

#[test]
fn the_note_reads_differently_when_dirty() {
    let mut game = Game::new();
    let mut out: Vec<Visual> = Vec::new();
    // Not held yet.
    let r = player_control::system(&mut game, "read note", &mut out);
    assert_eq!(r, Err("You don't have it.".to_string()));
    player_control::system(&mut game, "get note", &mut out).unwrap();
    out.clear();
    player_control::system(&mut game, "read note", &mut out).unwrap();
    assert_eq!(out.len(), 1);
    assert_eq!(out[0].kind, VisualKind::Prose);
    assert_eq!(out[0].text, "You've gotten it too dirty to read.");
    out.clear();
    player_control::system(&mut game, "examine note", &mut out).unwrap();
    assert_eq!(
        out[0].text,
        "A note, on plain paper.  It looks pretty grubby; someone's been mishandling it."
    );
}

#[test]
fn clean_hands_keep_the_note_readable() {
    let mut game = Game::new();
    let pid = game.world.pid;
    game.world.clear_flag(pid, &Flag::user("DIRTY_HANDS"));
    let mut out: Vec<Visual> = Vec::new();
    player_control::system(&mut game, "get note", &mut out).unwrap();
    out.clear();
    player_control::system(&mut game, "read note", &mut out).unwrap();
    assert_eq!(
        out[0].text,
        "Welcome, dear friend.  Your mission, should you choose to\naccept it, is to figure out how to get to the end of\nthe trail.  You've already taken the first big\nstep!"
    );
    out.clear();
    player_control::system(&mut game, "examine note", &mut out).unwrap();
    assert_eq!(out[0].text, "A note, on plain paper");
    out.clear();
    player_control::system(&mut game, "examine self", &mut out).unwrap();
    assert_eq!(out[0].text, "You've got all the usual bits. Plus, they're clean bits!");
}

#[test]
fn the_sword_refuses_dirty_hands() {
    let mut game = Game::new();
    let sword = id(&game, "sword");
    let trail = id(&game, "trail");
    let mut out: Vec<Visual> = Vec::new();
    player_control::system(&mut game, "go east", &mut out).unwrap();
    assert_eq!(phys::loc(&game.world, game.world.pid), trail);
    out.clear();
    let before = format!("{:?}", game.world);
    let r = player_control::system(&mut game, "get sword", &mut out);
    assert_eq!(r, Ok(Status::Normal));
    assert_eq!(format!("{:?}", game.world), before);
    assert_eq!(phys::loc(&game.world, sword), trail);
    assert_eq!(out.len(), 1);
    assert_eq!(out[0].kind, VisualKind::Info);
    assert_eq!(
        out[0].text,
        "Oh, you so didn't want to touch the sword with dirty hands.\nOnly the pure may touch this sword."
    );
}

#[test]
fn washed_hands_may_take_the_sword() {
    let mut game = Game::new();
    let sword = id(&game, "sword");
    let pid = game.world.pid;
    let mut out: Vec<Visual> = Vec::new();
    // No water in the clearing.
    let r = player_control::system(&mut game, "wash hands", &mut out);
    assert_eq!(r, Err("That'd be a neat trick.".to_string()));
    assert_eq!(out.last().unwrap().kind, VisualKind::Error);
    assert_eq!(out.last().unwrap().text, "That'd be a neat trick.");
    player_control::system(&mut game, "east", &mut out).unwrap();
    player_control::system(&mut game, "east", &mut out).unwrap();
    out.clear();
    let r = player_control::system(&mut game, "wash hands", &mut out);
    assert_eq!(r, Ok(Status::Normal));
    assert_eq!(out[0].text, "You wash your hands in the stream.");
    assert!(!game.world.has_flag(pid, &Flag::user("DIRTY_HANDS")));
    player_control::system(&mut game, "west", &mut out).unwrap();
    out.clear();
    player_control::system(&mut game, "pick up sword", &mut out).unwrap();
    assert_eq!(phys::loc(&game.world, sword), pid);
    assert_eq!(out[0].text, "Taken.");
}

#[test]
fn rooms_are_described_in_full_once() {
    let mut game = Game::new();
    let mut out: Vec<Visual> = Vec::new();
    player_control::system(&mut game, "go east", &mut out).unwrap();
    let shown: Vec<(VisualKind, &str)> = out.iter().map(|v| (v.kind, v.text.as_str())).collect();
    assert_eq!(
        shown,
        vec![
            (VisualKind::Room, "Trail"),
            (VisualKind::Prose, "A trail from hither to yon.  You can go east or west."),
            (VisualKind::Item, "sword"),
        ]
    );
    out.clear();
    player_control::system(&mut game, "west", &mut out).unwrap();
    // The clearing was seen when the game started.
    let shown: Vec<(VisualKind, &str)> = out.iter().map(|v| (v.kind, v.text.as_str())).collect();
    assert_eq!(shown, vec![(VisualKind::Room, "Clearing"), (VisualKind::Item, "note")]);
    out.clear();
    player_control::system(&mut game, "east", &mut out).unwrap();
    let shown: Vec<(VisualKind, &str)> = out.iter().map(|v| (v.kind, v.text.as_str())).collect();
    assert_eq!(shown, vec![(VisualKind::Room, "Trail"), (VisualKind::Item, "sword")]);
}

#[test]
fn scenery_shows_in_the_description_of_its_room() {
    let mut game = Game::new();
    let mut out: Vec<Visual> = Vec::new();
    player_control::system(&mut game, "east", &mut out).unwrap();
    out.clear();
    player_control::system(&mut game, "east", &mut out).unwrap();
    let shown: Vec<(VisualKind, &str)> = out.iter().map(|v| (v.kind, v.text.as_str())).collect();
    assert_eq!(
        shown,
        vec![
            (VisualKind::Room, "Bridge"),
            (VisualKind::Prose, "The trail crosses a small stream here.  You can go east or west."),
        ]
    );
    out.clear();
    player_control::system(&mut game, "examine stream", &mut out).unwrap();
    assert_eq!(
        out[0].text,
        "The stream comes from the north, down a little waterfall, and runs\naway under the bridge.  It looks surprisingly deep, considering\nhow narrow it is."
    );
}

#[test]
fn restart_starts_again() {
    let mut game = Game::new();
    let start = format!("{:?}", game.world);
    let mut out: Vec<Visual> = Vec::new();
    player_control::system(&mut game, "get note", &mut out).unwrap();
    player_control::system(&mut game, "east", &mut out).unwrap();
    assert!(game.has_undo());
    let r = player_control::system(&mut game, "restart", &mut out);
    assert_eq!(r, Ok(Status::Restart));
    assert_eq!(out.last().unwrap().text, "Restarting...");
    assert_eq!(format!("{:?}", game.world), start);
    assert!(!game.has_undo());
}
