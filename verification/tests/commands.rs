use advent::command;
use advent::phys;
use advent::player_control;
use advent::player_control::Builtin;
use advent::player_control::CommandHandler;
use advent::player_control::Player;
use advent::player_control::Status;
use advent::script::Script;
use advent::text;
use advent::types::CommandHook;
use advent::types::Condition;
use advent::types::Dir;
use advent::types::Flag;
use advent::visual::Visual;
use advent::visual::VisualKind;
use advent::world::PLAYER;
use advent::world_builder::WorldBuilder;
use advent::Game;

fn texts(out: &Vec<Visual>) -> Vec<&str> {
    out.iter().map(|v| v.text.as_str()).collect()
}

fn game() -> Game {
    let mut wb = WorldBuilder::new();
    wb.player().location("hall").on_examine("  It's you.  ");
    wb.room("hall", "Hall").prose("A hall.").link(Dir::East, "vault").dead_end(
        Dir::North,
        "The door is locked.",
    );
    wb.room("vault", "Vault").prose("Gold everywhere.").link(Dir::West, "hall");
    wb.thing("key", "key", "key").on_examine("A small key.").location("hall");
    wb.thing("book", "book", "book").on_read("Once upon a time.").location("hall");
    wb.thing("twin", "other key", "key").location("vault");
    wb.feature("sign", "sign", "sign").on_read("Keep out.").on_scenery("A sign hangs here.")
        .location("hall");
    wb.feature("hands", "hands", "hands").location("PLAYER");
    wb.thing("plain", "plain", "plain").location("hall");
    let mut pray = Script::new();
    pray.print("Nothing happens.");
    wb.verb("pray", CommandHook::new(Condition::Always, pray, "never"));
    let mut wave = Script::new();
    wave.print("You wave.");
    wave.set_flag(PLAYER, Flag::user("WAVED"));
    wb.verb_visible(
        "wave",
        CommandHook::new(
            Condition::HasFlag(PLAYER, Flag::user("WAVED")).negated(),
            wave,
            "Your arm is tired.",
        ),
    );
    let mut look = Script::new();
    look.print("You look twice.");
    wb.verb_noun("look", "twice", CommandHook::new(Condition::Always, look, "never"));
    assert!(wb.is_ready());
    Game { world: wb.world(), undo_info: None }
}

fn play(game: &mut Game, input: &str) -> (Result<Status, String>, Vec<Visual>) {
    let mut out = Vec::new();
    let r = player_control::system(game, input, &mut out);
    (r, out)
}

#[test]
fn text_is_split_into_words() {
    let c = command::parse("get   the note").unwrap();
    assert_eq!(c.words, vec!["get", "the", "note"]);
    assert!(!c.is_debug);
    let c = command::parse("  north\t").unwrap();
    assert_eq!(c.words, vec!["north"]);
    let c = command::parse("!dump 3").unwrap();
    assert_eq!(c.words, vec!["dump", "3"]);
    assert!(c.is_debug);
    let c = command::parse("! list\n").unwrap();
    assert_eq!(c.words, vec!["list"]);
    assert!(c.is_debug);
    let c = command::parse("a!b").unwrap();
    assert_eq!(c.words, vec!["a!b"]);
    assert!(!c.is_debug);
    assert_eq!(command::parse("").unwrap_err(), "I don't understand.");
    assert_eq!(command::parse("   ").unwrap_err(), "I don't understand.");
    assert_eq!(command::parse("!").unwrap_err(), "I don't understand.");
    assert!(command::is_debug("!x") && !command::is_debug("x!") && !command::is_debug(""));
    let c = command::parse("préférer  über").unwrap();
    assert_eq!(c.words, vec!["préférer", "über"]);
}

#[test]
fn numbers_are_written_in_decimal() {
    assert_eq!(text::decimal_text(0), "0");
    assert_eq!(text::decimal_text(7), "7");
    assert_eq!(text::decimal_text(10), "10");
    assert_eq!(text::decimal_text(409), "409");
    assert_eq!(text::decimal_text(1234567890), "1234567890");
    assert_eq!(text::decimal_text(usize::MAX), usize::MAX.to_string());
    assert_eq!(text::join3("a", "", "bc"), "abc");
}

#[test]
fn words_give_built_in_commands() {
    let w = |s: &str| -> Vec<String> { s.split(' ').map(|x| x.to_string()).collect() };
    assert_eq!(player_control::parse_builtin(&w("north")), Some(Builtin::Go(Dir::North)));
    assert_eq!(player_control::parse_builtin(&w("go south")), Some(Builtin::Go(Dir::South)));
    assert_eq!(player_control::parse_builtin(&w("east")), Some(Builtin::Go(Dir::East)));
    assert_eq!(player_control::parse_builtin(&w("go west")), Some(Builtin::Go(Dir::West)));
    assert_eq!(player_control::parse_builtin(&w("go up")), None);
    assert_eq!(player_control::parse_builtin(&w("up")), None);
    assert_eq!(player_control::parse_builtin(&w("help")), Some(Builtin::Help));
    assert_eq!(player_control::parse_builtin(&w("look")), Some(Builtin::Look));
    assert_eq!(player_control::parse_builtin(&w("inventory")), Some(Builtin::Inventory));
    assert_eq!(player_control::parse_builtin(&w("examine x")), Some(Builtin::Examine));
    assert_eq!(player_control::parse_builtin(&w("read x")), Some(Builtin::Read));
    assert_eq!(player_control::parse_builtin(&w("get x")), Some(Builtin::Get));
    assert_eq!(player_control::parse_builtin(&w("pick up x")), Some(Builtin::Get));
    assert_eq!(player_control::parse_builtin(&w("pick down x")), None);
    assert_eq!(player_control::parse_builtin(&w("drop x")), Some(Builtin::Drop));
    assert_eq!(player_control::parse_builtin(&w("undo")), Some(Builtin::Undo));
    assert_eq!(player_control::parse_builtin(&w("restart")), Some(Builtin::Restart));
    assert_eq!(player_control::parse_builtin(&w("quit")), Some(Builtin::Quit));
    assert_eq!(player_control::parse_builtin(&w("get")), None);
    assert_eq!(player_control::parse_builtin(&w("look around now")), None);
    assert_eq!(player_control::parse_builtin(&Vec::new()), None);
    assert_eq!(player_control::parse_builtin(&w("a b c d")), None);
}

#[test]
fn a_dead_end_shows_its_message_and_moves_nobody() {
    let mut g = game();
    let hall = g.world.lookup("hall").unwrap();
    let before = format!("{:?}", g.world);
    let (r, out) = play(&mut g, "go north");
    assert_eq!(r, Ok(Status::Normal));
    assert_eq!(texts(&out), vec!["The door is locked."]);
    assert_eq!(out[0].kind, VisualKind::Info);
    assert_eq!(phys::loc(&g.world, PLAYER), hall);
    assert_eq!(format!("{:?}", g.world), before);
    let (r, out) = play(&mut g, "north");
    assert_eq!(r, Ok(Status::Normal));
    assert_eq!(texts(&out), vec!["The door is locked."]);
}

#[test]
fn going_where_no_link_leads_fails() {
    let mut g = game();
    let before = format!("{:?}", g);
    let (r, out) = play(&mut g, "go south");
    assert_eq!(r, Err("You can't go that way.".to_string()));
    assert_eq!(texts(&out), vec!["You can't go that way."]);
    assert_eq!(out[0].kind, VisualKind::Error);
    assert_eq!(format!("{:?}", g), before);
}

#[test]
fn going_along_a_link_enters_the_room() {
    let mut g = game();
    let vault = g.world.lookup("vault").unwrap();
    let (r, out) = play(&mut g, "go east");
    assert_eq!(r, Ok(Status::Normal));
    assert_eq!(phys::loc(&g.world, PLAYER), vault);
    assert_eq!(texts(&out), vec!["Vault", "Gold everywhere.", "other key"]);
}

#[test]
fn look_describes_the_room_in_full() {
    let mut g = game();
    let (r, out) = play(&mut g, "look");
    assert_eq!(r, Ok(Status::Normal));
    let shown: Vec<(VisualKind, &str)> = out.iter().map(|v| (v.kind, v.text.as_str())).collect();
    assert_eq!(
        shown,
        vec![
            (VisualKind::Room, "Hall"),
            (VisualKind::Prose, "A hall."),
            (VisualKind::Prose, "A sign hangs here."),
            (VisualKind::Item, "key"),
            (VisualKind::Item, "book"),
            (VisualKind::Item, "plain"),
        ]
    );
}

#[test]
fn inventory_lists_what_is_carried() {
    let mut g = game();
    let (r, out) = play(&mut g, "inventory");
    assert_eq!(r, Ok(Status::Normal));
    assert!(out.is_empty());
    play(&mut g, "get key").0.unwrap();
    play(&mut g, "get book").0.unwrap();
    let (_, out) = play(&mut g, "inventory");
    let shown: Vec<(VisualKind, &str)> = out.iter().map(|v| (v.kind, v.text.as_str())).collect();
    assert_eq!(shown, vec![(VisualKind::Item, "key"), (VisualKind::Item, "book")]);
}

#[test]
fn examine_shows_what_a_thing_looks_like() {
    let mut g = game();
    let (r, out) = play(&mut g, "examine key");
    assert_eq!(r, Ok(Status::Normal));
    assert_eq!(texts(&out), vec!["A small key."]);
    assert_eq!(out[0].kind, VisualKind::Prose);
    let (r, out) = play(&mut g, "examine self");
    assert_eq!(r, Ok(Status::Normal));
    assert_eq!(texts(&out), vec!["It's you."]);
    let (r, out) = play(&mut g, "examine plain");
    assert_eq!(r, Ok(Status::Normal));
    assert!(out.is_empty());
    let (r, out) = play(&mut g, "examine unicorn");
    assert_eq!(r, Err("You don't see any such thing.".to_string()));
    assert_eq!(texts(&out), vec!["You don't see any such thing."]);
}

#[test]
fn read_needs_something_to_read_that_is_held_or_fixed() {
    let mut g = game();
    assert_eq!(play(&mut g, "read unicorn").0, Err("You don't see any such thing.".to_string()));
    assert_eq!(play(&mut g, "read key").0, Err("You can't read that.".to_string()));
    assert_eq!(play(&mut g, "read book").0, Err("You don't have it.".to_string()));
    let (r, out) = play(&mut g, "read sign");
    assert_eq!(r, Ok(Status::Normal));
    assert_eq!(texts(&out), vec!["Keep out."]);
    play(&mut g, "get book").0.unwrap();
    let (r, out) = play(&mut g, "read book");
    assert_eq!(r, Ok(Status::Normal));
    assert_eq!(texts(&out), vec!["Once upon a time."]);
}

#[test]
fn get_takes_what_can_be_taken() {
    let mut g = game();
    let key = g.world.lookup("key").unwrap();
    assert_eq!(play(&mut g, "get unicorn").0, Err("You don't see any such thing.".to_string()));
    assert_eq!(play(&mut g, "get sign").0, Err("You can't take that!".to_string()));
    assert_eq!(play(&mut g, "get hands").0, Err("You already have that.".to_string()));
    let (r, out) = play(&mut g, "get key");
    assert_eq!(r, Ok(Status::Normal));
    assert_eq!(texts(&out), vec!["Taken."]);
    assert_eq!(phys::loc(&g.world, key), PLAYER);
    assert_eq!(play(&mut g, "get key").0, Err("You already have that.".to_string()));
    assert_eq!(play(&mut g, "pick up key").0, Err("You already have that.".to_string()));
}

#[test]
fn the_least_identity_wins_among_things_of_one_noun() {
    let mut g = game();
    let key = g.world.lookup("key").unwrap();
    let twin = g.world.lookup("twin").unwrap();
    let hall = g.world.lookup("hall").unwrap();
    assert!(key < twin);
    phys::put_in(&mut g.world, twin, hall);
    let seen = phys::visible(&g.world, PLAYER);
    assert_eq!(player_control::find_noun(&g.world, &seen, "key"), Some(key));
    assert_eq!(player_control::find_noun(&g.world, &seen, "sword"), None);
    play(&mut g, "get key").0.unwrap();
    assert_eq!(phys::loc(&g.world, key), PLAYER);
    assert_eq!(phys::loc(&g.world, twin), hall);
    let around = phys::contents(&g.world, hall);
    assert_eq!(player_control::find_noun(&g.world, &around, "key"), Some(twin));
}

#[test]
fn drop_puts_down_what_is_carried() {
    let mut g = game();
    let key = g.world.lookup("key").unwrap();
    let vault = g.world.lookup("vault").unwrap();
    assert_eq!(play(&mut g, "drop unicorn").0, Err("You don't see any such thing.".to_string()));
    assert_eq!(play(&mut g, "drop key").0, Err("You aren't carrying that.".to_string()));
    assert_eq!(play(&mut g, "drop hands").0, Err("You can't drop that!".to_string()));
    play(&mut g, "get key").0.unwrap();
    play(&mut g, "east").0.unwrap();
    let (r, out) = play(&mut g, "drop key");
    assert_eq!(r, Ok(Status::Normal));
    assert_eq!(texts(&out), vec!["Dropped."]);
    assert_eq!(out[0].kind, VisualKind::Act);
    assert_eq!(phys::loc(&g.world, key), vault);
}

#[test]
fn undo_needs_something_to_undo() {
    let mut g = game();
    let (r, out) = play(&mut g, "undo");
    assert_eq!(r, Err("Nothing to undo.".to_string()));
    assert_eq!(texts(&out), vec!["Nothing to undo."]);
    let before = format!("{:?}", g.world);
    play(&mut g, "get key").0.unwrap();
    let (r, out) = play(&mut g, "undo");
    assert_eq!(r, Ok(Status::Undo));
    assert_eq!(texts(&out), vec!["Undone."]);
    assert_eq!(format!("{:?}", g.world), before);
    assert_eq!(play(&mut g, "undo").0, Err("Nothing to undo.".to_string()));
}

#[test]
fn a_failed_command_cannot_be_undone_and_changes_nothing() {
    let mut g = game();
    let before = format!("{:?}", g);
    assert!(play(&mut g, "get unicorn").0.is_err());
    assert!(play(&mut g, "fly").0.is_err());
    assert!(play(&mut g, "").0.is_err());
    assert_eq!(format!("{:?}", g), before);
    assert!(!g.has_undo());
}

#[test]
fn help_quit_and_nonsense() {
    let mut g = game();
    let (r, out) = play(&mut g, "help");
    assert_eq!(r, Ok(Status::Normal));
    assert_eq!(out.len(), 1);
    assert_eq!(out[0].kind, VisualKind::Info);
    assert!(out[0].text.starts_with("You've got the usual commands: n, s, e, w, look, get, drop, quit."));
    let (r, out) = play(&mut g, "quit");
    assert_eq!(r, Ok(Status::Quit));
    assert_eq!(texts(&out), vec!["Bye, then."]);
    let (r, out) = play(&mut g, "dance wildly");
    assert_eq!(r, Err("I don't understand.".to_string()));
    assert_eq!(texts(&out), vec!["I don't understand."]);
    let (r, out) = play(&mut g, "   ");
    assert_eq!(r, Err("I don't understand.".to_string()));
    assert_eq!(texts(&out), vec!["I don't understand."]);
}

#[test]
fn custom_commands_come_first() {
    let mut g = game();
    let (r, out) = play(&mut g, "pray");
    assert_eq!(r, Ok(Status::Normal));
    assert_eq!(texts(&out), vec!["Nothing happens."]);
    // A custom command with two words comes before the built-in one with one.
    let (r, out) = play(&mut g, "look twice");
    assert_eq!(r, Ok(Status::Normal));
    assert_eq!(texts(&out), vec!["You look twice."]);
    let (_, out) = play(&mut g, "look");
    assert_eq!(out[0].text, "Hall");
    // A command about a thing in sight.
    assert_eq!(play(&mut g, "wave unicorn").0, Err("You don't see any such thing.".to_string()));
    assert!(!g.world.has_flag(PLAYER, &Flag::user("WAVED")));
    let (r, out) = play(&mut g, "wave key");
    assert_eq!(r, Ok(Status::Normal));
    assert_eq!(texts(&out), vec!["You wave."]);
    assert!(g.world.has_flag(PLAYER, &Flag::user("WAVED")));
    let (r, out) = play(&mut g, "wave key");
    assert_eq!(r, Err("Your arm is tired.".to_string()));
    assert_eq!(texts(&out), vec!["Your arm is tired."]);
    assert_eq!(play(&mut g, "wave").0, Err("I don't understand.".to_string()));
}

#[test]
fn handlers_match_their_patterns() {
    let hook = || CommandHook::new(Condition::Always, Script::new(), "no");
    let w = |s: &str| -> Vec<String> { s.split(' ').map(|x| x.to_string()).collect() };
    let verb = CommandHandler::verb("pray", hook());
    assert!(verb.matches(&w("pray")));
    assert!(!verb.matches(&w("pray now")));
    assert!(!verb.matches(&w("sing")));
    assert!(!verb.matches(&Vec::new()));
    let two = CommandHandler::verb_noun("wash", "hands", hook());
    assert!(two.matches(&w("wash hands")));
    assert!(!two.matches(&w("wash feet")));
    assert!(!two.matches(&w("dry hands")));
    assert!(!two.matches(&w("wash")));
    assert!(!two.matches(&w("wash hands now")));
    let seen = CommandHandler::verb_visible("wave", hook());
    assert!(seen.matches(&w("wave anything")));
    assert!(!seen.matches(&w("wave")));
    assert!(!seen.matches(&w("shake anything")));
    let copy = two.clone();
    assert!(copy.matches(&w("wash hands")));
}

#[test]
fn debug_commands_look_into_the_game() {
    let mut g = game();
    let key = g.world.lookup("key").unwrap();
    let hall = g.world.lookup("hall").unwrap();
    let vault = g.world.lookup("vault").unwrap();
    let (r, out) = play(&mut g, "!list");
    assert_eq!(r, Ok(Status::Normal));
    assert_eq!(out.len(), g.world.len());
    assert_eq!(out[0].text, "[0] LIMBO");
    assert_eq!(out[1].text, "[1] PLAYER");
    assert_eq!(out[hall].text, format!("[{}] hall", hall));

    let (r, out) = play(&mut g, "!dump key");
    assert_eq!(r, Ok(Status::Normal));
    assert_eq!(
        texts(&out),
        vec![format!("[{}] key", key), "name: key".to_string(), format!("location: {}", hall)]
    );
    // An entity is also named by its number.
    let (r, out) = play(&mut g, &format!("!dump {}", key));
    assert_eq!(r, Ok(Status::Normal));
    assert_eq!(out[0].text, format!("[{}] key", key));
    let (r, out) = play(&mut g, "!dump 0");
    assert_eq!(r, Ok(Status::Normal));
    assert_eq!(texts(&out), vec!["[0] LIMBO"]);

    assert_eq!(play(&mut g, "!dump 999").0, Err("Not an ID: 999".to_string()));
    assert_eq!(play(&mut g, "!dump unicorn").0, Err("Not an ID: unicorn".to_string()));
    assert_eq!(play(&mut g, "!dump -1").0, Err("Not an ID: -1".to_string()));

    let (r, out) = play(&mut g, "!look vault");
    assert_eq!(r, Ok(Status::Normal));
    assert_eq!(texts(&out), vec!["Vault", "Gold everywhere.", "other key"]);
    assert_eq!(play(&mut g, "!look key").0, Err(format!("Entity {} is not a room.", key)));
    assert_eq!(play(&mut g, "!look 0").0, Err("Entity 0 is not a room.".to_string()));

    let (r, out) = play(&mut g, "!examine key");
    assert_eq!(r, Ok(Status::Normal));
    assert_eq!(texts(&out), vec!["A small key."]);
    assert_eq!(play(&mut g, "!examine hall").0, Err(format!("Entity {} is not a thing.", hall)));

    assert_eq!(phys::loc(&g.world, PLAYER), hall);
    let (r, out) = play(&mut g, "!go vault");
    assert_eq!(r, Ok(Status::Normal));
    assert_eq!(phys::loc(&g.world, PLAYER), vault);
    assert_eq!(texts(&out), vec!["Vault", "Gold everywhere.", "other key"]);
    assert_eq!(play(&mut g, "!go key").0, Err(format!("Entity {} is not a room.", key)));
    assert_eq!(play(&mut g, "!fly").0, Err("I don't understand.".to_string()));
    assert_eq!(play(&mut g, "!go").0, Err("I don't understand.".to_string()));
    // Looking into the game leaves nothing to undo.
    assert!(!g.has_undo());
}

#[test]
fn tokens_name_entities_by_tag_or_number() {
    let g = game();
    let key = g.world.lookup("key").unwrap();
    assert_eq!(player_control::parse_id(&g.world, "key"), Ok(key));
    assert_eq!(player_control::parse_id(&g.world, "1"), Ok(1));
    assert_eq!(player_control::parse_id(&g.world, "0"), Ok(0));
    assert_eq!(player_control::parse_id(&g.world, "+1"), Ok(1));
    assert_eq!(player_control::parse_id(&g.world, "77"), Err("Not an ID: 77".to_string()));
    assert_eq!(player_control::parse_id(&g.world, "1.0"), Err("Not an ID: 1.0".to_string()));
    assert_eq!(player_control::parse_id(&g.world, ""), Err("Not an ID: ".to_string()));
    assert_eq!(player_control::resolve_id(&g.world, "key", Some(0)), Ok(key));
    assert_eq!(player_control::resolve_id(&g.world, "nothing", Some(0)), Ok(0));
    assert_eq!(
        player_control::resolve_id(&g.world, "nothing", Some(500)),
        Err("Not an ID: nothing".to_string())
    );
    assert_eq!(
        player_control::resolve_id(&g.world, "nothing", None),
        Err("Not an ID: nothing".to_string())
    );
}

#[test]
fn the_commands_can_be_called_one_by_one() {
    let mut g = game();
    let hall = g.world.lookup("hall").unwrap();
    let player = Player { id: PLAYER, loc: hall };
    let mut out = Vec::new();
    assert_eq!(player_control::cmd_help(&mut out), Ok(Status::Normal));
    assert_eq!(player_control::cmd_restart(&mut out), Ok(Status::Restart));
    assert_eq!(player_control::cmd_quit(&mut out), Ok(Status::Quit));
    assert_eq!(player_control::cmd_undo(&g, &mut out), Err("Nothing to undo.".to_string()));
    out.clear();
    assert_eq!(player_control::cmd_look(&g.world, &player, &mut out), Ok(Status::Normal));
    assert_eq!(out[0].text, "Hall");
    out.clear();
    assert_eq!(
        player_control::cmd_get(&mut g.world, &player, "key", &mut out),
        Ok(Status::Normal)
    );
    assert_eq!(
        player_control::cmd_drop(&mut g.world, &player, "key", &mut out),
        Ok(Status::Normal)
    );
    assert_eq!(
        player_control::cmd_examine(&g.world, &player, "key", &mut out),
        Ok(Status::Normal)
    );
    assert_eq!(
        player_control::cmd_read(&mut g.world, &player, "sign", &mut out),
        Ok(Status::Normal)
    );
    assert_eq!(player_control::cmd_inventory(&g.world, &player, &mut out), Ok(Status::Normal));
    assert_eq!(
        player_control::cmd_go(&mut g.world, &player, Dir::East, &mut out),
        Ok(Status::Normal)
    );
    assert_eq!(texts(&out), vec![
        "Taken.",
        "Dropped.",
        "A small key.",
        "Keep out.",
        "Vault",
        "Gold everywhere.",
        "other key",
    ]);
    out.clear();
    player_control::describe_player_location(&g.world, &mut out);
    assert_eq!(texts(&out), vec!["Vault", "Gold everywhere.", "other key"]);
}
