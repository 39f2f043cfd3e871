use advent::entity::EntityBuilder;
use advent::phys;
use advent::types::Action;
use advent::types::Condition;
use advent::types::Dir;
use advent::types::Flag;
use advent::types::LinkDest;
use advent::types::Prose;
use advent::types::ProseHook;
use advent::types::ProseType;
use advent::visual;
use advent::world::LIMBO;
use advent::world::PLAYER;
use advent::world::World;
use advent::world_builder::Is;
use advent::world_builder::WBEvent;
use advent::world_builder::WorldBuilder;

#[test]
fn entity_builder_builds_an_entity() {
    let mut w = World::new();
    let hall = EntityBuilder::make(&mut w, "hall")
        .name("Hall")
        .prose("  A hall.\n")
        .links()
        .inventory()
        .build();
    assert_eq!(hall, Some(2));
    let key = EntityBuilder::make(&mut w, "key").name("a key").thing(true).location(2).build();
    assert_eq!(key, Some(3));
    let rule = EntityBuilder::make(&mut w, "rule")
        .rule(Condition::ClockIs(0), Action::Print("Hello.".to_string()), true)
        .build();
    assert_eq!(rule, Some(4));
    let again = EntityBuilder::make(&mut w, "again")
        .rule(Condition::Always, Action::Kill(PLAYER), false)
        .build();
    assert_eq!(again, Some(5));

    assert!(w.is_room(2));
    assert_eq!(w.tag(2), "hall");
    assert_eq!(w.entities[2].name, Some("Hall".to_string()));
    assert!(w.has_prose_type(2, ProseType::Room));
    match &w.entities[2].prose.as_ref().unwrap().room {
        Some(Prose::Prose(text)) => assert_eq!(text, "A hall."),
        other => panic!("{:?}", other),
    }
    assert!(w.is_thing(3));
    assert_eq!(w.entities[3].thing.as_ref().unwrap().noun, "key");
    assert!(w.entities[3].thing.as_ref().unwrap().portable);
    assert_eq!(phys::loc(&w, 3), 2);
    assert!(phys::owns(&w, 2, 3));
    assert!(w.is_rule(4));
    assert!(w.has_flag(4, &Flag::FireOnce));
    assert!(!w.has_flag(5, &Flag::FireOnce));
    assert!(w.is_well_shaped());

    let mut out = Vec::new();
    advent::rule::system(&mut w, &mut out);
    assert_eq!(out.len(), 1);
    assert_eq!(out[0].text, "Hello.");
    assert!(w.has_flag(PLAYER, &Flag::Dead));
}

#[test]
fn entity_builder_refuses_what_does_not_fit() {
    let mut w = World::new();
    let before = format!("{:?}", w);
    assert_eq!(EntityBuilder::make(&mut w, "PLAYER").name("Twin").build(), None);
    assert_eq!(format!("{:?}", w), before);
    // The player holds things, the key below does not.
    assert_eq!(EntityBuilder::make(&mut w, "key").thing(true).build(), Some(2));
    let before = format!("{:?}", w);
    assert_eq!(EntityBuilder::make(&mut w, "ring").thing(true).location(2).build(), None);
    assert_eq!(EntityBuilder::make(&mut w, "ring").thing(true).location(9).build(), None);
    assert_eq!(EntityBuilder::make(&mut w, "ring").thing(true).location(3).build(), None);
    assert_eq!(format!("{:?}", w), before);
    assert_eq!(EntityBuilder::make(&mut w, "ring").thing(true).location(PLAYER).build(), Some(3));
    assert_eq!(phys::loc(&w, 3), PLAYER);
    let mut full = EntityBuilder::make(&mut w, "bag").inventory();
    full.inventory.as_mut().unwrap().add(3);
    assert_eq!(full.build(), None);
}

#[test]
fn the_builder_starts_with_limbo_and_the_player() {
    let wb = WorldBuilder::new();
    assert!(wb.is_ready());
    let w = wb.world();
    assert_eq!(w.len(), 2);
    assert_eq!(w.tag(LIMBO), advent::world_builder::LIMBO);
    assert_eq!(w.tag(PLAYER), advent::world_builder::PLAYER);
    assert_eq!(phys::loc(&w, PLAYER), LIMBO);
}

#[test]
fn tags_name_entities_that_are_made_when_first_named() {
    let mut wb = WorldBuilder::new();
    let a = wb.entity("a");
    let b = wb.entity("b");
    assert_eq!((a, b), (2, 3));
    assert_eq!(wb.entity("a"), 2);
    assert_eq!(wb.entity("PLAYER"), PLAYER);
    assert_eq!(wb.world.len(), 4);
    // A room can be linked to before it is built.
    wb.room("hall", "Hall").link(Dir::East, "vault");
    let vault = wb.world.lookup("vault").unwrap();
    assert!(!wb.world.is_room(vault));
    assert!(!wb.is_ready());
    wb.room("vault", "Vault");
    assert_eq!(wb.world.lookup("vault"), Some(vault));
    assert!(wb.world.is_room(vault));
    assert!(wb.is_ready());
}

#[test]
fn rooms_things_and_features() {
    let mut wb = WorldBuilder::new();
    wb.room("hall", "Hall").prose(" A hall. ").flag(Flag::user("DARK")).dead_end(Dir::Up, "No.");
    wb.thing("key", "a key", "key").on_examine("Small.").on_read("Mine.").on_scenery("Glints.")
        .flag(Flag::user("SHINY")).location("hall");
    wb.feature("door", "a door", "door").location("hall");
    wb.thing("ghost", "a ghost", "ghost");
    let w = &wb.world;
    let hall = w.lookup("hall").unwrap();
    let key = w.lookup("key").unwrap();
    let door = w.lookup("door").unwrap();
    let ghost = w.lookup("ghost").unwrap();
    assert!(w.is_room(hall));
    assert!(w.has_flag(hall, &Flag::user("DARK")));
    assert!(w.has_inventory(hall) && w.has_flag_set(hall) && !w.has_location(hall));
    assert!(w.is_thing(key) && w.is_thing(door) && w.is_thing(ghost));
    assert_eq!(w.entities[key].name, Some("a key".to_string()));
    assert_eq!(w.entities[key].thing.as_ref().unwrap().noun, "key");
    assert_eq!(phys::loc(w, key), hall);
    assert_eq!(phys::loc(w, door), hall);
    assert_eq!(phys::loc(w, ghost), LIMBO);
    assert!(w.has_flag(key, &Flag::user("SHINY")));
    assert!(w.has_flag(door, &Flag::Immovable) && w.has_flag(door, &Flag::Scenery));
    assert!(!w.has_flag(key, &Flag::Immovable) && !w.has_flag(key, &Flag::Scenery));
    assert!(w.has_prose_type(key, ProseType::Thing));
    assert!(w.has_prose_type(key, ProseType::Book));
    assert!(w.has_prose_type(key, ProseType::Scenery));
    assert!(!w.has_prose_type(key, ProseType::Room));
    match phys::follow_link(w, hall, Dir::Up) {
        Some(LinkDest::DeadEnd(text)) => assert_eq!(text, "No."),
        other => panic!("{:?}", other),
    }
    let mut out = Vec::new();
    visual::room(w, hall, &mut out);
    let texts: Vec<&str> = out.iter().map(|v| v.text.as_str()).collect();
    assert_eq!(texts, vec!["Hall", "A hall.", "a key"]);
    assert!(wb.is_ready());
}

#[test]
fn prose_is_trimmed_and_hooks_are_resolved_when_shown() {
    let mut wb = WorldBuilder::new();
    wb.player().location("hall").on_examine_hook(ProseHook::new(
        Condition::HasFlag(PLAYER, Flag::Dead),
        "You are dead.",
        "You are alive.",
    ));
    wb.room("hall", "Hall").prose_hook(ProseHook::new(
        Condition::ClockIs(0),
        "It is dawn.",
        "It is day.",
    ));
    wb.thing("key", "key", "key").on_examine("\n\t A key.   \n").on_read_hook(ProseHook::new(
        Condition::Owns(PLAYER, 3),
        "In your hand it reads: mine.",
        "You cannot make it out from here.",
    )).on_scenery_hook(ProseHook::new(Condition::Always, "A key glints.", "never")).on_examine_hook(
        ProseHook::new(Condition::Always.negated(), "never", "A key, still."),
    ).location("hall");
    assert!(wb.is_ready());
    let mut w = wb.world();
    let hall = w.lookup("hall").unwrap();
    let key = w.lookup("key").unwrap();
    assert_eq!(key, 3);
    let mut out = Vec::new();
    visual::player(&w, PLAYER, &mut out);
    visual::room(&w, hall, &mut out);
    visual::thing(&w, key, &mut out);
    visual::read(&w, key, &mut out);
    let texts: Vec<&str> = out.iter().map(|v| v.text.as_str()).collect();
    assert_eq!(
        texts,
        vec![
            "You are alive.",
            "Hall",
            "It is dawn.",
            "key",
            "A key, still.",
            "You cannot make it out from here."
        ]
    );
    w.set_flag(PLAYER, Flag::Dead);
    w.set_flag(key, Flag::Scenery);
    w.clock = 1;
    out.clear();
    visual::player(&w, PLAYER, &mut out);
    visual::room(&w, hall, &mut out);
    visual::room_brief(&w, hall, &mut out);
    phys::put_in(&mut w, key, PLAYER);
    visual::read(&w, key, &mut out);
    visual::player_inventory(&w, PLAYER, &mut out);
    let texts: Vec<&str> = out.iter().map(|v| v.text.as_str()).collect();
    assert_eq!(
        texts,
        vec![
            "You are dead.",
            "Hall",
            "It is day.",
            "A key glints.",
            "Hall",
            "In your hand it reads: mine."
        ]
    );
    assert!(visual::can_read(&w, key));
    assert!(!visual::can_read(&w, hall));
}

#[test]
fn the_player_is_placed_and_has_seen_the_place() {
    let mut wb = WorldBuilder::new();
    wb.player().location("hall").flag(Flag::user("TIRED")).on_examine("You.");
    let hall = wb.world.lookup("hall").unwrap();
    assert_eq!(phys::loc(&wb.world, PLAYER), hall);
    assert!(wb.world.has_flag(PLAYER, &Flag::Seen(hall)));
    assert!(wb.world.has_flag(PLAYER, &Flag::user("TIRED")));
    assert_eq!(wb.expectations, vec![Is::Room(hall)]);
    // The place is expected to be a room.
    assert!(!wb.is_ready());
    wb.room("hall", "Hall");
    assert!(wb.is_ready());
}

#[test]
fn rules_are_built_with_their_tags() {
    let mut wb = WorldBuilder::new();
    wb.player().location("hall");
    wb.room("hall", "Hall");
    wb.thing("gem", "gem", "gem").on_read("x").location("hall");
    let g = wb.allow(&WBEvent::GetThing("gem")).id;
    let r = wb.on(&WBEvent::ReadThing("gem")).id;
    let e = wb.on(&WBEvent::EnterRoom("hall")).id;
    let a = wb.allow(&WBEvent::EnterRoom("hall")).id;
    let t = wb.rule("tick").id;
    let w = &wb.world;
    assert_eq!(w.tag(g), "allow-get-gem");
    assert_eq!(w.tag(r), "on-read-gem");
    assert_eq!(w.tag(e), "on-enter-hall");
    assert_eq!(w.tag(a), "allow-enter-hall");
    assert_eq!(w.tag(t), "tick");
    let gem = w.lookup("gem").unwrap();
    let hall = w.lookup("hall").unwrap();
    let rule = |id: usize| w.entities[id].rule.as_ref().unwrap();
    assert!(rule(g).is_guard && rule(a).is_guard);
    assert!(!rule(r).is_guard && !rule(e).is_guard && !rule(t).is_guard);
    assert_eq!(rule(g).event, advent::types::Event::GetThing(PLAYER, gem));
    assert_eq!(rule(r).event, advent::types::Event::ReadThing(PLAYER, gem));
    assert_eq!(rule(e).event, advent::types::Event::EnterRoom(PLAYER, hall));
    assert_eq!(rule(t).event, advent::types::Event::Turn);
    // A trigger fires unless it is told when; a guard forbids unless it is
    // told otherwise.
    assert!(w.holds(&rule(t).predicate));
    assert!(!w.holds(&rule(g).predicate));
    assert!(wb.is_ready());
    let mut w = wb.world();
    let mut out = Vec::new();
    assert_eq!(phys::get_thing(&mut w, PLAYER, gem, &mut out), Ok(()));
    assert_eq!(phys::loc(&w, gem), hall);
    assert!(out.is_empty());
}

#[test]
fn rule_actions_name_entities_by_tag() {
    let mut wb = WorldBuilder::new();
    wb.player().location("hall");
    wb.room("hall", "Hall");
    wb.thing("gem", "gem", "gem").location("hall");
    wb.rule("r").when(Condition::ClockIs(2)).once_only().print("p").set_flag("gem", Flag::user("A"))
        .unset_flag("gem", Flag::user("B")).forget("gem").kill("PLAYER").revive("PLAYER");
    let w = &wb.world;
    let gem = w.lookup("gem").unwrap();
    let r = w.lookup("r").unwrap();
    let rule = w.entities[r].rule.as_ref().unwrap();
    assert_eq!(
        format!("{:?}", rule.script.actions),
        format!(
            "{:?}",
            vec![
                Action::Print("p".to_string()),
                Action::SetFlag(gem, Flag::user("A")),
                Action::ClearFlag(gem, Flag::user("B")),
                Action::Forget(gem),
                Action::Kill(PLAYER),
                Action::Revive(PLAYER),
            ]
        )
    );
    assert!(w.has_flag(r, &Flag::FireOnce));
    assert!(wb.is_ready());
}

#[test]
fn an_incomplete_world_is_not_ready() {
    // A rule forgets something that is no thing.
    let mut wb = WorldBuilder::new();
    wb.rule("r").forget("nothing");
    assert!(!wb.is_ready());
    // A rule kills what is no player.
    let mut wb = WorldBuilder::new();
    wb.room("hall", "Hall");
    wb.rule("r").kill("hall");
    assert!(!wb.is_ready());
    // A guard does more than show messages.
    let mut wb = WorldBuilder::new();
    wb.room("hall", "Hall");
    wb.allow(&WBEvent::EnterRoom("hall")).print("no").kill("PLAYER");
    assert!(!wb.is_ready());
    // A rule is about a book that cannot be read.
    let mut wb = WorldBuilder::new();
    wb.thing("book", "book", "book");
    wb.on(&WBEvent::ReadThing("book"));
    assert!(!wb.is_ready());
    wb.thing("book", "book", "book").on_read("x");
    assert!(wb.is_ready());
    // A script sets a mark of the rule engine.
    let mut wb = WorldBuilder::new();
    wb.rule("r").set_flag("PLAYER", Flag::Fired);
    assert!(!wb.is_ready());
    // A condition reads the flags of an entity without flags.
    let mut wb = WorldBuilder::new();
    wb.rule("r").when(Condition::HasFlag(LIMBO, Flag::Dead));
    assert!(!wb.is_ready());
    // A link leads to what is no room.
    let mut wb = WorldBuilder::new();
    wb.room("hall", "Hall").link(Dir::In, "PLAYER");
    assert!(!wb.is_ready());
}

#[test]
fn custom_commands_are_added_in_order() {
    let mut wb = WorldBuilder::new();
    let hook = || advent::types::CommandHook::new(Condition::Always, advent::script::Script::new(), "no");
    wb.verb("a", hook());
    wb.verb_noun("b", "c", hook());
    wb.verb_visible("d", hook());
    let w = |s: &str| -> Vec<String> { s.split(' ').map(|x| x.to_string()).collect() };
    assert_eq!(wb.world.command_handlers.len(), 3);
    assert!(wb.world.command_handlers[0].matches(&w("a")));
    assert!(wb.world.command_handlers[1].matches(&w("b c")));
    assert!(wb.world.command_handlers[2].matches(&w("d anything")));
    assert!(wb.is_ready());
}
