use advent::entity::Entity;
use advent::phys;
use advent::types::Condition;
use advent::types::Dir;
use advent::types::Flag;
use advent::types::LinkDest;
use advent::types::ProseType;
use advent::world::LIMBO;
use advent::world::PLAYER;
use advent::world::World;

#[test]
fn a_new_world_holds_limbo_and_the_player() {
    let w = World::new();
    assert_eq!(w.len(), 2);
    assert_eq!(w.pid, PLAYER);
    assert_eq!(w.clock, 0);
    assert_eq!(w.tag(LIMBO), "LIMBO");
    assert_eq!(w.tag(PLAYER), "PLAYER");
    assert_eq!(w.lookup("LIMBO"), Some(0));
    assert_eq!(w.lookup("PLAYER"), Some(1));
    assert_eq!(phys::loc(&w, PLAYER), LIMBO);
    assert!(phys::owns(&w, LIMBO, PLAYER));
    assert!(w.has_flag(PLAYER, &Flag::Scenery));
    assert!(w.is_player(PLAYER));
    assert!(!w.is_player(LIMBO));
    assert!(w.is_thing(PLAYER));
    assert!(w.has_inventory(LIMBO) && w.has_inventory(PLAYER));
    assert!(w.has_location(PLAYER) && !w.has_location(LIMBO));
    assert!(w.has_flag_set(PLAYER) && !w.has_flag_set(LIMBO));
    assert!(w.is_well_shaped());
}

#[test]
fn allocate_gives_new_identities_and_refuses_taken_tags() {
    let mut w = World::new();
    assert_eq!(w.allocate("lamp"), Some(2));
    assert_eq!(w.allocate("key"), Some(3));
    assert_eq!(w.allocate("lamp"), None);
    assert_eq!(w.allocate("PLAYER"), None);
    assert_eq!(w.len(), 4);
    assert_eq!(w.lookup("lamp"), Some(2));
    assert_eq!(w.lookup("key"), Some(3));
    assert_eq!(w.lookup("sword"), None);
    assert_eq!(w.lookup(""), None);
    assert_eq!(w.tag(3), "key");
    assert!(!w.is_room(2) && !w.is_thing(2) && !w.is_rule(2));
    assert!(!w.is_room(17));
}

#[test]
fn flags_are_set_and_cleared() {
    let mut w = World::new();
    let dirty = Flag::user("DIRTY");
    assert!(!w.has_flag(PLAYER, &dirty));
    w.set_flag(PLAYER, Flag::user("DIRTY"));
    w.set_flag(PLAYER, Flag::user("DIRTY"));
    w.set_flag(PLAYER, Flag::Seen(4));
    assert!(w.has_flag(PLAYER, &dirty));
    assert!(w.has_flag(PLAYER, &Flag::Seen(4)));
    assert!(!w.has_flag(PLAYER, &Flag::Seen(5)));
    assert!(!w.has_flag(PLAYER, &Flag::user("DIRTY_HANDS")));
    w.clear_flag(PLAYER, &dirty);
    assert!(!w.has_flag(PLAYER, &dirty));
    assert!(w.has_flag(PLAYER, &Flag::Seen(4)));
    assert!(w.has_flag(PLAYER, &Flag::Scenery));
    w.clear_flag(PLAYER, &dirty);
    assert!(!w.has_flag(PLAYER, &dirty));
}

#[test]
fn flags_compare_by_what_they_say() {
    assert_eq!(Flag::user("A"), Flag::user("A"));
    assert_ne!(Flag::user("A"), Flag::user("B"));
    assert_ne!(Flag::Seen(1), Flag::Seen(2));
    assert_eq!(Flag::Seen(1), Flag::Seen(1));
    assert_ne!(Flag::Fired, Flag::FireOnce);
    assert_ne!(Flag::Scenery, Flag::user("Scenery"));
    assert!(Flag::Fired.is_reserved() && Flag::FireOnce.is_reserved());
    assert!(!Flag::Dead.is_reserved() && !Flag::user("Fired").is_reserved());
    assert_eq!(Flag::user("X").clone(), Flag::user("X"));
}

#[test]
fn conditions_read_the_world() {
    let mut w = World::new();
    assert!(w.holds(&Condition::Always));
    assert!(w.holds(&Condition::ClockIs(0)));
    assert!(!w.holds(&Condition::ClockIs(1)));
    assert!(w.holds(&Condition::Owns(LIMBO, PLAYER)));
    assert!(!w.holds(&Condition::Owns(PLAYER, LIMBO)));
    assert!(w.holds(&Condition::HasFlag(PLAYER, Flag::Scenery)));
    assert!(!w.holds(&Condition::HasFlag(PLAYER, Flag::Dead)));
    assert!(w.holds(&Condition::HasFlag(PLAYER, Flag::Dead).negated()));
    assert!(w.holds(&Condition::HasFlag(PLAYER, Flag::Scenery).and(Condition::ClockIs(0))));
    assert!(!w.holds(&Condition::HasFlag(PLAYER, Flag::Scenery).and(Condition::ClockIs(3))));
    w.clock = 3;
    assert!(w.holds(&Condition::HasFlag(PLAYER, Flag::Scenery).and(Condition::ClockIs(3))));
    // Whether a condition can be evaluated.
    assert!(w.valid_condition(&Condition::HasFlag(PLAYER, Flag::Dead)));
    assert!(!w.valid_condition(&Condition::HasFlag(LIMBO, Flag::Dead)));
    assert!(!w.valid_condition(&Condition::HasFlag(9, Flag::Dead)));
    assert!(!w.valid_condition(&Condition::Owns(9, PLAYER)));
    assert!(!w.valid_condition(&Condition::Always.and(Condition::Owns(9, PLAYER).negated())));
}

#[test]
fn a_copy_of_the_world_is_independent() {
    let mut w = World::new();
    w.allocate("lamp");
    let copy = w.clone();
    assert_eq!(format!("{:?}", copy), format!("{:?}", w));
    w.set_flag(PLAYER, Flag::Dead);
    w.clock = 9;
    assert!(!copy.has_flag(PLAYER, &Flag::Dead));
    assert_eq!(copy.clock, 0);
    assert_eq!(copy.len(), 3);
}

#[test]
fn entities_know_what_they_are() {
    let mut e = Entity::bare(5, "thing");
    assert!(!e.is_room() && !e.is_thing() && !e.is_rule() && !e.is_prose());
    assert_eq!(e.display_name(), "thing");
    e.name = Some("A Thing".to_string());
    assert_eq!(e.display_name(), "A Thing");
    assert!(!e.is_thing());
    e.thing = Some(advent::types::ThingComponent::new("thing", true));
    assert!(e.is_thing());
    e.prose = Some(advent::types::ProseComponent::new());
    assert!(e.is_prose());
    assert!(!e.is_room());
    e.links = Some(advent::types::LinksComponent::new());
    assert!(!e.is_room());
    e.inventory = Some(advent::types::InventoryComponent::new());
    assert!(e.is_room());
    e.rule = Some(advent::types::RuleComponent::new());
    assert!(e.is_rule());
    let copy = e.clone();
    assert_eq!(format!("{:?}", copy), format!("{:?}", e));
}

#[test]
fn a_world_with_a_tag_twice_is_not_well_shaped() {
    let mut w = World::new();
    w.allocate("lamp");
    assert!(w.is_well_shaped());
    w.entities[2].tag = "PLAYER".to_string();
    assert!(!w.is_well_shaped());
}

#[test]
fn a_world_with_a_thing_without_flags_is_not_well_shaped() {
    let mut w = World::new();
    assert!(w.is_well_shaped());
    w.entities[PLAYER].flags = None;
    assert!(!w.is_well_shaped());
}

#[test]
fn prose_kinds_are_told_apart() {
    let mut w = World::new();
    assert!(!w.has_prose_type(PLAYER, ProseType::Thing));
    let mut p = advent::types::ProseComponent::new();
    p.set(ProseType::Thing, advent::types::Prose::Prose("You.".to_string()));
    w.entities[PLAYER].prose = Some(p);
    assert!(w.has_prose_type(PLAYER, ProseType::Thing));
    assert!(!w.has_prose_type(PLAYER, ProseType::Book));
    assert!(!w.has_prose_type(PLAYER, ProseType::Room));
    assert!(!w.has_prose_type(PLAYER, ProseType::Scenery));
    assert!(!w.has_prose_type(44, ProseType::Thing));
}

#[test]
fn inventories_hold_identities() {
    let mut inv = advent::types::InventoryComponent::new();
    assert!(inv.members().is_empty());
    inv.add(3);
    inv.add(1);
    inv.add(3);
    assert!(inv.has(1) && inv.has(3) && !inv.has(2));
    assert_eq!(inv.members(), vec![1, 3]);
    inv.remove(1);
    inv.remove(7);
    assert_eq!(inv.members(), vec![3]);
    let copy = inv.clone();
    inv.remove(3);
    assert!(copy.has(3) && !inv.has(3));
}

#[test]
fn links_lead_one_way_in_each_direction() {
    let mut links = advent::types::LinksComponent::new();
    let dirs =
        [Dir::North, Dir::South, Dir::East, Dir::West, Dir::Up, Dir::Down, Dir::In, Dir::Out];
    for d in dirs {
        assert!(links.get(d).is_none());
    }
    for (n, d) in dirs.iter().enumerate() {
        links.set(*d, LinkDest::Room(n));
    }
    for (n, d) in dirs.iter().enumerate() {
        match links.get(*d) {
            Some(LinkDest::Room(r)) => assert_eq!(*r, n),
            other => panic!("{:?}", other),
        }
    }
    links.set(Dir::Up, LinkDest::DeadEnd("No stairs.".to_string()));
    match links.get(Dir::Up) {
        Some(LinkDest::DeadEnd(text)) => assert_eq!(text, "No stairs."),
        other => panic!("{:?}", other),
    }
    match links.clone().get(Dir::Down) {
        Some(LinkDest::Room(r)) => assert_eq!(*r, 5),
        other => panic!("{:?}", other),
    }
}

#[test]
fn flag_sets_hold_each_flag_once() {
    let mut flags = advent::types::FlagSetComponent::new();
    flags.set(Flag::Dead);
    flags.set(Flag::user("A"));
    flags.set(Flag::Dead);
    assert_eq!(flags.flags.len(), 2);
    assert!(flags.has(&Flag::Dead) && flags.has(&Flag::user("A")));
    flags.clear(&Flag::Dead);
    assert!(!flags.has(&Flag::Dead) && flags.has(&Flag::user("A")));
    flags.clear(&Flag::Dead);
    assert_eq!(flags.flags.len(), 1);
    assert!(flags.clone().has(&Flag::user("A")));
}
