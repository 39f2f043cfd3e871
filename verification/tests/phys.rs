use advent::phys;
use advent::types::Dir;
use advent::types::Flag;
use advent::types::LinkDest;
use advent::world::LIMBO;
use advent::world::PLAYER;
use advent::world::World;
use advent::world_builder::WorldBuilder;
use std::collections::BTreeSet;

/// A room "hall" with a box, a key and a statue in it, the player in the
/// hall, a lamp in the player's hands, and a second room "cellar".
fn small_world() -> World {
    let mut wb = WorldBuilder::new();
    wb.player().location("hall");
    wb.room("hall", "Hall").prose("A hall.").link(Dir::Down, "cellar").dead_end(
        Dir::North,
        "The door is locked.",
    );
    wb.room("cellar", "Cellar").prose("A cellar.").link(Dir::Up, "hall");
    wb.thing("box", "box", "box").location("hall");
    wb.thing("key", "key", "key").location("hall");
    wb.feature("statue", "statue", "statue").location("hall");
    wb.thing("lamp", "lamp", "lamp").location("PLAYER");
    wb.feature("hands", "hands", "hands").location("PLAYER");
    assert!(wb.is_ready());
    wb.world()
}

fn set(ids: &[usize]) -> BTreeSet<usize> {
    ids.iter().cloned().collect()
}

/// Every entity with a location is in the inventory of that place and in no
/// other.
fn places_agree(world: &World) -> bool {
    for e in &world.entities {
        if let Some(c) = e.loc {
            match &world.entities[c].inventory {
                Some(inv) => {
                    if !inv.things.contains(&e.id) {
                        return false;
                    }
                }
                None => return false,
            }
        }
        if let Some(inv) = &e.inventory {
            for t in &inv.things {
                if world.entities[*t].loc != Some(e.id) {
                    return false;
                }
            }
        }
    }
    true
}

#[test]
fn loc_and_owns_and_contents() {
    let w = small_world();
    let hall = w.lookup("hall").unwrap();
    let boxy = w.lookup("box").unwrap();
    let key = w.lookup("key").unwrap();
    let statue = w.lookup("statue").unwrap();
    let lamp = w.lookup("lamp").unwrap();
    let hands = w.lookup("hands").unwrap();
    assert_eq!(phys::loc(&w, boxy), hall);
    assert_eq!(phys::loc(&w, lamp), PLAYER);
    assert!(phys::owns(&w, hall, boxy));
    assert!(!phys::owns(&w, hall, lamp));
    assert!(phys::owns(&w, PLAYER, lamp));
    assert_eq!(phys::contents(&w, hall), set(&[PLAYER, boxy, key, statue]));
    assert_eq!(phys::contents(&w, PLAYER), set(&[lamp, hands]));
    assert_eq!(phys::contents(&w, LIMBO), set(&[]));
}

#[test]
fn contents_is_a_copy() {
    let mut w = small_world();
    let hall = w.lookup("hall").unwrap();
    let cellar = w.lookup("cellar").unwrap();
    let key = w.lookup("key").unwrap();
    let before = phys::contents(&w, hall);
    phys::put_in(&mut w, key, cellar);
    assert!(before.contains(&key));
    assert!(!phys::contents(&w, hall).contains(&key));
}

#[test]
fn flag_filters() {
    let w = small_world();
    let hall = w.lookup("hall").unwrap();
    let boxy = w.lookup("box").unwrap();
    let key = w.lookup("key").unwrap();
    let statue = w.lookup("statue").unwrap();
    let lamp = w.lookup("lamp").unwrap();
    let hands = w.lookup("hands").unwrap();
    // The player is scenery, but can be moved.
    assert_eq!(phys::scenery(&w, hall), set(&[PLAYER, statue]));
    assert_eq!(phys::non_scenery(&w, hall), set(&[boxy, key]));
    assert_eq!(phys::immovable(&w, hall), set(&[statue]));
    assert_eq!(phys::removable(&w, hall), set(&[PLAYER, boxy, key]));
    assert_eq!(phys::gettable(&w, PLAYER), set(&[PLAYER, boxy, key]));
    assert_eq!(phys::droppable(&w, PLAYER), set(&[lamp]));
    assert_eq!(phys::scenery(&w, PLAYER), set(&[hands]));
    assert_eq!(phys::immovable(&w, PLAYER), set(&[hands]));
}

#[test]
fn visible_is_what_is_held_and_what_is_around() {
    let w = small_world();
    let hall = w.lookup("hall").unwrap();
    let cellar = w.lookup("cellar").unwrap();
    let boxy = w.lookup("box").unwrap();
    let key = w.lookup("key").unwrap();
    let statue = w.lookup("statue").unwrap();
    let lamp = w.lookup("lamp").unwrap();
    let hands = w.lookup("hands").unwrap();
    let seen = phys::visible(&w, PLAYER);
    assert_eq!(seen, set(&[PLAYER, boxy, key, statue, lamp, hands]));
    let held = phys::contents(&w, PLAYER);
    let around = phys::contents(&w, phys::loc(&w, PLAYER));
    assert_eq!(seen, held.union(&around).cloned().collect::<BTreeSet<usize>>());
    // A thing sees what is around it, and holds nothing.
    assert_eq!(phys::visible(&w, boxy), set(&[PLAYER, boxy, key, statue]));
    // A room that is nowhere sees what it holds.
    assert_eq!(phys::visible(&w, hall), set(&[PLAYER, boxy, key, statue]));
    assert_eq!(phys::visible(&w, cellar), set(&[]));
    // What the player's things hold in turn is not seen.
    let mut w = w;
    phys::put_in(&mut w, lamp, LIMBO);
    assert!(!phys::visible(&w, PLAYER).contains(&lamp));
}

#[test]
fn put_in_moves_a_thing() {
    let mut w = small_world();
    let hall = w.lookup("hall").unwrap();
    let cellar = w.lookup("cellar").unwrap();
    let key = w.lookup("key").unwrap();
    phys::put_in(&mut w, key, cellar);
    assert_eq!(phys::loc(&w, key), cellar);
    assert!(phys::owns(&w, cellar, key));
    assert!(!phys::owns(&w, hall, key));
    assert!(places_agree(&w));
    assert!(w.is_well_shaped());
    assert!(w.places_agree());
    assert!(w.is_sound());
}

#[test]
fn put_in_where_it_is_changes_nothing() {
    let mut w = small_world();
    let hall = w.lookup("hall").unwrap();
    let key = w.lookup("key").unwrap();
    let before = format!("{:?}", w);
    phys::put_in(&mut w, key, hall);
    assert_eq!(format!("{:?}", w), before);
}

#[test]
fn take_out_moves_to_limbo() {
    let mut w = small_world();
    let hall = w.lookup("hall").unwrap();
    let key = w.lookup("key").unwrap();
    phys::take_out(&mut w, key);
    assert_eq!(phys::loc(&w, key), LIMBO);
    assert!(phys::owns(&w, LIMBO, key));
    assert!(!phys::owns(&w, hall, key));
    assert!(places_agree(&w));
}

#[test]
fn moves_in_sequence_keep_every_thing_in_one_place() {
    let mut w = small_world();
    let hall = w.lookup("hall").unwrap();
    let cellar = w.lookup("cellar").unwrap();
    let boxy = w.lookup("box").unwrap();
    let key = w.lookup("key").unwrap();
    let lamp = w.lookup("lamp").unwrap();
    phys::put_in(&mut w, key, PLAYER);
    phys::put_in(&mut w, PLAYER, cellar);
    phys::take_out(&mut w, boxy);
    phys::put_in(&mut w, lamp, cellar);
    phys::put_in(&mut w, boxy, hall);
    phys::put_in(&mut w, key, cellar);
    phys::take_out(&mut w, key);
    phys::put_in(&mut w, key, hall);
    assert!(places_agree(&w));
    for e in &w.entities {
        if e.loc.is_some() {
            let holders: Vec<usize> = w
                .entities
                .iter()
                .filter(|c| match &c.inventory {
                    Some(inv) => inv.things.contains(&e.id),
                    None => false,
                })
                .map(|c| c.id)
                .collect();
            assert_eq!(holders, vec![phys::loc(&w, e.id)]);
        }
    }
    assert_eq!(phys::loc(&w, key), hall);
    assert_eq!(phys::loc(&w, PLAYER), cellar);
    assert_eq!(phys::contents(&w, cellar), set(&[PLAYER, lamp]));
}

#[test]
fn follow_link_finds_rooms_and_dead_ends() {
    let w = small_world();
    let hall = w.lookup("hall").unwrap();
    let cellar = w.lookup("cellar").unwrap();
    match phys::follow_link(&w, hall, Dir::Down) {
        Some(LinkDest::Room(r)) => assert_eq!(r, cellar),
        other => panic!("{:?}", other),
    }
    match phys::follow_link(&w, hall, Dir::North) {
        Some(LinkDest::DeadEnd(text)) => assert_eq!(text, "The door is locked."),
        other => panic!("{:?}", other),
    }
    assert!(phys::follow_link(&w, hall, Dir::East).is_none());
    match phys::follow_link(&w, cellar, Dir::Up) {
        Some(LinkDest::Room(r)) => assert_eq!(r, hall),
        other => panic!("{:?}", other),
    }
}

#[test]
fn enter_room_marks_the_room_as_seen() {
    let mut w = small_world();
    let cellar = w.lookup("cellar").unwrap();
    let mut out = Vec::new();
    assert!(!w.has_flag(PLAYER, &Flag::Seen(cellar)));
    assert_eq!(phys::enter_room(&mut w, PLAYER, cellar, &mut out), Ok(()));
    assert!(w.has_flag(PLAYER, &Flag::Seen(cellar)));
    assert_eq!(phys::loc(&w, PLAYER), cellar);
    let texts: Vec<&str> = out.iter().map(|v| v.text.as_str()).collect();
    assert_eq!(texts, vec!["Cellar", "A cellar."]);
    out.clear();
    assert_eq!(phys::enter_room(&mut w, PLAYER, cellar, &mut out), Ok(()));
    let texts: Vec<&str> = out.iter().map(|v| v.text.as_str()).collect();
    assert_eq!(texts, vec!["Cellar"]);
}

#[test]
fn get_thing_and_read_thing() {
    let mut wb = WorldBuilder::new();
    wb.player().location("hall");
    wb.room("hall", "Hall");
    wb.thing("book", "book", "book").on_read("  Once upon a time.  ").location("hall");
    assert!(wb.is_ready());
    let mut w = wb.world();
    let book = w.lookup("book").unwrap();
    let mut out = Vec::new();
    assert_eq!(phys::get_thing(&mut w, PLAYER, book, &mut out), Ok(()));
    assert_eq!(phys::loc(&w, book), PLAYER);
    assert_eq!(out[0].text, "Taken.");
    out.clear();
    assert_eq!(phys::read_thing(&mut w, PLAYER, book, &mut out), Ok(()));
    assert_eq!(out.len(), 1);
    assert_eq!(out[0].text, "Once upon a time.");
}

#[test]
fn a_world_whose_places_disagree_is_not_sound() {
    let mut w = small_world();
    let hall = w.lookup("hall").unwrap();
    let cellar = w.lookup("cellar").unwrap();
    let key = w.lookup("key").unwrap();
    assert!(w.is_sound());
    // The key says it is in the cellar, the hall says it holds the key.
    w.entities[key].loc = Some(cellar);
    assert!(!w.places_agree());
    assert!(!w.is_sound());
    w.entities[key].loc = Some(hall);
    assert!(w.is_sound());
    // The cellar holds what is not there.
    w.entities[cellar].inventory.as_mut().unwrap().add(99);
    assert!(!w.places_agree());
    w.entities[cellar].inventory.as_mut().unwrap().remove(99);
    // The cellar holds the key as well.
    w.entities[cellar].inventory.as_mut().unwrap().add(key);
    assert!(!w.places_agree());
    w.entities[cellar].inventory.as_mut().unwrap().remove(key);
    assert!(w.places_agree());
    // The key is in what holds nothing.
    w.entities[key].loc = Some(key);
    assert!(!w.places_agree());
}
