use advent::phys;
use advent::rule;
use advent::script::Script;
use advent::types::Action;
use advent::types::Condition;
use advent::types::Event;
use advent::types::Flag;
use advent::visual::Visual;
use advent::visual::VisualKind;
use advent::world::LIMBO;
use advent::world::PLAYER;
use advent::world::World;
use advent::world_builder::WBEvent;
use advent::world_builder::WorldBuilder;

fn texts(out: &Vec<Visual>) -> Vec<&str> {
    out.iter().map(|v| v.text.as_str()).collect()
}

/// A vault that may not be entered while the alarm is on, a gem in the hall
/// that may not be taken while it is cursed, and a scroll.
fn guarded_world() -> World {
    let mut wb = WorldBuilder::new();
    wb.player().location("hall").flag(Flag::user("ALARM"));
    wb.room("hall", "Hall").link(advent::types::Dir::East, "vault");
    wb.room("vault", "Vault").prose("Gold everywhere.");
    wb.thing("gem", "gem", "gem").location("hall").flag(Flag::user("CURSED"));
    wb.thing("scroll", "scroll", "scroll").on_read("Beware.").location("hall");
    let gem = wb.entity("gem");
    wb.allow(&WBEvent::EnterRoom("vault")).unless(Condition::HasFlag(PLAYER, Flag::user("ALARM")))
        .print("The alarm is on.");
    wb.allow(&WBEvent::GetThing("gem")).unless(Condition::HasFlag(gem, Flag::user("CURSED")))
        .print("It burns!");
    wb.allow(&WBEvent::ReadThing("scroll")).print("The letters swim.");
    wb.on(&WBEvent::EnterRoom("vault")).print("You are rich.").set_flag("PLAYER", Flag::user("RICH"));
    wb.on(&WBEvent::GetThing("gem")).print("It glows.");
    wb.on(&WBEvent::ReadThing("scroll")).print("You shiver.");
    assert!(wb.is_ready());
    wb.world()
}

#[test]
fn a_guard_that_says_no_leaves_the_world_as_it_is() {
    let mut w = guarded_world();
    let vault = w.lookup("vault").unwrap();
    let gem = w.lookup("gem").unwrap();
    let scroll = w.lookup("scroll").unwrap();
    let before = format!("{:?}", w);
    let mut out = Vec::new();

    assert_eq!(phys::enter_room(&mut w, PLAYER, vault, &mut out), Ok(()));
    assert_eq!(format!("{:?}", w), before);
    assert_eq!(texts(&out), vec!["The alarm is on."]);
    assert_eq!(out[0].kind, VisualKind::Info);

    out.clear();
    assert_eq!(phys::get_thing(&mut w, PLAYER, gem, &mut out), Ok(()));
    assert_eq!(format!("{:?}", w), before);
    assert_eq!(texts(&out), vec!["It burns!"]);

    out.clear();
    assert_eq!(phys::read_thing(&mut w, PLAYER, scroll, &mut out), Ok(()));
    assert_eq!(format!("{:?}", w), before);
    assert_eq!(texts(&out), vec!["The letters swim."]);
}

#[test]
fn a_guard_that_says_yes_lets_the_triggers_fire() {
    let mut w = guarded_world();
    let vault = w.lookup("vault").unwrap();
    let gem = w.lookup("gem").unwrap();
    w.clear_flag(PLAYER, &Flag::user("ALARM"));
    w.clear_flag(gem, &Flag::user("CURSED"));
    let mut out = Vec::new();
    assert!(rule::allows(&w, &Event::EnterRoom(PLAYER, vault), &mut out));
    assert!(rule::allows(&w, &Event::GetThing(PLAYER, gem), &mut out));
    assert!(out.is_empty());

    assert_eq!(phys::get_thing(&mut w, PLAYER, gem, &mut out), Ok(()));
    assert_eq!(phys::loc(&w, gem), PLAYER);
    assert_eq!(texts(&out), vec!["Taken.", "It glows."]);

    out.clear();
    assert_eq!(phys::enter_room(&mut w, PLAYER, vault, &mut out), Ok(()));
    assert_eq!(phys::loc(&w, PLAYER), vault);
    assert!(w.has_flag(PLAYER, &Flag::user("RICH")));
    assert!(w.has_flag(PLAYER, &Flag::Seen(vault)));
    assert_eq!(texts(&out), vec!["Vault", "Gold everywhere.", "You are rich."]);
}

#[test]
fn an_event_without_guards_is_allowed() {
    let w = guarded_world();
    let hall = w.lookup("hall").unwrap();
    let scroll = w.lookup("scroll").unwrap();
    let mut out = Vec::new();
    assert!(rule::allows(&w, &Event::EnterRoom(PLAYER, hall), &mut out));
    assert!(rule::allows(&w, &Event::GetThing(PLAYER, scroll), &mut out));
    assert!(rule::allows(&w, &Event::Turn, &mut out));
    assert!(!rule::allows(&w, &Event::ReadThing(PLAYER, scroll), &mut out));
    assert_eq!(texts(&out), vec!["The letters swim."]);
}

#[test]
fn one_guard_that_says_no_is_enough() {
    let mut wb = WorldBuilder::new();
    wb.player().location("hall");
    wb.room("hall", "Hall");
    wb.thing("gem", "gem", "gem").location("hall");
    wb.rule("first").print("never asked");
    wb.allow(&WBEvent::GetThing("gem")).unless(Condition::Always.negated()).print("yes");
    // The same tag names the same rule: the second call configures it again.
    let mut w = {
        assert!(wb.is_ready());
        wb.world()
    };
    let gem = w.lookup("gem").unwrap();
    let mut out = Vec::new();
    assert!(rule::allows(&w, &Event::GetThing(PLAYER, gem), &mut out));
    // A second guard, made by hand, that says no.
    let id = w.allocate("no").unwrap();
    let mut script = Script::new();
    script.print("no");
    w.entities[id].rule = Some(advent::types::RuleComponent {
        predicate: Condition::ClockIs(7),
        event: Event::GetThing(PLAYER, gem),
        script,
        is_guard: true,
    });
    w.entities[id].flags = Some(advent::types::FlagSetComponent::new());
    assert!(w.is_well_shaped());
    assert!(!rule::allows(&w, &Event::GetThing(PLAYER, gem), &mut out));
    assert_eq!(texts(&out), vec!["no"]);
    w.clock = 7;
    out.clear();
    assert!(rule::allows(&w, &Event::GetThing(PLAYER, gem), &mut out));
    assert!(out.is_empty());
}

#[test]
fn a_rule_that_fires_once_only_fires_once() {
    let mut wb = WorldBuilder::new();
    wb.player().location("hall");
    wb.room("hall", "Hall");
    wb.rule("once").once_only().print("once").set_flag("PLAYER", Flag::user("TOLD"));
    wb.rule("always").print("always");
    assert!(wb.is_ready());
    let mut w = wb.world();
    let once = w.lookup("once").unwrap();
    let always = w.lookup("always").unwrap();
    assert!(w.has_flag(once, &Flag::FireOnce));
    assert!(!w.has_flag(once, &Flag::Fired));
    let mut out = Vec::new();
    rule::system(&mut w, &mut out);
    assert_eq!(texts(&out), vec!["once", "always"]);
    assert!(w.has_flag(once, &Flag::Fired));
    assert!(w.has_flag(always, &Flag::Fired));
    assert!(w.has_flag(PLAYER, &Flag::user("TOLD")));
    w.clear_flag(PLAYER, &Flag::user("TOLD"));
    out.clear();
    rule::system(&mut w, &mut out);
    assert_eq!(texts(&out), vec!["always"]);
    assert!(!w.has_flag(PLAYER, &Flag::user("TOLD")));
    assert!(w.has_flag(once, &Flag::Fired));
    out.clear();
    rule::fire_event(&mut w, &Event::Turn, &mut out);
    assert_eq!(texts(&out), vec!["always"]);
}

#[test]
fn triggers_fire_in_order_and_see_each_other() {
    let mut wb = WorldBuilder::new();
    wb.player().location("hall");
    wb.room("hall", "Hall");
    wb.rule("a").when(Condition::HasFlag(PLAYER, Flag::user("B")).negated()).print("a").set_flag(
        "PLAYER",
        Flag::user("A"),
    );
    wb.rule("b").when(Condition::HasFlag(PLAYER, Flag::user("A"))).print("b").set_flag(
        "PLAYER",
        Flag::user("B"),
    );
    wb.rule("c").when(Condition::HasFlag(PLAYER, Flag::user("B"))).print("c").unset_flag(
        "PLAYER",
        Flag::user("A"),
    );
    assert!(wb.is_ready());
    let mut w = wb.world();
    let mut out = Vec::new();
    rule::system(&mut w, &mut out);
    assert_eq!(texts(&out), vec!["a", "b", "c"]);
    assert!(!w.has_flag(PLAYER, &Flag::user("A")));
    assert!(w.has_flag(PLAYER, &Flag::user("B")));
    out.clear();
    rule::system(&mut w, &mut out);
    assert_eq!(texts(&out), vec!["c"]);
}

#[test]
fn rules_fire_only_on_their_event() {
    let mut w = guarded_world();
    let gem = w.lookup("gem").unwrap();
    let scroll = w.lookup("scroll").unwrap();
    let mut out = Vec::new();
    rule::fire_event(&mut w, &Event::Turn, &mut out);
    assert!(out.is_empty());
    rule::fire_event(&mut w, &Event::GetThing(PLAYER, scroll), &mut out);
    assert!(out.is_empty());
    rule::fire_event(&mut w, &Event::GetThing(7, gem), &mut out);
    assert!(out.is_empty());
    rule::fire_event(&mut w, &Event::GetThing(PLAYER, gem), &mut out);
    assert_eq!(texts(&out), vec!["It glows."]);
    // Guards do not fire.
    out.clear();
    rule::fire_event(&mut w, &Event::ReadThing(PLAYER, scroll), &mut out);
    assert_eq!(texts(&out), vec!["You shiver."]);
}

#[test]
fn a_script_applies_its_actions_in_order() {
    let mut wb = WorldBuilder::new();
    wb.player().location("hall");
    wb.room("hall", "Hall");
    wb.room("cellar", "Cellar");
    wb.thing("key", "key", "key").location("hall");
    wb.thing("lamp", "lamp", "lamp").location("hall");
    assert!(wb.is_ready());
    let mut w = wb.world();
    let cellar = w.lookup("cellar").unwrap();
    let key = w.lookup("key").unwrap();
    let lamp = w.lookup("lamp").unwrap();
    let mut s = Script::new();
    s.print("one");
    s.set_flag(key, Flag::user("SHINY"));
    s.set_flag(lamp, Flag::user("LIT"));
    s.unset_flag(lamp, Flag::user("LIT"));
    s.put_in(key, cellar);
    s.forget(lamp);
    s.kill(PLAYER);
    s.print("two");
    assert!(w.valid_script(&s));
    assert!(!s.only_prints());
    let mut out = Vec::new();
    s.execute(&mut w, &mut out);
    assert_eq!(texts(&out), vec!["one", "two"]);
    assert!(w.has_flag(key, &Flag::user("SHINY")));
    assert!(!w.has_flag(lamp, &Flag::user("LIT")));
    assert_eq!(phys::loc(&w, key), cellar);
    assert_eq!(phys::loc(&w, lamp), LIMBO);
    assert!(w.has_flag(PLAYER, &Flag::Dead));
    assert!(w.is_well_shaped());

    let mut r = Script::new();
    r.revive(PLAYER);
    r.execute(&mut w, &mut out);
    assert!(!w.has_flag(PLAYER, &Flag::Dead));

    out.clear();
    s.show(&mut out);
    assert_eq!(texts(&out), vec!["one", "two"]);
    assert_eq!(s.clone().actions.len(), 8);
}

#[test]
fn scripts_may_not_touch_the_marks_of_the_rules() {
    let w = World::new();
    assert!(w.valid_action(&Action::SetFlag(PLAYER, Flag::Dead)));
    assert!(!w.valid_action(&Action::SetFlag(PLAYER, Flag::Fired)));
    assert!(!w.valid_action(&Action::ClearFlag(PLAYER, Flag::Fired)));
    assert!(!w.valid_action(&Action::SetFlag(PLAYER, Flag::FireOnce)));
    assert!(!w.valid_action(&Action::ClearFlag(PLAYER, Flag::FireOnce)));
    assert!(!w.valid_action(&Action::SetFlag(LIMBO, Flag::Dead)));
    assert!(!w.valid_action(&Action::Kill(LIMBO)));
    assert!(!w.valid_action(&Action::Forget(LIMBO)));
    assert!(w.valid_action(&Action::Forget(PLAYER)));
    assert!(w.valid_action(&Action::PutIn(PLAYER, LIMBO)));
    assert!(!w.valid_action(&Action::PutIn(LIMBO, PLAYER)));
    assert!(!w.valid_action(&Action::PutIn(PLAYER, 9)));
    assert!(w.valid_action(&Action::Print("x".to_string())));
}

#[test]
fn the_fairy_godmother_revives_the_dead() {
    let mut w = advent::scenario::build();
    let mut out = Vec::new();
    w.clock = 5;
    rule::system(&mut w, &mut out);
    assert!(out.is_empty());
    w.set_flag(PLAYER, Flag::Dead);
    rule::system(&mut w, &mut out);
    assert_eq!(out.len(), 1);
    assert!(out[0].text.starts_with("A fairy godmother hovers over your limp body."));
    assert!(out[0].text.ends_with("There's a flash, and she disappears."));
    assert!(!w.has_flag(PLAYER, &Flag::Dead));
}
