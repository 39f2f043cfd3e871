//! Scenario definition: the world of the game, as it stands when the game
//! starts.

use crate::least::lemma_least_has;
use crate::least::lemma_least_some;
use crate::player_control::HandlerView;
use crate::player_control::PatternView;
use crate::script::Script;
use crate::settled::lemma_action;
use crate::settled::lemma_commanded;
use crate::settled::lemma_event_rule;
use crate::settled::lemma_expected_entity;
use crate::settled::lemma_flag_set;
use crate::settled::lemma_flagged_entity;
use crate::settled::lemma_grown_lookup;
use crate::settled::lemma_grown_meets;
use crate::settled::lemma_grows_on;
use crate::settled::lemma_initial_settled;
use crate::settled::lemma_link;
use crate::settled::lemma_located;
use crate::settled::lemma_named;
use crate::settled::lemma_player_located;
use crate::settled::lemma_predicate;
use crate::settled::lemma_prose_set;
use crate::settled::lemma_room;
use crate::settled::lemma_rule;
use crate::settled::lemma_settled_ready;
use crate::settled::lemma_thing;
use crate::types::trim;
use crate::types::trimmed;
use crate::types::ActionView;
use crate::types::CommandHook;
use crate::types::CommandHookView;
use crate::types::Condition;
use crate::types::ConditionView;
use crate::types::Dir;
use crate::types::Flag;
use crate::types::FlagView;
use crate::types::ID;
use crate::types::ProseHook;
use crate::types::ProseHookView;
use crate::types::ProseType;
use crate::types::ProseView;
use crate::types::Text;
use crate::world::LIMBO;
use crate::world::PLAYER;
use crate::world::World;
use crate::world::WorldView;
use crate::world_builder;
use crate::world_builder::BuilderView;
use crate::world_builder::Is;
use crate::world_builder::WBEvent;
use crate::world_builder::WBEventView;
use crate::world_builder::WorldBuilder;
use vstd::prelude::*;

verus! {

/// The name of the flag on what is dirty.
pub const DIRTY: &'static str = "DIRTY";

/// The name of the flag on a player whose hands are dirty.
pub const DIRTY_HANDS: &'static str = "DIRTY_HANDS";

/// The name of the flag on a place where there is water.
pub const HAS_WATER: &'static str = "HAS_WATER";

/// The tag of the note.
pub const NOTE: &'static str = "note";

/// The tag of the sword.
pub const SWORD: &'static str = "sword";

/// The tag of the stream.
pub const STREAM: &'static str = "stream";

/// The tag of the clearing.
pub const CLEARING: &'static str = "clearing";

/// The tag of the trail.
pub const TRAIL: &'static str = "trail";

/// The tag of the bridge.
pub const BRIDGE: &'static str = "bridge";

/// What examining the player shows while the hands are dirty.
pub const PLAYER_DIRTY: &'static str =
    "You've got all the usual bits. Your hands are kind of dirty, though.";

/// What examining the player shows once the hands are clean.
pub const PLAYER_CLEAN: &'static str = "You've got all the usual bits. Plus, they're clean bits!";

/// The description of the clearing.
pub const CLEARING_PROSE: &'static str = "A wide spot in the woods.  You can go east.";

/// The description of the trail.
pub const TRAIL_PROSE: &'static str = "A trail from hither to yon.  You can go east or west.";

/// The description of the bridge.
pub const BRIDGE_PROSE: &'static str =
    "The trail crosses a small stream here.  You can go east or west.";

/// What examining the stream shows.
pub const STREAM_PROSE: &'static str = "\
The stream comes from the north, down a little waterfall, and runs
away under the bridge.  It looks surprisingly deep, considering
how narrow it is.
        ";

/// What examining the note shows once it is dirty.
pub const NOTE_DIRTY: &'static str =
    "A note, on plain paper.  It looks pretty grubby; someone's been mishandling it.";

/// What examining the note shows while it is clean.
pub const NOTE_CLEAN: &'static str = "A note, on plain paper";

/// What reading the note shows once it is dirty.
pub const NOTE_UNREADABLE: &'static str = "You've gotten it too dirty to read.";

/// What reading the note shows while it is clean.
pub const NOTE_TEXT: &'static str = "\
Welcome, dear friend.  Your mission, should you choose to
accept it, is to figure out how to get to the end of
the trail.  You've already taken the first big
step!
         ";

/// What is shown when dirty hands take the note.
pub const NOTE_SOILED: &'static str = "The dirt from your hands got all over the note.";

/// What examining the sword shows.
pub const SWORD_PROSE: &'static str = "\
The sword, if you want to call it that, is a three-foot length of dark hardwood
with a sharkskin hilt on one end.  It's polished so that it gleams, and it has no
sharp edges anywhere.  Carved along the length of it are the words
\"Emotional Support Sword (TM)\".
        ";

/// What is shown when dirty hands reach for the sword.
pub const SWORD_REFUSAL: &'static str = "\
Oh, you so didn't want to touch the sword with dirty hands.
Only the pure may touch this sword.
            ";

/// The story that is told when the game starts.
pub const STORY: &'static str = "\
You don't know where you are.  You don't even know where you want to
be.  All you know is that your feet are wet, your hands are dirty,
and gosh, this doesn't look anything like the toy aisle.
        ";

/// What is shown when the fairy godmother revives the player.
pub const GODMOTHER: &'static str = "\
A fairy godmother hovers over your limp body.  She frowns;
then, apparently against her better judgment, she waves
her wand.  There's a flash, and she disappears.
            ";

/// What is shown when the player washes the hands.
pub const WASHED: &'static str = "You wash your hands in the stream.";

/// Why the hands cannot be washed where there is no water.
pub const NO_WATER: &'static str = "That'd be a neat trick.";

/// The flag on what is dirty.
pub fn dirty() -> (r: Flag)
    ensures
        r@ == FlagView::User(DIRTY@),
{
    Flag::user(DIRTY)
}

/// The flag on a player whose hands are dirty.
pub fn dirty_hands() -> (r: Flag)
    ensures
        r@ == FlagView::User(DIRTY_HANDS@),
{
    Flag::user(DIRTY_HANDS)
}

/// The flag on a place where there is water.
pub fn has_water() -> (r: Flag)
    ensures
        r@ == FlagView::User(HAS_WATER@),
{
    Flag::user(HAS_WATER)
}

/// The builder after the player has been configured: in the clearing, with
/// dirty hands that show when the player is examined.
#[verifier::opaque]
pub open spec fn with_player(b: BuilderView) -> BuilderView {
    b.player_located(CLEARING@).prose(
        PLAYER,
        ProseType::Thing,
        ProseView::Hook(
            ProseHookView {
                when: ConditionView::HasFlag(PLAYER, FlagView::User(DIRTY_HANDS@)),
                shown: PLAYER_DIRTY@,
                otherwise: PLAYER_CLEAN@,
            },
        ),
    ).flag(PLAYER, FlagView::User(DIRTY_HANDS@))
}

/// The builder after the clearing has been built, with a way east to the
/// trail.
#[verifier::opaque]
pub open spec fn with_clearing(b: BuilderView) -> BuilderView {
    let clearing = b.world.entity_id(CLEARING@);
    b.room(CLEARING@, "Clearing"@).prose(
        clearing,
        ProseType::Room,
        ProseView::Prose(trimmed(CLEARING_PROSE@)),
    ).link(clearing, Dir::East, TRAIL@)
}

/// The builder after the trail has been built, with ways west to the clearing
/// and east to the bridge.
#[verifier::opaque]
pub open spec fn with_trail(b: BuilderView) -> BuilderView {
    let trail = b.world.entity_id(TRAIL@);
    b.room(TRAIL@, "Trail"@).prose(
        trail,
        ProseType::Room,
        ProseView::Prose(trimmed(TRAIL_PROSE@)),
    ).link(trail, Dir::West, CLEARING@).link(trail, Dir::East, BRIDGE@)
}

/// The builder after the bridge has been built, where there is water, with a
/// way west to the trail.
#[verifier::opaque]
pub open spec fn with_bridge(b: BuilderView) -> BuilderView {
    let bridge = b.world.entity_id(BRIDGE@);
    b.room(BRIDGE@, "Bridge"@).prose(
        bridge,
        ProseType::Room,
        ProseView::Prose(trimmed(BRIDGE_PROSE@)),
    ).flag(bridge, FlagView::User(HAS_WATER@)).link(bridge, Dir::West, TRAIL@)
}

/// The builder after the stream has been built: scenery at the bridge.
#[verifier::opaque]
pub open spec fn with_stream(b: BuilderView) -> BuilderView {
    let stream = b.world.entity_id(STREAM@);
    b.thing(STREAM@, "stream"@, "stream"@).prose(
        stream,
        ProseType::Thing,
        ProseView::Prose(trimmed(STREAM_PROSE@)),
    ).flag(stream, FlagView::Scenery).located(stream, BRIDGE@)
}

/// The builder after the note has been built: in the clearing, to be read
/// while it is clean.
#[verifier::opaque]
pub open spec fn with_note(b: BuilderView) -> BuilderView {
    let note = b.world.entity_id(NOTE@);
    b.thing(NOTE@, "note"@, "note"@).prose(
        note,
        ProseType::Thing,
        ProseView::Hook(
            ProseHookView {
                when: ConditionView::HasFlag(note, FlagView::User(DIRTY@)),
                shown: NOTE_DIRTY@,
                otherwise: NOTE_CLEAN@,
            },
        ),
    ).prose(
        note,
        ProseType::Book,
        ProseView::Hook(
            ProseHookView {
                when: ConditionView::HasFlag(note, FlagView::User(DIRTY@)),
                shown: NOTE_UNREADABLE@,
                otherwise: trimmed(NOTE_TEXT@),
            },
        ),
    ).located(note, CLEARING@)
}

/// The builder after the rule has been built by which dirty hands soil the
/// note that they take.
#[verifier::opaque]
pub open spec fn with_soiling(b: BuilderView, note: ID) -> BuilderView {
    let soils = b.event_rule_id("on"@, WBEventView::GetThing(NOTE@));
    let told = b.event_rule("on"@, WBEventView::GetThing(NOTE@), false).predicate(
        soils,
        ConditionView::And(
            Box::new(ConditionView::HasFlag(PLAYER, FlagView::User(DIRTY_HANDS@))),
            Box::new(
                ConditionView::Not(
                    Box::new(ConditionView::HasFlag(note, FlagView::User(DIRTY@))),
                ),
            ),
        ),
    ).action(soils, ActionView::Print(NOTE_SOILED@));
    told.flagged_entity(NOTE@).action(
        soils,
        ActionView::SetFlag(told.world.entity_id(NOTE@), FlagView::User(DIRTY@)),
    )
}

/// The builder after the sword has been built: on the trail, not to be
/// touched with dirty hands.
#[verifier::opaque]
pub open spec fn with_sword(b: BuilderView) -> BuilderView {
    let sword = b.world.entity_id(SWORD@);
    let made = b.thing(SWORD@, "sword"@, "sword"@).prose(
        sword,
        ProseType::Thing,
        ProseView::Prose(trimmed(SWORD_PROSE@)),
    ).located(sword, TRAIL@);
    let pure = made.event_rule_id("allow"@, WBEventView::GetThing(SWORD@));
    made.event_rule("allow"@, WBEventView::GetThing(SWORD@), true).predicate(
        pure,
        ConditionView::Not(
            Box::new(ConditionView::HasFlag(PLAYER, FlagView::User(DIRTY_HANDS@))),
        ),
    ).action(pure, ActionView::Print(trimmed(SWORD_REFUSAL@)))
}

/// The builder after the story has been built that is told once, when the
/// game starts.
#[verifier::opaque]
pub open spec fn with_story(b: BuilderView) -> BuilderView {
    let story = b.world.entity_id("rule-story-1"@);
    b.rule("rule-story-1"@).predicate(story, ConditionView::ClockIs(0)).flag(
        story,
        FlagView::FireOnce,
    ).action(story, ActionView::Print(trimmed(STORY@)))
}

/// The builder after the fairy godmother has been built, who revives the
/// player.
#[verifier::opaque]
pub open spec fn with_godmother(b: BuilderView) -> BuilderView {
    let godmother = b.world.entity_id("fairy-godmother-rule"@);
    let told = b.rule("fairy-godmother-rule"@).predicate(
        godmother,
        ConditionView::HasFlag(PLAYER, FlagView::Dead),
    ).action(godmother, ActionView::Print(trimmed(GODMOTHER@)));
    let revived = told.world.entity_id(world_builder::PLAYER@);
    told.expected_entity(world_builder::PLAYER@, Is::Player(revived)).action(
        godmother,
        ActionView::Revive(revived),
    )
}

/// The builder after the command has been built by which the player washes
/// the hands at the bridge.
#[verifier::opaque]
pub open spec fn with_washing(b: BuilderView, bridge: ID) -> BuilderView {
    b.command(
        HandlerView {
            pattern: PatternView::VerbNoun("wash"@, "hands"@),
            hook: CommandHookView {
                when: ConditionView::Owns(bridge, PLAYER),
                script: seq![
                    ActionView::Print(WASHED@),
                    ActionView::ClearFlag(PLAYER, FlagView::User(DIRTY_HANDS@)),
                ],
                refusal: NO_WATER@,
            },
        },
    )
}

/// The builder of the scenario when everything has been built: three rooms
/// in a row, a stream, a note that dirty hands soil, a sword that dirty hands
/// may not touch, a story told once, a fairy godmother, and water to wash in.
pub open spec fn plan() -> BuilderView {
    let start = BuilderView::initial();
    let note = start.world.entity_id(NOTE@);
    let named = start.on(start.world.with_entity(NOTE@));
    let bridge = named.world.entity_id(BRIDGE@);
    let b = named.on(named.world.with_entity(BRIDGE@));
    with_washing(
        with_godmother(
            with_story(
                with_sword(
                    with_soiling(
                        with_note(
                            with_stream(with_bridge(with_trail(with_clearing(with_player(b))))),
                        ),
                        note,
                    ),
                ),
            ),
        ),
        bridge,
    )
}

/// The world of the scenario: what the plan builds.
#[verifier::opaque]
pub open spec fn world_view() -> WorldView {
    plan().world
}

/// Is the expectation one that the plan meets in the end: is it of a room
/// that the plan builds, of a thing that the plan builds, or of the player?
pub open spec fn promised(w: WorldView, x: Is) -> bool {
    match x {
        Is::Room(id) => w.lookup(CLEARING@) == Some(id) || w.lookup(TRAIL@) == Some(id)
            || w.lookup(BRIDGE@) == Some(id),
        Is::Thing(id) => w.lookup(NOTE@) == Some(id) || w.lookup(SWORD@) == Some(id),
        Is::Player(id) => id == PLAYER,
        Is::Book(id) => false,
    }
}

/// Is the builder on its way to the world of the scenario: settled, with
/// expectations that the plan meets in the end, and with limbo and the
/// player under their tags?
#[verifier::opaque]
pub open spec fn on_track(b: BuilderView, n: nat) -> bool {
    &&& b.settled(n)
    &&& forall|k: int|
        0 <= k < b.expectations.len() ==> promised(b.world, #[trigger] b.expectations[k])
    &&& b.world.get(LIMBO).tag == world_builder::LIMBO@
    &&& b.world.lookup(world_builder::PLAYER@) == Some(PLAYER)
}

/// Does the tag name a room?
pub open spec fn roomed(w: WorldView, tag: Text) -> bool {
    w.lookup(tag) is Some && w.is_room(w.lookup(tag)->0)
}

/// Does the tag name a thing that has flags?
pub open spec fn thinged(w: WorldView, tag: Text) -> bool {
    w.lookup(tag) is Some && w.is_thing(w.lookup(tag)->0) && w.has_flags(w.lookup(tag)->0)
}

/// A builder that is on track stays on track while its world grows and its
/// expectations stay what they are.
pub proof fn lemma_track_grows(a: BuilderView, b: BuilderView, n: nat, m: nat)
    requires
        on_track(a, n),
        b.settled(m),
        a.world.grows_into(b.world),
        b.expectations == a.expectations,
    ensures
        on_track(b, m),
{
    reveal(on_track);
    assert forall|k: int| 0 <= k < b.expectations.len() implies promised(
        b.world,
        #[trigger] b.expectations[k],
    ) by {
        lemma_promised_grows(a.world, b.world, a.expectations[k]);
    }
    assert(a.world.get(LIMBO).within(b.world.get(LIMBO)));
    lemma_grown_lookup(a.world, b.world, world_builder::PLAYER@);
}

/// A builder that is on track stays on track while its world grows and one
/// expectation that the plan meets is added.
pub proof fn lemma_track_expects(a: BuilderView, b: BuilderView, e: Is, n: nat, m: nat)
    requires
        on_track(a, n),
        b.settled(m),
        a.world.grows_into(b.world),
        b.expectations == a.expectations.push(e),
        promised(b.world, e),
    ensures
        on_track(b, m),
{
    reveal(on_track);
    assert forall|k: int| 0 <= k < b.expectations.len() implies promised(
        b.world,
        #[trigger] b.expectations[k],
    ) by {
        if k < a.expectations.len() {
            lemma_promised_grows(a.world, b.world, a.expectations[k]);
        }
    }
    assert(a.world.get(LIMBO).within(b.world.get(LIMBO)));
    lemma_grown_lookup(a.world, b.world, world_builder::PLAYER@);
}

/// What the plan meets in the end it still meets when the world has grown.
pub proof fn lemma_promised_grows(a: WorldView, b: WorldView, x: Is)
    requires
        a.grows_into(b),
        b.tags_differ(),
        promised(a, x),
    ensures
        promised(b, x),
{
    match x {
        Is::Room(id) => {
            if a.lookup(CLEARING@) == Some(id) {
                lemma_grown_lookup(a, b, CLEARING@);
            } else if a.lookup(TRAIL@) == Some(id) {
                lemma_grown_lookup(a, b, TRAIL@);
            } else {
                lemma_grown_lookup(a, b, BRIDGE@);
            }
        },
        Is::Thing(id) => {
            if a.lookup(NOTE@) == Some(id) {
                lemma_grown_lookup(a, b, NOTE@);
            } else {
                lemma_grown_lookup(a, b, SWORD@);
            }
        },
        _ => {},
    }
}

/// A tag that names a room names that room when the world has grown.
pub proof fn lemma_roomed_grows(a: WorldView, b: WorldView, tag: Text)
    requires
        a.grows_into(b),
        b.tags_differ(),
        roomed(a, tag),
    ensures
        roomed(b, tag),
        b.lookup(tag) == a.lookup(tag),
{
    lemma_grown_lookup(a, b, tag);
    lemma_grown_meets(a, b, Is::Room(a.lookup(tag)->0));
}

/// A tag that names a thing with flags names that thing when the world has
/// grown.
pub proof fn lemma_thinged_grows(a: WorldView, b: WorldView, tag: Text)
    requires
        a.grows_into(b),
        b.tags_differ(),
        thinged(a, tag),
    ensures
        thinged(b, tag),
        b.lookup(tag) == a.lookup(tag),
{
    lemma_grown_lookup(a, b, tag);
    let id = a.lookup(tag)->0;
    lemma_grown_meets(a, b, Is::Thing(id));
    assert(a.get(id).within(b.get(id)));
}

/// The tags of the things of the scenario are not that of limbo.
pub proof fn lemma_tags_differ()
    ensures
        NOTE@ != world_builder::LIMBO@,
        SWORD@ != world_builder::LIMBO@,
        STREAM@ != world_builder::LIMBO@,
        world_builder::PLAYER@ != world_builder::LIMBO@,
{
    reveal_strlit("LIMBO");
    reveal_strlit("PLAYER");
    reveal_strlit("note");
    reveal_strlit("sword");
    reveal_strlit("stream");
    assert(NOTE@.len() == 4);
    assert(STREAM@.len() == 6);
    assert(world_builder::PLAYER@.len() == 6);
    assert(world_builder::LIMBO@.len() == 5);
    assert(SWORD@[0] == 's');
    assert(world_builder::LIMBO@[0] == 'L');
}

/// A tag other than that of limbo does not name limbo.
pub proof fn lemma_not_limbo(b: BuilderView, tag: Text, n: nat)
    requires
        on_track(b, n),
        tag != world_builder::LIMBO@,
    ensures
        b.world.entity_id(tag) != LIMBO,
{
    reveal(on_track);
    if b.world.lookup(tag) is Some {
        lemma_least_has(|id: ID| b.world.tagged(tag, id));
    }
}

/// The builder that has built nothing yet is on track.
pub proof fn lemma_start_on_track()
    ensures
        on_track(BuilderView::initial(), 2),
{
    reveal(on_track);
    let w = BuilderView::initial().world;
    lemma_initial_settled();
    lemma_tags_differ();
    let p = |id: ID| w.tagged(world_builder::PLAYER@, id);
    assert(p(PLAYER));
    assert(!p(LIMBO));
    lemma_least_some(p, PLAYER);
}

/// The hook by which the player looks dirty or clean.
pub open spec fn player_look() -> ProseView {
    ProseView::Hook(
        ProseHookView {
            when: ConditionView::HasFlag(PLAYER, FlagView::User(DIRTY_HANDS@)),
            shown: PLAYER_DIRTY@,
            otherwise: PLAYER_CLEAN@,
        },
    )
}

/// Configuring the player keeps the builder on track.
pub proof fn lemma_with_player(b: BuilderView, n: nat)
    requires
        on_track(b, n),
        n + 1 < 0x1000_0000,
    ensures
        on_track(with_player(b), n + 1),
        b.world.grows_into(with_player(b).world),
{
    reveal(with_player);
    reveal(on_track);
    let m = n + 1;
    lemma_player_located(b, CLEARING@, n);
    let x1 = b.player_located(CLEARING@);
    lemma_track_expects(b, x1, Is::Room(b.world.entity_id(CLEARING@)), n, m);
    assert(x1.sane(PLAYER));
    lemma_prose_set(x1, PLAYER, ProseType::Thing, player_look(), m);
    let x2 = x1.prose(PLAYER, ProseType::Thing, player_look());
    lemma_track_grows(x1, x2, m, m);
    lemma_flag_set(x2, PLAYER, FlagView::User(DIRTY_HANDS@), m);
    let x3 = x2.flag(PLAYER, FlagView::User(DIRTY_HANDS@));
    lemma_track_grows(x2, x3, m, m);
    assert(x3 == with_player(b));
    lemma_grows_on(b.world, x1.world, x2.world);
    lemma_grows_on(b.world, x2.world, x3.world);
}

/// Building the clearing keeps the builder on track. The clearing is then a
/// room.
pub proof fn lemma_with_clearing(b: BuilderView, n: nat)
    requires
        on_track(b, n),
        n + 2 < 0x1000_0000,
    ensures
        on_track(with_clearing(b), n + 2),
        b.world.grows_into(with_clearing(b).world),
        roomed(with_clearing(b).world, CLEARING@),
{
    reveal(with_clearing);
    reveal(on_track);
    let id = b.world.entity_id(CLEARING@);
    let text = ProseView::Prose(trimmed(CLEARING_PROSE@));
    lemma_room(b, CLEARING@, "Clearing"@, n);
    let x1 = b.room(CLEARING@, "Clearing"@);
    lemma_track_grows(b, x1, n, n + 1);
    lemma_prose_set(x1, id, ProseType::Room, text, n + 1);
    let x2 = x1.prose(id, ProseType::Room, text);
    lemma_track_grows(x1, x2, n + 1, n + 1);
    lemma_roomed_grows(x1.world, x2.world, CLEARING@);
    lemma_link(x2, id, Dir::East, TRAIL@, n + 1);
    let x3 = x2.link(id, Dir::East, TRAIL@);
    lemma_track_expects(x2, x3, Is::Room(x2.world.entity_id(TRAIL@)), n + 1, n + 2);
    lemma_roomed_grows(x2.world, x3.world, CLEARING@);
    assert(x3 == with_clearing(b));
    lemma_grows_on(b.world, x1.world, x2.world);
    lemma_grows_on(b.world, x2.world, x3.world);
}

/// Building the trail keeps the builder on track. The trail is then a room.
pub proof fn lemma_with_trail(b: BuilderView, n: nat)
    requires
        on_track(b, n),
        n + 3 < 0x1000_0000,
    ensures
        on_track(with_trail(b), n + 3),
        b.world.grows_into(with_trail(b).world),
        roomed(with_trail(b).world, TRAIL@),
{
    reveal(with_trail);
    reveal(on_track);
    let id = b.world.entity_id(TRAIL@);
    let text = ProseView::Prose(trimmed(TRAIL_PROSE@));
    lemma_room(b, TRAIL@, "Trail"@, n);
    let x1 = b.room(TRAIL@, "Trail"@);
    lemma_track_grows(b, x1, n, n + 1);
    lemma_prose_set(x1, id, ProseType::Room, text, n + 1);
    let x2 = x1.prose(id, ProseType::Room, text);
    lemma_track_grows(x1, x2, n + 1, n + 1);
    lemma_roomed_grows(x1.world, x2.world, TRAIL@);
    lemma_link(x2, id, Dir::West, CLEARING@, n + 1);
    let x3 = x2.link(id, Dir::West, CLEARING@);
    lemma_track_expects(x2, x3, Is::Room(x2.world.entity_id(CLEARING@)), n + 1, n + 2);
    lemma_roomed_grows(x2.world, x3.world, TRAIL@);
    lemma_link(x3, id, Dir::East, BRIDGE@, n + 2);
    let x4 = x3.link(id, Dir::East, BRIDGE@);
    lemma_track_expects(x3, x4, Is::Room(x3.world.entity_id(BRIDGE@)), n + 2, n + 3);
    lemma_roomed_grows(x3.world, x4.world, TRAIL@);
    assert(x4 == with_trail(b));
    lemma_grows_on(b.world, x1.world, x2.world);
    lemma_grows_on(b.world, x2.world, x3.world);
    lemma_grows_on(b.world, x3.world, x4.world);
}

/// Building the bridge keeps the builder on track. The bridge is then a
/// room.
pub proof fn lemma_with_bridge(b: BuilderView, n: nat)
    requires
        on_track(b, n),
        n + 2 < 0x1000_0000,
    ensures
        on_track(with_bridge(b), n + 2),
        b.world.grows_into(with_bridge(b).world),
        roomed(with_bridge(b).world, BRIDGE@),
        with_bridge(b).world.lookup(BRIDGE@) == Some(b.world.entity_id(BRIDGE@)),
{
    reveal(with_bridge);
    reveal(on_track);
    let id = b.world.entity_id(BRIDGE@);
    let text = ProseView::Prose(trimmed(BRIDGE_PROSE@));
    lemma_room(b, BRIDGE@, "Bridge"@, n);
    let x1 = b.room(BRIDGE@, "Bridge"@);
    lemma_track_grows(b, x1, n, n + 1);
    lemma_prose_set(x1, id, ProseType::Room, text, n + 1);
    let x2 = x1.prose(id, ProseType::Room, text);
    lemma_track_grows(x1, x2, n + 1, n + 1);
    lemma_roomed_grows(x1.world, x2.world, BRIDGE@);
    lemma_flag_set(x2, id, FlagView::User(HAS_WATER@), n + 1);
    let x3 = x2.flag(id, FlagView::User(HAS_WATER@));
    lemma_track_grows(x2, x3, n + 1, n + 1);
    lemma_roomed_grows(x2.world, x3.world, BRIDGE@);
    lemma_link(x3, id, Dir::West, TRAIL@, n + 1);
    let x4 = x3.link(id, Dir::West, TRAIL@);
    lemma_track_expects(x3, x4, Is::Room(x3.world.entity_id(TRAIL@)), n + 1, n + 2);
    lemma_roomed_grows(x3.world, x4.world, BRIDGE@);
    assert(x4 == with_bridge(b));
    lemma_grows_on(b.world, x1.world, x2.world);
    lemma_grows_on(b.world, x2.world, x3.world);
    lemma_grows_on(b.world, x3.world, x4.world);
}

/// Building the stream keeps the builder on track.
pub proof fn lemma_with_stream(b: BuilderView, n: nat)
    requires
        on_track(b, n),
        n + 2 < 0x1000_0000,
    ensures
        on_track(with_stream(b), n + 2),
        b.world.grows_into(with_stream(b).world),
{
    reveal(with_stream);
    reveal(on_track);
    let id = b.world.entity_id(STREAM@);
    let text = ProseView::Prose(trimmed(STREAM_PROSE@));
    lemma_tags_differ();
    lemma_not_limbo(b, STREAM@, n);
    lemma_thing(b, STREAM@, "stream"@, "stream"@, n);
    let x1 = b.thing(STREAM@, "stream"@, "stream"@);
    lemma_track_grows(b, x1, n, n + 1);
    lemma_prose_set(x1, id, ProseType::Thing, text, n + 1);
    let x2 = x1.prose(id, ProseType::Thing, text);
    lemma_track_grows(x1, x2, n + 1, n + 1);
    lemma_flag_set(x2, id, FlagView::Scenery, n + 1);
    let x3 = x2.flag(id, FlagView::Scenery);
    lemma_track_grows(x2, x3, n + 1, n + 1);
    lemma_grows_on(x1.world, x2.world, x3.world);
    assert(x1.world.get(id).within(x3.world.get(id)));
    lemma_located(x3, id, BRIDGE@, n + 1);
    let x4 = x3.located(id, BRIDGE@);
    lemma_track_grows(x3, x4, n + 1, n + 2);
    assert(x4 == with_stream(b));
    lemma_grows_on(b.world, x1.world, x3.world);
    lemma_grows_on(b.world, x3.world, x4.world);
}

/// What examining the note shows.
pub open spec fn note_look(note: ID) -> ProseView {
    ProseView::Hook(
        ProseHookView {
            when: ConditionView::HasFlag(note, FlagView::User(DIRTY@)),
            shown: NOTE_DIRTY@,
            otherwise: NOTE_CLEAN@,
        },
    )
}

/// What reading the note shows.
pub open spec fn note_text(note: ID) -> ProseView {
    ProseView::Hook(
        ProseHookView {
            when: ConditionView::HasFlag(note, FlagView::User(DIRTY@)),
            shown: NOTE_UNREADABLE@,
            otherwise: trimmed(NOTE_TEXT@),
        },
    )
}

/// Building the note keeps the builder on track. The note is then a thing
/// with flags.
pub proof fn lemma_with_note(b: BuilderView, n: nat)
    requires
        on_track(b, n),
        n + 2 < 0x1000_0000,
    ensures
        on_track(with_note(b), n + 2),
        b.world.grows_into(with_note(b).world),
        thinged(with_note(b).world, NOTE@),
        with_note(b).world.lookup(NOTE@) == Some(b.world.entity_id(NOTE@)),
{
    reveal(with_note);
    reveal(on_track);
    let id = b.world.entity_id(NOTE@);
    lemma_tags_differ();
    lemma_not_limbo(b, NOTE@, n);
    lemma_thing(b, NOTE@, "note"@, "note"@, n);
    let x1 = b.thing(NOTE@, "note"@, "note"@);
    lemma_track_grows(b, x1, n, n + 1);
    lemma_prose_set(x1, id, ProseType::Thing, note_look(id), n + 1);
    let x2 = x1.prose(id, ProseType::Thing, note_look(id));
    lemma_track_grows(x1, x2, n + 1, n + 1);
    lemma_thinged_grows(x1.world, x2.world, NOTE@);
    lemma_prose_set(x2, id, ProseType::Book, note_text(id), n + 1);
    let x3 = x2.prose(id, ProseType::Book, note_text(id));
    lemma_track_grows(x2, x3, n + 1, n + 1);
    lemma_thinged_grows(x2.world, x3.world, NOTE@);
    lemma_located(x3, id, CLEARING@, n + 1);
    let x4 = x3.located(id, CLEARING@);
    lemma_track_grows(x3, x4, n + 1, n + 2);
    lemma_thinged_grows(x3.world, x4.world, NOTE@);
    assert(x4 == with_note(b));
    lemma_grows_on(b.world, x1.world, x2.world);
    lemma_grows_on(b.world, x2.world, x3.world);
    lemma_grows_on(b.world, x3.world, x4.world);
}

/// The condition on which dirty hands soil the note.
pub open spec fn soiling(note: ID) -> ConditionView {
    ConditionView::And(
        Box::new(ConditionView::HasFlag(PLAYER, FlagView::User(DIRTY_HANDS@))),
        Box::new(
            ConditionView::Not(Box::new(ConditionView::HasFlag(note, FlagView::User(DIRTY@)))),
        ),
    )
}

/// Building the rule by which the note is soiled keeps the builder on
/// track.
pub proof fn lemma_with_soiling(b: BuilderView, note: ID, n: nat)
    requires
        on_track(b, n),
        n + 3 < 0x1000_0000,
        thinged(b.world, NOTE@),
        b.world.lookup(NOTE@) == Some(note),
    ensures
        on_track(with_soiling(b, note), n + 3),
        b.world.grows_into(with_soiling(b, note).world),
{
    reveal(with_soiling);
    reveal(on_track);
    let evt = WBEventView::GetThing(NOTE@);
    let id = b.event_rule_id("on"@, evt);
    assert(b.sane(PLAYER));
    lemma_event_rule(b, "on"@, evt, false, n);
    let x1 = b.event_rule("on"@, evt, false);
    lemma_track_expects(b, x1, Is::Thing(b.world.entity_id(NOTE@)), n, n + 2);
    lemma_thinged_grows(b.world, x1.world, NOTE@);
    assert(b.world.get(PLAYER).within(x1.world.get(PLAYER)));
    assert(x1.world.valid_condition(
        ConditionView::HasFlag(PLAYER, FlagView::User(DIRTY_HANDS@)),
    ));
    assert(x1.world.valid_condition(ConditionView::HasFlag(note, FlagView::User(DIRTY@))));
    assert(x1.world.valid_condition(
        ConditionView::Not(Box::new(ConditionView::HasFlag(note, FlagView::User(DIRTY@)))),
    ));
    assert(x1.world.valid_condition(soiling(note)));
    lemma_predicate(x1, id, soiling(note), n + 2);
    let x2 = x1.predicate(id, soiling(note));
    lemma_track_grows(x1, x2, n + 2, n + 2);
    lemma_action(x2, id, ActionView::Print(NOTE_SOILED@), n + 2);
    let x3 = x2.action(id, ActionView::Print(NOTE_SOILED@));
    lemma_track_grows(x2, x3, n + 2, n + 2);
    lemma_flagged_entity(x3, NOTE@, n + 2);
    let x4 = x3.flagged_entity(NOTE@);
    lemma_track_grows(x3, x4, n + 2, n + 3);
    let target = x3.world.entity_id(NOTE@);
    assert(x4.world.get(id).rule == x3.world.get(id).rule);
    lemma_action(x4, id, ActionView::SetFlag(target, FlagView::User(DIRTY@)), n + 3);
    let x5 = x4.action(id, ActionView::SetFlag(target, FlagView::User(DIRTY@)));
    lemma_track_grows(x4, x5, n + 3, n + 3);
    assert(x5 == with_soiling(b, note));
    lemma_grows_on(b.world, x1.world, x2.world);
    lemma_grows_on(b.world, x2.world, x3.world);
    lemma_grows_on(b.world, x3.world, x4.world);
    lemma_grows_on(b.world, x4.world, x5.world);
}

/// Building the sword and its guard keeps the builder on track. The sword is
/// then a thing with flags.
pub proof fn lemma_with_sword(b: BuilderView, n: nat)
    requires
        on_track(b, n),
        n + 4 < 0x1000_0000,
    ensures
        on_track(with_sword(b), n + 4),
        b.world.grows_into(with_sword(b).world),
        thinged(with_sword(b).world, SWORD@),
{
    reveal(with_sword);
    reveal(on_track);
    let sword = b.world.entity_id(SWORD@);
    let text = ProseView::Prose(trimmed(SWORD_PROSE@));
    let evt = WBEventView::GetThing(SWORD@);
    let clean = ConditionView::Not(
        Box::new(ConditionView::HasFlag(PLAYER, FlagView::User(DIRTY_HANDS@))),
    );
    lemma_tags_differ();
    lemma_not_limbo(b, SWORD@, n);
    lemma_thing(b, SWORD@, "sword"@, "sword"@, n);
    let x1 = b.thing(SWORD@, "sword"@, "sword"@);
    lemma_track_grows(b, x1, n, n + 1);
    lemma_prose_set(x1, sword, ProseType::Thing, text, n + 1);
    let x2 = x1.prose(sword, ProseType::Thing, text);
    lemma_track_grows(x1, x2, n + 1, n + 1);
    lemma_thinged_grows(x1.world, x2.world, SWORD@);
    assert(x1.world.get(sword).within(x2.world.get(sword)));
    lemma_located(x2, sword, TRAIL@, n + 1);
    let x3 = x2.located(sword, TRAIL@);
    lemma_track_grows(x2, x3, n + 1, n + 2);
    lemma_thinged_grows(x2.world, x3.world, SWORD@);
    let id = x3.event_rule_id("allow"@, evt);
    assert(x3.sane(PLAYER));
    lemma_event_rule(x3, "allow"@, evt, true, n + 2);
    let x4 = x3.event_rule("allow"@, evt, true);
    lemma_thinged_grows(x3.world, x4.world, SWORD@);
    lemma_track_expects(x3, x4, Is::Thing(x3.world.entity_id(SWORD@)), n + 2, n + 4);
    assert(x3.world.get(PLAYER).within(x4.world.get(PLAYER)));
    assert(x4.world.valid_condition(
        ConditionView::HasFlag(PLAYER, FlagView::User(DIRTY_HANDS@)),
    ));
    assert(x4.world.valid_condition(clean));
    lemma_predicate(x4, id, clean, n + 4);
    let x5 = x4.predicate(id, clean);
    lemma_track_grows(x4, x5, n + 4, n + 4);
    lemma_thinged_grows(x4.world, x5.world, SWORD@);
    lemma_action(x5, id, ActionView::Print(trimmed(SWORD_REFUSAL@)), n + 4);
    let x6 = x5.action(id, ActionView::Print(trimmed(SWORD_REFUSAL@)));
    lemma_track_grows(x5, x6, n + 4, n + 4);
    lemma_thinged_grows(x5.world, x6.world, SWORD@);
    assert(x6 == with_sword(b));
    lemma_grows_on(b.world, x1.world, x2.world);
    lemma_grows_on(b.world, x2.world, x3.world);
    lemma_grows_on(b.world, x3.world, x4.world);
    lemma_grows_on(b.world, x4.world, x5.world);
    lemma_grows_on(b.world, x5.world, x6.world);
}

/// Building the story keeps the builder on track.
pub proof fn lemma_with_story(b: BuilderView, n: nat)
    requires
        on_track(b, n),
        n + 1 < 0x1000_0000,
    ensures
        on_track(with_story(b), n + 1),
        b.world.grows_into(with_story(b).world),
{
    reveal(with_story);
    reveal(on_track);
    let id = b.world.entity_id("rule-story-1"@);
    lemma_rule(b, "rule-story-1"@, n);
    let x1 = b.rule("rule-story-1"@);
    lemma_track_grows(b, x1, n, n + 1);
    lemma_predicate(x1, id, ConditionView::ClockIs(0), n + 1);
    let x2 = x1.predicate(id, ConditionView::ClockIs(0));
    lemma_track_grows(x1, x2, n + 1, n + 1);
    lemma_flag_set(x2, id, FlagView::FireOnce, n + 1);
    let x3 = x2.flag(id, FlagView::FireOnce);
    lemma_track_grows(x2, x3, n + 1, n + 1);
    assert(x3.world.get(id).rule == x2.world.get(id).rule);
    lemma_action(x3, id, ActionView::Print(trimmed(STORY@)), n + 1);
    let x4 = x3.action(id, ActionView::Print(trimmed(STORY@)));
    lemma_track_grows(x3, x4, n + 1, n + 1);
}

/// Building the fairy godmother keeps the builder on track.
pub proof fn lemma_with_godmother(b: BuilderView, n: nat)
    requires
        on_track(b, n),
        n + 2 < 0x1000_0000,
    ensures
        on_track(with_godmother(b), n + 2),
        b.world.grows_into(with_godmother(b).world),
{
    reveal(with_godmother);
    reveal(on_track);
    let id = b.world.entity_id("fairy-godmother-rule"@);
    let dead = ConditionView::HasFlag(PLAYER, FlagView::Dead);
    assert(b.sane(PLAYER));
    lemma_rule(b, "fairy-godmother-rule"@, n);
    let x1 = b.rule("fairy-godmother-rule"@);
    lemma_track_grows(b, x1, n, n + 1);
    assert(b.world.get(PLAYER).within(x1.world.get(PLAYER)));
    lemma_predicate(x1, id, dead, n + 1);
    let x2 = x1.predicate(id, dead);
    lemma_track_grows(x1, x2, n + 1, n + 1);
    lemma_action(x2, id, ActionView::Print(trimmed(GODMOTHER@)), n + 1);
    let x3 = x2.action(id, ActionView::Print(trimmed(GODMOTHER@)));
    lemma_track_grows(x2, x3, n + 1, n + 1);
    let revived = x3.world.entity_id(world_builder::PLAYER@);
    lemma_expected_entity(x3, world_builder::PLAYER@, Is::Player(revived), n + 1);
    let x4 = x3.expected_entity(world_builder::PLAYER@, Is::Player(revived));
    lemma_grows_on(x1.world, x3.world, x4.world);
    lemma_action(x4, id, ActionView::Revive(revived), n + 2);
    let x5 = x4.action(id, ActionView::Revive(revived));
    lemma_track_grows(x4, x5, n + 2, n + 2);
    assert(x5 == with_godmother(b));
    lemma_grows_on(b.world, x1.world, x4.world);
}

/// The command by which the player washes the hands.
pub open spec fn washing(bridge: ID) -> HandlerView {
    HandlerView {
        pattern: PatternView::VerbNoun("wash"@, "hands"@),
        hook: CommandHookView {
            when: ConditionView::Owns(bridge, PLAYER),
            script: seq![
                ActionView::Print(WASHED@),
                ActionView::ClearFlag(PLAYER, FlagView::User(DIRTY_HANDS@)),
            ],
            refusal: NO_WATER@,
        },
    }
}

/// Building the command for washing keeps the builder on track.
pub proof fn lemma_with_washing(b: BuilderView, bridge: ID, n: nat)
    requires
        on_track(b, n),
        roomed(b.world, BRIDGE@),
        b.world.lookup(BRIDGE@) == Some(bridge),
    ensures
        on_track(with_washing(b, bridge), n),
        b.world.grows_into(with_washing(b, bridge).world),
{
    reveal(with_washing);
    reveal(on_track);
    assert(b.sane(PLAYER));
    let h = washing(bridge);
    lemma_commanded(b, h, n);
    let x1 = b.command(h);
    lemma_track_grows(b, x1, n, n);
}

/// Naming an entity keeps the builder on track.
pub proof fn lemma_track_named(b: BuilderView, tag: Text, n: nat)
    requires
        on_track(b, n),
        n + 1 < 0x1000_0000,
    ensures
        on_track(b.on(b.world.with_entity(tag)), n + 1),
        b.world.grows_into(b.world.with_entity(tag)),
        b.world.with_entity(tag).lookup(tag) == Some(b.world.entity_id(tag)),
{
    reveal(on_track);
    lemma_named(b, tag, n);
    lemma_track_grows(b, b.on(b.world.with_entity(tag)), n, n + 1);
}

/// In the world of a builder on track, into which an earlier world has
/// grown, a tag names what it named: the same entity, a room if it was a
/// room, and a thing with flags if it was one.
pub proof fn lemma_track_keeps(a: WorldView, b: BuilderView, tag: Text, n: nat)
    requires
        on_track(b, n),
        a.grows_into(b.world),
        a.lookup(tag) is Some,
    ensures
        b.world.lookup(tag) == a.lookup(tag),
        roomed(a, tag) ==> roomed(b.world, tag),
        thinged(a, tag) ==> thinged(b.world, tag),
{
    reveal(on_track);
    lemma_grown_lookup(a, b.world, tag);
}

/// The plan builds a sound world in which everything is what it is expected
/// to be.
pub proof fn lemma_plan_ready()
    ensures
        plan().ready(),
        BuilderView::initial().world.grows_into(plan().world),
{
    let start = BuilderView::initial();
    lemma_start_on_track();
    let note = start.world.entity_id(NOTE@);
    lemma_track_named(start, NOTE@, 2);
    let named = start.on(start.world.with_entity(NOTE@));
    let bridge = named.world.entity_id(BRIDGE@);
    lemma_track_named(named, BRIDGE@, 3);
    let b0 = named.on(named.world.with_entity(BRIDGE@));
    lemma_track_keeps(named.world, b0, NOTE@, 4);

    lemma_with_player(b0, 4);
    let b1 = with_player(b0);
    lemma_with_clearing(b1, 5);
    let b2 = with_clearing(b1);
    lemma_with_trail(b2, 7);
    let b3 = with_trail(b2);
    lemma_track_keeps(b2.world, b3, CLEARING@, 10);
    lemma_with_bridge(b3, 10);
    let b4 = with_bridge(b3);
    lemma_track_keeps(b3.world, b4, CLEARING@, 12);
    lemma_track_keeps(b3.world, b4, TRAIL@, 12);
    lemma_with_stream(b4, 12);
    let b5 = with_stream(b4);
    lemma_track_keeps(b4.world, b5, CLEARING@, 14);
    lemma_track_keeps(b4.world, b5, TRAIL@, 14);
    lemma_track_keeps(b4.world, b5, BRIDGE@, 14);
    lemma_with_note(b5, 14);
    let b6 = with_note(b5);
    lemma_track_keeps(b5.world, b6, CLEARING@, 16);
    lemma_track_keeps(b5.world, b6, TRAIL@, 16);
    lemma_track_keeps(b5.world, b6, BRIDGE@, 16);

    // The note and the bridge have kept the identities they were given first.
    lemma_track_keeps(b0.world, b5, NOTE@, 14);
    lemma_track_keeps(b0.world, b3, BRIDGE@, 10);
    assert(b4.world.lookup(BRIDGE@) == Some(bridge));

    lemma_with_soiling(b6, note, 16);
    let b7 = with_soiling(b6, note);
    lemma_track_keeps(b6.world, b7, CLEARING@, 19);
    lemma_track_keeps(b6.world, b7, TRAIL@, 19);
    lemma_track_keeps(b6.world, b7, BRIDGE@, 19);
    lemma_track_keeps(b6.world, b7, NOTE@, 19);
    lemma_with_sword(b7, 19);
    let b8 = with_sword(b7);
    lemma_track_keeps(b7.world, b8, CLEARING@, 23);
    lemma_track_keeps(b7.world, b8, TRAIL@, 23);
    lemma_track_keeps(b7.world, b8, BRIDGE@, 23);
    lemma_track_keeps(b7.world, b8, NOTE@, 23);
    lemma_with_story(b8, 23);
    let b9 = with_story(b8);
    lemma_track_keeps(b8.world, b9, CLEARING@, 24);
    lemma_track_keeps(b8.world, b9, TRAIL@, 24);
    lemma_track_keeps(b8.world, b9, BRIDGE@, 24);
    lemma_track_keeps(b8.world, b9, NOTE@, 24);
    lemma_track_keeps(b8.world, b9, SWORD@, 24);
    lemma_with_godmother(b9, 24);
    let b10 = with_godmother(b9);
    lemma_track_keeps(b9.world, b10, CLEARING@, 26);
    lemma_track_keeps(b9.world, b10, TRAIL@, 26);
    lemma_track_keeps(b9.world, b10, BRIDGE@, 26);
    lemma_track_keeps(b9.world, b10, NOTE@, 26);
    lemma_track_keeps(b9.world, b10, SWORD@, 26);
    lemma_with_washing(b10, bridge, 26);
    let b11 = with_washing(b10, bridge);
    lemma_track_keeps(b10.world, b11, CLEARING@, 26);
    lemma_track_keeps(b10.world, b11, TRAIL@, 26);
    lemma_track_keeps(b10.world, b11, BRIDGE@, 26);
    lemma_track_keeps(b10.world, b11, NOTE@, 26);
    lemma_track_keeps(b10.world, b11, SWORD@, 26);
    lemma_track_ready(b11, 26);
    lemma_grows_on(start.world, named.world, b0.world);
}

/// The world of the scenario is sound, and no turn has passed in it.
pub proof fn lemma_scenario_sound()
    ensures
        world_view().wf(),
        world_view().clock == 0,
{
    reveal(world_view);
    lemma_plan_ready();
}

/// A builder on track for which the rooms and the things of the scenario are
/// built is ready.
pub proof fn lemma_track_ready(b: BuilderView, n: nat)
    requires
        on_track(b, n),
        roomed(b.world, CLEARING@),
        roomed(b.world, TRAIL@),
        roomed(b.world, BRIDGE@),
        thinged(b.world, NOTE@),
        thinged(b.world, SWORD@),
    ensures
        b.ready(),
{
    reveal(on_track);
    let w = b.world;
    assert forall|k: int| 0 <= k < b.expectations.len() implies w.meets(
        #[trigger] b.expectations[k],
    ) by {
    }
    lemma_settled_ready(b, n);
}

/// Configures the player.
fn add_player(wb: &mut WorldBuilder)
    requires
        old(wb).ok(),
    ensures
        final(wb).ok(),
        final(wb)@ == with_player(old(wb)@),
{
    reveal(with_player);
    wb.player().location(CLEARING).on_examine_hook(
        ProseHook::new(
            Condition::HasFlag(PLAYER, dirty_hands()),
            PLAYER_DIRTY,
            PLAYER_CLEAN,
        ),
    ).flag(dirty_hands());
}

/// Builds the clearing.
fn add_clearing(wb: &mut WorldBuilder)
    requires
        old(wb).ok(),
    ensures
        final(wb).ok(),
        final(wb)@ == with_clearing(old(wb)@),
{
    reveal(with_clearing);
    wb.room(CLEARING, "Clearing").prose(CLEARING_PROSE).link(Dir::East, TRAIL);
}

/// Builds the trail.
fn add_trail(wb: &mut WorldBuilder)
    requires
        old(wb).ok(),
    ensures
        final(wb).ok(),
        final(wb)@ == with_trail(old(wb)@),
{
    reveal(with_trail);
    wb.room(TRAIL, "Trail").prose(TRAIL_PROSE).link(Dir::West, CLEARING).link(Dir::East, BRIDGE);
}

/// Builds the bridge.
fn add_bridge(wb: &mut WorldBuilder)
    requires
        old(wb).ok(),
    ensures
        final(wb).ok(),
        final(wb)@ == with_bridge(old(wb)@),
{
    reveal(with_bridge);
    wb.room(BRIDGE, "Bridge").prose(BRIDGE_PROSE).flag(has_water()).link(Dir::West, TRAIL);
}

/// Builds the stream.
fn add_stream(wb: &mut WorldBuilder)
    requires
        old(wb).ok(),
    ensures
        final(wb).ok(),
        final(wb)@ == with_stream(old(wb)@),
{
    reveal(with_stream);
    wb.thing(STREAM, "stream", "stream").on_examine(STREAM_PROSE).flag(Flag::Scenery).location(
        BRIDGE,
    );
}

/// Builds the note.
fn add_note(wb: &mut WorldBuilder)
    requires
        old(wb).ok(),
    ensures
        final(wb).ok(),
        final(wb)@ == with_note(old(wb)@),
{
    reveal(with_note);
    let t = wb.thing(NOTE, "note", "note");
    let note = t.id;
    t.on_examine_hook(
        ProseHook::new(Condition::HasFlag(note, dirty()), NOTE_DIRTY, NOTE_CLEAN),
    ).on_read_hook(
        ProseHook {
            when: Condition::HasFlag(note, dirty()),
            shown: NOTE_UNREADABLE.to_owned(),
            otherwise: trim(NOTE_TEXT).to_owned(),
        },
    ).location(CLEARING);
}

/// Builds the rule by which dirty hands soil the note that they take.
fn add_soiling(wb: &mut WorldBuilder, note: ID)
    requires
        old(wb).ok(),
    ensures
        final(wb).ok(),
        final(wb)@ == with_soiling(old(wb)@, note),
{
    reveal(with_soiling);
    wb.on(&WBEvent::GetThing(NOTE)).when(
        Condition::HasFlag(PLAYER, dirty_hands()).and(
            Condition::HasFlag(note, dirty()).negated(),
        ),
    ).print(NOTE_SOILED).set_flag(NOTE, dirty());
}

/// Builds the sword and its guard.
fn add_sword(wb: &mut WorldBuilder)
    requires
        old(wb).ok(),
    ensures
        final(wb).ok(),
        final(wb)@ == with_sword(old(wb)@),
{
    reveal(with_sword);
    wb.thing(SWORD, "sword", "sword").on_examine(SWORD_PROSE).location(TRAIL);
    wb.allow(&WBEvent::GetThing(SWORD)).unless(Condition::HasFlag(PLAYER, dirty_hands())).print(
        trim(SWORD_REFUSAL),
    );
}

/// Builds the story that is told once.
fn add_story(wb: &mut WorldBuilder)
    requires
        old(wb).ok(),
    ensures
        final(wb).ok(),
        final(wb)@ == with_story(old(wb)@),
{
    reveal(with_story);
    wb.rule("rule-story-1").when(Condition::ClockIs(0)).once_only().print(
        trim(STORY),
    );
}

/// Builds the fairy godmother.
fn add_godmother(wb: &mut WorldBuilder)
    requires
        old(wb).ok(),
    ensures
        final(wb).ok(),
        final(wb)@ == with_godmother(old(wb)@),
{
    reveal(with_godmother);
    wb.rule("fairy-godmother-rule").when(Condition::HasFlag(PLAYER, Flag::Dead)).print(
        trim(GODMOTHER),
    ).revive(world_builder::PLAYER);
}

/// Builds the command by which the player washes the hands.
fn add_washing(wb: &mut WorldBuilder, bridge: ID)
    requires
        old(wb).ok(),
    ensures
        final(wb).ok(),
        final(wb)@ == with_washing(old(wb)@, bridge),
{
    reveal(with_washing);
    let mut wash = Script::new();
    wash.print(WASHED);
    wash.unset_flag(PLAYER, dirty_hands());
    assert(wash@ =~= seq![
        ActionView::Print(WASHED@),
        ActionView::ClearFlag(PLAYER, FlagView::User(DIRTY_HANDS@)),
    ]);
    wb.verb_noun(
        "wash",
        "hands",
        CommandHook::new(Condition::Owns(bridge, PLAYER), wash, NO_WATER),
    );
}

/// Build the initial state of the game world.
pub fn build() -> (w: World)
    ensures
        w@ == world_view(),
        w.wf(),
        w@.clock == 0,
{
    reveal(world_view);
    let mut wb = WorldBuilder::new();
    let note = wb.entity(NOTE);
    let bridge = wb.entity(BRIDGE);
    add_player(&mut wb);
    add_clearing(&mut wb);
    add_trail(&mut wb);
    add_bridge(&mut wb);
    add_stream(&mut wb);
    add_note(&mut wb);
    add_soiling(&mut wb, note);
    add_sword(&mut wb);
    add_story(&mut wb);
    add_godmother(&mut wb);
    add_washing(&mut wb, bridge);
    proof {
        lemma_plan_ready();
    }
    wb.world()
}

} // verus!
