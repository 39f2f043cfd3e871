//! A scenario builder: methods for each kind of entity, which name entities
//! by their tags and make them when they are first named.

use crate::entity::EntityView;
use crate::least::lemma_least_exists;
use crate::least::lemma_least_some;
use crate::phys::lemma_put_in_places;
use crate::phys::put_in;
use crate::player_control::CommandHandler;
use crate::player_control::HandlerView;
use crate::player_control::PatternView;
use crate::types::trim;
use crate::types::trimmed;
use crate::types::Action;
use crate::types::ActionView;
use crate::types::CommandHook;
use crate::types::Condition;
use crate::types::ConditionView;
use crate::types::Dir;
use crate::types::Event;
use crate::types::Flag;
use crate::types::FlagSetComponent;
use crate::types::FlagView;
use crate::types::ID;
use crate::types::InventoryComponent;
use crate::types::LinkDest;
use crate::types::LinkDestView;
use crate::types::LinksComponent;
use crate::types::LinksView;
use crate::types::Prose;
use crate::types::ProseComponent;
use crate::types::ProseComponentView;
use crate::types::ProseHook;
use crate::types::ProseType;
use crate::types::ProseView;
use crate::types::RuleComponent;
use crate::types::RuleView;
use crate::types::Text;
use crate::types::ThingComponent;
use crate::types::ThingView;
use crate::world;
use crate::world::World;
use crate::world::WorldView;
use std::string::String;
use vstd::prelude::*;
use vstd::string::StringExecFns;

verus! {

/// The tag of the LIMBO entity, where currently unused entities live.
pub const LIMBO: &'static str = "LIMBO";

/// The tag of the PLAYER entity.
pub const PLAYER: &'static str = "PLAYER";

/// Events for which rules can be written, with the entity named by its tag.
#[derive(Debug)]
pub enum WBEvent<'a> {
    /// The player gets (or tries to get) the tagged entity.
    GetThing(&'a str),
    /// The player reads (or tries to read) the tagged entity.
    ReadThing(&'a str),
    /// The player enters (or tries to enter) the tagged entity.
    EnterRoom(&'a str),
}

/// What is expected of an entity once the world is complete.
#[derive(PartialEq, Eq, Structural, Clone, Copy, Debug)]
pub enum Is {
    /// The entity has prose for reading.
    Book(ID),
    /// The entity is the player.
    Player(ID),
    /// The entity is a room.
    Room(ID),
    /// The entity is a thing.
    Thing(ID),
}

impl WorldView {
    /// The identity that the tag names: that of the entity that has it, or
    /// the one that the next new entity will get.
    pub open spec fn entity_id(self, tag: Text) -> ID {
        match self.lookup(tag) {
            Some(id) => id,
            None => self.entities.len() as ID,
        }
    }

    /// The world in which the tag names an entity: this world, or this world
    /// with one more entity.
    pub open spec fn with_entity(self, tag: Text) -> WorldView {
        match self.lookup(tag) {
            Some(id) => self,
            None => self.allocate(tag),
        }
    }

    /// The world in which the entity has an inventory: the one it had, or an
    /// empty one.
    pub open spec fn add_inventory(self, id: ID) -> WorldView {
        if self.get(id).inventory is Some {
            self
        } else {
            self.with_contents(id, Set::<ID>::empty())
        }
    }

    /// The world in which the entity has a flag set: the one it had, or an
    /// empty one.
    pub open spec fn add_flag_set(self, id: ID) -> WorldView {
        if self.get(id).flags is Some {
            self
        } else {
            self.with_flags(id, Set::<FlagView>::empty())
        }
    }

    /// The world in which the entity has a location: the one it had, or
    /// limbo.
    pub open spec fn add_location(self, id: ID) -> WorldView {
        if self.get(id).loc is Some {
            self
        } else {
            let placed = self.with_loc(id, world::LIMBO);
            placed.with_contents(world::LIMBO, placed.contents(world::LIMBO).insert(id))
        }
    }

    /// The world in which the entity has a prose component: the one it had,
    /// or an empty one.
    pub open spec fn add_prose_component(self, id: ID) -> WorldView {
        if self.get(id).prose is Some {
            self
        } else {
            self.with(
                id,
                EntityView { prose: Some(ProseComponentView::empty()), ..self.get(id) },
            )
        }
    }

    /// The world in which the entity has the prose of the given kind.
    pub open spec fn add_prose(self, id: ID, kind: ProseType, prose: ProseView) -> WorldView {
        let w = self.add_prose_component(id);
        w.with(id, EntityView { prose: Some(w.get(id).prose->0.with(kind, prose)), ..w.get(id) })
    }

    /// The world in which the entity has the flag.
    pub open spec fn add_flag(self, id: ID, flag: FlagView) -> WorldView {
        self.add_flag_set(id).set_flag(id, flag)
    }

    /// The world in which the thing is in the entity that the tag names.
    pub open spec fn set_location(self, thing: ID, loc_tag: Text) -> WorldView {
        let place = self.entity_id(loc_tag);
        self.with_entity(loc_tag).add_inventory(place).add_location(thing).put_in(thing, place)
    }

    /// The world in which the entity is a room with the name: it has fresh
    /// links, and a prose component, an inventory and a flag set.
    pub open spec fn make_room(self, id: ID, name: Text) -> WorldView {
        self.with_name(id, name).with_links(id, LinksView::empty()).add_prose_component(
            id,
        ).add_inventory(id).add_flag_set(id)
    }

    /// The world in which the entity is a thing with the name and the noun:
    /// it has a flag set and a location.
    pub open spec fn make_thing(self, id: ID, name: Text, noun: Text) -> WorldView {
        self.with_name(id, name).with_thing(
            id,
            ThingView { portable: true, noun },
        ).add_flag_set(id).add_location(id)
    }

    /// The world in which the entity is the rule: it has a flag set.
    pub open spec fn make_rule(self, id: ID, rule: RuleView) -> WorldView {
        self.add_flag_set(id).with_rule(id, rule)
    }

    /// The world with the name of the entity replaced.
    pub open spec fn with_name(self, id: ID, name: Text) -> WorldView {
        self.with(id, EntityView { name: Some(name), ..self.get(id) })
    }

    /// The world with the thing details of the entity replaced.
    pub open spec fn with_thing(self, id: ID, thing: ThingView) -> WorldView {
        self.with(id, EntityView { thing: Some(thing), ..self.get(id) })
    }

    /// The world with the rule of the entity replaced.
    pub open spec fn with_rule(self, id: ID, rule: RuleView) -> WorldView {
        self.with(id, EntityView { rule: Some(rule), ..self.get(id) })
    }

    /// The world with the links of the entity replaced.
    pub open spec fn with_links(self, id: ID, links: LinksView) -> WorldView {
        self.with(id, EntityView { links: Some(links), ..self.get(id) })
    }

    /// The world with one more custom command.
    pub open spec fn with_handler(self, h: HandlerView) -> WorldView {
        WorldView { handlers: self.handlers.push(h), ..self }
    }

    /// Does the entity meet the expectation?
    pub open spec fn meets(self, x: Is) -> bool {
        match x {
            Is::Book(id) => self.has_prose_type(id, ProseType::Book),
            Is::Player(id) => self.has(id) && self.get(id).player,
            Is::Room(id) => self.is_room(id),
            Is::Thing(id) => self.is_thing(id),
        }
    }
}

/// The tag names an entity of the world in which it names one.
pub proof fn lemma_entity_id(w: WorldView, tag: Text)
    requires
        w.lookup(tag) is None ==> w.entities.len() < usize::MAX,
    ensures
        w.with_entity(tag).has(w.entity_id(tag)),
        w.with_entity(tag).entities.len() >= w.entities.len(),
        w.with_entity(tag).lookup(tag) == Some(w.entity_id(tag)),
{
    let v = w.with_entity(tag);
    let id = w.entity_id(tag);
    if w.lookup(tag) is Some {
    } else {
        let p = |id: ID| v.tagged(tag, id);
        assert forall|j: ID| j < id implies !#[trigger] p(j) by {
            if w.tagged(tag, j) {
                lemma_least_exists(|id: ID| w.tagged(tag, id), j);
            }
        }
        lemma_least_some(p, id);
    }
}

/// Replacing an entity by one that is in the same place and holds the same
/// things keeps locations and inventories in agreement.
pub proof fn lemma_with_places(w: WorldView, id: ID, e: EntityView)
    requires
        w.places_agree(),
        w.has(id),
        e.loc == w.get(id).loc,
        e.inventory == w.get(id).inventory || (w.get(id).inventory is None && e.inventory == Some(
            Set::<ID>::empty(),
        )),
    ensures
        w.with(id, e).places_agree(),
{
    let v = w.with(id, e);
    assert forall|x: ID| (#[trigger] v.loc_of(x)) is Some implies v.owns(v.loc_of(x)->0, x) by {
        assert(w.loc_of(x) is Some);
    }
    assert forall|c: ID, x: ID| #[trigger] v.owns(c, x) implies v.loc_of(x) == Some(c) by {
        assert(w.owns(c, x));
    }
}

/// Giving limbo as its place to an entity that has none keeps locations and
/// inventories in agreement.
pub proof fn lemma_add_location_places(w: WorldView, id: ID)
    requires
        w.buildable(),
        w.has(id),
    ensures
        w.add_location(id).buildable(),
        w.add_location(id).has_loc(id),
        w.add_location(id).entities.len() == w.entities.len(),
{
    if w.get(id).loc is None {
        let placed = w.with_loc(id, world::LIMBO);
        let v = placed.with_contents(world::LIMBO, placed.contents(world::LIMBO).insert(id));
        assert(v == w.add_location(id));
        assert forall|x: ID| (#[trigger] v.loc_of(x)) is Some implies v.owns(
            v.loc_of(x)->0,
            x,
        ) by {
            if x != id {
                assert(w.loc_of(x) is Some);
            }
        }
        assert forall|c: ID, x: ID| #[trigger] v.owns(c, x) implies v.loc_of(x) == Some(c) by {
            if x != id {
                assert(w.owns(c, x));
            } else if c != world::LIMBO {
                assert(w.owns(c, x));
            }
        }
    }
}

/// Making a new entity keeps locations and inventories in agreement.
pub proof fn lemma_allocate_places(w: WorldView, tag: Text)
    requires
        w.buildable(),
    ensures
        w.allocate(tag).buildable(),
{
    let v = w.allocate(tag);
    assert forall|x: ID| (#[trigger] v.loc_of(x)) is Some implies v.owns(v.loc_of(x)->0, x) by {
        assert(w.loc_of(x) is Some);
    }
    assert forall|c: ID, x: ID| #[trigger] v.owns(c, x) implies v.loc_of(x) == Some(c) by {
        assert(w.owns(c, x));
    }
}

/// A world that is being built.
#[derive(Debug)]
pub struct WorldBuilder {
    /// The world as far as it has been built.
    pub world: World,
    /// What is expected of the entities once the world is complete.
    pub expectations: Vec<Is>,
}

/// A world builder as contracts see it.
#[verifier::ext_equal]
pub struct BuilderView {
    pub world: WorldView,
    pub expectations: Seq<Is>,
}

impl View for WorldBuilder {
    type V = BuilderView;

    open spec fn view(&self) -> BuilderView {
        BuilderView { world: self.world@, expectations: self.expectations@ }
    }
}

impl BuilderView {
    /// Can the builder be built on?
    pub open spec fn ok(self) -> bool {
        self.world.buildable()
    }

    /// The builder after the expectation has been noted.
    pub open spec fn expect(self, x: Is) -> BuilderView {
        BuilderView { expectations: self.expectations.push(x), ..self }
    }

    /// The builder with its world replaced.
    pub open spec fn on(self, world: WorldView) -> BuilderView {
        BuilderView { world, ..self }
    }

    /// Is the world complete: sound, with every expectation met?
    pub open spec fn ready(self) -> bool {
        &&& self.world.wf()
        &&& forall|k: int|
            0 <= k < self.expectations.len() ==> self.world.meets(#[trigger] self.expectations[k])
    }
}

impl WorldBuilder {
    /// Can the builder be built on?
    pub open spec fn ok(&self) -> bool {
        self@.ok()
    }

    /// The identity of the entity that the tag names. The entity is made
    /// if there is none yet.
    pub fn entity(&mut self, tag: &str) -> (id: ID)
        requires
            old(self).ok(),
        ensures
            final(self).ok(),
            id == old(self)@.world.entity_id(tag@),
            final(self)@ == old(self)@.on(old(self)@.world.with_entity(tag@)),
            final(self)@.world.has(id),
            final(self)@.world.entities.len() >= old(self)@.world.entities.len(),
    {
        let id = match self.world.lookup(tag) {
            Some(id) => id,
            None => {
                match self.world.allocate(tag) {
                    Some(id) => id,
                    None => world::LIMBO,
                }
            },
        };
        proof {
            assert(self.world.entities.len() == self.world.entities@.len());
            assert(self@.world.entities.len() == self.world.entities@.len());
            lemma_entity_id(old(self)@.world, tag@);
            if old(self)@.world.lookup(tag@) is None {
                lemma_allocate_places(old(self)@.world, tag@);
            }
        }
        id
    }

    /// Adds an expectation for later checking.
    pub fn expect(&mut self, expectation: Is)
        ensures
            final(self)@ == old(self)@.expect(expectation),
    {
        self.expectations.push(expectation);
    }

    /// Adds a location to an entity if it doesn't have one. The entity will
    /// initially be in limbo.
    pub fn add_location(&mut self, id: ID)
        requires
            old(self).ok(),
            old(self)@.world.has(id),
        ensures
            final(self).ok(),
            final(self)@ == old(self)@.on(old(self)@.world.add_location(id)),
            final(self)@.world.entities.len() >= old(self)@.world.entities.len(),
    {
        proof {
            lemma_add_location_places(self@.world, id);
        }
        if self.world.entities[id].loc.is_none() {
            self.world.entities[id].loc = Some(world::LIMBO);
            let ghost placed = old(self)@.world.with_loc(id, world::LIMBO);
            assert(self@.world =~~= placed);
            match &mut self.world.entities[world::LIMBO].inventory {
                Some(inv) => {
                    inv.add(id);
                },
                None => {},
            }
            assert(self@.world =~~= old(self)@.world.add_location(id));
        }
    }

    /// Adds an inventory to an entity if it doesn't have one.
    pub fn add_inventory(&mut self, id: ID)
        requires
            old(self).ok(),
            old(self)@.world.has(id),
        ensures
            final(self).ok(),
            final(self)@ == old(self)@.on(old(self)@.world.add_inventory(id)),
            final(self)@.world.entities.len() >= old(self)@.world.entities.len(),
    {
        if self.world.entities[id].inventory.is_none() {
            proof {
                lemma_with_places(
                    self@.world,
                    id,
                    EntityView { inventory: Some(Set::<ID>::empty()), ..self@.world.get(id) },
                );
            }
            self.world.entities[id].inventory = Some(InventoryComponent::new());
            assert(self@.world =~~= old(self)@.world.add_inventory(id));
        }
    }

    /// Adds a flag set to an entity if it doesn't have one.
    pub fn add_flag_set(&mut self, id: ID)
        requires
            old(self).ok(),
            old(self)@.world.has(id),
        ensures
            final(self).ok(),
            final(self)@ == old(self)@.on(old(self)@.world.add_flag_set(id)),
            final(self)@.world.entities.len() >= old(self)@.world.entities.len(),
    {
        if self.world.entities[id].flags.is_none() {
            proof {
                lemma_with_places(
                    self@.world,
                    id,
                    EntityView { flags: Some(Set::<FlagView>::empty()), ..self@.world.get(id) },
                );
            }
            self.world.entities[id].flags = Some(FlagSetComponent::new());
            assert(self@.world =~~= old(self)@.world.add_flag_set(id));
        }
    }

    /// Adds a specific flag to the entity, creating the flag set component if
    /// necessary.
    pub fn add_flag(&mut self, id: ID, flag: Flag)
        requires
            old(self).ok(),
            old(self)@.world.has(id),
        ensures
            final(self).ok(),
            final(self)@ == old(self)@.on(old(self)@.world.add_flag(id, flag@)),
            final(self)@.world.entities.len() >= old(self)@.world.entities.len(),
    {
        self.add_flag_set(id);
        proof {
            let w = self@.world;
            lemma_with_places(
                w,
                id,
                EntityView { flags: Some(w.flags(id).insert(flag@)), ..w.get(id) },
            );
        }
        self.world.set_flag(id, flag);
    }

    /// Adds a prose component to an entity if it doesn't have one.
    pub fn add_prose_component(&mut self, id: ID)
        requires
            old(self).ok(),
            old(self)@.world.has(id),
        ensures
            final(self).ok(),
            final(self)@ == old(self)@.on(old(self)@.world.add_prose_component(id)),
            final(self)@.world.entities.len() >= old(self)@.world.entities.len(),
    {
        if self.world.entities[id].prose.is_none() {
            proof {
                lemma_with_places(
                    self@.world,
                    id,
                    EntityView { prose: Some(ProseComponentView::empty()), ..self@.world.get(id) },
                );
            }
            self.world.entities[id].prose = Some(ProseComponent::new());
            assert(self@.world =~~= old(self)@.world.add_prose_component(id));
        }
    }

    /// Gives the entity the prose of the given kind, creating the prose
    /// component if necessary.
    pub fn put_prose(&mut self, id: ID, prose_type: ProseType, prose: Prose)
        requires
            old(self).ok(),
            old(self)@.world.has(id),
        ensures
            final(self).ok(),
            final(self)@ == old(self)@.on(old(self)@.world.add_prose(id, prose_type, prose@)),
            final(self)@.world.entities.len() >= old(self)@.world.entities.len(),
    {
        self.add_prose_component(id);
        let ghost w = self@.world;
        proof {
            lemma_with_places(
                w,
                id,
                EntityView {
                    prose: Some(w.get(id).prose->0.with(prose_type, prose@)),
                    ..w.get(id)
                },
            );
        }
        match &mut self.world.entities[id].prose {
            Some(p) => {
                p.set(prose_type, prose);
            },
            None => {},
        }
        assert(self@.world =~~= old(self)@.world.add_prose(id, prose_type, prose@));
    }

    /// Adds a prose string of a given type to an entity's prose component,
    /// creating the component if necessary. The text is trimmed.
    pub fn add_prose(&mut self, id: ID, prose_type: ProseType, text: &str)
        requires
            old(self).ok(),
            old(self)@.world.has(id),
        ensures
            final(self).ok(),
            final(self)@ == old(self)@.on(
                old(self)@.world.add_prose(id, prose_type, ProseView::Prose(trimmed(text@))),
            ),
            final(self)@.world.entities.len() >= old(self)@.world.entities.len(),
    {
        self.put_prose(id, prose_type, Prose::Prose(trim(text).to_owned()));
    }

    /// Adds a prose hook of a given type to an entity's prose component,
    /// creating the component if necessary.
    pub fn add_prose_hook(&mut self, id: ID, prose_type: ProseType, hook: ProseHook)
        requires
            old(self).ok(),
            old(self)@.world.has(id),
        ensures
            final(self).ok(),
            final(self)@ == old(self)@.on(
                old(self)@.world.add_prose(id, prose_type, ProseView::Hook(hook@)),
            ),
            final(self)@.world.entities.len() >= old(self)@.world.entities.len(),
    {
        self.put_prose(id, prose_type, Prose::Hook(hook));
    }

    /// Sets the location of the thing to the entity with the given tag,
    /// creating the containing entity if need be.
    pub fn set_location(&mut self, thing: ID, loc_tag: &str)
        requires
            old(self).ok(),
            old(self)@.world.has(thing),
        ensures
            final(self).ok(),
            final(self)@ == old(self)@.on(old(self)@.world.set_location(thing, loc_tag@)),
            final(self)@.world.entities.len() >= old(self)@.world.entities.len(),
    {
        let place = self.entity(loc_tag);
        self.add_inventory(place);
        self.add_location(thing);
        proof {
            lemma_add_location_places(
                old(self)@.world.with_entity(loc_tag@).add_inventory(place),
                thing,
            );
            lemma_put_in_places(self@.world, thing, place);
        }
        put_in(&mut self.world, thing, place);
    }
}

/// An event for which rules can be written, as contracts see it.
pub enum WBEventView {
    GetThing(Text),
    ReadThing(Text),
    EnterRoom(Text),
}

impl<'a> View for WBEvent<'a> {
    type V = WBEventView;

    open spec fn view(&self) -> WBEventView {
        match self {
            WBEvent::GetThing(tag) => WBEventView::GetThing(tag@),
            WBEvent::ReadThing(tag) => WBEventView::ReadThing(tag@),
            WBEvent::EnterRoom(tag) => WBEventView::EnterRoom(tag@),
        }
    }
}

impl WBEventView {
    /// The tag of the entity that the event is about.
    pub open spec fn subject(self) -> Text {
        match self {
            WBEventView::GetThing(tag) => tag,
            WBEventView::ReadThing(tag) => tag,
            WBEventView::EnterRoom(tag) => tag,
        }
    }

    /// The word for the event in the tag of a rule that is bound to it.
    pub open spec fn word(self) -> Text {
        match self {
            WBEventView::GetThing(tag) => "-get-"@,
            WBEventView::ReadThing(tag) => "-read-"@,
            WBEventView::EnterRoom(tag) => "-enter-"@,
        }
    }

    /// The event, about the player and the entity with the identity.
    pub open spec fn event(self, pid: ID, id: ID) -> Event {
        match self {
            WBEventView::GetThing(tag) => Event::GetThing(pid, id),
            WBEventView::ReadThing(tag) => Event::ReadThing(pid, id),
            WBEventView::EnterRoom(tag) => Event::EnterRoom(pid, id),
        }
    }

    /// The builder's expectations, with those added that a rule bound to the
    /// event brings.
    pub open spec fn expected(self, before: Seq<Is>, id: ID) -> Seq<Is> {
        match self {
            WBEventView::GetThing(tag) => before.push(Is::Thing(id)),
            WBEventView::ReadThing(tag) => before.push(Is::Thing(id)).push(Is::Book(id)),
            WBEventView::EnterRoom(tag) => before.push(Is::Room(id)),
        }
    }
}

/// The rule that a new rule starts as: a trigger fires whenever its event
/// occurs, a guard forbids its event whenever it is asked, and neither does
/// anything.
pub open spec fn fresh_rule(event: Event, is_guard: bool) -> RuleView {
    RuleView {
        predicate: if is_guard {
            ConditionView::Not(Box::new(ConditionView::Always))
        } else {
            ConditionView::Always
        },
        event,
        script: Seq::empty(),
        is_guard,
    }
}

impl BuilderView {
    /// The builder that has built nothing yet.
    pub open spec fn initial() -> BuilderView {
        BuilderView { world: WorldView::initial(), expectations: Seq::empty() }
    }

    /// The builder after a custom command has been added.
    pub open spec fn command(self, h: HandlerView) -> BuilderView {
        self.on(self.world.with_handler(h))
    }

    /// The builder after the tagged entity has been made a room.
    pub open spec fn room(self, tag: Text, name: Text) -> BuilderView {
        self.on(self.world.with_entity(tag).make_room(self.world.entity_id(tag), name))
    }

    /// The builder after the tagged entity has been made a thing.
    pub open spec fn thing(self, tag: Text, name: Text, noun: Text) -> BuilderView {
        self.on(self.world.with_entity(tag).make_thing(self.world.entity_id(tag), name, noun))
    }

    /// The builder after the tagged entity has been made a feature: a thing
    /// that is part of the setting and cannot be moved.
    pub open spec fn feature(self, tag: Text, name: Text, noun: Text) -> BuilderView {
        let id = self.world.entity_id(tag);
        self.thing(tag, name, noun).flag(id, FlagView::Immovable).flag(id, FlagView::Scenery)
    }

    /// The builder after the tagged entity has been made a rule that fires
    /// on every turn.
    pub open spec fn rule(self, tag: Text) -> BuilderView {
        self.on(
            self.world.with_entity(tag).make_rule(
                self.world.entity_id(tag),
                fresh_rule(Event::Turn, false),
            ),
        )
    }

    /// The tag of the rule of the given kind for the event.
    pub open spec fn event_rule_tag(kind: Text, evt: WBEventView) -> Text {
        kind + evt.word() + evt.subject()
    }

    /// The identity of the rule of the given kind for the event.
    pub open spec fn event_rule_id(self, kind: Text, evt: WBEventView) -> ID {
        self.world.with_entity(evt.subject()).entity_id(Self::event_rule_tag(kind, evt))
    }

    /// The builder after a rule of the given kind has been made for the
    /// event.
    pub open spec fn event_rule(self, kind: Text, evt: WBEventView, is_guard: bool) -> BuilderView {
        let about = self.world.entity_id(evt.subject());
        let named = self.world.with_entity(evt.subject());
        let tag = Self::event_rule_tag(kind, evt);
        BuilderView {
            world: named.with_entity(tag).make_rule(
                named.entity_id(tag),
                fresh_rule(evt.event(self.world.pid, about), is_guard),
            ),
            expectations: evt.expected(self.expectations, about),
        }
    }

    /// The builder after the entity has been given the flag.
    pub open spec fn flag(self, id: ID, flag: FlagView) -> BuilderView {
        self.on(self.world.add_flag(id, flag))
    }

    /// The builder after the entity has been given the prose.
    pub open spec fn prose(self, id: ID, kind: ProseType, prose: ProseView) -> BuilderView {
        self.on(self.world.add_prose(id, kind, prose))
    }

    /// The builder after the entity has been put into the tagged entity.
    pub open spec fn located(self, id: ID, loc_tag: Text) -> BuilderView {
        self.on(self.world.set_location(id, loc_tag))
    }

    /// The builder after the player has been put into the tagged room, which
    /// the player has then seen.
    pub open spec fn player_located(self, loc_tag: Text) -> BuilderView {
        let place = self.world.entity_id(loc_tag);
        self.on(self.world.with_entity(loc_tag)).located(self.world.pid, loc_tag).flag(
            self.world.pid,
            FlagView::Seen(place),
        ).expect(Is::Room(place))
    }

    /// The builder after the room has been linked to the tagged room.
    pub open spec fn link(self, id: ID, dir: Dir, room_tag: Text) -> BuilderView {
        let dest = self.world.entity_id(room_tag);
        let named = self.world.with_entity(room_tag);
        BuilderView {
            world: named.with_links(
                id,
                named.get(id).links->0.with(dir, LinkDestView::Room(dest)),
            ),
            expectations: self.expectations.push(Is::Room(dest)),
        }
    }

    /// The builder after the room has been given a dead end.
    pub open spec fn dead_end(self, id: ID, dir: Dir, text: Text) -> BuilderView {
        self.on(
            self.world.with_links(
                id,
                self.world.get(id).links->0.with(dir, LinkDestView::DeadEnd(text)),
            ),
        )
    }

    /// The builder after the rule has been given the predicate.
    pub open spec fn predicate(self, id: ID, predicate: ConditionView) -> BuilderView {
        self.on(self.world.with_rule(id, RuleView { predicate, ..self.world.rule(id) }))
    }

    /// The builder after the action has been added to the script of the
    /// rule.
    pub open spec fn action(self, id: ID, action: ActionView) -> BuilderView {
        self.on(
            self.world.with_rule(
                id,
                RuleView { script: self.world.rule(id).script.push(action), ..self.world.rule(id) },
            ),
        )
    }

    /// The builder after the tagged entity has been named and given a flag
    /// set.
    pub open spec fn flagged_entity(self, tag: Text) -> BuilderView {
        self.on(self.world.with_entity(tag).add_flag_set(self.world.entity_id(tag)))
    }

    /// The builder after the tagged entity has been named, with an
    /// expectation of it.
    pub open spec fn expected_entity(self, tag: Text, x: Is) -> BuilderView {
        self.on(self.world.with_entity(tag)).expect(x)
    }
}

/// Replacing what an entity is, but not where it is or what it holds, keeps
/// the world buildable.
pub proof fn lemma_with_buildable(w: WorldView, id: ID, e: EntityView)
    requires
        w.buildable(),
        w.has(id),
        e.loc == w.get(id).loc,
        e.inventory == w.get(id).inventory,
    ensures
        w.with(id, e).buildable(),
{
    lemma_with_places(w, id, e);
}

impl WorldBuilder {
    /// Creates a new world with limbo and a player with default settings.
    pub fn new() -> (r: WorldBuilder)
        ensures
            r@ == BuilderView::initial(),
            r.ok(),
    {
        let world = World::new();
        WorldBuilder { world, expectations: Vec::new() }
    }

    /// Adds a custom command.
    fn command(&mut self, handler: CommandHandler)
        requires
            old(self).ok(),
        ensures
            final(self).ok(),
            final(self)@ == old(self)@.command(handler@),
    {
        self.world.command_handlers.push(handler);
        proof {
            let w = old(self)@.world;
            let v = w.with_handler(handler@);
            assert(self@.world =~~= v);
            assert forall|x: ID| (#[trigger] v.loc_of(x)) is Some implies v.owns(
                v.loc_of(x)->0,
                x,
            ) by {
                assert(w.loc_of(x) is Some);
            }
            assert forall|c: ID, x: ID| #[trigger] v.owns(c, x) implies v.loc_of(x) == Some(
                c,
            ) by {
                assert(w.owns(c, x));
            }
        }
    }

    /// Adds a custom command consisting of a single verb.
    pub fn verb(&mut self, word: &str, hook: CommandHook)
        requires
            old(self).ok(),
        ensures
            final(self).ok(),
            final(self)@ == old(self)@.command(
                HandlerView { pattern: PatternView::Verb(word@), hook: hook@ },
            ),
    {
        self.command(CommandHandler::verb(word, hook));
    }

    /// Adds a custom command triggered by a specific verb and noun.
    pub fn verb_noun(&mut self, verb: &str, noun: &str, hook: CommandHook)
        requires
            old(self).ok(),
        ensures
            final(self).ok(),
            final(self)@ == old(self)@.command(
                HandlerView { pattern: PatternView::VerbNoun(verb@, noun@), hook: hook@ },
            ),
    {
        self.command(CommandHandler::verb_noun(verb, noun, hook));
    }

    /// Adds a custom command triggered by a specific verb and a noun
    /// representing a thing that's visible to the player.
    pub fn verb_visible(&mut self, verb: &str, hook: CommandHook)
        requires
            old(self).ok(),
        ensures
            final(self).ok(),
            final(self)@ == old(self)@.command(
                HandlerView { pattern: PatternView::VerbVisible(verb@), hook: hook@ },
            ),
    {
        self.command(CommandHandler::verb_visible(verb, hook));
    }

    /// Gives the entity the name.
    fn set_name(&mut self, id: ID, name: &str)
        requires
            old(self).ok(),
            old(self)@.world.has(id),
        ensures
            final(self).ok(),
            final(self)@ == old(self)@.on(old(self)@.world.with_name(id, name@)),
            final(self)@.world.entities.len() >= old(self)@.world.entities.len(),
    {
        proof {
            lemma_with_buildable(
                self@.world,
                id,
                EntityView { name: Some(name@), ..self@.world.get(id) },
            );
        }
        self.world.entities[id].name = Some(name.to_owned());
        assert(self@.world =~~= old(self)@.world.with_name(id, name@));
    }

    /// Gives the entity the thing details.
    fn set_thing(&mut self, id: ID, thing: ThingComponent)
        requires
            old(self).ok(),
            old(self)@.world.has(id),
        ensures
            final(self).ok(),
            final(self)@ == old(self)@.on(old(self)@.world.with_thing(id, thing@)),
            final(self)@.world.entities.len() >= old(self)@.world.entities.len(),
    {
        proof {
            lemma_with_buildable(
                self@.world,
                id,
                EntityView { thing: Some(thing@), ..self@.world.get(id) },
            );
        }
        self.world.entities[id].thing = Some(thing);
        assert(self@.world =~~= old(self)@.world.with_thing(id, thing@));
    }

    /// Makes the entity the rule.
    fn set_rule(&mut self, id: ID, rule: RuleComponent)
        requires
            old(self).ok(),
            old(self)@.world.has(id),
        ensures
            final(self).ok(),
            final(self)@ == old(self)@.on(old(self)@.world.with_rule(id, rule@)),
            final(self)@.world.entities.len() >= old(self)@.world.entities.len(),
    {
        proof {
            lemma_with_buildable(
                self@.world,
                id,
                EntityView { rule: Some(rule@), ..self@.world.get(id) },
            );
        }
        self.world.entities[id].rule = Some(rule);
        assert(self@.world =~~= old(self)@.world.with_rule(id, rule@));
    }

    /// Gives the entity the links.
    fn set_links(&mut self, id: ID, links: LinksComponent)
        requires
            old(self).ok(),
            old(self)@.world.has(id),
        ensures
            final(self).ok(),
            final(self)@ == old(self)@.on(old(self)@.world.with_links(id, links@)),
            final(self)@.world.entities.len() >= old(self)@.world.entities.len(),
    {
        proof {
            lemma_with_buildable(
                self@.world,
                id,
                EntityView { links: Some(links@), ..self@.world.get(id) },
            );
        }
        self.world.entities[id].links = Some(links);
        assert(self@.world =~~= old(self)@.world.with_links(id, links@));
    }

    /// Configures the player.
    pub fn player(&mut self) -> (r: PlayerBuilder<'_>)
        requires
            old(self).ok(),
        ensures
            *final(r.wb) == *final(self),
            *r.wb == *old(self),
            r.ok(),
    {
        PlayerBuilder { wb: self }
    }

    /// Creates or configures a room.
    pub fn room(&mut self, tag: &str, name: &str) -> (r: RoomBuilder<'_>)
        requires
            old(self).ok(),
        ensures
            *final(r.wb) == *final(self),
            r.wb@ == old(self)@.room(tag@, name@),
            r.id == old(self)@.world.entity_id(tag@),
            r.tag@ == tag@,
            r.ok(),
    {
        let id = self.entity(tag);
        self.set_name(id, name);
        self.set_links(id, LinksComponent::new());
        self.add_prose_component(id);
        self.add_inventory(id);
        self.add_flag_set(id);
        RoomBuilder { wb: self, tag: tag.to_owned(), id }
    }

    /// Creates or configures a feature, i.e., a thing that's a part of its
    /// container: the player's hands, a pool of water, a big machine.
    /// Features are things that have their Scenery and Immovable flags set.
    pub fn feature(&mut self, tag: &str, name: &str, noun: &str) -> (r: ThingBuilder<'_>)
        requires
            old(self).ok(),
        ensures
            *final(r.wb) == *final(self),
            r.wb@ == old(self)@.feature(tag@, name@, noun@),
            r.id == old(self)@.world.entity_id(tag@),
            r.tag@ == tag@,
            r.ok(),
    {
        self.thing(tag, name, noun).flag(Flag::Immovable).flag(Flag::Scenery)
    }

    /// Creates or configures a thing.
    pub fn thing(&mut self, tag: &str, name: &str, noun: &str) -> (r: ThingBuilder<'_>)
        requires
            old(self).ok(),
        ensures
            *final(r.wb) == *final(self),
            r.wb@ == old(self)@.thing(tag@, name@, noun@),
            r.id == old(self)@.world.entity_id(tag@),
            r.tag@ == tag@,
            r.ok(),
    {
        let id = self.entity(tag);
        self.set_name(id, name);
        let details = ThingComponent::new(noun, true);
        self.set_thing(id, details);
        self.add_flag_set(id);
        self.add_location(id);
        ThingBuilder { wb: self, tag: tag.to_owned(), id }
    }

    /// Creates and configures a rule that will be triggered every turn.
    pub fn rule(&mut self, tag: &str) -> (r: RuleBuilder<'_>)
        requires
            old(self).ok(),
        ensures
            *final(r.wb) == *final(self),
            r.wb@ == old(self)@.rule(tag@),
            r.id == old(self)@.world.entity_id(tag@),
            r.tag@ == tag@,
            r.ok(),
            !r.is_guard(),
    {
        let id = self.entity(tag);
        self.add_flag_set(id);
        self.set_rule(id, RuleComponent::new());
        RuleBuilder { wb: self, tag: tag.to_owned(), id }
    }

    /// Creates and configures a guard that will determine whether a specific
    /// event can occur. If the answer is no, the guard shows its messages.
    /// Until it is told otherwise the guard forbids the event.
    pub fn allow(&mut self, evt: &WBEvent) -> (r: RuleBuilder<'_>)
        requires
            old(self).ok(),
        ensures
            *final(r.wb) == *final(self),
            r.wb@ == old(self)@.event_rule("allow"@, evt@, true),
            r.id == old(self)@.event_rule_id("allow"@, evt@),
            r.tag@ == BuilderView::event_rule_tag("allow"@, evt@),
            r.ok(),
            r.is_guard(),
    {
        let mut rulec = RuleComponent::new();
        rulec.is_guard = true;
        rulec.predicate = Condition::Always.negated();
        self.build_event_rule("allow", evt, rulec)
    }

    /// Creates and configures a rule that will be triggered when a specific
    /// event occurs.
    pub fn on(&mut self, evt: &WBEvent) -> (r: RuleBuilder<'_>)
        requires
            old(self).ok(),
        ensures
            *final(r.wb) == *final(self),
            r.wb@ == old(self)@.event_rule("on"@, evt@, false),
            r.id == old(self)@.event_rule_id("on"@, evt@),
            r.tag@ == BuilderView::event_rule_tag("on"@, evt@),
            r.ok(),
            !r.is_guard(),
    {
        let rulec = RuleComponent::new();
        self.build_event_rule("on", evt, rulec)
    }

    /// Creates and configures a rule that will be asked or triggered when a
    /// specific event occurs.
    fn build_event_rule(&mut self, kind: &str, evt: &WBEvent, rulec: RuleComponent) -> (r:
        RuleBuilder<'_>)
        requires
            old(self).ok(),
            rulec@.script == Seq::<ActionView>::empty(),
            rulec@.predicate == fresh_rule(Event::Turn, rulec@.is_guard).predicate,
        ensures
            *final(r.wb) == *final(self),
            r.wb@ == old(self)@.event_rule(kind@, evt@, rulec@.is_guard),
            r.id == old(self)@.event_rule_id(kind@, evt@),
            r.tag@ == BuilderView::event_rule_tag(kind@, evt@),
            r.ok(),
            r.is_guard() == rulec@.is_guard,
    {
        let mut rulec = rulec;
        let pid = self.world.pid;
        let mut tag = String::from_str(kind);
        match evt {
            WBEvent::GetThing(thing_tag) => {
                let tid = self.entity(thing_tag);
                rulec.event = Event::GetThing(pid, tid);
                self.expect(Is::Thing(tid));
                tag.append("-get-");
                tag.append(thing_tag);
            },
            WBEvent::ReadThing(thing_tag) => {
                let tid = self.entity(thing_tag);
                rulec.event = Event::ReadThing(pid, tid);
                self.expect(Is::Thing(tid));
                self.expect(Is::Book(tid));
                tag.append("-read-");
                tag.append(thing_tag);
            },
            WBEvent::EnterRoom(room_tag) => {
                let rid = self.entity(room_tag);
                rulec.event = Event::EnterRoom(pid, rid);
                self.expect(Is::Room(rid));
                tag.append("-enter-");
                tag.append(room_tag);
            },
        }
        let id = self.entity(tag.as_str());
        self.add_flag_set(id);
        self.set_rule(id, rulec);
        RuleBuilder { wb: self, tag, id }
    }

    /// Does every entity meet what is expected of it?
    fn expectations_met(&self) -> (r: bool)
        ensures
            r == (forall|k: int|
                0 <= k < self@.expectations.len() ==> self@.world.meets(
                    #[trigger] self@.expectations[k],
                )),
    {
        let n = self.expectations.len();
        let mut i: usize = 0;
        while i < n
            invariant
                i <= n,
                n == self@.expectations.len(),
                forall|k: int|
                    0 <= k < i ==> self@.world.meets(#[trigger] self@.expectations[k]),
            decreases n - i,
        {
            let met = match self.expectations[i] {
                Is::Book(id) => self.world.has_prose_type(id, ProseType::Book),
                Is::Player(id) => self.world.is_player(id),
                Is::Room(id) => self.world.is_room(id),
                Is::Thing(id) => self.world.is_thing(id),
            };
            if !met {
                return false;
            }
            i += 1;
        }
        true
    }

    /// Is the world complete: sound, with every expectation met?
    pub fn is_ready(&self) -> (r: bool)
        ensures
            r == self@.ready(),
    {
        self.world.is_sound() && self.expectations_met()
    }

    /// Completes world-building. It is for a builder whose world is
    /// complete.
    pub fn world(self) -> (w: World)
        requires
            self@.ready(),
        ensures
            w@ == self@.world,
            w.wf(),
    {
        self.world
    }
}

/// A tool for configuring the player entity.
///
/// The world builder creates and initializes the player automatically; this
/// struct allows the scenario author to configure scenario-specific features.
pub struct PlayerBuilder<'a> {
    pub wb: &'a mut WorldBuilder,
}

impl<'a> PlayerBuilder<'a> {
    /// Can the builder be built on?
    pub open spec fn ok(self) -> bool {
        self.wb.ok()
    }

    /// Sets the player's initial location given the location's tag.
    pub fn location(self, loc_tag: &str) -> (r: PlayerBuilder<'a>)
        requires
            self.ok(),
        ensures
            *final(r.wb) == *final(self.wb),
            r.wb@ == old(self.wb)@.player_located(loc_tag@),
            r.ok(),
    {
        let pid = self.wb.world.pid;
        let place = self.wb.entity(loc_tag);
        self.wb.set_location(pid, loc_tag);
        self.wb.add_flag(pid, Flag::Seen(place));
        self.wb.expect(Is::Room(place));
        self
    }

    /// Adds descriptive prose to the player.
    pub fn on_examine(self, text: &str) -> (r: PlayerBuilder<'a>)
        requires
            self.ok(),
        ensures
            *final(r.wb) == *final(self.wb),
            r.wb@ == old(self.wb)@.prose(
                old(self.wb)@.world.pid,
                ProseType::Thing,
                ProseView::Prose(trimmed(text@)),
            ),
            r.ok(),
    {
        let pid = self.wb.world.pid;
        self.wb.add_prose(pid, ProseType::Thing, text);
        self
    }

    /// Adds a prose hook to the player, to produce descriptive prose on
    /// demand.
    pub fn on_examine_hook(self, hook: ProseHook) -> (r: PlayerBuilder<'a>)
        requires
            self.ok(),
        ensures
            *final(r.wb) == *final(self.wb),
            r.wb@ == old(self.wb)@.prose(
                old(self.wb)@.world.pid,
                ProseType::Thing,
                ProseView::Hook(hook@),
            ),
            r.ok(),
    {
        let pid = self.wb.world.pid;
        self.wb.add_prose_hook(pid, ProseType::Thing, hook);
        self
    }

    /// Sets a flag on the player.
    pub fn flag(self, flag: Flag) -> (r: PlayerBuilder<'a>)
        requires
            self.ok(),
        ensures
            *final(r.wb) == *final(self.wb),
            r.wb@ == old(self.wb)@.flag(old(self.wb)@.world.pid, flag@),
            r.ok(),
    {
        let pid = self.wb.world.pid;
        self.wb.add_flag(pid, flag);
        self
    }
}

/// A tool for creating and configuring room entities.
pub struct RoomBuilder<'a> {
    pub wb: &'a mut WorldBuilder,
    pub tag: String,
    pub id: ID,
}

impl<'a> RoomBuilder<'a> {
    /// Can the builder be built on: is its entity there, with links?
    pub open spec fn ok(self) -> bool {
        &&& self.wb.ok()
        &&& self.wb@.world.has(self.id)
        &&& self.wb@.world.get(self.id).links is Some
    }

    /// Adds descriptive prose to the room.
    pub fn prose(self, text: &str) -> (r: RoomBuilder<'a>)
        requires
            self.ok(),
        ensures
            *final(r.wb) == *final(self.wb),
            r.id == self.id,
            r.tag == self.tag,
            r.wb@ == old(self.wb)@.prose(
                self.id,
                ProseType::Room,
                ProseView::Prose(trimmed(text@)),
            ),
            r.ok(),
    {
        self.wb.add_prose(self.id, ProseType::Room, text);
        self
    }

    /// Adds a prose hook to the room, to produce descriptive prose on
    /// demand.
    pub fn prose_hook(self, hook: ProseHook) -> (r: RoomBuilder<'a>)
        requires
            self.ok(),
        ensures
            *final(r.wb) == *final(self.wb),
            r.id == self.id,
            r.tag == self.tag,
            r.wb@ == old(self.wb)@.prose(self.id, ProseType::Room, ProseView::Hook(hook@)),
            r.ok(),
    {
        self.wb.add_prose_hook(self.id, ProseType::Room, hook);
        self
    }

    /// Sets a flag on the room.
    pub fn flag(self, flag: Flag) -> (r: RoomBuilder<'a>)
        requires
            self.ok(),
        ensures
            *final(r.wb) == *final(self.wb),
            r.id == self.id,
            r.tag == self.tag,
            r.wb@ == old(self.wb)@.flag(self.id, flag@),
            r.ok(),
    {
        self.wb.add_flag(self.id, flag);
        self
    }

    /// Creates a link from this room to another room given the direction and
    /// the other room's tag.
    pub fn link(self, dir: Dir, room_tag: &str) -> (r: RoomBuilder<'a>)
        requires
            self.ok(),
        ensures
            *final(r.wb) == *final(self.wb),
            r.id == self.id,
            r.tag == self.tag,
            r.wb@ == old(self.wb)@.link(self.id, dir, room_tag@),
            r.ok(),
    {
        let dest = self.wb.entity(room_tag);
        self.wb.expect(Is::Room(dest));
        let ghost named = self.wb@.world;
        proof {
            lemma_with_buildable(
                named,
                self.id,
                EntityView {
                    links: Some(named.get(self.id).links->0.with(dir, LinkDestView::Room(dest))),
                    ..named.get(self.id)
                },
            );
        }
        match &mut self.wb.world.entities[self.id].links {
            Some(links) => {
                links.set(dir, LinkDest::Room(dest));
            },
            None => {},
        }
        assert(self.wb@.world =~~= named.with_links(
            self.id,
            named.get(self.id).links->0.with(dir, LinkDestView::Room(dest)),
        ));
        self
    }

    /// Adds a dead end in the given direction.
    pub fn dead_end(self, dir: Dir, text: &str) -> (r: RoomBuilder<'a>)
        requires
            self.ok(),
        ensures
            *final(r.wb) == *final(self.wb),
            r.id == self.id,
            r.tag == self.tag,
            r.wb@ == old(self.wb)@.dead_end(self.id, dir, text@),
            r.ok(),
    {
        let ghost w = self.wb@.world;
        proof {
            lemma_with_buildable(
                w,
                self.id,
                EntityView {
                    links: Some(w.get(self.id).links->0.with(dir, LinkDestView::DeadEnd(text@))),
                    ..w.get(self.id)
                },
            );
        }
        match &mut self.wb.world.entities[self.id].links {
            Some(links) => {
                links.set(dir, LinkDest::DeadEnd(text.to_owned()));
            },
            None => {},
        }
        self
    }
}

/// A tool for creating and configuring thing entities.
pub struct ThingBuilder<'a> {
    pub wb: &'a mut WorldBuilder,
    pub tag: String,
    pub id: ID,
}

impl<'a> ThingBuilder<'a> {
    /// Can the builder be built on: is its entity there?
    pub open spec fn ok(self) -> bool {
        &&& self.wb.ok()
        &&& self.wb@.world.has(self.id)
    }

    /// Sets the thing's initial location given the location's tag.
    pub fn location(self, loc: &str) -> (r: ThingBuilder<'a>)
        requires
            self.ok(),
        ensures
            *final(r.wb) == *final(self.wb),
            r.id == self.id,
            r.tag == self.tag,
            r.wb@ == old(self.wb)@.located(self.id, loc@),
            r.ok(),
    {
        self.wb.set_location(self.id, loc);
        self
    }

    /// Gives the thing the prose of the given kind.
    fn prose(self, kind: ProseType, text: &str) -> (r: ThingBuilder<'a>)
        requires
            self.ok(),
        ensures
            *final(r.wb) == *final(self.wb),
            r.id == self.id,
            r.tag == self.tag,
            r.wb@ == old(self.wb)@.prose(self.id, kind, ProseView::Prose(trimmed(text@))),
            r.ok(),
    {
        self.wb.add_prose(self.id, kind, text);
        self
    }

    /// Gives the thing the prose hook of the given kind.
    fn prose_hook(self, kind: ProseType, hook: ProseHook) -> (r: ThingBuilder<'a>)
        requires
            self.ok(),
        ensures
            *final(r.wb) == *final(self.wb),
            r.id == self.id,
            r.tag == self.tag,
            r.wb@ == old(self.wb)@.prose(self.id, kind, ProseView::Hook(hook@)),
            r.ok(),
    {
        self.wb.add_prose_hook(self.id, kind, hook);
        self
    }

    /// Adds descriptive prose to the thing.
    pub fn on_examine(self, text: &str) -> (r: ThingBuilder<'a>)
        requires
            self.ok(),
        ensures
            *final(r.wb) == *final(self.wb),
            r.id == self.id,
            r.tag == self.tag,
            r.wb@ == old(self.wb)@.prose(
                self.id,
                ProseType::Thing,
                ProseView::Prose(trimmed(text@)),
            ),
            r.ok(),
    {
        self.prose(ProseType::Thing, text)
    }

    /// Adds a prose hook to the thing, to produce descriptive prose on
    /// demand.
    pub fn on_examine_hook(self, hook: ProseHook) -> (r: ThingBuilder<'a>)
        requires
            self.ok(),
        ensures
            *final(r.wb) == *final(self.wb),
            r.id == self.id,
            r.tag == self.tag,
            r.wb@ == old(self.wb)@.prose(self.id, ProseType::Thing, ProseView::Hook(hook@)),
            r.ok(),
    {
        self.prose_hook(ProseType::Thing, hook)
    }

    /// Adds readable prose to the thing.
    pub fn on_read(self, text: &str) -> (r: ThingBuilder<'a>)
        requires
            self.ok(),
        ensures
            *final(r.wb) == *final(self.wb),
            r.id == self.id,
            r.tag == self.tag,
            r.wb@ == old(self.wb)@.prose(
                self.id,
                ProseType::Book,
                ProseView::Prose(trimmed(text@)),
            ),
            r.ok(),
    {
        self.prose(ProseType::Book, text)
    }

    /// Adds a prose hook to the thing, to produce readable prose on demand.
    pub fn on_read_hook(self, hook: ProseHook) -> (r: ThingBuilder<'a>)
        requires
            self.ok(),
        ensures
            *final(r.wb) == *final(self.wb),
            r.id == self.id,
            r.tag == self.tag,
            r.wb@ == old(self.wb)@.prose(self.id, ProseType::Book, ProseView::Hook(hook@)),
            r.ok(),
    {
        self.prose_hook(ProseType::Book, hook)
    }

    /// Adds scenery prose to the thing.
    pub fn on_scenery(self, text: &str) -> (r: ThingBuilder<'a>)
        requires
            self.ok(),
        ensures
            *final(r.wb) == *final(self.wb),
            r.id == self.id,
            r.tag == self.tag,
            r.wb@ == old(self.wb)@.prose(
                self.id,
                ProseType::Scenery,
                ProseView::Prose(trimmed(text@)),
            ),
            r.ok(),
    {
        self.prose(ProseType::Scenery, text)
    }

    /// Adds a prose hook to the thing, to produce scenery prose on demand.
    pub fn on_scenery_hook(self, hook: ProseHook) -> (r: ThingBuilder<'a>)
        requires
            self.ok(),
        ensures
            *final(r.wb) == *final(self.wb),
            r.id == self.id,
            r.tag == self.tag,
            r.wb@ == old(self.wb)@.prose(self.id, ProseType::Scenery, ProseView::Hook(hook@)),
            r.ok(),
    {
        self.prose_hook(ProseType::Scenery, hook)
    }

    /// Sets a flag on the thing.
    pub fn flag(self, flag: Flag) -> (r: ThingBuilder<'a>)
        requires
            self.ok(),
        ensures
            *final(r.wb) == *final(self.wb),
            r.id == self.id,
            r.tag == self.tag,
            r.wb@ == old(self.wb)@.flag(self.id, flag@),
            r.ok(),
    {
        self.wb.add_flag(self.id, flag);
        self
    }
}

/// A tool for creating and configuring rules.
pub struct RuleBuilder<'a> {
    pub wb: &'a mut WorldBuilder,
    pub tag: String,
    pub id: ID,
}

impl<'a> RuleBuilder<'a> {
    /// Can the builder be built on: is its entity there, and a rule?
    pub open spec fn ok(self) -> bool {
        &&& self.wb.ok()
        &&& self.wb@.world.has(self.id)
        &&& self.wb@.world.get(self.id).rule is Some
    }

    /// Is the rule a guard?
    pub open spec fn is_guard(self) -> bool {
        self.wb@.world.rule(self.id).is_guard
    }

    /// Replaces the rule.
    fn update(self, rule: RuleComponent) -> (r: RuleBuilder<'a>)
        requires
            self.ok(),
        ensures
            *final(r.wb) == *final(self.wb),
            r.id == self.id,
            r.tag == self.tag,
            r.wb@ == old(self.wb)@.on(old(self.wb)@.world.with_rule(self.id, rule@)),
            r.ok(),
    {
        self.wb.set_rule(self.id, rule);
        self
    }

    /// Takes the rule out, to put a changed one back.
    fn current(&self) -> (r: RuleComponent)
        requires
            self.ok(),
        ensures
            r@ == old(self.wb)@.world.rule(self.id),
    {
        match &self.wb.world.entities[self.id].rule {
            Some(rule) => rule.clone(),
            None => RuleComponent::new(),
        }
    }

    /// Appends the action to the script of the rule.
    fn action(self, action: Action) -> (r: RuleBuilder<'a>)
        requires
            self.ok(),
        ensures
            *final(r.wb) == *final(self.wb),
            r.id == self.id,
            r.tag == self.tag,
            r.wb@ == old(self.wb)@.action(self.id, action@),
            r.ok(),
            r.is_guard() == self.is_guard(),
    {
        let mut rule = self.current();
        rule.script.add(action);
        self.update(rule)
    }

    /// Specifies the predicate for normal rules. If omitted, the rule fires
    /// every time it is triggered. It is not for guards.
    pub fn when(self, predicate: Condition) -> (r: RuleBuilder<'a>)
        requires
            self.ok(),
            !self.is_guard(),
        ensures
            *final(r.wb) == *final(self.wb),
            r.id == self.id,
            r.tag == self.tag,
            r.wb@ == old(self.wb)@.predicate(self.id, predicate@),
            r.ok(),
            !r.is_guard(),
    {
        let mut rule = self.current();
        rule.predicate = predicate;
        self.update(rule)
    }

    /// Specifies the predicate for guard rules: the guard allows the event
    /// unless the predicate holds. If omitted, the guard forbids the event
    /// every time it is asked. It is for guards only.
    pub fn unless(self, predicate: Condition) -> (r: RuleBuilder<'a>)
        requires
            self.ok(),
            self.is_guard(),
        ensures
            *final(r.wb) == *final(self.wb),
            r.id == self.id,
            r.tag == self.tag,
            r.wb@ == old(self.wb)@.predicate(
                self.id,
                ConditionView::Not(Box::new(predicate@)),
            ),
            r.ok(),
            r.is_guard(),
    {
        let mut rule = self.current();
        rule.predicate = predicate.negated();
        self.update(rule)
    }

    /// Specifies that the rule should execute no more than once. It is not
    /// for guards.
    pub fn once_only(self) -> (r: RuleBuilder<'a>)
        requires
            self.ok(),
            !self.is_guard(),
        ensures
            *final(r.wb) == *final(self.wb),
            r.id == self.id,
            r.tag == self.tag,
            r.wb@ == old(self.wb)@.flag(self.id, FlagView::FireOnce),
            r.ok(),
            !r.is_guard(),
    {
        self.wb.add_flag(self.id, Flag::FireOnce);
        self
    }

    /// Specifies text to print when the rule fires.
    pub fn print(self, text: &str) -> (r: RuleBuilder<'a>)
        requires
            self.ok(),
        ensures
            *final(r.wb) == *final(self.wb),
            r.id == self.id,
            r.tag == self.tag,
            r.wb@ == old(self.wb)@.action(self.id, ActionView::Print(text@)),
            r.ok(),
            r.is_guard() == self.is_guard(),
    {
        self.action(Action::Print(text.to_owned()))
    }

    /// Sets a flag on the tagged entity when the rule fires.
    pub fn set_flag(self, tag: &str, flag: Flag) -> (r: RuleBuilder<'a>)
        requires
            self.ok(),
        ensures
            *final(r.wb) == *final(self.wb),
            r.id == self.id,
            r.tag == self.tag,
            r.wb@ == old(self.wb)@.flagged_entity(tag@).action(
                self.id,
                ActionView::SetFlag(old(self.wb)@.world.entity_id(tag@), flag@),
            ),
            r.ok(),
            r.is_guard() == self.is_guard(),
    {
        let id = self.wb.entity(tag);
        self.wb.add_flag_set(id);
        self.action(Action::SetFlag(id, flag))
    }

    /// Unsets a flag on the tagged entity when the rule fires.
    pub fn unset_flag(self, tag: &str, flag: Flag) -> (r: RuleBuilder<'a>)
        requires
            self.ok(),
        ensures
            *final(r.wb) == *final(self.wb),
            r.id == self.id,
            r.tag == self.tag,
            r.wb@ == old(self.wb)@.flagged_entity(tag@).action(
                self.id,
                ActionView::ClearFlag(old(self.wb)@.world.entity_id(tag@), flag@),
            ),
            r.ok(),
            r.is_guard() == self.is_guard(),
    {
        let id = self.wb.entity(tag);
        self.wb.add_flag_set(id);
        self.action(Action::ClearFlag(id, flag))
    }

    /// Moves the tagged thing to limbo when the rule fires.
    pub fn forget(self, thing: &str) -> (r: RuleBuilder<'a>)
        requires
            self.ok(),
        ensures
            *final(r.wb) == *final(self.wb),
            r.id == self.id,
            r.tag == self.tag,
            r.wb@ == old(self.wb)@.expected_entity(
                thing@,
                Is::Thing(old(self.wb)@.world.entity_id(thing@)),
            ).action(
                self.id,
                ActionView::Forget(old(self.wb)@.world.entity_id(thing@)),
            ),
            r.ok(),
            r.is_guard() == self.is_guard(),
    {
        let id = self.wb.entity(thing);
        self.wb.expect(Is::Thing(id));
        self.action(Action::Forget(id))
    }

    /// Kills the tagged entity, i.e., sets the Dead flag, when the rule
    /// fires. The entity is expected to be the player.
    pub fn kill(self, tag: &str) -> (r: RuleBuilder<'a>)
        requires
            self.ok(),
        ensures
            *final(r.wb) == *final(self.wb),
            r.id == self.id,
            r.tag == self.tag,
            r.wb@ == old(self.wb)@.expected_entity(
                tag@,
                Is::Player(old(self.wb)@.world.entity_id(tag@)),
            ).action(self.id, ActionView::Kill(old(self.wb)@.world.entity_id(tag@))),
            r.ok(),
            r.is_guard() == self.is_guard(),
    {
        let id = self.wb.entity(tag);
        self.wb.expect(Is::Player(id));
        self.action(Action::Kill(id))
    }

    /// Revives the tagged entity, i.e., clears the Dead flag, when the rule
    /// fires. The entity is expected to be the player.
    pub fn revive(self, tag: &str) -> (r: RuleBuilder<'a>)
        requires
            self.ok(),
        ensures
            *final(r.wb) == *final(self.wb),
            r.id == self.id,
            r.tag == self.tag,
            r.wb@ == old(self.wb)@.expected_entity(
                tag@,
                Is::Player(old(self.wb)@.world.entity_id(tag@)),
            ).action(
                self.id,
                ActionView::Revive(old(self.wb)@.world.entity_id(tag@)),
            ),
            r.ok(),
            r.is_guard() == self.is_guard(),
    {
        let id = self.wb.entity(tag);
        self.wb.expect(Is::Player(id));
        self.action(Action::Revive(id))
    }
}

} // verus!
