//! The world: every entity with its components, the player's identity, the
//! turn counter and the custom commands.

use crate::entity::Entity;
use crate::entity::EntityView;
use crate::least::least;
use crate::least::lemma_least_some;
use crate::player_control::CommandHandler;
use crate::player_control::HandlerView;
use crate::script::Script;
use crate::types::opt_view;
use crate::types::Action;
use crate::types::ActionView;
use crate::types::Condition;
use crate::types::ConditionView;
use crate::types::Flag;
use crate::types::FlagSetComponent;
use crate::types::FlagView;
use crate::types::ID;
use crate::types::InventoryComponent;
use crate::types::LinkDest;
use crate::types::LinkDestView;
use crate::types::LinksView;
use crate::types::PlayerComponent;
use crate::types::Prose;
use crate::types::ProseComponentView;
use crate::types::ProseType;
use crate::types::ProseView;
use crate::types::Text;
use crate::types::ThingComponent;
use crate::types::ThingView;
use std::string::String;
use vstd::prelude::*;

verus! {

/// The identity of limbo, the entity that holds what is nowhere else.
pub const LIMBO: ID = 0;

/// The identity of the player.
pub const PLAYER: ID = 1;

/// The game world.
#[derive(Debug)]
pub struct World {
    /// The entities; the identity of each is its position.
    pub entities: Vec<Entity>,
    /// The identity of the player.
    pub pid: ID,
    /// The number of turns taken so far.
    pub clock: usize,
    /// The custom commands, in the order in which they are tried.
    pub command_handlers: Vec<CommandHandler>,
}

/// The world as contracts see it.
#[verifier::ext_equal]
pub struct WorldView {
    pub entities: Seq<EntityView>,
    pub pid: ID,
    pub clock: usize,
    pub handlers: Seq<HandlerView>,
}

impl View for World {
    type V = WorldView;

    open spec fn view(&self) -> WorldView {
        WorldView {
            entities: Seq::new(self.entities@.len(), |i: int| self.entities@[i]@),
            pid: self.pid,
            clock: self.clock,
            handlers: Seq::new(self.command_handlers@.len(), |i: int| self.command_handlers@[i]@),
        }
    }
}

/// Does the script do nothing but show messages?
pub open spec fn only_prints(s: Seq<ActionView>) -> bool {
    forall|i: int| 0 <= i < s.len() ==> (#[trigger] s[i]) is Print
}

impl WorldView {
    /// Is there an entity with this identity?
    pub open spec fn has(self, id: ID) -> bool {
        id < self.entities.len()
    }

    /// The entity with this identity.
    pub open spec fn get(self, id: ID) -> EntityView {
        self.entities[id as int]
    }

    /// Does the entity have a location component?
    pub open spec fn has_loc(self, id: ID) -> bool {
        self.has(id) && self.get(id).loc is Some
    }

    /// Does the entity have an inventory component?
    pub open spec fn has_inv(self, id: ID) -> bool {
        self.has(id) && self.get(id).inventory is Some
    }

    /// Does the entity have a flag set component?
    pub open spec fn has_flags(self, id: ID) -> bool {
        self.has(id) && self.get(id).flags is Some
    }

    /// Is the entity a room?
    pub open spec fn is_room(self, id: ID) -> bool {
        self.has(id) && self.get(id).is_room()
    }

    /// Is the entity a thing?
    pub open spec fn is_thing(self, id: ID) -> bool {
        self.has(id) && self.get(id).is_thing()
    }

    /// Does the entity have prose of the given kind?
    pub open spec fn has_prose_type(self, id: ID, kind: ProseType) -> bool {
        self.has(id) && self.get(id).prose is Some && self.get(id).prose->0.get(kind) is Some
    }

    /// Where the entity is, if it is anywhere.
    pub open spec fn loc_of(self, id: ID) -> Option<ID> {
        if self.has(id) {
            self.get(id).loc
        } else {
            None
        }
    }

    /// Where the entity is. Meant for an entity with a location component.
    pub open spec fn loc(self, id: ID) -> ID {
        self.get(id).loc->0
    }

    /// What the entity holds. Meant for an entity with an inventory
    /// component.
    pub open spec fn contents(self, id: ID) -> Set<ID> {
        self.get(id).inventory->0
    }

    /// Does the container hold the thing?
    pub open spec fn owns(self, container: ID, thing: ID) -> bool {
        self.has_inv(container) && self.contents(container).contains(thing)
    }

    /// The flags set on the entity. Meant for an entity with a flag set
    /// component.
    pub open spec fn flags(self, id: ID) -> Set<FlagView> {
        self.get(id).flags->0
    }

    /// Is the flag set on the entity?
    pub open spec fn has_flag(self, id: ID, flag: FlagView) -> bool {
        self.has_flags(id) && self.flags(id).contains(flag)
    }

    /// The world with one entity replaced.
    pub open spec fn with(self, id: ID, e: EntityView) -> WorldView {
        WorldView { entities: self.entities.update(id as int, e), ..self }
    }

    /// The world with the flags of one entity replaced.
    pub open spec fn with_flags(self, id: ID, flags: Set<FlagView>) -> WorldView {
        self.with(id, EntityView { flags: Some(flags), ..self.get(id) })
    }

    /// The world with the inventory of one entity replaced.
    pub open spec fn with_contents(self, id: ID, things: Set<ID>) -> WorldView {
        self.with(id, EntityView { inventory: Some(things), ..self.get(id) })
    }

    /// The world with the location of one entity replaced.
    pub open spec fn with_loc(self, id: ID, loc: ID) -> WorldView {
        self.with(id, EntityView { loc: Some(loc), ..self.get(id) })
    }

    /// The world after the flag is set on the entity.
    pub open spec fn set_flag(self, id: ID, flag: FlagView) -> WorldView {
        self.with_flags(id, self.flags(id).insert(flag))
    }

    /// The world after the flag is cleared on the entity.
    pub open spec fn clear_flag(self, id: ID, flag: FlagView) -> WorldView {
        self.with_flags(id, self.flags(id).remove(flag))
    }

    /// Is there an entity with this identity and the tag?
    pub open spec fn tagged(self, tag: Text, id: ID) -> bool {
        self.has(id) && self.get(id).tag == tag
    }

    /// The identity of the entity with the tag, if there is one: the least,
    /// should there be several.
    pub open spec fn lookup(self, tag: Text) -> Option<ID> {
        least(|id: ID| self.tagged(tag, id))
    }

    /// Does the condition hold in this world?
    pub open spec fn holds(self, c: ConditionView) -> bool
        decreases c,
    {
        match c {
            ConditionView::Always => true,
            ConditionView::HasFlag(id, flag) => self.has_flag(id, flag),
            ConditionView::ClockIs(n) => self.clock == n,
            ConditionView::Owns(container, thing) => self.owns(container, thing),
            ConditionView::Not(c) => !self.holds(*c),
            ConditionView::And(a, b) => self.holds(*a) && self.holds(*b),
        }
    }

    /// Can the condition be evaluated: does each entity it reads have the
    /// component that is read?
    pub open spec fn valid_condition(self, c: ConditionView) -> bool
        decreases c,
    {
        match c {
            ConditionView::Always => true,
            ConditionView::HasFlag(id, flag) => self.has_flags(id),
            ConditionView::ClockIs(n) => true,
            ConditionView::Owns(container, thing) => self.has_inv(container),
            ConditionView::Not(c) => self.valid_condition(*c),
            ConditionView::And(a, b) => self.valid_condition(*a) && self.valid_condition(*b),
        }
    }

    /// Can the action be applied: does each entity it changes have the
    /// component that is changed? The flags of the rule engine are not for
    /// scripts to set or clear.
    pub open spec fn valid_action(self, a: ActionView) -> bool {
        match a {
            ActionView::Print(text) => true,
            ActionView::SetFlag(id, flag) => self.has_flags(id) && !flag.reserved(),
            ActionView::ClearFlag(id, flag) => self.has_flags(id) && !flag.reserved(),
            ActionView::PutIn(thing, container) => self.has_loc(thing) && self.has_inv(container),
            ActionView::Forget(thing) => self.has_loc(thing),
            ActionView::Kill(id) => self.has_flags(id),
            ActionView::Revive(id) => self.has_flags(id),
        }
    }

    /// Can each action of the script be applied?
    pub open spec fn valid_script(self, s: Seq<ActionView>) -> bool {
        forall|i: int| 0 <= i < s.len() ==> self.valid_action(#[trigger] s[i])
    }

    /// Can the prose be resolved?
    pub open spec fn valid_prose(self, p: Option<ProseView>) -> bool {
        match p {
            Some(ProseView::Hook(hook)) => self.valid_condition(hook.when),
            _ => true,
        }
    }

    /// Can each piece of the prose be resolved?
    pub open spec fn valid_proses(self, p: ProseComponentView) -> bool {
        &&& self.valid_prose(p.room)
        &&& self.valid_prose(p.thing)
        &&& self.valid_prose(p.book)
        &&& self.valid_prose(p.scenery)
    }

    /// Does the link, if it leads to an entity, lead to a room?
    pub open spec fn valid_link(self, d: Option<LinkDestView>) -> bool {
        match d {
            Some(LinkDestView::Room(room)) => self.is_room(room),
            _ => true,
        }
    }

    /// Does each link lead to a room or to a dead end?
    pub open spec fn valid_links(self, l: LinksView) -> bool {
        &&& self.valid_link(l.north)
        &&& self.valid_link(l.south)
        &&& self.valid_link(l.east)
        &&& self.valid_link(l.west)
        &&& self.valid_link(l.up)
        &&& self.valid_link(l.down)
        &&& self.valid_link(l.inward)
        &&& self.valid_link(l.outward)
    }

    /// Does the entity fit into this world: it carries its own identity, what
    /// is somewhere is a thing with flags, a rule has flags, a guard does
    /// nothing but show messages, and whatever its components refer to is
    /// there.
    pub open spec fn valid_entity(self, id: ID) -> bool {
        let e = self.get(id);
        &&& e.id == id
        &&& e.loc is Some ==> e.thing is Some && e.flags is Some
        &&& e.prose is Some ==> self.valid_proses(e.prose->0)
        &&& e.links is Some ==> self.valid_links(e.links->0)
        &&& e.rule is Some ==> {
            &&& e.flags is Some
            &&& self.valid_condition(e.rule->0.predicate)
            &&& self.valid_script(e.rule->0.script)
            &&& e.rule->0.is_guard ==> only_prints(e.rule->0.script)
        }
    }

    /// Can the custom command be carried out?
    pub open spec fn valid_handler(self, h: HandlerView) -> bool {
        self.valid_condition(h.hook.when) && self.valid_script(h.hook.script)
    }

    /// Is the world well shaped: limbo and the player stand first, no tag
    /// occurs twice, and every entity and custom command fits? This depends
    /// only on which components the entities have and on what the fixed ones
    /// hold.
    pub open spec fn well_shaped(self) -> bool {
        &&& self.entities.len() >= 2
        &&& self.pid == PLAYER
        &&& self.get(LIMBO).inventory is Some
        &&& self.get(LIMBO).loc is None
        &&& self.get(PLAYER).loc is Some
        &&& self.get(PLAYER).inventory is Some
        &&& self.get(PLAYER).player
        &&& forall|i: ID, j: ID|
            self.has(i) && self.has(j) && i != j ==> (#[trigger] self.get(i)).tag != (
            #[trigger] self.get(j)).tag
        &&& forall|i: ID| self.has(i) ==> #[trigger] self.valid_entity(i)
        &&& forall|k: int|
            0 <= k < self.handlers.len() ==> self.valid_handler(#[trigger] self.handlers[k])
    }

    /// Do locations and inventories agree: whatever is somewhere is in the
    /// inventory of that place, and whatever is in an inventory is located
    /// there?
    pub open spec fn places_agree(self) -> bool {
        &&& forall|e: ID| (#[trigger] self.loc_of(e)) is Some ==> self.owns(self.loc_of(e)->0, e)
        &&& forall|c: ID, e: ID| #[trigger] self.owns(c, e) ==> self.loc_of(e) == Some(c)
    }

    /// The world without what changes while the game is played.
    pub open spec fn frame(self) -> WorldView {
        WorldView {
            entities: Seq::new(self.entities.len(), |i: int| self.entities[i].frame()),
            pid: self.pid,
            clock: 0,
            handlers: self.handlers,
        }
    }

    /// Is the world sound: well shaped, with every entity in exactly the
    /// inventory that its location names?
    pub open spec fn wf(self) -> bool {
        self.frame().well_shaped() && self.places_agree()
    }
}

impl WorldView {
    /// The world in which nothing has been built yet: limbo, and in it the
    /// player.
    pub open spec fn initial() -> WorldView {
        WorldView {
            entities: seq![
                EntityView {
                    inventory: Some(set![PLAYER]),
                    ..EntityView::bare(LIMBO, "LIMBO"@)
                },
                EntityView {
                    name: Some("Yourself"@),
                    loc: Some(LIMBO),
                    thing: Some(ThingView { portable: false, noun: "self"@ }),
                    inventory: Some(Set::<ID>::empty()),
                    flags: Some(set![FlagView::Scenery]),
                    player: true,
                    ..EntityView::bare(PLAYER, "PLAYER"@)
                },
            ],
            pid: PLAYER,
            clock: 0,
            handlers: Seq::<HandlerView>::empty(),
        }
    }

    /// The world with one more entity, which has the tag and no component.
    pub open spec fn allocate(self, tag: Text) -> WorldView {
        WorldView {
            entities: self.entities.push(EntityView::bare(self.entities.len() as ID, tag)),
            ..self
        }
    }

    /// Can the world be built on: limbo and the player are there, and
    /// locations and inventories agree?
    pub open spec fn buildable(self) -> bool {
        &&& self.entities.len() >= 2
        &&& self.pid == PLAYER
        &&& self.get(LIMBO).inventory is Some
        &&& self.places_agree()
    }
}

/// Whether a condition can be evaluated depends only on the frame.
pub proof fn lemma_frame_condition(w: WorldView, c: ConditionView)
    ensures
        w.frame().valid_condition(c) == w.valid_condition(c),
    decreases c,
{
    match c {
        ConditionView::Not(c) => {
            lemma_frame_condition(w, *c);
        },
        ConditionView::And(a, b) => {
            lemma_frame_condition(w, *a);
            lemma_frame_condition(w, *b);
        },
        _ => {},
    }
}

/// Whether the world is well shaped depends only on its frame.
pub proof fn lemma_frame_well_shaped(w: WorldView)
    ensures
        w.frame().well_shaped() == w.well_shaped(),
{
    let f = w.frame();
    assert forall|id: ID| w.has(id) implies f.valid_entity(id) == w.valid_entity(id) by {
        let e = w.get(id);
        if e.prose is Some {
            let p = e.prose->0;
            lemma_frame_prose(w, p.room);
            lemma_frame_prose(w, p.thing);
            lemma_frame_prose(w, p.book);
            lemma_frame_prose(w, p.scenery);
        }
        if e.rule is Some {
            lemma_frame_condition(w, e.rule->0.predicate);
        }
    }
    assert forall|k: int| 0 <= k < w.handlers.len() implies f.valid_handler(w.handlers[k])
        == w.valid_handler(w.handlers[k]) by {
        lemma_frame_condition(w, w.handlers[k].hook.when);
    }
    if w.well_shaped() {
        assert forall|i: ID| f.has(i) implies #[trigger] f.valid_entity(i) by {
        }
        assert forall|i: ID, j: ID| f.has(i) && f.has(j) && i != j implies (#[trigger] f.get(
            i,
        )).tag != (#[trigger] f.get(j)).tag by {
            assert(w.get(i).tag != w.get(j).tag);
        }
    }
    if f.well_shaped() {
        assert forall|i: ID| w.has(i) implies #[trigger] w.valid_entity(i) by {
        }
        assert forall|i: ID, j: ID| w.has(i) && w.has(j) && i != j implies (#[trigger] w.get(
            i,
        )).tag != (#[trigger] w.get(j)).tag by {
        }
        assert forall|k: int| 0 <= k < w.handlers.len() implies w.valid_handler(
            #[trigger] w.handlers[k],
        ) by {
            assert(f.valid_handler(f.handlers[k]));
        }
    }
}

/// Whether prose can be resolved depends only on the frame.
pub proof fn lemma_frame_prose(w: WorldView, p: Option<ProseView>)
    ensures
        w.frame().valid_prose(p) == w.valid_prose(p),
{
    match p {
        Some(ProseView::Hook(hook)) => {
            lemma_frame_condition(w, hook.when);
        },
        _ => {},
    }
}

/// Worlds with the same frame have the same entities with the same
/// components.
pub proof fn lemma_frame_flags(a: WorldView, b: WorldView, id: ID)
    requires
        a.frame() == b.frame(),
    ensures
        a.has_flags(id) == b.has_flags(id),
        a.has_loc(id) == b.has_loc(id),
        a.has_inv(id) == b.has_inv(id),
        a.has(id) == b.has(id),
        a.entities.len() == b.entities.len(),
        a.is_room(id) == b.is_room(id),
{
    assert(a.frame().entities.len() == a.entities.len());
    if a.has(id) {
        assert(a.frame().get(id) == a.get(id).frame());
    }
}

/// A sound world is well shaped.
pub proof fn lemma_wf_well_shaped(w: WorldView)
    requires
        w.wf(),
    ensures
        w.well_shaped(),
{
    lemma_frame_well_shaped(w);
}

/// Setting or clearing a flag keeps a sound world sound.
pub proof fn lemma_with_flags_wf(w: WorldView, id: ID, flags: Set<FlagView>)
    requires
        w.wf(),
        w.has_flags(id),
    ensures
        w.with_flags(id, flags).wf(),
        w.with_flags(id, flags).frame() == w.frame(),
{
    let v = w.with_flags(id, flags);
    assert(v.frame() =~~= w.frame());
    assert forall|e: ID| (#[trigger] v.loc_of(e)) is Some implies v.owns(v.loc_of(e)->0, e) by {
        assert(w.loc_of(e) is Some);
    }
    assert forall|c: ID, e: ID| #[trigger] v.owns(c, e) implies v.loc_of(e) == Some(c) by {
        assert(w.owns(c, e));
    }
}

impl World {
    /// Is the world sound?
    pub open spec fn wf(&self) -> bool {
        self@.wf()
    }

    /// The world in which nothing has been built yet: limbo, and in it the
    /// player.
    pub fn new() -> (w: World)
        ensures
            w@ == WorldView::initial(),
            w.wf(),
    {
        let mut limbo = Entity::bare(LIMBO, "LIMBO");
        let mut held = InventoryComponent::new();
        held.add(PLAYER);
        limbo.inventory = Some(held);
        let mut player = Entity::bare(PLAYER, "PLAYER");
        player.name = Some("Yourself".to_owned());
        player.loc = Some(LIMBO);
        player.thing = Some(ThingComponent::new("self", false));
        player.inventory = Some(InventoryComponent::new());
        let mut flags = FlagSetComponent::new();
        flags.set(Flag::Scenery);
        player.flags = Some(flags);
        player.player = Some(PlayerComponent::new());
        let mut entities: Vec<Entity> = Vec::new();
        entities.push(limbo);
        entities.push(player);
        let w = World { entities, pid: PLAYER, clock: 0, command_handlers: Vec::new() };
        proof {
            reveal_strlit("LIMBO");
            reveal_strlit("PLAYER");
            assert("LIMBO"@.len() != "PLAYER"@.len());
        }
        w
    }

    /// The identity of the entity with the tag, if there is one.
    pub fn lookup(&self, tag: &str) -> (r: Option<ID>)
        ensures
            r == self@.lookup(tag@),
    {
        let wanted = tag.to_owned();
        let ghost p = |id: ID| self@.tagged(tag@, id);
        let mut i: usize = 0;
        while i < self.entities.len()
            invariant
                i <= self.entities@.len(),
                wanted@ == tag@,
                p == (|id: ID| self@.tagged(tag@, id)),
                forall|j: ID| j < i ==> !#[trigger] p(j),
            decreases self.entities@.len() - i,
        {
            if self.entities[i].tag == wanted {
                proof {
                    lemma_least_some(p, i);
                }
                return Some(i);
            }
            i += 1;
        }
        proof {
            assert forall|id: ID| !#[trigger] p(id) by {
            }
        }
        None
    }

    /// Adds an entity with the tag and no component, and returns its
    /// identity. Where an entity has the tag already, nothing is added.
    pub fn allocate(&mut self, tag: &str) -> (r: Option<ID>)
        ensures
            old(self)@.lookup(tag@) is Some ==> r is None && final(self)@ == old(self)@,
            old(self)@.lookup(tag@) is None ==> r == Some(old(self)@.entities.len() as ID)
                && final(self)@ == old(self)@.allocate(tag@),
    {
        match self.lookup(tag) {
            Some(_) => None,
            None => {
                let id = self.entities.len();
                self.entities.push(Entity::bare(id, tag));
                Some(id)
            },
        }
    }

    /// The number of entities.
    pub fn len(&self) -> (r: usize)
        ensures
            r == self@.entities.len(),
    {
        self.entities.len()
    }

    /// The tag of the entity.
    pub fn tag(&self, id: ID) -> (r: String)
        requires
            self@.has(id),
        ensures
            r@ == self@.get(id).tag,
    {
        self.entities[id].tag.clone()
    }

    /// Is the entity a room?
    pub fn is_room(&self, id: ID) -> (r: bool)
        ensures
            r == self@.is_room(id),
    {
        id < self.entities.len() && self.entities[id].is_room()
    }

    /// Is the entity a thing?
    pub fn is_thing(&self, id: ID) -> (r: bool)
        ensures
            r == self@.is_thing(id),
    {
        id < self.entities.len() && self.entities[id].is_thing()
    }

    /// Is the entity a rule?
    pub fn is_rule(&self, id: ID) -> (r: bool)
        ensures
            r == (self@.has(id) && self@.get(id).is_rule()),
    {
        id < self.entities.len() && self.entities[id].is_rule()
    }

    /// Is the entity a player?
    pub fn is_player(&self, id: ID) -> (r: bool)
        ensures
            r == (self@.has(id) && self@.get(id).player),
    {
        id < self.entities.len() && self.entities[id].player.is_some()
    }

    /// Does the entity have an inventory component?
    pub fn has_inventory(&self, id: ID) -> (r: bool)
        ensures
            r == self@.has_inv(id),
    {
        id < self.entities.len() && self.entities[id].inventory.is_some()
    }

    /// Does the entity have a location component?
    pub fn has_location(&self, id: ID) -> (r: bool)
        ensures
            r == self@.has_loc(id),
    {
        id < self.entities.len() && self.entities[id].loc.is_some()
    }

    /// Does the entity have a flag set component?
    pub fn has_flag_set(&self, id: ID) -> (r: bool)
        ensures
            r == self@.has_flags(id),
    {
        id < self.entities.len() && self.entities[id].flags.is_some()
    }

    /// Does the entity have prose of the given kind?
    pub fn has_prose_type(&self, id: ID, kind: ProseType) -> (r: bool)
        ensures
            r == self@.has_prose_type(id, kind),
    {
        if id < self.entities.len() {
            match &self.entities[id].prose {
                Some(p) => p.get(kind).is_some(),
                None => false,
            }
        } else {
            false
        }
    }

    /// Is the flag set on the entity?
    pub fn has_flag(&self, id: ID, flag: &Flag) -> (r: bool)
        requires
            self@.has_flags(id),
        ensures
            r == self@.has_flag(id, flag@),
    {
        match &self.entities[id].flags {
            Some(fs) => fs.has(flag),
            None => false,
        }
    }

    /// Sets the flag on the entity.
    pub fn set_flag(&mut self, id: ID, flag: Flag)
        requires
            old(self)@.has_flags(id),
        ensures
            final(self)@ == old(self)@.set_flag(id, flag@),
            old(self).wf() ==> final(self).wf(),
    {
        match &mut self.entities[id].flags {
            Some(fs) => {
                fs.set(flag);
            },
            None => {},
        }
        proof {
            assert(self@ =~~= old(self)@.set_flag(id, flag@));
            if old(self).wf() {
                lemma_with_flags_wf(old(self)@, id, old(self)@.flags(id).insert(flag@));
            }
        }
    }

    /// Clears the flag on the entity.
    pub fn clear_flag(&mut self, id: ID, flag: &Flag)
        requires
            old(self)@.has_flags(id),
        ensures
            final(self)@ == old(self)@.clear_flag(id, flag@),
            old(self).wf() ==> final(self).wf(),
    {
        match &mut self.entities[id].flags {
            Some(fs) => {
                fs.clear(flag);
            },
            None => {},
        }
        proof {
            if old(self).wf() {
                lemma_with_flags_wf(old(self)@, id, old(self)@.flags(id).remove(flag@));
            }
        }
    }

    /// Does the condition hold in this world?
    pub fn holds(&self, c: &Condition) -> (r: bool)
        requires
            self@.valid_condition(c@),
        ensures
            r == self@.holds(c@),
        decreases c,
    {
        match c {
            Condition::Always => true,
            Condition::HasFlag(id, flag) => self.has_flag(*id, flag),
            Condition::ClockIs(n) => self.clock == *n,
            Condition::Owns(container, thing) => {
                match &self.entities[*container].inventory {
                    Some(inv) => inv.has(*thing),
                    None => false,
                }
            },
            Condition::Not(c) => !self.holds(c),
            Condition::And(a, b) => self.holds(a) && self.holds(b),
        }
    }
}

impl World {
    /// Can the condition be evaluated in this world?
    pub fn valid_condition(&self, c: &Condition) -> (r: bool)
        ensures
            r == self@.valid_condition(c@),
        decreases c,
    {
        match c {
            Condition::Always => true,
            Condition::HasFlag(id, flag) => self.has_flag_set(*id),
            Condition::ClockIs(n) => true,
            Condition::Owns(container, thing) => self.has_inventory(*container),
            Condition::Not(c) => self.valid_condition(c),
            Condition::And(a, b) => self.valid_condition(a) && self.valid_condition(b),
        }
    }

    /// Can the action be applied in this world?
    pub fn valid_action(&self, a: &Action) -> (r: bool)
        ensures
            r == self@.valid_action(a@),
    {
        match a {
            Action::Print(text) => true,
            Action::SetFlag(id, flag) => self.has_flag_set(*id) && !flag.is_reserved(),
            Action::ClearFlag(id, flag) => self.has_flag_set(*id) && !flag.is_reserved(),
            Action::PutIn(thing, container) => self.has_location(*thing) && self.has_inventory(
                *container,
            ),
            Action::Forget(thing) => self.has_location(*thing),
            Action::Kill(id) => self.has_flag_set(*id),
            Action::Revive(id) => self.has_flag_set(*id),
        }
    }

    /// Can each action of the script be applied in this world?
    pub fn valid_script(&self, script: &Script) -> (r: bool)
        ensures
            r == self@.valid_script(script@),
    {
        let mut i: usize = 0;
        while i < script.actions.len()
            invariant
                i <= script.actions@.len(),
                forall|j: int| 0 <= j < i ==> self@.valid_action(#[trigger] script@[j]),
            decreases script.actions@.len() - i,
        {
            if !self.valid_action(&script.actions[i]) {
                assert(!self@.valid_action(script@[i as int]));
                return false;
            }
            i += 1;
        }
        true
    }

    /// Can the prose be resolved in this world?
    fn valid_prose(&self, p: &Option<Prose>) -> (r: bool)
        ensures
            r == self@.valid_prose(opt_view(*p)),
    {
        match p {
            Some(Prose::Hook(hook)) => self.valid_condition(&hook.when),
            _ => true,
        }
    }

    /// Does the link, if it leads to an entity, lead to a room?
    fn valid_link(&self, d: &Option<LinkDest>) -> (r: bool)
        ensures
            r == self@.valid_link(opt_view(*d)),
    {
        match d {
            Some(LinkDest::Room(room)) => self.is_room(*room),
            _ => true,
        }
    }

    /// Does the entity fit into this world?
    pub fn valid_entity(&self, id: ID) -> (r: bool)
        requires
            self@.has(id),
        ensures
            r == self@.valid_entity(id),
    {
        let e = &self.entities[id];
        if e.id != id {
            return false;
        }
        if e.loc.is_some() && !(e.thing.is_some() && e.flags.is_some()) {
            return false;
        }
        match &e.prose {
            Some(p) => {
                if !(self.valid_prose(&p.room) && self.valid_prose(&p.thing) && self.valid_prose(
                    &p.book,
                ) && self.valid_prose(&p.scenery)) {
                    return false;
                }
            },
            None => {},
        }
        match &e.links {
            Some(l) => {
                if !(self.valid_link(&l.north) && self.valid_link(&l.south) && self.valid_link(
                    &l.east,
                ) && self.valid_link(&l.west) && self.valid_link(&l.up) && self.valid_link(
                    &l.down,
                ) && self.valid_link(&l.inward) && self.valid_link(&l.outward)) {
                    return false;
                }
            },
            None => {},
        }
        match &e.rule {
            Some(rule) => {
                if !(e.flags.is_some() && self.valid_condition(&rule.predicate)
                    && self.valid_script(&rule.script)) {
                    return false;
                }
                if rule.is_guard && !rule.script.only_prints() {
                    return false;
                }
            },
            None => {},
        }
        true
    }

    /// Does no tag occur twice?
    fn tags_differ(&self) -> (r: bool)
        ensures
            r == (forall|i: ID, j: ID|
                self@.has(i) && self@.has(j) && i != j ==> (#[trigger] self@.get(i)).tag != (
                #[trigger] self@.get(j)).tag),
    {
        let n = self.entities.len();
        let mut i: usize = 0;
        while i < n
            invariant
                i <= n,
                n == self@.entities.len(),
                forall|a: ID, b: ID|
                    a < i && b < a ==> (#[trigger] self@.get(a)).tag != (#[trigger] self@.get(
                        b,
                    )).tag,
            decreases n - i,
        {
            let mut j: usize = 0;
            while j < i
                invariant
                    j <= i,
                    i < n,
                    n == self@.entities.len(),
                    forall|b: ID| b < j ==> self@.get(i).tag != (#[trigger] self@.get(b)).tag,
                decreases i - j,
            {
                if self.entities[i].tag == self.entities[j].tag {
                    assert(self@.get(i).tag == self@.get(j).tag);
                    return false;
                }
                j += 1;
            }
            i += 1;
        }
        proof {
            assert forall|a: ID, b: ID| self@.has(a) && self@.has(b) && a != b implies (
            #[trigger] self@.get(a)).tag != (#[trigger] self@.get(b)).tag by {
            }
        }
        true
    }

    /// Does every entity fit into this world?
    fn entities_valid(&self) -> (r: bool)
        ensures
            r == (forall|i: ID| self@.has(i) ==> #[trigger] self@.valid_entity(i)),
    {
        let n = self.entities.len();
        let mut i: usize = 0;
        while i < n
            invariant
                i <= n,
                n == self@.entities.len(),
                forall|a: ID| a < i ==> #[trigger] self@.valid_entity(a),
            decreases n - i,
        {
            if !self.valid_entity(i) {
                return false;
            }
            i += 1;
        }
        true
    }

    /// Can every custom command be carried out?
    fn handlers_valid(&self) -> (r: bool)
        ensures
            r == (forall|k: int|
                0 <= k < self@.handlers.len() ==> self@.valid_handler(
                    #[trigger] self@.handlers[k],
                )),
    {
        let n = self.command_handlers.len();
        let mut i: usize = 0;
        while i < n
            invariant
                i <= n,
                n == self@.handlers.len(),
                forall|k: int| 0 <= k < i ==> self@.valid_handler(#[trigger] self@.handlers[k]),
            decreases n - i,
        {
            let h = &self.command_handlers[i];
            if !(self.valid_condition(&h.hook.when) && self.valid_script(&h.hook.script)) {
                assert(!self@.valid_handler(self@.handlers[i as int]));
                return false;
            }
            i += 1;
        }
        true
    }

    /// Is the world well shaped?
    pub fn is_well_shaped(&self) -> (r: bool)
        ensures
            r == self@.well_shaped(),
            r == self@.frame().well_shaped(),
    {
        proof {
            lemma_frame_well_shaped(self@);
        }
        if self.entities.len() < 2 || self.pid != PLAYER {
            return false;
        }
        let limbo = &self.entities[LIMBO];
        let player = &self.entities[PLAYER];
        if !(limbo.inventory.is_some() && limbo.loc.is_none()) {
            return false;
        }
        if !(player.loc.is_some() && player.inventory.is_some() && player.player.is_some()) {
            return false;
        }
        self.tags_differ() && self.entities_valid() && self.handlers_valid()
    }
}

impl World {
    /// Is everything that the entity holds located in it?
    fn holds_its_own(&self, c: ID) -> (r: bool)
        requires
            self@.has(c),
        ensures
            r == (forall|e: ID| #[trigger] self@.owns(c, e) ==> self@.loc_of(e) == Some(c)),
    {
        match &self.entities[c].inventory {
            Some(inv) => {
                let held = inv.members();
                let mut i: usize = 0;
                while i < held.len()
                    invariant
                        i <= held@.len(),
                        held@.to_set() == self@.contents(c),
                        self@.has_inv(c),
                        forall|j: int| 0 <= j < i ==> self@.loc_of(#[trigger] held@[j]) == Some(c),
                    decreases held@.len() - i,
                {
                    let e = held[i];
                    let here = e < self.entities.len() && match self.entities[e].loc {
                        Some(d) => d == c,
                        None => false,
                    };
                    if !here {
                        assert(self@.owns(c, e));
                        return false;
                    }
                    i += 1;
                }
                proof {
                    assert forall|e: ID| #[trigger] self@.owns(c, e) implies self@.loc_of(e)
                        == Some(c) by {
                    }
                }
                true
            },
            None => true,
        }
    }

    /// Do locations and inventories agree?
    pub fn places_agree(&self) -> (r: bool)
        ensures
            r == self@.places_agree(),
    {
        let n = self.entities.len();
        let mut i: usize = 0;
        while i < n
            invariant
                i <= n,
                n == self@.entities.len(),
                forall|e: ID|
                    e < i && (#[trigger] self@.loc_of(e)) is Some ==> self@.owns(
                        self@.loc_of(e)->0,
                        e,
                    ),
                forall|c: ID, e: ID|
                    c < i && #[trigger] self@.owns(c, e) ==> self@.loc_of(e) == Some(c),
            decreases n - i,
        {
            match self.entities[i].loc {
                Some(c) => {
                    let held = c < n && match &self.entities[c].inventory {
                        Some(inv) => inv.has(i),
                        None => false,
                    };
                    if !held {
                        assert(self@.loc_of(i) is Some);
                        return false;
                    }
                },
                None => {},
            }
            if !self.holds_its_own(i) {
                return false;
            }
            i += 1;
        }
        true
    }

    /// Is the world sound?
    pub fn is_sound(&self) -> (r: bool)
        ensures
            r == self.wf(),
    {
        self.is_well_shaped() && self.places_agree()
    }
}

impl Clone for World {
    fn clone(&self) -> (r: World)
        ensures
            r@ == self@,
    {
        let entities = self.entities.clone();
        let command_handlers = self.command_handlers.clone();
        let r = World { entities, pid: self.pid, clock: self.clock, command_handlers };
        r
    }
}

} // verus!
