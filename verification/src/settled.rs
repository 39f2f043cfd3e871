//! What stays true of a world while it is built: a builder that starts
//! settled stays settled, and a settled builder whose expectations are met is
//! ready.

use crate::entity::EntityView;
use crate::least::lemma_least_exists;
use crate::least::lemma_least_some;
use crate::phys::lemma_put_in_places;
use crate::player_control::HandlerView;
use crate::types::ActionView;
use crate::types::ConditionView;
use crate::types::Dir;
use crate::types::Event;
use crate::types::FlagView;
use crate::types::ID;
use crate::types::LinkDestView;
use crate::types::LinksView;
use crate::types::ProseComponentView;
use crate::types::ProseType;
use crate::types::ProseView;
use crate::types::RuleView;
use crate::types::Text;
use crate::types::ThingView;
use crate::world::lemma_frame_well_shaped;
use crate::world::only_prints;
use crate::world::LIMBO;
use crate::world::PLAYER;
use crate::world::WorldView;
use crate::world_builder::fresh_rule;
use crate::world_builder::lemma_add_location_places;
use crate::world_builder::lemma_allocate_places;
use crate::world_builder::lemma_entity_id;
use crate::world_builder::lemma_with_places;
use crate::world_builder::BuilderView;
use crate::world_builder::Is;
use crate::world_builder::WBEventView;
use vstd::prelude::*;

verus! {

impl EntityView {
    /// Is `later` this entity with, at most, more to it: the same identity and
    /// tag, and every component and every kind of prose that this one has?
    pub open spec fn within(self, later: EntityView) -> bool {
        &&& later.id == self.id
        &&& later.tag == self.tag
        &&& self.name is Some ==> later.name is Some
        &&& self.loc is Some ==> later.loc is Some
        &&& self.links is Some ==> later.links is Some
        &&& self.thing is Some ==> later.thing is Some
        &&& self.inventory is Some ==> later.inventory is Some
        &&& self.flags is Some ==> later.flags is Some
        &&& self.player ==> later.player
        &&& self.prose is Some ==> {
            &&& later.prose is Some
            &&& self.prose->0.room is Some ==> later.prose->0.room is Some
            &&& self.prose->0.thing is Some ==> later.prose->0.thing is Some
            &&& self.prose->0.book is Some ==> later.prose->0.book is Some
            &&& self.prose->0.scenery is Some ==> later.prose->0.scenery is Some
        }
    }
}

impl WorldView {
    /// Has this world grown into the later one: is every entity still there,
    /// with at most more to it, and has no turn passed?
    pub open spec fn grows_into(self, later: WorldView) -> bool {
        &&& self.entities.len() <= later.entities.len()
        &&& self.pid == later.pid
        &&& self.clock == later.clock
        &&& forall|i: ID| self.has(i) ==> self.get(i).within(#[trigger] later.get(i))
    }

    /// Is every rule of this world the same rule in the later one?
    pub open spec fn rules_kept(self, later: WorldView) -> bool {
        forall|i: ID| self.has(i) ==> (#[trigger] later.get(i)).rule == self.get(i).rule
    }

    /// Does no tag occur twice?
    pub open spec fn tags_differ(self) -> bool {
        forall|i: ID, j: ID|
            self.has(i) && self.has(j) && i != j ==> (#[trigger] self.get(i)).tag != (
            #[trigger] self.get(j)).tag
    }
}

impl BuilderView {
    /// Is the expectation noted?
    pub open spec fn expects(self, x: Is) -> bool {
        self.expectations.contains(x)
    }

    /// Does the link lead to a room, or to what is expected to be one?
    pub open spec fn link_settled(self, d: Option<LinkDestView>) -> bool {
        match d {
            Some(LinkDestView::Room(room)) => self.world.is_room(room) || self.expects(
                Is::Room(room),
            ),
            _ => true,
        }
    }

    /// Does each link lead to a room, to what is expected to be one, or to a
    /// dead end?
    pub open spec fn links_settled(self, l: LinksView) -> bool {
        &&& self.link_settled(l.north)
        &&& self.link_settled(l.south)
        &&& self.link_settled(l.east)
        &&& self.link_settled(l.west)
        &&& self.link_settled(l.up)
        &&& self.link_settled(l.down)
        &&& self.link_settled(l.inward)
        &&& self.link_settled(l.outward)
    }

    /// Does the entity fit into the world as far as that is built: as it must
    /// in a sound world, but that a link may lead to what is only expected to
    /// be a room?
    pub open spec fn sane(self, id: ID) -> bool {
        let w = self.world;
        let e = w.get(id);
        &&& e.id == id
        &&& e.loc is Some ==> e.thing is Some && e.flags is Some
        &&& e.prose is Some ==> w.valid_proses(e.prose->0)
        &&& e.links is Some ==> self.links_settled(e.links->0)
        &&& e.rule is Some ==> {
            &&& e.flags is Some
            &&& w.valid_condition(e.rule->0.predicate)
            &&& w.valid_script(e.rule->0.script)
            &&& e.rule->0.is_guard ==> only_prints(e.rule->0.script)
        }
    }

    /// Is the builder settled: can it be built on, with room for `n` entities
    /// at most, and is its world sound but for what is expected of entities
    /// that are yet to be built?
    pub open spec fn settled(self, n: nat) -> bool {
        let w = self.world;
        &&& w.buildable()
        &&& w.entities.len() <= n
        &&& n < 0x1000_0000
        &&& w.get(LIMBO).loc is None
        &&& w.get(PLAYER).loc is Some
        &&& w.get(PLAYER).inventory is Some
        &&& w.get(PLAYER).player
        &&& w.tags_differ()
        &&& forall|i: ID| w.has(i) ==> #[trigger] self.sane(i)
        &&& forall|k: int| 0 <= k < w.handlers.len() ==> w.valid_handler(#[trigger] w.handlers[k])
    }

    /// Is every expectation met?
    pub open spec fn all_met(self) -> bool {
        forall|k: int|
            0 <= k < self.expectations.len() ==> self.world.meets(#[trigger] self.expectations[k])
    }
}

/// A settled builder whose expectations are met is ready.
pub proof fn lemma_settled_ready(b: BuilderView, n: nat)
    requires
        b.settled(n),
        b.all_met(),
    ensures
        b.ready(),
{
    let w = b.world;
    assert forall|i: ID| w.has(i) implies #[trigger] w.valid_entity(i) by {
        assert(b.sane(i));
    }
    lemma_frame_well_shaped(w);
}

/// What can be evaluated in a world can be evaluated in the world into which
/// it grows.
pub proof fn lemma_grown_condition(a: WorldView, b: WorldView, c: ConditionView)
    requires
        a.grows_into(b),
        a.valid_condition(c),
    ensures
        b.valid_condition(c),
    decreases c,
{
    match c {
        ConditionView::HasFlag(id, flag) => {
        },
        ConditionView::Owns(container, thing) => {
        },
        ConditionView::Not(c) => {
            lemma_grown_condition(a, b, *c);
        },
        ConditionView::And(x, y) => {
            lemma_grown_condition(a, b, *x);
            lemma_grown_condition(a, b, *y);
        },
        _ => {},
    }
}

/// Prose that can be resolved in a world can be resolved in the world into
/// which it grows.
pub proof fn lemma_grown_prose(a: WorldView, b: WorldView, p: Option<ProseView>)
    requires
        a.grows_into(b),
        a.valid_prose(p),
    ensures
        b.valid_prose(p),
{
    match p {
        Some(ProseView::Hook(hook)) => {
            lemma_grown_condition(a, b, hook.when);
        },
        _ => {},
    }
}

/// What an entity is in a world it is in the world into which that grows.
pub proof fn lemma_grown_meets(a: WorldView, b: WorldView, x: Is)
    requires
        a.grows_into(b),
        a.meets(x),
    ensures
        b.meets(x),
{
    match x {
        Is::Book(id) => {
        },
        Is::Player(id) => {
        },
        Is::Room(id) => {
        },
        Is::Thing(id) => {
        },
    }
}

/// A tag names the same entity in the world into which a world grows, as long
/// as no tag occurs twice there.
pub proof fn lemma_grown_lookup(a: WorldView, b: WorldView, tag: Text)
    requires
        a.grows_into(b),
        b.tags_differ(),
        a.lookup(tag) is Some,
    ensures
        b.lookup(tag) == a.lookup(tag),
{
    let id = a.lookup(tag)->0;
    assert(a.get(id).within(b.get(id)));
    let p = |id: ID| b.tagged(tag, id);
    assert forall|j: ID| j < id implies !#[trigger] p(j) by {
    }
    lemma_least_some(p, id);
}

/// Growing carries over from one step to the next.
pub proof fn lemma_grows_on(a: WorldView, b: WorldView, c: WorldView)
    requires
        a.grows_into(b),
        b.grows_into(c),
    ensures
        a.grows_into(c),
{
    assert forall|i: ID| a.has(i) implies a.get(i).within(#[trigger] c.get(i)) by {
    }
}

impl BuilderView {
    /// Does the entity keep, from the earlier builder to this one, what must
    /// fit into the world, or has that been replaced by what fits: its
    /// prose, its links and its rule?
    pub open spec fn keeps(self, earlier: BuilderView, id: ID) -> bool {
        let e = earlier.world.get(id);
        let f = self.world.get(id);
        &&& f.loc is Some ==> f.thing is Some && f.flags is Some
        &&& f.prose is Some ==> f.prose == e.prose || self.world.valid_proses(f.prose->0)
        &&& f.links is Some ==> f.links == e.links || self.links_settled(f.links->0)
        &&& f.rule is Some ==> f.rule == e.rule || {
            &&& self.world.valid_condition(f.rule->0.predicate)
            &&& self.world.valid_script(f.rule->0.script)
            &&& f.rule->0.is_guard ==> only_prints(f.rule->0.script)
        }
        &&& f.rule is Some ==> f.flags is Some
    }
}

/// An entity that fits stays fitting while the world grows around it, as long
/// as it keeps what must fit and no expectation is dropped.
pub proof fn lemma_grown_sane(x: BuilderView, y: BuilderView, id: ID)
    requires
        x.world.has(id),
        x.sane(id),
        x.world.grows_into(y.world),
        forall|e: Is| x.expects(e) ==> y.expects(e),
        y.keeps(x, id),
    ensures
        y.sane(id),
{
    let a = x.world;
    let b = y.world;
    let e = a.get(id);
    if e.prose is Some {
        let p = e.prose->0;
        lemma_grown_prose(a, b, p.room);
        lemma_grown_prose(a, b, p.thing);
        lemma_grown_prose(a, b, p.book);
        lemma_grown_prose(a, b, p.scenery);
    }
    if e.rule is Some {
        lemma_grown_condition(a, b, e.rule->0.predicate);
    }
}

/// A custom command that can be carried out in a world can be carried out in
/// the world into which it grows.
pub proof fn lemma_grown_handler(a: WorldView, b: WorldView, h: HandlerView)
    requires
        a.grows_into(b),
        a.valid_handler(h),
    ensures
        b.valid_handler(h),
{
    lemma_grown_condition(a, b, h.hook.when);
}

/// One step of building keeps the builder settled: the world grows, places
/// agree, no tag occurs twice, limbo is nowhere, no expectation is dropped,
/// every old entity keeps what must fit, every new entity fits, and the
/// custom commands can be carried out.
pub proof fn lemma_step(x: BuilderView, y: BuilderView, n: nat, m: nat)
    requires
        x.settled(n),
        x.world.grows_into(y.world),
        y.world.places_agree(),
        y.world.entities.len() <= m,
        m < 0x1000_0000,
        y.world.get(LIMBO).loc is None,
        y.world.get(LIMBO).inventory is Some,
        y.world.tags_differ(),
        forall|e: Is| x.expects(e) ==> y.expects(e),
        forall|i: ID| x.world.has(i) ==> #[trigger] y.keeps(x, i),
        forall|i: ID| y.world.has(i) && !x.world.has(i) ==> #[trigger] y.sane(i),
        forall|k: int|
            0 <= k < y.world.handlers.len() ==> y.world.valid_handler(
                #[trigger] y.world.handlers[k],
            ),
    ensures
        y.settled(m),
{
    assert forall|i: ID| y.world.has(i) implies #[trigger] y.sane(i) by {
        if x.world.has(i) {
            lemma_grown_sane(x, y, i);
        }
    }
}

/// Naming an entity keeps the builder settled. The tag then names the
/// entity, which is there.
pub proof fn lemma_named(x: BuilderView, tag: Text, n: nat)
    requires
        x.settled(n),
        n + 1 < 0x1000_0000,
    ensures
        x.on(x.world.with_entity(tag)).settled(n + 1),
        x.world.grows_into(x.world.with_entity(tag)),
        x.world.with_entity(tag).has(x.world.entity_id(tag)),
        x.world.with_entity(tag).lookup(tag) == Some(x.world.entity_id(tag)),
        x.world.with_entity(tag).entity_id(tag) == x.world.entity_id(tag),
        x.world.with_entity(tag).with_entity(tag) == x.world.with_entity(tag),
        x.world.rules_kept(x.world.with_entity(tag)),
{
    let w = x.world;
    let v = w.with_entity(tag);
    let y = x.on(v);
    let id = w.entity_id(tag);
    lemma_entity_id(w, tag);
    if w.lookup(tag) is None {
        lemma_allocate_places(w, tag);
        assert forall|i: ID, j: ID| v.has(i) && v.has(j) && i != j implies (#[trigger] v.get(
            i,
        )).tag != (#[trigger] v.get(j)).tag by {
            if i == id {
                if w.tagged(tag, j) {
                    lemma_least_exists(|k: ID| w.tagged(tag, k), j);
                }
            } else if j == id {
                if w.tagged(tag, i) {
                    lemma_least_exists(|k: ID| w.tagged(tag, k), i);
                }
            } else {
                assert(w.get(i).tag != w.get(j).tag);
            }
        }
        assert forall|i: ID| w.has(i) implies #[trigger] y.keeps(x, i) by {
            assert(x.sane(i));
        }
        assert forall|k: int| 0 <= k < v.handlers.len() implies v.valid_handler(
            #[trigger] v.handlers[k],
        ) by {
            lemma_grown_handler(w, v, w.handlers[k]);
        }
        lemma_step(x, y, n, n + 1);
    }
}

/// Replacing an entity by one with at most more to it, which is in the same
/// place, holds the same things and keeps what must fit, keeps the builder
/// settled.
pub proof fn lemma_replaced(x: BuilderView, id: ID, f: EntityView, n: nat)
    requires
        x.settled(n),
        x.world.has(id),
        x.world.get(id).within(f),
        f.loc == x.world.get(id).loc,
        f.inventory == x.world.get(id).inventory || (x.world.get(id).inventory is None
            && f.inventory == Some(Set::<ID>::empty())),
        x.on(x.world.with(id, f)).keeps(x, id),
    ensures
        x.on(x.world.with(id, f)).settled(n),
        x.world.grows_into(x.world.with(id, f)),
{
    let w = x.world;
    let v = w.with(id, f);
    let y = x.on(v);
    lemma_with_places(w, id, f);
    assert forall|i: ID| w.has(i) implies w.get(i).within(#[trigger] v.get(i)) by {}
    assert forall|i: ID, j: ID| v.has(i) && v.has(j) && i != j implies (#[trigger] v.get(i)).tag
        != (#[trigger] v.get(j)).tag by {
    }
    assert forall|i: ID| w.has(i) implies #[trigger] y.keeps(x, i) by {
        assert(x.sane(i));
    }
    assert forall|k: int| 0 <= k < v.handlers.len() implies v.valid_handler(
        #[trigger] v.handlers[k],
    ) by {
        lemma_grown_handler(w, v, w.handlers[k]);
    }
    lemma_step(x, y, n, n);
}

/// Noting an expectation keeps the builder settled.
pub proof fn lemma_expected(x: BuilderView, e: Is, n: nat)
    requires
        x.settled(n),
    ensures
        x.expect(e).settled(n),
        x.expect(e).expects(e),
        forall|d: Is| x.expects(d) ==> x.expect(e).expects(d),
{
    let y = x.expect(e);
    assert(y.expectations[x.expectations.len() as int] == e);
    assert forall|d: Is| x.expects(d) implies y.expects(d) by {
        let k = choose|k: int| 0 <= k < x.expectations.len() && x.expectations[k] == d;
        assert(y.expectations[k] == d);
    }
    assert forall|i: ID| x.world.has(i) implies #[trigger] y.keeps(x, i) by {
        assert(x.sane(i));
    }
    lemma_step(x, y, n, n);
}

/// Adding a custom command that can be carried out keeps the builder
/// settled.
pub proof fn lemma_commanded(x: BuilderView, h: HandlerView, n: nat)
    requires
        x.settled(n),
        x.world.valid_handler(h),
    ensures
        x.command(h).settled(n),
        x.world.grows_into(x.command(h).world),
{
    let w = x.world;
    let y = x.command(h);
    let v = y.world;
    assert forall|i: ID| w.has(i) implies w.get(i).within(#[trigger] v.get(i)) by {}
    assert forall|e: ID| (#[trigger] v.loc_of(e)) is Some implies v.owns(v.loc_of(e)->0, e) by {
        assert(w.loc_of(e) is Some);
    }
    assert forall|c: ID, e: ID| #[trigger] v.owns(c, e) implies v.loc_of(e) == Some(c) by {
        assert(w.owns(c, e));
    }
    assert forall|i: ID, j: ID| v.has(i) && v.has(j) && i != j implies (#[trigger] v.get(i)).tag
        != (#[trigger] v.get(j)).tag by {
    }
    assert forall|i: ID| w.has(i) implies #[trigger] y.keeps(x, i) by {
        assert(x.sane(i));
    }
    assert forall|k: int| 0 <= k < v.handlers.len() implies v.valid_handler(
        #[trigger] v.handlers[k],
    ) by {
        if k < w.handlers.len() {
            lemma_grown_handler(w, v, w.handlers[k]);
        } else {
            lemma_grown_handler(w, v, h);
        }
    }
    lemma_step(x, y, n, n);
}

/// Giving limbo as its place to a thing with flags, other than limbo, that
/// has no place keeps the builder settled.
pub proof fn lemma_placed(x: BuilderView, id: ID, n: nat)
    requires
        x.settled(n),
        x.world.has(id),
        id != LIMBO,
        x.world.get(id).thing is Some,
        x.world.get(id).flags is Some,
    ensures
        x.on(x.world.add_location(id)).settled(n),
        x.world.grows_into(x.world.add_location(id)),
        x.world.add_location(id).has_loc(id),
{
    let w = x.world;
    let v = w.add_location(id);
    let y = x.on(v);
    lemma_add_location_places(w, id);
    if w.get(id).loc is None {
        assert forall|i: ID| w.has(i) implies w.get(i).within(#[trigger] v.get(i)) by {}
        assert forall|i: ID, j: ID| v.has(i) && v.has(j) && i != j implies (#[trigger] v.get(
            i,
        )).tag != (#[trigger] v.get(j)).tag by {
        }
        assert forall|i: ID| w.has(i) implies #[trigger] y.keeps(x, i) by {
            assert(x.sane(i));
        }
        assert forall|k: int| 0 <= k < v.handlers.len() implies v.valid_handler(
            #[trigger] v.handlers[k],
        ) by {
            lemma_grown_handler(w, v, w.handlers[k]);
        }
        lemma_step(x, y, n, n);
    } else {
        assert forall|i: ID| w.has(i) implies w.get(i).within(#[trigger] v.get(i)) by {}
    }
}

/// Moving a thing keeps the builder settled.
pub proof fn lemma_moved(x: BuilderView, thing: ID, place: ID, n: nat)
    requires
        x.settled(n),
        x.world.has_loc(thing),
        x.world.has_inv(place),
    ensures
        x.on(x.world.put_in(thing, place)).settled(n),
        x.world.grows_into(x.world.put_in(thing, place)),
{
    let w = x.world;
    let v = w.put_in(thing, place);
    let y = x.on(v);
    lemma_put_in_places(w, thing, place);
    assert(w.frame().entities.len() == w.entities.len());
    assert forall|i: ID| w.has(i) implies w.get(i).within(#[trigger] v.get(i)) && v.get(i).prose
        == w.get(i).prose && v.get(i).links == w.get(i).links && v.get(i).rule == w.get(i).rule
        && v.get(i).thing == w.get(i).thing && (v.get(i).loc is Some) == (w.get(i).loc is Some)
        && (v.get(i).flags is Some) == (w.get(i).flags is Some) by {
        assert(w.frame().get(i) == w.get(i).frame());
    }
    assert forall|i: ID, j: ID| v.has(i) && v.has(j) && i != j implies (#[trigger] v.get(i)).tag
        != (#[trigger] v.get(j)).tag by {
    }
    assert forall|i: ID| w.has(i) implies #[trigger] y.keeps(x, i) by {
        assert(x.sane(i));
    }
    assert forall|k: int| 0 <= k < v.handlers.len() implies v.valid_handler(
        #[trigger] v.handlers[k],
    ) by {
        lemma_grown_handler(w, v, w.handlers[k]);
    }
    lemma_step(x, y, n, n);
}

/// The builder that has built nothing yet is settled.
pub proof fn lemma_initial_settled()
    ensures
        BuilderView::initial().settled(2),
{
    reveal_strlit("LIMBO");
    reveal_strlit("PLAYER");
    assert("LIMBO"@.len() != "PLAYER"@.len());
}

/// Giving an entity a flag set, if it has none, keeps the builder settled.
pub proof fn lemma_flag_set_added(x: BuilderView, id: ID, n: nat)
    requires
        x.settled(n),
        x.world.has(id),
    ensures
        x.on(x.world.add_flag_set(id)).settled(n),
        x.world.grows_into(x.world.add_flag_set(id)),
        x.world.add_flag_set(id).has_flags(id),
        x.world.add_flag_set(id).entities.len() == x.world.entities.len(),
        x.world.rules_kept(x.world.add_flag_set(id)),
{
    let w = x.world;
    assert(x.sane(id));
    if w.get(id).flags is None {
        let f = EntityView { flags: Some(Set::<FlagView>::empty()), ..w.get(id) };
        lemma_replaced(x, id, f, n);
    }
}

/// Giving an entity an inventory, if it has none, keeps the builder
/// settled.
pub proof fn lemma_inventory_added(x: BuilderView, id: ID, n: nat)
    requires
        x.settled(n),
        x.world.has(id),
    ensures
        x.on(x.world.add_inventory(id)).settled(n),
        x.world.grows_into(x.world.add_inventory(id)),
        x.world.add_inventory(id).has_inv(id),
        x.world.add_inventory(id).entities.len() == x.world.entities.len(),
{
    let w = x.world;
    assert(x.sane(id));
    if w.get(id).inventory is None {
        let f = EntityView { inventory: Some(Set::<ID>::empty()), ..w.get(id) };
        lemma_replaced(x, id, f, n);
    }
}

/// Giving an entity a prose component, if it has none, keeps the builder
/// settled.
pub proof fn lemma_prose_component_added(x: BuilderView, id: ID, n: nat)
    requires
        x.settled(n),
        x.world.has(id),
    ensures
        x.on(x.world.add_prose_component(id)).settled(n),
        x.world.grows_into(x.world.add_prose_component(id)),
        x.world.add_prose_component(id).get(id).prose is Some,
        x.world.add_prose_component(id).has(id),
        x.world.add_prose_component(id).entities.len() == x.world.entities.len(),
{
    let w = x.world;
    assert(x.sane(id));
    if w.get(id).prose is None {
        let f = EntityView { prose: Some(ProseComponentView::empty()), ..w.get(id) };
        lemma_replaced(x, id, f, n);
    }
}

/// Giving an entity a name keeps the builder settled.
pub proof fn lemma_name_set(x: BuilderView, id: ID, name: Text, n: nat)
    requires
        x.settled(n),
        x.world.has(id),
    ensures
        x.on(x.world.with_name(id, name)).settled(n),
        x.world.grows_into(x.world.with_name(id, name)),
        x.world.with_name(id, name).get(id).name is Some,
        x.world.with_name(id, name).has(id),
        x.world.with_name(id, name).entities.len() == x.world.entities.len(),
{
    let w = x.world;
    assert(x.sane(id));
    let f = EntityView { name: Some(name), ..w.get(id) };
    lemma_replaced(x, id, f, n);
}

/// Giving an entity the details of a thing keeps the builder settled.
pub proof fn lemma_thing_set(x: BuilderView, id: ID, thing: ThingView, n: nat)
    requires
        x.settled(n),
        x.world.has(id),
    ensures
        x.on(x.world.with_thing(id, thing)).settled(n),
        x.world.grows_into(x.world.with_thing(id, thing)),
        x.world.with_thing(id, thing).get(id).thing is Some,
        x.world.with_thing(id, thing).has(id),
        x.world.with_thing(id, thing).entities.len() == x.world.entities.len(),
{
    let w = x.world;
    assert(x.sane(id));
    let f = EntityView { thing: Some(thing), ..w.get(id) };
    lemma_replaced(x, id, f, n);
}

/// Giving an entity links that are settled keeps the builder settled.
pub proof fn lemma_links_set(x: BuilderView, id: ID, links: LinksView, n: nat)
    requires
        x.settled(n),
        x.world.has(id),
        x.links_settled(links),
    ensures
        x.on(x.world.with_links(id, links)).settled(n),
        x.world.grows_into(x.world.with_links(id, links)),
        x.world.with_links(id, links).get(id).links is Some,
        x.world.with_links(id, links).has(id),
        x.world.with_links(id, links).entities.len() == x.world.entities.len(),
{
    let w = x.world;
    assert(x.sane(id));
    let f = EntityView { links: Some(links), ..w.get(id) };
    let v = w.with(id, f);
    assert forall|i: ID| w.has(i) implies w.get(i).within(#[trigger] v.get(i)) by {}
    lemma_replaced(x, id, f, n);
}

/// Making an entity with flags a rule that fits keeps the builder settled.
pub proof fn lemma_rule_set(x: BuilderView, id: ID, rule: RuleView, n: nat)
    requires
        x.settled(n),
        x.world.has_flags(id),
        x.world.valid_condition(rule.predicate),
        x.world.valid_script(rule.script),
        rule.is_guard ==> only_prints(rule.script),
    ensures
        x.on(x.world.with_rule(id, rule)).settled(n),
        x.world.grows_into(x.world.with_rule(id, rule)),
        x.world.with_rule(id, rule).get(id).rule == Some(rule),
        x.world.with_rule(id, rule).has_flags(id),
        x.world.with_rule(id, rule).entities.len() == x.world.entities.len(),
{
    let w = x.world;
    assert(x.sane(id));
    let f = EntityView { rule: Some(rule), ..w.get(id) };
    let v = w.with(id, f);
    assert forall|i: ID| w.has(i) implies w.get(i).within(#[trigger] v.get(i)) by {}
    lemma_grown_condition(w, v, rule.predicate);
    lemma_replaced(x, id, f, n);
}

/// Replacing the prose of one kind by prose that can be resolved keeps the
/// builder settled.
pub proof fn lemma_prose_set(x: BuilderView, id: ID, kind: ProseType, prose: ProseView, n: nat)
    requires
        x.settled(n),
        x.world.has(id),
        x.world.valid_prose(Some(prose)),
    ensures
        x.prose(id, kind, prose).settled(n),
        x.world.grows_into(x.prose(id, kind, prose).world),
        x.prose(id, kind, prose).expectations == x.expectations,
        x.prose(id, kind, prose).world.has_prose_type(id, kind),
        x.prose(id, kind, prose).world.entities.len() == x.world.entities.len(),
        x.world.rules_kept(x.prose(id, kind, prose).world),
{
    let w0 = x.world;
    lemma_prose_component_added(x, id, n);
    let x1 = x.on(w0.add_prose_component(id));
    let w = x1.world;
    assert(x1.sane(id));
    let p = w.get(id).prose->0.with(kind, prose);
    let f = EntityView { prose: Some(p), ..w.get(id) };
    let v = w.with(id, f);
    assert forall|i: ID| w.has(i) implies w.get(i).within(#[trigger] v.get(i)) by {}
    lemma_grown_prose(w0, w, Some(prose));
    lemma_grown_prose(w, v, Some(prose));
    let old = w.get(id).prose->0;
    lemma_grown_prose(w, v, old.room);
    lemma_grown_prose(w, v, old.thing);
    lemma_grown_prose(w, v, old.book);
    lemma_grown_prose(w, v, old.scenery);
    lemma_replaced(x1, id, f, n);
}

/// Giving an entity a flag keeps the builder settled.
pub proof fn lemma_flag_set(x: BuilderView, id: ID, flag: FlagView, n: nat)
    requires
        x.settled(n),
        x.world.has(id),
    ensures
        x.flag(id, flag).settled(n),
        x.world.grows_into(x.flag(id, flag).world),
        x.flag(id, flag).expectations == x.expectations,
        x.flag(id, flag).world.has_flags(id),
        x.flag(id, flag).world.entities.len() == x.world.entities.len(),
        x.world.rules_kept(x.flag(id, flag).world),
{
    let w0 = x.world;
    lemma_flag_set_added(x, id, n);
    let x1 = x.on(w0.add_flag_set(id));
    let w = x1.world;
    assert(x1.sane(id));
    let f = EntityView { flags: Some(w.flags(id).insert(flag)), ..w.get(id) };
    lemma_replaced(x1, id, f, n);
}

/// Making the tagged entity a room keeps the builder settled. The tag then
/// names a room.
pub proof fn lemma_room(x: BuilderView, tag: Text, name: Text, n: nat)
    requires
        x.settled(n),
        n + 1 < 0x1000_0000,
    ensures
        x.room(tag, name).settled(n + 1),
        x.world.grows_into(x.room(tag, name).world),
        x.room(tag, name).expectations == x.expectations,
        x.room(tag, name).world.lookup(tag) == Some(x.world.entity_id(tag)),
        x.room(tag, name).world.is_room(x.world.entity_id(tag)),
        x.room(tag, name).world.has_flags(x.world.entity_id(tag)),
{
    let id = x.world.entity_id(tag);
    let m = n + 1;
    lemma_named(x, tag, n);
    let x1 = x.on(x.world.with_entity(tag));
    lemma_name_set(x1, id, name, m);
    let x2 = x1.on(x1.world.with_name(id, name));
    lemma_links_set(x2, id, LinksView::empty(), m);
    let x3 = x2.on(x2.world.with_links(id, LinksView::empty()));
    lemma_prose_component_added(x3, id, m);
    let x4 = x3.on(x3.world.add_prose_component(id));
    lemma_inventory_added(x4, id, m);
    let x5 = x4.on(x4.world.add_inventory(id));
    lemma_flag_set_added(x5, id, m);
    let x6 = x5.on(x5.world.add_flag_set(id));
    lemma_grown_lookup(x1.world, x6.world, tag);
}

/// Making the tagged entity, which is not limbo, a thing keeps the builder
/// settled. The tag then names a thing that has flags and is somewhere.
pub proof fn lemma_thing(x: BuilderView, tag: Text, name: Text, noun: Text, n: nat)
    requires
        x.settled(n),
        n + 1 < 0x1000_0000,
        x.world.entity_id(tag) != LIMBO,
    ensures
        x.thing(tag, name, noun).settled(n + 1),
        x.world.grows_into(x.thing(tag, name, noun).world),
        x.thing(tag, name, noun).expectations == x.expectations,
        x.thing(tag, name, noun).world.lookup(tag) == Some(x.world.entity_id(tag)),
        x.thing(tag, name, noun).world.is_thing(x.world.entity_id(tag)),
        x.thing(tag, name, noun).world.has_flags(x.world.entity_id(tag)),
        x.thing(tag, name, noun).world.has_loc(x.world.entity_id(tag)),
{
    let id = x.world.entity_id(tag);
    let m = n + 1;
    let details = ThingView { portable: true, noun };
    lemma_named(x, tag, n);
    let x1 = x.on(x.world.with_entity(tag));
    lemma_name_set(x1, id, name, m);
    let x2 = x1.on(x1.world.with_name(id, name));
    lemma_thing_set(x2, id, details, m);
    let x3 = x2.on(x2.world.with_thing(id, details));
    lemma_flag_set_added(x3, id, m);
    let x4 = x3.on(x3.world.add_flag_set(id));
    lemma_placed(x4, id, m);
    let x5 = x4.on(x4.world.add_location(id));
    lemma_grown_lookup(x1.world, x5.world, tag);
}

/// Putting a thing with flags, other than limbo, into the tagged entity
/// keeps the builder settled.
pub proof fn lemma_located(x: BuilderView, id: ID, loc_tag: Text, n: nat)
    requires
        x.settled(n),
        n + 1 < 0x1000_0000,
        x.world.has(id),
        id != LIMBO,
        x.world.get(id).thing is Some,
        x.world.get(id).flags is Some,
    ensures
        x.located(id, loc_tag).settled(n + 1),
        x.world.grows_into(x.located(id, loc_tag).world),
        x.located(id, loc_tag).expectations == x.expectations,
        x.located(id, loc_tag).world.has_loc(id),
{
    let place = x.world.entity_id(loc_tag);
    let m = n + 1;
    lemma_named(x, loc_tag, n);
    let x1 = x.on(x.world.with_entity(loc_tag));
    lemma_inventory_added(x1, place, m);
    let x2 = x1.on(x1.world.add_inventory(place));
    lemma_placed(x2, id, m);
    let x3 = x2.on(x2.world.add_location(id));
    lemma_moved(x3, id, place, m);
}

/// Putting the player into the tagged entity keeps the builder settled. The
/// tagged entity is then expected to be a room.
pub proof fn lemma_player_located(x: BuilderView, loc_tag: Text, n: nat)
    requires
        x.settled(n),
        n + 1 < 0x1000_0000,
    ensures
        x.player_located(loc_tag).settled(n + 1),
        x.world.grows_into(x.player_located(loc_tag).world),
        x.player_located(loc_tag).expectations == x.expectations.push(
            Is::Room(x.world.entity_id(loc_tag)),
        ),
        x.player_located(loc_tag).world.lookup(loc_tag) == Some(x.world.entity_id(loc_tag)),
{
    let place = x.world.entity_id(loc_tag);
    let m = n + 1;
    lemma_named(x, loc_tag, n);
    let x1 = x.on(x.world.with_entity(loc_tag));
    // The tag names the entity already: naming it again changes nothing.
    lemma_inventory_added(x1, place, m);
    let x2 = x1.on(x1.world.add_inventory(place));
    let x3 = x2.on(x2.world.add_location(PLAYER));
    lemma_moved(x3, PLAYER, place, m);
    let x4 = x3.on(x3.world.put_in(PLAYER, place));
    lemma_flag_set(x4, PLAYER, FlagView::Seen(place), m);
    let x5 = x4.flag(PLAYER, FlagView::Seen(place));
    lemma_expected(x5, Is::Room(place), m);
    lemma_grown_lookup(x1.world, x5.world, loc_tag);
}

/// Linking a room to the tagged entity keeps the builder settled. The
/// tagged entity is then expected to be a room.
pub proof fn lemma_link(x: BuilderView, id: ID, dir: Dir, room_tag: Text, n: nat)
    requires
        x.settled(n),
        n + 1 < 0x1000_0000,
        x.world.has(id),
        x.world.get(id).links is Some,
    ensures
        x.link(id, dir, room_tag).settled(n + 1),
        x.world.grows_into(x.link(id, dir, room_tag).world),
        x.link(id, dir, room_tag).expectations == x.expectations.push(
            Is::Room(x.world.entity_id(room_tag)),
        ),
        x.link(id, dir, room_tag).world.lookup(room_tag) == Some(x.world.entity_id(room_tag)),
        x.link(id, dir, room_tag).world.get(id).links is Some,
{
    let dest = x.world.entity_id(room_tag);
    let m = n + 1;
    lemma_named(x, room_tag, n);
    let x1 = x.on(x.world.with_entity(room_tag));
    lemma_expected(x1, Is::Room(dest), m);
    let x2 = x1.expect(Is::Room(dest));
    assert(x2.sane(id));
    let links = x2.world.get(id).links->0.with(dir, LinkDestView::Room(dest));
    lemma_links_set(x2, id, links, m);
    let x3 = x2.on(x2.world.with_links(id, links));
    lemma_grown_lookup(x1.world, x3.world, room_tag);
}

/// Giving a room a dead end keeps the builder settled.
pub proof fn lemma_dead_end(x: BuilderView, id: ID, dir: Dir, text: Text, n: nat)
    requires
        x.settled(n),
        x.world.has(id),
        x.world.get(id).links is Some,
    ensures
        x.dead_end(id, dir, text).settled(n),
        x.world.grows_into(x.dead_end(id, dir, text).world),
        x.dead_end(id, dir, text).expectations == x.expectations,
        x.dead_end(id, dir, text).world.get(id).links is Some,
{
    assert(x.sane(id));
    lemma_links_set(x, id, x.world.get(id).links->0.with(dir, LinkDestView::DeadEnd(text)), n);
}

/// Making the tagged entity, which is not limbo, a feature keeps the builder
/// settled. The tag then names a thing that has flags and is somewhere.
pub proof fn lemma_feature(x: BuilderView, tag: Text, name: Text, noun: Text, n: nat)
    requires
        x.settled(n),
        n + 1 < 0x1000_0000,
        x.world.entity_id(tag) != LIMBO,
    ensures
        x.feature(tag, name, noun).settled(n + 1),
        x.world.grows_into(x.feature(tag, name, noun).world),
        x.feature(tag, name, noun).expectations == x.expectations,
        x.feature(tag, name, noun).world.lookup(tag) == Some(x.world.entity_id(tag)),
        x.feature(tag, name, noun).world.is_thing(x.world.entity_id(tag)),
        x.feature(tag, name, noun).world.has_flags(x.world.entity_id(tag)),
        x.feature(tag, name, noun).world.has_loc(x.world.entity_id(tag)),
{
    let id = x.world.entity_id(tag);
    lemma_thing(x, tag, name, noun, n);
    let x1 = x.thing(tag, name, noun);
    lemma_flag_set(x1, id, FlagView::Immovable, n + 1);
    let x2 = x1.flag(id, FlagView::Immovable);
    lemma_flag_set(x2, id, FlagView::Scenery, n + 1);
    let x3 = x2.flag(id, FlagView::Scenery);
    lemma_grown_lookup(x1.world, x3.world, tag);
}

/// Making the tagged entity a rule that fires on every turn keeps the
/// builder settled.
pub proof fn lemma_rule(x: BuilderView, tag: Text, n: nat)
    requires
        x.settled(n),
        n + 1 < 0x1000_0000,
    ensures
        x.rule(tag).settled(n + 1),
        x.world.grows_into(x.rule(tag).world),
        x.rule(tag).expectations == x.expectations,
        x.rule(tag).world.has_flags(x.world.entity_id(tag)),
        x.rule(tag).world.get(x.world.entity_id(tag)).rule == Some(
            fresh_rule(Event::Turn, false),
        ),
{
    let id = x.world.entity_id(tag);
    let m = n + 1;
    let rule = fresh_rule(Event::Turn, false);
    lemma_named(x, tag, n);
    let x1 = x.on(x.world.with_entity(tag));
    lemma_flag_set_added(x1, id, m);
    let x2 = x1.on(x1.world.add_flag_set(id));
    lemma_rule_set(x2, id, rule, m);
}

/// Making a rule for an event keeps the builder settled. What the event is
/// about is then expected to be what the event needs.
pub proof fn lemma_event_rule(
    x: BuilderView,
    kind: Text,
    evt: WBEventView,
    is_guard: bool,
    n: nat,
)
    requires
        x.settled(n),
        n + 2 < 0x1000_0000,
    ensures
        x.event_rule(kind, evt, is_guard).settled(n + 2),
        x.world.grows_into(x.event_rule(kind, evt, is_guard).world),
        x.event_rule(kind, evt, is_guard).expectations == evt.expected(
            x.expectations,
            x.world.entity_id(evt.subject()),
        ),
        x.event_rule(kind, evt, is_guard).world.lookup(evt.subject()) == Some(
            x.world.entity_id(evt.subject()),
        ),
        x.event_rule(kind, evt, is_guard).world.has_flags(x.event_rule_id(kind, evt)),
        x.event_rule(kind, evt, is_guard).world.get(x.event_rule_id(kind, evt)).rule is Some,
        x.event_rule(kind, evt, is_guard).world.rule(x.event_rule_id(kind, evt)).is_guard
            == is_guard,
        x.event_rule(kind, evt, is_guard).world.rule(x.event_rule_id(kind, evt)).script
            == Seq::<ActionView>::empty(),
{
    let about = x.world.entity_id(evt.subject());
    let tag = BuilderView::event_rule_tag(kind, evt);
    let m = n + 2;
    lemma_named(x, evt.subject(), n);
    let x1 = x.on(x.world.with_entity(evt.subject()));
    let id = x1.world.entity_id(tag);
    lemma_named(x1, tag, n + 1);
    let x2 = x1.on(x1.world.with_entity(tag));
    lemma_flag_set_added(x2, id, m);
    let x3 = x2.on(x2.world.add_flag_set(id));
    let rule = fresh_rule(evt.event(x.world.pid, about), is_guard);
    assert(x3.world.valid_condition(ConditionView::Always));
    lemma_rule_set(x3, id, rule, m);
    let x4 = x3.on(x3.world.with_rule(id, rule));
    lemma_grown_lookup(x1.world, x4.world, evt.subject());
    // The expectations are noted last: they do not change the world.
    match evt {
        WBEventView::GetThing(t) => {
            lemma_expected(x4, Is::Thing(about), m);
        },
        WBEventView::ReadThing(t) => {
            lemma_expected(x4, Is::Thing(about), m);
            lemma_expected(x4.expect(Is::Thing(about)), Is::Book(about), m);
        },
        WBEventView::EnterRoom(t) => {
            lemma_expected(x4, Is::Room(about), m);
        },
    }
    assert(x.event_rule(kind, evt, is_guard) =~~= (BuilderView {
        expectations: evt.expected(x.expectations, about),
        ..x4
    }));
}

/// Giving a rule a predicate that can be evaluated keeps the builder
/// settled.
pub proof fn lemma_predicate(x: BuilderView, id: ID, predicate: ConditionView, n: nat)
    requires
        x.settled(n),
        x.world.has(id),
        x.world.get(id).rule is Some,
        x.world.valid_condition(predicate),
    ensures
        x.predicate(id, predicate).settled(n),
        x.world.grows_into(x.predicate(id, predicate).world),
        x.predicate(id, predicate).expectations == x.expectations,
        x.predicate(id, predicate).world.get(id).rule is Some,
        x.predicate(id, predicate).world.rule(id).is_guard == x.world.rule(id).is_guard,
        x.predicate(id, predicate).world.rule(id).script == x.world.rule(id).script,
        x.predicate(id, predicate).world.entities.len() == x.world.entities.len(),
{
    assert(x.sane(id));
    let rule = RuleView { predicate, ..x.world.rule(id) };
    lemma_rule_set(x, id, rule, n);
}

/// Adding to the script of a rule an action that can be applied (a message,
/// if the rule is a guard) keeps the builder settled.
pub proof fn lemma_action(x: BuilderView, id: ID, action: ActionView, n: nat)
    requires
        x.settled(n),
        x.world.has(id),
        x.world.get(id).rule is Some,
        x.world.valid_action(action),
        x.world.rule(id).is_guard ==> action is Print,
    ensures
        x.action(id, action).settled(n),
        x.world.grows_into(x.action(id, action).world),
        x.action(id, action).expectations == x.expectations,
        x.action(id, action).world.get(id).rule is Some,
        x.action(id, action).world.rule(id).is_guard == x.world.rule(id).is_guard,
        x.action(id, action).world.entities.len() == x.world.entities.len(),
{
    assert(x.sane(id));
    let old = x.world.rule(id);
    let script = old.script.push(action);
    let rule = RuleView { script, ..old };
    assert forall|i: int| 0 <= i < script.len() implies x.world.valid_action(
        #[trigger] script[i],
    ) by {
    }
    if old.is_guard {
        assert forall|i: int| 0 <= i < script.len() implies (#[trigger] script[i]) is Print by {
        }
    }
    lemma_rule_set(x, id, rule, n);
}

/// Naming an entity and giving it a flag set keeps the builder settled.
pub proof fn lemma_flagged_entity(x: BuilderView, tag: Text, n: nat)
    requires
        x.settled(n),
        n + 1 < 0x1000_0000,
    ensures
        x.flagged_entity(tag).settled(n + 1),
        x.world.grows_into(x.flagged_entity(tag).world),
        x.flagged_entity(tag).expectations == x.expectations,
        x.flagged_entity(tag).world.has_flags(x.world.entity_id(tag)),
        x.world.rules_kept(x.flagged_entity(tag).world),
{
    let id = x.world.entity_id(tag);
    lemma_named(x, tag, n);
    let x1 = x.on(x.world.with_entity(tag));
    lemma_flag_set_added(x1, id, n + 1);
}

/// Naming an entity and noting an expectation keeps the builder settled.
pub proof fn lemma_expected_entity(x: BuilderView, tag: Text, e: Is, n: nat)
    requires
        x.settled(n),
        n + 1 < 0x1000_0000,
    ensures
        x.expected_entity(tag, e).settled(n + 1),
        x.world.grows_into(x.expected_entity(tag, e).world),
        x.expected_entity(tag, e).expectations == x.expectations.push(e),
        x.expected_entity(tag, e).world.lookup(tag) == Some(x.world.entity_id(tag)),
        x.expected_entity(tag, e).world.has(x.world.entity_id(tag)),
        x.world.rules_kept(x.expected_entity(tag, e).world),
{
    lemma_named(x, tag, n);
    let x1 = x.on(x.world.with_entity(tag));
    lemma_expected(x1, e, n + 1);
}

} // verus!
