//! Entities: an identity, a tag, and whichever components the entity has.

use crate::script::Script;
use crate::types::clone_opt_text;
use crate::types::opt_view;
use crate::types::trim;
use crate::types::trimmed;
use crate::types::Action;
use crate::types::Condition;
use crate::types::Event;
use crate::types::Flag;
use crate::types::FlagSetComponent;
use crate::types::FlagView;
use crate::types::ID;
use crate::types::InventoryComponent;
use crate::types::LinksComponent;
use crate::types::LinksView;
use crate::types::PlayerComponent;
use crate::types::Prose;
use crate::types::ProseComponent;
use crate::types::ProseComponentView;
use crate::types::ProseType;
use crate::types::ProseView;
use crate::types::RuleComponent;
use crate::types::RuleView;
use crate::types::Text;
use crate::types::ThingComponent;
use crate::types::ThingView;
use crate::world::World;
use crate::world::WorldView;
use std::string::String;
use vstd::prelude::*;

verus! {

/// An entity of the world. What it is (a room, a thing, a rule, the player)
/// follows from the components it has.
#[derive(Debug)]
pub struct Entity {
    /// The identity of the entity.
    pub id: ID,
    /// The tag by which scenarios name the entity.
    pub tag: String,
    /// The name shown to the player.
    pub name: Option<String>,
    /// The prose that describes the entity.
    pub prose: Option<ProseComponent>,
    /// The entity that holds this one.
    pub loc: Option<ID>,
    /// The links from this room to others.
    pub links: Option<LinksComponent>,
    /// The details of a thing.
    pub thing: Option<ThingComponent>,
    /// The entities that this one holds.
    pub inventory: Option<InventoryComponent>,
    /// The rule that this entity is.
    pub rule: Option<RuleComponent>,
    /// The flags set on the entity.
    pub flags: Option<FlagSetComponent>,
    /// The marker of a player.
    pub player: Option<PlayerComponent>,
}

/// An entity as contracts see it.
#[verifier::ext_equal]
pub struct EntityView {
    pub id: ID,
    pub tag: Text,
    pub name: Option<Text>,
    pub prose: Option<ProseComponentView>,
    pub loc: Option<ID>,
    pub links: Option<LinksView>,
    pub thing: Option<ThingView>,
    pub inventory: Option<Set<ID>>,
    pub rule: Option<RuleView>,
    pub flags: Option<Set<FlagView>>,
    pub player: bool,
}

impl EntityView {
    /// An entity with the given identity and tag and no component.
    pub open spec fn bare(id: ID, tag: Text) -> EntityView {
        EntityView {
            id,
            tag,
            name: None,
            prose: None,
            loc: None,
            links: None,
            thing: None,
            inventory: None,
            rule: None,
            flags: None,
            player: false,
        }
    }

    /// Can the entity serve as a room, a place where the player can be?
    pub open spec fn is_room(self) -> bool {
        self.name is Some && self.prose is Some && self.links is Some && self.inventory is Some
    }

    /// Can the entity serve as a thing, something a noun can name?
    pub open spec fn is_thing(self) -> bool {
        self.name is Some && self.thing is Some
    }

    /// Is the entity a rule?
    pub open spec fn is_rule(self) -> bool {
        self.rule is Some
    }

    /// Does the entity have prose?
    pub open spec fn is_prose(self) -> bool {
        self.prose is Some
    }

    /// The name under which the entity is shown: its name, or its tag where
    /// it has no name.
    pub open spec fn display_name(self) -> Text {
        match self.name {
            Some(name) => name,
            None => self.tag,
        }
    }

    /// The entity without what changes while the game is played: which
    /// components it has and what the fixed ones hold, but not where it is,
    /// what it holds or which flags are set.
    pub open spec fn frame(self) -> EntityView {
        EntityView {
            loc: if self.loc is Some {
                Some(0usize)
            } else {
                None
            },
            inventory: if self.inventory is Some {
                Some(Set::<ID>::empty())
            } else {
                None
            },
            flags: if self.flags is Some {
                Some(Set::<FlagView>::empty())
            } else {
                None
            },
            ..self
        }
    }
}

impl View for Entity {
    type V = EntityView;

    open spec fn view(&self) -> EntityView {
        EntityView {
            id: self.id,
            tag: self.tag@,
            name: opt_view(self.name),
            prose: opt_view(self.prose),
            loc: self.loc,
            links: opt_view(self.links),
            thing: opt_view(self.thing),
            inventory: opt_view(self.inventory),
            rule: opt_view(self.rule),
            flags: opt_view(self.flags),
            player: self.player is Some,
        }
    }
}

impl Entity {
    /// An entity with the given identity and tag and no component.
    pub fn bare(id: ID, tag: &str) -> (r: Entity)
        ensures
            r@ == EntityView::bare(id, tag@),
    {
        Entity {
            id,
            tag: tag.to_owned(),
            name: None,
            prose: None,
            loc: None,
            links: None,
            thing: None,
            inventory: None,
            rule: None,
            flags: None,
            player: None,
        }
    }

    /// Can this entity function as a room, a place where the player can be?
    pub fn is_room(&self) -> (r: bool)
        ensures
            r == self@.is_room(),
    {
        self.name.is_some() && self.prose.is_some() && self.links.is_some()
            && self.inventory.is_some()
    }

    /// Can this entity function as a thing, as a noun? A thing may but need
    /// not have a description.
    pub fn is_thing(&self) -> (r: bool)
        ensures
            r == self@.is_thing(),
    {
        self.name.is_some() && self.thing.is_some()
    }

    /// Is this entity a rule?
    pub fn is_rule(&self) -> (r: bool)
        ensures
            r == self@.is_rule(),
    {
        self.rule.is_some()
    }

    /// Does this entity have a prose component?
    pub fn is_prose(&self) -> (r: bool)
        ensures
            r == self@.is_prose(),
    {
        self.prose.is_some()
    }

    /// The name under which the entity is shown.
    pub fn display_name(&self) -> (r: String)
        ensures
            r@ == self@.display_name(),
    {
        match &self.name {
            Some(name) => name.clone(),
            None => self.tag.clone(),
        }
    }
}

impl Clone for Entity {
    fn clone(&self) -> (r: Entity)
        ensures
            r@ == self@,
    {
        Entity {
            id: self.id,
            tag: self.tag.clone(),
            name: clone_opt_text(&self.name),
            prose: match &self.prose {
                Some(p) => Some(p.clone()),
                None => None,
            },
            loc: self.loc,
            links: match &self.links {
                Some(l) => Some(l.clone()),
                None => None,
            },
            thing: match &self.thing {
                Some(t) => Some(t.clone()),
                None => None,
            },
            inventory: match &self.inventory {
                Some(i) => Some(i.clone()),
                None => None,
            },
            rule: match &self.rule {
                Some(r) => Some(r.clone()),
                None => None,
            },
            flags: match &self.flags {
                Some(f) => Some(f.clone()),
                None => None,
            },
            player: self.player,
        }
    }
}

impl WorldView {
    /// The world with the entity added: it stands last, and where it has a
    /// location, it is in the inventory of that place.
    pub open spec fn add_entity(self, e: EntityView) -> WorldView {
        let added = WorldView { entities: self.entities.push(e), ..self };
        match e.loc {
            Some(c) => added.with_contents(c, added.contents(c).insert(e.id)),
            None => added,
        }
    }
}

/// A tool for building entities.
///
/// `make` creates a builder for an entity and assigns it a tag. The other
/// methods add components; `build` finishes the entity and adds it to the
/// world.
pub struct EntityBuilder<'a> {
    pub world: &'a mut World,
    pub tag: String,
    pub name: Option<String>,
    pub prose: Option<String>,
    pub loc: Option<ID>,
    pub links: Option<LinksComponent>,
    pub thing: Option<ThingComponent>,
    pub inventory: Option<InventoryComponent>,
    pub rule: Option<RuleComponent>,
    pub once_only: bool,
}

impl<'a> EntityBuilder<'a> {
    /// The prose component that the entity gets: the prose, as the
    /// description of a room and as what examining a thing shows.
    pub open spec fn prose_view(self) -> Option<ProseComponentView> {
        match self.prose {
            Some(text) => Some(
                ProseComponentView {
                    room: Some(ProseView::Prose(text@)),
                    thing: Some(ProseView::Prose(text@)),
                    ..ProseComponentView::empty()
                },
            ),
            None => None,
        }
    }

    /// The flags that the entity gets: that of a rule that fires once only,
    /// or none.
    pub open spec fn flags_view(self) -> Set<FlagView> {
        if self.rule is Some && self.once_only {
            set![FlagView::FireOnce]
        } else {
            Set::<FlagView>::empty()
        }
    }

    /// The entity that `build` adds where it adds one.
    pub open spec fn entity(self) -> EntityView {
        EntityView {
            id: self.world@.entities.len() as ID,
            tag: self.tag@,
            name: opt_view(self.name),
            prose: self.prose_view(),
            loc: self.loc,
            links: opt_view(self.links),
            thing: opt_view(self.thing),
            inventory: opt_view(self.inventory),
            rule: opt_view(self.rule),
            flags: Some(self.flags_view()),
            player: false,
        }
    }

    /// Can the entity be added: is its tag free, is the place where it is to
    /// be, if any, an entity with an inventory, and does it hold nothing yet?
    pub open spec fn fits(self) -> bool {
        self.tag_free() && self.place_fits() && self.holds_nothing()
    }

    /// Is the tag of the entity free?
    pub open spec fn tag_free(self) -> bool {
        self.world@.lookup(self.tag@) is None
    }

    /// Is the place where the entity is to be, if any, an entity with an
    /// inventory?
    pub open spec fn place_fits(self) -> bool {
        self.loc is Some ==> self.world@.has_inv(self.loc->0)
    }

    /// Does the entity hold nothing yet?
    pub open spec fn holds_nothing(self) -> bool {
        self.inventory is Some ==> self.inventory->0@.is_empty()
    }

    /// Starts an entity with the tag and no component.
    pub fn make<'b>(world: &'b mut World, tag: &str) -> (r: EntityBuilder<'b>)
        ensures
            *final(r.world) == *final(world),
            *r.world == *old(world),
            r.tag@ == tag@,
            r.name is None,
            r.prose is None,
            r.loc is None,
            r.links is None,
            r.thing is None,
            r.inventory is None,
            r.rule is None,
    {
        EntityBuilder {
            world,
            tag: tag.to_owned(),
            name: None,
            prose: None,
            loc: None,
            links: None,
            thing: None,
            inventory: None,
            rule: None,
            once_only: false,
        }
    }

    /// Gives the entity a name.
    pub fn name(self, name: &str) -> (r: EntityBuilder<'a>)
        ensures
            *final(r.world) == *final(self.world),
            *r.world == *old(self.world),
            r.entity() == (EntityView { name: Some(name@), ..self.entity() }),
            r.fits() == self.fits(),
    {
        let mut b = self;
        b.name = Some(name.to_owned());
        b
    }

    /// Gives the entity prose. The text is trimmed.
    pub fn prose(self, prose: &str) -> (r: EntityBuilder<'a>)
        ensures
            *final(r.world) == *final(self.world),
            *r.world == *old(self.world),
            r.prose is Some,
            r.prose->0@ == trimmed(prose@),
            r.entity() == (EntityView { prose: r.prose_view(), ..self.entity() }),
            r.fits() == self.fits(),
    {
        let mut b = self;
        b.prose = Some(trim(prose).to_owned());
        b
    }

    /// Gives the entity a location.
    pub fn location(self, loc: ID) -> (r: EntityBuilder<'a>)
        ensures
            *final(r.world) == *final(self.world),
            *r.world == *old(self.world),
            r.entity() == (EntityView { loc: Some(loc), ..self.entity() }),
            r.fits() == (self.tag_free() && old(self.world)@.has_inv(loc) && self.holds_nothing()),
    {
        let mut b = self;
        b.loc = Some(loc);
        b
    }

    /// Gives the entity links, which lead nowhere yet.
    pub fn links(self) -> (r: EntityBuilder<'a>)
        ensures
            *final(r.world) == *final(self.world),
            *r.world == *old(self.world),
            r.entity() == (EntityView { links: Some(LinksView::empty()), ..self.entity() }),
            r.fits() == self.fits(),
    {
        let mut b = self;
        b.links = Some(LinksComponent::new());
        b
    }

    /// Gives the entity the details of a thing, which commands name by the
    /// entity's tag.
    pub fn thing(self, portable: bool) -> (r: EntityBuilder<'a>)
        ensures
            *final(r.world) == *final(self.world),
            *r.world == *old(self.world),
            r.entity() == (EntityView {
                thing: Some(ThingView { portable, noun: self.tag@ }),
                ..self.entity()
            }),
            r.fits() == self.fits(),
    {
        let mut b = self;
        b.thing = Some(ThingComponent { portable, noun: b.tag.clone() });
        assert(b.entity() =~~= (EntityView {
            thing: Some(ThingView { portable, noun: self.tag@ }),
            ..self.entity()
        }));
        b
    }

    /// Gives the entity an inventory, which holds nothing yet.
    pub fn inventory(self) -> (r: EntityBuilder<'a>)
        ensures
            *final(r.world) == *final(self.world),
            *r.world == *old(self.world),
            r.entity() == (EntityView { inventory: Some(Set::<ID>::empty()), ..self.entity() }),
            r.fits() == (self.tag_free() && self.place_fits()),
    {
        let mut b = self;
        b.inventory = Some(InventoryComponent::new());
        assert(b.entity() =~~= (EntityView {
            inventory: Some(Set::<ID>::empty()),
            ..self.entity()
        }));
        b
    }

    /// Makes the entity a rule: on every turn on which the predicate holds it
    /// does the action, once only if so wished.
    pub fn rule(self, predicate: Condition, action: Action, once_only: bool) -> (r: EntityBuilder<
        'a,
    >)
        ensures
            *final(r.world) == *final(self.world),
            *r.world == *old(self.world),
            r.entity() == (EntityView {
                rule: Some(
                    RuleView {
                        predicate: predicate@,
                        event: Event::Turn,
                        script: seq![action@],
                        is_guard: false,
                    },
                ),
                flags: Some(
                    if once_only {
                        set![FlagView::FireOnce]
                    } else {
                        Set::<FlagView>::empty()
                    },
                ),
                ..self.entity()
            }),
            r.fits() == self.fits(),
    {
        let mut b = self;
        let mut script = Script::new();
        script.add(action);
        b.rule = Some(RuleComponent { predicate, event: Event::Turn, script, is_guard: false });
        b.once_only = once_only;
        assert(b.entity() =~~= (EntityView {
            rule: Some(
                RuleView {
                    predicate: predicate@,
                    event: Event::Turn,
                    script: seq![action@],
                    is_guard: false,
                },
            ),
            flags: Some(
                if once_only {
                    set![FlagView::FireOnce]
                } else {
                    Set::<FlagView>::empty()
                },
            ),
            ..self.entity()
        }));
        b
    }

    /// Builds the entity, adds it to the world, and returns its identity.
    /// Nothing is added where the tag is taken, where the entity is to be in
    /// a place that has no inventory, or where it holds something already.
    pub fn build(self) -> (r: Option<ID>)
        requires
            self.world@.buildable(),
        ensures
            final(self.world)@.buildable(),
            self.fits() ==> r == Some(old(self.world)@.entities.len() as ID),
            self.fits() ==> final(self.world)@ == old(self.world)@.add_entity(self.entity()),
            !self.fits() ==> r is None && final(self.world)@ == old(self.world)@,
    {
        let ghost e = self.entity();
        let ghost w = self.world@;
        if self.world.lookup(self.tag.as_str()).is_some() {
            return None;
        }
        match self.loc {
            Some(c) => {
                if !self.world.has_inventory(c) {
                    return None;
                }
            },
            None => {},
        }
        match &self.inventory {
            Some(inv) => {
                if !inv.things.is_empty() {
                    return None;
                }
            },
            None => {},
        }
        let id = self.world.entities.len();
        let mut flags = FlagSetComponent::new();
        if self.rule.is_some() && self.once_only {
            flags.set(Flag::FireOnce);
        }
        let prose = match self.prose {
            Some(text) => {
                let mut p = ProseComponent::new();
                p.set(ProseType::Room, Prose::Prose(text.clone()));
                p.set(ProseType::Thing, Prose::Prose(text));
                Some(p)
            },
            None => None,
        };
        let loc = self.loc;
        let entity = Entity {
            id,
            tag: self.tag,
            name: self.name,
            prose,
            loc,
            links: self.links,
            thing: self.thing,
            inventory: self.inventory,
            rule: self.rule,
            flags: Some(flags),
            player: None,
        };
        self.world.entities.push(entity);
        let ghost added = WorldView { entities: w.entities.push(e), ..w };
        assert(self.world@ =~~= added);
        match loc {
            Some(c) => {
                match &mut self.world.entities[c].inventory {
                    Some(inv) => {
                        inv.add(id);
                    },
                    None => {},
                }
                assert(self.world@ =~~= w.add_entity(e));
            },
            None => {},
        }
        proof {
            let v = w.add_entity(e);
            assert forall|x: ID| (#[trigger] v.loc_of(x)) is Some implies v.owns(
                v.loc_of(x)->0,
                x,
            ) by {
                if x != id {
                    assert(w.loc_of(x) is Some);
                }
            }
            assert forall|c: ID, x: ID| #[trigger] v.owns(c, x) implies v.loc_of(x) == Some(
                c,
            ) by {
                if c == id {
                } else if x != id {
                    assert(w.owns(c, x));
                } else if Some(c) != e.loc {
                    assert(w.owns(c, x));
                }
            }
        }
        Some(id)
    }
}

} // verus!
