//! The physical system: where entities are, what they hold, and how they
//! move. It keeps locations and inventories in agreement.

use crate::rule;
use crate::types::opt_view;
use crate::types::Dir;
use crate::types::Event;
use crate::types::Flag;
use crate::types::FlagView;
use crate::types::ID;
use crate::types::LinkDest;
use crate::types::LinkDestView;
use crate::types::ProseType;
use crate::visual;
use crate::visual::line;
use crate::visual::lines;
use crate::visual::Visual;
use crate::visual::VisualKind;
use crate::visual::VisualView;
use crate::world::lemma_frame_flags;
use crate::world::lemma_wf_well_shaped;
use crate::world::lemma_with_flags_wf;
use crate::world::LIMBO;
use crate::world::World;
use crate::world::WorldView;
use std::collections::BTreeSet;
use std::string::String;
use vstd::prelude::*;

verus! {

impl WorldView {
    /// Where the link from the room in the given direction leads, if there
    /// is one. Meant for a room.
    pub open spec fn follow_link(self, room: ID, dir: Dir) -> Option<LinkDestView> {
        self.get(room).links->0.get(dir)
    }

    /// The world after the thing is moved into the container: it leaves the
    /// inventory that held it, is located in the container, and is in the
    /// container's inventory.
    pub open spec fn put_in(self, thing: ID, container: ID) -> WorldView {
        let there = self.loc(thing);
        let left = self.with_contents(there, self.contents(there).remove(thing));
        let moved = left.with_loc(thing, container);
        moved.with_contents(container, moved.contents(container).insert(thing))
    }

    /// The world after the thing is moved to limbo.
    pub open spec fn take_out(self, thing: ID) -> WorldView {
        self.put_in(thing, LIMBO)
    }

    /// What the owner holds on which the flag is set (`want`) or not set
    /// (`!want`).
    pub open spec fn flagged(self, owner: ID, flag: FlagView, want: bool) -> Set<ID> {
        self.contents(owner).filter(|id: ID| self.has_flag(id, flag) == want)
    }

    /// What the viewer can see: what it holds, and what the place where it is
    /// holds. What those things hold in turn is not seen.
    pub open spec fn visible(self, viewer: ID) -> Set<ID> {
        let held = if self.has_inv(viewer) {
            self.contents(viewer)
        } else {
            Set::<ID>::empty()
        };
        let around = if self.has_loc(viewer) {
            self.contents(self.loc(viewer))
        } else {
            Set::<ID>::empty()
        };
        held.union(around)
    }
}

/// Moving a thing keeps locations and inventories in agreement, and changes
/// nothing but where the thing is.
pub proof fn lemma_put_in_places(w: WorldView, thing: ID, container: ID)
    requires
        w.places_agree(),
        w.has_loc(thing),
        w.has_inv(container),
    ensures
        w.put_in(thing, container).places_agree(),
        w.put_in(thing, container).frame() == w.frame(),
        w.put_in(thing, container).loc_of(thing) == Some(container),
        forall|e: ID| e != thing ==> w.put_in(thing, container).loc_of(e) == w.loc_of(e),
        forall|e: ID| w.has_flags(e) ==> w.put_in(thing, container).has_flags(e) && w.put_in(
            thing,
            container,
        ).flags(e) == w.flags(e),
{
    let there = w.loc(thing);
    assert(w.loc_of(thing) is Some);
    let left = w.with_contents(there, w.contents(there).remove(thing));
    let moved = left.with_loc(thing, container);
    let v = moved.with_contents(container, moved.contents(container).insert(thing));
    assert forall|e: ID| (#[trigger] v.loc_of(e)) is Some implies v.owns(v.loc_of(e)->0, e) by {
        if e != thing {
            assert(w.loc_of(e) is Some);
        }
    }
    assert forall|c: ID, e: ID| #[trigger] v.owns(c, e) implies v.loc_of(e) == Some(c) by {
        if e != thing {
            assert(w.owns(c, e));
        } else {
            if c != container {
                assert(w.owns(c, e));
            }
        }
    }
}

/// Moving a thing keeps a sound world sound.
pub proof fn lemma_put_in_wf(w: WorldView, thing: ID, container: ID)
    requires
        w.wf(),
        w.has_loc(thing),
        w.has_inv(container),
    ensures
        w.put_in(thing, container).wf(),
{
    lemma_put_in_places(w, thing, container);
}

/// Moving a thing into the container that holds it changes nothing.
pub proof fn lemma_put_in_same_place(w: WorldView, thing: ID)
    requires
        w.places_agree(),
        w.has_loc(thing),
    ensures
        w.put_in(thing, w.loc(thing)) == w,
{
    assert(w.loc_of(thing) is Some);
}

/// In a sound world whatever an entity holds is an entity with flags that is
/// located there.
pub proof fn lemma_contents_are_things(w: WorldView, owner: ID, id: ID)
    requires
        w.wf(),
        w.owns(owner, id),
    ensures
        w.has(id),
        w.has_flags(id),
        w.get(id).thing is Some,
        w.loc_of(id) == Some(owner),
{
    lemma_wf_well_shaped(w);
    assert(w.valid_entity(id));
}

/// In a sound world whatever is somewhere is in a place with an inventory.
pub proof fn lemma_place_has_inventory(w: WorldView, thing: ID)
    requires
        w.places_agree(),
        w.has_loc(thing),
    ensures
        w.has_inv(w.loc(thing)),
        w.owns(w.loc(thing), thing),
{
    assert(w.loc_of(thing) is Some);
}

/// A primitive move.
pub enum Move {
    /// The thing is put into the container.
    PutIn(ID, ID),
    /// The thing is taken out, to limbo.
    TakeOut(ID),
}

impl WorldView {
    /// Can the move be made: has what moves a location, and has the place
    /// where it goes an inventory?
    pub open spec fn can_move(self, m: Move) -> bool {
        match m {
            Move::PutIn(thing, container) => self.has_loc(thing) && self.has_inv(container),
            Move::TakeOut(thing) => self.has_loc(thing) && self.has_inv(LIMBO),
        }
    }

    /// The world after the move.
    pub open spec fn moved(self, m: Move) -> WorldView {
        match m {
            Move::PutIn(thing, container) => self.put_in(thing, container),
            Move::TakeOut(thing) => self.take_out(thing),
        }
    }

    /// The world after the moves, made in order.
    pub open spec fn moved_all(self, moves: Seq<Move>) -> WorldView
        decreases moves.len(),
    {
        if moves.len() == 0 {
            self
        } else {
            self.moved_all(moves.drop_last()).moved(moves.last())
        }
    }

    /// Is the entity in exactly one place: in the inventory of the entity
    /// where it is located, and in no other?
    pub open spec fn in_one_place(self, e: ID) -> bool {
        &&& self.owns(self.loc(e), e)
        &&& forall|c: ID| self.owns(c, e) ==> c == self.loc(e)
    }
}

/// After any sequence of moves, every entity that has a location is in the
/// inventory of the place where it is located, and in no other inventory.
pub proof fn lemma_moves_keep_places(w: WorldView, moves: Seq<Move>)
    requires
        w.places_agree(),
        forall|i: int| 0 <= i < moves.len() ==> w.can_move(#[trigger] moves[i]),
    ensures
        w.moved_all(moves).places_agree(),
        w.moved_all(moves).frame() == w.frame(),
        forall|e: ID| w.moved_all(moves).has_loc(e) ==> w.moved_all(moves).in_one_place(e),
    decreases moves.len(),
{
    let v = w.moved_all(moves);
    if moves.len() > 0 {
        let before = moves.drop_last();
        assert forall|i: int| 0 <= i < before.len() implies w.can_move(#[trigger] before[i]) by {
        }
        lemma_moves_keep_places(w, before);
        let u = w.moved_all(before);
        let m = moves.last();
        match m {
            Move::PutIn(thing, container) => {
                lemma_frame_flags(w, u, thing);
                lemma_frame_flags(w, u, container);
                lemma_put_in_places(u, thing, container);
            },
            Move::TakeOut(thing) => {
                lemma_frame_flags(w, u, thing);
                lemma_frame_flags(w, u, LIMBO);
                lemma_put_in_places(u, thing, LIMBO);
            },
        }
    }
    assert forall|e: ID| v.has_loc(e) implies v.in_one_place(e) by {
        assert(v.loc_of(e) is Some);
        assert forall|c: ID| v.owns(c, e) implies c == v.loc(e) by {
        }
    }
}

/// Returns an entity's location.
pub fn loc(world: &World, thing: ID) -> (r: ID)
    requires
        world@.has_loc(thing),
    ensures
        r == world@.loc(thing),
{
    match world.entities[thing].loc {
        Some(c) => c,
        None => LIMBO,
    }
}

/// Tries to follow a link in the given direction; returns where it leads, if
/// anywhere.
pub fn follow_link(world: &World, loc: ID, dir: Dir) -> (r: Option<LinkDest>)
    requires
        world@.is_room(loc),
    ensures
        opt_view(r) == world@.follow_link(loc, dir),
{
    match &world.entities[loc].links {
        Some(links) => {
            match links.get(dir) {
                Some(dest) => Some(dest.clone()),
                None => None,
            }
        },
        None => None,
    }
}

/// Determines whether the thing is in the container.
pub fn owns(world: &World, container: ID, thing: ID) -> (r: bool)
    requires
        world@.has_inv(container),
        world@.has_loc(thing),
    ensures
        r == world@.owns(container, thing),
{
    match &world.entities[container].inventory {
        Some(inv) => inv.has(thing),
        None => false,
    }
}

/// Returns the contents of the container. The result is a copy: changing the
/// container afterwards does not change it.
pub fn contents(world: &World, container: ID) -> (r: BTreeSet<ID>)
    requires
        world@.has_inv(container),
    ensures
        r@ == world@.contents(container),
{
    match &world.entities[container].inventory {
        Some(inv) => inv.things.clone(),
        None => BTreeSet::new(),
    }
}

/// What the owner holds on which the flag is set (`want`) or not set
/// (`!want`).
fn flagged(world: &World, owner: ID, flag: &Flag, want: bool) -> (r: BTreeSet<ID>)
    requires
        world.wf(),
        world@.has_inv(owner),
    ensures
        r@ == world@.flagged(owner, flag@, want),
{
    let mut result: BTreeSet<ID> = BTreeSet::new();
    let n = world.entities.len();
    let mut i: usize = 0;
    while i < n
        invariant
            i <= n,
            n == world@.entities.len(),
            world.wf(),
            world@.has_inv(owner),
            result@ == Set::new(
                |x: ID| x < i && world@.flagged(owner, flag@, want).contains(x),
            ),
        decreases n - i,
    {
        if owns_any(world, owner, i) {
            proof {
                lemma_contents_are_things(world@, owner, i);
            }
            if world.has_flag(i, flag) == want {
                result.insert(i);
            }
        }
        i += 1;
    }
    proof {
        assert forall|x: ID| world@.flagged(owner, flag@, want).contains(x) implies x < n by {
            lemma_contents_are_things(world@, owner, x);
        }
    }
    result
}

/// Whether the container holds the entity, whatever that entity is.
fn owns_any(world: &World, container: ID, id: ID) -> (r: bool)
    requires
        world@.has_inv(container),
    ensures
        r == world@.owns(container, id),
{
    match &world.entities[container].inventory {
        Some(inv) => inv.has(id),
        None => false,
    }
}

/// What the owner holds that is flagged as scenery.
pub fn scenery(world: &World, owner: ID) -> (r: BTreeSet<ID>)
    requires
        world.wf(),
        world@.has_inv(owner),
    ensures
        r@ == world@.flagged(owner, FlagView::Scenery, true),
{
    flagged(world, owner, &Flag::Scenery, true)
}

/// What the owner holds that is not flagged as scenery.
pub fn non_scenery(world: &World, owner: ID) -> (r: BTreeSet<ID>)
    requires
        world.wf(),
        world@.has_inv(owner),
    ensures
        r@ == world@.flagged(owner, FlagView::Scenery, false),
{
    flagged(world, owner, &Flag::Scenery, false)
}

/// What the owner holds that is flagged as immovable.
pub fn immovable(world: &World, owner: ID) -> (r: BTreeSet<ID>)
    requires
        world.wf(),
        world@.has_inv(owner),
    ensures
        r@ == world@.flagged(owner, FlagView::Immovable, true),
{
    flagged(world, owner, &Flag::Immovable, true)
}

/// Finds all things that are visible to the viewer: those it holds, and those
/// in the place where it is.
pub fn visible(world: &World, viewer: ID) -> (r: BTreeSet<ID>)
    requires
        world.wf(),
    ensures
        r@ == world@.visible(viewer),
{
    let mut result: BTreeSet<ID> = BTreeSet::new();
    let held = world.has_inventory(viewer);
    let located = world.has_location(viewer);
    let place = if located {
        loc(world, viewer)
    } else {
        LIMBO
    };
    proof {
        if located {
            lemma_place_has_inventory(world@, viewer);
        }
    }
    let n = world.entities.len();
    let mut i: usize = 0;
    while i < n
        invariant
            i <= n,
            n == world@.entities.len(),
            held == world@.has_inv(viewer),
            located == world@.has_loc(viewer),
            located ==> place == world@.loc(viewer) && world@.has_inv(place),
            result@ == Set::new(|x: ID| x < i && world@.visible(viewer).contains(x)),
        decreases n - i,
    {
        if (held && owns_any(world, viewer, i)) || (located && owns_any(world, place, i)) {
            result.insert(i);
        }
        i += 1;
    }
    proof {
        assert forall|x: ID| world@.visible(viewer).contains(x) implies x < n by {
            if world@.has_inv(viewer) && world@.contents(viewer).contains(x) {
                lemma_contents_are_things(world@, viewer, x);
            } else {
                lemma_contents_are_things(world@, place, x);
            }
        }
    }
    result
}

/// Finds all things in the inventory of the place that can be removed, that
/// is, that are not flagged as immovable.
pub fn removable(world: &World, loc: ID) -> (r: BTreeSet<ID>)
    requires
        world.wf(),
        world@.has_inv(loc),
    ensures
        r@ == world@.flagged(loc, FlagView::Immovable, false),
{
    flagged(world, loc, &Flag::Immovable, false)
}

/// Finds all things that the viewer holds and could drop where it is.
pub fn droppable(world: &World, viewer: ID) -> (r: BTreeSet<ID>)
    requires
        world.wf(),
        world@.has_inv(viewer),
    ensures
        r@ == world@.flagged(viewer, FlagView::Immovable, false),
{
    removable(world, viewer)
}

/// Finds all things in the viewer's location that it could take, that is,
/// all that are not flagged as immovable.
pub fn gettable(world: &World, viewer: ID) -> (r: BTreeSet<ID>)
    requires
        world.wf(),
        world@.has_loc(viewer),
    ensures
        r@ == world@.flagged(world@.loc(viewer), FlagView::Immovable, false),
{
    proof {
        lemma_place_has_inventory(world@, viewer);
    }
    removable(world, self::loc(world, viewer))
}

/// Removes the thing from its current location and puts it in limbo.
pub fn take_out(world: &mut World, thing: ID)
    requires
        old(world)@.places_agree(),
        old(world)@.has_loc(thing),
        old(world)@.has_inv(LIMBO),
    ensures
        final(world)@ == old(world)@.take_out(thing),
        final(world)@.places_agree(),
        final(world)@.frame() == old(world)@.frame(),
        final(world)@.clock == old(world)@.clock,
        old(world).wf() ==> final(world).wf(),
{
    put_in(world, thing, LIMBO);
}

/// Moves the thing into the container: out of the inventory that held it,
/// into the container's. Moving a thing into the container that holds it
/// already leaves the world as it was.
pub fn put_in(world: &mut World, thing: ID, container: ID)
    requires
        old(world)@.places_agree(),
        old(world)@.has_loc(thing),
        old(world)@.has_inv(container),
    ensures
        final(world)@ == old(world)@.put_in(thing, container),
        final(world)@.places_agree(),
        final(world)@.frame() == old(world)@.frame(),
        final(world)@.clock == old(world)@.clock,
        old(world).wf() ==> final(world).wf(),
{
    proof {
        lemma_place_has_inventory(world@, thing);
        lemma_put_in_places(world@, thing, container);
    }
    let there = loc(world, thing);
    match &mut world.entities[there].inventory {
        Some(inv) => {
            inv.remove(thing);
        },
        None => {},
    }
    world.entities[thing].loc = Some(container);
    match &mut world.entities[container].inventory {
        Some(inv) => {
            inv.add(thing);
        },
        None => {},
    }
    assert(world@ =~~= old(world)@.put_in(thing, container));
}

impl WorldView {
    /// The world after the player has tried to enter the room. Where the
    /// guards allow it, the player is moved there and has seen the room, and
    /// the triggers have fired; where they do not, nothing has changed.
    pub open spec fn enter_room(self, pid: ID, room: ID) -> WorldView {
        let event = Event::EnterRoom(pid, room);
        if self.allows(event) {
            self.put_in(pid, room).set_flag(pid, FlagView::Seen(room)).fire_event(event)
        } else {
            self
        }
    }

    /// What is shown when the player tries to enter the room: the room in
    /// full on the first visit and in short on a later one, then what the
    /// triggers show; or what the guard shows that forbids it.
    pub open spec fn enter_room_lines(self, pid: ID, room: ID) -> Seq<VisualView> {
        let event = Event::EnterRoom(pid, room);
        if self.allows(event) {
            let moved = self.put_in(pid, room);
            let seen = if moved.has_flag(pid, FlagView::Seen(room)) {
                moved.brief_lines(room)
            } else {
                moved.room_lines(room)
            };
            seen + moved.set_flag(pid, FlagView::Seen(room)).fire_event_lines(event)
        } else {
            self.denial_lines(event)
        }
    }

    /// The world after the player has tried to get the thing. Where the
    /// guards allow it, the player holds the thing and the triggers have
    /// fired; where they do not, nothing has changed.
    pub open spec fn get_thing(self, pid: ID, thing: ID) -> WorldView {
        let event = Event::GetThing(pid, thing);
        if self.allows(event) {
            self.put_in(thing, pid).fire_event(event)
        } else {
            self
        }
    }

    /// What is shown when the player tries to get the thing.
    pub open spec fn get_thing_lines(self, pid: ID, thing: ID) -> Seq<VisualView> {
        let event = Event::GetThing(pid, thing);
        if self.allows(event) {
            line(VisualKind::Act, "Taken."@) + self.put_in(thing, pid).fire_event_lines(event)
        } else {
            self.denial_lines(event)
        }
    }

    /// The world after the player has tried to read the thing. Where the
    /// guards allow it, the triggers have fired; where they do not, nothing
    /// has changed.
    pub open spec fn read_thing(self, pid: ID, thing: ID) -> WorldView {
        let event = Event::ReadThing(pid, thing);
        if self.allows(event) {
            self.fire_event(event)
        } else {
            self
        }
    }

    /// What is shown when the player tries to read the thing.
    pub open spec fn read_thing_lines(self, pid: ID, thing: ID) -> Seq<VisualView> {
        let event = Event::ReadThing(pid, thing);
        if self.allows(event) {
            self.prose_lines(thing, ProseType::Book) + self.fire_event_lines(event)
        } else {
            self.denial_lines(event)
        }
    }
}

/// Moving a thing keeps the marks of the rules.
pub proof fn lemma_put_in_marks(w: WorldView, thing: ID, container: ID)
    requires
        w.places_agree(),
        w.has_loc(thing),
        w.has_inv(container),
    ensures
        w.keeps_marks(w.put_in(thing, container)),
{
    let v = w.put_in(thing, container);
    lemma_put_in_places(w, thing, container);
    assert forall|e: ID| w.has_flags(e) == v.has_flags(e) by {
        lemma_frame_flags(w, v, e);
    }
}

/// Entering a room, getting a thing and reading a thing keep a sound world
/// sound and keep the marks of the rules: a rule that was marked as fired
/// stays marked.
pub proof fn lemma_enter_room_marks(w: WorldView, pid: ID, room: ID)
    requires
        w.wf(),
        w.has_loc(pid),
        w.has_flags(pid),
        w.has_inv(room),
    ensures
        w.keeps_marks(w.enter_room(pid, room)),
        w.enter_room(pid, room).wf(),
        w.enter_room(pid, room).frame() == w.frame(),
{
    let event = Event::EnterRoom(pid, room);
    if w.allows(event) {
        lemma_put_in_places(w, pid, room);
        lemma_put_in_marks(w, pid, room);
        let moved = w.put_in(pid, room);
        rule::lemma_set_flag_marks(moved, pid, FlagView::Seen(room));
        lemma_with_flags_wf(
            moved,
            pid,
            moved.flags(pid).insert(FlagView::Seen(room)),
        );
        let marked = moved.set_flag(pid, FlagView::Seen(room));
        rule::lemma_fire_event_marks(marked, event);
    }
}

/// See `lemma_enter_room_marks`.
pub proof fn lemma_get_thing_marks(w: WorldView, pid: ID, thing: ID)
    requires
        w.wf(),
        w.has_loc(thing),
        w.has_inv(pid),
    ensures
        w.keeps_marks(w.get_thing(pid, thing)),
        w.get_thing(pid, thing).wf(),
        w.get_thing(pid, thing).frame() == w.frame(),
{
    let event = Event::GetThing(pid, thing);
    if w.allows(event) {
        lemma_put_in_places(w, thing, pid);
        lemma_put_in_marks(w, thing, pid);
        let moved = w.put_in(thing, pid);
        rule::lemma_fire_event_marks(moved, event);
    }
}

/// See `lemma_enter_room_marks`.
pub proof fn lemma_read_thing_marks(w: WorldView, pid: ID, thing: ID)
    requires
        w.wf(),
    ensures
        w.keeps_marks(w.read_thing(pid, thing)),
        w.read_thing(pid, thing).wf(),
        w.read_thing(pid, thing).frame() == w.frame(),
{
    let event = Event::ReadThing(pid, thing);
    if w.allows(event) {
        rule::lemma_fire_event_marks(w, event);
    }
}

/// Where a guard forbids it, entering a room, getting a thing or reading a
/// thing changes nothing in the world, and shows what the guard shows and
/// nothing of any trigger.
pub proof fn lemma_guard_veto(w: WorldView, pid: ID, id: ID)
    ensures
        !w.allows(Event::EnterRoom(pid, id)) ==> w.enter_room(pid, id) == w
            && w.enter_room_lines(pid, id) == w.denial_lines(Event::EnterRoom(pid, id)),
        !w.allows(Event::GetThing(pid, id)) ==> w.get_thing(pid, id) == w && w.get_thing_lines(
            pid,
            id,
        ) == w.denial_lines(Event::GetThing(pid, id)),
        !w.allows(Event::ReadThing(pid, id)) ==> w.read_thing(pid, id) == w
            && w.read_thing_lines(pid, id) == w.denial_lines(Event::ReadThing(pid, id)),
{
}

/// The player tries to enter the room. The guards are asked first: where one
/// forbids it, its messages are shown and nothing else happens. Otherwise the
/// player is moved into the room, the room is described (in full when the
/// player has not seen it before), the player has seen it, and the triggers
/// fire.
pub fn enter_room(world: &mut World, pid: ID, room: ID, out: &mut Vec<Visual>) -> (r: Result<
    (),
    String,
>)
    requires
        old(world).wf(),
        old(world)@.has_loc(pid),
        old(world)@.has_flags(pid),
        old(world)@.is_room(room),
    ensures
        r is Ok,
        final(world)@ == old(world)@.enter_room(pid, room),
        final(world).wf(),
        final(world)@.frame() == old(world)@.frame(),
        final(world)@.clock == old(world)@.clock,
        lines(final(out)@) == lines(old(out)@) + old(world)@.enter_room_lines(pid, room),
        !old(world)@.allows(Event::EnterRoom(pid, room)) ==> final(world)@ == old(world)@,
        !old(world)@.allows(Event::EnterRoom(pid, room)) ==> lines(final(out)@) == lines(
            old(out)@,
        ) + old(world)@.denial_lines(Event::EnterRoom(pid, room)),
{
    let event = Event::EnterRoom(pid, room);
    if rule::allows(world, &event, out) {
        put_in(world, pid, room);
        proof {
            lemma_frame_flags(old(world)@, world@, pid);
            lemma_frame_flags(old(world)@, world@, room);
        }
        if !world.has_flag(pid, &Flag::Seen(room)) {
            visual::room(world, room, out);
        } else {
            visual::room_brief(world, room, out);
        }
        world.set_flag(pid, Flag::Seen(room));
        rule::fire_event(world, &event, out);
    }
    Ok(())
}

/// The player tries to get the thing. The guards are asked first: where one
/// forbids it, its messages are shown and nothing else happens. Otherwise the
/// thing is moved into the player's inventory and the triggers fire.
pub fn get_thing(world: &mut World, pid: ID, thing: ID, out: &mut Vec<Visual>) -> (r: Result<
    (),
    String,
>)
    requires
        old(world).wf(),
        old(world)@.has_loc(thing),
        old(world)@.has_inv(pid),
    ensures
        r is Ok,
        final(world)@ == old(world)@.get_thing(pid, thing),
        final(world).wf(),
        final(world)@.frame() == old(world)@.frame(),
        final(world)@.clock == old(world)@.clock,
        lines(final(out)@) == lines(old(out)@) + old(world)@.get_thing_lines(pid, thing),
        !old(world)@.allows(Event::GetThing(pid, thing)) ==> final(world)@ == old(world)@,
        !old(world)@.allows(Event::GetThing(pid, thing)) ==> lines(final(out)@) == lines(
            old(out)@,
        ) + old(world)@.denial_lines(Event::GetThing(pid, thing)),
{
    let event = Event::GetThing(pid, thing);
    if rule::allows(world, &event, out) {
        put_in(world, thing, pid);
        visual::act("Taken.", out);
        rule::fire_event(world, &event, out);
    }
    Ok(())
}

/// The player tries to read the thing. The guards are asked first: where one
/// forbids it, its messages are shown and nothing else happens. Otherwise
/// what the thing says is shown and the triggers fire.
pub fn read_thing(world: &mut World, pid: ID, thing: ID, out: &mut Vec<Visual>) -> (r: Result<
    (),
    String,
>)
    requires
        old(world).wf(),
    ensures
        r is Ok,
        final(world)@ == old(world)@.read_thing(pid, thing),
        final(world).wf(),
        final(world)@.frame() == old(world)@.frame(),
        final(world)@.clock == old(world)@.clock,
        lines(final(out)@) == lines(old(out)@) + old(world)@.read_thing_lines(pid, thing),
        !old(world)@.allows(Event::ReadThing(pid, thing)) ==> final(world)@ == old(world)@,
        !old(world)@.allows(Event::ReadThing(pid, thing)) ==> lines(final(out)@) == lines(
            old(out)@,
        ) + old(world)@.denial_lines(Event::ReadThing(pid, thing)),
{
    let event = Event::ReadThing(pid, thing);
    if rule::allows(world, &event, out) {
        visual::read(world, thing, out);
        rule::fire_event(world, &event, out);
    }
    Ok(())
}

} // verus!
