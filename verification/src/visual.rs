//! What the player is shown: lines of text, each of a kind, resolved against
//! the world at the moment they are produced. How they are laid out on a
//! screen is left to whoever prints them.

use crate::phys::lemma_contents_are_things;
use crate::types::Flag;
use crate::types::FlagView;
use crate::types::ID;
use crate::types::Prose;
use crate::types::ProseType;
use crate::types::ProseView;
use crate::types::Text;
use crate::world::lemma_wf_well_shaped;
use crate::world::World;
use crate::world::WorldView;
use std::string::String;
use vstd::prelude::*;

verus! {

/// The kinds of lines that the player is shown.
#[derive(PartialEq, Eq, Structural, Clone, Copy, Debug, Hash)]
pub enum VisualKind {
    /// The name of a room that is being described.
    Room,
    /// Descriptive prose.
    Prose,
    /// The name of a thing that is present or carried.
    Item,
    /// The confirmation of something the player did.
    Act,
    /// A message from the game.
    Info,
    /// The reason why a command was not carried out.
    Error,
}

/// A line shown to the player.
#[derive(Debug)]
pub struct Visual {
    pub kind: VisualKind,
    pub text: String,
}

/// A line as contracts see it.
pub struct VisualView {
    pub kind: VisualKind,
    pub text: Text,
}

impl View for Visual {
    type V = VisualView;

    open spec fn view(&self) -> VisualView {
        VisualView { kind: self.kind, text: self.text@ }
    }
}

impl Clone for Visual {
    fn clone(&self) -> (r: Visual)
        ensures
            r@ == self@,
    {
        Visual { kind: self.kind, text: self.text.clone() }
    }
}

/// The views of the lines of a sequence.
pub open spec fn lines(s: Seq<Visual>) -> Seq<VisualView> {
    Seq::new(s.len(), |i: int| s[i]@)
}

/// The one line of the given kind and text.
pub open spec fn line(kind: VisualKind, text: Text) -> Seq<VisualView> {
    seq![VisualView { kind, text }]
}

/// In `listed`: which of the things that an entity holds are shown, and how.
#[derive(PartialEq, Eq, Structural, Clone, Copy, Debug)]
pub enum Listing {
    /// What is not scenery, each by its name.
    Items,
    /// What is scenery, each by its scenery prose, if it has any.
    Scenery,
}

impl WorldView {
    /// The text of the prose at this moment.
    pub open spec fn prose_text(self, p: ProseView) -> Text {
        match p {
            ProseView::Prose(text) => text,
            ProseView::Hook(hook) => if self.holds(hook.when) {
                hook.shown
            } else {
                hook.otherwise
            },
        }
    }

    /// The prose of the given kind of the entity, as a line; nothing where
    /// the entity has no such prose.
    pub open spec fn prose_lines(self, id: ID, kind: ProseType) -> Seq<VisualView> {
        if self.has_prose_type(id, kind) {
            line(VisualKind::Prose, self.prose_text(self.get(id).prose->0.get(kind)->0))
        } else {
            Seq::<VisualView>::empty()
        }
    }

    /// What the entity `id` contributes to a listing of what `owner` holds.
    pub open spec fn listed_one(self, owner: ID, id: ID, how: Listing) -> Seq<VisualView> {
        if !self.owns(owner, id) {
            Seq::<VisualView>::empty()
        } else if how == Listing::Items {
            if self.has_flag(id, FlagView::Scenery) {
                Seq::<VisualView>::empty()
            } else {
                line(VisualKind::Item, self.get(id).display_name())
            }
        } else {
            if self.has_flag(id, FlagView::Scenery) {
                self.prose_lines(id, ProseType::Scenery)
            } else {
                Seq::<VisualView>::empty()
            }
        }
    }

    /// The listing of what `owner` holds among the entities below `n`, least
    /// identity first.
    pub open spec fn listed(self, owner: ID, n: nat, how: Listing) -> Seq<VisualView>
        decreases n,
    {
        if n == 0 {
            Seq::<VisualView>::empty()
        } else {
            self.listed(owner, (n - 1) as nat, how) + self.listed_one(
                owner,
                (n - 1) as ID,
                how,
            )
        }
    }

    /// The name of the room, as a line.
    pub open spec fn title(self, room: ID) -> Seq<VisualView> {
        line(VisualKind::Room, self.get(room).display_name())
    }

    /// The full description of a room: its name, its prose, what its scenery
    /// adds, and the things in it.
    pub open spec fn room_lines(self, room: ID) -> Seq<VisualView> {
        self.title(room) + self.prose_lines(room, ProseType::Room) + self.listed(
            room,
            self.entities.len(),
            Listing::Scenery,
        ) + self.listed(room, self.entities.len(), Listing::Items)
    }

    /// The short description of a room: its name and the things in it.
    pub open spec fn brief_lines(self, room: ID) -> Seq<VisualView> {
        self.title(room) + self.listed(room, self.entities.len(), Listing::Items)
    }

    /// The things that the entity carries.
    pub open spec fn inventory_lines(self, id: ID) -> Seq<VisualView> {
        self.listed(id, self.entities.len(), Listing::Items)
    }
}

/// Appends a line.
fn show(out: &mut Vec<Visual>, kind: VisualKind, text: String)
    ensures
        lines(final(out)@) == lines(old(out)@) + line(kind, text@),
{
    out.push(Visual { kind, text });
}

/// Shows the confirmation of something the player did.
pub fn act(text: &str, out: &mut Vec<Visual>)
    ensures
        lines(final(out)@) == lines(old(out)@) + line(VisualKind::Act, text@),
{
    show(out, VisualKind::Act, text.to_owned());
}

/// Shows a message from the game.
pub fn info(text: &str, out: &mut Vec<Visual>)
    ensures
        lines(final(out)@) == lines(old(out)@) + line(VisualKind::Info, text@),
{
    show(out, VisualKind::Info, text.to_owned());
}

/// Shows the reason why a command was not carried out.
pub fn error(text: &str, out: &mut Vec<Visual>)
    ensures
        lines(final(out)@) == lines(old(out)@) + line(VisualKind::Error, text@),
{
    show(out, VisualKind::Error, text.to_owned());
}

/// The text of the prose at this moment.
pub fn prose_text(world: &World, prose: &Prose) -> (r: String)
    requires
        world@.valid_prose(Some(prose@)),
    ensures
        r@ == world@.prose_text(prose@),
{
    match prose {
        Prose::Prose(text) => text.clone(),
        Prose::Hook(hook) => {
            if world.holds(&hook.when) {
                hook.shown.clone()
            } else {
                hook.otherwise.clone()
            }
        },
    }
}

/// Shows the prose of the given kind of the entity, if it has any.
pub fn prose(world: &World, id: ID, kind: ProseType, out: &mut Vec<Visual>)
    requires
        world.wf(),
    ensures
        lines(final(out)@) == lines(old(out)@) + world@.prose_lines(id, kind),
{
    if id < world.entities.len() {
        match &world.entities[id].prose {
            Some(p) => {
                match p.get(kind) {
                    Some(prose) => {
                        proof {
                            lemma_wf_well_shaped(world@);
                            assert(world@.valid_entity(id));
                        }
                        let text = prose_text(world, prose);
                        show(out, VisualKind::Prose, text);
                        return ;
                    },
                    None => {},
                }
            },
            None => {},
        }
    }
}

/// Can the entity be read: does it have prose for reading?
pub fn can_read(world: &World, id: ID) -> (r: bool)
    ensures
        r == world@.has_prose_type(id, ProseType::Book),
{
    world.has_prose_type(id, ProseType::Book)
}

/// Shows what the owner holds: the things that are not scenery by name, or
/// the scenery by its prose.
fn listed(world: &World, owner: ID, how: Listing, out: &mut Vec<Visual>)
    requires
        world.wf(),
        world@.has_inv(owner),
    ensures
        lines(final(out)@) == lines(old(out)@) + world@.listed(
            owner,
            world@.entities.len(),
            how,
        ),
{
    let n = world.entities.len();
    let mut i: usize = 0;
    while i < n
        invariant
            i <= n,
            n == world@.entities.len(),
            world.wf(),
            world@.has_inv(owner),
            lines(out@) == lines(old(out)@) + world@.listed(owner, i as nat, how),
        decreases n - i,
    {
        let held = match &world.entities[owner].inventory {
            Some(inv) => inv.has(i),
            None => false,
        };
        if held {
            proof {
                lemma_contents_are_things(world@, owner, i);
            }
            let is_scenery = world.has_flag(i, &Flag::Scenery);
            match how {
                Listing::Items => {
                    if !is_scenery {
                        let name = world.entities[i].display_name();
                        show(out, VisualKind::Item, name);
                    }
                },
                Listing::Scenery => {
                    if is_scenery {
                        prose(world, i, ProseType::Scenery, out);
                    }
                },
            }
        }
        i += 1;
    }
}

/// Shows the name of the room.
fn title(world: &World, room: ID, out: &mut Vec<Visual>)
    requires
        world@.has(room),
    ensures
        lines(final(out)@) == lines(old(out)@) + world@.title(room),
{
    let name = world.entities[room].display_name();
    show(out, VisualKind::Room, name);
}

/// Shows the full description of a room.
pub fn room(world: &World, id: ID, out: &mut Vec<Visual>)
    requires
        world.wf(),
        world@.is_room(id),
    ensures
        lines(final(out)@) == lines(old(out)@) + world@.room_lines(id),
{
    title(world, id, out);
    prose(world, id, ProseType::Room, out);
    listed(world, id, Listing::Scenery, out);
    listed(world, id, Listing::Items, out);
}

/// Shows the short description of a room.
pub fn room_brief(world: &World, id: ID, out: &mut Vec<Visual>)
    requires
        world.wf(),
        world@.is_room(id),
    ensures
        lines(final(out)@) == lines(old(out)@) + world@.brief_lines(id),
{
    title(world, id, out);
    listed(world, id, Listing::Items, out);
}

/// Shows what examining the thing shows.
pub fn thing(world: &World, id: ID, out: &mut Vec<Visual>)
    requires
        world.wf(),
    ensures
        lines(final(out)@) == lines(old(out)@) + world@.prose_lines(id, ProseType::Thing),
{
    prose(world, id, ProseType::Thing, out);
}

/// Shows what the player looks like.
pub fn player(world: &World, pid: ID, out: &mut Vec<Visual>)
    requires
        world.wf(),
    ensures
        lines(final(out)@) == lines(old(out)@) + world@.prose_lines(pid, ProseType::Thing),
{
    prose(world, pid, ProseType::Thing, out);
}

/// Shows what reading the thing shows.
pub fn read(world: &World, id: ID, out: &mut Vec<Visual>)
    requires
        world.wf(),
    ensures
        lines(final(out)@) == lines(old(out)@) + world@.prose_lines(id, ProseType::Book),
{
    prose(world, id, ProseType::Book, out);
}

/// Shows what the player carries.
pub fn player_inventory(world: &World, pid: ID, out: &mut Vec<Visual>)
    requires
        world.wf(),
        world@.has_inv(pid),
    ensures
        lines(final(out)@) == lines(old(out)@) + world@.inventory_lines(pid),
{
    listed(world, pid, Listing::Items, out);
}

} // verus!
