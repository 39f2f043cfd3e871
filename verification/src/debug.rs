//! Looking into the game: listings of the entities for whoever builds a
//! scenario.

use crate::text::decimal;
use crate::text::decimal_text;
use crate::types::ID;
use crate::types::Text;
use crate::visual::line;
use crate::visual::lines;
use crate::visual::Visual;
use crate::visual::VisualKind;
use crate::visual::VisualView;
use crate::world::World;
use crate::world::WorldView;
use std::string::String;
use vstd::prelude::*;
use vstd::string::StringExecFns;

verus! {

impl WorldView {
    /// The entity in a listing: its identity in brackets, and its tag.
    pub open spec fn entry(self, id: ID) -> Text {
        "["@ + decimal(id as nat) + "] "@ + self.get(id).tag
    }

    /// The listing of the entities below `n`.
    pub open spec fn listing(self, n: nat) -> Seq<VisualView>
        decreases n,
    {
        if n == 0 {
            Seq::<VisualView>::empty()
        } else {
            self.listing((n - 1) as nat) + line(VisualKind::Info, self.entry((n - 1) as ID))
        }
    }

    /// What is shown of an entity that is looked into: its entry in the
    /// listing, its name if it has one, and where it is if it is
    /// somewhere.
    pub open spec fn dump(self, id: ID) -> Seq<VisualView> {
        let e = self.get(id);
        line(VisualKind::Info, self.entry(id)) + (if e.name is Some {
            line(VisualKind::Info, "name: "@ + e.name->0)
        } else {
            Seq::<VisualView>::empty()
        }) + (if e.loc is Some {
            line(VisualKind::Info, "location: "@ + decimal(e.loc->0 as nat))
        } else {
            Seq::<VisualView>::empty()
        })
    }
}

/// The entity in a listing.
fn entry(world: &World, id: ID) -> (r: String)
    requires
        world@.has(id),
    ensures
        r@ == world@.entry(id),
{
    let mut s = String::from_str("[");
    s.append(decimal_text(id).as_str());
    s.append("] ");
    s.append(world.entities[id].tag.as_str());
    s
}

/// Appends a message.
fn show(out: &mut Vec<Visual>, text: String)
    ensures
        lines(final(out)@) == lines(old(out)@) + line(VisualKind::Info, text@),
{
    out.push(Visual { kind: VisualKind::Info, text });
}

/// List all of the available entities.
pub fn list_world(world: &World, out: &mut Vec<Visual>)
    ensures
        lines(final(out)@) == lines(old(out)@) + world@.listing(world@.entities.len()),
{
    let n = world.entities.len();
    let mut i: usize = 0;
    while i < n
        invariant
            i <= n,
            n == world@.entities.len(),
            lines(out@) == lines(old(out)@) + world@.listing(i as nat),
        decreases n - i,
    {
        let text = entry(world, i);
        show(out, text);
        i += 1;
    }
}

/// Dump information about the given entity.
pub fn dump_entity(world: &World, id: ID, out: &mut Vec<Visual>)
    requires
        world@.has(id),
    ensures
        lines(final(out)@) == lines(old(out)@) + world@.dump(id),
{
    let text = entry(world, id);
    show(out, text);
    match &world.entities[id].name {
        Some(name) => {
            let mut s = String::from_str("name: ");
            s.append(name.as_str());
            show(out, s);
        },
        None => {
        },
    }
    match world.entities[id].loc {
        Some(c) => {
            let mut s = String::from_str("location: ");
            s.append(decimal_text(c).as_str());
            show(out, s);
        },
        None => {
        },
    }
}

} // verus!
