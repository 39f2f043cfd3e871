//! Scripts: ordered lists of actions, built by rules and commands and then
//! applied to the world.

use crate::phys::lemma_put_in_places;
use crate::phys::put_in;
use crate::phys::take_out;
use crate::types::actions_view;
use crate::types::Action;
use crate::types::ActionView;
use crate::types::Flag;
use crate::types::FlagView;
use crate::types::ID;
use crate::visual::line;
use crate::visual::lines;
use crate::visual::Visual;
use crate::visual::VisualKind;
use crate::visual::VisualView;
use crate::world::lemma_frame_flags;
use crate::world::lemma_with_flags_wf;
use crate::world::only_prints;
use crate::world::LIMBO;
use crate::world::World;
use crate::world::WorldView;
use vstd::prelude::*;

verus! {

/// An ordered list of actions.
#[derive(Debug)]
pub struct Script {
    pub actions: Vec<Action>,
}

impl View for Script {
    type V = Seq<ActionView>;

    open spec fn view(&self) -> Seq<ActionView> {
        actions_view(self.actions@)
    }
}

impl Script {
    /// The script that does nothing.
    pub fn new() -> (r: Script)
        ensures
            r@ == Seq::<ActionView>::empty(),
    {
        let r = Script { actions: Vec::new() };
        r
    }

    /// Appends an action.
    pub fn add(&mut self, action: Action)
        ensures
            final(self)@ == old(self)@.push(action@),
    {
        self.actions.push(action);
    }

    /// Appends: show the message.
    pub fn print(&mut self, text: &str)
        ensures
            final(self)@ == old(self)@.push(ActionView::Print(text@)),
    {
        self.add(Action::Print(text.to_owned()));
    }

    /// Appends: set the flag on the entity.
    pub fn set_flag(&mut self, id: ID, flag: Flag)
        ensures
            final(self)@ == old(self)@.push(ActionView::SetFlag(id, flag@)),
    {
        self.add(Action::SetFlag(id, flag));
    }

    /// Appends: clear the flag on the entity.
    pub fn unset_flag(&mut self, id: ID, flag: Flag)
        ensures
            final(self)@ == old(self)@.push(ActionView::ClearFlag(id, flag@)),
    {
        self.add(Action::ClearFlag(id, flag));
    }

    /// Appends: move the thing into the container.
    pub fn put_in(&mut self, thing: ID, container: ID)
        ensures
            final(self)@ == old(self)@.push(ActionView::PutIn(thing, container)),
    {
        self.add(Action::PutIn(thing, container));
    }

    /// Appends: move the thing to limbo.
    pub fn forget(&mut self, thing: ID)
        ensures
            final(self)@ == old(self)@.push(ActionView::Forget(thing)),
    {
        self.add(Action::Forget(thing));
    }

    /// Appends: mark the entity dead.
    pub fn kill(&mut self, id: ID)
        ensures
            final(self)@ == old(self)@.push(ActionView::Kill(id)),
    {
        self.add(Action::Kill(id));
    }

    /// Appends: mark the entity alive again.
    pub fn revive(&mut self, id: ID)
        ensures
            final(self)@ == old(self)@.push(ActionView::Revive(id)),
    {
        self.add(Action::Revive(id));
    }
}

/// What an action shows: a message its text, any other action nothing.
pub open spec fn said(a: ActionView) -> Seq<VisualView> {
    match a {
        ActionView::Print(text) => line(VisualKind::Info, text),
        _ => Seq::<VisualView>::empty(),
    }
}

/// What a script shows: the messages among its actions, in order.
pub open spec fn prints(s: Seq<ActionView>) -> Seq<VisualView>
    decreases s.len(),
{
    if s.len() == 0 {
        Seq::<VisualView>::empty()
    } else {
        prints(s.drop_last()) + said(s.last())
    }
}

impl WorldView {
    /// The world after the action is applied.
    pub open spec fn apply(self, a: ActionView) -> WorldView {
        match a {
            ActionView::Print(text) => self,
            ActionView::SetFlag(id, flag) => self.set_flag(id, flag),
            ActionView::ClearFlag(id, flag) => self.clear_flag(id, flag),
            ActionView::PutIn(thing, container) => self.put_in(thing, container),
            ActionView::Forget(thing) => self.take_out(thing),
            ActionView::Kill(id) => self.set_flag(id, FlagView::Dead),
            ActionView::Revive(id) => self.clear_flag(id, FlagView::Dead),
        }
    }

    /// The world after the actions of the script are applied in order.
    pub open spec fn run(self, s: Seq<ActionView>) -> WorldView
        decreases s.len(),
    {
        if s.len() == 0 {
            self
        } else {
            self.run(s.drop_last()).apply(s.last())
        }
    }
}

/// Whether an action can be applied depends only on the frame.
pub proof fn lemma_frame_action(w: WorldView, a: ActionView)
    ensures
        w.frame().valid_action(a) == w.valid_action(a),
{
}

/// Applying an action that can be applied keeps a sound world sound and its
/// frame as it was. The flags of the rule engine stay as they were.
pub proof fn lemma_apply_wf(w: WorldView, a: ActionView)
    requires
        w.wf(),
        w.valid_action(a),
    ensures
        w.apply(a).wf(),
        w.apply(a).frame() == w.frame(),
        forall|id: ID, f: FlagView|
            f.reserved() ==> w.apply(a).has_flag(id, f) == w.has_flag(id, f),
{
    let v = w.apply(a);
    match a {
        ActionView::Print(text) => {},
        ActionView::SetFlag(id, flag) => {
            lemma_with_flags_wf(w, id, w.flags(id).insert(flag));
        },
        ActionView::ClearFlag(id, flag) => {
            lemma_with_flags_wf(w, id, w.flags(id).remove(flag));
        },
        ActionView::PutIn(thing, container) => {
            lemma_put_in_places(w, thing, container);
        },
        ActionView::Forget(thing) => {
            lemma_put_in_places(w, thing, LIMBO);
        },
        ActionView::Kill(id) => {
            lemma_with_flags_wf(w, id, w.flags(id).insert(FlagView::Dead));
        },
        ActionView::Revive(id) => {
            lemma_with_flags_wf(w, id, w.flags(id).remove(FlagView::Dead));
        },
    }
    assert forall|id: ID, f: FlagView| f.reserved() implies v.has_flag(id, f) == w.has_flag(
        id,
        f,
    ) by {
        lemma_frame_flags(w, v, id);
    }
}

/// Running a script that can be run keeps a sound world sound and its frame
/// as it was. The flags of the rule engine stay as they were.
pub proof fn lemma_run_wf(w: WorldView, s: Seq<ActionView>)
    requires
        w.wf(),
        w.valid_script(s),
    ensures
        w.run(s).wf(),
        w.run(s).frame() == w.frame(),
        forall|id: ID, f: FlagView| f.reserved() ==> w.run(s).has_flag(id, f) == w.has_flag(id, f),
    decreases s.len(),
{
    if s.len() > 0 {
        let t = s.drop_last();
        assert forall|i: int| 0 <= i < t.len() implies w.valid_action(#[trigger] t[i]) by {
        }
        lemma_run_wf(w, t);
        let v = w.run(t);
        lemma_frame_action(w, s.last());
        lemma_apply_wf(v, s.last());
    }
}

impl Script {
    /// Does the script do nothing but show messages?
    pub fn only_prints(&self) -> (r: bool)
        ensures
            r == only_prints(self@),
    {
        let mut i: usize = 0;
        while i < self.actions.len()
            invariant
                i <= self.actions@.len(),
                forall|j: int| 0 <= j < i ==> (#[trigger] self@[j]) is Print,
            decreases self.actions@.len() - i,
        {
            match &self.actions[i] {
                Action::Print(text) => {},
                _ => {
                    assert(!(self@[i as int] is Print));
                    return false;
                },
            }
            i += 1;
        }
        true
    }

    /// Shows the messages of the script, and does nothing else.
    pub fn show(&self, out: &mut Vec<Visual>)
        ensures
            lines(final(out)@) == lines(old(out)@) + prints(self@),
    {
        let n = self.actions.len();
        let mut i: usize = 0;
        while i < n
            invariant
                i <= n,
                n == self.actions@.len(),
                lines(out@) == lines(old(out)@) + prints(self@.take(i as int)),
            decreases n - i,
        {
            let ghost before = lines(out@);
            match &self.actions[i] {
                Action::Print(text) => {
                    out.push(Visual { kind: VisualKind::Info, text: text.clone() });
                },
                _ => {},
            }
            proof {
                assert(lines(out@) =~= before + said(self@[i as int]));
                assert(self@.take(i + 1).drop_last() =~= self@.take(i as int));
            }
            i += 1;
        }
        assert(self@.take(n as int) =~= self@);
    }

    /// Applies the actions of the script to the world, in order, and shows
    /// its messages.
    pub fn execute(&self, world: &mut World, out: &mut Vec<Visual>)
        requires
            old(world).wf(),
            old(world)@.valid_script(self@),
        ensures
            final(world)@ == old(world)@.run(self@),
            final(world).wf(),
            final(world)@.frame() == old(world)@.frame(),
            final(world)@.clock == old(world)@.clock,
            lines(final(out)@) == lines(old(out)@) + prints(self@),
    {
        let n = self.actions.len();
        let mut i: usize = 0;
        while i < n
            invariant
                i <= n,
                n == self.actions@.len(),
                world.wf(),
                world@.frame() == old(world)@.frame(),
                world@.clock == old(world)@.clock,
                old(world)@.valid_script(self@),
                world@ == old(world)@.run(self@.take(i as int)),
                lines(out@) == lines(old(out)@) + prints(self@.take(i as int)),
            decreases n - i,
        {
            let ghost before = lines(out@);
            proof {
                lemma_frame_action(old(world)@, self@[i as int]);
                assert(self@.take(i + 1).drop_last() =~= self@.take(i as int));
            }
            match &self.actions[i] {
                Action::Print(text) => {
                    out.push(Visual { kind: VisualKind::Info, text: text.clone() });
                },
                Action::SetFlag(id, flag) => {
                    world.set_flag(*id, flag.clone());
                },
                Action::ClearFlag(id, flag) => {
                    world.clear_flag(*id, flag);
                },
                Action::PutIn(thing, container) => {
                    put_in(world, *thing, *container);
                },
                Action::Forget(thing) => {
                    take_out(world, *thing);
                },
                Action::Kill(id) => {
                    world.set_flag(*id, Flag::Dead);
                },
                Action::Revive(id) => {
                    world.clear_flag(*id, &Flag::Dead);
                },
            }
            proof {
                assert(lines(out@) =~= before + said(self@[i as int]));
            }
            i += 1;
        }
        assert(self@.take(n as int) =~= self@);
    }
}

impl Clone for Script {
    fn clone(&self) -> (r: Script)
        ensures
            r@ == self@,
    {
        let actions = self.actions.clone();
        let r = Script { actions };
        r
    }
}

} // verus!
