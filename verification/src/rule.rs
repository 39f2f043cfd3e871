//! The rule system: guards, which are asked before something happens and can
//! forbid it, and triggers, which fire after it has happened.

use crate::least::least;
use crate::least::lemma_least_some;
use crate::script::lemma_run_wf;
use crate::script::prints;
use crate::types::ActionView;
use crate::types::Event;
use crate::types::Flag;
use crate::types::FlagView;
use crate::types::ID;
use crate::types::RuleView;
use crate::visual::lines;
use crate::visual::Visual;
use crate::visual::VisualView;
use crate::world::lemma_frame_flags;
use crate::world::lemma_wf_well_shaped;
use crate::world::lemma_with_flags_wf;
use crate::world::World;
use crate::world::WorldView;
use vstd::prelude::*;

verus! {

impl WorldView {
    /// The rule that the entity is. Meant for a rule.
    pub open spec fn rule(self, id: ID) -> RuleView {
        self.get(id).rule->0
    }

    /// Is the entity a trigger bound to the event?
    pub open spec fn is_trigger(self, id: ID, event: Event) -> bool {
        &&& self.has(id)
        &&& self.get(id).rule is Some
        &&& !self.rule(id).is_guard
        &&& self.rule(id).event == event
    }

    /// Is the entity a guard bound to the event?
    pub open spec fn is_guard(self, id: ID, event: Event) -> bool {
        &&& self.has(id)
        &&& self.get(id).rule is Some
        &&& self.rule(id).is_guard
        &&& self.rule(id).event == event
    }

    /// Is the rule armed: can it still fire? A rule that fires once only is
    /// armed until it has fired; any other rule is always armed.
    pub open spec fn armed(self, id: ID) -> bool {
        !(self.has_flag(id, FlagView::FireOnce) && self.has_flag(id, FlagView::Fired))
    }

    /// Does the rule fire on the event in this world?
    pub open spec fn fires(self, id: ID, event: Event) -> bool {
        self.is_trigger(id, event) && self.armed(id) && self.holds(self.rule(id).predicate)
    }

    /// The world after the rule has had its chance to fire on the event:
    /// where it fires, its script is run and it is marked as fired.
    pub open spec fn fire_one(self, id: ID, event: Event) -> WorldView {
        if self.fires(id, event) {
            self.run(self.rule(id).script).set_flag(id, FlagView::Fired)
        } else {
            self
        }
    }

    /// What the rule shows when it has its chance to fire on the event.
    pub open spec fn fire_one_lines(self, id: ID, event: Event) -> Seq<VisualView> {
        if self.fires(id, event) {
            prints(self.rule(id).script)
        } else {
            Seq::<VisualView>::empty()
        }
    }

    /// The world after the rules below `n` have had their chance to fire on
    /// the event, in the order of their identities. Each sees what those
    /// before it have done.
    pub open spec fn fire_upto(self, event: Event, n: nat) -> WorldView
        decreases n,
    {
        if n == 0 {
            self
        } else {
            self.fire_upto(event, (n - 1) as nat).fire_one((n - 1) as ID, event)
        }
    }

    /// What the rules below `n` show when they have their chance to fire on
    /// the event.
    pub open spec fn fire_lines_upto(self, event: Event, n: nat) -> Seq<VisualView>
        decreases n,
    {
        if n == 0 {
            Seq::<VisualView>::empty()
        } else {
            self.fire_lines_upto(event, (n - 1) as nat) + self.fire_upto(
                event,
                (n - 1) as nat,
            ).fire_one_lines((n - 1) as ID, event)
        }
    }

    /// The world after the event has been fired: after every rule has had its
    /// chance to fire on it.
    pub open spec fn fire_event(self, event: Event) -> WorldView {
        self.fire_upto(event, self.entities.len())
    }

    /// What firing the event shows.
    pub open spec fn fire_event_lines(self, event: Event) -> Seq<VisualView> {
        self.fire_lines_upto(event, self.entities.len())
    }

    /// Does the entity, a guard bound to the event, forbid it?
    pub open spec fn denies(self, id: ID, event: Event) -> bool {
        self.is_guard(id, event) && !self.holds(self.rule(id).predicate)
    }

    /// Is the event allowed: does no guard forbid it?
    pub open spec fn allows(self, event: Event) -> bool {
        forall|id: ID| !self.denies(id, event)
    }

    /// The first guard that forbids the event, if one does.
    pub open spec fn first_denier(self, event: Event) -> Option<ID> {
        least(|id: ID| self.denies(id, event))
    }

    /// What is shown when the event is forbidden: the messages of the first
    /// guard that forbids it. Nothing where the event is allowed.
    pub open spec fn denial_lines(self, event: Event) -> Seq<VisualView> {
        match self.first_denier(event) {
            Some(id) => prints(self.rule(id).script),
            None => Seq::<VisualView>::empty(),
        }
    }
}

/// Giving a rule its chance to fire keeps a sound world sound and its frame
/// as it was.
pub proof fn lemma_fire_one_wf(w: WorldView, id: ID, event: Event)
    requires
        w.wf(),
    ensures
        w.fire_one(id, event).wf(),
        w.fire_one(id, event).frame() == w.frame(),
{
    if w.fires(id, event) {
        lemma_wf_well_shaped(w);
        assert(w.valid_entity(id));
        let s = w.rule(id).script;
        lemma_run_wf(w, s);
        let v = w.run(s);
        lemma_frame_flags(w, v, id);
        lemma_with_flags_wf(v, id, v.flags(id).insert(FlagView::Fired));
    }
}

/// Firing an event keeps a sound world sound and its frame as it was.
pub proof fn lemma_fire_upto_wf(w: WorldView, event: Event, n: nat)
    requires
        w.wf(),
    ensures
        w.fire_upto(event, n).wf(),
        w.fire_upto(event, n).frame() == w.frame(),
    decreases n,
{
    if n > 0 {
        lemma_fire_upto_wf(w, event, (n - 1) as nat);
        lemma_fire_one_wf(w.fire_upto(event, (n - 1) as nat), (n - 1) as ID, event);
    }
}

impl WorldView {
    /// Does the later world keep the marks of the rules of this one: is
    /// every rule that fires once only still such a rule and no other rule
    /// one, and is every rule that was marked as fired still marked?
    pub open spec fn keeps_marks(self, later: WorldView) -> bool {
        &&& forall|r: ID|
            #![trigger later.has_flag(r, FlagView::FireOnce)]
            later.has_flag(r, FlagView::FireOnce) == self.has_flag(r, FlagView::FireOnce)
        &&& forall|r: ID|
            #![trigger later.has_flag(r, FlagView::Fired)]
            self.has_flag(r, FlagView::Fired) ==> later.has_flag(r, FlagView::Fired)
    }
}

/// A world in which the same flags are set keeps the marks of the rules.
pub proof fn lemma_same_flags_keep_marks(w: WorldView, v: WorldView)
    requires
        forall|e: ID| w.has_flags(e) == v.has_flags(e),
        forall|e: ID| w.has_flags(e) ==> v.flags(e) == w.flags(e),
    ensures
        w.keeps_marks(v),
{
}

/// Setting a flag other than the mark of a rule that fires once only keeps
/// the marks of the rules.
pub proof fn lemma_set_flag_marks(w: WorldView, id: ID, flag: FlagView)
    requires
        w.has_flags(id),
        flag != FlagView::FireOnce,
    ensures
        w.keeps_marks(w.set_flag(id, flag)),
{
}

/// Firing an event keeps the marks of the rules.
pub proof fn lemma_fire_event_marks(w: WorldView, event: Event)
    requires
        w.wf(),
    ensures
        w.keeps_marks(w.fire_event(event)),
        w.fire_event(event).wf(),
        w.fire_event(event).frame() == w.frame(),
{
    lemma_fire_upto_marks(w, event, w.entities.len());
    lemma_fire_upto_wf(w, event, w.entities.len());
}

/// A script keeps the marks of the rules.
pub proof fn lemma_run_keeps_marks(w: WorldView, s: Seq<ActionView>)
    requires
        w.wf(),
        w.valid_script(s),
    ensures
        w.keeps_marks(w.run(s)),
{
    lemma_run_wf(w, s);
}

/// A rule that has its chance to fire keeps the marks of the rules, and is
/// marked as fired where it fires.
pub proof fn lemma_fire_one_marks(w: WorldView, id: ID, event: Event)
    requires
        w.wf(),
    ensures
        w.keeps_marks(w.fire_one(id, event)),
        w.fires(id, event) ==> w.fire_one(id, event).has_flag(id, FlagView::Fired),
{
    if w.fires(id, event) {
        lemma_wf_well_shaped(w);
        assert(w.valid_entity(id));
        let s = w.rule(id).script;
        lemma_run_wf(w, s);
        let u = w.run(s);
        lemma_frame_flags(w, u, id);
        let v = u.set_flag(id, FlagView::Fired);
        assert forall|r: ID|
            #![trigger v.has_flag(r, FlagView::FireOnce)]
            v.has_flag(r, FlagView::FireOnce) == w.has_flag(r, FlagView::FireOnce) by {
        }
        assert forall|r: ID|
            #![trigger v.has_flag(r, FlagView::Fired)]
            w.has_flag(r, FlagView::Fired) implies v.has_flag(r, FlagView::Fired) by {
        }
    }
}

/// Firing an event keeps the marks of the rules, and every rule that fires on
/// the way is marked as fired at the end.
pub proof fn lemma_fire_upto_marks(w: WorldView, event: Event, n: nat)
    requires
        w.wf(),
    ensures
        w.keeps_marks(w.fire_upto(event, n)),
        forall|r: ID|
            r < n && (#[trigger] w.fire_upto(event, r as nat)).fires(r, event) ==> w.fire_upto(
                event,
                n,
            ).has_flag(r, FlagView::Fired),
    decreases n,
{
    if n > 0 {
        let m = (n - 1) as nat;
        lemma_fire_upto_marks(w, event, m);
        lemma_fire_upto_wf(w, event, m);
        let u = w.fire_upto(event, m);
        lemma_fire_one_marks(u, m as ID, event);
        let v = u.fire_one(m as ID, event);
        assert forall|r: ID|
            r < n && (#[trigger] w.fire_upto(event, r as nat)).fires(r, event) implies v.has_flag(
            r,
            FlagView::Fired,
        ) by {
        }
    }
}

/// A rule that fires once only and has fired does not fire.
pub proof fn lemma_fired_is_spent(w: WorldView, id: ID, event: Event)
    requires
        w.has_flag(id, FlagView::FireOnce),
        w.has_flag(id, FlagView::Fired),
    ensures
        !w.fires(id, event),
        w.fire_one(id, event) == w,
        w.fire_one_lines(id, event) == Seq::<VisualView>::empty(),
{
}

/// Where an event is fired twice in sequence, a rule that fires once only
/// and fires the first time does not fire the second time: its actions are
/// carried out once.
pub proof fn lemma_once_only_fires_once(w: WorldView, event: Event, id: ID)
    requires
        w.wf(),
        w.has_flag(id, FlagView::FireOnce),
        w.fire_upto(event, id as nat).fires(id, event),
    ensures
        !w.fire_event(event).fire_upto(event, id as nat).fires(id, event),
        w.fire_event(event).fire_event(event).has_flag(id, FlagView::Fired),
{
    let n = w.entities.len();
    let first = w.fire_event(event);
    lemma_fire_upto_marks(w, event, n);
    lemma_fire_upto_wf(w, event, n);
    lemma_fire_upto_marks(first, event, id as nat);
    lemma_fire_upto_marks(first, event, first.entities.len());
}

/// Asks the guards whether the event is allowed. The first guard that forbids
/// it shows its messages; the world is not changed.
pub fn allows(world: &World, event: &Event, out: &mut Vec<Visual>) -> (r: bool)
    requires
        world.wf(),
    ensures
        r == world@.allows(*event),
        lines(final(out)@) == lines(old(out)@) + world@.denial_lines(*event),
{
    let ghost p = |id: ID| world@.denies(id, *event);
    let n = world.entities.len();
    let mut i: usize = 0;
    while i < n
        invariant
            i <= n,
            n == world@.entities.len(),
            world.wf(),
            out@ == old(out)@,
            p == (|id: ID| world@.denies(id, *event)),
            forall|j: ID| j < i ==> !#[trigger] p(j),
        decreases n - i,
    {
        match &world.entities[i].rule {
            Some(rule) => {
                if rule.is_guard && rule.event == *event {
                    proof {
                        lemma_wf_well_shaped(world@);
                        assert(world@.valid_entity(i));
                    }
                    if !world.holds(&rule.predicate) {
                        rule.script.show(out);
                        proof {
                            lemma_least_some(p, i);
                        }
                        return false;
                    }
                }
            },
            None => {},
        }
        i += 1;
    }
    proof {
        assert forall|id: ID| !#[trigger] p(id) by {
        }
        assert forall|id: ID| !world@.denies(id, *event) by {
            assert(!p(id));
        }
    }
    true
}

/// Gives the rule its chance to fire on the event.
fn fire_rule(world: &mut World, id: ID, event: &Event, out: &mut Vec<Visual>)
    requires
        old(world).wf(),
        old(world)@.has(id),
    ensures
        final(world)@ == old(world)@.fire_one(id, *event),
        final(world).wf(),
        final(world)@.frame() == old(world)@.frame(),
        final(world)@.clock == old(world)@.clock,
        lines(final(out)@) == lines(old(out)@) + old(world)@.fire_one_lines(id, *event),
{
    proof {
        lemma_wf_well_shaped(world@);
        assert(world@.valid_entity(id));
    }
    let script = match &world.entities[id].rule {
        Some(rule) => {
            if !rule.is_guard && rule.event == *event && !(world.has_flag(id, &Flag::FireOnce)
                && world.has_flag(id, &Flag::Fired)) && world.holds(&rule.predicate) {
                Some(rule.script.clone())
            } else {
                None
            }
        },
        None => None,
    };
    match script {
        Some(script) => {
            script.execute(world, out);
            proof {
                lemma_frame_flags(old(world)@, world@, id);
            }
            world.set_flag(id, Flag::Fired);
        },
        None => {
        },
    }
}

/// Fires the event: every trigger bound to it that is armed and whose
/// condition holds runs its script and is marked as fired, in the order in
/// which the rules were made. Each sees what those before it have done.
pub fn fire_event(world: &mut World, event: &Event, out: &mut Vec<Visual>)
    requires
        old(world).wf(),
    ensures
        final(world)@ == old(world)@.fire_event(*event),
        final(world).wf(),
        final(world)@.frame() == old(world)@.frame(),
        final(world)@.clock == old(world)@.clock,
        lines(final(out)@) == lines(old(out)@) + old(world)@.fire_event_lines(*event),
{
    let n = world.entities.len();
    let mut i: usize = 0;
    while i < n
        invariant
            i <= n,
            n == old(world)@.entities.len(),
            n == world@.entities.len(),
            world.wf(),
            world@.frame() == old(world)@.frame(),
            world@.clock == old(world)@.clock,
            world@ == old(world)@.fire_upto(*event, i as nat),
            lines(out@) == lines(old(out)@) + old(world)@.fire_lines_upto(*event, i as nat),
        decreases n - i,
    {
        fire_rule(world, i, event, out);
        i += 1;
    }
}

/// The rule system: fires the rules that are bound to the passing of a turn.
pub fn system(world: &mut World, out: &mut Vec<Visual>)
    requires
        old(world).wf(),
    ensures
        final(world)@ == old(world)@.fire_event(Event::Turn),
        final(world).wf(),
        final(world)@.frame() == old(world)@.frame(),
        final(world)@.clock == old(world)@.clock,
        lines(final(out)@) == lines(old(out)@) + old(world)@.fire_event_lines(Event::Turn),
{
    fire_event(world, &Event::Turn, out);
}

} // verus!
