//! The vocabulary of the world: identities, directions, flags, events,
//! conditions and actions, each with the mathematical value that contracts
//! speak of.

use crate::script::Script;
use std::collections::BTreeSet;
use std::string::String;
use vstd::prelude::*;
use vstd::std_specs::cmp::OrdSpec;
use vstd::std_specs::cmp::PartialEqSpecImpl;

verus! {

/// The identity of an entity: its position in the world's entity table.
pub type ID = usize;

/// Text as contracts see it.
pub type Text = Seq<char>;

/// The text without the white space at its start and at its end.
pub uninterp spec fn trimmed(text: Seq<char>) -> Seq<char>;

/// The text without the white space at its start and at its end, as
/// `str::trim` of the standard library finds it. The claim is that what `trim`
/// returns depends on the text alone.
#[verifier::external_body]
pub(crate) fn trim(text: &str) -> (r: &str)
    ensures
        r@ == trimmed(text@),
{
    text.trim()
}

/// The view of an optional value.
pub open spec fn opt_view<T: View>(o: Option<T>) -> Option<T::V> {
    match o {
        Some(x) => Some(x@),
        None => None,
    }
}

/// The directions in which a room can be linked to another.
#[derive(PartialEq, Eq, Structural, Clone, Copy, Debug, Hash)]
pub enum Dir {
    North,
    South,
    East,
    West,
    Up,
    Down,
    In,
    Out,
}

/// The kinds of prose an entity can carry.
#[derive(PartialEq, Eq, Structural, Clone, Copy, Debug, Hash)]
pub enum ProseType {
    /// The description of a room.
    Room,
    /// What examining a thing shows.
    Thing,
    /// What reading a thing shows.
    Book,
    /// What a piece of scenery adds to the description of its room.
    Scenery,
}

/// The events that rules can be bound to.
#[derive(PartialEq, Eq, Structural, Clone, Copy, Debug, Hash)]
pub enum Event {
    /// A turn has passed.
    Turn,
    /// The player (first) gets the thing (second).
    GetThing(ID, ID),
    /// The player (first) reads the thing (second).
    ReadThing(ID, ID),
    /// The player (first) enters the room (second).
    EnterRoom(ID, ID),
}

/// A boolean marker on an entity.
#[derive(Debug)]
pub enum Flag {
    /// Part of the setting: not listed among the things in a room.
    Scenery,
    /// Cannot be picked up or dropped.
    Immovable,
    /// The player has seen the room with this identity.
    Seen(ID),
    /// The entity is dead.
    Dead,
    /// On a rule: it fires at most once.
    FireOnce,
    /// On a rule: it has fired.
    Fired,
    /// A marker that a scenario defines, known by its name.
    User(String),
}

/// A flag as contracts see it.
pub enum FlagView {
    Scenery,
    Immovable,
    Seen(ID),
    Dead,
    FireOnce,
    Fired,
    User(Text),
}

impl FlagView {
    /// The two markers that belong to the rule engine. No script sets or
    /// clears them.
    pub open spec fn reserved(self) -> bool {
        self == FlagView::FireOnce || self == FlagView::Fired
    }
}

impl View for Flag {
    type V = FlagView;

    open spec fn view(&self) -> FlagView {
        match self {
            Flag::Scenery => FlagView::Scenery,
            Flag::Immovable => FlagView::Immovable,
            Flag::Seen(id) => FlagView::Seen(*id),
            Flag::Dead => FlagView::Dead,
            Flag::FireOnce => FlagView::FireOnce,
            Flag::Fired => FlagView::Fired,
            Flag::User(name) => FlagView::User(name@),
        }
    }
}

impl Clone for Flag {
    fn clone(&self) -> (r: Flag)
        ensures
            r@ == self@,
    {
        match self {
            Flag::Scenery => Flag::Scenery,
            Flag::Immovable => Flag::Immovable,
            Flag::Seen(id) => Flag::Seen(*id),
            Flag::Dead => Flag::Dead,
            Flag::FireOnce => Flag::FireOnce,
            Flag::Fired => Flag::Fired,
            Flag::User(name) => Flag::User(name.clone()),
        }
    }
}

impl PartialEq for Flag {
    fn eq(&self, other: &Flag) -> (r: bool) {
        match (self, other) {
            (Flag::Scenery, Flag::Scenery) => true,
            (Flag::Immovable, Flag::Immovable) => true,
            (Flag::Seen(a), Flag::Seen(b)) => *a == *b,
            (Flag::Dead, Flag::Dead) => true,
            (Flag::FireOnce, Flag::FireOnce) => true,
            (Flag::Fired, Flag::Fired) => true,
            (Flag::User(a), Flag::User(b)) => *a == *b,
            _ => false,
        }
    }
}

impl PartialEqSpecImpl for Flag {
    open spec fn obeys_eq_spec() -> bool {
        true
    }

    open spec fn eq_spec(&self, other: &Flag) -> bool {
        self@ == other@
    }
}

impl Flag {
    /// The scenario-defined flag with the given name.
    pub fn user(name: &str) -> (r: Flag)
        ensures
            r@ == FlagView::User(name@),
    {
        Flag::User(name.to_owned())
    }

    /// Whether the flag belongs to the rule engine.
    pub fn is_reserved(&self) -> (r: bool)
        ensures
            r == self@.reserved(),
    {
        match self {
            Flag::FireOnce => true,
            Flag::Fired => true,
            _ => false,
        }
    }
}

/// Where a link leads.
#[derive(Debug)]
pub enum LinkDest {
    /// To the room with this identity.
    Room(ID),
    /// Nowhere: trying to go there shows this message.
    DeadEnd(String),
}

/// A link target as contracts see it.
pub enum LinkDestView {
    Room(ID),
    DeadEnd(Text),
}

impl View for LinkDest {
    type V = LinkDestView;

    open spec fn view(&self) -> LinkDestView {
        match self {
            LinkDest::Room(id) => LinkDestView::Room(*id),
            LinkDest::DeadEnd(text) => LinkDestView::DeadEnd(text@),
        }
    }
}

impl Clone for LinkDest {
    fn clone(&self) -> (r: LinkDest)
        ensures
            r@ == self@,
    {
        match self {
            LinkDest::Room(id) => LinkDest::Room(*id),
            LinkDest::DeadEnd(text) => LinkDest::DeadEnd(text.clone()),
        }
    }
}

/// A test of the state of the world. It reads flags, the turn counter and
/// who holds what, and changes nothing.
#[derive(Debug)]
pub enum Condition {
    /// Holds always.
    Always,
    /// The entity carries the flag.
    HasFlag(ID, Flag),
    /// The turn counter stands at this number.
    ClockIs(usize),
    /// The first entity holds the second in its inventory.
    Owns(ID, ID),
    /// The condition does not hold.
    Not(Box<Condition>),
    /// Both conditions hold.
    And(Box<Condition>, Box<Condition>),
}

/// A condition as contracts see it.
pub enum ConditionView {
    Always,
    HasFlag(ID, FlagView),
    ClockIs(usize),
    Owns(ID, ID),
    Not(Box<ConditionView>),
    And(Box<ConditionView>, Box<ConditionView>),
}

impl View for Condition {
    type V = ConditionView;

    open spec fn view(&self) -> ConditionView
        decreases self,
    {
        match self {
            Condition::Always => ConditionView::Always,
            Condition::HasFlag(id, flag) => ConditionView::HasFlag(*id, flag@),
            Condition::ClockIs(n) => ConditionView::ClockIs(*n),
            Condition::Owns(c, t) => ConditionView::Owns(*c, *t),
            Condition::Not(c) => ConditionView::Not(Box::new((**c)@)),
            Condition::And(a, b) => ConditionView::And(Box::new((**a)@), Box::new((**b)@)),
        }
    }
}

impl Condition {
    /// A copy of the condition.
    pub fn copy(&self) -> (r: Condition)
        ensures
            r@ == self@,
        decreases self,
    {
        match self {
            Condition::Always => Condition::Always,
            Condition::HasFlag(id, flag) => Condition::HasFlag(*id, flag.clone()),
            Condition::ClockIs(n) => Condition::ClockIs(*n),
            Condition::Owns(c, t) => Condition::Owns(*c, *t),
            Condition::Not(c) => Condition::Not(Box::new(c.copy())),
            Condition::And(a, b) => Condition::And(Box::new(a.copy()), Box::new(b.copy())),
        }
    }

    /// The condition that holds where this one does not.
    pub fn negated(self) -> (r: Condition)
        ensures
            r@ == ConditionView::Not(Box::new(self@)),
    {
        Condition::Not(Box::new(self))
    }

    /// The condition that holds where this one and the other both do.
    pub fn and(self, other: Condition) -> (r: Condition)
        ensures
            r@ == ConditionView::And(Box::new(self@), Box::new(other@)),
    {
        Condition::And(Box::new(self), Box::new(other))
    }
}

impl Clone for Condition {
    fn clone(&self) -> (r: Condition)
        ensures
            r@ == self@,
    {
        self.copy()
    }
}

/// One step of a script.
#[derive(Debug)]
pub enum Action {
    /// Show the message.
    Print(String),
    /// Set the flag on the entity.
    SetFlag(ID, Flag),
    /// Clear the flag on the entity.
    ClearFlag(ID, Flag),
    /// Move the first entity into the second.
    PutIn(ID, ID),
    /// Move the entity to limbo.
    Forget(ID),
    /// Mark the entity dead.
    Kill(ID),
    /// Mark the entity alive again.
    Revive(ID),
}

/// An action as contracts see it.
pub enum ActionView {
    Print(Text),
    SetFlag(ID, FlagView),
    ClearFlag(ID, FlagView),
    PutIn(ID, ID),
    Forget(ID),
    Kill(ID),
    Revive(ID),
}

impl View for Action {
    type V = ActionView;

    open spec fn view(&self) -> ActionView {
        match self {
            Action::Print(text) => ActionView::Print(text@),
            Action::SetFlag(id, flag) => ActionView::SetFlag(*id, flag@),
            Action::ClearFlag(id, flag) => ActionView::ClearFlag(*id, flag@),
            Action::PutIn(t, c) => ActionView::PutIn(*t, *c),
            Action::Forget(t) => ActionView::Forget(*t),
            Action::Kill(id) => ActionView::Kill(*id),
            Action::Revive(id) => ActionView::Revive(*id),
        }
    }
}

impl Clone for Action {
    fn clone(&self) -> (r: Action)
        ensures
            r@ == self@,
    {
        match self {
            Action::Print(text) => Action::Print(text.clone()),
            Action::SetFlag(id, flag) => Action::SetFlag(*id, flag.clone()),
            Action::ClearFlag(id, flag) => Action::ClearFlag(*id, flag.clone()),
            Action::PutIn(t, c) => Action::PutIn(*t, *c),
            Action::Forget(t) => Action::Forget(*t),
            Action::Kill(id) => Action::Kill(*id),
            Action::Revive(id) => Action::Revive(*id),
        }
    }
}

/// Prose that depends on the state of the world: one text where the
/// condition holds, another where it does not. It is resolved each time it is
/// shown.
#[derive(Debug)]
pub struct ProseHook {
    pub when: Condition,
    pub shown: String,
    pub otherwise: String,
}

/// A prose hook as contracts see it.
pub struct ProseHookView {
    pub when: ConditionView,
    pub shown: Text,
    pub otherwise: Text,
}

impl View for ProseHook {
    type V = ProseHookView;

    open spec fn view(&self) -> ProseHookView {
        ProseHookView { when: self.when@, shown: self.shown@, otherwise: self.otherwise@ }
    }
}

impl ProseHook {
    /// The hook that shows `shown` where `when` holds and `otherwise` where
    /// it does not.
    pub fn new(when: Condition, shown: &str, otherwise: &str) -> (r: ProseHook)
        ensures
            r@.when == when@,
            r@.shown == shown@,
            r@.otherwise == otherwise@,
    {
        ProseHook { when, shown: shown.to_owned(), otherwise: otherwise.to_owned() }
    }
}

impl Clone for ProseHook {
    fn clone(&self) -> (r: ProseHook)
        ensures
            r@ == self@,
    {
        ProseHook {
            when: self.when.clone(),
            shown: self.shown.clone(),
            otherwise: self.otherwise.clone(),
        }
    }
}

/// A piece of prose: fixed, or computed from the world.
#[derive(Debug)]
pub enum Prose {
    Prose(String),
    Hook(ProseHook),
}

/// Prose as contracts see it.
pub enum ProseView {
    Prose(Text),
    Hook(ProseHookView),
}

impl View for Prose {
    type V = ProseView;

    open spec fn view(&self) -> ProseView {
        match self {
            Prose::Prose(text) => ProseView::Prose(text@),
            Prose::Hook(hook) => ProseView::Hook(hook@),
        }
    }
}

impl Clone for Prose {
    fn clone(&self) -> (r: Prose)
        ensures
            r@ == self@,
    {
        match self {
            Prose::Prose(text) => Prose::Prose(text.clone()),
            Prose::Hook(hook) => Prose::Hook(hook.clone()),
        }
    }
}

/// Copies optional prose.
pub fn clone_opt_prose(p: &Option<Prose>) -> (r: Option<Prose>)
    ensures
        opt_view(r) == opt_view(*p),
{
    match p {
        Some(q) => Some(q.clone()),
        None => None,
    }
}

/// Copies an optional string.
pub fn clone_opt_text(s: &Option<String>) -> (r: Option<String>)
    ensures
        opt_view(r) == opt_view(*s),
{
    match s {
        Some(t) => Some(t.clone()),
        None => None,
    }
}

/// Thing details: whether the thing can be carried, and the noun by which
/// commands name it.
#[derive(Debug)]
pub struct ThingComponent {
    pub portable: bool,
    pub noun: String,
}

/// Thing details as contracts see them.
pub struct ThingView {
    pub portable: bool,
    pub noun: Text,
}

impl View for ThingComponent {
    type V = ThingView;

    open spec fn view(&self) -> ThingView {
        ThingView { portable: self.portable, noun: self.noun@ }
    }
}

impl ThingComponent {
    /// The details of a thing that commands call `noun`.
    pub fn new(noun: &str, portable: bool) -> (r: ThingComponent)
        ensures
            r@.noun == noun@,
            r@.portable == portable,
    {
        ThingComponent { portable, noun: noun.to_owned() }
    }
}

impl Clone for ThingComponent {
    fn clone(&self) -> (r: ThingComponent)
        ensures
            r@ == self@,
    {
        ThingComponent { portable: self.portable, noun: self.noun.clone() }
    }
}

/// The prose of an entity, one optional piece for each kind.
#[derive(Debug)]
pub struct ProseComponent {
    pub room: Option<Prose>,
    pub thing: Option<Prose>,
    pub book: Option<Prose>,
    pub scenery: Option<Prose>,
}

/// The prose of an entity as contracts see it.
pub struct ProseComponentView {
    pub room: Option<ProseView>,
    pub thing: Option<ProseView>,
    pub book: Option<ProseView>,
    pub scenery: Option<ProseView>,
}

impl ProseComponentView {
    /// No prose of any kind.
    pub open spec fn empty() -> ProseComponentView {
        ProseComponentView { room: None, thing: None, book: None, scenery: None }
    }

    /// The prose of the given kind, if there is any.
    pub open spec fn get(self, kind: ProseType) -> Option<ProseView> {
        match kind {
            ProseType::Room => self.room,
            ProseType::Thing => self.thing,
            ProseType::Book => self.book,
            ProseType::Scenery => self.scenery,
        }
    }

    /// This prose with the piece of the given kind replaced.
    pub open spec fn with(self, kind: ProseType, prose: ProseView) -> ProseComponentView {
        match kind {
            ProseType::Room => ProseComponentView { room: Some(prose), ..self },
            ProseType::Thing => ProseComponentView { thing: Some(prose), ..self },
            ProseType::Book => ProseComponentView { book: Some(prose), ..self },
            ProseType::Scenery => ProseComponentView { scenery: Some(prose), ..self },
        }
    }
}

impl View for ProseComponent {
    type V = ProseComponentView;

    open spec fn view(&self) -> ProseComponentView {
        ProseComponentView {
            room: opt_view(self.room),
            thing: opt_view(self.thing),
            book: opt_view(self.book),
            scenery: opt_view(self.scenery),
        }
    }
}

impl ProseComponent {
    /// A prose component without any prose.
    pub fn new() -> (r: ProseComponent)
        ensures
            r@ == ProseComponentView::empty(),
    {
        ProseComponent { room: None, thing: None, book: None, scenery: None }
    }

    /// The prose of the given kind, if there is any.
    pub fn get(&self, kind: ProseType) -> (r: &Option<Prose>)
        ensures
            opt_view(*r) == self@.get(kind),
    {
        match kind {
            ProseType::Room => &self.room,
            ProseType::Thing => &self.thing,
            ProseType::Book => &self.book,
            ProseType::Scenery => &self.scenery,
        }
    }

    /// Replaces the prose of the given kind.
    pub fn set(&mut self, kind: ProseType, prose: Prose)
        ensures
            final(self)@ == old(self)@.with(kind, prose@),
    {
        match kind {
            ProseType::Room => {
                self.room = Some(prose);
            },
            ProseType::Thing => {
                self.thing = Some(prose);
            },
            ProseType::Book => {
                self.book = Some(prose);
            },
            ProseType::Scenery => {
                self.scenery = Some(prose);
            },
        }
    }
}

impl Clone for ProseComponent {
    fn clone(&self) -> (r: ProseComponent)
        ensures
            r@ == self@,
    {
        ProseComponent {
            room: clone_opt_prose(&self.room),
            thing: clone_opt_prose(&self.thing),
            book: clone_opt_prose(&self.book),
            scenery: clone_opt_prose(&self.scenery),
        }
    }
}

/// Copies an optional link target.
pub fn clone_opt_dest(d: &Option<LinkDest>) -> (r: Option<LinkDest>)
    ensures
        opt_view(r) == opt_view(*d),
{
    match d {
        Some(x) => Some(x.clone()),
        None => None,
    }
}

/// The links of a room: for each direction at most one target.
#[derive(Debug)]
pub struct LinksComponent {
    pub north: Option<LinkDest>,
    pub south: Option<LinkDest>,
    pub east: Option<LinkDest>,
    pub west: Option<LinkDest>,
    pub up: Option<LinkDest>,
    pub down: Option<LinkDest>,
    pub inward: Option<LinkDest>,
    pub outward: Option<LinkDest>,
}

/// The links of a room as contracts see them.
pub struct LinksView {
    pub north: Option<LinkDestView>,
    pub south: Option<LinkDestView>,
    pub east: Option<LinkDestView>,
    pub west: Option<LinkDestView>,
    pub up: Option<LinkDestView>,
    pub down: Option<LinkDestView>,
    pub inward: Option<LinkDestView>,
    pub outward: Option<LinkDestView>,
}

impl LinksView {
    /// No link in any direction.
    pub open spec fn empty() -> LinksView {
        LinksView {
            north: None,
            south: None,
            east: None,
            west: None,
            up: None,
            down: None,
            inward: None,
            outward: None,
        }
    }

    /// Where the link in the given direction leads, if there is one.
    pub open spec fn get(self, dir: Dir) -> Option<LinkDestView> {
        match dir {
            Dir::North => self.north,
            Dir::South => self.south,
            Dir::East => self.east,
            Dir::West => self.west,
            Dir::Up => self.up,
            Dir::Down => self.down,
            Dir::In => self.inward,
            Dir::Out => self.outward,
        }
    }

    /// These links with the one in the given direction replaced.
    pub open spec fn with(self, dir: Dir, dest: LinkDestView) -> LinksView {
        match dir {
            Dir::North => LinksView { north: Some(dest), ..self },
            Dir::South => LinksView { south: Some(dest), ..self },
            Dir::East => LinksView { east: Some(dest), ..self },
            Dir::West => LinksView { west: Some(dest), ..self },
            Dir::Up => LinksView { up: Some(dest), ..self },
            Dir::Down => LinksView { down: Some(dest), ..self },
            Dir::In => LinksView { inward: Some(dest), ..self },
            Dir::Out => LinksView { outward: Some(dest), ..self },
        }
    }
}

impl View for LinksComponent {
    type V = LinksView;

    open spec fn view(&self) -> LinksView {
        LinksView {
            north: opt_view(self.north),
            south: opt_view(self.south),
            east: opt_view(self.east),
            west: opt_view(self.west),
            up: opt_view(self.up),
            down: opt_view(self.down),
            inward: opt_view(self.inward),
            outward: opt_view(self.outward),
        }
    }
}

impl LinksComponent {
    /// Links that lead nowhere yet.
    pub fn new() -> (r: LinksComponent)
        ensures
            r@ == LinksView::empty(),
    {
        LinksComponent {
            north: None,
            south: None,
            east: None,
            west: None,
            up: None,
            down: None,
            inward: None,
            outward: None,
        }
    }

    /// Where the link in the given direction leads, if there is one.
    pub fn get(&self, dir: Dir) -> (r: &Option<LinkDest>)
        ensures
            opt_view(*r) == self@.get(dir),
    {
        match dir {
            Dir::North => &self.north,
            Dir::South => &self.south,
            Dir::East => &self.east,
            Dir::West => &self.west,
            Dir::Up => &self.up,
            Dir::Down => &self.down,
            Dir::In => &self.inward,
            Dir::Out => &self.outward,
        }
    }

    /// Replaces the link in the given direction.
    pub fn set(&mut self, dir: Dir, dest: LinkDest)
        ensures
            final(self)@ == old(self)@.with(dir, dest@),
    {
        match dir {
            Dir::North => {
                self.north = Some(dest);
            },
            Dir::South => {
                self.south = Some(dest);
            },
            Dir::East => {
                self.east = Some(dest);
            },
            Dir::West => {
                self.west = Some(dest);
            },
            Dir::Up => {
                self.up = Some(dest);
            },
            Dir::Down => {
                self.down = Some(dest);
            },
            Dir::In => {
                self.inward = Some(dest);
            },
            Dir::Out => {
                self.outward = Some(dest);
            },
        }
    }
}

impl Clone for LinksComponent {
    fn clone(&self) -> (r: LinksComponent)
        ensures
            r@ == self@,
    {
        LinksComponent {
            north: clone_opt_dest(&self.north),
            south: clone_opt_dest(&self.south),
            east: clone_opt_dest(&self.east),
            west: clone_opt_dest(&self.west),
            up: clone_opt_dest(&self.up),
            down: clone_opt_dest(&self.down),
            inward: clone_opt_dest(&self.inward),
            outward: clone_opt_dest(&self.outward),
        }
    }
}

/// Is each item of the sequence less than those after it?
pub open spec fn ascending(s: Seq<ID>) -> bool {
    forall|i: int, j: int| 0 <= i < j < s.len() ==> s[i] < s[j]
}

/// What a set hands out in increasing order ascends.
proof fn lemma_increasing_ascends(s: Seq<&ID>)
    requires
        vstd::std_specs::btree::increasing_seq(s),
    ensures
        ascending(s.unref()),
{
    broadcast use vstd::std_specs::btree::group_btree_axioms;
    broadcast use vstd::laws_cmp::group_laws_cmp;

    assert forall|i: int, j: int| 0 <= i < j < s.len() implies *s[i] < *s[j] by {
        assert((&s[i]).cmp_spec(&s[j]) is Less);
    }
}

/// The inventory of an entity: the identities of the entities it holds.
#[derive(Debug)]
pub struct InventoryComponent {
    pub things: BTreeSet<ID>,
}

impl View for InventoryComponent {
    type V = Set<ID>;

    open spec fn view(&self) -> Set<ID> {
        self.things@
    }
}

impl InventoryComponent {
    /// An inventory that holds nothing.
    pub fn new() -> (r: InventoryComponent)
        ensures
            r@ == Set::<ID>::empty(),
    {
        InventoryComponent { things: BTreeSet::new() }
    }

    /// Whether the inventory holds the entity.
    pub fn has(&self, id: ID) -> (r: bool)
        ensures
            r == self@.contains(id),
    {
        broadcast use vstd::std_specs::btree::group_btree_axioms;

        self.things.contains(&id)
    }

    /// Puts the entity into the inventory.
    pub fn add(&mut self, id: ID)
        ensures
            final(self)@ == old(self)@.insert(id),
    {
        self.things.insert(id);
    }

    /// Takes the entity out of the inventory.
    pub fn remove(&mut self, id: ID)
        ensures
            final(self)@ == old(self)@.remove(id),
    {
        broadcast use vstd::std_specs::btree::group_btree_axioms;

        self.things.remove(&id);
    }

    /// The entities that the inventory holds, as a list, least identity
    /// first.
    pub fn members(&self) -> (v: Vec<ID>)
        ensures
            v@.to_set() == self@,
            ascending(v@),
    {
        broadcast use vstd::std_specs::btree::group_btree_axioms;

        let mut v: Vec<ID> = Vec::new();
        for x in it: self.things.iter()
            invariant
                it.seq().unref().to_set() == self.things@,
                vstd::std_specs::btree::increasing_seq(it.seq()),
                v@ == it.seq().unref().take(it.index() as int),
                it.index() == it.seq().len() ==> v@.to_set() == self.things@ && ascending(v@),
        {
            v.push(*x);
            assert(it.index() + 1 == it.seq().len() ==> v@ =~= it.seq().unref());
            assert(ascending(it.seq().unref())) by {
                lemma_increasing_ascends(it.seq());
            }
        }
        v
    }
}

impl Clone for InventoryComponent {
    fn clone(&self) -> (r: InventoryComponent)
        ensures
            r@ == self@,
    {
        InventoryComponent { things: self.things.clone() }
    }
}

/// Marks an entity as a player. It holds no data of its own: what the player
/// has seen is kept in the player's flags.
#[derive(PartialEq, Eq, Structural, Clone, Copy, Debug)]
pub struct PlayerComponent {}

impl PlayerComponent {
    /// The marker of a player.
    pub fn new() -> (r: PlayerComponent)
        ensures
            r == (PlayerComponent {  }),
    {
        PlayerComponent {  }
    }
}

/// The flags that occur in a sequence.
pub open spec fn flag_set(s: Seq<Flag>) -> Set<FlagView> {
    Set::new(|f: FlagView| exists|i: int| 0 <= i < s.len() && s[i]@ == f)
}

/// Appending a flag to a sequence adds it to the flags that occur there.
pub proof fn lemma_flag_set_push(s: Seq<Flag>, flag: Flag)
    ensures
        flag_set(s.push(flag)) == flag_set(s).insert(flag@),
{
    let t = s.push(flag);
    assert forall|f: FlagView| flag_set(t).contains(f) == flag_set(s).insert(flag@).contains(f) by {
        if flag_set(s).contains(f) {
            let i = choose|i: int| 0 <= i < s.len() && s[i]@ == f;
            assert(t[i]@ == f);
        }
        if f == flag@ {
            assert(t[s.len() as int]@ == f);
        }
    }
}

/// The flags of an entity.
#[derive(Debug)]
pub struct FlagSetComponent {
    pub flags: Vec<Flag>,
}

impl View for FlagSetComponent {
    type V = Set<FlagView>;

    open spec fn view(&self) -> Set<FlagView> {
        flag_set(self.flags@)
    }
}

impl FlagSetComponent {
    /// A flag set with no flag in it.
    pub fn new() -> (r: FlagSetComponent)
        ensures
            r@ == Set::<FlagView>::empty(),
    {
        let r = FlagSetComponent { flags: Vec::new() };
        r
    }

    /// Whether the flag is set.
    pub fn has(&self, flag: &Flag) -> (r: bool)
        ensures
            r == self@.contains(flag@),
    {
        let mut i: usize = 0;
        while i < self.flags.len()
            invariant
                i <= self.flags@.len(),
                forall|j: int| 0 <= j < i ==> self.flags@[j]@ != flag@,
            decreases self.flags@.len() - i,
        {
            if self.flags[i] == *flag {
                return true;
            }
            i += 1;
        }
        false
    }

    /// Sets the flag.
    pub fn set(&mut self, flag: Flag)
        ensures
            final(self)@ == old(self)@.insert(flag@),
    {
        if !self.has(&flag) {
            proof {
                lemma_flag_set_push(self.flags@, flag);
            }
            self.flags.push(flag);
        }
    }

    /// Clears the flag.
    pub fn clear(&mut self, flag: &Flag)
        ensures
            final(self)@ == old(self)@.remove(flag@),
    {
        let mut kept: Vec<Flag> = Vec::new();
        let mut i: usize = 0;
        while i < self.flags.len()
            invariant
                i <= self.flags@.len(),
                flag_set(kept@) == flag_set(self.flags@.take(i as int)).remove(flag@),
            decreases self.flags@.len() - i,
        {
            proof {
                assert(self.flags@.take(i + 1) =~= self.flags@.take(i as int).push(
                    self.flags@[i as int],
                ));
                lemma_flag_set_push(self.flags@.take(i as int), self.flags@[i as int]);
            }
            if self.flags[i] != *flag {
                let f = self.flags[i].clone();
                proof {
                    lemma_flag_set_push(kept@, f);
                }
                kept.push(f);
            }
            i += 1;
        }
        assert(self.flags@.take(i as int) =~= self.flags@);
        self.flags = kept;
    }
}

impl Clone for FlagSetComponent {
    fn clone(&self) -> (r: FlagSetComponent)
        ensures
            r@ == self@,
    {
        let flags = self.flags.clone();
        FlagSetComponent { flags }
    }
}

/// The views of the actions of a sequence.
pub open spec fn actions_view(s: Seq<Action>) -> Seq<ActionView> {
    Seq::new(s.len(), |i: int| s[i]@)
}

/// What a rule is: when it applies, and what it does then.
#[derive(Debug)]
pub struct RuleComponent {
    /// For a trigger, the condition on which it fires. For a guard, the
    /// condition on which it lets the event pass.
    pub predicate: Condition,
    /// The event to which the rule is bound.
    pub event: Event,
    /// What the rule does.
    pub script: Script,
    /// Whether the rule is asked before the event (a guard) or fired after it
    /// (a trigger).
    pub is_guard: bool,
}

/// A rule as contracts see it.
pub struct RuleView {
    pub predicate: ConditionView,
    pub event: Event,
    pub script: Seq<ActionView>,
    pub is_guard: bool,
}

impl View for RuleComponent {
    type V = RuleView;

    open spec fn view(&self) -> RuleView {
        RuleView {
            predicate: self.predicate@,
            event: self.event,
            script: self.script@,
            is_guard: self.is_guard,
        }
    }
}

impl RuleComponent {
    /// A trigger that fires on every turn and does nothing yet.
    pub fn new() -> (r: RuleComponent)
        ensures
            r@.predicate == ConditionView::Always,
            r@.event == Event::Turn,
            r@.script == Seq::<ActionView>::empty(),
            !r@.is_guard,
    {
        RuleComponent {
            predicate: Condition::Always,
            event: Event::Turn,
            script: Script::new(),
            is_guard: false,
        }
    }
}

impl Clone for RuleComponent {
    fn clone(&self) -> (r: RuleComponent)
        ensures
            r@ == self@,
    {
        RuleComponent {
            predicate: self.predicate.clone(),
            event: self.event,
            script: self.script.clone(),
            is_guard: self.is_guard,
        }
    }
}

/// What a custom command does: where the condition holds it runs the script,
/// elsewhere it fails with the refusal.
#[derive(Debug)]
pub struct CommandHook {
    pub when: Condition,
    pub script: Script,
    pub refusal: String,
}

/// A command hook as contracts see it.
pub struct CommandHookView {
    pub when: ConditionView,
    pub script: Seq<ActionView>,
    pub refusal: Text,
}

impl View for CommandHook {
    type V = CommandHookView;

    open spec fn view(&self) -> CommandHookView {
        CommandHookView { when: self.when@, script: self.script@, refusal: self.refusal@ }
    }
}

impl CommandHook {
    /// The hook that runs `script` where `when` holds and fails with
    /// `refusal` elsewhere.
    pub fn new(when: Condition, script: Script, refusal: &str) -> (r: CommandHook)
        ensures
            r@.when == when@,
            r@.script == script@,
            r@.refusal == refusal@,
    {
        CommandHook { when, script, refusal: refusal.to_owned() }
    }
}

impl Clone for CommandHook {
    fn clone(&self) -> (r: CommandHook)
        ensures
            r@ == self@,
    {
        CommandHook {
            when: self.when.clone(),
            script: self.script.clone(),
            refusal: self.refusal.clone(),
        }
    }
}

} // verus!
