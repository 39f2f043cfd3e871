//! The player control system: what the player's commands do.

use crate::command;
use crate::command::input_view;
use crate::command::parsed;
use crate::command::words_view;
use crate::command::Command;
use crate::command::CommandView;
use crate::debug;
use crate::least::least;
use crate::least::lemma_least_some;
use crate::phys;
use crate::rule;
use crate::script::lemma_run_wf;
use crate::script::prints;
use crate::text::decimal;
use crate::text::decimal_text;
use crate::text::join3;
use crate::text::number;
use crate::text::parsed_number;
use crate::types::CommandHook;
use crate::types::CommandHookView;
use crate::types::Dir;
use crate::types::Flag;
use crate::types::FlagView;
use crate::types::ID;
use crate::types::LinkDest;
use crate::types::LinkDestView;
use crate::types::ProseType;
use crate::types::Text;
use crate::visual;
use crate::visual::line;
use crate::visual::lines;
use crate::visual::Visual;
use crate::visual::VisualKind;
use crate::visual::VisualView;
use crate::world::lemma_frame_flags;
use crate::world::lemma_wf_well_shaped;
use crate::world::World;
use crate::world::WorldView;
use crate::Game;
use crate::GameView;
use phys::lemma_contents_are_things;
use phys::lemma_place_has_inventory;
use std::collections::BTreeSet;
use std::string::String;
use vstd::prelude::*;

verus! {

/// The words that a custom command answers to.
#[derive(Debug)]
pub enum CommandPattern {
    /// The one word.
    Verb(String),
    /// The two words.
    VerbNoun(String, String),
    /// The word, followed by the noun of a thing that the player can see.
    VerbVisible(String),
}

/// A command pattern as contracts see it.
pub enum PatternView {
    Verb(Text),
    VerbNoun(Text, Text),
    VerbVisible(Text),
}

impl View for CommandPattern {
    type V = PatternView;

    open spec fn view(&self) -> PatternView {
        match self {
            CommandPattern::Verb(verb) => PatternView::Verb(verb@),
            CommandPattern::VerbNoun(verb, noun) => PatternView::VerbNoun(verb@, noun@),
            CommandPattern::VerbVisible(verb) => PatternView::VerbVisible(verb@),
        }
    }
}

impl Clone for CommandPattern {
    fn clone(&self) -> (r: CommandPattern)
        ensures
            r@ == self@,
    {
        match self {
            CommandPattern::Verb(verb) => CommandPattern::Verb(verb.clone()),
            CommandPattern::VerbNoun(verb, noun) => CommandPattern::VerbNoun(
                verb.clone(),
                noun.clone(),
            ),
            CommandPattern::VerbVisible(verb) => CommandPattern::VerbVisible(verb.clone()),
        }
    }
}

/// A command that a scenario adds to the built-in ones.
#[derive(Debug)]
pub struct CommandHandler {
    pub pattern: CommandPattern,
    pub hook: CommandHook,
}

/// A command handler as contracts see it.
pub struct HandlerView {
    pub pattern: PatternView,
    pub hook: CommandHookView,
}

impl View for CommandHandler {
    type V = HandlerView;

    open spec fn view(&self) -> HandlerView {
        HandlerView { pattern: self.pattern@, hook: self.hook@ }
    }
}

impl Clone for CommandHandler {
    fn clone(&self) -> (r: CommandHandler)
        ensures
            r@ == self@,
    {
        CommandHandler { pattern: self.pattern.clone(), hook: self.hook.clone() }
    }
}

impl CommandHandler {
    /// The handler of a command that consists of the one word.
    pub fn verb(word: &str, hook: CommandHook) -> (r: CommandHandler)
        ensures
            r@.pattern == PatternView::Verb(word@),
            r@.hook == hook@,
    {
        CommandHandler { pattern: CommandPattern::Verb(word.to_owned()), hook }
    }

    /// The handler of a command that consists of the two words.
    pub fn verb_noun(word1: &str, word2: &str, hook: CommandHook) -> (r: CommandHandler)
        ensures
            r@.pattern == PatternView::VerbNoun(word1@, word2@),
            r@.hook == hook@,
    {
        CommandHandler {
            pattern: CommandPattern::VerbNoun(word1.to_owned(), word2.to_owned()),
            hook,
        }
    }

    /// The handler of a command that consists of the word and the noun of a
    /// thing that the player can see.
    pub fn verb_visible(word: &str, hook: CommandHook) -> (r: CommandHandler)
        ensures
            r@.pattern == PatternView::VerbVisible(word@),
            r@.hook == hook@,
    {
        CommandHandler { pattern: CommandPattern::VerbVisible(word.to_owned()), hook }
    }
}

/// A status result. Indicates the general category of the change.
#[derive(PartialEq, Eq, Structural, Clone, Copy, Debug)]
pub enum Status {
    /// Normal response: the world has been updated, and the change can be
    /// undone.
    Normal,
    /// Restart response: the game should be restarted from scratch.
    Restart,
    /// Undo the last command (plus anything that happened after, e.g., rule
    /// firings).
    Undo,
    /// The player wants to stop playing.
    Quit,
}

/// A status result, used for special commands.
pub type StatusResult = Result<Status, String>;

/// Player context: identity and location when the command was given.
#[derive(PartialEq, Eq, Structural, Clone, Copy, Debug)]
pub struct Player {
    pub id: ID,
    pub loc: ID,
}

/// What a command brings about: the world after it, the lines it shows, and
/// its result.
#[verifier::ext_equal]
pub struct Outcome {
    pub world: WorldView,
    pub lines: Seq<VisualView>,
    pub result: Result<Status, Text>,
}

/// The view of a result.
pub open spec fn result_view(r: Result<Status, String>) -> Result<Status, Text> {
    match r {
        Ok(status) => Ok(status),
        Err(msg) => Err(msg@),
    }
}

/// Has the command brought about the outcome?
pub open spec fn brought(
    world: WorldView,
    before: Seq<Visual>,
    after: Seq<Visual>,
    r: Result<Status, String>,
    o: Outcome,
) -> bool {
    &&& world == o.world
    &&& lines(after) == lines(before) + o.lines
    &&& result_view(r) == o.result
}

impl WorldView {
    /// Is the entity one of `ids`, and a thing that the noun names?
    pub open spec fn named(self, ids: Set<ID>, noun: Text, id: ID) -> bool {
        &&& ids.contains(id)
        &&& self.has(id)
        &&& self.get(id).thing is Some
        &&& self.get(id).thing->0.noun == noun
    }

    /// The thing among `ids` that the noun names: the one with the least
    /// identity, if several are so named.
    pub open spec fn find_noun(self, ids: Set<ID>, noun: Text) -> Option<ID> {
        least(|id: ID| self.named(ids, noun, id))
    }

    /// The outcome of a command that went well and left the world as it
    /// is.
    pub open spec fn shown(self, lines: Seq<VisualView>) -> Outcome {
        Outcome { world: self, lines, result: Ok(Status::Normal) }
    }

    /// The outcome of a command that was not carried out.
    pub open spec fn refused(self, msg: Text) -> Outcome {
        Outcome { world: self, lines: Seq::empty(), result: Err(msg) }
    }

    /// Is the context that of the player of this world?
    pub open spec fn is_context(self, player: Player) -> bool {
        &&& player.id == self.pid
        &&& self.has_loc(player.id)
        &&& player.loc == self.loc(player.id)
    }

    /// Where the player would get by going in the direction, if anywhere.
    pub open spec fn way(self, player: Player, dir: Dir) -> Option<LinkDestView> {
        if self.is_room(player.loc) {
            self.follow_link(player.loc, dir)
        } else {
            None
        }
    }

    /// Move the player in the given direction: into the room to which the
    /// link leads, or nowhere, with its message, where it is a dead end.
    pub open spec fn cmd_go(self, player: Player, dir: Dir) -> Outcome {
        match self.way(player, dir) {
            Some(LinkDestView::Room(dest)) => Outcome {
                world: self.enter_room(player.id, dest),
                lines: self.enter_room_lines(player.id, dest),
                result: Ok(Status::Normal),
            },
            Some(LinkDestView::DeadEnd(text)) => self.shown(line(VisualKind::Info, text)),
            None => self.refused("You can't go that way."@),
        }
    }

    /// Re-describe the current location.
    pub open spec fn cmd_look(self, player: Player) -> Outcome {
        if self.is_room(player.loc) {
            self.shown(self.room_lines(player.loc))
        } else {
            self.shown(Seq::empty())
        }
    }

    /// Display the player's inventory.
    pub open spec fn cmd_inventory(self, player: Player) -> Outcome {
        self.shown(self.inventory_lines(player.id))
    }

    /// Describe a thing that the player can see.
    pub open spec fn cmd_examine(self, player: Player, name: Text) -> Outcome {
        match self.find_noun(self.visible(player.id), name) {
            Some(thing) => self.shown(self.prose_lines(thing, ProseType::Thing)),
            None => self.refused("You don't see any such thing."@),
        }
    }

    /// Read a thing that the player can see. It can be read if it has
    /// something to read and the player holds it or it cannot be moved.
    pub open spec fn cmd_read(self, player: Player, name: Text) -> Outcome {
        match self.find_noun(self.visible(player.id), name) {
            Some(thing) => {
                if !self.has_prose_type(thing, ProseType::Book) {
                    self.refused("You can't read that."@)
                } else if self.owns(player.id, thing) || self.has_flag(
                    thing,
                    FlagView::Immovable,
                ) {
                    Outcome {
                        world: self.read_thing(player.id, thing),
                        lines: self.read_thing_lines(player.id, thing),
                        result: Ok(Status::Normal),
                    }
                } else {
                    self.refused("You don't have it."@)
                }
            },
            None => self.refused("You don't see any such thing."@),
        }
    }

    /// What the player could take from the place where the command was
    /// given.
    pub open spec fn gettable(self, player: Player) -> Set<ID> {
        self.flagged(player.loc, FlagView::Immovable, false)
    }

    /// Get a thing from the place where the player is.
    pub open spec fn cmd_get(self, player: Player, noun: Text) -> Outcome {
        if self.find_noun(self.contents(player.id), noun) is Some {
            self.refused("You already have that."@)
        } else if self.find_noun(self.flagged(player.loc, FlagView::Immovable, true), noun)
            is Some {
            self.refused("You can't take that!"@)
        } else {
            match self.find_noun(self.gettable(player), noun) {
                Some(thing) => Outcome {
                    world: self.get_thing(player.id, thing),
                    lines: self.get_thing_lines(player.id, thing),
                    result: Ok(Status::Normal),
                },
                None => self.refused("You don't see any such thing."@),
            }
        }
    }

    /// Drop a thing that the player carries.
    pub open spec fn cmd_drop(self, player: Player, noun: Text) -> Outcome {
        match self.find_noun(self.flagged(player.id, FlagView::Immovable, false), noun) {
            Some(thing) => Outcome {
                world: self.put_in(thing, player.loc),
                lines: line(VisualKind::Act, "Dropped."@),
                result: Ok(Status::Normal),
            },
            None => {
                if self.find_noun(self.flagged(player.id, FlagView::Scenery, true), noun)
                    is Some {
                    self.refused("You can't drop that!"@)
                } else if self.find_noun(self.visible(player.id), noun) is Some {
                    self.refused("You aren't carrying that."@)
                } else {
                    self.refused("You don't see any such thing."@)
                }
            },
        }
    }

    /// Undo the last command, if there is one to undo.
    pub open spec fn cmd_undo(self, has_undo: bool) -> Outcome {
        if has_undo {
            Outcome {
                world: self,
                lines: line(VisualKind::Act, "Undone."@),
                result: Ok(Status::Undo),
            }
        } else {
            self.refused("Nothing to undo."@)
        }
    }

    /// Restart the game.
    pub open spec fn cmd_restart(self) -> Outcome {
        Outcome {
            world: self,
            lines: line(VisualKind::Act, "Restarting..."@),
            result: Ok(Status::Restart),
        }
    }

    /// Quit the game.
    pub open spec fn cmd_quit(self) -> Outcome {
        Outcome {
            world: self,
            lines: line(VisualKind::Act, "Bye, then."@),
            result: Ok(Status::Quit),
        }
    }

    /// Display basic help, i.e., what commands are available.
    pub open spec fn cmd_help(self) -> Outcome {
        self.shown(line(VisualKind::Info, HELP@))
    }
}

/// What the help command shows.
pub const HELP: &'static str = "\
You've got the usual commands: n, s, e, w, look, get, drop, quit.
You know.  Like that.
    ";

/// Is the word the given one?
fn is_word(word: &String, wanted: &str) -> (r: bool)
    ensures
        r == (word@ == wanted@),
{
    let w = wanted.to_owned();
    *word == w
}

/// Finds a noun in the set of things: the thing with the least identity that
/// the noun names.
pub fn find_noun(world: &World, ids: &BTreeSet<ID>, noun: &str) -> (r: Option<ID>)
    ensures
        r == world@.find_noun(ids@, noun@),
{
    broadcast use vstd::std_specs::btree::group_btree_axioms;

    let ghost p = |id: ID| world@.named(ids@, noun@, id);
    let n = world.entities.len();
    let mut i: usize = 0;
    while i < n
        invariant
            i <= n,
            n == world@.entities.len(),
            p == (|id: ID| world@.named(ids@, noun@, id)),
            forall|j: ID| j < i ==> !#[trigger] p(j),
        decreases n - i,
    {
        if ids.contains(&i) {
            match &world.entities[i].thing {
                Some(thing) => {
                    if is_word(&thing.noun, noun) {
                        proof {
                            lemma_least_some(p, i);
                        }
                        return Some(i);
                    }
                },
                None => {},
            }
        }
        i += 1;
    }
    proof {
        assert forall|id: ID| !#[trigger] p(id) by {
        }
    }
    None
}

/// Move the player in the given direction.
pub fn cmd_go(world: &mut World, player: &Player, dir: Dir, out: &mut Vec<Visual>) -> (r:
    StatusResult)
    requires
        old(world).wf(),
        old(world)@.is_context(*player),
    ensures
        brought(final(world)@, old(out)@, final(out)@, r, old(world)@.cmd_go(*player, dir)),
        final(world).wf(),
        final(world)@.frame() == old(world)@.frame(),
        final(world)@.clock == old(world)@.clock,
{
    let link = if world.is_room(player.loc) {
        phys::follow_link(world, player.loc, dir)
    } else {
        None
    };
    match link {
        Some(LinkDest::Room(dest)) => {
            proof {
                lemma_wf_well_shaped(world@);
                assert(world@.valid_entity(player.loc));
                assert(world@.valid_entity(player.id));
            }
            let done = phys::enter_room(world, player.id, dest, out);
            match done {
                Ok(_) => Ok(Status::Normal),
                Err(msg) => Err(msg),
            }
        },
        Some(LinkDest::DeadEnd(prose)) => {
            visual::info(prose.as_str(), out);
            Ok(Status::Normal)
        },
        None => {
            Err("You can't go that way.".to_owned())
        },
    }
}

/// Re-describe the current location.
pub fn cmd_look(world: &World, player: &Player, out: &mut Vec<Visual>) -> (r: StatusResult)
    requires
        world.wf(),
    ensures
        brought(world@, old(out)@, final(out)@, r, world@.cmd_look(*player)),
{
    if world.is_room(player.loc) {
        visual::room(world, player.loc, out);
    }
    Ok(Status::Normal)
}

/// Display the player's inventory.
pub fn cmd_inventory(world: &World, player: &Player, out: &mut Vec<Visual>) -> (r: StatusResult)
    requires
        world.wf(),
        world@.has_inv(player.id),
    ensures
        brought(world@, old(out)@, final(out)@, r, world@.cmd_inventory(*player)),
{
    visual::player_inventory(world, player.id, out);
    Ok(Status::Normal)
}

/// Describe a thing that the player can see.
pub fn cmd_examine(world: &World, player: &Player, name: &str, out: &mut Vec<Visual>) -> (r:
    StatusResult)
    requires
        world.wf(),
    ensures
        brought(world@, old(out)@, final(out)@, r, world@.cmd_examine(*player, name@)),
{
    let seen = phys::visible(world, player.id);
    match find_noun(world, &seen, name) {
        Some(thing) => {
            if thing == player.id {
                visual::player(world, player.id, out);
            } else {
                visual::thing(world, thing, out);
            }
            Ok(Status::Normal)
        },
        None => {
            Err("You don't see any such thing.".to_owned())
        },
    }
}

/// Read a thing that the player can see.
pub fn cmd_read(world: &mut World, player: &Player, name: &str, out: &mut Vec<Visual>) -> (r:
    StatusResult)
    requires
        old(world).wf(),
        old(world)@.has_inv(player.id),
    ensures
        brought(final(world)@, old(out)@, final(out)@, r, old(world)@.cmd_read(*player, name@)),
        final(world).wf(),
        final(world)@.frame() == old(world)@.frame(),
        final(world)@.clock == old(world)@.clock,
{
    let seen = phys::visible(world, player.id);
    match find_noun(world, &seen, name) {
        Some(thing) => {
            proof {
                if world@.has_inv(player.id) && world@.contents(player.id).contains(thing) {
                } else {
                    lemma_place_has_inventory(world@, player.id);
                    lemma_contents_are_things(world@, world@.loc(player.id), thing);
                }
            }
            // If it has no prose, it can't be read.
            if !visual::can_read(world, thing) {
                return Err("You can't read that.".to_owned());
            }
            // If he's holding it, or it's immovable, then he can read it.
            if phys::owns(world, player.id, thing) || world.has_flag(thing, &Flag::Immovable) {
                let done = phys::read_thing(world, player.id, thing, out);
                match done {
                    Ok(_) => Ok(Status::Normal),
                    Err(msg) => Err(msg),
                }
            } else {
                Err("You don't have it.".to_owned())
            }
        },
        None => {
            // It isn't here.
            Err("You don't see any such thing.".to_owned())
        },
    }
}

/// Gets a thing from the location's inventory.
pub fn cmd_get(world: &mut World, player: &Player, noun: &str, out: &mut Vec<Visual>) -> (r:
    StatusResult)
    requires
        old(world).wf(),
        old(world)@.is_context(*player),
        old(world)@.has_inv(player.id),
    ensures
        brought(final(world)@, old(out)@, final(out)@, r, old(world)@.cmd_get(*player, noun@)),
        final(world).wf(),
        final(world)@.frame() == old(world)@.frame(),
        final(world)@.clock == old(world)@.clock,
{
    proof {
        lemma_place_has_inventory(world@, player.id);
    }
    // Does he already have it?
    let held = phys::contents(world, player.id);
    if find_noun(world, &held, noun).is_some() {
        return Err("You already have that.".to_owned());
    }
    let fixed = phys::immovable(world, player.loc);
    if find_noun(world, &fixed, noun).is_some() {
        return Err("You can't take that!".to_owned());
    }
    let loose = phys::gettable(world, player.id);
    match find_noun(world, &loose, noun) {
        Some(thing) => {
            proof {
                lemma_contents_are_things(world@, player.loc, thing);
            }
            // Get the thing.
            let done = phys::get_thing(world, player.id, thing, out);
            match done {
                Ok(_) => Ok(Status::Normal),
                Err(msg) => Err(msg),
            }
        },
        None => {
            Err("You don't see any such thing.".to_owned())
        },
    }
}

/// Drops a thing you're carrying.
pub fn cmd_drop(world: &mut World, player: &Player, noun: &str, out: &mut Vec<Visual>) -> (r:
    StatusResult)
    requires
        old(world).wf(),
        old(world)@.is_context(*player),
        old(world)@.has_inv(player.id),
    ensures
        brought(final(world)@, old(out)@, final(out)@, r, old(world)@.cmd_drop(*player, noun@)),
        final(world).wf(),
        final(world)@.frame() == old(world)@.frame(),
        final(world)@.clock == old(world)@.clock,
{
    proof {
        lemma_place_has_inventory(world@, player.id);
    }
    let loose = phys::droppable(world, player.id);
    match find_noun(world, &loose, noun) {
        Some(thing) => {
            proof {
                lemma_contents_are_things(world@, player.id, thing);
            }
            // Drop the thing
            phys::put_in(world, thing, player.loc);
            visual::act("Dropped.", out);
            Ok(Status::Normal)
        },
        None => {
            let part = phys::scenery(world, player.id);
            if find_noun(world, &part, noun).is_some() {
                Err("You can't drop that!".to_owned())
            } else {
                let seen = phys::visible(world, player.id);
                if find_noun(world, &seen, noun).is_some() {
                    Err("You aren't carrying that.".to_owned())
                } else {
                    Err("You don't see any such thing.".to_owned())
                }
            }
        },
    }
}

/// Undo the last command of the game.
pub fn cmd_undo(game: &Game, out: &mut Vec<Visual>) -> (r: StatusResult)
    ensures
        brought(
            game@.world,
            old(out)@,
            final(out)@,
            r,
            game@.world.cmd_undo(game@.undo is Some),
        ),
{
    if game.has_undo() {
        visual::act("Undone.", out);
        Ok(Status::Undo)
    } else {
        Err("Nothing to undo.".to_owned())
    }
}

/// Restart the game.
pub fn cmd_restart(out: &mut Vec<Visual>) -> (r: StatusResult)
    ensures
        r == Ok::<Status, String>(Status::Restart),
        lines(final(out)@) == lines(old(out)@) + line(VisualKind::Act, "Restarting..."@),
{
    visual::act("Restarting...", out);
    Ok(Status::Restart)
}

/// Quit the game.
pub fn cmd_quit(out: &mut Vec<Visual>) -> (r: StatusResult)
    ensures
        r == Ok::<Status, String>(Status::Quit),
        lines(final(out)@) == lines(old(out)@) + line(VisualKind::Act, "Bye, then."@),
{
    visual::act("Bye, then.", out);
    Ok(Status::Quit)
}

/// Display basic help, i.e., what commands are available.
pub fn cmd_help(out: &mut Vec<Visual>) -> (r: StatusResult)
    ensures
        r == Ok::<Status, String>(Status::Normal),
        lines(final(out)@) == lines(old(out)@) + line(VisualKind::Info, HELP@),
{
    visual::info(HELP, out);
    Ok(Status::Normal)
}

/// Do the words match the pattern?
pub open spec fn matches(p: PatternView, words: Seq<Text>) -> bool {
    match p {
        PatternView::Verb(verb) => words.len() == 1 && words[0] == verb,
        PatternView::VerbNoun(verb, noun) => words.len() == 2 && words[0] == verb && words[1]
            == noun,
        PatternView::VerbVisible(verb) => words.len() == 2 && words[0] == verb,
    }
}

/// The built-in commands.
#[derive(PartialEq, Eq, Structural, Clone, Copy, Debug)]
pub enum Builtin {
    Go(Dir),
    Help,
    Look,
    Inventory,
    Examine,
    Read,
    Get,
    Drop,
    Undo,
    Restart,
    Quit,
}

/// The direction that the word names, if it names one that the player can
/// go.
pub open spec fn direction(word: Text) -> Option<Dir> {
    if word == "north"@ {
        Some(Dir::North)
    } else if word == "south"@ {
        Some(Dir::South)
    } else if word == "east"@ {
        Some(Dir::East)
    } else if word == "west"@ {
        Some(Dir::West)
    } else {
        None
    }
}

/// The built-in command that the words give, if they give one. A command
/// that names a thing names it by its last word.
pub open spec fn builtin(words: Seq<Text>) -> Option<Builtin> {
    if words.len() == 1 {
        if direction(words[0]) is Some {
            Some(Builtin::Go(direction(words[0])->0))
        } else if words[0] == "help"@ {
            Some(Builtin::Help)
        } else if words[0] == "look"@ {
            Some(Builtin::Look)
        } else if words[0] == "inventory"@ {
            Some(Builtin::Inventory)
        } else if words[0] == "undo"@ {
            Some(Builtin::Undo)
        } else if words[0] == "restart"@ {
            Some(Builtin::Restart)
        } else if words[0] == "quit"@ {
            Some(Builtin::Quit)
        } else {
            None
        }
    } else if words.len() == 2 {
        if words[0] == "go"@ {
            if direction(words[1]) is Some {
                Some(Builtin::Go(direction(words[1])->0))
            } else {
                None
            }
        } else if words[0] == "examine"@ {
            Some(Builtin::Examine)
        } else if words[0] == "read"@ {
            Some(Builtin::Read)
        } else if words[0] == "get"@ {
            Some(Builtin::Get)
        } else if words[0] == "drop"@ {
            Some(Builtin::Drop)
        } else {
            None
        }
    } else if words.len() == 3 {
        if words[0] == "pick"@ && words[1] == "up"@ {
            Some(Builtin::Get)
        } else {
            None
        }
    } else {
        None
    }
}

impl WorldView {
    /// The outcome of a custom command: where its pattern asks for a thing
    /// that the player can see, there must be one; then, where the condition
    /// of its hook holds, the script of the hook is run; elsewhere the
    /// command fails with the hook's refusal.
    pub open spec fn run_handler(
        self,
        h: HandlerView,
        player: Player,
        words: Seq<Text>,
    ) -> Outcome {
        if h.pattern is VerbVisible && self.find_noun(self.visible(player.id), words[1])
            is None {
            self.refused("You don't see any such thing."@)
        } else if self.holds(h.hook.when) {
            Outcome {
                world: self.run(h.hook.script),
                lines: prints(h.hook.script),
                result: Ok(Status::Normal),
            }
        } else {
            self.refused(h.hook.refusal)
        }
    }

    /// Is `k` a custom command that the words match?
    pub open spec fn handles(self, words: Seq<Text>, k: ID) -> bool {
        k < self.handlers.len() && matches(self.handlers[k as int].pattern, words)
    }

    /// The custom command that takes the words: the first that they match.
    pub open spec fn custom(self, words: Seq<Text>) -> Option<ID> {
        least(|k: ID| self.handles(words, k))
    }

    /// The outcome of a built-in command.
    pub open spec fn run_builtin(
        self,
        b: Builtin,
        player: Player,
        words: Seq<Text>,
        has_undo: bool,
    ) -> Outcome {
        match b {
            Builtin::Go(dir) => self.cmd_go(player, dir),
            Builtin::Help => self.cmd_help(),
            Builtin::Look => self.cmd_look(player),
            Builtin::Inventory => self.cmd_inventory(player),
            Builtin::Examine => self.cmd_examine(player, words.last()),
            Builtin::Read => self.cmd_read(player, words.last()),
            Builtin::Get => self.cmd_get(player, words.last()),
            Builtin::Drop => self.cmd_drop(player, words.last()),
            Builtin::Undo => self.cmd_undo(has_undo),
            Builtin::Restart => self.cmd_restart(),
            Builtin::Quit => self.cmd_quit(),
        }
    }

    /// The outcome of a command for playing: that of the first custom command
    /// that the words match, or else that of the built-in command that they
    /// give, or else a failure.
    pub open spec fn normal_command(
        self,
        player: Player,
        words: Seq<Text>,
        has_undo: bool,
    ) -> Outcome {
        match self.custom(words) {
            Some(k) => self.run_handler(self.handlers[k as int], player, words),
            None => match builtin(words) {
                Some(b) => self.run_builtin(b, player, words, has_undo),
                None => self.refused("I don't understand."@),
            },
        }
    }

    /// The entity that the token names: the one with that tag, or else the
    /// one with the identity that the token gives as a number.
    pub open spec fn resolve_id(self, token: Text, parsed: Option<usize>) -> Result<ID, Text> {
        match self.lookup(token) {
            Some(id) => Ok(id),
            None => match parsed {
                Some(id) => if self.has(id) {
                    Ok(id)
                } else {
                    Err("Not an ID: "@ + token)
                },
                None => Err("Not an ID: "@ + token),
            },
        }
    }

    /// The entity that the token names.
    pub open spec fn parse_id(self, token: Text) -> Result<ID, Text> {
        self.resolve_id(token, parsed_number(token))
    }

    /// Why the entity cannot be shown as a room.
    pub open spec fn not_a_room(id: ID) -> Text {
        "Entity "@ + decimal(id as nat) + " is not a room."@
    }

    /// Why the entity cannot be shown as a thing.
    pub open spec fn not_a_thing(id: ID) -> Text {
        "Entity "@ + decimal(id as nat) + " is not a thing."@
    }

    /// Dump information about the given entity.
    pub open spec fn cmd_debug_dump(self, token: Text) -> Outcome {
        match self.parse_id(token) {
            Ok(id) => self.shown(self.dump(id)),
            Err(msg) => self.refused(msg),
        }
    }

    /// Describe the room as though the player were in it.
    pub open spec fn cmd_debug_look(self, token: Text) -> Outcome {
        match self.parse_id(token) {
            Ok(id) => if self.is_room(id) {
                self.shown(self.room_lines(id))
            } else {
                self.refused(Self::not_a_room(id))
            },
            Err(msg) => self.refused(msg),
        }
    }

    /// Examine the thing fully, as though the player could see it.
    pub open spec fn cmd_debug_examine(self, token: Text) -> Outcome {
        match self.parse_id(token) {
            Ok(id) => if self.is_thing(id) {
                self.shown(self.prose_lines(id, ProseType::Thing))
            } else {
                self.refused(Self::not_a_thing(id))
            },
            Err(msg) => self.refused(msg),
        }
    }

    /// Take the player to the room.
    pub open spec fn cmd_debug_go(self, player: Player, token: Text) -> Outcome {
        match self.parse_id(token) {
            Ok(id) => if self.is_room(id) {
                Outcome {
                    world: self.put_in(player.id, id),
                    lines: self.put_in(player.id, id).room_lines(id),
                    result: Ok(Status::Normal),
                }
            } else {
                self.refused(Self::not_a_room(id))
            },
            Err(msg) => self.refused(msg),
        }
    }

    /// The outcome of a command for looking into the game.
    pub open spec fn debug_command(self, player: Player, words: Seq<Text>) -> Outcome {
        if words.len() == 1 && words[0] == "list"@ {
            self.shown(self.listing(self.entities.len()))
        } else if words.len() == 2 && words[0] == "dump"@ {
            self.cmd_debug_dump(words[1])
        } else if words.len() == 2 && words[0] == "look"@ {
            self.cmd_debug_look(words[1])
        } else if words.len() == 2 && words[0] == "examine"@ {
            self.cmd_debug_examine(words[1])
        } else if words.len() == 2 && words[0] == "go"@ {
            self.cmd_debug_go(player, words[1])
        } else {
            self.refused("I don't understand."@)
        }
    }

    /// The outcome of what the player typed: a failure with its message where
    /// it was not understood, else that of the command.
    pub open spec fn handle_input(
        self,
        player: Player,
        input: Result<CommandView, Text>,
        has_undo: bool,
    ) -> Outcome {
        match input {
            Ok(cmd) => if cmd.is_debug {
                self.debug_command(player, cmd.words)
            } else {
                self.normal_command(player, cmd.words, has_undo)
            },
            Err(msg) => self.refused(msg),
        }
    }

    /// The player's context in this world.
    pub open spec fn context(self) -> Player {
        Player { id: self.pid, loc: self.loc(self.pid) }
    }
}

/// Is the input a command for playing, rather than for looking into the
/// game?
pub open spec fn for_playing(input: Result<CommandView, Text>) -> bool {
    input is Ok && !input->Ok_0.is_debug
}

impl GameView {
    /// The outcome of what the player typed, in this game.
    #[verifier::opaque]
    pub open spec fn outcome(self, input: Result<CommandView, Text>) -> Outcome {
        self.world.handle_input(self.world.context(), input, self.undo is Some)
    }

    /// The game after the player control system has handled what the player
    /// typed. A command for playing that went well can be undone; an undo
    /// brings back the world as it was before the last such command; a
    /// restart starts the game again.
    pub open spec fn system(self, input: Result<CommandView, Text>) -> GameView {
        let o = self.outcome(input);
        let next = GameView { world: o.world, ..self };
        match o.result {
            Ok(Status::Normal) => if for_playing(input) {
                next.save_for_undo(self.world)
            } else {
                next
            },
            Ok(Status::Restart) => GameView::initial(),
            Ok(Status::Undo) => next.undo(),
            Ok(Status::Quit) => next,
            Err(msg) => next,
        }
    }

    /// What the player control system shows when it handles what the player
    /// typed: what the command shows, and the reason where it failed.
    pub open spec fn system_lines(self, input: Result<CommandView, Text>) -> Seq<VisualView> {
        let o = self.outcome(input);
        match o.result {
            Err(msg) => o.lines + line(VisualKind::Error, msg),
            _ => o.lines,
        }
    }
}

/// A command that fails leaves the world as it is.
pub proof fn lemma_failure_changes_nothing(
    w: WorldView,
    player: Player,
    input: Result<CommandView, Text>,
    has_undo: bool,
)
    ensures
        w.handle_input(player, input, has_undo).result is Err ==> w.handle_input(
            player,
            input,
            has_undo,
        ).world == w,
{
}

/// A command keeps a sound world sound, leaves its frame as it was, and
/// keeps the marks of the rules: whatever the player does, a rule that was
/// marked as fired stays marked.
pub proof fn lemma_command_keeps_marks(
    w: WorldView,
    player: Player,
    input: Result<CommandView, Text>,
    has_undo: bool,
)
    requires
        w.wf(),
        w.is_context(player),
    ensures
        w.keeps_marks(w.handle_input(player, input, has_undo).world),
        w.handle_input(player, input, has_undo).world.wf(),
        w.handle_input(player, input, has_undo).world.frame() == w.frame(),
{
    lemma_wf_well_shaped(w);
    assert(w.valid_entity(player.id));
    lemma_place_has_inventory(w, player.id);
    match input {
        Ok(cmd) => {
            let words = cmd.words;
            if cmd.is_debug {
                if words.len() == 2 && words[0] == "go"@ {
                    match w.parse_id(words[1]) {
                        Ok(id) => {
                            if w.is_room(id) {
                                phys::lemma_put_in_marks(w, player.id, id);
                                phys::lemma_put_in_places(w, player.id, id);
                            }
                        },
                        Err(msg) => {},
                    }
                }
            } else {
                match w.custom(words) {
                    Some(k) => {
                        let h = w.handlers[k as int];
                        lemma_run_wf(w, h.hook.script);
                    },
                    None => {
                        match builtin(words) {
                            Some(Builtin::Go(dir)) => {
                                match w.way(player, dir) {
                                    Some(LinkDestView::Room(dest)) => {
                                        assert(w.valid_entity(player.loc));
                                        phys::lemma_enter_room_marks(w, player.id, dest);
                                    },
                                    _ => {},
                                }
                            },
                            Some(Builtin::Read) => {
                                let name = words.last();
                                match w.find_noun(w.visible(player.id), name) {
                                    Some(thing) => {
                                        phys::lemma_read_thing_marks(w, player.id, thing);
                                    },
                                    None => {},
                                }
                            },
                            Some(Builtin::Get) => {
                                let noun = words.last();
                                match w.find_noun(w.gettable(player), noun) {
                                    Some(thing) => {
                                        lemma_contents_are_things(w, player.loc, thing);
                                        phys::lemma_get_thing_marks(w, player.id, thing);
                                    },
                                    None => {},
                                }
                            },
                            Some(Builtin::Drop) => {
                                let noun = words.last();
                                let loose = w.flagged(player.id, FlagView::Immovable, false);
                                match w.find_noun(loose, noun) {
                                    Some(thing) => {
                                        lemma_contents_are_things(w, player.id, thing);
                                        phys::lemma_put_in_marks(w, thing, player.loc);
                                        phys::lemma_put_in_wf(w, thing, player.loc);
                                    },
                                    None => {},
                                }
                            },
                            _ => {},
                        }
                    },
                }
            }
        },
        Err(msg) => {},
    }
}

/// The built-in command that the words give, if they give one.
pub fn parse_builtin(words: &Vec<String>) -> (r: Option<Builtin>)
    ensures
        r == builtin(words_view(words@)),
{
    if words.len() == 1 {
        match parse_direction(&words[0]) {
            Some(dir) => Some(Builtin::Go(dir)),
            None => {
                if is_word(&words[0], "help") {
                    Some(Builtin::Help)
                } else if is_word(&words[0], "look") {
                    Some(Builtin::Look)
                } else if is_word(&words[0], "inventory") {
                    Some(Builtin::Inventory)
                } else if is_word(&words[0], "undo") {
                    Some(Builtin::Undo)
                } else if is_word(&words[0], "restart") {
                    Some(Builtin::Restart)
                } else if is_word(&words[0], "quit") {
                    Some(Builtin::Quit)
                } else {
                    None
                }
            },
        }
    } else if words.len() == 2 {
        if is_word(&words[0], "go") {
            match parse_direction(&words[1]) {
                Some(dir) => Some(Builtin::Go(dir)),
                None => None,
            }
        } else if is_word(&words[0], "examine") {
            Some(Builtin::Examine)
        } else if is_word(&words[0], "read") {
            Some(Builtin::Read)
        } else if is_word(&words[0], "get") {
            Some(Builtin::Get)
        } else if is_word(&words[0], "drop") {
            Some(Builtin::Drop)
        } else {
            None
        }
    } else if words.len() == 3 {
        if is_word(&words[0], "pick") && is_word(&words[1], "up") {
            Some(Builtin::Get)
        } else {
            None
        }
    } else {
        None
    }
}

/// The direction that the word names, if it names one that the player can
/// go.
fn parse_direction(word: &String) -> (r: Option<Dir>)
    ensures
        r == direction(word@),
{
    if is_word(word, "north") {
        Some(Dir::North)
    } else if is_word(word, "south") {
        Some(Dir::South)
    } else if is_word(word, "east") {
        Some(Dir::East)
    } else if is_word(word, "west") {
        Some(Dir::West)
    } else {
        None
    }
}

impl CommandHandler {
    /// Determines whether the words match the command's pattern.
    pub fn matches(&self, words: &Vec<String>) -> (r: bool)
        ensures
            r == matches(self@.pattern, words_view(words@)),
    {
        match &self.pattern {
            CommandPattern::Verb(verb) => {
                if words.len() == 1 {
                    words[0] == *verb
                } else {
                    false
                }
            },
            CommandPattern::VerbNoun(verb, noun) => {
                if words.len() == 2 {
                    words[0] == *verb && words[1] == *noun
                } else {
                    false
                }
            },
            CommandPattern::VerbVisible(verb) => {
                if words.len() == 2 {
                    words[0] == *verb
                } else {
                    false
                }
            },
        }
    }

    /// Executes the command. It is for words that match the pattern.
    pub fn execute(
        &self,
        world: &mut World,
        player: &Player,
        words: &Vec<String>,
        out: &mut Vec<Visual>,
    ) -> (r: Result<(), String>)
        requires
            old(world).wf(),
            old(world)@.valid_handler(self@),
            matches(self@.pattern, words_view(words@)),
        ensures
            final(world)@ == old(world)@.run_handler(self@, *player, words_view(words@)).world,
            lines(final(out)@) == lines(old(out)@) + old(world)@.run_handler(
                self@,
                *player,
                words_view(words@),
            ).lines,
            match r {
                Ok(_) => old(world)@.run_handler(self@, *player, words_view(words@)).result
                    == Ok::<Status, Text>(Status::Normal),
                Err(msg) => old(world)@.run_handler(self@, *player, words_view(words@)).result
                    == Err::<Status, Text>(msg@),
            },
            final(world).wf(),
            final(world)@.frame() == old(world)@.frame(),
            final(world)@.clock == old(world)@.clock,
    {
        // FIRST, do special checks
        match &self.pattern {
            CommandPattern::VerbVisible(_) => {
                let seen = phys::visible(world, player.id);
                if find_noun(world, &seen, words[1].as_str()).is_none() {
                    return Err("You don't see any such thing.".to_owned());
                }
            },
            _ => {},
        }
        // NEXT, see whether the hook applies
        if !world.holds(&self.hook.when) {
            return Err(self.hook.refusal.clone());
        }
        // NEXT, execute the script
        self.hook.script.execute(world, out);
        Ok(())
    }
}

/// The entity that the token names, given the number that the token was read
/// as: the entity with that tag, or else the one with that number as its
/// identity.
pub fn resolve_id(world: &World, token: &str, parsed: Option<usize>) -> (r: Result<ID, String>)
    ensures
        match r {
            Ok(id) => world@.resolve_id(token@, parsed) == Ok::<ID, Text>(id),
            Err(msg) => world@.resolve_id(token@, parsed) == Err::<ID, Text>(msg@),
        },
{
    // FIRST, is the token a tag?
    match world.lookup(token) {
        Some(id) => {
            return Ok(id);
        },
        None => {},
    }
    // NEXT, is it an explicit ID?
    match parsed {
        Some(id) => {
            if id < world.entities.len() {
                return Ok(id);
            }
        },
        None => {},
    }
    let mut msg = "Not an ID: ".to_owned();
    msg.append(token);
    Err(msg)
}

/// Parse a token as an entity tag or ID, return an ID on success and an error
/// result on failure.
pub fn parse_id(world: &World, token: &str) -> (r: Result<ID, String>)
    ensures
        match r {
            Ok(id) => world@.parse_id(token@) == Ok::<ID, Text>(id),
            Err(msg) => world@.parse_id(token@) == Err::<ID, Text>(msg@),
        },
{
    resolve_id(world, token, number(token))
}

/// List all of the available entities.
fn cmd_debug_list(world: &World, out: &mut Vec<Visual>) -> (r: StatusResult)
    ensures
        brought(
            world@,
            old(out)@,
            final(out)@,
            r,
            world@.shown(world@.listing(world@.entities.len())),
        ),
{
    debug::list_world(world, out);
    Ok(Status::Normal)
}

/// Dump information about the given entity, provided the ID string is
/// valid.
fn cmd_debug_dump(world: &World, id_arg: &str, out: &mut Vec<Visual>) -> (r: StatusResult)
    ensures
        brought(world@, old(out)@, final(out)@, r, world@.cmd_debug_dump(id_arg@)),
{
    match parse_id(world, id_arg) {
        Ok(id) => {
            debug::dump_entity(world, id, out);
            Ok(Status::Normal)
        },
        Err(msg) => {
            Err(msg)
        },
    }
}

/// Describe the room as though the player were in it.
fn cmd_debug_look(world: &World, id_arg: &str, out: &mut Vec<Visual>) -> (r: StatusResult)
    requires
        world.wf(),
    ensures
        brought(world@, old(out)@, final(out)@, r, world@.cmd_debug_look(id_arg@)),
{
    match parse_id(world, id_arg) {
        Ok(id) => {
            if world.is_room(id) {
                visual::room(world, id, out);
                Ok(Status::Normal)
            } else {
                Err(join3("Entity ", decimal_text(id).as_str(), " is not a room."))
            }
        },
        Err(msg) => {
            Err(msg)
        },
    }
}

/// Examine the thing fully, as though the player could see it.
fn cmd_debug_examine(world: &World, id_arg: &str, out: &mut Vec<Visual>) -> (r: StatusResult)
    requires
        world.wf(),
    ensures
        brought(world@, old(out)@, final(out)@, r, world@.cmd_debug_examine(id_arg@)),
{
    match parse_id(world, id_arg) {
        Ok(id) => {
            if world.is_thing(id) {
                visual::thing(world, id, out);
                Ok(Status::Normal)
            } else {
                Err(join3("Entity ", decimal_text(id).as_str(), " is not a thing."))
            }
        },
        Err(msg) => {
            Err(msg)
        },
    }
}

/// Take the player to the room.
fn cmd_debug_go(world: &mut World, player: &Player, id_arg: &str, out: &mut Vec<Visual>) -> (r:
    StatusResult)
    requires
        old(world).wf(),
        old(world)@.has_loc(player.id),
    ensures
        brought(
            final(world)@,
            old(out)@,
            final(out)@,
            r,
            old(world)@.cmd_debug_go(*player, id_arg@),
        ),
        final(world).wf(),
        final(world)@.frame() == old(world)@.frame(),
        final(world)@.clock == old(world)@.clock,
{
    match parse_id(world, id_arg) {
        Ok(loc) => {
            if world.is_room(loc) {
                phys::put_in(world, player.id, loc);
                proof {
                    lemma_frame_flags(old(world)@, world@, loc);
                }
                visual::room(world, loc, out);
                Ok(Status::Normal)
            } else {
                Err(join3("Entity ", decimal_text(loc).as_str(), " is not a room."))
            }
        },
        Err(msg) => {
            Err(msg)
        },
    }
}

/// Handle debugging commands.
fn handle_debug_command(
    game: &mut Game,
    player: &Player,
    cmd: &Command,
    out: &mut Vec<Visual>,
) -> (r: StatusResult)
    requires
        old(game).wf(),
        old(game)@.world.has_loc(player.id),
    ensures
        brought(
            final(game)@.world,
            old(out)@,
            final(out)@,
            r,
            old(game)@.world.debug_command(*player, cmd@.words),
        ),
        final(game)@.undo == old(game)@.undo,
        final(game).wf(),
        final(game)@.world.frame() == old(game)@.world.frame(),
        final(game)@.world.clock == old(game)@.world.clock,
{
    let words = &cmd.words;
    if words.len() == 1 {
        if is_word(&words[0], "list") {
            return cmd_debug_list(&game.world, out);
        }
    } else if words.len() == 2 {
        if is_word(&words[0], "dump") {
            return cmd_debug_dump(&game.world, words[1].as_str(), out);
        } else if is_word(&words[0], "look") {
            return cmd_debug_look(&game.world, words[1].as_str(), out);
        } else if is_word(&words[0], "examine") {
            return cmd_debug_examine(&game.world, words[1].as_str(), out);
        } else if is_word(&words[0], "go") {
            return cmd_debug_go(&mut game.world, player, words[1].as_str(), out);
        }
    }
    // Error
    Err("I don't understand.".to_owned())
}

/// Runs the built-in command.
fn run_builtin(
    game: &mut Game,
    b: Builtin,
    player: &Player,
    words: &Vec<String>,
    out: &mut Vec<Visual>,
) -> (r: StatusResult)
    requires
        old(game).wf(),
        old(game)@.world.is_context(*player),
        b == Builtin::Examine || b == Builtin::Read || b == Builtin::Get || b == Builtin::Drop
            ==> words@.len() > 0,
    ensures
        brought(
            final(game)@.world,
            old(out)@,
            final(out)@,
            r,
            old(game)@.world.run_builtin(
                b,
                *player,
                words_view(words@),
                old(game)@.undo is Some,
            ),
        ),
        final(game)@.undo == old(game)@.undo,
        final(game).wf(),
        final(game)@.world.frame() == old(game)@.world.frame(),
        final(game)@.world.clock == old(game)@.world.clock,
{
    let last = if words.len() > 0 {
        words.len() - 1
    } else {
        0
    };
    match b {
        Builtin::Go(dir) => cmd_go(&mut game.world, player, dir, out),
        Builtin::Help => cmd_help(out),
        Builtin::Look => cmd_look(&game.world, player, out),
        Builtin::Inventory => cmd_inventory(&game.world, player, out),
        Builtin::Examine => cmd_examine(&game.world, player, words[last].as_str(), out),
        Builtin::Read => cmd_read(&mut game.world, player, words[last].as_str(), out),
        Builtin::Get => cmd_get(&mut game.world, player, words[last].as_str(), out),
        Builtin::Drop => cmd_drop(&mut game.world, player, words[last].as_str(), out),
        Builtin::Undo => cmd_undo(game, out),
        Builtin::Restart => cmd_restart(out),
        Builtin::Quit => cmd_quit(out),
    }
}

/// Handle the commands for playing: first the custom commands, in the order
/// in which they were added, then the built-in ones.
fn handle_normal_command(
    game: &mut Game,
    player: &Player,
    cmd: &Command,
    out: &mut Vec<Visual>,
) -> (r: StatusResult)
    requires
        old(game).wf(),
        old(game)@.world.is_context(*player),
    ensures
        brought(
            final(game)@.world,
            old(out)@,
            final(out)@,
            r,
            old(game)@.world.normal_command(*player, cmd@.words, old(game)@.undo is Some),
        ),
        final(game)@.undo == old(game)@.undo,
        final(game).wf(),
        final(game)@.world.frame() == old(game)@.world.frame(),
        final(game)@.world.clock == old(game)@.world.clock,
{
    let words = &cmd.words;
    let ghost v = words_view(words@);
    let ghost p = |k: ID| game@.world.handles(v, k);
    // FIRST, handle custom commands.
    let n = game.world.command_handlers.len();
    let mut i: usize = 0;
    while i < n
        invariant
            i <= n,
            n == game@.world.handlers.len(),
            *game == *old(game),
            game.wf(),
            game@.world.is_context(*player),
            out@ == old(out)@,
            v == words_view(words@),
            v == cmd@.words,
            p == (|k: ID| game@.world.handles(v, k)),
            forall|j: ID| j < i ==> !#[trigger] p(j),
        decreases n - i,
    {
        if game.world.command_handlers[i].matches(words) {
            let handler = game.world.command_handlers[i].clone();
            proof {
                lemma_least_some(p, i);
                lemma_wf_well_shaped(game@.world);
            }
            let done = handler.execute(&mut game.world, player, words, out);
            return match done {
                Ok(_) => Ok(Status::Normal),
                Err(msg) => Err(msg),
            };
        }
        i += 1;
    }
    proof {
        assert forall|k: ID| !#[trigger] p(k) by {
        }
    }
    // NEXT, handle built-in commands
    match parse_builtin(words) {
        Some(b) => run_builtin(game, b, player, words, out),
        None => {
            // Error
            Err("I don't understand.".to_owned())
        },
    }
}

/// Describes the place where the player is, if it is a room.
pub fn describe_player_location(world: &World, out: &mut Vec<Visual>)
    requires
        world.wf(),
    ensures
        lines(final(out)@) == lines(old(out)@) + world@.cmd_look(world@.context()).lines,
{
    let player = Player { id: world.pid, loc: phys::loc(world, world.pid) };
    let _ = cmd_look(world, &player, out);
}

/// Handles what the player typed, as far as it was understood.
fn handle_input(
    game: &mut Game,
    player: &Player,
    input: &Result<Command, String>,
    out: &mut Vec<Visual>,
) -> (r: StatusResult)
    requires
        old(game).wf(),
        old(game)@.world.is_context(*player),
    ensures
        brought(
            final(game)@.world,
            old(out)@,
            final(out)@,
            r,
            old(game)@.world.handle_input(*player, input_view(*input), old(game)@.undo is Some),
        ),
        final(game)@.undo == old(game)@.undo,
        final(game).wf(),
        final(game)@.world.frame() == old(game)@.world.frame(),
        final(game)@.world.clock == old(game)@.world.clock,
{
    match input {
        Ok(cmd) => {
            if cmd.is_debug {
                handle_debug_command(game, player, cmd, out)
            } else {
                handle_normal_command(game, player, cmd, out)
            }
        },
        Err(msg) => {
            Err(msg.clone())
        },
    }
}

/// The player control system. Processes what the player typed. A command for
/// playing that went well can be undone afterwards; a failure is shown with
/// its reason, and leaves the world as it was.
pub fn system(game: &mut Game, input: &str, out: &mut Vec<Visual>) -> (r: StatusResult)
    requires
        old(game).wf(),
    ensures
        final(game)@ == old(game)@.system(parsed(input@)),
        lines(final(out)@) == lines(old(out)@) + old(game)@.system_lines(parsed(input@)),
        result_view(r) == old(game)@.outcome(parsed(input@)).result,
        r is Err ==> final(game)@ == old(game)@,
        r == Ok::<Status, String>(Status::Normal) ==> final(game)@.world.clock == old(
            game,
        )@.world.clock,
        final(game).wf(),
{
    reveal(GameView::outcome);
    // FIRST, get the current game state, for later undo.
    let undo_info = game.world.clone();
    // NEXT, get the player's context
    let player = Player { id: game.world.pid, loc: phys::loc(&game.world, game.world.pid) };
    // NEXT, handle the input
    let cmd = command::parse(input);
    let result = handle_input(game, &player, &cmd, out);
    match &result {
        Err(msg) => {
            visual::error(msg.as_str(), out);
        },
        Ok(Status::Normal) => {
            let playing = match &cmd {
                Ok(c) => !c.is_debug,
                Err(_) => false,
            };
            if playing {
                game.save_for_undo(undo_info);
            }
        },
        Ok(Status::Restart) => {
            game.restart();
        },
        Ok(Status::Undo) => {
            game.undo();
        },
        Ok(Status::Quit) => {},
    }
    result
}

} // verus!
