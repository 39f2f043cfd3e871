//! An interactive-fiction engine: a world of rooms and things, moved by a
//! player's commands and by rules that guard and follow what happens.
//!
//! The world is a table of entities, each with the components that make it
//! what it is. Contracts speak of the world through its view, a
//! [`world::WorldView`], and every operation says exactly which view it leaves
//! behind and which lines it shows. A world is sound ([`world::World::wf`])
//! when it is well shaped and every entity that is somewhere is in the
//! inventory of that place and in no other; every operation of the engine
//! keeps a sound world sound.
//!
//! - [`types`], [`entity`], [`world`]: the data, and the store of entities.
//! - [`phys`]: where things are, and how they move.
//! - [`script`], [`rule`]: what rules do, and when they do it.
//! - [`visual`]: the lines that the player is shown.
//! - [`command`], [`player_control`], [`debug`]: what the player's commands
//!   do.
//! - [`world_builder`], [`settled`], [`scenario`]: how a world is built, what
//!   stays true while it is built, and the world of the game.
//!
//! Nothing here reads or prints: what the player typed comes in as text, and
//! what the player is shown goes out as a list of lines.

pub mod command;
pub mod debug;
pub mod entity;
pub mod least;
pub mod phys;
pub mod player_control;
pub mod rule;
pub mod scenario;
pub mod script;
pub mod settled;
pub mod text;
pub mod types;
pub mod visual;
pub mod world;
pub mod world_builder;

use crate::command::parsed;
use crate::command::words_view;
use crate::command::CommandView;
use crate::player_control::for_playing;
use crate::player_control::result_view;
use crate::player_control::Status;
use crate::types::Event;
use crate::types::ID;
use crate::types::Text;
use crate::visual::line;
use crate::visual::lines;
use crate::visual::Visual;
use crate::visual::VisualKind;
use crate::visual::VisualView;
use crate::world::World;
use crate::world::WorldView;
use std::string::String;
use vstd::prelude::*;

verus! {

/// A game in progress: the world, and the world as it was before the last
/// command, to which that command can be undone.
#[derive(Debug)]
pub struct Game {
    /// The world as it is.
    pub world: World,
    /// The world as it was before the last command that changed it.
    pub undo_info: Option<World>,
}

/// A game as contracts see it.
#[verifier::ext_equal]
pub struct GameView {
    pub world: WorldView,
    pub undo: Option<WorldView>,
}

impl View for Game {
    type V = GameView;

    open spec fn view(&self) -> GameView {
        GameView {
            world: self.world@,
            undo: match self.undo_info {
                Some(w) => Some(w@),
                None => None,
            },
        }
    }
}

impl GameView {
    /// Is the game sound: are its worlds sound?
    pub open spec fn wf(self) -> bool {
        self.world.wf() && (self.undo is Some ==> self.undo->0.wf())
    }

    /// The game at its start: the world of the scenario, and nothing to
    /// undo.
    pub open spec fn initial() -> GameView {
        GameView { world: scenario::world_view(), undo: None }
    }

    /// The game with the given world saved for undoing.
    pub open spec fn save_for_undo(self, saved: WorldView) -> GameView {
        GameView { undo: Some(saved), ..self }
    }

    /// The game after undoing: the saved world is the world again, and there
    /// is nothing more to undo. Where nothing was saved, nothing changes.
    pub open spec fn undo(self) -> GameView {
        match self.undo {
            Some(saved) => GameView { world: saved, undo: None },
            None => self,
        }
    }
}

/// A world that was saved and to which the game was then undone is the world
/// again, whatever happened to the world in between.
pub proof fn lemma_undo_restores(g: GameView, changed: WorldView)
    ensures
        (GameView { world: changed, ..g.save_for_undo(g.world) }).undo().world == g.world,
        (GameView { world: changed, ..g.save_for_undo(g.world) }).undo().undo is None,
{
}

impl Game {
    /// Is the game sound?
    pub open spec fn wf(&self) -> bool {
        self@.wf()
    }

    /// A game at its start.
    pub fn new() -> (g: Game)
        ensures
            g@ == GameView::initial(),
            g.wf(),
            g@.world.clock == 0,
    {
        Game { world: scenario::build(), undo_info: None }
    }

    /// Is the game sound?
    pub fn is_sound(&self) -> (r: bool)
        ensures
            r == self.wf(),
    {
        self.world.is_sound() && match &self.undo_info {
            Some(w) => w.is_sound(),
            None => true,
        }
    }

    /// Is there something to undo?
    pub fn has_undo(&self) -> (r: bool)
        ensures
            r == self@.undo is Some,
    {
        self.undo_info.is_some()
    }

    /// Saves the world as the one to which the game can be undone.
    pub fn save_for_undo(&mut self, undo_info: World)
        ensures
            final(self)@ == old(self)@.save_for_undo(undo_info@),
    {
        self.undo_info = Some(undo_info);
    }

    /// Undoes the last command: the world is again what was saved before it,
    /// and there is nothing more to undo. Where nothing was saved, nothing
    /// changes.
    pub fn undo(&mut self)
        ensures
            final(self)@ == old(self)@.undo(),
            old(self).wf() ==> final(self).wf(),
    {
        match self.undo_info.take() {
            Some(saved) => {
                self.world = saved;
            },
            None => {},
        }
    }

    /// Starts the game again: the world is that of the scenario, and there is
    /// nothing to undo.
    pub fn restart(&mut self)
        ensures
            final(self)@ == GameView::initial(),
            final(self).wf(),
            final(self)@.world.clock == 0,
    {
        self.world = scenario::build();
        self.undo_info = None;
    }
}

/// What the game says when it starts.
pub const WELCOME: &'static str = "Welcome to Advent!\n";

impl WorldView {
    /// The world one turn later: the rules bound to the passing of a turn
    /// have fired, and the turn counter has advanced.
    pub open spec fn tick(self) -> WorldView {
        WorldView { clock: (self.clock + 1) as usize, ..self.fire_event(Event::Turn) }
    }
}

impl GameView {
    /// Does the input make a turn: is it a command for playing that went
    /// well?
    pub open spec fn accepts(self, input: Result<CommandView, Text>) -> bool {
        for_playing(input) && self.outcome(input).result == Ok::<Status, Text>(Status::Normal)
    }

    /// The game after what the player typed has been handled. A command for
    /// playing that went well makes a turn; nothing else does.
    #[verifier::opaque]
    pub open spec fn turn(self, input: Result<CommandView, Text>) -> GameView {
        let g = self.system(input);
        if self.accepts(input) {
            GameView { world: g.world.tick(), ..g }
        } else {
            g
        }
    }

    /// What is shown while what the player typed is handled.
    #[verifier::opaque]
    pub open spec fn turn_lines(self, input: Result<CommandView, Text>) -> Seq<VisualView> {
        if self.accepts(input) {
            self.system_lines(input) + self.system(input).world.fire_event_lines(Event::Turn)
        } else {
            self.system_lines(input)
        }
    }
}

/// A session: the game, what has been shown so far, and whether the session
/// is over.
#[verifier::ext_equal]
pub struct Session {
    pub game: GameView,
    pub lines: Seq<VisualView>,
    pub over: bool,
}

/// The session after the first `k` inputs. It starts with the welcome and
/// the description of the place where the player is, and it is over when the
/// player quits, or when the turn counter cannot advance.
pub open spec fn played(inputs: Seq<Text>, k: nat) -> Session
    decreases k,
{
    if k == 0 {
        Session {
            game: GameView::initial(),
            lines: line(VisualKind::Info, WELCOME@) + GameView::initial().world.cmd_look(
                GameView::initial().world.context(),
            ).lines,
            over: false,
        }
    } else {
        let s = played(inputs, (k - 1) as nat);
        if s.over || s.game.world.clock == usize::MAX {
            Session { over: true, ..s }
        } else {
            let input = parsed(inputs[k - 1]);
            Session {
                game: s.game.turn(input),
                lines: s.lines + s.game.turn_lines(input),
                over: s.game.outcome(input).result == Ok::<Status, Text>(Status::Quit),
            }
        }
    }
}

/// Undoing after a turn brings back the world as it was before the turn:
/// whatever the command and the rules after it have changed, the tags, the
/// flags, the locations and the turn counter are again what they were.
pub proof fn lemma_undo_after_turn(
    g: GameView,
    input: Result<CommandView, Text>,
    undoing: Result<CommandView, Text>,
)
    requires
        g.accepts(input),
        g.turn(input).outcome(undoing).result == Ok::<Status, Text>(Status::Undo),
    ensures
        g.turn(input).system(undoing).world == g.world,
        g.turn(input).system(undoing).undo is None,
{
    reveal(GameView::turn);
}

/// Advancing the turn counter keeps a sound world sound.
pub proof fn lemma_clock_wf(w: WorldView, clock: usize)
    requires
        w.wf(),
    ensures
        (WorldView { clock, ..w }).wf(),
{
    let v = WorldView { clock, ..w };
    assert forall|e: ID| (#[trigger] v.loc_of(e)) is Some implies v.owns(v.loc_of(e)->0, e) by {
        assert(w.loc_of(e) is Some);
    }
    assert forall|c: ID, e: ID| #[trigger] v.owns(c, e) implies v.loc_of(e) == Some(c) by {
        assert(w.owns(c, e));
    }
}

/// What the player typed keeps a sound game sound. Unless it undoes a
/// command or starts the game again, it keeps the marks of the rules: a rule
/// that was marked as fired stays marked.
pub proof fn lemma_turn_keeps_marks(g: GameView, input: Result<CommandView, Text>)
    requires
        g.wf(),
        g.outcome(input).result != Ok::<Status, Text>(Status::Undo),
        g.outcome(input).result != Ok::<Status, Text>(Status::Restart),
    ensures
        g.world.keeps_marks(g.turn(input).world),
        g.turn(input).world.wf(),
{
    reveal(GameView::turn);
    reveal(GameView::outcome);
    let w = g.world;
    player_control::lemma_command_keeps_marks(w, w.context(), input, g.undo is Some);
    let v = g.system(input).world;
    if g.accepts(input) {
        rule::lemma_fire_event_marks(v, Event::Turn);
        let fired = v.fire_event(Event::Turn);
        lemma_clock_wf(fired, (v.clock + 1) as usize);
        rule::lemma_same_flags_keep_marks(fired, v.tick());
    }
}

impl Game {
    /// Handles what the player typed. A command for playing that went well
    /// makes a turn: after it the rules bound to the passing of a turn fire
    /// and the turn counter advances.
    pub fn turn(&mut self, input: &str, out: &mut Vec<Visual>) -> (r: Result<Status, String>)
        requires
            old(self).wf(),
            old(self)@.world.clock < usize::MAX,
        ensures
            final(self)@ == old(self)@.turn(parsed(input@)),
            lines(final(out)@) == lines(old(out)@) + old(self)@.turn_lines(parsed(input@)),
            result_view(r) == old(self)@.outcome(parsed(input@)).result,
            final(self).wf(),
    {
        reveal(GameView::turn);
        reveal(GameView::turn_lines);
        reveal(GameView::outcome);
        // FIRST, let the player do what he does.
        let result = player_control::system(self, input, out);
        let went_well = match &result {
            Ok(Status::Normal) => true,
            _ => false,
        };
        if went_well && !command::is_debug(input) {
            // NEXT, handle rules
            rule::system(&mut self.world, out);
            // NEXT, increment the clock
            proof {
                lemma_clock_wf(self@.world, (self@.world.clock + 1) as usize);
            }
            self.world.clock += 1;
        }
        result
    }
}

/// Runs a session: plays the game from its start on the given inputs, and
/// returns everything that the player is shown. The session ends with the
/// inputs, or when the player quits.
pub fn run(inputs: &Vec<String>) -> (out: Vec<Visual>)
    ensures
        lines(out@) == played(words_view(inputs@), inputs@.len()).lines,
{
    let mut out: Vec<Visual> = Vec::new();
    // FIRST, print the introduction
    visual::info(WELCOME, &mut out);
    // NEXT, create the game world.
    let mut game = Game::new();
    player_control::describe_player_location(&game.world, &mut out);
    // NEXT, enter the game loop.
    let mut over = false;
    let mut i: usize = 0;
    while i < inputs.len()
        invariant
            i <= inputs@.len(),
            game.wf(),
            game@ == played(words_view(inputs@), i as nat).game,
            lines(out@) == played(words_view(inputs@), i as nat).lines,
            over == played(words_view(inputs@), i as nat).over,
        decreases inputs@.len() - i,
    {
        if over || game.world.clock == usize::MAX {
            over = true;
        } else {
            let result = game.turn(inputs[i].as_str(), &mut out);
            over = match &result {
                Ok(Status::Quit) => true,
                _ => false,
            };
        }
        i += 1;
    }
    out
}

} // verus!
