//! The state of a session: its phase, the score of the current run and the
//! best score ever reached, and how each kind of frame changes them.
use vstd::prelude::*;

use crate::combat::{
    add_points, find_strikes, points, strikes, survivors, well_shaped, bullet_strikes,
    enemy_struck, lemma_strikes_name_enemies, ScoreOverflow,
};
use crate::decimal::{
    decimal, encode_decimal, lemma_read_back_decimal, parse_decimal, parse_unsigned,
};
use crate::rng::random_range;

verus! {

/// The phases a session moves through.
#[derive(Debug, Clone, Copy, PartialEq, Eq, Structural)]
pub enum GameMode {
    MainMenu,
    Playing,
    Paused,
    GameOver,
}

/// What the main menu asks for in a frame.
#[derive(Debug, Clone, Copy, PartialEq, Eq, Structural)]
pub enum MenuAction {
    /// Nothing was chosen: stay in the menu.
    Stay,
    /// "Play" was chosen: a fresh run has begun.
    Start,
    /// "Quit" was chosen: the program ends.
    Quit,
}

/// The spawn roll is drawn from `0..SPAWN_ROLL_RANGE`.
pub const SPAWN_ROLL_RANGE: i32 = 99;

/// A roll of at least this much brings a new enemy.
pub const SPAWN_THRESHOLD: i32 = 90;

/// The decisions taken at the start of a frame of play, before anything
/// moves.
pub struct FrameStart {
    /// A bullet leaves the ship.
    pub fire: bool,
    /// The roll drawn for this frame.
    pub roll: i32,
    /// A new enemy enters.
    pub spawn: bool,
}

/// What the end of a frame of play decided, for the program to carry out.
pub struct FrameReport {
    /// One flag per bullet: it struck something and is spent.
    pub bullets_hit: Vec<bool>,
    /// One flag per enemy: it was struck and is destroyed.
    pub enemies_hit: Vec<bool>,
    /// The enemy of each strike, in order: an explosion and a sound each.
    pub explosions: Vec<usize>,
    /// One flag per bullet: not struck and still in view, so it stays.
    pub bullets_kept: Vec<bool>,
    /// One flag per enemy: not struck and still in view, so it stays.
    pub enemies_kept: Vec<bool>,
    /// When the best score was beaten: the new best score, in the decimal
    /// form in which it is recorded.
    pub record: Option<Vec<u8>>,
}

/// The state of a session, as a value.
pub struct GameView {
    pub mode: GameMode,
    pub score: nat,
    pub best_score: nat,
}

/// The state of a session.
pub struct Game {
    mode: GameMode,
    score: usize,
    best_score: usize,
}

impl View for Game {
    type V = GameView;

    closed spec fn view(&self) -> GameView {
        GameView { mode: self.mode, score: self.score as nat, best_score: self.best_score as nat }
    }
}

/// What the menu does with a frame's clicks: quitting wins over playing.
pub open spec fn menu_choice(play: bool, quit: bool) -> MenuAction {
    if quit {
        MenuAction::Quit
    } else if play {
        MenuAction::Start
    } else {
        MenuAction::Stay
    }
}

/// Whether a roll brings a new enemy.
pub open spec fn spawn_rule(roll: int) -> bool {
    roll >= SPAWN_THRESHOLD
}

/// A fresh run: playing, no points yet, the best score kept.
pub open spec fn fresh_run(g: GameView) -> GameView {
    GameView { mode: GameMode::Playing, score: 0, best_score: g.best_score }
}

/// The phase after a paused frame: Escape leaves to the menu, Space resumes.
pub open spec fn pause_choice(mode: GameMode, resume: bool, leave: bool) -> GameMode {
    if leave {
        GameMode::MainMenu
    } else if resume {
        GameMode::Playing
    } else {
        mode
    }
}

/// Some flag of `flags` is set.
pub open spec fn any_set(flags: Seq<bool>) -> bool {
    exists|i: int| 0 <= i < flags.len() && #[trigger] flags[i]
}

/// The larger of two numbers.
pub open spec fn larger(a: nat, b: nat) -> nat {
    if a >= b {
        a
    } else {
        b
    }
}

/// The best score to start a session with, from the contents of the record
/// if there is one: zero without a record; the number it holds otherwise;
/// `None` when the record holds anything but a number.
pub open spec fn best_from_record(record: Option<Seq<u8>>) -> Option<usize> {
    match record {
        None => Some(0),
        Some(text) => parse_unsigned(text),
    }
}

/// Whether a roll brings a new enemy.
pub fn should_spawn(roll: i32) -> (spawn: bool)
    ensures
        spawn == spawn_rule(roll as int),
{
    roll >= SPAWN_THRESHOLD
}

/// What the main menu does with the clicks of a frame.
pub fn menu_action(play: bool, quit: bool) -> (action: MenuAction)
    ensures
        action == menu_choice(play, quit),
{
    if quit {
        MenuAction::Quit
    } else if play {
        MenuAction::Start
    } else {
        MenuAction::Stay
    }
}

/// The contents of a record can be read: there is none, or it holds a
/// number. A record holding anything else stops the program at start.
pub open spec fn readable_record(record: Option<Seq<u8>>) -> bool {
    best_from_record(record) is Some
}

/// Reads the best score from the contents of its record (`None` when there
/// is no readable record): zero without one, the number it holds otherwise.
/// A record that holds no number is left out; the program stops on it.
pub fn recorded_best(record: Option<&[u8]>) -> (best: usize)
    requires
        readable_record(
            match record {
                None => None,
                Some(text) => Some(text@),
            },
        ),
    ensures
        Some(best) == best_from_record(
            match record {
                None => None,
                Some(text) => Some(text@),
            },
        ),
{
    match record {
        None => 0,
        Some(text) => match parse_decimal(text) {
            Some(n) => n,
            None => 0,
        },
    }
}

/// In a paused frame Escape always leaves for the menu, Space alone
/// resumes play, and with neither key the phase stays.
pub proof fn lemma_pause_keys(mode: GameMode, resume: bool)
    ensures
        pause_choice(mode, resume, true) == GameMode::MainMenu,
        pause_choice(mode, true, false) == GameMode::Playing,
        pause_choice(mode, false, false) == mode,
{
}

/// In the menu "Quit" always ends the program, "Play" alone starts a run,
/// and with neither click nothing happens.
pub proof fn lemma_menu_clicks(play: bool)
    ensures
        menu_choice(play, true) == MenuAction::Quit,
        menu_choice(true, false) == MenuAction::Start,
        menu_choice(false, false) == MenuAction::Stay,
{
}

/// Enemies enter on the nine highest of the 99 rolls: a roll of 89 brings
/// none, a roll of 90 brings one, and a higher roll never brings fewer.
pub proof fn lemma_spawn_threshold(low: int, high: int)
    ensures
        !spawn_rule(89),
        spawn_rule(90),
        spawn_rule(SPAWN_ROLL_RANGE - 1),
        low <= high && spawn_rule(low) ==> spawn_rule(high),
{
}

/// The best score after a frame is at least the old best and at least the
/// new score, and is one of the two.
pub proof fn lemma_larger_is_best(a: nat, b: nat)
    ensures
        larger(a, b) >= a,
        larger(a, b) >= b,
        larger(a, b) == a || larger(a, b) == b,
{
}

/// The record written when a frame beats the best score is read back, at
/// the next start, as that best score.
pub proof fn lemma_recorded_best_reads_back(best: usize)
    ensures
        best_from_record(Some(decimal(best as nat))) == Some(best),
{
    lemma_read_back_decimal(best);
}

fn any_true(flags: &Vec<bool>) -> (found: bool)
    ensures
        found == any_set(flags@),
{
    let mut i: usize = 0;
    while i < flags.len()
        invariant
            i <= flags@.len(),
            forall|k: int| 0 <= k < i ==> !(#[trigger] flags@[k]),
        decreases flags@.len() - i,
    {
        if flags[i] {
            return true;
        }
        i = i + 1;
    }
    false
}

impl Game {
    /// The score never exceeds the best score.
    pub open spec fn wf(&self) -> bool {
        self@.score <= self@.best_score
    }

    /// A session that opens on the main menu, with the given best score.
    pub fn new(best_score: usize) -> (game: Game)
        ensures
            game@ == (GameView { mode: GameMode::MainMenu, score: 0, best_score: best_score as nat }),
            game.wf(),
    {
        Game { mode: GameMode::MainMenu, score: 0, best_score }
    }

    /// The phase of the session.
    pub fn mode(&self) -> (mode: GameMode)
        ensures
            mode == self@.mode,
    {
        self.mode
    }

    /// The score of the current run.
    pub fn score(&self) -> (score: usize)
        ensures
            score == self@.score,
    {
        self.score
    }

    /// The best score reached.
    pub fn best_score(&self) -> (best: usize)
        ensures
            best == self@.best_score,
    {
        self.best_score
    }

    /// The best score in the decimal form in which it is recorded.
    pub fn best_score_record(&self) -> (text: Vec<u8>)
        ensures
            text@ == decimal(self@.best_score),
    {
        encode_decimal(self.best_score)
    }

    /// Begins a fresh run: playing, with no points, the best score kept.
    pub fn reset(&mut self)
        requires
            old(self).wf(),
        ensures
            final(self)@ == fresh_run(old(self)@),
            final(self).wf(),
    {
        self.score = 0;
        self.mode = GameMode::Playing;
    }

    /// A frame in the main menu: "Play" begins a fresh run, "Quit" asks the
    /// program to end.
    pub fn menu_frame(&mut self, play: bool, quit: bool) -> (action: MenuAction)
        requires
            old(self).wf(),
        ensures
            action == menu_choice(play, quit),
            final(self)@ == if play {
                fresh_run(old(self)@)
            } else {
                old(self)@
            },
            final(self).wf(),
    {
        if play {
            self.reset();
        }
        menu_action(play, quit)
    }

    /// A paused frame: Space (`resume`) returns to play, Escape (`leave`)
    /// returns to the menu; Escape wins when both are pressed.
    pub fn paused_frame(&mut self, resume: bool, leave: bool)
        requires
            old(self).wf(),
        ensures
            final(self)@ == (GameView {
                mode: pause_choice(old(self)@.mode, resume, leave),
                ..old(self)@
            }),
            final(self).wf(),
    {
        if resume {
            self.mode = GameMode::Playing;
        }
        if leave {
            self.mode = GameMode::MainMenu;
        }
    }

    /// A frame after the game is over: Escape returns to the menu.
    pub fn game_over_frame(&mut self, leave: bool)
        requires
            old(self).wf(),
        ensures
            final(self)@ == (GameView {
                mode: if leave {
                    GameMode::MainMenu
                } else {
                    old(self)@.mode
                },
                ..old(self)@
            }),
            final(self).wf(),
    {
        if leave {
            self.mode = GameMode::MainMenu;
        }
    }

    /// The start of a frame of play: a pressed fire key fires, Escape
    /// pauses, and a roll decides whether an enemy enters.
    pub fn begin_play_frame(&mut self, fire: bool, pause: bool) -> (start: FrameStart)
        requires
            old(self).wf(),
        ensures
            start.fire == fire,
            0 <= start.roll < SPAWN_ROLL_RANGE,
            start.spawn == spawn_rule(start.roll as int),
            final(self)@ == (GameView {
                mode: if pause {
                    GameMode::Paused
                } else {
                    old(self)@.mode
                },
                ..old(self)@
            }),
            final(self).wf(),
    {
        if pause {
            self.mode = GameMode::Paused;
        }
        let roll = random_range(0, SPAWN_ROLL_RANGE);
        let spawn = should_spawn(roll);
        FrameStart { fire, roll, spawn }
    }

    /// The end of a frame of play, once everything has moved.
    /// `contacts[b][e]`: bullet `b` overlaps enemy `e`; `values[e]`: the
    /// points enemy `e` is worth; `ship_contacts[e]`: enemy `e` overlaps the
    /// ship; `bullets_in_view[b]` and `enemies_in_view[e]`: the body is still
    /// on screen. Each strike adds the value of its enemy to the score; a score
    /// above the best becomes the best and is recorded; an enemy on the ship
    /// ends the game; a body stays when it was not struck and is in view.
    /// `Err` when the score would no longer fit in a machine
    /// word, with nothing changed.
    pub fn end_play_frame(
        &mut self,
        contacts: &Vec<Vec<bool>>,
        values: &Vec<usize>,
        ship_contacts: &Vec<bool>,
        bullets_in_view: &Vec<bool>,
        enemies_in_view: &Vec<bool>,
    ) -> (report: Result<FrameReport, ScoreOverflow>)
        requires
            old(self).wf(),
            well_shaped(contacts@, values@.len() as int),
            bullets_in_view@.len() == contacts@.len(),
            enemies_in_view@.len() == values@.len(),
        ensures
            final(self).wf(),
            ({
                let events = strikes(contacts@, contacts@.len() as int, values@.len() as int);
                let gained = old(self)@.score + points(events, values@);
                match report {
                    Ok(rep) => {
                        &&& rep.bullets_hit@.len() == contacts@.len()
                        &&& forall|b: int|
                            0 <= b < contacts@.len() ==> (#[trigger] rep.bullets_hit@[b]
                                <==> bullet_strikes(contacts@, b, values@.len() as int))
                        &&& rep.enemies_hit@.len() == values@.len()
                        &&& forall|e: int|
                            0 <= e < values@.len() ==> (#[trigger] rep.enemies_hit@[e]
                                <==> enemy_struck(contacts@, contacts@.len() as int, e))
                        &&& rep.explosions@ == events
                        &&& rep.bullets_kept@.len() == contacts@.len()
                        &&& forall|b: int|
                            0 <= b < contacts@.len() ==> (#[trigger] rep.bullets_kept@[b]
                                <==> (!bullet_strikes(contacts@, b, values@.len() as int)
                                && bullets_in_view@[b]))
                        &&& rep.enemies_kept@.len() == values@.len()
                        &&& forall|e: int|
                            0 <= e < values@.len() ==> (#[trigger] rep.enemies_kept@[e]
                                <==> (!enemy_struck(contacts@, contacts@.len() as int, e)
                                && enemies_in_view@[e]))
                        &&& final(self)@.score == gained
                        &&& final(self)@.best_score == larger(old(self)@.best_score, gained)
                        &&& match rep.record {
                            Some(text) => gained > old(self)@.best_score && text@ == decimal(
                                gained,
                            ),
                            None => gained <= old(self)@.best_score,
                        }
                        &&& final(self)@.mode == if any_set(ship_contacts@) {
                            GameMode::GameOver
                        } else {
                            old(self)@.mode
                        }
                    },
                    Err(_) => {
                        &&& gained > usize::MAX
                        &&& final(self)@ == old(self)@
                    },
                }
            }),
    {
        let found = find_strikes(contacts, values.len());
        proof {
            lemma_strikes_name_enemies(contacts@, values@.len() as int);
        }
        let score = match add_points(self.score, &found.explosions, values) {
            Ok(s) => s,
            Err(e) => {
                return Err(e);
            },
        };
        self.score = score;
        let mut record: Option<Vec<u8>> = None;
        if self.score > self.best_score {
            self.best_score = self.score;
            record = Some(encode_decimal(self.best_score));
        }
        if any_true(ship_contacts) {
            self.mode = GameMode::GameOver;
        }
        let bullets_kept = survivors(&found.bullets_hit, bullets_in_view);
        let enemies_kept = survivors(&found.enemies_hit, enemies_in_view);
        Ok(
            FrameReport {
                bullets_kept,
                enemies_kept,
                bullets_hit: found.bullets_hit,
                enemies_hit: found.enemies_hit,
                explosions: found.explosions,
                record,
            },
        )
    }
}

} // verus!
