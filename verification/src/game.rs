//! The game: three screens, the rules of one tick, and the high score.
//!
//! The loop that owns the window calls [`Game::press_key`] for each key
//! press and [`Game::tick`] once per frame, and plays the cues that a tick
//! hands back.

use vstd::prelude::*;
use crate::ball::Ball;
use crate::color::{next_index, previous_index};
use crate::field::{
    all_balls_wf, all_boxes_wf, balls_hitting, balls_missing, boxes_left, boxes_reached,
    collect_ball_hits, collect_health_boxes, lemma_balls_are_split, lemma_boxes_are_split,
    moved_balls, update_balls,
};
use crate::geometry::{saturate_u64, Vector2};
use crate::health_box::{HealthBox, HEALTH_BOX_HEAL_AMOUNT, HEALTH_BOX_SPAWN_INTERVAL};
use crate::player::{Controls, Player, INITIAL_HP};
use crate::score::{decode_score, encode_score, parse_score, score_text};
use crate::spawner::{
    all_spawn_balls, is_spawn_ball, is_spawn_box_position, random_ball, random_balls,
    random_box_position, roll_ball_spawn, INITIAL_BALL_COUNT,
};

verus! {

/// Where the player starts: the corner of its bounding box at the middle of
/// the field.
pub const PLAYER_START_X: i64 = 400_000_000_000;

pub const PLAYER_START_Y: i64 = 300_000_000_000;

/// The screen that is showing.
#[derive(Clone, Copy, Debug, PartialEq, Eq, Structural)]
pub enum GameState {
    Menu,
    Playing,
    GameOver,
}

/// The key presses the game reacts to.
#[derive(Clone, Copy, Debug, PartialEq, Eq, Structural)]
pub enum Key {
    Space,
    Up,
    Down,
    Other,
}

/// The background track that belongs to a screen.
#[derive(Clone, Copy, Debug, PartialEq, Eq, Structural)]
pub enum Track {
    Menu,
    Game,
}

/// What a tick asks the caller to do: the sounds to start, and whether the
/// high score changed and is to be stored.
#[derive(Clone, Copy, Debug, PartialEq, Eq, Structural)]
pub struct Cues {
    pub bonus: bool,
    pub hit: bool,
    pub heal: bool,
    pub game_over: bool,
    pub save_high_score: bool,
}

/// The random choices of one tick: where a health box lands if one is due,
/// and the ball that appears, if any.
#[derive(Clone, Copy, Debug)]
pub struct Draws {
    pub box_position: Vector2,
    pub ball: Option<Ball>,
}

/// The game. Times are in microseconds; `health_box_clock` is the time since
/// the last health box appeared.
pub struct Game {
    pub state: GameState,
    pub high_score: u64,
    pub player: Player,
    pub balls: Vec<Ball>,
    pub health_boxes: Vec<HealthBox>,
    pub health_box_clock: u64,
}

/// The game as a mathematical value.
pub struct GameModel {
    pub state: GameState,
    pub high_score: u64,
    pub player: Player,
    pub balls: Seq<Ball>,
    pub health_boxes: Seq<HealthBox>,
    pub health_box_clock: u64,
}

/// No cue at all.
pub open spec fn no_cues() -> Cues {
    Cues { bonus: false, hit: false, heal: false, game_over: false, save_high_score: false }
}

impl GameState {
    /// The background track of this screen: the game track while playing,
    /// the menu track otherwise.
    pub open spec fn track(self) -> Track {
        if self == GameState::Playing {
            Track::Game
        } else {
            Track::Menu
        }
    }
}

impl Draws {
    /// The values are storable.
    pub open spec fn wf(self) -> bool {
        &&& self.box_position.in_range()
        &&& self.ball matches Some(ball) ==> ball.wf()
    }

    /// The values are ones the spawner may produce.
    pub open spec fn is_spawn(self) -> bool {
        &&& is_spawn_box_position(self.box_position)
        &&& self.ball matches Some(ball) ==> is_spawn_ball(ball)
    }
}

impl GameModel {
    /// The player and every ball and box are storable.
    pub open spec fn wf(self) -> bool {
        &&& self.player.wf()
        &&& all_balls_wf(self.balls)
        &&& all_boxes_wf(self.health_boxes)
    }

    /// The game right after start-up: the menu, a fresh player in the middle
    /// of the field, the given balls, no health box.
    pub open spec fn initial(high_score: u64, balls: Seq<Ball>) -> GameModel {
        GameModel {
            state: GameState::Menu,
            high_score,
            player: Player {
                position: Vector2 { x: PLAYER_START_X, y: PLAYER_START_Y },
                hp: INITIAL_HP,
                survival_time: 0,
                time_since_last_hit: 0,
                current_color_index: 0,
                hits: 0,
                bonuses: 0,
            },
            balls,
            health_boxes: Seq::empty(),
            health_box_clock: 0,
        }
    }

    /// The game at the start of a round played with `balls`: hit points,
    /// survival time, hits and bonuses start over; position, colour,
    /// countdown, health boxes and high score carry on.
    pub open spec fn started(self, balls: Seq<Ball>) -> GameModel {
        GameModel {
            state: GameState::Playing,
            player: Player {
                hp: INITIAL_HP,
                survival_time: 0,
                hits: 0,
                bonuses: 0,
                ..self.player
            },
            balls,
            ..self
        }
    }

    /// The game after a key press. Space starts a round from the menu, with
    /// `balls` on the field, and leaves the game-over screen for the menu.
    /// Up and Down pick the previous and the next colour in the menu. Every
    /// other press changes nothing.
    pub open spec fn after_key(self, key: Key, balls: Seq<Ball>) -> GameModel {
        match (self.state, key) {
            (GameState::Menu, Key::Space) => self.started(balls),
            (GameState::GameOver, Key::Space) => GameModel { state: GameState::Menu, ..self },
            (GameState::Menu, Key::Up) => GameModel {
                player: Player {
                    current_color_index: previous_index(
                        self.player.current_color_index as int,
                    ) as usize,
                    ..self.player
                },
                ..self
            },
            (GameState::Menu, Key::Down) => GameModel {
                player: Player {
                    current_color_index: next_index(self.player.current_color_index as int) as usize,
                    ..self.player
                },
                ..self
            },
            _ => self,
        }
    }

    /// The health-box clock after `dt` more microseconds.
    pub open spec fn clock_after(self, dt: u64) -> u64 {
        saturate_u64(self.health_box_clock + dt)
    }

    /// Whether a health box appears in a tick of `dt` microseconds.
    pub open spec fn health_box_due(self, dt: u64) -> bool {
        self.clock_after(dt) >= HEALTH_BOX_SPAWN_INTERVAL
    }

    /// The player after moving and regenerating.
    pub open spec fn player_moved(self, dt: u64, controls: Controls) -> Player {
        self.player.updated(dt, controls)
    }

    /// The player after the balls of this tick have hit it.
    pub open spec fn player_hit(self, dt: u64, controls: Controls) -> Player {
        let moved = self.player_moved(dt, controls);
        moved.after_hits(balls_hitting(moved, moved_balls(self.balls, dt)).len())
    }

    /// The health boxes on the field once this tick's box, if due, is there.
    pub open spec fn boxes_offered(self, dt: u64, draws: Draws) -> Seq<HealthBox> {
        if self.health_box_due(dt) {
            self.health_boxes.push(HealthBox { position: draws.box_position })
        } else {
            self.health_boxes
        }
    }

    /// The player at the end of a playing tick.
    pub open spec fn player_healed(self, dt: u64, controls: Controls, draws: Draws) -> Player {
        let hit = self.player_hit(dt, controls);
        hit.after_heals(boxes_reached(hit, self.boxes_offered(dt, draws)).len())
    }

    /// The balls at the end of a playing tick: those that moved without
    /// touching the player, then this tick's new ball.
    pub open spec fn balls_after(self, dt: u64, controls: Controls, draws: Draws) -> Seq<Ball> {
        let kept = balls_missing(self.player_moved(dt, controls), moved_balls(self.balls, dt));
        match draws.ball {
            Some(ball) => kept.push(ball),
            None => kept,
        }
    }

    /// Whether a playing tick ends the round: the player is out of hit
    /// points once everything has happened.
    pub open spec fn round_ends(self, dt: u64, controls: Controls, draws: Draws) -> bool {
        self.player_healed(dt, controls, draws).hp <= 0
    }

    /// Whether a playing tick ends the round with a new record.
    pub open spec fn new_record(self, dt: u64, controls: Controls, draws: Draws) -> bool {
        &&& self.round_ends(dt, controls, draws)
        &&& self.player_healed(dt, controls, draws).survival_time > self.high_score
    }

    /// The game after a tick of `dt` microseconds. Outside a round only the
    /// health-box clock runs. In a round the player moves and regenerates,
    /// the balls move, balls that touch the player hit it and vanish, a
    /// health box appears if one is due, boxes the player reaches heal it and
    /// vanish, a new ball may appear, and the round ends if the player is
    /// then out of hit points, raising the high score to the survival time
    /// if that is longer.
    pub open spec fn after_tick(self, dt: u64, controls: Controls, draws: Draws) -> GameModel {
        if self.state == GameState::Playing {
            let player = self.player_healed(dt, controls, draws);
            GameModel {
                state: if self.round_ends(dt, controls, draws) {
                    GameState::GameOver
                } else {
                    GameState::Playing
                },
                high_score: if self.new_record(dt, controls, draws) {
                    player.survival_time
                } else {
                    self.high_score
                },
                player,
                balls: self.balls_after(dt, controls, draws),
                health_boxes: boxes_left(
                    self.player_hit(dt, controls),
                    self.boxes_offered(dt, draws),
                ),
                health_box_clock: if self.health_box_due(dt) {
                    0
                } else {
                    self.clock_after(dt)
                },
            }
        } else {
            GameModel { health_box_clock: self.clock_after(dt), ..self }
        }
    }

    /// The cues of a tick of `dt` microseconds.
    pub open spec fn tick_cues(self, dt: u64, controls: Controls, draws: Draws) -> Cues {
        if self.state == GameState::Playing {
            let moved = self.player_moved(dt, controls);
            let hit = self.player_hit(dt, controls);
            Cues {
                bonus: self.player.regen_due(dt),
                hit: balls_hitting(moved, moved_balls(self.balls, dt)).len() > 0,
                heal: boxes_reached(hit, self.boxes_offered(dt, draws)).len() > 0,
                game_over: self.round_ends(dt, controls, draws),
                save_high_score: self.new_record(dt, controls, draws),
            }
        } else {
            no_cues()
        }
    }
}

impl View for Game {
    type V = GameModel;

    open spec fn view(&self) -> GameModel {
        GameModel {
            state: self.state,
            high_score: self.high_score,
            player: self.player,
            balls: self.balls@,
            health_boxes: self.health_boxes@,
            health_box_clock: self.health_box_clock,
        }
    }
}

impl Draws {
    /// Draws that leave the field as it is: no new ball, and a box position
    /// at the origin for the case that a box is due.
    pub fn none() -> (draws: Draws)
        ensures
            draws == (Draws { box_position: Vector2 { x: 0, y: 0 }, ball: None }),
            draws.wf(),
            draws.is_spawn(),
    {
        Draws { box_position: Vector2 { x: 0, y: 0 }, ball: None }
    }
}

impl Game {
    /// The player and every ball and box are storable.
    pub open spec fn wf(&self) -> bool {
        self@.wf()
    }

    /// A game at start-up with the given high score and the given balls.
    pub fn with_balls(high_score: u64, balls: Vec<Ball>) -> (game: Game)
        requires
            all_balls_wf(balls@),
        ensures
            game@ == GameModel::initial(high_score, balls@),
            game.wf(),
    {
        Game {
            state: GameState::Menu,
            high_score,
            player: Player::new(Vector2 { x: PLAYER_START_X, y: PLAYER_START_Y }),
            balls,
            health_boxes: Vec::new(),
            health_box_clock: 0,
        }
    }

    /// A game at start-up with the given high score and the first balls
    /// drawn at random.
    pub fn new(high_score: u64) -> (game: Game)
        ensures
            game@ == GameModel::initial(high_score, game.balls@),
            game.balls@.len() == INITIAL_BALL_COUNT,
            all_spawn_balls(game.balls@),
            game.wf(),
    {
        let balls = random_balls(INITIAL_BALL_COUNT);
        Game::with_balls(high_score, balls)
    }

    /// Tells whether the player and every ball and box are storable.
    pub fn is_valid(&self) -> (ok: bool)
        ensures
            ok == self.wf(),
    {
        if !self.player.is_valid() {
            return false;
        }
        let mut i: usize = 0;
        while i < self.balls.len()
            invariant
                i <= self.balls@.len(),
                forall|j: int| 0 <= j < i ==> (#[trigger] self.balls@[j]).wf(),
            decreases self.balls@.len() - i,
        {
            if !self.balls[i].is_valid() {
                return false;
            }
            i += 1;
        }
        let mut k: usize = 0;
        while k < self.health_boxes.len()
            invariant
                k <= self.health_boxes@.len(),
                all_balls_wf(self.balls@),
                forall|j: int| 0 <= j < k ==> (#[trigger] self.health_boxes@[j]).wf(),
            decreases self.health_boxes@.len() - k,
        {
            if !self.health_boxes[k].is_valid() {
                return false;
            }
            k += 1;
        }
        true
    }

    /// Takes over a high score from its stored form. A text that is not a
    /// score leaves the high score as it is.
    pub fn load_high_score(&mut self, contents: &[u8])
        ensures
            final(self)@ == (GameModel {
                high_score: match parse_score(contents@) {
                    Some(score) => score,
                    None => old(self).high_score,
                },
                ..old(self)@
            }),
            old(self).wf() ==> final(self).wf(),
    {
        match decode_score(contents) {
            Some(score) => {
                self.high_score = score;
            },
            None => {},
        }
    }

    /// The high score in its stored form.
    pub fn save_high_score(&self) -> (text: Vec<u8>)
        ensures
            text@ == score_text(self.high_score),
            parse_score(text@) == Some(self.high_score),
    {
        encode_score(self.high_score)
    }

    /// The background track that belongs to the current screen.
    pub fn music(&self) -> (track: Track)
        ensures
            track == self.state.track(),
    {
        match self.state {
            GameState::Playing => Track::Game,
            _ => Track::Menu,
        }
    }

    /// Puts `ball` on the field, after the balls that are there.
    pub fn add_ball(&mut self, ball: Ball)
        requires
            old(self).wf(),
            ball.wf(),
        ensures
            final(self)@ == (GameModel { balls: old(self)@.balls.push(ball), ..old(self)@ }),
            final(self).wf(),
    {
        self.balls.push(ball);
    }

    /// Puts a ball drawn at random on the field, after the balls that are
    /// there.
    pub fn spawn_ball(&mut self)
        requires
            old(self).wf(),
        ensures
            final(self).balls@.len() == old(self).balls@.len() + 1,
            is_spawn_ball(final(self).balls@.last()),
            final(self)@ == (GameModel {
                balls: old(self)@.balls.push(final(self).balls@.last()),
                ..old(self)@
            }),
            final(self).wf(),
    {
        let ball = random_ball();
        self.add_ball(ball);
    }

    /// Starts a round with `balls` on the field.
    pub fn prepare_new_game_with(&mut self, balls: Vec<Ball>)
        requires
            old(self).wf(),
            all_balls_wf(balls@),
        ensures
            final(self)@ == old(self)@.started(balls@),
            final(self).wf(),
    {
        self.state = GameState::Playing;
        self.player.hp = INITIAL_HP;
        self.player.survival_time = 0;
        self.player.hits = 0;
        self.player.bonuses = 0;
        self.balls = balls;
    }

    /// Starts a round: the player's hit points, survival time, hits and
    /// bonuses start over, and the field holds `INITIAL_BALL_COUNT` balls
    /// drawn at random.
    pub fn prepare_new_game(&mut self)
        requires
            old(self).wf(),
        ensures
            final(self)@ == old(self)@.started(final(self).balls@),
            final(self).balls@.len() == INITIAL_BALL_COUNT,
            all_spawn_balls(final(self).balls@),
            final(self).state == GameState::Playing,
            final(self).player.hp == INITIAL_HP,
            final(self).player.survival_time == 0,
            final(self).player.hits == 0,
            final(self).player.bonuses == 0,
            final(self).wf(),
    {
        let balls = random_balls(INITIAL_BALL_COUNT);
        self.prepare_new_game_with(balls);
    }

    /// Reacts to a key press and tells whether a round started, in which
    /// case the caller restarts its frame clock. The balls of a new round
    /// are drawn at random.
    pub fn press_key(&mut self, key: Key) -> (started: bool)
        requires
            old(self).wf(),
        ensures
            final(self)@ == old(self)@.after_key(key, final(self).balls@),
            started == (old(self).state == GameState::Menu && key == Key::Space),
            started ==> final(self).balls@.len() == INITIAL_BALL_COUNT && all_spawn_balls(
                final(self).balls@,
            ),
            final(self).wf(),
    {
        match (self.state, key) {
            (GameState::Menu, Key::Space) => {
                self.prepare_new_game();
                true
            },
            (GameState::GameOver, Key::Space) => {
                self.state = GameState::Menu;
                false
            },
            (GameState::Menu, Key::Up) => {
                self.player.select_previous_color();
                false
            },
            (GameState::Menu, Key::Down) => {
                self.player.select_next_color();
                false
            },
            _ => false,
        }
    }

    /// Tells whether a health box appears in a tick of `dt` microseconds.
    pub fn is_health_box_due(&self, dt: u64) -> (due: bool)
        ensures
            due == self@.health_box_due(dt),
    {
        self.health_box_clock.saturating_add(dt) >= HEALTH_BOX_SPAWN_INTERVAL
    }

    /// Runs one tick of `dt` microseconds with `controls` held and the
    /// random choices `draws`, and returns its cues.
    pub fn advance(&mut self, dt: u64, controls: Controls, draws: Draws) -> (cues: Cues)
        requires
            old(self).wf(),
            draws.wf(),
        ensures
            final(self)@ == old(self)@.after_tick(dt, controls, draws),
            cues == old(self)@.tick_cues(dt, controls, draws),
            final(self).wf(),
    {
        match self.state {
            GameState::Playing => {
                let bonus = self.player.update(dt, controls);
                update_balls(&mut self.balls, dt);
                let hit = collect_ball_hits(&mut self.player, &mut self.balls);
                let clock = self.health_box_clock.saturating_add(dt);
                if clock >= HEALTH_BOX_SPAWN_INTERVAL {
                    self.health_boxes.push(HealthBox::new(draws.box_position));
                    self.health_box_clock = 0;
                } else {
                    self.health_box_clock = clock;
                }
                let heal = collect_health_boxes(&mut self.player, &mut self.health_boxes);
                match draws.ball {
                    Some(ball) => {
                        self.balls.push(ball);
                    },
                    None => {},
                }
                let game_over = self.player.hp <= 0;
                let mut save_high_score = false;
                if game_over {
                    self.state = GameState::GameOver;
                    if self.player.survival_time > self.high_score {
                        self.high_score = self.player.survival_time;
                        save_high_score = true;
                    }
                }
                Cues { bonus, hit, heal, game_over, save_high_score }
            },
            _ => {
                self.health_box_clock = self.health_box_clock.saturating_add(dt);
                Cues {
                    bonus: false,
                    hit: false,
                    heal: false,
                    game_over: false,
                    save_high_score: false,
                }
            },
        }
    }

    /// Runs one tick of `dt` microseconds with `controls` held, making the
    /// random choices itself: in a round it draws the position of a health
    /// box if one is due, and with one chance in a hundred a new ball.
    pub fn tick(&mut self, dt: u64, controls: Controls) -> (cues: Cues)
        requires
            old(self).wf(),
        ensures
            exists|draws: Draws|
                {
                    &&& draws.is_spawn()
                    &&& final(self)@ == #[trigger] old(self)@.after_tick(dt, controls, draws)
                    &&& cues == old(self)@.tick_cues(dt, controls, draws)
                },
            final(self).wf(),
    {
        let mut draws = Draws::none();
        if self.state == GameState::Playing {
            if self.is_health_box_due(dt) {
                draws.box_position = random_box_position();
            }
            if roll_ball_spawn() {
                draws.ball = Some(random_ball());
            }
        }
        self.advance(dt, controls, draws)
    }
}

/// Starting a round from the menu puts the game in play with full hit
/// points, no survival time, no hits and no bonuses, and with exactly the
/// balls handed in; the colour, the position and the high score are kept.
pub proof fn lemma_new_game_resets(game: GameModel, balls: Seq<Ball>)
    requires
        game.state == GameState::Menu,
    ensures
        game.after_key(Key::Space, balls) == game.started(balls),
        game.started(balls).state == GameState::Playing,
        game.started(balls).player.hp == INITIAL_HP,
        game.started(balls).player.survival_time == 0,
        game.started(balls).player.hits == 0,
        game.started(balls).player.bonuses == 0,
        game.started(balls).balls == balls,
        game.started(balls).player.current_color_index == game.player.current_color_index,
        game.started(balls).player.position == game.player.position,
        game.started(balls).high_score == game.high_score,
{
}

/// A round ends in the very tick in which the player is left without hit
/// points, whatever else that tick did, and in no other.
pub proof fn lemma_game_over_on_same_tick(
    game: GameModel,
    dt: u64,
    controls: Controls,
    draws: Draws,
)
    requires
        game.state == GameState::Playing,
    ensures
        game.after_tick(dt, controls, draws).player.hp <= 0 <==> game.after_tick(
            dt,
            controls,
            draws,
        ).state == GameState::GameOver,
        game.after_tick(dt, controls, draws).player.hp > 0 <==> game.after_tick(
            dt,
            controls,
            draws,
        ).state == GameState::Playing,
        game.tick_cues(dt, controls, draws).game_over <==> game.after_tick(
            dt,
            controls,
            draws,
        ).state == GameState::GameOver,
{
}

/// The high score is the longest survival time seen at the end of a round.
/// A tick that ends a round leaves the larger of the old high score and the
/// survival time, and asks for it to be stored exactly when it grew; no
/// other tick and no key press changes it.
pub proof fn lemma_high_score_is_record(
    game: GameModel,
    dt: u64,
    controls: Controls,
    draws: Draws,
    key: Key,
    balls: Seq<Ball>,
)
    ensures
        game.after_key(key, balls).high_score == game.high_score,
        game.after_tick(dt, controls, draws).high_score >= game.high_score,
        game.tick_cues(dt, controls, draws).save_high_score <==> game.after_tick(
            dt,
            controls,
            draws,
        ).high_score > game.high_score,
        game.tick_cues(dt, controls, draws).save_high_score ==> game.after_tick(
            dt,
            controls,
            draws,
        ).high_score == game.after_tick(dt, controls, draws).player.survival_time,
        game.tick_cues(dt, controls, draws).game_over ==> game.after_tick(
            dt,
            controls,
            draws,
        ).high_score >= game.after_tick(dt, controls, draws).player.survival_time,
        !game.tick_cues(dt, controls, draws).game_over ==> game.after_tick(
            dt,
            controls,
            draws,
        ).high_score == game.high_score,
{
}

/// The screens follow one another in a ring. A key press changes the screen
/// only from the menu to the round and from the game-over screen to the
/// menu, both on Space; a tick changes it only from the round to the
/// game-over screen. The colour changes only in the menu.
pub proof fn lemma_screen_changes(
    game: GameModel,
    dt: u64,
    controls: Controls,
    draws: Draws,
    key: Key,
    balls: Seq<Ball>,
)
    ensures
        game.after_key(key, balls).state != game.state ==> key == Key::Space && ((game.state
            == GameState::Menu && game.after_key(key, balls).state == GameState::Playing) || (
        game.state == GameState::GameOver && game.after_key(key, balls).state
            == GameState::Menu)),
        game.state == GameState::Playing ==> game.after_key(key, balls) == game,
        game.after_tick(dt, controls, draws).state != game.state ==> game.state
            == GameState::Playing && game.after_tick(dt, controls, draws).state
            == GameState::GameOver,
        game.state != GameState::Playing ==> game.after_tick(dt, controls, draws).player
            == game.player && game.after_tick(dt, controls, draws).balls == game.balls
            && game.after_tick(dt, controls, draws).health_boxes == game.health_boxes,
        game.state != GameState::Menu ==> game.after_key(key, balls).player.current_color_index
            == game.player.current_color_index,
        game.after_tick(dt, controls, draws).player.current_color_index
            == game.player.current_color_index,
{
}

/// A storable game stays storable through every key press and every tick,
/// and its colour index stays inside the palette.
pub proof fn lemma_wf_is_kept(
    game: GameModel,
    dt: u64,
    controls: Controls,
    draws: Draws,
    key: Key,
    balls: Seq<Ball>,
)
    requires
        game.wf(),
        draws.wf(),
        all_balls_wf(balls),
    ensures
        game.after_key(key, balls).wf(),
        game.after_tick(dt, controls, draws).player.wf(),
        game.after_tick(dt, controls, draws).player.current_color_index
            < crate::color::PALETTE_SIZE,
        game.after_key(key, balls).player.current_color_index < crate::color::PALETTE_SIZE,
{
}

/// The books of a tick in a round balance. Balls leave the field only by
/// hitting the player and boxes only by being picked up; at most one ball
/// and one box arrive. As long as no counter reaches the end of its range,
/// the hits grow by the number of balls that left, and the hit points
/// change by one for a regeneration, minus one for each ball that left,
/// plus the heal amount for each box that left.
pub proof fn lemma_tick_accounts(game: GameModel, dt: u64, controls: Controls, draws: Draws)
    requires
        game.state == GameState::Playing,
    ensures
        ({
            let after = game.after_tick(dt, controls, draws);
            let arrived: int = if draws.ball is Some {
                1
            } else {
                0
            };
            let dropped: int = if game.health_box_due(dt) {
                1
            } else {
                0
            };
            let regenerated: int = if game.player.regen_due(dt) {
                1
            } else {
                0
            };
            let hit = game.balls.len() + arrived - after.balls.len();
            let picked = game.health_boxes.len() + dropped - after.health_boxes.len();
            &&& 0 <= hit <= game.balls.len()
            &&& 0 <= picked <= game.health_boxes.len() + dropped
            &&& game.tick_cues(dt, controls, draws).hit <==> hit > 0
            &&& game.tick_cues(dt, controls, draws).heal <==> picked > 0
            &&& game.player.hits + hit <= u64::MAX ==> after.player.hits == game.player.hits
                + hit
            &&& game.player.bonuses + regenerated <= u64::MAX ==> after.player.bonuses
                == game.player.bonuses + regenerated
            &&& i64::MIN <= game.player.hp - hit && game.player.hp + regenerated
                + HEALTH_BOX_HEAL_AMOUNT * picked <= i64::MAX ==> after.player.hp
                == game.player.hp + regenerated - hit + HEALTH_BOX_HEAL_AMOUNT * picked
        }),
{
    let moved = game.player_moved(dt, controls);
    let struck = game.player_hit(dt, controls);
    lemma_balls_are_split(moved, moved_balls(game.balls, dt));
    lemma_boxes_are_split(struck, game.boxes_offered(dt, draws));
}

} // verus!
