//! The simulation engine: one call of [`Engine::step`] is one tick.
//!
//! The engine is the only writer of the world. A tick takes a single sample
//! of the input mailbox, the time of the tick and a spawn column, and turns
//! the engine's state into the next one. What a tick does is given by
//! [`step_spec`]; the executable functions are proved equal to it.

use vstd::prelude::*;
use crate::ambient::{draw_between, now_millis};
use crate::input::InputChannel;
use crate::game::{
    in_field, initial_world, Enemy, GameState, InputCommand, Player, World, FIELD_LEFT, FIELD_RIGHT,
    MIN_ENEMIES, NEAR_ROW, SPAWN_HIGH, SPAWN_LOW, SPAWN_ROW,
};

verus! {

/// The score grows by one when this many milliseconds have passed.
pub const SCORE_PERIOD_MS: i64 = 1000;

/// The enemies move when this many milliseconds have passed.
pub const ENEMY_PERIOD_MS: i64 = 500;

/// The time one tick may take, in microseconds: a sixtieth of a second,
/// cut to whole milliseconds.
pub const TICK_BUDGET_MICROS: u64 = 16_000;

/// What the tick loop does once the step is taken.
#[derive(Debug, Clone, Copy, PartialEq, Eq, Structural)]
pub enum TickAction {
    /// Broadcast the world and go on with the next tick.
    Broadcast,
    /// Broadcast the world one last time and stop the loop for good.
    Shutdown,
}

/// The world together with the two timers of the tick loop, both in
/// milliseconds since the Unix epoch.
#[derive(Debug, Clone, PartialEq, Eq)]
pub struct Engine {
    pub state: GameState,
    pub score_timer: i64,
    pub enemy_timer: i64,
}

/// The mathematical content of an [`Engine`].
pub struct EngineModel {
    pub world: World,
    pub score_timer: i64,
    pub enemy_timer: i64,
}

impl View for Engine {
    type V = EngineModel;

    open spec fn view(&self) -> EngineModel {
        EngineModel {
            world: self.state@,
            score_timer: self.score_timer,
            enemy_timer: self.enemy_timer,
        }
    }
}

/// The status line of the last broadcast.
pub open spec fn shutdown_message() -> Seq<char> {
    "Game shutting down..."@
}

/// The status line of a world in which the player was hit.
pub open spec fn game_over_message() -> Seq<char> {
    "Game Over! Press 'r' to restart or 'q' to quit"@
}

/// At least `period` milliseconds lie between `since` and `now`.
pub open spec fn period_elapsed(now: i64, since: i64, period: i64) -> bool {
    now - since >= period
}

/// An enemy stays in the field after a move when it stands above the near row.
pub open spec fn stays() -> spec_fn(Enemy) -> bool {
    |e: Enemy| e.y > NEAR_ROW
}

/// One move of an enemy: a row towards the player's side.
pub open spec fn descend() -> spec_fn(Enemy) -> Enemy {
    |e: Enemy| Enemy { x: e.x, y: (e.y - 1) as usize }
}

/// Every enemy moves one row towards the player's side; those that would
/// leave the field are dropped. The others keep their order.
pub open spec fn advance_enemies(enemies: Seq<Enemy>) -> Seq<Enemy> {
    enemies.filter(stays()).map_values(descend())
}

/// The spawn column for a raw draw: the nearest column of the spawn range.
pub open spec fn clamp_lane(raw: usize) -> usize {
    if raw < SPAWN_LOW {
        SPAWN_LOW
    } else if raw >= SPAWN_HIGH {
        (SPAWN_HIGH - 1) as usize
    } else {
        raw
    }
}

/// The field with `fresh` new enemies in front, all in column `lane` of the
/// spawn row.
pub open spec fn with_spawned(enemies: Seq<Enemy>, lane: usize, fresh: nat) -> Seq<Enemy> {
    Seq::new(fresh, |i: int| Enemy { x: lane, y: SPAWN_ROW }) + enemies
}

/// New enemies, all in column `lane` of the spawn row, are put in front
/// until the field holds [`MIN_ENEMIES`].
pub open spec fn refill(enemies: Seq<Enemy>, lane: usize) -> Seq<Enemy> {
    if enemies.len() < MIN_ENEMIES {
        with_spawned(enemies, lane, (MIN_ENEMIES - enemies.len()) as nat)
    } else {
        enemies
    }
}

/// The enemy phase of a tick: move, drop, refill.
pub open spec fn enemy_phase(enemies: Seq<Enemy>, raw_lane: usize) -> Seq<Enemy> {
    refill(advance_enemies(enemies), clamp_lane(raw_lane))
}

/// The player after the held command: one column left or right, never past
/// the edge of the field. Any other sample leaves the player alone.
pub open spec fn steer(p: Player, cmd: Option<InputCommand>) -> Player {
    match cmd {
        Some(InputCommand::MoveLeft) => if p.x > FIELD_LEFT {
            Player { x: (p.x - 1) as usize, ..p }
        } else {
            p
        },
        Some(InputCommand::MoveRight) => if p.x < FIELD_RIGHT {
            Player { x: (p.x + 1) as usize, ..p }
        } else {
            p
        },
        _ => p,
    }
}

/// The player is drawn one row per tick towards the near row and stops there.
pub open spec fn settle(p: Player) -> Player {
    if p.y > NEAR_ROW {
        Player { y: (p.y - 1) as usize, ..p }
    } else {
        p
    }
}

/// Some enemy stands in the very cell of the player.
pub open spec fn collides(p: Player, enemies: Seq<Enemy>) -> bool {
    exists|i: int| 0 <= i < enemies.len() && (#[trigger] enemies[i]).x == p.x && enemies[i].y == p.y
}

/// A tick of a running world.
pub open spec fn running_step(
    m: EngineModel,
    cmd: Option<InputCommand>,
    now: i64,
    raw_lane: usize,
) -> EngineModel {
    let score_due = period_elapsed(now, m.score_timer, SCORE_PERIOD_MS);
    let enemies_due = period_elapsed(now, m.enemy_timer, ENEMY_PERIOD_MS);
    let scored = if score_due {
        Player { score: (m.world.player.score + 1) as usize, ..m.world.player }
    } else {
        m.world.player
    };
    let enemies = if enemies_due {
        enemy_phase(m.world.enemies, raw_lane)
    } else {
        m.world.enemies
    };
    let player = settle(steer(scored, cmd));
    let hit = collides(player, enemies);
    EngineModel {
        world: World {
            player,
            enemies,
            game_over: hit,
            message: if hit {
                game_over_message()
            } else {
                m.world.message
            },
        },
        score_timer: if score_due {
            now
        } else {
            m.score_timer
        },
        enemy_timer: if enemies_due {
            now
        } else {
            m.enemy_timer
        },
    }
}

/// The engine right after a start or a restart at time `now`.
pub open spec fn fresh_engine(now: i64) -> EngineModel {
    EngineModel { world: initial_world(), score_timer: now, enemy_timer: now }
}

/// One tick.
///
/// The exit command comes first: it only sets the status line. Otherwise a
/// running world takes its step, and a world that is over, also one that this
/// very step ended, starts afresh when the sample is the restart command.
pub open spec fn step_spec(
    m: EngineModel,
    cmd: Option<InputCommand>,
    now: i64,
    raw_lane: usize,
) -> EngineModel {
    if cmd == Some(InputCommand::Exit) {
        EngineModel { world: World { message: shutdown_message(), ..m.world }, ..m }
    } else {
        let stepped = if m.world.game_over {
            m
        } else {
            running_step(m, cmd, now, raw_lane)
        };
        if stepped.world.game_over && cmd == Some(InputCommand::Restart) {
            fresh_engine(now)
        } else {
            stepped
        }
    }
}

/// What the tick loop does after a tick that sampled `cmd`.
pub open spec fn action_spec(cmd: Option<InputCommand>) -> TickAction {
    if cmd == Some(InputCommand::Exit) {
        TickAction::Shutdown
    } else {
        TickAction::Broadcast
    }
}

/// Advancing a sequence with one more enemy at its end.
pub proof fn lemma_advance_push(enemies: Seq<Enemy>, e: Enemy)
    ensures
        advance_enemies(enemies.push(e)) == if e.y > NEAR_ROW {
            advance_enemies(enemies).push(Enemy { x: e.x, y: (e.y - 1) as usize })
        } else {
            advance_enemies(enemies)
        },
{
    let longer = enemies.push(e);
    assert(longer.drop_last() =~= enemies);
    reveal(Seq::filter);
    assert(longer.filter(stays()) == if e.y > NEAR_ROW {
        enemies.filter(stays()).push(e)
    } else {
        enemies.filter(stays())
    });
    if e.y > NEAR_ROW {
        assert(enemies.filter(stays()).push(e).map_values(descend()) =~= enemies.filter(
            stays(),
        ).map_values(descend()).push(descend()(e)));
    }
}

/// What is left of the tick's budget after `elapsed` microseconds: never
/// less than nothing.
pub open spec fn budget_left(elapsed: u64) -> u64 {
    if elapsed >= TICK_BUDGET_MICROS {
        0
    } else {
        (TICK_BUDGET_MICROS - elapsed) as u64
    }
}

/// How long the tick loop sleeps after a tick that took `elapsed`
/// microseconds. A slow tick does not sleep.
pub fn remaining_budget(elapsed: u64) -> (left: u64)
    ensures
        left == budget_left(elapsed),
        left <= TICK_BUDGET_MICROS,
{
    if elapsed >= TICK_BUDGET_MICROS {
        0
    } else {
        TICK_BUDGET_MICROS - elapsed
    }
}

/// Has at least `period` milliseconds passed between `since` and `now`?
pub fn period_elapsed_at(now: i64, since: i64, period: i64) -> (due: bool)
    ensures
        due == period_elapsed(now, since, period),
{
    now as i128 - since as i128 >= period as i128
}

/// Moves every enemy one row towards the player's side and drops those that
/// would leave the field.
pub fn advance(enemies: &mut Vec<Enemy>)
    ensures
        final(enemies)@ == advance_enemies(old(enemies)@),
{
    let mut kept: Vec<Enemy> = Vec::new();
    let mut i: usize = 0;
    assert(enemies@.take(0) =~= Seq::<Enemy>::empty());
    assert(advance_enemies(Seq::<Enemy>::empty()) =~= Seq::<Enemy>::empty()) by {
        reveal(Seq::filter);
    }
    while i < enemies.len()
        invariant
            i <= enemies.len(),
            enemies@ == old(enemies)@,
            kept@ == advance_enemies(enemies@.take(i as int)),
        decreases enemies.len() - i,
    {
        let e = enemies[i];
        proof {
            lemma_advance_push(enemies@.take(i as int), e);
            assert(enemies@.take(i + 1) =~= enemies@.take(i as int).push(e));
        }
        if e.y > NEAR_ROW {
            kept.push(Enemy { x: e.x, y: e.y - 1 });
        }
        i = i + 1;
    }
    assert(enemies@.take(i as int) =~= enemies@);
    *enemies = kept;
}

/// The nearest column of the spawn range.
pub fn clamp_to_lane(raw: usize) -> (lane: usize)
    ensures
        lane == clamp_lane(raw),
        SPAWN_LOW <= lane < SPAWN_HIGH,
{
    if raw < SPAWN_LOW {
        SPAWN_LOW
    } else if raw >= SPAWN_HIGH {
        SPAWN_HIGH - 1
    } else {
        raw
    }
}

/// Puts new enemies in front, one at a time, in column `lane` of the spawn
/// row, until the field holds [`MIN_ENEMIES`].
pub fn spawn_fill(enemies: &mut Vec<Enemy>, lane: usize)
    ensures
        final(enemies)@ == refill(old(enemies)@, lane),
{
    while enemies.len() < MIN_ENEMIES
        invariant
            old(enemies)@.len() <= enemies@.len(),
            enemies@.len() <= MIN_ENEMIES || enemies@ == old(enemies)@,
            enemies@ == with_spawned(
                old(enemies)@,
                lane,
                (enemies@.len() - old(enemies)@.len()) as nat,
            ),
        decreases MIN_ENEMIES - enemies.len(),
    {
        enemies.insert(0, Enemy { x: lane, y: SPAWN_ROW });
    }
}

/// Does some enemy stand in the very cell of the player?
pub fn hits(player: &Player, enemies: &Vec<Enemy>) -> (hit: bool)
    ensures
        hit == collides(*player, enemies@),
{
    let mut i: usize = 0;
    while i < enemies.len()
        invariant
            i <= enemies.len(),
            forall|j: int| 0 <= j < i ==> !((#[trigger] enemies@[j]).x == player.x && enemies@[j].y == player.y),
        decreases enemies.len() - i,
    {
        if enemies[i].x == player.x && enemies[i].y == player.y {
            return true;
        }
        i = i + 1;
    }
    false
}

impl Engine {
    /// The engine at server start, with both timers at `now`.
    pub fn new(now: i64) -> (engine: Engine)
        ensures
            engine@ == fresh_engine(now),
    {
        Engine { state: GameState::new(), score_timer: now, enemy_timer: now }
    }

    /// The tick of a running world: score, enemies, player, collision.
    fn run(&mut self, cmd: Option<InputCommand>, now: i64, raw_lane: usize)
        requires
            old(self).state.player.score < usize::MAX,
        ensures
            final(self)@ == running_step(old(self)@, cmd, now, raw_lane),
    {
        if period_elapsed_at(now, self.score_timer, SCORE_PERIOD_MS) {
            self.state.player.score = self.state.player.score + 1;
            self.score_timer = now;
        }
        if period_elapsed_at(now, self.enemy_timer, ENEMY_PERIOD_MS) {
            let lane = clamp_to_lane(raw_lane);
            advance(&mut self.state.enemies);
            spawn_fill(&mut self.state.enemies, lane);
            self.enemy_timer = now;
        }
        match cmd {
            Some(InputCommand::MoveLeft) => {
                if self.state.player.x > FIELD_LEFT {
                    self.state.player.x = self.state.player.x - 1;
                }
            },
            Some(InputCommand::MoveRight) => {
                if self.state.player.x < FIELD_RIGHT {
                    self.state.player.x = self.state.player.x + 1;
                }
            },
            _ => {},
        }
        if self.state.player.y > NEAR_ROW {
            self.state.player.y = self.state.player.y - 1;
        }
        if hits(&self.state.player, &self.state.enemies) {
            self.state.game_over = true;
            self.state.message = "Game Over! Press 'r' to restart or 'q' to quit".to_owned();
        } else {
            self.state.game_over = false;
        }
    }

    /// One tick on the sample `cmd`, taken at time `now`, with `raw_lane` as
    /// the draw for the spawn column.
    pub fn step(&mut self, cmd: Option<InputCommand>, now: i64, raw_lane: usize) -> (action:
        TickAction)
        requires
            old(self).state.player.score < usize::MAX,
        ensures
            final(self)@ == step_spec(old(self)@, cmd, now, raw_lane),
            action == action_spec(cmd),
            old(self)@.world.within_field() ==> final(self)@.world.within_field(),
            old(self)@.world.enemies.len() <= MIN_ENEMIES ==> final(self)@.world.enemies.len()
                <= MIN_ENEMIES,
    {
        proof {
            if old(self)@.world.within_field() {
                lemma_step_keeps_field(old(self)@, cmd, now, raw_lane);
            }
            if old(self)@.world.enemies.len() <= MIN_ENEMIES {
                lemma_step_bounds_enemies(old(self)@, cmd, now, raw_lane);
            }
        }
        match cmd {
            Some(InputCommand::Exit) => {
                self.state.message = "Game shutting down...".to_owned();
                return TickAction::Shutdown;
            },
            _ => {},
        }
        if !self.state.game_over {
            self.run(cmd, now, raw_lane);
        }
        if self.state.game_over {
            match cmd {
                Some(InputCommand::Restart) => {
                    self.state = GameState::new();
                    self.score_timer = now;
                    self.enemy_timer = now;
                },
                _ => {},
            }
        }
        TickAction::Broadcast
    }

    /// One tick of the server: samples the mailbox once, reads the clock,
    /// draws a spawn column and takes the step.
    ///
    /// Time and draw are not the library's to decide, so the new state is the
    /// step for some time and some column of the spawn range.
    pub fn tick(&mut self, inputs: &InputChannel) -> (action: TickAction)
        requires
            old(self).state.player.score < usize::MAX,
        ensures
            action == action_spec(inputs@),
            exists|now: i64, lane: usize|
                SPAWN_LOW <= lane < SPAWN_HIGH && final(self)@ == #[trigger] step_spec(
                    old(self)@,
                    inputs@,
                    now,
                    lane,
                ),
            old(self)@.world.within_field() ==> final(self)@.world.within_field(),
            old(self)@.world.enemies.len() <= MIN_ENEMIES ==> final(self)@.world.enemies.len()
                <= MIN_ENEMIES,
    {
        let sample = inputs.get();
        let now = now_millis();
        let lane = draw_between(SPAWN_LOW, SPAWN_HIGH);
        self.step(sample, now, lane)
    }
}

/// The enemy phase leaves at most as many enemies as there were, or
/// [`MIN_ENEMIES`] if that is more; after it the field holds at least
/// [`MIN_ENEMIES`].
pub proof fn lemma_enemy_phase_count(enemies: Seq<Enemy>, raw_lane: usize)
    ensures
        advance_enemies(enemies).len() <= enemies.len(),
        enemy_phase(enemies, raw_lane).len() == if advance_enemies(enemies).len() < MIN_ENEMIES {
            MIN_ENEMIES as nat
        } else {
            advance_enemies(enemies).len()
        },
        MIN_ENEMIES <= enemy_phase(enemies, raw_lane).len(),
        enemy_phase(enemies, raw_lane).len() <= enemies.len() || enemy_phase(
            enemies,
            raw_lane,
        ).len() == MIN_ENEMIES,
{
    enemies.lemma_filter_len(stays());
}

/// On its way to the refilled field the spawn-fill passes only through
/// fields of at most [`MIN_ENEMIES`] enemies: the count never overshoots.
pub proof fn lemma_refill_never_overshoots(enemies: Seq<Enemy>, lane: usize, fresh: nat)
    requires
        enemies.len() + fresh <= MIN_ENEMIES,
    ensures
        with_spawned(enemies, lane, fresh).len() == enemies.len() + fresh,
        with_spawned(enemies, lane, fresh).len() <= MIN_ENEMIES,
        with_spawned(enemies, lane, (fresh + 1) as nat) == with_spawned(
            enemies,
            lane,
            fresh,
        ).insert(0, Enemy { x: lane, y: SPAWN_ROW }),
        enemies.len() + fresh == MIN_ENEMIES ==> with_spawned(enemies, lane, fresh) == refill(
            enemies,
            lane,
        ),
{
    assert(with_spawned(enemies, lane, (fresh + 1) as nat) =~= with_spawned(
        enemies,
        lane,
        fresh,
    ).insert(0, Enemy { x: lane, y: SPAWN_ROW }));
    if enemies.len() == MIN_ENEMIES {
        assert(with_spawned(enemies, lane, 0) =~= enemies);
    }
}

/// Every enemy that the enemy phase leaves stands in the field, if those
/// before it did.
pub proof fn lemma_enemy_phase_in_field(enemies: Seq<Enemy>, raw_lane: usize)
    requires
        forall|i: int| 0 <= i < enemies.len() ==> in_field((#[trigger] enemies[i]).x, enemies[i].y),
    ensures
        forall|i: int|
            0 <= i < enemy_phase(enemies, raw_lane).len() ==> in_field(
                (#[trigger] enemy_phase(enemies, raw_lane)[i]).x,
                enemy_phase(enemies, raw_lane)[i].y,
            ),
{
    let kept = enemies.filter(stays());
    let moved = advance_enemies(enemies);
    let after = enemy_phase(enemies, raw_lane);
    assert forall|i: int| 0 <= i < moved.len() implies in_field(
        (#[trigger] moved[i]).x,
        moved[i].y,
    ) by {
        enemies.lemma_filter_pred(stays(), i);
        assert(kept.contains(kept[i]));
        enemies.lemma_filter_contains_rev(stays(), kept[i]);
    }
    assert forall|i: int| 0 <= i < after.len() implies in_field(
        (#[trigger] after[i]).x,
        after[i].y,
    ) by {
        if moved.len() < MIN_ENEMIES {
            let fresh = MIN_ENEMIES - moved.len();
            if i >= fresh {
                assert(after[i] == moved[i - fresh]);
            }
        }
    }
}

/// No tick moves the player or an enemy out of the field.
pub proof fn lemma_step_keeps_field(
    m: EngineModel,
    cmd: Option<InputCommand>,
    now: i64,
    raw_lane: usize,
)
    requires
        m.world.within_field(),
    ensures
        step_spec(m, cmd, now, raw_lane).world.within_field(),
{
    lemma_enemy_phase_in_field(m.world.enemies, raw_lane);
    assert(initial_world().within_field());
}

/// A field that holds at most [`MIN_ENEMIES`] enemies does so after every tick.
pub proof fn lemma_step_bounds_enemies(
    m: EngineModel,
    cmd: Option<InputCommand>,
    now: i64,
    raw_lane: usize,
)
    requires
        m.world.enemies.len() <= MIN_ENEMIES,
    ensures
        step_spec(m, cmd, now, raw_lane).world.enemies.len() <= MIN_ENEMIES,
{
    lemma_enemy_phase_count(m.world.enemies, raw_lane);
}

/// The player is hit exactly when an enemy stands in the player's own cell:
/// an enemy in any other cell, however near, does not count.
pub proof fn lemma_collision_is_exact(p: Player, enemies: Seq<Enemy>)
    ensures
        collides(p, enemies) <==> enemies.contains(Enemy { x: p.x, y: p.y }),
        (forall|i: int|
            0 <= i < enemies.len() ==> (#[trigger] enemies[i]).x != p.x || enemies[i].y != p.y)
            ==> !collides(p, enemies),
{
    if collides(p, enemies) {
        let i = choose|i: int|
            0 <= i < enemies.len() && (#[trigger] enemies[i]).x == p.x && enemies[i].y == p.y;
        assert(enemies[i] == Enemy { x: p.x, y: p.y });
    }
    if enemies.contains(Enemy { x: p.x, y: p.y }) {
        let i = choose|i: int| 0 <= i < enemies.len() && enemies[i] == Enemy { x: p.x, y: p.y };
        assert(enemies[i].x == p.x && enemies[i].y == p.y);
    }
}

/// A running world is over after a tick exactly when, after all moves of
/// that tick, an enemy stands in the player's cell.
pub proof fn lemma_only_a_hit_ends_the_game(
    m: EngineModel,
    cmd: Option<InputCommand>,
    now: i64,
    raw_lane: usize,
)
    ensures
        ({
            let next = running_step(m, cmd, now, raw_lane);
            next.world.game_over <==> next.world.enemies.contains(
                Enemy { x: next.world.player.x, y: next.world.player.y },
            )
        }),
{
    let next = running_step(m, cmd, now, raw_lane);
    lemma_collision_is_exact(next.world.player, next.world.enemies);
}

/// The restart command turns a world that is over into the initial world,
/// running again, with both timers at the time of the tick.
pub proof fn lemma_restart_restores(m: EngineModel, now: i64, raw_lane: usize)
    requires
        m.world.game_over,
    ensures
        step_spec(m, Some(InputCommand::Restart), now, raw_lane) == fresh_engine(now),
        step_spec(m, Some(InputCommand::Restart), now, raw_lane).world == initial_world(),
        !step_spec(m, Some(InputCommand::Restart), now, raw_lane).world.game_over,
{
}

/// A world that is over does not change until the restart command comes:
/// any other sample leaves the engine as it is, but for the status line
/// that the exit command sets.
pub proof fn lemma_over_stays_over(
    m: EngineModel,
    cmd: Option<InputCommand>,
    now: i64,
    raw_lane: usize,
)
    requires
        m.world.game_over,
        cmd != Some(InputCommand::Restart),
    ensures
        cmd != Some(InputCommand::Exit) ==> step_spec(m, cmd, now, raw_lane) == m,
        step_spec(m, cmd, now, raw_lane).world.player == m.world.player,
        step_spec(m, cmd, now, raw_lane).world.enemies == m.world.enemies,
        step_spec(m, cmd, now, raw_lane).world.game_over,
        step_spec(m, cmd, now, raw_lane).score_timer == m.score_timer,
        step_spec(m, cmd, now, raw_lane).enemy_timer == m.enemy_timer,
{
}

/// A held move shifts the player by exactly one column per tick until the
/// edge of the field; the neutral command, and a sample that is no command,
/// keep the column.
pub proof fn lemma_column_follows_command(
    m: EngineModel,
    cmd: Option<InputCommand>,
    now: i64,
    raw_lane: usize,
)
    requires
        !m.world.game_over,
    ensures
        ({
            let before = m.world.player.x;
            let after = running_step(m, cmd, now, raw_lane).world.player.x;
            match cmd {
                Some(InputCommand::MoveLeft) => after == if before > FIELD_LEFT {
                    before - 1
                } else {
                    before as int
                },
                Some(InputCommand::MoveRight) => after == if before < FIELD_RIGHT {
                    before + 1
                } else {
                    before as int
                },
                _ => after == before,
            }
        }),
{
}

/// What one tick is given: the sample of the mailbox, the time, and the
/// draw for the spawn column.
pub struct TickInput {
    pub sample: Option<InputCommand>,
    pub now: i64,
    pub raw_lane: usize,
}

/// The engine after a run of ticks, the first of the sequence first.
pub open spec fn run_spec(m: EngineModel, ticks: Seq<TickInput>) -> EngineModel
    decreases ticks.len(),
{
    if ticks.len() == 0 {
        m
    } else {
        let last = ticks.last();
        step_spec(run_spec(m, ticks.drop_last()), last.sample, last.now, last.raw_lane)
    }
}

/// Whatever commands, times and draws a run of ticks is given, the player
/// and every enemy stay in the field.
pub proof fn lemma_run_keeps_field(m: EngineModel, ticks: Seq<TickInput>)
    requires
        m.world.within_field(),
    ensures
        run_spec(m, ticks).world.within_field(),
    decreases ticks.len(),
{
    if ticks.len() > 0 {
        let last = ticks.last();
        lemma_run_keeps_field(m, ticks.drop_last());
        lemma_step_keeps_field(
            run_spec(m, ticks.drop_last()),
            last.sample,
            last.now,
            last.raw_lane,
        );
    }
}

/// A field that holds at most [`MIN_ENEMIES`] enemies does so after every
/// run of ticks.
pub proof fn lemma_run_bounds_enemies(m: EngineModel, ticks: Seq<TickInput>)
    requires
        m.world.enemies.len() <= MIN_ENEMIES,
    ensures
        run_spec(m, ticks).world.enemies.len() <= MIN_ENEMIES,
    decreases ticks.len(),
{
    if ticks.len() > 0 {
        let last = ticks.last();
        lemma_run_bounds_enemies(m, ticks.drop_last());
        lemma_step_bounds_enemies(
            run_spec(m, ticks.drop_last()),
            last.sample,
            last.now,
            last.raw_lane,
        );
    }
}

/// Once the world is over, no run of ticks without the restart command
/// moves the player or an enemy, touches a timer, or lets the game go on.
pub proof fn lemma_run_over_stays_over(m: EngineModel, ticks: Seq<TickInput>)
    requires
        m.world.game_over,
        forall|i: int|
            0 <= i < ticks.len() ==> (#[trigger] ticks[i]).sample != Some(InputCommand::Restart),
    ensures
        run_spec(m, ticks).world.game_over,
        run_spec(m, ticks).world.player == m.world.player,
        run_spec(m, ticks).world.enemies == m.world.enemies,
        run_spec(m, ticks).score_timer == m.score_timer,
        run_spec(m, ticks).enemy_timer == m.enemy_timer,
    decreases ticks.len(),
{
    if ticks.len() > 0 {
        let last = ticks.last();
        let earlier = ticks.drop_last();
        assert forall|i: int| 0 <= i < earlier.len() implies (#[trigger] earlier[i]).sample != Some(
            InputCommand::Restart,
        ) by {
            assert(earlier[i] == ticks[i]);
        }
        lemma_run_over_stays_over(m, earlier);
        lemma_over_stays_over(run_spec(m, earlier), last.sample, last.now, last.raw_lane);
    }
}

/// While the neutral command is held, the player's column does not drift,
/// however many ticks pass.
pub proof fn lemma_run_idle_keeps_column(m: EngineModel, ticks: Seq<TickInput>)
    requires
        forall|i: int|
            0 <= i < ticks.len() ==> (#[trigger] ticks[i]).sample == Some(InputCommand::Idle),
    ensures
        run_spec(m, ticks).world.player.x == m.world.player.x,
    decreases ticks.len(),
{
    if ticks.len() > 0 {
        let earlier = ticks.drop_last();
        assert forall|i: int| 0 <= i < earlier.len() implies (#[trigger] earlier[i]).sample == Some(
            InputCommand::Idle,
        ) by {
            assert(earlier[i] == ticks[i]);
        }
        lemma_run_idle_keeps_column(m, earlier);
    }
}

} // verus!
