//! The world that the server simulates and broadcasts.

use vstd::prelude::*;

verus! {

/// Leftmost column the player may stand in.
pub const FIELD_LEFT: usize = 1;

/// Rightmost column the player may stand in.
pub const FIELD_RIGHT: usize = 11;

/// The row on the player's side of the field.
pub const NEAR_ROW: usize = 1;

/// The row in which enemies appear.
pub const SPAWN_ROW: usize = 11;

/// Lowest column in which an enemy may appear.
pub const SPAWN_LOW: usize = 1;

/// One past the highest column in which an enemy may appear.
pub const SPAWN_HIGH: usize = 11;

/// The enemy phase refills the field up to this many enemies.
pub const MIN_ENEMIES: usize = 3;

/// Health of a fresh player.
pub const START_HP: u32 = 100;

/// A command a client can hold in the input mailbox.
#[derive(Debug, Clone, Copy, PartialEq, Eq, Structural)]
pub enum InputCommand {
    /// Move the player a column to the left on every tick.
    MoveLeft,
    /// Move the player a column to the right on every tick.
    MoveRight,
    /// The neutral command: a client sends it to stop a held move.
    Idle,
    /// Start a world that is over afresh.
    Restart,
    /// Shut the server's tick loop down.
    Exit,
}

/// The entity the clients steer: a cell of the field, health and score.
#[derive(Debug, Clone, Copy, PartialEq, Eq, Structural)]
pub struct Player {
    pub x: usize,
    pub y: usize,
    pub hp: u32,
    pub score: usize,
}

/// An enemy: a cell of the field.
#[derive(Debug, Clone, Copy, PartialEq, Eq, Structural)]
pub struct Enemy {
    pub x: usize,
    pub y: usize,
}

/// One snapshot of the world: the unit that is broadcast every tick.
#[derive(Debug, Clone, PartialEq, Eq)]
pub struct GameState {
    pub player: Player,
    pub enemies: Vec<Enemy>,
    pub game_over: bool,
    pub message: String,
}

/// The mathematical content of a [`GameState`].
pub struct World {
    pub player: Player,
    pub enemies: Seq<Enemy>,
    pub game_over: bool,
    pub message: Seq<char>,
}

impl View for GameState {
    type V = World;

    open spec fn view(&self) -> World {
        World {
            player: self.player,
            enemies: self.enemies@,
            game_over: self.game_over,
            message: self.message@,
        }
    }
}

/// The player as the server starts it.
pub open spec fn initial_player() -> Player {
    Player { x: 5, y: 1, hp: START_HP, score: 0 }
}

/// The enemies as the server starts them.
pub open spec fn initial_enemies() -> Seq<Enemy> {
    seq![Enemy { x: 1, y: 9 }, Enemy { x: 3, y: 5 }]
}

/// The world at server start, and after every restart.
pub open spec fn initial_world() -> World {
    World {
        player: initial_player(),
        enemies: initial_enemies(),
        game_over: false,
        message: Seq::empty(),
    }
}

/// A cell lies in the field when its column is a player column and its row
/// is between the near row and the spawn row.
pub open spec fn in_field(x: usize, y: usize) -> bool {
    FIELD_LEFT <= x <= FIELD_RIGHT && NEAR_ROW <= y <= SPAWN_ROW
}

impl World {
    /// The player and every enemy stand in the field.
    pub open spec fn within_field(self) -> bool {
        &&& in_field(self.player.x, self.player.y)
        &&& forall|i: int|
            0 <= i < self.enemies.len() ==> in_field(
                (#[trigger] self.enemies[i]).x,
                self.enemies[i].y,
            )
    }
}

impl Player {
    /// The player as the server starts it.
    pub fn initial() -> (p: Player)
        ensures
            p == initial_player(),
    {
        Player { x: 5, y: 1, hp: START_HP, score: 0 }
    }
}

impl GameState {
    /// The world at server start.
    pub fn new() -> (state: GameState)
        ensures
            state@ == initial_world(),
            state@.within_field(),
    {
        let mut enemies: Vec<Enemy> = Vec::new();
        enemies.push(Enemy { x: 1, y: 9 });
        enemies.push(Enemy { x: 3, y: 5 });
        let state = GameState {
            player: Player::initial(),
            enemies,
            game_over: false,
            message: String::new(),
        };
        assert(state@.enemies =~= initial_enemies());
        state
    }
}

} // verus!
