//! The client's side of the rules: which key means which command, what a
//! world looks like on the screen, and how a reply is read.
//!
//! Keyboard, terminal and connection belong to the program; it hands over
//! what it has read and shows what it is handed back.

use vstd::prelude::*;
use vstd::slice::slice_subrange;
use vstd::utf8::{decode_utf8, valid_utf8};
use crate::bytes::same_text;
use crate::game::{Enemy, GameState, InputCommand, World};

verus! {

/// The width of the map on the screen, in cells.
pub const MAP_WIDTH: usize = 13;

/// The height of the map on the screen, in cells.
pub const MAP_HEIGHT: usize = 5;

/// A key as the client tells them apart.
#[derive(Debug, Clone, Copy, PartialEq, Eq, Structural)]
pub enum Key {
    Char(char),
    Left,
    Right,
    Esc,
    Other,
}

/// What the client does after a look at the keyboard.
#[derive(Debug, Clone, Copy, PartialEq, Eq, Structural)]
pub enum KeyOutcome {
    /// Send the command to the server.
    Send(InputCommand),
    /// Leave the input loop.
    Leave,
    /// End the program at once.
    Quit,
}

/// What the client does with the player's answer to the prompt of a world
/// that is over.
#[derive(Debug, Clone, Copy, PartialEq, Eq, Structural)]
pub enum PromptOutcome {
    /// Hold the restart command.
    Restart,
    /// Hold the exit command and stop the client.
    Quit,
    /// The answer is neither: ask again.
    AskAgain,
}

/// What a frame shows.
#[derive(Debug, Clone, PartialEq, Eq)]
pub enum Screen {
    /// The world is over: its status line, and a question to the player.
    Prompt(String),
    /// The map, top row first, one character per cell.
    Grid(Vec<Vec<char>>),
}

/// The outcome of a look at the keyboard that found `key`, or no key.
/// Without a key, and on a key that means nothing, the neutral command is
/// sent, so that a held move ends.
pub open spec fn key_outcome(key: Option<Key>) -> KeyOutcome {
    match key {
        Some(Key::Char('a')) | Some(Key::Left) => KeyOutcome::Send(InputCommand::MoveLeft),
        Some(Key::Char('d')) | Some(Key::Right) => KeyOutcome::Send(InputCommand::MoveRight),
        Some(Key::Char('r')) => KeyOutcome::Send(InputCommand::Restart),
        Some(Key::Char('q')) => KeyOutcome::Quit,
        Some(Key::Esc) => KeyOutcome::Leave,
        _ => KeyOutcome::Send(InputCommand::Idle),
    }
}

/// The outcome of a look at the keyboard that found `key`, or no key.
pub fn fetch_input(key: Option<Key>) -> (outcome: KeyOutcome)
    ensures
        outcome == key_outcome(key),
{
    match key {
        Some(Key::Char(c)) => {
            if c == 'a' {
                KeyOutcome::Send(InputCommand::MoveLeft)
            } else if c == 'd' {
                KeyOutcome::Send(InputCommand::MoveRight)
            } else if c == 'r' {
                KeyOutcome::Send(InputCommand::Restart)
            } else if c == 'q' {
                KeyOutcome::Quit
            } else {
                KeyOutcome::Send(InputCommand::Idle)
            }
        },
        Some(Key::Left) => KeyOutcome::Send(InputCommand::MoveLeft),
        Some(Key::Right) => KeyOutcome::Send(InputCommand::MoveRight),
        Some(Key::Esc) => KeyOutcome::Leave,
        _ => KeyOutcome::Send(InputCommand::Idle),
    }
}

/// The outcome of an answer to the prompt. The answer is the line the
/// player typed, without the blanks around it and in lower case.
pub open spec fn prompt_spec(answer: Seq<char>) -> PromptOutcome {
    if answer == "r"@ {
        PromptOutcome::Restart
    } else if answer == "q"@ {
        PromptOutcome::Quit
    } else {
        PromptOutcome::AskAgain
    }
}

/// The outcome of an answer to the prompt.
pub fn prompt_outcome(answer: &str) -> (outcome: PromptOutcome)
    ensures
        outcome == prompt_spec(answer@),
{
    if same_text(answer, "r") {
        PromptOutcome::Restart
    } else if same_text(answer, "q") {
        PromptOutcome::Quit
    } else {
        PromptOutcome::AskAgain
    }
}

/// Some enemy stands in the cell.
pub open spec fn enemy_at(enemies: Seq<Enemy>, x: int, y: int) -> bool {
    exists|i: int| 0 <= i < enemies.len() && (#[trigger] enemies[i]).x == x && enemies[i].y == y
}

/// The character of a cell: an enemy hides the player, the player hides the
/// ground.
pub open spec fn cell(world: World, x: int, y: int) -> char {
    if enemy_at(world.enemies, x, y) {
        'E'
    } else if world.player.x == x && world.player.y == y {
        'P'
    } else {
        ' '
    }
}

/// `rows` is the map of `world`: [`MAP_HEIGHT`] rows of [`MAP_WIDTH`] cells,
/// the top row first.
pub open spec fn is_map_of(world: World, rows: Seq<Vec<char>>) -> bool {
    &&& rows.len() == MAP_HEIGHT
    &&& forall|r: int| 0 <= r < MAP_HEIGHT ==> (#[trigger] rows[r])@.len() == MAP_WIDTH
    &&& forall|r: int, c: int|
        0 <= r < MAP_HEIGHT && 0 <= c < MAP_WIDTH ==> #[trigger] rows[r]@[c] == cell(
            world,
            c,
            MAP_HEIGHT - 1 - r,
        )
}

/// Does some enemy stand in the cell?
fn has_enemy(enemies: &Vec<Enemy>, x: usize, y: usize) -> (found: bool)
    ensures
        found == enemy_at(enemies@, x as int, y as int),
{
    let mut i: usize = 0;
    while i < enemies.len()
        invariant
            i <= enemies.len(),
            forall|j: int| 0 <= j < i ==> !((#[trigger] enemies@[j]).x == x && enemies@[j].y == y),
        decreases enemies.len() - i,
    {
        if enemies[i].x == x && enemies[i].y == y {
            return true;
        }
        i = i + 1;
    }
    false
}

/// One row of the map.
fn render_row(state: &GameState, y: usize) -> (row: Vec<char>)
    ensures
        row@.len() == MAP_WIDTH,
        forall|c: int| 0 <= c < MAP_WIDTH ==> #[trigger] row@[c] == cell(state@, c, y as int),
{
    let mut row: Vec<char> = Vec::new();
    let mut x: usize = 0;
    while x < MAP_WIDTH
        invariant
            x <= MAP_WIDTH,
            row@.len() == x,
            forall|c: int| 0 <= c < x ==> #[trigger] row@[c] == cell(state@, c, y as int),
        decreases MAP_WIDTH - x,
    {
        if has_enemy(&state.enemies, x, y) {
            row.push('E');
        } else if state.player.x == x && state.player.y == y {
            row.push('P');
        } else {
            row.push(' ');
        }
        x = x + 1;
    }
    row
}

/// What a frame shows of `state`: the status line of a world that is over,
/// else the map. What lies outside the map is not shown.
pub fn render_map(state: &GameState) -> (screen: Screen)
    ensures
        match screen {
            Screen::Prompt(text) => state.game_over && text@ == state.message@,
            Screen::Grid(rows) => !state.game_over && is_map_of(state@, rows@),
        },
{
    if state.game_over {
        return Screen::Prompt(state.message.clone());
    }
    let mut rows: Vec<Vec<char>> = Vec::new();
    let mut r: usize = 0;
    while r < MAP_HEIGHT
        invariant
            r <= MAP_HEIGHT,
            rows@.len() == r,
            forall|k: int| 0 <= k < r ==> (#[trigger] rows@[k])@.len() == MAP_WIDTH,
            forall|k: int, c: int|
                0 <= k < r && 0 <= c < MAP_WIDTH ==> #[trigger] rows@[k]@[c] == cell(
                    state@,
                    c,
                    MAP_HEIGHT - 1 - k,
                ),
        decreases MAP_HEIGHT - r,
    {
        let row = render_row(state, MAP_HEIGHT - 1 - r);
        rows.push(row);
        r = r + 1;
    }
    Screen::Grid(rows)
}

/// The text that `String::from_utf8_lossy` makes of a byte string.
pub uninterp spec fn lossy_text(data: Seq<u8>) -> Seq<char>;

/// The text of a reply that came back empty-handed.
pub open spec fn no_reply_text() -> Seq<char> {
    "No response received"@
}

/// The text of a reply: what was read, made text, or a fixed remark when the
/// stream ended without data.
pub open spec fn reply_text(buffer: Seq<u8>, read: Option<usize>) -> Seq<char> {
    match read {
        Some(n) => lossy_text(buffer.take(n as int)),
        None => no_reply_text(),
    }
}

/// Bytes made text with `String::from_utf8_lossy`: well-formed UTF-8 is
/// decoded as it stands; in other input every malformed part is replaced by
/// the replacement character, which the name [`lossy_text`] stands for.
#[verifier::external_body]
fn lossy(data: &[u8]) -> (text: String)
    ensures
        text@ == lossy_text(data@),
        valid_utf8(data@) ==> text@ == decode_utf8(data@),
{
    String::from_utf8_lossy(data).into_owned()
}

/// The text of the server's reply after a read of `read` bytes into `buffer`.
pub fn read_reply(buffer: &[u8], read: Option<usize>) -> (text: String)
    requires
        read matches Some(n) ==> n <= buffer@.len(),
    ensures
        text@ == reply_text(buffer@, read),
        read matches Some(n) ==> (valid_utf8(buffer@.take(n as int)) ==> text@ == decode_utf8(
            buffer@.take(n as int),
        )),
{
    match read {
        Some(n) => {
            let data = slice_subrange(buffer, 0, n);
            assert(data@ =~= buffer@.take(n as int));
            lossy(data)
        },
        None => "No response received".to_owned(),
    }
}

} // verus!
