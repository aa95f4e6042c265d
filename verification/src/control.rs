//! The decisions of one tick that are neither the arena's nor the wire's:
//! what a key means, where the computer's snake turns, who has won.
use vstd::prelude::*;
use crate::geometry::DIRECTION;
use crate::snake::Snake;

verus! {

/// The code of the down arrow, as a curses terminal reports it.
pub const KEY_DOWN: i32 = 0x102;

/// The code of the up arrow.
pub const KEY_UP: i32 = 0x103;

/// The code of the left arrow.
pub const KEY_LEFT: i32 = 0x104;

/// The code of the right arrow.
pub const KEY_RIGHT: i32 = 0x105;

/// How a game ended for the first player.
#[derive(Clone, Copy, Debug, PartialEq, Eq, Structural)]
pub enum Verdict {
    Win,
    Tie,
    Lose,
}

/// The direction that a key code asks for, if it is an arrow's.
pub open spec fn key_direction(code: i32) -> Option<DIRECTION> {
    if code == KEY_DOWN {
        Some(DIRECTION::Down)
    } else if code == KEY_UP {
        Some(DIRECTION::Up)
    } else if code == KEY_LEFT {
        Some(DIRECTION::Left)
    } else if code == KEY_RIGHT {
        Some(DIRECTION::Right)
    } else {
        None
    }
}

/// The intent after a key code arrives: the arrow's direction, or the
/// previous intent for any other code.
pub open spec fn intent_after(previous: DIRECTION, code: i32) -> DIRECTION {
    match key_direction(code) {
        Some(d) => d,
        None => previous,
    }
}

/// The sideways direction from column `head_x` towards column `target_x`;
/// `Left` when they are the same.
pub open spec fn sideways(target_x: i32, head_x: i32) -> DIRECTION {
    if head_x < target_x {
        DIRECTION::Right
    } else {
        DIRECTION::Left
    }
}

/// Where a snake with its head at `(head_y, head_x)` turns to reach
/// `(target_y, target_x)`: sideways towards the target's column as long as
/// the columns differ, then towards the target's row; `Left` once it is
/// there. The heading `current` has no say: a turn that the snake cannot
/// take is refused when it is asked of the snake.
pub open spec fn chase(current: DIRECTION, target_y: i32, target_x: i32, head_y: i32, head_x: i32) -> DIRECTION {
    if head_x != target_x {
        sideways(target_x, head_x)
    } else if head_y > target_y {
        DIRECTION::Up
    } else if head_y < target_y {
        DIRECTION::Down
    } else {
        DIRECTION::Left
    }
}

/// The verdict for the first player from the two scores.
pub open spec fn verdict_of(score1: i32, score2: i32) -> Verdict {
    if score1 > score2 {
        Verdict::Win
    } else if score1 == score2 {
        Verdict::Tie
    } else {
        Verdict::Lose
    }
}

/// The direction that a key code asks for, if it is an arrow's.
pub fn direction_from_key(code: i32) -> (direction: Option<DIRECTION>)
    ensures
        direction == key_direction(code),
{
    if code == KEY_DOWN {
        Some(DIRECTION::Down)
    } else if code == KEY_UP {
        Some(DIRECTION::Up)
    } else if code == KEY_LEFT {
        Some(DIRECTION::Left)
    } else if code == KEY_RIGHT {
        Some(DIRECTION::Right)
    } else {
        None
    }
}

/// Folds a key code into an intent.
pub fn fold_key(previous: DIRECTION, code: i32) -> (intent: DIRECTION)
    ensures
        intent == intent_after(previous, code),
{
    match direction_from_key(code) {
        Some(d) => d,
        None => previous,
    }
}

/// The turn of the computer's snake towards the food.
pub fn calculate_direction(snake: &Snake, target_y: &i32, target_x: &i32, head_y: &i32, head_x: &i32) -> (direction: DIRECTION)
    ensures
        direction == chase(snake.direction, *target_y, *target_x, *head_y, *head_x),
{
    if *head_x > *target_x {
        DIRECTION::Left
    } else if *head_x < *target_x {
        DIRECTION::Right
    } else if *head_y > *target_y {
        DIRECTION::Up
    } else if *head_y < *target_y {
        DIRECTION::Down
    } else {
        DIRECTION::Left
    }
}

/// The verdict for the first player from the two scores.
pub fn judge(score1: i32, score2: i32) -> (verdict: Verdict)
    ensures
        verdict == verdict_of(score1, score2),
{
    if score1 > score2 {
        Verdict::Win
    } else if score1 == score2 {
        Verdict::Tie
    } else {
        Verdict::Lose
    }
}

} // verus!
