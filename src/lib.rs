//! A code-breaking puzzle: a hidden sequence of colors is guessed within a
//! bounded number of attempts, with exact/color feedback after each guess.
pub mod advice;
pub mod code;
pub mod game;
pub mod input;
pub mod scoring;

pub use advice::{hint_for, praise_for, Hint, Praise};
pub use code::{GuessError, CODE_LENGTH, MAX_ATTEMPTS};
pub use game::{Game, GameState, Round};
pub use input::{is_quit_command, is_yes};
pub use scoring::{score, Feedback};
