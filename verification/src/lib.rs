//! Connect Four: a verified board model, move generation, win detection and
//! the turn-taking state machine of a game between a person and a computer.

pub mod board;
pub mod rules;
pub mod session;
pub mod spinner;
pub mod text;

pub use board::{Board, CFGameState, CFMove, Position};
pub use rules::{Axis, Outcome, Run};
pub use session::{Action, App, AppState, Intent, Message, Poll, Session, THINK_SECONDS};
