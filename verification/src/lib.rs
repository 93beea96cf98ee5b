//! Chess game logic for an e-ink tablet: players, squares, a game with an
//! undo history, a request/update protocol, a search bot, a replay of
//! recorded games and the board screen that drives them from touch input.

pub mod board_ui;
pub mod engine;
pub mod framebuffer;
pub mod game;
pub mod hal;
pub mod player;
pub mod proto;
pub mod replay;
pub mod replay_scene;
pub mod search;
pub mod square;
pub mod text;
pub mod touch;

pub use player::Player;
pub use square::Square;
