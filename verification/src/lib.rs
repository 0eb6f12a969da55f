//! Rules, wire format and turn logic of a two-player four-in-a-row game
//! played on a grid of six rows and seven columns.

pub mod piece;
pub mod grid;
pub mod wire;
pub mod board;
pub mod codec;
pub mod session;
pub mod matchmaker;
pub mod client;
pub mod render;
