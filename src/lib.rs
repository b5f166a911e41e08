//! A frequency tablebase over recorded two-player game sessions.
//!
//! Two chronological action streams are paired into (initiation, response,
//! delay) rows, each row is quantized into fixed-width integer columns, and
//! the stored rows answer exact-match histogram queries.

pub mod action;
pub mod pairing;
pub mod codec;
pub mod tablebase;

pub use action::Action;
pub use codec::DBRow;
pub use pairing::{generate_rows_from_game, Row, RowRef};
pub use tablebase::{QueryResponce, Tablebase};
