//! A personal log for developers: timestamped notes with optional tags,
//! each kept together with the directory it was written in, in a local
//! SQLite database.
//!
//! The library holds the rules: how an id specification such as `3,5-7,10`
//! is read (`ids`), how paths are brought into normal form (`paths`), how
//! statements for the store are assembled (`query`) and run (`db`), what
//! each command decides (`commands`), and how entries are shown (`render`).
//! Talking to the user and to the file system is left to the caller.
//!
//! The calls into `rusqlite` and `chrono` stand in `sqlite` and `clock`;
//! what is said of them there is taken on trust, everything else is proved.

pub mod cli;
pub mod clock;
pub mod commands;
pub mod db;
pub mod error;
pub mod ids;
pub mod models;
pub mod paths;
pub mod query;
pub mod render;
pub mod sqlite;
pub mod text;
