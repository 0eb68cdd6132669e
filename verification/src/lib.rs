//! A verified core for a front-end to a command-line media downloader.
//!
//! The library has three parts: a parser that turns the downloader's
//! textual format listing into structured records (`format`), pure text
//! utilities the parser is specified with (`text`), and a controller that
//! holds the application state and decides when background work may be
//! spawned and how its results are applied (`controller`).

pub mod controller;
pub mod format;
pub mod text;
