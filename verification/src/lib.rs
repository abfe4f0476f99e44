//! A verified core for a Wordle-style phrase-guessing game.
//!
//! A secret phrase is drawn from externally supplied candidate strings,
//! normalized and split into words; guesses are graded letter by letter with
//! exact duplicate-letter semantics; live games are kept in a concurrent
//! session store with one lock for the table and one lock per session.

pub mod chars;
pub mod controller;
pub mod errors;
pub mod grading;
pub mod lastfm;
pub mod selector;
pub mod session;
pub mod store;
pub mod words;
