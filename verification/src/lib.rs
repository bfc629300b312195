//! The rules of a Go game server: rooms, turns, logins and the console.
//!
//! The decisions of the server are verified functions here. Sockets, channels, timers and
//! threads live in the application around the library, which performs the actions that
//! these functions return and hands back what happened. So does the game itself: the board,
//! its rules and the colours' opposites are the application's to ask, and their answers are
//! arguments here.

pub mod admission;
pub mod conduct;
pub mod faithful;
pub mod history;
pub mod house;
pub mod laws;
pub mod login;
pub mod messages;
pub mod model;
pub mod process;
pub mod relay;
pub mod room;
