//! The decision logic of a Minecraft chat bot: command parsing, logins,
//! command loops and the command-block core, with their contracts.
use vstd::prelude::*;

pub mod auth;
pub mod bot;
pub mod chat;
pub mod command;
pub mod cmdcore;
pub mod laws;
pub mod markup;
pub mod names;
pub mod number;
pub mod text;
