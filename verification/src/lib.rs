//! The decision logic of a Discord quote bot: how a chat message becomes a
//! command, what each command answers, which database work it asks for, and
//! which status the bot shows next.
pub mod activity;
pub mod dialog;
pub mod laws;
pub mod message;
pub mod numbers;
pub mod random;
pub mod replies;
pub mod text;
