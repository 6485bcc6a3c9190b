//! State and event core of a desktop file explorer.
//!
//! The crate owns the notion of the current directory, turns directory
//! listings into a typed and sortable entry model, and drives every state
//! transition of the explorer through a per-frame event pool. It performs
//! no input or output itself: a transition that needs the outside world
//! hands back an [`fe::action::Action`] for the shell to perform, and the
//! shell reports what happened as an [`fe::action::Outcome`].

pub mod cli;
pub mod commands;
pub mod config;
pub mod events;
pub mod fe;
pub mod path;
pub mod seqs;
pub mod text;
pub mod utils;
