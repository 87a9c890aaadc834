//! News aggregation and report rendering for a chat bot that is steered by
//! emoji reactions.

pub mod bot;
pub mod bot_message_type;
pub mod clock;
pub mod commands;
pub mod config;
pub mod error;
pub mod idmap;
pub mod message_event;
pub mod mxc;
pub mod names;
pub mod news;
pub mod news_store;
pub mod project;
pub mod reaction_type;
pub mod render;
pub mod section;
pub mod seqs;
pub mod text;
pub mod utils;
