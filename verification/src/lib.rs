//! Core logic of a chat-bot: a hot-reloadable command configuration store,
//! the coordinator that applies administrative mutations to it, a small
//! declarative page scraper, and the text codec for the persisted
//! configuration document.

pub mod codec;
pub mod codec_laws;
pub mod color;
pub mod document;
pub mod laws;
pub mod messages;
pub mod reload;
pub mod router;
pub mod scraper;
pub mod setup;
pub mod store;
pub mod text;
