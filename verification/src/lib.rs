//! A verified client layer for a game-statistics chat bot.
//!
//! The crate covers the pieces of the bot that talk to the remote ladder
//! platform: the two semi-structured response parsers (a two-line CSV reply
//! and an HTML match table with nested anchors), a relative-time parser, the
//! TTL caches behind the client facade, and the session win/loss tally.
//! Network transport itself stays outside the library; callers fetch the
//! documented URLs and hand the bodies to the facade.

pub mod cache;
pub mod clock;
pub mod csv;
pub mod data;
pub mod markup;
pub mod phrase;
pub mod score;
pub mod text;
pub mod util;
pub mod voobly;
