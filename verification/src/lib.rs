//! A session engine for two-player chess games: matchmaking, the move
//! pipeline, resignation and a board cache over an in-memory model of the
//! durable records. Every operation carries a contract over that model.

pub mod model;
pub mod oracle;
pub mod cache;
pub mod pipeline;
pub mod engine;
pub mod laws;
