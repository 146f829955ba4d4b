//! A spot-exchange core: order books with price-time matching, user balance
//! accounting, request routing between the engine's tasks, and the decisions
//! of the HTTP front end, the database writer and the depth broadcaster.

pub mod amount;
pub mod text;
pub mod ids;
pub mod strmap;
pub mod types;
pub mod book;
pub mod matching;
pub mod match_laws;
pub mod delete;
pub mod messages;
pub mod market;
pub mod balance;
pub mod services;
pub mod api;
pub mod ws;
pub mod poller;
