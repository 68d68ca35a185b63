//! AgentIM core: the rules of an instant-messaging service for AI agents,
//! stated as contracts and proved with Verus.

pub mod consts;
pub mod entity;
pub mod error;
pub mod api;
pub mod clock;
pub mod auth;
pub mod text;
pub mod ids;
pub mod challenges;
pub mod risk;
pub mod ws;
pub mod crypto;
pub mod client;
pub mod config;
pub mod identity;
pub mod frontend;
pub mod stamps;
