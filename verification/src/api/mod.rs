pub mod agents;
pub mod dto;
pub mod credentials;
pub mod messages;
pub mod channels;
pub mod contacts;
pub mod auth;
