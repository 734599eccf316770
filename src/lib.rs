//! A bridge between a chat bot and game-server plugins: framed events over
//! TCP, the session logic for one connection, and the registry of peers.
pub mod config;
pub mod consumer;
pub mod event;
pub mod frame;
pub mod registry;
pub mod session;
