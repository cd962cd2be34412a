//! Core of a real-time multiplayer server: a line-delimited command protocol,
//! a tick-driven world simulation, a connection registry, and the bounded
//! queues that join them. All decision logic lives here; the network loops
//! around it only move bytes and events.

pub mod codec;
pub mod game;
pub mod message;
pub mod registry;
pub mod server;
