//! A single-room chat broadcaster: admission control, a bounded message
//! history, a broadcast hub that fans payloads out to live channels, and the
//! use cases that compose them.

pub mod domain;
pub mod room;
pub mod ordering;
pub mod repository;
pub mod pusher;
pub mod time;
pub mod usecase;
pub mod laws;
pub mod dto;
pub mod formatter;
pub mod session;
pub mod client;
