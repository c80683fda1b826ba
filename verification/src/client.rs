//! The client side of a session: what it receives and puts in order.

pub mod auth;
pub mod keepalive;
pub mod parse;
pub mod receiver;
pub mod reorder;
pub mod reorder_laws;
pub mod rtp;
pub mod session;
pub mod stream;
pub mod timeline;
