//! The decision core of an intercepting HTTP/HTTPS proxy.

pub mod address;
pub mod ascii;
pub mod certificate;
pub mod connection;
pub mod error;
pub mod handler;
pub mod message;
pub mod pipeline;
pub mod proxy;
pub mod supervisor;
pub mod target;
pub mod tunnel;
pub mod websocket;
