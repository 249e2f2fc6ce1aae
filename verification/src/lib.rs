//! A bridge between a publish/subscribe broker and a relational store.
//!
//! Every inbound message carries a '/'-delimited topic and a raw payload.
//! The library decides, from the topic's final segment, whether the payload
//! is a power reading to be stored or an ordinary message to be logged, and
//! builds the exact log line for the latter. Connecting to the broker and
//! the store, parsing the reading and performing the write or the print are
//! left to the surrounding program.

mod clock;
pub mod config;
pub mod decode;
pub mod dispatch;
pub mod laws;
pub mod route;
