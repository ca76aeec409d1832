//! Supervision of a single worker process that decrypts media samples, and the
//! binary framing spoken with it and with clients.
//!
//! The crate holds every rule and every byte layout; sockets, pipes, processes,
//! clocks and the environment belong to the program around it.

pub mod batch;
pub mod bytes;
pub mod error;
pub mod json;
pub mod layout;
pub mod protocol;
pub mod reply;
pub mod settings;
pub mod stream;
pub mod supervision;
pub mod text;
pub mod worker;
