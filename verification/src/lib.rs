//! The decisions of a QUIC client: which requests to make, what to do with
//! what comes back, and when to stop.

pub mod args;
pub mod effect;
pub mod error;
pub mod event_loop;
pub mod files;
pub mod headers;
pub mod http09;
pub mod http09_laws;
pub mod http09_runner;
pub mod http09_steps;
pub mod http3;
pub mod http3_laws;
pub mod http3_runner;
pub mod http3_steps;
pub mod key_update;
pub mod lines;
pub mod lines_laws;
pub mod path;
pub mod path_laws;
pub mod quic;
pub mod requests;
pub mod session;
pub mod setup;
pub mod setup_laws;
pub mod stream;
pub mod stream_laws;
pub mod text;
pub mod text_laws;
pub mod urls;
