//! A transparent traffic interceptor, as a library of verified decisions.
//!
//! The interceptor provisions a virtual network interface, routes the host's
//! traffic through it, decodes every captured frame and recognises HTTP
//! framing in its payload. Everything that decides or computes lives here,
//! with a contract; running commands, talking to the adapter driver and
//! installing handlers is left to the program that links this library.
//!
//! Beside the interceptor the crate holds four small utilities: an integer
//! expression evaluator, a line search, a query-string reader and a walker
//! of weather reports. The module `text` holds the algorithms on characters
//! that all of them share.

pub mod capture;
pub mod command;
pub mod expr;
pub mod frame;
pub mod grep;
pub mod guard;
pub mod query;
pub mod shutdown;
pub mod sniff;
pub mod text;
pub mod weather;
