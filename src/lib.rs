//! A small cooperative task runtime: a sweep executor, an inert notification
//! handle, a deadline timer, the write and read state machines that share one
//! connection, and the fixed-layout record codec carried over that connection.
pub mod data;
pub mod runtime;
pub mod client;
