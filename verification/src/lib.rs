//! The verified cores of two small TCP services.
//!
//! The first speaks a fixed-width binary protocol: clients record
//! timestamped prices and ask for the mean price over a range of
//! timestamps, each connection with a store of its own. [`frame`] is its
//! wire format, [`prices`] the store and the query, [`session`] the state
//! machine of one connection.
//!
//! The second answers, line by line, whether a number is prime: [`prime`].
//!
//! Sockets, tasks and logging are the caller's business. Every function
//! here works on values that are already in memory.

pub mod frame;
pub mod prices;
pub mod prime;
pub mod session;
