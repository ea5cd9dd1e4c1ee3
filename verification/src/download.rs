//! Fetching one remote artifact: when a transfer is needed, how often it is
//! tried again, and what is checked afterwards.

pub mod compare;
pub mod digest;
pub mod fetch;
