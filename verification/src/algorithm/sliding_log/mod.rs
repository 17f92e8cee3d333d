//! The sliding-log algorithm: every admitted or refused request is logged
//! with its time, and a request counts the requests of the last window.
pub mod implementation;
pub mod storage;
