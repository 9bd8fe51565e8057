//! Steady-state data-transfer core of a user-space TCP connection: modular
//! sequence-number arithmetic, a retransmission-timeout estimator, the
//! receive window, the send window, and the connection object that composes
//! them.

pub mod connection;
pub mod fail;
pub mod receiver;
pub mod rto;
pub mod sender;
pub mod seq_num;
