//! A first-write-wins timestamping service: each public key may record one
//! label, stamped with the applying node's clock, in a store that readers
//! see through snapshots and the block applier changes through a fork.

pub mod api;
pub mod parse;
pub mod schema;
pub mod service;
pub mod store;
pub mod transactions;
