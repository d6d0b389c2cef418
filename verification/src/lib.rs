//! The services of an education platform, each over durable stores of its
//! own: a token ledger, a course catalog, students' records and peer notes.
//!
//! The ledger is the core. It mints, transfers and rewards a fungible
//! balance, refuses what an account cannot pay, and logs every change of a
//! balance as one record that is never changed afterwards. Its rules are
//! stated over a mathematical view of the ledger in [`ledger`], proved of the
//! code there, and drawn out into theorems in [`laws`].
//!
//! Every service keeps its records in stable B-tree maps ([`store`]), packed
//! into byte strings ([`wire`], [`fields`], [`table`]). What the maps do is
//! assumed; what the services do with them is proved.
//!
//! The caller's identity and the time of an operation come from whoever runs
//! a service and are arguments of each operation.

pub mod account;
pub mod course;
pub mod fields;
pub mod ident;
pub mod laws;
pub mod ledger;
pub mod operations;
pub mod peer;
pub mod record;
pub mod store;
pub mod student;
pub mod table;
pub mod wire;
