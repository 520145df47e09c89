//! Ingestion, ordering and archival core of a permanent node for a
//! DAG-structured ledger.
//!
//! The crate holds the decisions of three cooperating components and leaves
//! every effect (files, mailboxes, the key-value store) to its caller. Each
//! component takes one event at a time and returns the list of things that
//! its caller has to do.
//!
//! * [`collector::Collector`] de-duplicates messages, keeps the message
//!   cache and the metadata cache coherent, answers the solidifiers, and fans
//!   writes out to the store ([`fanout`], [`store`]).
//! * [`solidifier::Solidifier`] assembles the messages that a milestone
//!   references and hands the complete bundle on.
//! * [`archiver::Archiver`] turns ordered milestone bundles into actions on
//!   rotating, append-only log files ([`log_file`]).
//!
//! [`select`] holds the read side of the store, [`lifecycle`] how the
//! components start, and [`config`] where the configuration file lies.
//!
//! Each component has a mathematical model (`*_model`, or the first half of
//! [`archiver`]) that says what an event leads to, and a set of laws
//! (`*_laws`) that hold of the model whatever the sequence of events.
pub mod seq_util;
pub mod ids;
pub mod message;
pub mod milestone;
pub mod partition;
pub mod keyspace;
pub mod effect;
pub mod store;
pub mod cache;
pub mod cache_laws;
pub mod collector_model;
pub mod collector_laws;
pub mod collector;
pub mod fanout;
pub mod solidifier_model;
pub mod solidifier_laws;
pub mod solidifier;
pub mod log_file;
pub mod archiver;
pub mod archiver_laws;
pub mod select;
pub mod lifecycle;
pub mod config;
