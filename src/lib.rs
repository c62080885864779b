//! Loading of execution extensions that are compiled as dynamic libraries.
//!
//! The library decides which files of an extension directory are loadable
//! libraries and under which identifier, drives the loading protocol of a
//! single library as a state machine, and projects a host-side extension
//! context onto its type-erased mirror. It also answers queries on the
//! transactions of a block body.
pub mod discovery;
pub mod loader;
pub mod context;
pub mod body;
