//! An ephemeral, bounded, in-memory paste store.
//!
//! Clients submit byte payloads and receive a short identifier; the payload
//! can later be retrieved by that identifier until capacity pressure evicts
//! it. The store keeps entries in insertion order and evicts the oldest
//! entries first, so that after every insert the number of resident entries
//! stays within the capacity fixed at construction.

pub mod errors;
pub mod highlight;
pub mod io;
pub mod params;
pub mod text;
pub mod store;
