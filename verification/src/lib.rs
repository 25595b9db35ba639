//! Resolution, fetching and caching of immutable build artifacts.
//!
//! The library covers the decision logic of three cooperating components: a
//! manifest client that parses a line-oriented build manifest into ordered
//! build descriptors and derives each build's canonical download URL; an
//! archive-extraction planner that strips the single leading path component
//! from every archive entry and refuses entries that would escape the
//! destination; and a cache-layer manager that decides, from persisted and
//! desired metadata, whether a cached directory is reused, rebuilt, or newly
//! populated. All network and filesystem work stays with the caller, which
//! hands this library plain text and paths and carries out the planned
//! actions.

pub mod bob;
pub mod error;
pub mod extract;
pub mod layer;
pub mod manifest;
pub mod resolve;
pub mod text;
