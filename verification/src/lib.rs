//! Access to an HTTP-based crate registry.
//!
//! See [`registry::HttpRegistry`] for details.
#![allow(unused_imports)]

pub mod downloads;
pub mod header;
pub mod laws;
pub mod load;
pub mod login;
pub mod outcomes;
pub mod path;
pub mod path_map;
pub mod registry;
pub mod response;
pub mod text;
pub mod version;
pub mod wait;
