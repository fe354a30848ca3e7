//! OPDS 1.2 catalog building for an OpenList file server: path and URL helpers,
//! feed construction and Atom XML serialisation, with their contracts proved.

pub mod clock;
pub mod config;
pub mod error;
pub mod handlers;
pub mod opds;
pub mod openlist;
pub mod text;
pub mod laws;
