//! OPDS catalog documents: the data model, the feeds built from OpenList listings,
//! and their Atom XML form.

pub mod entry;
pub mod feed;
pub mod xml;
