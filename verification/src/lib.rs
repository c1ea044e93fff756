//! A verified entity repository: typed CRUD over per-kind descriptors, plus
//! an attachment coordinator for record kinds that own a list of image rows.
//!
//! Each record kind supplies a descriptor — storage location, ordered column
//! list, identifier accessor, image extraction and record construction — and
//! the repository operations are written once against that capability set.
//! The statement synthesizer builds the parameterized statement text a
//! relational engine would execute from the same metadata; the store itself
//! is modelled as ordered rows under a never-repeating identifier counter,
//! and every operation's contract states its effect on that model exactly.
//!
//! Deleting a record does not cascade to the image rows it owns: the owned
//! identifiers are removed explicitly, through the bulk delete by
//! identifier list.

pub mod attach;
pub mod descriptors;
pub mod handles;
pub mod models;
pub mod pages;
pub mod query;
pub mod resource;
pub mod upload;
