//! An in-memory filesystem index with a fuzzy-search evaluator over it, and a
//! small tag store kept in a relational database.
//!
//! The index maps a volume identifier to the filenames known on that volume,
//! each with the list of paths where the name occurs.  A query scores every
//! candidate name of one volume against the query text, discards candidates
//! that a filter or the score threshold rejects, and returns the survivors
//! ordered best match first.

pub mod database;
pub mod errors;
pub mod index;
pub mod laws;
pub mod score;
pub mod search;
pub mod text;
