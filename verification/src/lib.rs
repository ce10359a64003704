//! A small ticket store front-end that can sit on either of two relational
//! database engines.
//!
//! The library holds everything that can be stated and proved: classifying a
//! connection string into a backend variant, the SQL text each variant needs,
//! an abstract model of the `ticket` table that the four logical operations
//! (ensure schema, insert returning id, select raw, select typed) act on, the
//! rendering of query results, and the options record with its
//! config-file override pipeline and its text codecs.
//!
//! Opening connection pools, running the SQL and reading files are I/O and
//! live in the surrounding binary, which hands plain values in and out.

pub mod backend;
pub mod digits;
pub mod options;
pub mod scan;
pub mod ticket;
