//! Zero-copy buffer views over plain records.
//!
//! A record definition (a struct with its attributes and fields) is turned into
//! an overlay type: the record and a byte array of the record's size laid over
//! one storage, with a getter and a setter for every field. The work is done in
//! four steps, each in a module of its own:
//!
//! - `config` resolves the record's attributes into the name of the generated
//!   type and the byte order of its integer fields;
//! - `classify` tells the fields that take part in byte-order conversion from
//!   those that pass through;
//! - `accessor` synthesizes the getter and the setter of each field;
//! - `generate` assembles the overlay, or says why there is none.
//!
//! `buffer` holds the instances of an overlay: a byte buffer read and written in
//! place, field by field, with `layout` saying where each field lies and `codec`
//! how an integer is stored in either byte order. `schema` is the form in which
//! a definition arrives.

pub mod accessor;
pub mod buffer;
pub mod classify;
pub mod codec;
pub mod config;
pub mod generate;
pub mod layout;
pub mod schema;
pub mod text;

pub use crate::generate::no_copy;
