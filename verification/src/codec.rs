//! The byte format of the stored records.
//!
//! Integers are little-endian and of fixed width, a text is the length of
//! its UTF-8 form followed by that form, a list is its length followed by its
//! items, a choice is one byte. Every record starts with the format's version.
//!
//! This is the only encoding that is read. Memory in which another encoding
//! has left its records, Candid's for one, holds no store for this library:
//! `Store::open` hands out nothing over it.

pub mod wire;
pub mod choices;
pub mod parts;
pub mod lists;
pub mod records;
