//! The logic of two small command-line tools.
//!
//! One looks keys up in a profile: a TOML file with one section for each
//! host, in which the mappings of the host at hand stand in front of those of
//! the section `localhost`. The other prints the union of the lines of two
//! files, each line once and in ascending order.
//!
//! Reading files, the command line and the machine's own name are the
//! caller's business; what is decided and computed from them is here.

pub mod document;
pub mod lines;
pub mod locate;
pub mod order;
pub mod profile;
pub mod setunion;
