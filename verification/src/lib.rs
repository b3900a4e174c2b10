//! An embeddable bridge between a JavaScript engine's value world and a
//! host program: a plain-data model of engine values with scope-bound
//! handles, the classification and extraction vocabulary built on them, a
//! streaming writer protocol that walks a value graph out to the host, and
//! the state machine that routes a script run's outcome to exactly one of
//! the host's error and result callbacks.

pub mod value;
pub mod numbits;
pub mod writer;
pub mod emit;
pub mod nesting;
pub mod surface;
pub mod handles;
pub mod runner;
