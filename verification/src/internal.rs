//! Types used to assemble machines from a declarative description.

pub use crate::builder::FsmBuilder;
