//! Perforce (P4) toolkit: parsing of `p4` command output, command-line
//! construction and the decisions that pick workspace and branch roots.
use vstd::prelude::*;

pub mod changes;
pub mod command;
pub mod diagnostics;
pub mod encoding;
pub mod fstat;
pub mod metadata_io;
pub mod number;
pub mod p4;
pub mod partition;
pub mod queries;
pub mod self_update;
pub mod stream;
pub mod sync;
pub mod text;
pub mod workspace;

verus! {
} // verus!
