//! The operating system family whose conventions a decision follows.
use vstd::prelude::*;

verus! {

/// Operating system family.
#[derive(PartialEq, Eq, Structural, Clone, Copy, Debug)]
pub enum Platform {
    Windows,
    MacOs,
    Other,
}

} // verus!
