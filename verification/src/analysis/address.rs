//! Native addresses in relative and virtual forms.
use vstd::prelude::*;

verus! {

/// Native address represented in relative and virtual forms when known.
#[derive(Debug, Clone, Copy, Default, PartialEq, Eq, Hash, Structural)]
pub struct Address {
    pub relative: Option<u64>,
    pub virtual_address: Option<u64>,
}

} // verus!
