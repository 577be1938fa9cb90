//! Index of a network interface.

use vstd::prelude::*;

use crate::decimal::{decimal_text, push_decimal};

verus! {

/// The index under which the kernel knows a network interface.
#[derive(Debug, Clone, Copy, PartialEq, Eq, PartialOrd, Ord, Structural)]
pub struct InterfaceIndex(pub u16);

impl From<InterfaceIndex> for u16 {
    fn from(index: InterfaceIndex) -> (r: u16)
        ensures
            r == index.0,
    {
        index.0
    }
}

impl vstd::std_specs::convert::FromSpecImpl<InterfaceIndex> for u16 {
    open spec fn obeys_from_spec() -> bool {
        true
    }

    open spec fn from_spec(index: InterfaceIndex) -> u16 {
        index.0
    }
}

impl InterfaceIndex {
    /// The index in decimal.
    pub fn to_string(&self) -> (r: String)
        ensures
            r@ == decimal_text(self.0 as nat),
    {
        let mut s = String::new();
        push_decimal(&mut s, self.0 as u64);
        s
    }
}

} // verus!
