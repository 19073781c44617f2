//! Places in the source text.

use vstd::prelude::*;

verus! {

/// A line, counted from zero.
pub type Row = u32;

/// A column, counted in bytes from zero.
pub type Col = u16;

/// A stretch of source text, from its first column up to, and without, its last.
#[derive(Debug, Clone, Copy, PartialEq, Eq, Structural)]
pub struct Region {
    pub start_line: Row,
    pub end_line: Row,
    pub start_col: Col,
    pub end_col: Col,
}

impl Region {
    pub open spec fn spec_zero() -> Region {
        Region { start_line: 0, end_line: 0, start_col: 0, end_col: 0 }
    }

    /// The region that stands for no place in particular.
    #[verifier::when_used_as_spec(spec_zero)]
    pub fn zero() -> (region: Region)
        ensures
            region == Region::spec_zero(),
    {
        Region { start_line: 0, end_line: 0, start_col: 0, end_col: 0 }
    }
}

/// A value, and where in the source it stands.
#[derive(Debug, Clone, Copy, PartialEq)]
pub struct Located<T> {
    pub region: Region,
    pub value: T,
}

impl<T: View> View for Located<T> {
    type V = Located<T::V>;

    open spec fn view(&self) -> Located<T::V> {
        Located { region: self.region, value: self.value@ }
    }
}

} // verus!
