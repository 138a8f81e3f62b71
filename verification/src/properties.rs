//! The property model: a computed style is a table of one value per property.
//! Properties below `GEOMETRIC_PROPERTY_COUNT` affect geometry (layout); the
//! remaining ones only affect painting and are inherited from the parent
//! style when nothing declares them.

use vstd::prelude::*;

verus! {

/// Number of properties in the value table of a computed style.
pub const PROPERTY_COUNT: usize = 4;

/// Properties with index below this bound affect geometry; the rest are
/// visual-only and inherited.
pub const GEOMETRIC_PROPERTY_COUNT: usize = 2;

/// The value a property takes when nothing declares it and nothing is
/// inherited.
pub const INITIAL_VALUE: u64 = 0;

/// One declared property value, as handed over by the matching engine.
#[derive(Clone, Copy, PartialEq, Eq, Structural, Debug)]
pub struct Declaration {
    pub property: usize,
    pub value: u64,
}

pub open spec fn property_is_geometric(p: int) -> bool {
    0 <= p < GEOMETRIC_PROPERTY_COUNT
}

pub open spec fn property_is_inherited(p: int) -> bool {
    GEOMETRIC_PROPERTY_COUNT <= p < PROPERTY_COUNT
}

pub open spec fn valid_declaration(d: Declaration) -> bool {
    d.property < PROPERTY_COUNT
}

pub open spec fn valid_declarations(s: Seq<Declaration>) -> bool {
    forall|i: int| 0 <= i < s.len() ==> valid_declaration(#[trigger] s[i])
}

pub fn is_geometric(p: usize) -> (r: bool)
    ensures
        r == property_is_geometric(p as int),
{
    p < GEOMETRIC_PROPERTY_COUNT
}

pub fn is_inherited(p: usize) -> (r: bool)
    ensures
        r == property_is_inherited(p as int),
{
    GEOMETRIC_PROPERTY_COUNT <= p && p < PROPERTY_COUNT
}

} // verus!
