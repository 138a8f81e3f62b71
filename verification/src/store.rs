//! The per-node style store: the three applicable-declaration lists, the
//! three optional computed styles, and the per-slot invalidation signals.

use vstd::prelude::*;

use crate::cascade::ComputedStyle;
use crate::damage::Damage;
use crate::properties::{Declaration, valid_declarations};

verus! {

/// One node's style record. Created empty when the node is first visited;
/// repopulated in place on every later pass over the same node.
pub struct StyleStore {
    /// Ordered declarations matched for the node's own context.
    pub applicable_declarations: Vec<Declaration>,
    /// Ordered declarations matched for the generated-before context.
    pub before_applicable_declarations: Vec<Declaration>,
    /// Ordered declarations matched for the generated-after context.
    pub after_applicable_declarations: Vec<Declaration>,
    /// The node's own computed style; absent before the node has been visited.
    pub style: Option<ComputedStyle>,
    /// Computed style of the generated-before pseudo-element, if it exists.
    pub before_style: Option<ComputedStyle>,
    /// Computed style of the generated-after pseudo-element, if it exists.
    pub after_style: Option<ComputedStyle>,
    /// Signal for the own slot; absent until two cascades have occurred.
    pub restyle_damage: Option<Damage>,
    /// Signal for the generated-before slot.
    pub before_damage: Option<Damage>,
    /// Signal for the generated-after slot.
    pub after_damage: Option<Damage>,
}

pub open spec fn opt_style_wf(o: Option<ComputedStyle>) -> bool {
    match o {
        Some(s) => s.wf(),
        None => true,
    }
}

/// The optional style's value table, for contracts: two stores that agree on
/// it hold observably equal styles.
pub open spec fn opt_view(o: Option<ComputedStyle>) -> Option<Seq<u64>> {
    match o {
        Some(s) => Some(s@),
        None => None,
    }
}

impl StyleStore {
    pub open spec fn wf(&self) -> bool {
        &&& valid_declarations(self.applicable_declarations@)
        &&& valid_declarations(self.before_applicable_declarations@)
        &&& valid_declarations(self.after_applicable_declarations@)
        &&& opt_style_wf(self.style)
        &&& opt_style_wf(self.before_style)
        &&& opt_style_wf(self.after_style)
    }

    /// A store as first created: no lists, no styles, no signals.
    pub open spec fn fresh(&self) -> bool {
        &&& self.applicable_declarations@.len() == 0
        &&& self.before_applicable_declarations@.len() == 0
        &&& self.after_applicable_declarations@.len() == 0
        &&& self.style is None
        &&& self.before_style is None
        &&& self.after_style is None
        &&& self.restyle_damage is None
        &&& self.before_damage is None
        &&& self.after_damage is None
    }

    pub fn new() -> (s: Self)
        ensures
            s.fresh(),
            s.wf(),
    {
        StyleStore {
            applicable_declarations: Vec::new(),
            before_applicable_declarations: Vec::new(),
            after_applicable_declarations: Vec::new(),
            style: None,
            before_style: None,
            after_style: None,
            restyle_damage: None,
            before_damage: None,
            after_damage: None,
        }
    }
}

} // verus!
