//! Invalidation signals: classifying the difference between a slot's
//! previous computed style and its newly produced one.

use vstd::prelude::*;

use crate::cascade::ComputedStyle;
use crate::properties::{GEOMETRIC_PROPERTY_COUNT, PROPERTY_COUNT};

verus! {

/// How much rendering work a style change requires.
#[derive(Clone, Copy, PartialEq, Eq, Structural, Debug)]
pub enum Damage {
    /// No declared property's resolved value changed.
    NoChange,
    /// Only visual properties changed; repainting suffices.
    Repaint,
    /// A geometry-affecting property changed; layout must run again.
    Reflow,
}

/// All geometry-affecting properties agree between the two styles.
pub open spec fn geometry_unchanged(old_style: Seq<u64>, new_style: Seq<u64>) -> bool {
    forall|p: int| 0 <= p < GEOMETRIC_PROPERTY_COUNT ==> old_style[p] == new_style[p]
}

/// The invalidation signal for replacing `old_style` by `new_style`.
pub open spec fn diff_spec(old_style: Seq<u64>, new_style: Seq<u64>) -> Damage {
    if old_style == new_style {
        Damage::NoChange
    } else if geometry_unchanged(old_style, new_style) {
        Damage::Repaint
    } else {
        Damage::Reflow
    }
}

/// Classify the difference between the previous and the new computed style.
pub fn compute_damage(old_style: &ComputedStyle, new_style: &ComputedStyle) -> (d: Damage)
    requires
        old_style.wf(),
        new_style.wf(),
    ensures
        d == diff_spec(old_style@, new_style@),
{
    let mut all_equal = true;
    let mut geom_equal = true;
    let mut p: usize = 0;
    while p < PROPERTY_COUNT
        invariant
            p <= PROPERTY_COUNT,
            old_style.wf(),
            new_style.wf(),
            all_equal == (forall|q: int| 0 <= q < p ==> old_style@[q] == new_style@[q]),
            geom_equal == (forall|q: int|
                0 <= q < p && q < GEOMETRIC_PROPERTY_COUNT ==> old_style@[q] == new_style@[q]),
        decreases PROPERTY_COUNT - p,
    {
        if old_style.value(p) != new_style.value(p) {
            all_equal = false;
            if p < GEOMETRIC_PROPERTY_COUNT {
                geom_equal = false;
            }
        }
        p += 1;
    }
    if all_equal {
        proof {
            assert(old_style@ =~= new_style@);
        }
        Damage::NoChange
    } else if geom_equal {
        Damage::Repaint
    } else {
        Damage::Reflow
    }
}

/// Changing only non-geometric properties between two styles yields a
/// repaint-class signal, never a reflow-class one; changing a
/// geometry-affecting property yields a reflow-class signal.
pub proof fn lemma_damage_classification(old_style: Seq<u64>, new_style: Seq<u64>)
    ensures
        old_style == new_style ==> diff_spec(old_style, new_style) == Damage::NoChange,
        old_style != new_style && geometry_unchanged(old_style, new_style) ==> diff_spec(
            old_style,
            new_style,
        ) == Damage::Repaint,
        !geometry_unchanged(old_style, new_style) ==> diff_spec(old_style, new_style)
            == Damage::Reflow,
{
}

} // verus!
