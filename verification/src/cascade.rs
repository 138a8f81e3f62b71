//! The cascade: merging an ordered declaration list with an optional
//! inherited parent style into one immutable computed style.

use vstd::prelude::*;

use crate::properties::{
    Declaration, INITIAL_VALUE, PROPERTY_COUNT, is_inherited, property_is_inherited,
    valid_declarations,
};

verus! {

/// Final, immutable resolved style for one node or pseudo-context: one value
/// per property. Once produced it is never mutated; a changed style is a new
/// `ComputedStyle` value.
pub struct ComputedStyle {
    values: Vec<u64>,
}

impl View for ComputedStyle {
    type V = Seq<u64>;

    closed spec fn view(&self) -> Seq<u64> {
        self.values@
    }
}

impl ComputedStyle {
    pub open spec fn wf(&self) -> bool {
        self@.len() == PROPERTY_COUNT
    }

    pub fn value(&self, p: usize) -> (v: u64)
        requires
            self.wf(),
            p < PROPERTY_COUNT,
        ensures
            v == self@[p as int],
    {
        self.values[p]
    }
}

impl Clone for ComputedStyle {
    fn clone(&self) -> (r: Self)
        ensures
            r@ == self@,
    {
        let mut values: Vec<u64> = Vec::new();
        let mut i: usize = 0;
        while i < self.values.len()
            invariant
                i <= self.values.len(),
                values@ =~= self.values@.take(i as int),
            decreases self.values.len() - i,
        {
            values.push(self.values[i]);
            i += 1;
        }
        proof {
            assert(self.values@.take(self.values@.len() as int) =~= self.values@);
        }
        ComputedStyle { values }
    }
}

/// The parent style as an optional value table, for contracts.
pub open spec fn style_view(parent: Option<&ComputedStyle>) -> Option<Seq<u64>> {
    match parent {
        Some(p) => Some(p@),
        None => None,
    }
}

pub open spec fn option_style_wf(parent: Option<&ComputedStyle>) -> bool {
    match parent {
        Some(p) => p.wf(),
        None => true,
    }
}

/// The value property `p` takes before any declaration applies: inherited
/// from the parent style where the property inherits, initial otherwise.
pub open spec fn inherited_base(parent: Option<Seq<u64>>, p: int) -> u64 {
    if property_is_inherited(p) && parent is Some {
        parent.unwrap()[p]
    } else {
        INITIAL_VALUE
    }
}

/// The value the last declaration for property `p` carries, if any; later
/// entries in the list override earlier ones.
pub open spec fn declared_value(decls: Seq<Declaration>, p: int) -> Option<u64>
    decreases decls.len(),
{
    if decls.len() == 0 {
        None
    } else if decls.last().property == p {
        Some(decls.last().value)
    } else {
        declared_value(decls.drop_last(), p)
    }
}

pub open spec fn cascaded_value(decls: Seq<Declaration>, parent: Option<Seq<u64>>, p: int) -> u64 {
    match declared_value(decls, p) {
        Some(v) => v,
        None => inherited_base(parent, p),
    }
}

/// What cascading an ordered declaration list against an optional parent
/// style produces, property by property.
pub open spec fn cascade_spec(decls: Seq<Declaration>, parent: Option<Seq<u64>>) -> Seq<u64> {
    Seq::new(PROPERTY_COUNT as nat, |p: int| cascaded_value(decls, parent, p))
}

pub proof fn lemma_declared_value_push(decls: Seq<Declaration>, d: Declaration, p: int)
    ensures
        declared_value(decls.push(d), p) == if d.property == p {
            Some(d.value)
        } else {
            declared_value(decls, p)
        },
{
    assert(decls.push(d).last() == d);
    assert(decls.push(d).drop_last() =~= decls);
}

/// Merge an ordered declaration list with an optional inherited parent style
/// into a concrete computed style. Order is significant: a later declaration
/// for the same property wins.
pub fn cascade(declarations: &Vec<Declaration>, parent: Option<&ComputedStyle>) -> (r: ComputedStyle)
    requires
        valid_declarations(declarations@),
        option_style_wf(parent),
    ensures
        r.wf(),
        r@ == cascade_spec(declarations@, style_view(parent)),
{
    let ghost pv = style_view(parent);
    let mut values: Vec<u64> = Vec::new();
    let mut p: usize = 0;
    while p < PROPERTY_COUNT
        invariant
            p <= PROPERTY_COUNT,
            values@.len() == p,
            option_style_wf(parent),
            pv == style_view(parent),
            forall|q: int| 0 <= q < p ==> values@[q] == inherited_base(pv, q),
        decreases PROPERTY_COUNT - p,
    {
        let base = match parent {
            Some(ps) => {
                if is_inherited(p) {
                    ps.value(p)
                } else {
                    INITIAL_VALUE
                }
            },
            None => INITIAL_VALUE,
        };
        values.push(base);
        p += 1;
    }
    let mut i: usize = 0;
    while i < declarations.len()
        invariant
            i <= declarations.len(),
            valid_declarations(declarations@),
            values@.len() == PROPERTY_COUNT,
            forall|q: int| 0 <= q < PROPERTY_COUNT ==> values@[q] == cascaded_value(
                declarations@.take(i as int),
                pv,
                q,
            ),
        decreases declarations.len() - i,
    {
        let d = declarations[i];
        values.set(d.property, d.value);
        proof {
            assert(declarations@.take(i + 1) =~= declarations@.take(i as int).push(
                declarations@[i as int],
            ));
            assert forall|q: int| 0 <= q < PROPERTY_COUNT implies values@[q] == cascaded_value(
                declarations@.take(i + 1),
                pv,
                q,
            ) by {
                lemma_declared_value_push(declarations@.take(i as int), declarations@[i as int], q);
            }
        }
        i += 1;
    }
    proof {
        assert(declarations@.take(declarations@.len() as int) =~= declarations@);
        assert(values@ =~= cascade_spec(declarations@, pv));
    }
    ComputedStyle { values }
}

} // verus!
