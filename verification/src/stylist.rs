//! The rule index: for every node it holds the ordered declarations that the
//! selector-matching engine found applicable in each pseudo-context.
//! Selector evaluation itself is an external collaborator; its per-node
//! outcome is the content of this table, and this module only hands lists
//! out in match order, merging the inline style override at the end of the
//! own-context list.

use vstd::prelude::*;

use crate::properties::{Declaration, valid_declarations};

verus! {

/// Which generated-content context a match or cascade step addresses.
#[derive(Clone, Copy, PartialEq, Eq, Structural, Debug)]
pub enum PseudoElement {
    Before,
    After,
}

pub struct Stylist {
    own_rules: Vec<Vec<Declaration>>,
    before_rules: Vec<Vec<Declaration>>,
    after_rules: Vec<Vec<Declaration>>,
}

/// The inline style override as an optional declaration sequence.
pub open spec fn inline_view(o: Option<&Vec<Declaration>>) -> Option<Seq<Declaration>> {
    match o {
        Some(v) => Some(v@),
        None => None,
    }
}

impl Stylist {
    pub closed spec fn node_count_spec(&self) -> int {
        self.own_rules@.len() as int
    }

    pub closed spec fn own_spec(&self, i: int) -> Seq<Declaration> {
        self.own_rules@[i]@
    }

    pub closed spec fn before_spec(&self, i: int) -> Seq<Declaration> {
        self.before_rules@[i]@
    }

    pub closed spec fn after_spec(&self, i: int) -> Seq<Declaration> {
        self.after_rules@[i]@
    }

    pub closed spec fn repr_wf(&self) -> bool {
        &&& self.before_rules@.len() == self.own_rules@.len()
        &&& self.after_rules@.len() == self.own_rules@.len()
    }

    pub open spec fn wf(&self) -> bool {
        &&& self.repr_wf()
        &&& forall|i: int|
            0 <= i < self.node_count_spec() ==> {
                &&& valid_declarations(#[trigger] self.own_spec(i))
                &&& valid_declarations(self.before_spec(i))
                &&& valid_declarations(self.after_spec(i))
            }
    }

    /// The ordered declarations the matching engine reports applicable to
    /// `node` in the given pseudo-context; for the own context the node's
    /// inline style override is merged at the end, i.e. at highest priority.
    pub open spec fn matched_spec(
        &self,
        node: int,
        inline: Option<Seq<Declaration>>,
        pseudo: Option<PseudoElement>,
    ) -> Seq<Declaration> {
        match pseudo {
            None => self.own_spec(node) + match inline {
                Some(s) => s,
                None => Seq::empty(),
            },
            Some(PseudoElement::Before) => self.before_spec(node),
            Some(PseudoElement::After) => self.after_spec(node),
        }
    }

    pub fn new() -> (s: Self)
        ensures
            s.wf(),
            s.node_count_spec() == 0,
    {
        Stylist { own_rules: Vec::new(), before_rules: Vec::new(), after_rules: Vec::new() }
    }

    pub fn node_count(&self) -> (n: usize)
        ensures
            n == self.node_count_spec(),
    {
        self.own_rules.len()
    }

    /// Record the matching engine's output for the next node: one ordered
    /// list per pseudo-context.
    pub fn push_node_rules(
        &mut self,
        own: Vec<Declaration>,
        before: Vec<Declaration>,
        after: Vec<Declaration>,
    )
        requires
            old(self).wf(),
            old(self).node_count_spec() < usize::MAX,
            valid_declarations(own@),
            valid_declarations(before@),
            valid_declarations(after@),
        ensures
            final(self).wf(),
            final(self).node_count_spec() == old(self).node_count_spec() + 1,
            final(self).own_spec(old(self).node_count_spec()) == own@,
            final(self).before_spec(old(self).node_count_spec()) == before@,
            final(self).after_spec(old(self).node_count_spec()) == after@,
            forall|i: int|
                0 <= i < old(self).node_count_spec() ==> {
                    &&& final(self).own_spec(i) == #[trigger] old(self).own_spec(i)
                    &&& final(self).before_spec(i) == old(self).before_spec(i)
                    &&& final(self).after_spec(i) == old(self).after_spec(i)
                },
    {
        self.own_rules.push(own);
        self.before_rules.push(before);
        self.after_rules.push(after);
        proof {
            assert forall|i: int| 0 <= i < final(self).node_count_spec() implies {
                &&& valid_declarations(#[trigger] final(self).own_spec(i))
                &&& valid_declarations(final(self).before_spec(i))
                &&& valid_declarations(final(self).after_spec(i))
            } by {
                if i < old(self).node_count_spec() {
                    assert(valid_declarations(old(self).own_spec(i)));
                }
            }
        }
    }

    /// Append the applicable declarations for `node` in the given
    /// pseudo-context, in match order. Mirrors the matching engine's
    /// interface: the caller passes the inline style override only for the
    /// own context.
    pub fn push_applicable_declarations(
        &self,
        node: usize,
        style_attribute: Option<&Vec<Declaration>>,
        pseudo: Option<PseudoElement>,
        applicable_declarations: &mut Vec<Declaration>,
    )
        requires
            self.wf(),
            node < self.node_count_spec(),
        ensures
            final(applicable_declarations)@ == old(applicable_declarations)@ + self.matched_spec(
                node as int,
                inline_view(style_attribute),
                pseudo,
            ),
    {
        match pseudo {
            None => {
                append_declarations(applicable_declarations, &self.own_rules[node]);
                match style_attribute {
                    Some(v) => {
                        append_declarations(applicable_declarations, v);
                    },
                    None => {
                        proof {
                            assert(old(applicable_declarations)@ + (self.own_spec(node as int)
                                + Seq::<Declaration>::empty()) =~= old(applicable_declarations)@
                                + self.own_spec(node as int));
                        }
                    },
                }
            },
            Some(PseudoElement::Before) => {
                append_declarations(applicable_declarations, &self.before_rules[node]);
            },
            Some(PseudoElement::After) => {
                append_declarations(applicable_declarations, &self.after_rules[node]);
            },
        }
    }
}

/// Append `src` to `dst`, keeping order.
pub fn append_declarations(dst: &mut Vec<Declaration>, src: &Vec<Declaration>)
    ensures
        final(dst)@ == old(dst)@ + src@,
{
    let mut i: usize = 0;
    while i < src.len()
        invariant
            i <= src.len(),
            dst@ =~= old(dst)@ + src@.take(i as int),
        decreases src.len() - i,
    {
        dst.push(src[i]);
        proof {
            assert(old(dst)@ + src@.take(i as int) + seq![src@[i as int]] =~= old(dst)@
                + src@.take(i + 1));
        }
        i += 1;
    }
    proof {
        assert(old(dst)@ + src@.take(src@.len() as int) =~= old(dst)@ + src@);
    }
}

} // verus!
