//! The resolution pass: per node, rebuild the applicable-declaration lists
//! from the rule index, cascade the three style slots in the fixed order
//! generated-before, own, generated-after, and classify the change against
//! the previously stored style. The walker visits parents before children,
//! so a child's cascade always reads an already-published parent style.

use vstd::prelude::*;

use crate::cascade::{
    ComputedStyle, cascade, cascade_spec, cascaded_value, declared_value, option_style_wf,
    style_view,
};
use crate::damage::{Damage, compute_damage, diff_spec};
use crate::properties::{Declaration, property_is_inherited};
use crate::store::{StyleStore, opt_view};
use crate::stylist::{PseudoElement, Stylist, inline_view};
use crate::tree::DocumentTree;

verus! {

/// A document tree together with one style store per node.
pub struct StyledDocument {
    tree: DocumentTree,
    stores: Vec<StyleStore>,
}

/// The declarations the own slot of node `i` must hold after matching:
/// the matched own-context rules with the inline override merged at the
/// end, or nothing for a non-element node.
pub open spec fn own_decls_spec(tree: DocumentTree, stylist: Stylist, i: int) -> Seq<Declaration> {
    if tree.node_spec(i).is_element {
        stylist.matched_spec(i, tree.inline_spec(i), None)
    } else {
        Seq::empty()
    }
}

pub open spec fn before_decls_spec(tree: DocumentTree, stylist: Stylist, i: int) -> Seq<
    Declaration,
> {
    if tree.node_spec(i).is_element {
        stylist.matched_spec(i, None, Some(PseudoElement::Before))
    } else {
        Seq::empty()
    }
}

pub open spec fn after_decls_spec(tree: DocumentTree, stylist: Stylist, i: int) -> Seq<
    Declaration,
> {
    if tree.node_spec(i).is_element {
        stylist.matched_spec(i, None, Some(PseudoElement::After))
    } else {
        Seq::empty()
    }
}

/// The own computed style a pass produces for node `i` when the subtree
/// rooted at `root` is resolved against the published parent style `base`.
pub open spec fn style_of_from(
    tree: DocumentTree,
    stylist: Stylist,
    base: Option<Seq<u64>>,
    root: int,
    i: int,
) -> Seq<u64>
    decreases i,
{
    if i == root {
        cascade_spec(own_decls_spec(tree, stylist, i), base)
    } else if 0 < i && 0 <= tree.parent_spec(i) < i {
        cascade_spec(
            own_decls_spec(tree, stylist, i),
            Some(style_of_from(tree, stylist, base, root, tree.parent_spec(i))),
        )
    } else {
        cascade_spec(own_decls_spec(tree, stylist, i), None)
    }
}

/// The inherited-value source node `i` uses in such a pass: `base` for the
/// subtree's root, the parent's own style otherwise.
pub open spec fn parent_style_in(
    tree: DocumentTree,
    stylist: Stylist,
    base: Option<Seq<u64>>,
    root: int,
    i: int,
) -> Option<Seq<u64>> {
    if i == root {
        base
    } else if 0 < i && 0 <= tree.parent_spec(i) < i {
        Some(style_of_from(tree, stylist, base, root, tree.parent_spec(i)))
    } else {
        None
    }
}

/// The own computed style of node `i` after a full resolution from the root.
pub open spec fn style_of(tree: DocumentTree, stylist: Stylist, i: int) -> Seq<u64> {
    style_of_from(tree, stylist, None, 0, i)
}

pub proof fn lemma_style_of_from_unfold(
    tree: DocumentTree,
    stylist: Stylist,
    base: Option<Seq<u64>>,
    root: int,
    i: int,
)
    ensures
        style_of_from(tree, stylist, base, root, i) == cascade_spec(
            own_decls_spec(tree, stylist, i),
            parent_style_in(tree, stylist, base, root, i),
        ),
{
}

/// What one pass, resolving against parent style `ps`, does to one node's
/// store: the lists are rebuilt from the rule index, each slot's style is
/// the cascade of its list, and each slot that cascades over a previously
/// stored style records the classified difference. A generated-content slot
/// whose list is empty is not cascaded: the pseudo-element does not exist
/// for this node, so the slot's style and signal are cleared.
pub open spec fn store_resolved(
    tree: DocumentTree,
    stylist: Stylist,
    ps: Option<Seq<u64>>,
    old_store: StyleStore,
    new_store: StyleStore,
    i: int,
) -> bool {
    let own_d = own_decls_spec(tree, stylist, i);
    let before_d = before_decls_spec(tree, stylist, i);
    let after_d = after_decls_spec(tree, stylist, i);
    &&& new_store.applicable_declarations@ == own_d
    &&& new_store.before_applicable_declarations@ == before_d
    &&& new_store.after_applicable_declarations@ == after_d
    &&& new_store.style is Some
    &&& new_store.style.unwrap()@ == cascade_spec(own_d, ps)
    &&& new_store.restyle_damage == match opt_view(old_store.style) {
        Some(prev) => Some(diff_spec(prev, cascade_spec(own_d, ps))),
        None => old_store.restyle_damage,
    }
    &&& if before_d.len() > 0 {
        &&& new_store.before_style is Some
        &&& new_store.before_style.unwrap()@ == cascade_spec(before_d, ps)
        &&& new_store.before_damage == match opt_view(old_store.before_style) {
            Some(prev) => Some(diff_spec(prev, cascade_spec(before_d, ps))),
            None => old_store.before_damage,
        }
    } else {
        &&& new_store.before_style is None
        &&& new_store.before_damage is None
    }
    &&& if after_d.len() > 0 {
        &&& new_store.after_style is Some
        &&& new_store.after_style.unwrap()@ == cascade_spec(after_d, ps)
        &&& new_store.after_damage == match opt_view(old_store.after_style) {
            Some(prev) => Some(diff_spec(prev, cascade_spec(after_d, ps))),
            None => old_store.after_damage,
        }
    } else {
        &&& new_store.after_style is None
        &&& new_store.after_damage is None
    }
}

/// What resolving the subtree rooted at `root` against published parent
/// style `base` does to the whole store table: every subtree node's store is
/// resolved against its inherited-value source, and no other store is
/// touched.
pub open spec fn subtree_resolved(
    tree: DocumentTree,
    stylist: Stylist,
    base: Option<Seq<u64>>,
    root: int,
    old_stores: Seq<StyleStore>,
    new_stores: Seq<StyleStore>,
) -> bool {
    &&& new_stores.len() == old_stores.len()
    &&& forall|i: int|
        0 <= i < old_stores.len() && tree.in_subtree(root, i) ==> store_resolved(
            tree,
            stylist,
            parent_style_in(tree, stylist, base, root, i),
            old_stores[i],
            #[trigger] new_stores[i],
            i,
        )
    &&& forall|i: int|
        0 <= i < old_stores.len() && !tree.in_subtree(root, i) ==> #[trigger] new_stores[i]
            == old_stores[i]
}

/// What a full resolution from the root does to the store table.
pub open spec fn resolved(
    tree: DocumentTree,
    stylist: Stylist,
    old_stores: Seq<StyleStore>,
    new_stores: Seq<StyleStore>,
) -> bool {
    subtree_resolved(tree, stylist, None, 0, old_stores, new_stores)
}

fn clone_opt_style(o: &Option<ComputedStyle>) -> (r: Option<ComputedStyle>)
    ensures
        opt_view(r) == opt_view(*o),
{
    match o {
        Some(s) => Some(s.clone()),
        None => None,
    }
}

fn copy_declarations(src: &Vec<Declaration>) -> (r: Vec<Declaration>)
    ensures
        r@ == src@,
{
    let mut r: Vec<Declaration> = Vec::new();
    let mut i: usize = 0;
    while i < src.len()
        invariant
            i <= src.len(),
            r@ =~= src@.take(i as int),
        decreases src.len() - i,
    {
        r.push(src[i]);
        i += 1;
    }
    proof {
        assert(src@.take(src@.len() as int) =~= src@);
    }
    r
}

/// The document's well-formedness: a well-formed tree, one store per node,
/// every store well-formed, and empty matched lists on non-element nodes.
pub open spec fn doc_wf(tree: DocumentTree, stores: Seq<StyleStore>) -> bool {
    &&& tree.wf()
    &&& stores.len() == tree.len_spec()
    &&& forall|i: int| 0 <= i < tree.len_spec() ==> (#[trigger] stores[i]).wf()
    &&& forall|i: int|
        0 <= i < tree.len_spec() && !tree.node_spec(i).is_element ==> {
            &&& (#[trigger] stores[i]).applicable_declarations@.len() == 0
            &&& stores[i].before_applicable_declarations@.len() == 0
            &&& stores[i].after_applicable_declarations@.len() == 0
        }
}

/// The per-node operations of the resolution pass, on a tree whose nodes
/// carry style stores.
pub trait MatchMethods {
    spec fn tree_spec(&self) -> DocumentTree;

    spec fn stores_spec(&self) -> Seq<StyleStore>;

    /// Rebuild the three applicable-declaration lists of an element node
    /// from the rule index: clear, then repopulate, so stale entries never
    /// survive. Styles and signals are left untouched.
    fn match_node(&mut self, stylist: &Stylist, node: usize)
        requires
            doc_wf(old(self).tree_spec(), old(self).stores_spec()),
            stylist.wf(),
            stylist.node_count_spec() == old(self).tree_spec().len_spec(),
            node < old(self).tree_spec().len_spec(),
            old(self).tree_spec().node_spec(node as int).is_element,
        ensures
            doc_wf(final(self).tree_spec(), final(self).stores_spec()),
            final(self).tree_spec() == old(self).tree_spec(),
            final(self).stores_spec().len() == old(self).stores_spec().len(),
            forall|i: int|
                0 <= i < old(self).stores_spec().len() && i != node ==> #[trigger] final(self).stores_spec()[i] == old(self).stores_spec()[i],
            final(self).stores_spec()[node as int].applicable_declarations@ == own_decls_spec(
                old(self).tree_spec(),
                *stylist,
                node as int,
            ),
            final(self).stores_spec()[node as int].before_applicable_declarations@
                == before_decls_spec(old(self).tree_spec(), *stylist, node as int),
            final(self).stores_spec()[node as int].after_applicable_declarations@
                == after_decls_spec(old(self).tree_spec(), *stylist, node as int),
            opt_view(final(self).stores_spec()[node as int].style) == opt_view(
                old(self).stores_spec()[node as int].style,
            ),
            opt_view(final(self).stores_spec()[node as int].before_style) == opt_view(
                old(self).stores_spec()[node as int].before_style,
            ),
            opt_view(final(self).stores_spec()[node as int].after_style) == opt_view(
                old(self).stores_spec()[node as int].after_style,
            ),
            final(self).stores_spec()[node as int].restyle_damage == old(self).stores_spec()[node as int].restyle_damage,
            final(self).stores_spec()[node as int].before_damage == old(self).stores_spec()[node as int].before_damage,
            final(self).stores_spec()[node as int].after_damage == old(self).stores_spec()[node as int].after_damage,
    ;

    /// The subtree walker: visit every node of the subtree rooted at `root`
    /// in index order, parents before children; at each node rebuild the
    /// matched lists if it is an element, then cascade its three slots
    /// against its parent's just-published own style (`parent_style` for the
    /// subtree root itself). Stores outside the subtree are never touched.
    fn match_and_cascade_subtree(
        &mut self,
        stylist: &Stylist,
        root: usize,
        parent_style: Option<&ComputedStyle>,
    )
        requires
            doc_wf(old(self).tree_spec(), old(self).stores_spec()),
            stylist.wf(),
            stylist.node_count_spec() == old(self).tree_spec().len_spec(),
            root < old(self).tree_spec().len_spec(),
            option_style_wf(parent_style),
        ensures
            doc_wf(final(self).tree_spec(), final(self).stores_spec()),
            final(self).tree_spec() == old(self).tree_spec(),
            subtree_resolved(
                old(self).tree_spec(),
                *stylist,
                style_view(parent_style),
                root as int,
                old(self).stores_spec(),
                final(self).stores_spec(),
            ),
    ;

    /// Cascade the three slots of one node, in the fixed order
    /// generated-before, own, generated-after, against the published parent
    /// style. A generated-content slot with no matched declarations is not
    /// cascaded: its pseudo-element does not exist for this node, so the
    /// slot's style and signal are cleared. Each slot that had a previous
    /// style records the classified difference before the old style is
    /// replaced.
    fn cascade_node(&mut self, node: usize, parent_style: Option<&ComputedStyle>)
        requires
            doc_wf(old(self).tree_spec(), old(self).stores_spec()),
            node < old(self).tree_spec().len_spec(),
            option_style_wf(parent_style),
        ensures
            doc_wf(final(self).tree_spec(), final(self).stores_spec()),
            final(self).tree_spec() == old(self).tree_spec(),
            final(self).stores_spec().len() == old(self).stores_spec().len(),
            forall|i: int|
                0 <= i < old(self).stores_spec().len() && i != node ==> #[trigger] final(self).stores_spec()[i] == old(self).stores_spec()[i],
            cascaded_store(
                old(self).stores_spec()[node as int],
                final(self).stores_spec()[node as int],
                style_view(parent_style),
            ),
    ;
}

impl StyledDocument {
    pub open spec fn len_spec(&self) -> int {
        self.tree_spec().len_spec()
    }

    pub open spec fn wf(&self) -> bool {
        doc_wf(self.tree_spec(), self.stores_spec())
    }

    /// Attach a fresh, empty style store to every node of the tree.
    pub fn new(tree: DocumentTree) -> (doc: Self)
        requires
            tree.wf(),
        ensures
            doc.wf(),
            doc.tree_spec() == tree,
            doc.stores_spec().len() == tree.len_spec(),
            forall|i: int|
                0 <= i < tree.len_spec() ==> (#[trigger] doc.stores_spec()[i]).fresh(),
    {
        let n = tree.len();
        let mut stores: Vec<StyleStore> = Vec::new();
        let mut i: usize = 0;
        while i < n
            invariant
                i <= n,
                stores@.len() == i,
                forall|j: int| 0 <= j < i ==> (#[trigger] stores@[j]).fresh() && stores@[j].wf(),
            decreases n - i,
        {
            stores.push(StyleStore::new());
            i += 1;
        }
        StyledDocument { tree, stores }
    }

    pub fn tree(&self) -> (t: &DocumentTree)
        ensures
            *t == self.tree_spec(),
    {
        &self.tree
    }

    pub fn store_at(&self, i: usize) -> (s: &StyleStore)
        requires
            i < self.stores_spec().len(),
        ensures
            *s == self.stores_spec()[i as int],
    {
        &self.stores[i]
    }
}

impl MatchMethods for StyledDocument {
    closed spec fn tree_spec(&self) -> DocumentTree {
        self.tree
    }

    closed spec fn stores_spec(&self) -> Seq<StyleStore> {
        self.stores@
    }

    fn match_node(&mut self, stylist: &Stylist, node: usize) {
        let style_attribute: Option<&Vec<Declaration>> = match self.tree.inline_style_of(node) {
            Some(v) => Some(v),
            None => None,
        };
        proof {
            assert(self.tree_spec().node_wf(node as int));
        }
        let mut applicable_declarations: Vec<Declaration> = Vec::new();
        stylist.push_applicable_declarations(
            node,
            style_attribute,
            None,
            &mut applicable_declarations,
        );
        let mut before_applicable_declarations: Vec<Declaration> = Vec::new();
        stylist.push_applicable_declarations(
            node,
            None,
            Some(PseudoElement::Before),
            &mut before_applicable_declarations,
        );
        let mut after_applicable_declarations: Vec<Declaration> = Vec::new();
        stylist.push_applicable_declarations(
            node,
            None,
            Some(PseudoElement::After),
            &mut after_applicable_declarations,
        );
        proof {
            assert(Seq::<Declaration>::empty() + stylist.matched_spec(
                node as int,
                inline_view(style_attribute),
                None,
            ) =~= stylist.matched_spec(node as int, inline_view(style_attribute), None));
            assert(Seq::<Declaration>::empty() + stylist.matched_spec(
                node as int,
                None,
                Some(PseudoElement::Before),
            ) =~= stylist.matched_spec(node as int, None, Some(PseudoElement::Before)));
            assert(Seq::<Declaration>::empty() + stylist.matched_spec(
                node as int,
                None,
                Some(PseudoElement::After),
            ) =~= stylist.matched_spec(node as int, None, Some(PseudoElement::After)));
        }
        let old_store = &self.stores[node];
        let new_store = StyleStore {
            applicable_declarations,
            before_applicable_declarations,
            after_applicable_declarations,
            style: clone_opt_style(&old_store.style),
            before_style: clone_opt_style(&old_store.before_style),
            after_style: clone_opt_style(&old_store.after_style),
            restyle_damage: old_store.restyle_damage,
            before_damage: old_store.before_damage,
            after_damage: old_store.after_damage,
        };
        self.stores.set(node, new_store);
    }

    fn cascade_node(&mut self, node: usize, parent_style: Option<&ComputedStyle>) {
        let st = &self.stores[node];
        // Generated-before slot.
        let (before_style, before_damage) = if st.before_applicable_declarations.len() > 0 {
            let s = cascade(&st.before_applicable_declarations, parent_style);
            let d = match &st.before_style {
                Some(prev) => Some(compute_damage(prev, &s)),
                None => st.before_damage,
            };
            (Some(s), d)
        } else {
            (None, None)
        };
        // Own slot.
        let s = cascade(&st.applicable_declarations, parent_style);
        let restyle_damage = match &st.style {
            Some(prev) => Some(compute_damage(prev, &s)),
            None => st.restyle_damage,
        };
        let style = Some(s);
        // Generated-after slot.
        let (after_style, after_damage) = if st.after_applicable_declarations.len() > 0 {
            let s = cascade(&st.after_applicable_declarations, parent_style);
            let d = match &st.after_style {
                Some(prev) => Some(compute_damage(prev, &s)),
                None => st.after_damage,
            };
            (Some(s), d)
        } else {
            (None, None)
        };
        let new_store = StyleStore {
            applicable_declarations: copy_declarations(&st.applicable_declarations),
            before_applicable_declarations: copy_declarations(&st.before_applicable_declarations),
            after_applicable_declarations: copy_declarations(&st.after_applicable_declarations),
            style,
            before_style,
            after_style,
            restyle_damage,
            before_damage,
            after_damage,
        };
        self.stores.set(node, new_store);
    }

    fn match_and_cascade_subtree(
        &mut self,
        stylist: &Stylist,
        root: usize,
        parent_style: Option<&ComputedStyle>,
    ) {
        let ghost tree0 = self.tree_spec();
        let ghost stores0 = self.stores_spec();
        let ghost base = style_view(parent_style);
        let n = self.tree.len();
        proof {
            assert forall|j: int| 0 <= j < root as int implies !tree0.in_subtree(
                root as int,
                j,
            ) by {
                if tree0.in_subtree(root as int, j) {
                    tree0.lemma_in_subtree_bounds(root as int, j);
                }
            }
        }
        let mut i: usize = root;
        while i < n
            invariant
                self.wf(),
                self.tree_spec() == tree0,
                stylist.wf(),
                stylist.node_count_spec() == self.len_spec(),
                root <= i,
                root < n,
                n == self.len_spec(),
                self.stores_spec().len() == stores0.len(),
                stores0.len() == n,
                option_style_wf(parent_style),
                base == style_view(parent_style),
                forall|j: int|
                    0 <= j < i && tree0.in_subtree(root as int, j) ==> store_resolved(
                        tree0,
                        *stylist,
                        parent_style_in(tree0, *stylist, base, root as int, j),
                        stores0[j],
                        #[trigger] self.stores_spec()[j],
                        j,
                    ),
                forall|j: int|
                    0 <= j < stores0.len() && (j >= i || !tree0.in_subtree(root as int, j))
                        ==> #[trigger] self.stores_spec()[j] == stores0[j],
            decreases n - i,
        {
            let in_sub = self.tree.node_in_subtree(root, i);
            if in_sub {
                let ghost psi = parent_style_in(tree0, *stylist, base, root as int, i as int);
                let ghost old_store_i = stores0[i as int];
                if i == root {
                    if self.tree.is_element(i) {
                        self.match_node(stylist, i);
                    } else {
                        proof {
                            assert(self.stores_spec()[i as int].applicable_declarations@
                                =~= own_decls_spec(tree0, *stylist, i as int));
                            assert(self.stores_spec()[i as int].before_applicable_declarations@
                                =~= before_decls_spec(tree0, *stylist, i as int));
                            assert(self.stores_spec()[i as int].after_applicable_declarations@
                                =~= after_decls_spec(tree0, *stylist, i as int));
                        }
                    }
                    let ghost mid = self.stores_spec()[i as int];
                    self.cascade_node(i, parent_style);
                    proof {
                        lemma_store_resolved_compose(
                            tree0,
                            *stylist,
                            psi,
                            old_store_i,
                            mid,
                            self.stores_spec()[i as int],
                            i as int,
                        );
                    }
                } else {
                    proof {
                        assert(tree0.node_wf(i as int));
                    }
                    let p = match self.tree.parent_of(i) {
                        Some(p) => p,
                        None => {
                            proof {
                                assert(false);
                            }
                            vstd::pervasive::unreached()
                        },
                    };
                    proof {
                        assert(tree0.in_subtree(root as int, p as int));
                        tree0.lemma_in_subtree_bounds(root as int, p as int);
                        assert(store_resolved(
                            tree0,
                            *stylist,
                            parent_style_in(tree0, *stylist, base, root as int, p as int),
                            stores0[p as int],
                            self.stores_spec()[p as int],
                            p as int,
                        ));
                        lemma_style_of_from_unfold(tree0, *stylist, base, root as int, p as int);
                    }
                    let parent_for_i: ComputedStyle = match &self.stores[p].style {
                        Some(s) => s.clone(),
                        None => {
                            proof {
                                assert(false);
                            }
                            vstd::pervasive::unreached()
                        },
                    };
                    proof {
                        assert(parent_for_i@ == style_of_from(
                            tree0,
                            *stylist,
                            base,
                            root as int,
                            p as int,
                        ));
                        assert(psi == Some(parent_for_i@));
                    }
                    if self.tree.is_element(i) {
                        self.match_node(stylist, i);
                    } else {
                        proof {
                            assert(self.stores_spec()[i as int].applicable_declarations@
                                =~= own_decls_spec(tree0, *stylist, i as int));
                            assert(self.stores_spec()[i as int].before_applicable_declarations@
                                =~= before_decls_spec(tree0, *stylist, i as int));
                            assert(self.stores_spec()[i as int].after_applicable_declarations@
                                =~= after_decls_spec(tree0, *stylist, i as int));
                        }
                    }
                    let ghost mid = self.stores_spec()[i as int];
                    self.cascade_node(i, Some(&parent_for_i));
                    proof {
                        lemma_store_resolved_compose(
                            tree0,
                            *stylist,
                            psi,
                            old_store_i,
                            mid,
                            self.stores_spec()[i as int],
                            i as int,
                        );
                    }
                }
            }
            i += 1;
        }
    }

}

impl StyledDocument {
    /// Resolve the whole document: one synchronous, top-down pass over every
    /// node, which leaves every store populated with a non-stale own
    /// computed style, the generated-content styles where their matched
    /// lists are non-empty, and the per-slot invalidation signals.
    pub fn resolve(&mut self, stylist: &Stylist)
        requires
            old(self).wf(),
            stylist.wf(),
            stylist.node_count_spec() == old(self).len_spec(),
        ensures
            final(self).wf(),
            final(self).tree_spec() == old(self).tree_spec(),
            resolved(
                old(self).tree_spec(),
                *stylist,
                old(self).stores_spec(),
                final(self).stores_spec(),
            ),
    {
        self.match_and_cascade_subtree(stylist, 0, None);
    }
}

/// Bridge: a store whose lists were rebuilt by matching and whose slots were
/// then cascaded is resolved with respect to the store the pass started
/// from.
proof fn lemma_store_resolved_compose(
    tree: DocumentTree,
    stylist: Stylist,
    ps: Option<Seq<u64>>,
    old_store: StyleStore,
    mid: StyleStore,
    new_store: StyleStore,
    i: int,
)
    requires
        mid.applicable_declarations@ == own_decls_spec(tree, stylist, i),
        mid.before_applicable_declarations@ == before_decls_spec(tree, stylist, i),
        mid.after_applicable_declarations@ == after_decls_spec(tree, stylist, i),
        opt_view(mid.style) == opt_view(old_store.style),
        opt_view(mid.before_style) == opt_view(old_store.before_style),
        opt_view(mid.after_style) == opt_view(old_store.after_style),
        mid.restyle_damage == old_store.restyle_damage,
        mid.before_damage == old_store.before_damage,
        mid.after_damage == old_store.after_damage,
        cascaded_store(mid, new_store, ps),
    ensures
        store_resolved(tree, stylist, ps, old_store, new_store, i),
{
}

/// Two stores that are both observably equal: same lists, same style value
/// tables, same signals.
pub open spec fn store_equiv(s1: StyleStore, s2: StyleStore) -> bool {
    &&& s1.applicable_declarations@ == s2.applicable_declarations@
    &&& s1.before_applicable_declarations@ == s2.before_applicable_declarations@
    &&& s1.after_applicable_declarations@ == s2.after_applicable_declarations@
    &&& opt_view(s1.style) == opt_view(s2.style)
    &&& opt_view(s1.before_style) == opt_view(s2.before_style)
    &&& opt_view(s1.after_style) == opt_view(s2.after_style)
    &&& s1.restyle_damage == s2.restyle_damage
    &&& s1.before_damage == s2.before_damage
    &&& s1.after_damage == s2.after_damage
}

/// A pass pins a node's new store completely: resolving the same old store
/// against the same parent style can only produce one observable outcome.
proof fn lemma_store_resolved_deterministic(
    tree: DocumentTree,
    stylist: Stylist,
    ps: Option<Seq<u64>>,
    old_store: StyleStore,
    n1: StyleStore,
    n2: StyleStore,
    i: int,
)
    requires
        store_resolved(tree, stylist, ps, old_store, n1, i),
        store_resolved(tree, stylist, ps, old_store, n2, i),
    ensures
        store_equiv(n1, n2),
{
}

/// After `resolve`, every node's store holds an own computed style, and a
/// non-root node's style was cascaded with its parent's own computed style
/// as the inherited-value source.
pub proof fn lemma_resolve_styles_all_nodes(
    tree: DocumentTree,
    stylist: Stylist,
    s0: Seq<StyleStore>,
    s1: Seq<StyleStore>,
    i: int,
)
    requires
        tree.wf(),
        s0.len() == tree.len_spec(),
        resolved(tree, stylist, s0, s1),
        0 <= i < tree.len_spec(),
    ensures
        s1[i].style is Some,
        s1[i].style.unwrap()@ == style_of(tree, stylist, i),
        0 < i ==> style_of(tree, stylist, i) == cascade_spec(
            own_decls_spec(tree, stylist, i),
            Some(style_of(tree, stylist, tree.parent_spec(i))),
        ),
        i == 0 ==> style_of(tree, stylist, 0) == cascade_spec(
            own_decls_spec(tree, stylist, 0),
            None,
        ),
{
    tree.lemma_root_subtree_all(i);
    lemma_style_of_from_unfold(tree, stylist, None, 0, i);
    assert(tree.node_wf(i));
}

/// An inherited property declared on no node of the path below the root
/// keeps the root's resolved value all the way down: the root's value is the
/// inherited-value source of every descendant that nothing overrides.
pub proof fn lemma_inherited_value_propagates(
    tree: DocumentTree,
    stylist: Stylist,
    i: int,
    p: int,
)
    requires
        tree.wf(),
        0 <= i < tree.len_spec(),
        property_is_inherited(p),
        forall|j: int|
            0 < j < tree.len_spec() && tree.in_subtree(j, i) ==> declared_value(
                #[trigger] own_decls_spec(tree, stylist, j),
                p,
            ) is None,
    ensures
        style_of(tree, stylist, i)[p] == style_of(tree, stylist, 0)[p],
    decreases i,
{
    if i != 0 {
        assert(tree.node_wf(i));
        let q = tree.parent_spec(i);
        assert(tree.in_subtree(i, i));
        assert(declared_value(own_decls_spec(tree, stylist, i), p) is None);
        lemma_style_of_from_unfold(tree, stylist, None, 0, i);
        assert(style_of(tree, stylist, i)[p] == cascaded_value(
            own_decls_spec(tree, stylist, i),
            Some(style_of(tree, stylist, q)),
            p,
        ));
        assert forall|j: int| 0 < j < tree.len_spec() && tree.in_subtree(j, q) implies
            declared_value(#[trigger] own_decls_spec(tree, stylist, j), p) is None by {
            assert(tree.in_subtree(j, i));
        }
        lemma_inherited_value_propagates(tree, stylist, q, p);
    }
}

/// Generated-content styles exist after a pass if and only if their
/// applicable-declaration list was non-empty at match time.
pub proof fn lemma_pseudo_styles_iff_matched(
    tree: DocumentTree,
    stylist: Stylist,
    s0: Seq<StyleStore>,
    s1: Seq<StyleStore>,
    i: int,
)
    requires
        tree.wf(),
        s0.len() == tree.len_spec(),
        resolved(tree, stylist, s0, s1),
        0 <= i < tree.len_spec(),
    ensures
        s1[i].before_style is Some <==> before_decls_spec(tree, stylist, i).len() > 0,
        s1[i].after_style is Some <==> after_decls_spec(tree, stylist, i).len() > 0,
{
    tree.lemma_root_subtree_all(i);
}

/// Idempotence: a second resolution with no intervening mutation classifies
/// every slot that cascades as unchanged.
pub proof fn lemma_resolve_idempotent(
    tree: DocumentTree,
    stylist: Stylist,
    s0: Seq<StyleStore>,
    s1: Seq<StyleStore>,
    s2: Seq<StyleStore>,
    i: int,
)
    requires
        tree.wf(),
        s0.len() == tree.len_spec(),
        s1.len() == tree.len_spec(),
        resolved(tree, stylist, s0, s1),
        resolved(tree, stylist, s1, s2),
        0 <= i < tree.len_spec(),
    ensures
        s2[i].restyle_damage == Some(Damage::NoChange),
        before_decls_spec(tree, stylist, i).len() > 0 ==> s2[i].before_damage == Some(
            Damage::NoChange,
        ),
        after_decls_spec(tree, stylist, i).len() > 0 ==> s2[i].after_damage == Some(
            Damage::NoChange,
        ),
{
    tree.lemma_root_subtree_all(i);
}

/// Resolving a sibling subtree on its own, against the parent's published
/// own style, gives every subtree node exactly the style a full sequential
/// resolution gives it.
pub proof fn lemma_subtree_matches_full(
    tree: DocumentTree,
    stylist: Stylist,
    root: int,
    i: int,
)
    requires
        tree.wf(),
        0 < root < tree.len_spec(),
        0 <= i < tree.len_spec(),
        tree.in_subtree(root, i),
    ensures
        style_of_from(
            tree,
            stylist,
            Some(style_of(tree, stylist, tree.parent_spec(root))),
            root,
            i,
        ) == style_of(tree, stylist, i),
    decreases i,
{
    assert(tree.node_wf(root));
    if i != root {
        assert(tree.node_wf(i));
        tree.lemma_in_subtree_bounds(root, tree.parent_spec(i));
        lemma_subtree_matches_full(tree, stylist, root, tree.parent_spec(i));
    }
}

/// Determinism under parallel scheduling: two sibling subtrees resolved by
/// separate workers after their shared parent's own style is published
/// leave, in either order, every store in the same observable state.
pub proof fn lemma_sibling_subtrees_commute(
    tree: DocumentTree,
    stylist: Stylist,
    base_a: Option<Seq<u64>>,
    base_b: Option<Seq<u64>>,
    a: int,
    b: int,
    s0: Seq<StyleStore>,
    s1: Seq<StyleStore>,
    s2: Seq<StyleStore>,
    t1: Seq<StyleStore>,
    t2: Seq<StyleStore>,
    i: int,
)
    requires
        tree.wf(),
        0 <= a < tree.len_spec(),
        0 <= b < tree.len_spec(),
        !tree.in_subtree(a, b),
        !tree.in_subtree(b, a),
        s0.len() == tree.len_spec(),
        subtree_resolved(tree, stylist, base_a, a, s0, s1),
        subtree_resolved(tree, stylist, base_b, b, s1, s2),
        subtree_resolved(tree, stylist, base_b, b, s0, t1),
        subtree_resolved(tree, stylist, base_a, a, t1, t2),
        0 <= i < tree.len_spec(),
    ensures
        store_equiv(s2[i], t2[i]),
{
    tree.lemma_disjoint_subtrees(a, b, i);
    if tree.in_subtree(a, i) {
        assert(s2[i] == s1[i]);
        assert(t1[i] == s0[i]);
        lemma_store_resolved_deterministic(
            tree,
            stylist,
            parent_style_in(tree, stylist, base_a, a, i),
            s0[i],
            s1[i],
            t2[i],
            i,
        );
    } else if tree.in_subtree(b, i) {
        assert(t2[i] == t1[i]);
        assert(s1[i] == s0[i]);
        lemma_store_resolved_deterministic(
            tree,
            stylist,
            parent_style_in(tree, stylist, base_b, b, i),
            s0[i],
            s2[i],
            t1[i],
            i,
        );
    } else {
        assert(s2[i] == s0[i]);
        assert(t2[i] == s0[i]);
    }
}

/// What `cascade_node` does to a node's store, relative to the lists the
/// store held when the cascade ran.
pub open spec fn cascaded_store(old_store: StyleStore, new_store: StyleStore, ps: Option<Seq<u64>>) -> bool {
    &&& new_store.applicable_declarations@ == old_store.applicable_declarations@
    &&& new_store.before_applicable_declarations@ == old_store.before_applicable_declarations@
    &&& new_store.after_applicable_declarations@ == old_store.after_applicable_declarations@
    &&& new_store.style is Some
    &&& new_store.style.unwrap()@ == cascade_spec(old_store.applicable_declarations@, ps)
    &&& new_store.restyle_damage == match opt_view(old_store.style) {
        Some(prev) => Some(
            diff_spec(prev, cascade_spec(old_store.applicable_declarations@, ps)),
        ),
        None => old_store.restyle_damage,
    }
    &&& if old_store.before_applicable_declarations@.len() > 0 {
        &&& new_store.before_style is Some
        &&& new_store.before_style.unwrap()@ == cascade_spec(
            old_store.before_applicable_declarations@,
            ps,
        )
        &&& new_store.before_damage == match opt_view(old_store.before_style) {
            Some(prev) => Some(
                diff_spec(prev, cascade_spec(old_store.before_applicable_declarations@, ps)),
            ),
            None => old_store.before_damage,
        }
    } else {
        &&& new_store.before_style is None
        &&& new_store.before_damage is None
    }
    &&& if old_store.after_applicable_declarations@.len() > 0 {
        &&& new_store.after_style is Some
        &&& new_store.after_style.unwrap()@ == cascade_spec(
            old_store.after_applicable_declarations@,
            ps,
        )
        &&& new_store.after_damage == match opt_view(old_store.after_style) {
            Some(prev) => Some(
                diff_spec(prev, cascade_spec(old_store.after_applicable_declarations@, ps)),
            ),
            None => old_store.after_damage,
        }
    } else {
        &&& new_store.after_style is None
        &&& new_store.after_damage is None
    }
}

} // verus!
