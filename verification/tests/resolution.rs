use restyle::damage::Damage;
use restyle::matching::{MatchMethods, StyledDocument};
use restyle::properties::Declaration;
use restyle::stylist::Stylist;
use restyle::tree::DocumentTree;

// Properties 0 and 1 are geometric; 2 and 3 are visual and inherited.
const WIDTH: usize = 0;
const COLOR: usize = 2;

fn decl(property: usize, value: u64) -> Declaration {
    Declaration { property, value }
}

/// A root element with one element child and one text grandchild, plus a
/// stylist whose table holds the given own-context rules for the root.
fn chain_doc(root_rules: Vec<Declaration>) -> (StyledDocument, Stylist) {
    let mut tree = DocumentTree::new(true, None);
    let mid = tree.add_child(0, true, None);
    let _leaf = tree.add_child(mid, false, None);
    let mut stylist = Stylist::new();
    stylist.push_node_rules(root_rules, Vec::new(), Vec::new());
    stylist.push_node_rules(Vec::new(), Vec::new(), Vec::new());
    stylist.push_node_rules(Vec::new(), Vec::new(), Vec::new());
    (StyledDocument::new(tree), stylist)
}

#[test]
fn every_node_styled_after_resolve() {
    let (mut doc, stylist) = chain_doc(vec![decl(COLOR, 7)]);
    doc.resolve(&stylist);
    for i in 0..3 {
        assert!(doc.store_at(i).style.is_some());
    }
}

#[test]
fn inherited_color_reaches_leaf() {
    // A color set only on the root appears unchanged on a leaf with no
    // overriding rule, because each child cascades against its parent's
    // published style.
    let (mut doc, stylist) = chain_doc(vec![decl(COLOR, 7)]);
    doc.resolve(&stylist);
    assert_eq!(doc.store_at(0).style.as_ref().unwrap().value(COLOR), 7);
    assert_eq!(doc.store_at(1).style.as_ref().unwrap().value(COLOR), 7);
    assert_eq!(doc.store_at(2).style.as_ref().unwrap().value(COLOR), 7);
}

#[test]
fn geometric_property_not_inherited() {
    let (mut doc, stylist) = chain_doc(vec![decl(WIDTH, 40)]);
    doc.resolve(&stylist);
    assert_eq!(doc.store_at(0).style.as_ref().unwrap().value(WIDTH), 40);
    assert_eq!(doc.store_at(1).style.as_ref().unwrap().value(WIDTH), 0);
}

#[test]
fn pseudo_styles_iff_matched() {
    let mut tree = DocumentTree::new(true, None);
    let child = tree.add_child(0, true, None);
    let mut stylist = Stylist::new();
    // root: a generated-before rule, no generated-after rule
    stylist.push_node_rules(Vec::new(), vec![decl(COLOR, 3)], Vec::new());
    // child: nothing at all
    stylist.push_node_rules(Vec::new(), Vec::new(), Vec::new());
    let mut doc = StyledDocument::new(tree);
    doc.resolve(&stylist);
    assert!(doc.store_at(0).before_style.is_some());
    assert!(doc.store_at(0).after_style.is_none());
    assert!(doc.store_at(child).before_style.is_none());
    assert!(doc.store_at(child).after_style.is_none());
    assert_eq!(doc.store_at(0).before_style.as_ref().unwrap().value(COLOR), 3);
}

#[test]
fn second_resolve_reports_no_change() {
    let mut tree = DocumentTree::new(true, None);
    let child = tree.add_child(0, true, None);
    let mut stylist = Stylist::new();
    stylist.push_node_rules(vec![decl(COLOR, 9)], vec![decl(COLOR, 1)], Vec::new());
    stylist.push_node_rules(vec![decl(WIDTH, 5)], Vec::new(), Vec::new());
    let mut doc = StyledDocument::new(tree);
    doc.resolve(&stylist);
    // no signal yet: each slot has cascaded only once
    assert!(doc.store_at(0).restyle_damage.is_none());
    doc.resolve(&stylist);
    assert_eq!(doc.store_at(0).restyle_damage, Some(Damage::NoChange));
    assert_eq!(doc.store_at(0).before_damage, Some(Damage::NoChange));
    assert!(doc.store_at(0).after_damage.is_none());
    assert_eq!(doc.store_at(child).restyle_damage, Some(Damage::NoChange));
}

#[test]
fn pseudo_style_cleared_when_rules_vanish() {
    let tree = DocumentTree::new(true, None);
    let mut with_before = Stylist::new();
    with_before.push_node_rules(Vec::new(), vec![decl(COLOR, 4)], Vec::new());
    let mut without_before = Stylist::new();
    without_before.push_node_rules(Vec::new(), Vec::new(), Vec::new());
    let mut doc = StyledDocument::new(tree);
    doc.resolve(&with_before);
    assert!(doc.store_at(0).before_style.is_some());
    doc.resolve(&without_before);
    // the pseudo-element no longer exists: its style and signal are cleared
    assert!(doc.store_at(0).before_style.is_none());
    assert!(doc.store_at(0).before_damage.is_none());
}

#[test]
fn later_declaration_wins() {
    // color:red (earlier) then color:blue (later): the later entry wins.
    let red = 1;
    let blue = 2;
    let (mut doc, stylist) = chain_doc(vec![decl(COLOR, red), decl(COLOR, blue)]);
    doc.resolve(&stylist);
    assert_eq!(doc.store_at(0).style.as_ref().unwrap().value(COLOR), blue);
}

#[test]
fn inline_style_outranks_matched_rules() {
    let mut tree = DocumentTree::new(true, Some(vec![decl(COLOR, 8)]));
    let _child = tree.add_child(0, false, None);
    let mut stylist = Stylist::new();
    stylist.push_node_rules(vec![decl(COLOR, 5)], Vec::new(), Vec::new());
    stylist.push_node_rules(Vec::new(), Vec::new(), Vec::new());
    let mut doc = StyledDocument::new(tree);
    doc.resolve(&stylist);
    // the inline override sits at the end of the own list, so it wins
    assert_eq!(doc.store_at(0).applicable_declarations.len(), 2);
    assert_eq!(doc.store_at(0).style.as_ref().unwrap().value(COLOR), 8);
}

#[test]
fn visual_change_repaints_geometric_change_reflows() {
    let mut stylist_a = Stylist::new();
    stylist_a.push_node_rules(vec![decl(COLOR, 1), decl(WIDTH, 10)], Vec::new(), Vec::new());
    let mut stylist_b = Stylist::new();
    stylist_b.push_node_rules(vec![decl(COLOR, 2), decl(WIDTH, 10)], Vec::new(), Vec::new());
    let mut stylist_c = Stylist::new();
    stylist_c.push_node_rules(vec![decl(COLOR, 2), decl(WIDTH, 11)], Vec::new(), Vec::new());
    let tree = DocumentTree::new(true, None);
    let mut doc = StyledDocument::new(tree);
    doc.resolve(&stylist_a);
    doc.resolve(&stylist_b);
    // only the non-geometric property changed
    assert_eq!(doc.store_at(0).restyle_damage, Some(Damage::Repaint));
    doc.resolve(&stylist_c);
    // a geometry-affecting property changed
    assert_eq!(doc.store_at(0).restyle_damage, Some(Damage::Reflow));
}

fn stores_agree(a: &StyledDocument, b: &StyledDocument, lo: usize, n: usize) {
    for i in lo..n {
        let sa = a.store_at(i);
        let sb = b.store_at(i);
        assert_eq!(sa.applicable_declarations, sb.applicable_declarations);
        assert_eq!(sa.before_applicable_declarations, sb.before_applicable_declarations);
        assert_eq!(sa.after_applicable_declarations, sb.after_applicable_declarations);
        assert_eq!(sa.style.is_some(), sb.style.is_some());
        if let (Some(x), Some(y)) = (&sa.style, &sb.style) {
            for p in 0..4 {
                assert_eq!(x.value(p), y.value(p));
            }
        }
        assert_eq!(sa.restyle_damage, sb.restyle_damage);
        assert_eq!(sa.before_damage, sb.before_damage);
        assert_eq!(sa.after_damage, sb.after_damage);
    }
}

#[test]
fn sibling_subtrees_resolve_order_independent() {
    // Two sibling subtrees resolved after the shared parent's own style is
    // published give the same stores in either order, and the same stores a
    // full sequential resolution gives.
    fn forked_tree() -> (DocumentTree, usize, usize) {
        let mut tree = DocumentTree::new(true, None);
        let a = tree.add_child(0, true, None);
        let b = tree.add_child(0, true, None);
        let _under_a = tree.add_child(a, true, None);
        let _under_b = tree.add_child(b, false, None);
        (tree, a, b)
    }
    let (tree, a, b) = forked_tree();
    let n = 5;
    let mut stylist = Stylist::new();
    stylist.push_node_rules(vec![decl(COLOR, 6)], Vec::new(), Vec::new());
    stylist.push_node_rules(vec![decl(WIDTH, 1)], Vec::new(), Vec::new());
    stylist.push_node_rules(vec![decl(COLOR, 9)], vec![decl(COLOR, 2)], Vec::new());
    stylist.push_node_rules(Vec::new(), Vec::new(), Vec::new());
    stylist.push_node_rules(Vec::new(), Vec::new(), Vec::new());

    // two full passes: the second classifies every slot as unchanged
    let mut sequential = StyledDocument::new(forked_tree().0);
    sequential.resolve(&stylist);
    sequential.resolve(&stylist);

    let mut ab = StyledDocument::new(tree);
    let mut ba = StyledDocument::new(forked_tree().0);
    ab.resolve(&stylist);
    ba.resolve(&stylist);
    let parent_style = ab.store_at(0).style.clone();

    // worker order a then b
    ab.match_and_cascade_subtree(&stylist, a, parent_style.as_ref());
    ab.match_and_cascade_subtree(&stylist, b, parent_style.as_ref());
    // worker order b then a
    ba.match_and_cascade_subtree(&stylist, b, parent_style.as_ref());
    ba.match_and_cascade_subtree(&stylist, a, parent_style.as_ref());

    stores_agree(&ab, &ba, 0, n);
    // and, below the shared parent, identical to the sequential result
    stores_agree(&ab, &sequential, 1, n);
}

#[test]
fn match_node_rebuilds_stale_lists() {
    let tree = DocumentTree::new(true, None);
    let mut stylist_a = Stylist::new();
    stylist_a.push_node_rules(vec![decl(COLOR, 1), decl(COLOR, 2)], Vec::new(), Vec::new());
    let mut stylist_b = Stylist::new();
    stylist_b.push_node_rules(vec![decl(WIDTH, 3)], Vec::new(), Vec::new());
    let mut doc = StyledDocument::new(tree);
    doc.match_node(&stylist_a, 0);
    assert_eq!(doc.store_at(0).applicable_declarations.len(), 2);
    // a second match pass fully replaces the lists: stale entries never survive
    doc.match_node(&stylist_b, 0);
    assert_eq!(doc.store_at(0).applicable_declarations, vec![decl(WIDTH, 3)]);
}
