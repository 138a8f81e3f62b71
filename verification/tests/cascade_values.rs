use restyle::cascade::cascade;
use restyle::damage::{compute_damage, Damage};
use restyle::properties::Declaration;

fn decl(property: usize, value: u64) -> Declaration {
    Declaration { property, value }
}

#[test]
fn cascade_without_declarations_or_parent_gives_initial_values() {
    let style = cascade(&Vec::new(), None);
    for p in 0..4 {
        assert_eq!(style.value(p), 0);
    }
}

#[test]
fn cascade_inherits_only_inherited_properties() {
    let parent = cascade(&vec![decl(0, 11), decl(1, 12), decl(2, 13), decl(3, 14)], None);
    let child = cascade(&Vec::new(), Some(&parent));
    assert_eq!(child.value(0), 0);
    assert_eq!(child.value(1), 0);
    assert_eq!(child.value(2), 13);
    assert_eq!(child.value(3), 14);
}

#[test]
fn cascade_later_entry_overrides_earlier() {
    let style = cascade(&vec![decl(2, 1), decl(2, 2)], None);
    assert_eq!(style.value(2), 2);
}

#[test]
fn damage_classes() {
    let base = cascade(&vec![decl(0, 5), decl(2, 7)], None);
    let same = cascade(&vec![decl(0, 5), decl(2, 7)], None);
    let visual = cascade(&vec![decl(0, 5), decl(2, 8)], None);
    let geometric = cascade(&vec![decl(0, 6), decl(2, 7)], None);
    assert_eq!(compute_damage(&base, &same), Damage::NoChange);
    assert_eq!(compute_damage(&base, &visual), Damage::Repaint);
    assert_eq!(compute_damage(&base, &geometric), Damage::Reflow);
    assert_eq!(compute_damage(&base, &base), Damage::NoChange);
}
