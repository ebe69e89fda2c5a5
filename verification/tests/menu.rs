use linuxpal::menu::{action, label, MenuAction, ITEMS};

#[test]
fn action_lookup() {
    assert_eq!(action(0), Some(MenuAction::Morning));
    assert_eq!(action(ITEMS.len() - 1), Some(MenuAction::Quit));
    assert_eq!(action(99), None);
}

#[test]
fn rows_are_labelled_in_order() {
    for (i, (a, l)) in ITEMS.iter().enumerate() {
        assert_eq!(action(i), Some(*a));
        assert_eq!(label(i), *l);
    }
}
