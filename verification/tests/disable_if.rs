use druid::disable_if::DisabledIf;

#[test]
fn disabled_follows_the_condition_on_the_data() {
    let wrapper = DisabledIf::new("button", |data: &u32, limit: &u32| *data > *limit);
    assert!(wrapper.disabled_for(&5, &3));
    assert!(!wrapper.disabled_for(&2, &3));
}

#[test]
fn lifecycle_sets_disabled_only_when_added() {
    let wrapper = DisabledIf::new("button", |data: &u32, limit: &u32| *data > *limit);
    assert_eq!(wrapper.lifecycle_disabled(true, &5, &3), Some(true));
    assert_eq!(wrapper.lifecycle_disabled(true, &1, &3), Some(false));
    assert_eq!(wrapper.lifecycle_disabled(false, &5, &3), None);
}
