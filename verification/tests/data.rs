use druid::data::Data;

#[test]
fn same_compares_values() {
    assert!(3u32.same(&3));
    assert!(!3u32.same(&4));
    assert!(String::from("x").same(&String::from("x")));
    assert!(!String::from("x").same(&String::from("y")));
    assert!(true.same(&true));
    assert!(!(-1i32).same(&1));
    assert!(7u64.same(&7));
    assert!(!0usize.same(&1));
}
