use solc::interner::Interner;
use solc::type_checker::TypeId;

#[test]
fn interned_values_come_back() {
    let mut names: Interner<TypeId, String> = Interner::new();
    let a = names.intern("a".to_string());
    let b = names.intern("b".to_string());
    assert_eq!(a, TypeId(0));
    assert_eq!(b, TypeId(1));
    assert_eq!(names.get(&a).map(|s| s.as_str()), Some("a"));
    assert_eq!(names.get(&b).map(|s| s.as_str()), Some("b"));
    assert_eq!(names.get(&TypeId(2)), None);
}

#[test]
fn insert_replaces_only_its_key() {
    let mut names: Interner<TypeId, String> = Interner::new();
    let a = names.intern("a".to_string());
    let b = names.intern("b".to_string());
    names.insert(a, "c".to_string());
    assert_eq!(names.get(&a).map(|s| s.as_str()), Some("c"));
    assert_eq!(names.get(&b).map(|s| s.as_str()), Some("b"));
    names.insert(TypeId(7), "d".to_string());
    assert_eq!(names.get(&TypeId(7)).map(|s| s.as_str()), Some("d"));
    // The next interned value still gets the next fresh key.
    assert_eq!(names.intern("e".to_string()), TypeId(2));
}
