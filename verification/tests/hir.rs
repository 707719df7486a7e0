use solc::ast::Name;
use solc::hir::{lower_name, HirId, Locality, Mutability};
use solc::lexer::source::Span;

#[test]
fn mutability() {
    assert!(Mutability::Mutable.is_mutable());
    assert!(!Mutability::Mutable.is_immutable());
    assert!(Mutability::Immutable.is_immutable());
    assert!(!Mutability::Immutable.is_mutable());
    assert_eq!(Mutability::default(), Mutability::Immutable);
    assert_eq!(Locality::default(), Locality::Local);
}

#[test]
fn lowered_name_borrows_the_syntax_tree() {
    let name = Name { span: Span { offset: 4, length: 3 }, inner: "foo".to_string() };
    let lowered = lower_name(&name);
    assert_eq!(lowered.id, HirId(u32::MAX));
    assert_eq!(lowered.id, HirId::dummy());
    assert_eq!(*lowered.span, Span { offset: 4, length: 3 });
    assert_eq!(lowered.inner, "foo");
}
