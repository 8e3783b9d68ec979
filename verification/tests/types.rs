use luisa_compute::error::Error;
use luisa_compute::types::{Primitive, Type, TypeId, TypeRegistry};

#[test]
fn equal_descriptors_get_one_identity() {
    let mut registry = TypeRegistry::new();
    let first = registry.register(Type::Vector(Primitive::Float32, 3)).unwrap();
    let second = registry.register(Type::Vector(Primitive::Float32, 3)).unwrap();
    assert_eq!(first, second);
    assert_eq!(registry.len(), 1);
}

#[test]
fn different_descriptors_get_different_identities() {
    let mut registry = TypeRegistry::new();
    let a = registry.register(Type::Scalar(Primitive::Float32)).unwrap();
    let b = registry.register(Type::Scalar(Primitive::Int32)).unwrap();
    let c = registry.register(Type::Vector(Primitive::Float32, 2)).unwrap();
    let d = registry.register(Type::Matrix(Primitive::Float32, 2)).unwrap();
    assert_eq!(a, TypeId { index: 0 });
    assert_eq!(b, TypeId { index: 1 });
    assert_eq!(c, TypeId { index: 2 });
    assert_eq!(d, TypeId { index: 3 });
    assert_eq!(registry.len(), 4);
}

#[test]
fn identities_are_positions_in_registration_order() {
    let mut registry = TypeRegistry::new();
    let a = registry.register(Type::Scalar(Primitive::Bool)).unwrap();
    let b = registry.register(Type::Scalar(Primitive::Uint32)).unwrap();
    let again = registry.register(Type::Scalar(Primitive::Bool)).unwrap();
    assert_eq!(a.index, 0);
    assert_eq!(b.index, 1);
    assert_eq!(again.index, 0);
    assert_eq!(registry.get(b), Some(&Type::Scalar(Primitive::Uint32)));
    assert_eq!(registry.get(TypeId { index: 2 }), None);
}

#[test]
fn struct_equality_is_structural() {
    let mut registry = TypeRegistry::new();
    let f = registry.register(Type::Scalar(Primitive::Float32)).unwrap();
    let v = registry.register(Type::Vector(Primitive::Float32, 3)).unwrap();
    let first = registry.register(Type::Struct(vec![f, v])).unwrap();
    let second = registry.register(Type::Struct(vec![f, v])).unwrap();
    let swapped = registry.register(Type::Struct(vec![v, f])).unwrap();
    assert_eq!(first, second);
    assert_ne!(first, swapped);
    assert_eq!(registry.len(), 4);
}

#[test]
fn array_equality_is_structural() {
    let mut registry = TypeRegistry::new();
    let f = registry.register(Type::Scalar(Primitive::Float32)).unwrap();
    let first = registry.register(Type::Array(f, 16)).unwrap();
    let second = registry.register(Type::Array(f, 16)).unwrap();
    let longer = registry.register(Type::Array(f, 17)).unwrap();
    assert_eq!(first, second);
    assert_ne!(first, longer);
}

#[test]
fn malformed_descriptors_are_refused() {
    let mut registry = TypeRegistry::new();
    assert_eq!(registry.register(Type::Vector(Primitive::Float32, 1)), Err(Error::InvalidType));
    assert_eq!(registry.register(Type::Vector(Primitive::Float32, 5)), Err(Error::InvalidType));
    assert_eq!(registry.register(Type::Matrix(Primitive::Float32, 0)), Err(Error::InvalidType));
    assert_eq!(
        registry.register(Type::Struct(vec![TypeId { index: 0 }])),
        Err(Error::InvalidType)
    );
    assert_eq!(registry.register(Type::Array(TypeId { index: 7 }, 4)), Err(Error::InvalidType));
    assert_eq!(registry.len(), 0);
}

#[test]
fn every_arity_from_two_to_four_is_accepted() {
    let mut registry = TypeRegistry::new();
    for n in 2..=4u32 {
        assert!(registry.register(Type::Vector(Primitive::Int32, n)).is_ok());
        assert!(registry.register(Type::Matrix(Primitive::Float32, n)).is_ok());
    }
    assert_eq!(registry.len(), 6);
}

#[test]
fn a_type_cannot_name_itself() {
    let mut registry = TypeRegistry::new();
    // The only entry would be at position 0, which is not interned yet.
    assert_eq!(
        registry.register(Type::Array(TypeId { index: 0 }, 2)),
        Err(Error::InvalidType)
    );
}

#[test]
fn empty_struct_is_a_type() {
    let mut registry = TypeRegistry::new();
    let unit = registry.register(Type::Struct(Vec::new())).unwrap();
    assert_eq!(registry.register(Type::Struct(Vec::new())), Ok(unit));
}

#[test]
fn find_gives_the_position_of_an_interned_descriptor() {
    let mut registry = TypeRegistry::new();
    registry.register(Type::Scalar(Primitive::Float32)).unwrap();
    let v = registry.register(Type::Vector(Primitive::Uint32, 4)).unwrap();
    assert_eq!(registry.find(&Type::Vector(Primitive::Uint32, 4)), Some(v));
    assert_eq!(registry.find(&Type::Vector(Primitive::Uint32, 3)), None);
}

#[test]
fn same_compares_descriptors_structurally() {
    let a = Type::Struct(vec![TypeId { index: 0 }, TypeId { index: 1 }]);
    let b = Type::Struct(vec![TypeId { index: 0 }, TypeId { index: 1 }]);
    let c = Type::Struct(vec![TypeId { index: 0 }]);
    assert!(a.same(&b));
    assert!(!a.same(&c));
    assert!(!Type::Scalar(Primitive::Int32).same(&Type::Scalar(Primitive::Uint32)));
    assert!(!Type::Vector(Primitive::Int32, 2).same(&Type::Matrix(Primitive::Int32, 2)));
    assert!(a.duplicate().same(&a));
}

#[test]
fn every_error_has_a_message() {
    let all = [
        Error::TypeMismatch,
        Error::IndexOutOfRange,
        Error::UnknownNode,
        Error::InvalidType,
        Error::DuplicateRegistration,
        Error::EmptyDispatch,
        Error::UnhandledArgument,
    ];
    for e in all {
        assert!(!e.message().is_empty());
    }
    assert_eq!(Error::TypeMismatch.message(), "operand types do not fit the operation");
    assert_eq!(Error::IndexOutOfRange.message(), "component index is not below the arity");
    assert_eq!(Error::UnknownNode.message(), "node does not belong to the current builder");
    assert_eq!(Error::InvalidType.message(), "malformed type descriptor");
    assert_eq!(
        Error::DuplicateRegistration.message(),
        "type already registered under this key"
    );
    assert_eq!(Error::EmptyDispatch.message(), "nothing registered under this key");
    assert_eq!(
        Error::UnhandledArgument.message(),
        "callable body does not handle this argument type"
    );
}
