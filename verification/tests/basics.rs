use tapt::text::{before, decimal_text, same_text};
use tapt::{AsType, Float, FunctionType, Positioned, RecordType, Span, StructType, Type};
use tapt::vm::Value;

#[test]
fn a_span_goes_between_two() {
    let from = Span::new(1, 2, 3, 4);
    let to = Span::new(5, 9, 6, 7);
    assert_eq!(from.between(to), Span::new(1, 9, 3, 4));
    assert_eq!(from.wrap(5), Positioned { value: 5, span: from });
}

#[test]
fn a_positioned_value_keeps_its_place() {
    let first = Positioned::new("a", Span::new(0, 1, 0, 0));
    let second = Positioned::new(2, Span::new(4, 6, 0, 4));
    assert_eq!(first.between(&second), Span::new(0, 6, 0, 0));
    assert_eq!(first.wrap(true), Positioned::new(true, first.span));
    assert_eq!(second.map(|value| value + 1), Positioned::new(3, second.span));
    assert_eq!(second.unpack(), (second.span, 2));
}

fn function(args: Vec<Type>, output: Type) -> Type {
    Type::Function(FunctionType { args, output_type: Box::new(output) })
}

fn samples() -> Vec<Type> {
    vec![
        Type::Any,
        Type::Nothing,
        Type::Integer,
        Type::Float,
        Type::Boolean,
        Type::String,
        function(vec![Type::Integer], Type::Boolean),
        function(vec![Type::Integer, Type::Any], Type::Boolean),
        function(vec![Type::Integer], Type::Nothing),
        Type::Record(RecordType { name: "P".to_string(), fields: vec![Type::Integer] }),
        Type::Record(RecordType { name: "Q".to_string(), fields: vec![Type::Integer] }),
        Type::Record(RecordType { name: "P".to_string(), fields: vec![Type::Float] }),
        Type::Struct(StructType { name: "S".to_string(), fields: vec![("a".to_string(), Type::Integer)] }),
        Type::Struct(StructType { name: "S".to_string(), fields: vec![("b".to_string(), Type::Integer)] }),
        Type::Struct(StructType { name: "S".to_string(), fields: vec![] }),
    ]
}

#[test]
fn any_matches_every_type() {
    for ty in samples() {
        assert!(Type::Any.compare(&ty));
        assert!(ty.compare(&Type::Any));
    }
}

#[test]
fn without_any_only_equal_types_match() {
    let types = samples();
    for (i, a) in types.iter().enumerate() {
        for (j, b) in types.iter().enumerate() {
            assert_eq!(a.same(b), i == j);
            assert_eq!(a.same(b), a == b);
            if i != 0 && j != 0 {
                assert_eq!(a.compare(b), i == j);
            }
        }
    }
}

#[test]
fn any_inside_a_type_is_no_wildcard() {
    let loose = function(vec![Type::Any], Type::Boolean);
    let exact = function(vec![Type::Integer], Type::Boolean);
    assert!(!loose.compare(&exact));
}

#[test]
fn a_copy_of_a_type_is_the_same() {
    for ty in samples() {
        assert_eq!(ty.clone(), ty);
    }
}

#[test]
fn host_types_stand_for_types() {
    assert_eq!(<bool as AsType>::as_type(), Type::Boolean);
    assert_eq!(<i64 as AsType>::as_type(), Type::Integer);
    assert_eq!(<String as AsType>::as_type(), Type::String);
    assert_eq!(<() as AsType>::as_type(), Type::Nothing);
    assert_eq!(<Float as AsType>::as_type(), Type::Float);
}

#[test]
fn texts_are_compared_and_numbers_written() {
    assert!(same_text("let", "let"));
    assert!(!same_text("let", "le"));
    assert!(!same_text("let", "lex"));
    assert!(before("A", "B"));
    assert!(before("A", "AA"));
    assert!(!before("A", "A"));
    assert!(!before("b", "a"));
    assert!(before("", "a"));
    assert!(!before("a", ""));
    assert_eq!(decimal_text(0), "0");
    assert_eq!(decimal_text(7), "7");
    assert_eq!(decimal_text(1203), "1203");
}

#[test]
fn host_values_become_values() {
    assert_eq!(Value::from(5i64), Value::Integer(5));
    assert_eq!(Value::from(true), Value::Boolean(true));
    assert_eq!(Value::from(()), Value::Nothing);
    assert_eq!(Value::from(Float::Bits(7)), Value::Float(Float::Bits(7)));
}
