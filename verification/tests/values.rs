use configurator::literal::{Literal, NumberLiteral};
use configurator::text::{clone_text, same_text};
use configurator::value::{json_value_to_figment_value, Num, Value};

#[test]
fn null_becomes_the_empty_value() {
    assert_eq!(json_value_to_figment_value(&Literal::Null), Value::Empty);
}

#[test]
fn booleans_and_strings_keep_their_content() {
    assert_eq!(json_value_to_figment_value(&Literal::Bool(true)), Value::Bool(true));
    assert_eq!(json_value_to_figment_value(&Literal::Bool(false)), Value::Bool(false));
    assert_eq!(
        json_value_to_figment_value(&Literal::String("text".to_string())),
        Value::String("text".to_string())
    );
}

#[test]
fn numbers_keep_their_form() {
    assert_eq!(
        json_value_to_figment_value(&Literal::Number(NumberLiteral::Unsigned(u64::MAX))),
        Value::Num(Num::U64(u64::MAX))
    );
    assert_eq!(
        json_value_to_figment_value(&Literal::Number(NumberLiteral::Signed(-5))),
        Value::Num(Num::I64(-5))
    );
    let bits = 1.5f64.to_bits();
    assert_eq!(
        json_value_to_figment_value(&Literal::Number(NumberLiteral::Float { bits })),
        Value::Num(Num::F64 { bits })
    );
    assert_eq!(bits, 0x3ff8_0000_0000_0000);
}

#[test]
fn lists_and_records_are_converted_in_order() {
    let literal = Literal::Object(vec![
        ("z".to_string(), Literal::Array(vec![Literal::Null, Literal::Bool(true)])),
        ("a".to_string(), Literal::Object(Vec::new())),
        ("z".to_string(), Literal::Number(NumberLiteral::Unsigned(1))),
    ]);
    assert_eq!(
        json_value_to_figment_value(&literal),
        Value::Dict(vec![
            ("z".to_string(), Value::Array(vec![Value::Empty, Value::Bool(true)])),
            ("a".to_string(), Value::Dict(Vec::new())),
            ("z".to_string(), Value::Num(Num::U64(1))),
        ])
    );
    assert_eq!(json_value_to_figment_value(&Literal::Array(Vec::new())), Value::Array(Vec::new()));
}

#[test]
fn literal_clone_copies_every_level() {
    let literal = Literal::Array(vec![
        Literal::Object(vec![("k".to_string(), Literal::String("v".to_string()))]),
        Literal::Number(NumberLiteral::Signed(i64::MIN)),
        Literal::Null,
    ]);
    assert_eq!(literal.clone(), literal);
}

#[test]
fn same_text_compares_by_characters() {
    assert!(same_text("", ""));
    assert!(same_text("uint8", "uint8"));
    assert!(!same_text("uint8", "uint"));
    assert!(!same_text("a", "A"));
}

#[test]
fn clone_text_copies_what_is_there() {
    assert_eq!(clone_text(&None), None);
    assert_eq!(clone_text(&Some("title".to_string())), Some("title".to_string()));
}

#[test]
fn number_takes_the_first_form_that_holds_it() {
    let bits = 2.0f64.to_bits();
    assert_eq!(
        NumberLiteral::from_forms(Some(2), Some(2), Some(bits)),
        Some(NumberLiteral::Unsigned(2))
    );
    assert_eq!(
        NumberLiteral::from_forms(None, Some(-2), Some((-2.0f64).to_bits())),
        Some(NumberLiteral::Signed(-2))
    );
    assert_eq!(
        NumberLiteral::from_forms(Some(u64::MAX), None, Some(bits)),
        Some(NumberLiteral::Unsigned(u64::MAX))
    );
    assert_eq!(
        NumberLiteral::from_forms(None, None, Some(bits)),
        Some(NumberLiteral::Float { bits })
    );
    assert_eq!(NumberLiteral::from_forms(None, None, None), None);
}
