use som_interpreter::value::{AstNaNBoxedVal, Interned};
use som_interpreter::value_enum::ValueEnum;

fn round_trip(e: ValueEnum) -> ValueEnum {
    ValueEnum::from_value(e.into_value())
}

#[test]
fn kinds_round_trip_through_their_boxing() {
    let kinds = vec![
        ValueEnum::Nil,
        ValueEnum::System,
        ValueEnum::Boolean(true),
        ValueEnum::Boolean(false),
        ValueEnum::Integer(-5),
        ValueEnum::Integer(i32::MAX),
        ValueEnum::Double(1.5f64.to_bits()),
        ValueEnum::Double((-0.0f64).to_bits()),
        ValueEnum::Symbol(Interned(42)),
        ValueEnum::BigInteger(0x10),
        ValueEnum::String(0x20),
        ValueEnum::Block(0x1234),
        ValueEnum::Instance(0xFFFF_FFFF_FFFF),
        ValueEnum::Class(8),
        ValueEnum::Invokable(16),
    ];
    for k in kinds {
        assert_eq!(round_trip(k), k);
    }
}

#[test]
fn boxing_matches_the_value_constructors() {
    assert_eq!(ValueEnum::Integer(-5).into_value(), AstNaNBoxedVal::new_integer(-5));
    assert_eq!(ValueEnum::Nil.into_value(), AstNaNBoxedVal::nil());
    assert_eq!(ValueEnum::Boolean(true).into_value(), AstNaNBoxedVal::new_boolean(true));
    assert_eq!(ValueEnum::Double(2.25f64.to_bits()).into_value().encoded, 2.25f64.to_bits());
}

#[test]
fn an_array_decodes_to_nil() {
    assert_eq!(ValueEnum::from_value(AstNaNBoxedVal::Array(64)), ValueEnum::Nil);
}

#[test]
fn decoding_by_kind() {
    assert_eq!(ValueEnum::from_value(AstNaNBoxedVal::new_symbol(Interned(7))), ValueEnum::Symbol(Interned(7)));
    assert_eq!(ValueEnum::from_value(AstNaNBoxedVal::Block(99)), ValueEnum::Block(99));
    assert_eq!(ValueEnum::from_value(AstNaNBoxedVal { encoded: 3.0f64.to_bits() }), ValueEnum::Double(3.0f64.to_bits()));
}
