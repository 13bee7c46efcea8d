use protobuf::enums::EnumOrUnknown;
use protobuf::enums::ProtobufEnum;

#[derive(Clone, Copy, PartialEq, Eq, PartialOrd, Debug)]
enum Color {
    Red,
    Green,
    Blue,
}

impl Default for Color {
    fn default() -> Color {
        Color::Red
    }
}

impl ProtobufEnum for Color {
    // The specification of the value, as the compiled trait declares it.
    fn spec_value(&self) -> i32 {
        ProtobufEnum::value(self)
    }

    // The variant of a value, as the compiled trait declares it.
    fn spec_from_value(v: i32) -> Option<Color> {
        Color::from_i32(v)
    }

    fn value(&self) -> i32 {
        match self {
            Color::Red => 0,
            Color::Green => 1,
            Color::Blue => 5,
        }
    }

    fn from_i32(v: i32) -> Option<Color> {
        match v {
            0 => Some(Color::Red),
            1 => Some(Color::Green),
            5 => Some(Color::Blue),
            _ => None,
        }
    }

    fn values() -> &'static [Color] {
        &[Color::Red, Color::Green, Color::Blue]
    }
}

#[test]
fn known_value_round_trips() {
    let e = EnumOrUnknown::new(Color::Blue);
    assert_eq!(e.value(), 5);
    assert_eq!(e.enum_value(), Ok(Color::Blue));
    assert_eq!(e.unwrap(), Color::Blue);
    assert_eq!(e.enum_value_or_default(), Color::Blue);
    assert_eq!(e.enum_value_or(Color::Green), Color::Blue);
}

#[test]
fn unknown_value_is_preserved() {
    let e: EnumOrUnknown<Color> = EnumOrUnknown::from_i32(42);
    assert_eq!(e.value(), 42);
    assert_eq!(e.enum_value(), Err(42));
    assert_eq!(e.enum_value_or_default(), Color::Red);
    assert_eq!(e.enum_value_or(Color::Green), Color::Green);
}

#[test]
fn enum_or_unknown_is_copy_and_comparable() {
    let a: EnumOrUnknown<Color> = EnumOrUnknown::from_i32(1);
    let b = a;
    assert!(a == b);
    assert!(EnumOrUnknown::<Color>::from_i32(0) < EnumOrUnknown::<Color>::from_i32(1));
    assert_eq!(Color::values().len(), 3);
}
