//! Protobuf enums, and enum values that may be unknown to the program.

use std::marker::PhantomData;

use vstd::prelude::*;

verus! {

/// Trait implemented by all protobuf enum types.
pub trait ProtobufEnum: Eq + Sized + Copy + Default {
    /// The `i32` value of the enum variant.
    spec fn spec_value(&self) -> i32;

    /// The variant with value `v`, `None` if no variant has it.
    spec fn spec_from_value(v: i32) -> Option<Self>;

    /// Get enum `i32` value. The variant is found again from its value.
    fn value(&self) -> (r: i32)
        ensures
            r == self.spec_value(),
            Self::spec_from_value(r) == Some(*self),
    ;

    /// Try to create an enum from `i32` value.
    /// Return `None` if value is unknown.
    fn from_i32(v: i32) -> (r: Option<Self>)
        ensures
            r == Self::spec_from_value(v),
            match r {
                Some(e) => e.spec_value() == v,
                None => forall|e: Self| e.spec_value() != v,
            },
    ;

    /// Get all enum values for enum type.
    fn values() -> (r: &'static [Self])
        ensures
            forall|e: Self| r@.contains(e),
    ;
}

/// `PhantomData::clone`: there is only one `PhantomData<T>`, and cloning
/// gives it back.
pub assume_specification<T: core::marker::PointeeSized>[ <PhantomData<T> as Clone>::clone ](
    x: &PhantomData<T>,
) -> (r: PhantomData<T>)
    ensures
        r == *x,
;

/// Protobuf enums with possibly unknown values are preserved in this struct.
#[derive(Eq, PartialEq, Ord, PartialOrd, Copy, Clone)]
pub struct EnumOrUnknown<E> {
    value: i32,
    _marker: PhantomData<E>,
}

impl<E> View for EnumOrUnknown<E> {
    type V = i32;

    closed spec fn view(&self) -> i32 {
        self.value
    }
}

/// Some variant of `E` has the value `v`.
pub open spec fn is_known<E: ProtobufEnum>(v: i32) -> bool {
    exists|e: E| e.spec_value() == v
}

impl<E> EnumOrUnknown<E> {
    /// The value holding `value`.
    pub closed spec fn spec_from_i32(value: i32) -> EnumOrUnknown<E> {
        EnumOrUnknown { value, _marker: PhantomData }
    }

    /// The value holding `value` holds `value`.
    pub broadcast proof fn lemma_spec_from_i32(value: i32)
        ensures
            (#[trigger] EnumOrUnknown::<E>::spec_from_i32(value))@ == value,
    {
    }

    /// Construct from any `i32` value.
    ///
    /// Note passed value is not required to be a valid enum value.
    pub fn from_i32(value: i32) -> (r: EnumOrUnknown<E>)
        ensures
            r@ == value,
            r == EnumOrUnknown::<E>::spec_from_i32(value),
    {
        EnumOrUnknown { value, _marker: PhantomData }
    }
}

impl<E: ProtobufEnum> EnumOrUnknown<E> {
    /// Construct from typed enum
    pub fn new(e: E) -> (r: EnumOrUnknown<E>)
        ensures
            r@ == e.spec_value(),
            E::spec_from_value(r@) == Some(e),
            r == EnumOrUnknown::<E>::spec_from_i32(e.spec_value()),
    {
        EnumOrUnknown::from_i32(e.value())
    }

    /// Get contained `i32` value of enum
    pub fn value(&self) -> (r: i32)
        ensures
            r == self@,
    {
        self.value
    }

    /// Get `i32` value as typed enum. Return the value itself if it is
    /// unknown.
    pub fn enum_value(&self) -> (r: Result<E, i32>)
        ensures
            r == match E::spec_from_value(self@) {
                Some(e) => Ok(e),
                None => Err(self@),
            },
            match r {
                Ok(e) => e.spec_value() == self@,
                Err(v) => v == self@ && !is_known::<E>(self@),
            },
    {
        match E::from_i32(self.value) {
            Some(e) => Ok(e),
            None => Err(self.value),
        }
    }

    /// Get contained enum, panic if value is unknown.
    pub fn unwrap(&self) -> (r: E)
        requires
            is_known::<E>(self@),
        ensures
            E::spec_from_value(self@) == Some(r),
            r.spec_value() == self@,
    {
        self.enum_value().unwrap()
    }

    /// Get `i32` value as typed enum.
    /// Return default enum value (first value) if value is unknown.
    pub fn enum_value_or_default(&self) -> (r: E)
        ensures
            E::spec_from_value(self@) matches Some(e) ==> r == e,
            E::spec_from_value(self@) is None ==> call_ensures(E::default, (), r),
            is_known::<E>(self@) ==> r.spec_value() == self@,
            !is_known::<E>(self@) ==> call_ensures(E::default, (), r),
    {
        match self.enum_value() {
            Ok(e) => e,
            Err(_) => E::default(),
        }
    }

    /// Get `i32` value as typed enum.
    /// Return given enum value if value is unknown.
    pub fn enum_value_or(&self, map_unknown: E) -> (r: E)
        ensures
            E::spec_from_value(self@) matches Some(e) ==> r == e,
            E::spec_from_value(self@) is None ==> r == map_unknown,
            is_known::<E>(self@) ==> r.spec_value() == self@,
            !is_known::<E>(self@) ==> r == map_unknown,
    {
        match self.enum_value() {
            Ok(e) => e,
            Err(_) => map_unknown,
        }
    }
}

impl<E: ProtobufEnum> From<E> for EnumOrUnknown<E> {
    fn from(e: E) -> (r: EnumOrUnknown<E>) {
        EnumOrUnknown::new(e)
    }
}

impl<E: ProtobufEnum> vstd::std_specs::convert::FromSpecImpl<E> for EnumOrUnknown<E> {
    open spec fn obeys_from_spec() -> bool {
        true
    }

    open spec fn from_spec(e: E) -> EnumOrUnknown<E> {
        EnumOrUnknown::spec_from_i32(e.spec_value())
    }
}

impl<E: ProtobufEnum> Default for EnumOrUnknown<E> {
    fn default() -> (r: EnumOrUnknown<E>)
        ensures
            exists|d: E| call_ensures(E::default, (), d) && r@ == d.spec_value(),
    {
        let d = E::default();
        EnumOrUnknown::new(d)
    }
}

} // verus!
