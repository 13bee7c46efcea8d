//! Enums nested in `FieldDescriptorProto`.

use vstd::prelude::*;

verus! {

/// Field type.
#[allow(non_camel_case_types)]
#[derive(PartialEq, Eq, Structural, Clone, Copy, Debug)]
pub enum Type {
    /// `double`
    TYPE_DOUBLE,
    /// `float`
    TYPE_FLOAT,
    /// `int64`
    TYPE_INT64,
    /// `uint64`
    TYPE_UINT64,
    /// `int32`
    TYPE_INT32,
    /// `fixed64`
    TYPE_FIXED64,
    /// `fixed32`
    TYPE_FIXED32,
    /// `bool`
    TYPE_BOOL,
    /// `string`
    TYPE_STRING,
    /// Group (deprecated).
    TYPE_GROUP,
    /// Message.
    TYPE_MESSAGE,
    /// `bytes`
    TYPE_BYTES,
    /// `uint32`
    TYPE_UINT32,
    /// Enum.
    TYPE_ENUM,
    /// `sfixed32`
    TYPE_SFIXED32,
    /// `sfixed64`
    TYPE_SFIXED64,
    /// `sint32`
    TYPE_SINT32,
    /// `sint64`
    TYPE_SINT64,
}

/// Field label.
#[allow(non_camel_case_types)]
#[derive(PartialEq, Eq, Structural, Clone, Copy, Debug)]
pub enum Label {
    /// `optional`
    LABEL_OPTIONAL,
    /// `required`
    LABEL_REQUIRED,
    /// `repeated`
    LABEL_REPEATED,
}

} // verus!
