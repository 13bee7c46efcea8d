//! The parts of the descriptor protos (`descriptor.proto`) that indexing
//! and code generation read.

use vstd::prelude::*;

pub mod field_descriptor_proto;

use field_descriptor_proto::Label;
use field_descriptor_proto::Type;

verus! {

/// `FieldDescriptorProto`
pub struct FieldDescriptorProto {
    /// Field name.
    pub name: String,
    /// Field number.
    pub number: i32,
    /// JSON name of the field, as filled by `protoc`.
    pub json_name: String,
    /// Index of the containing oneof, if the field is a member of one.
    pub oneof_index: Option<i32>,
    /// `proto3_optional` flag.
    pub proto3_optional: bool,
    /// Field label.
    pub label: Label,
    /// Field type.
    pub field_type: Type,
    /// Name of the message or enum type, for message and enum fields.
    pub field_type_name: Option<String>,
    /// Name of the extended message, for extensions.
    pub extendee: String,
}

/// `EnumValueDescriptorProto`
pub struct EnumValueDescriptorProto {
    /// Value name.
    pub name: String,
    /// Value number.
    pub number: i32,
}

/// `EnumDescriptorProto`
pub struct EnumDescriptorProto {
    /// Enum name.
    pub name: String,
    /// Enum values.
    pub value: Vec<EnumValueDescriptorProto>,
}

/// `OneofDescriptorProto`
pub struct OneofDescriptorProto {
    /// Oneof name.
    pub name: String,
}

/// `DescriptorProto`: a message type.
pub struct DescriptorProto {
    /// Message name.
    pub name: String,
    /// Fields.
    pub field: Vec<FieldDescriptorProto>,
    /// Extensions declared inside the message.
    pub extension: Vec<FieldDescriptorProto>,
    /// Nested message types.
    pub nested_type: Vec<DescriptorProto>,
    /// Nested enum types.
    pub enum_type: Vec<EnumDescriptorProto>,
    /// Oneof declarations.
    pub oneof_decl: Vec<OneofDescriptorProto>,
    /// `options.map_entry`
    pub map_entry: bool,
}

/// `FileDescriptorProto`
pub struct FileDescriptorProto {
    /// File name.
    pub name: String,
    /// Package, possibly empty.
    pub package: String,
    /// Top-level message types.
    pub message_type: Vec<DescriptorProto>,
    /// Top-level enum types.
    pub enum_type: Vec<EnumDescriptorProto>,
    /// File-level extensions.
    pub extension: Vec<FieldDescriptorProto>,
}

} // verus!
