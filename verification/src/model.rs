//! The parts of a parsed `.proto` file that name resolution reads.

use vstd::prelude::*;

use crate::protobuf_path::ProtobufAbsPath;

verus! {

/// An enum declared in a `.proto` file.
pub struct Enumeration {
    /// Enum name.
    pub name: String,
}

/// An extension field declared in a `.proto` file.
pub struct Extension {
    /// Name of the message that is extended, as written.
    pub extendee: String,
    /// Name of the extension field.
    pub field_name: String,
}

/// A message declared in a `.proto` file.
pub struct Message {
    /// Message name.
    pub name: String,
    /// Nested messages.
    pub messages: Vec<Message>,
    /// Nested enums.
    pub enums: Vec<Enumeration>,
    /// Extensions declared in the message.
    pub extensions: Vec<Extension>,
}

/// A parsed `.proto` file.
pub struct FileDescriptor {
    /// Package of the file; the root package when there is none.
    pub package: ProtobufAbsPath,
    /// Top-level messages.
    pub messages: Vec<Message>,
    /// Top-level enums.
    pub enums: Vec<Enumeration>,
    /// File-level extensions.
    pub extensions: Vec<Extension>,
}

/// A dependency of the file being resolved.
pub struct FileDescriptorPair {
    /// The parsed dependency.
    pub parsed: FileDescriptor,
}

} // verus!
