# protobuf

Verified core of a protobuf toolkit:

- `rt`: sizes of values in the wire format (varints, ZigZag, tags,
  length-delimited fields), stated against the varint encoding.
- `enums`: protobuf enums and enum values that may be unknown.
- `index`: the flat index of a file descriptor (messages in depth-first
  order, enums, oneofs, fields), with duplicate field detection.
- `type_resolver`: resolution of message and enum names in a parsed file
  and its dependencies.
- `ident`, `code_writer`, `extensions`: Rust identifiers and the code
  generated for extension fields.
- `protoc`: arguments of the `protoc` command and reading of its version.

`app/` runs `protoc`: it finds the executable, spawns it and hands its
output to the library.
