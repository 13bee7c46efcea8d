use protobuf::code_writer::CodeWriter;
use protobuf::descriptor::field_descriptor_proto::Label;
use protobuf::descriptor::field_descriptor_proto::Type;
use protobuf::descriptor::FieldDescriptorProto;
use protobuf::extensions::write_extensions;
use protobuf::extensions::ExtGen;
use protobuf::ident::RustIdent;
use protobuf::ident::RustIdentWithPath;
use protobuf::ident::RustRelativePath;

fn ext_field(name: &str, number: i32, label: Label, field_type: Type, value_type_name: Option<&str>) -> FieldDescriptorProto {
    FieldDescriptorProto {
        name: name.to_string(),
        number,
        json_name: name.to_string(),
        oneof_index: None,
        proto3_optional: false,
        label,
        field_type,
        field_type_name: value_type_name.map(|s| s.to_string()),
        extendee: ".pkg.Target".to_string(),
    }
}

fn super_path(name: &str) -> RustIdentWithPath {
    RustIdentWithPath {
        path: RustRelativePath::from_idents(vec![RustIdent::new("root")]),
        ident: RustIdent::new(name),
    }
}

fn gen<'a>(field: &'a FieldDescriptorProto, value_type: Option<RustIdentWithPath>) -> ExtGen<'a> {
    ExtGen {
        field,
        extendee: super_path("Target"),
        value_type,
        protobuf_crate_path: "::protobuf".to_string(),
    }
}

#[test]
fn no_extensions_write_nothing() {
    let mut w = CodeWriter::new();
    write_extensions(&[], &mut w);
    assert!(w.get_lines().is_empty());
}

#[test]
fn extension_declarations() {
    let f1 = ext_field("count", 100, Label::LABEL_OPTIONAL, Type::TYPE_INT32, None);
    let f2 = ext_field("tags", 101, Label::LABEL_REPEATED, Type::TYPE_STRING, None);
    let f3 = ext_field("color", -5, Label::LABEL_OPTIONAL, Type::TYPE_ENUM, Some(".pkg.Color"));
    let f4 = ext_field("grouped", 103, Label::LABEL_OPTIONAL, Type::TYPE_GROUP, None);
    let f5 = ext_field("nested", 104, Label::LABEL_OPTIONAL, Type::TYPE_MESSAGE, Some(".pkg.Nested"));
    let exts = vec![
        gen(&f1, None),
        gen(&f2, None),
        gen(&f3, Some(super_path("Color"))),
        gen(&f4, None),
        gen(&f5, Some(super_path("Nested"))),
    ];
    let mut w = CodeWriter::new();
    write_extensions(&exts, &mut w);
    let expected = vec![
        "",
        "/// Extension fields",
        "pub mod exts {",
        "",
        "    pub const count: ::protobuf::ext::ExtFieldOptional<root::Target, i32> = ::protobuf::ext::ExtFieldOptional { field_number: 100, phantom: ::std::marker::PhantomData };",
        "",
        "    pub const tags: ::protobuf::ext::ExtFieldRepeated<root::Target, ::std::string::String> = ::protobuf::ext::ExtFieldRepeated { field_number: 101, phantom: ::std::marker::PhantomData };",
        "",
        "    pub const color: ::protobuf::ext::ExtFieldOptional<root::Target, ::protobuf::EnumOrUnknown<root::Color>> = ::protobuf::ext::ExtFieldOptional { field_number: -5, phantom: ::std::marker::PhantomData };",
        "",
        "    pub const nested: ::protobuf::ext::ExtFieldOptional<root::Target, root::Nested> = ::protobuf::ext::ExtFieldOptional { field_number: 104, phantom: ::std::marker::PhantomData };",
        "}",
    ];
    assert_eq!(w.get_lines(), &expected.iter().map(|s| s.to_string()).collect::<Vec<String>>());
}

#[test]
fn extendee_and_repeated() {
    let f = ext_field("count", 7, Label::LABEL_REPEATED, Type::TYPE_BYTES, None);
    let g = gen(&f, None);
    assert_eq!(g.extendee_rust_name(), "root::Target");
    assert!(g.repeated());
    let mut w = CodeWriter::new();
    g.write(&mut w);
    assert_eq!(
        w.get_lines()[0],
        "pub const count: ::protobuf::ext::ExtFieldRepeated<root::Target, ::std::vec::Vec<u8>> = ::protobuf::ext::ExtFieldRepeated { field_number: 7, phantom: ::std::marker::PhantomData };"
    );
}
