use protobuf::descriptor::field_descriptor_proto::Label;
use protobuf::descriptor::field_descriptor_proto::Type;
use protobuf::descriptor::DescriptorProto;
use protobuf::descriptor::EnumDescriptorProto;
use protobuf::descriptor::EnumValueDescriptorProto;
use protobuf::descriptor::FieldDescriptorProto;
use protobuf::descriptor::FileDescriptorProto;
use protobuf::descriptor::OneofDescriptorProto;
use protobuf::index::FileDescriptorCommon;
use protobuf::index::MessagePath;
use protobuf::index::ReflectError;
use protobuf::model::FileDescriptor;
use protobuf::protobuf_path::ProtobufAbsPath;

fn field(name: &str, number: i32, json_name: &str, oneof_index: Option<i32>) -> FieldDescriptorProto {
    FieldDescriptorProto {
        name: name.to_string(),
        number,
        json_name: json_name.to_string(),
        oneof_index,
        proto3_optional: false,
        label: Label::LABEL_OPTIONAL,
        field_type: Type::TYPE_INT32,
        field_type_name: None,
        extendee: String::new(),
    }
}

fn enum_type(name: &str, values: &[(&str, i32)]) -> EnumDescriptorProto {
    EnumDescriptorProto {
        name: name.to_string(),
        value: values
            .iter()
            .map(|(n, v)| EnumValueDescriptorProto { name: n.to_string(), number: *v })
            .collect(),
    }
}

fn message(name: &str, fields: Vec<FieldDescriptorProto>, nested: Vec<DescriptorProto>) -> DescriptorProto {
    DescriptorProto {
        name: name.to_string(),
        field: fields,
        extension: Vec::new(),
        nested_type: nested,
        enum_type: Vec::new(),
        oneof_decl: Vec::new(),
        map_entry: false,
    }
}

fn sample_file() -> FileDescriptorProto {
    let mut outer = message(
        "Outer",
        vec![
            field("a", 1, "a", None),
            field("b_field", 2, "bField", Some(0)),
            field("c", 3, "c", Some(1)),
        ],
        vec![
            message("Inner", vec![field("x", 1, "x", None)], vec![message("Deep", vec![], vec![])]),
            message("Other", vec![], vec![]),
        ],
    );
    outer.enum_type.push(enum_type("Kind", &[("K0", 0), ("K1", 1), ("K1_ALIAS", 1)]));
    outer.oneof_decl.push(OneofDescriptorProto { name: "choice".to_string() });
    outer.oneof_decl.push(OneofDescriptorProto { name: "_c".to_string() });
    outer.field[2].proto3_optional = true;
    let mut file = FileDescriptorProto {
        name: "sample.proto".to_string(),
        package: "pkg.sub".to_string(),
        message_type: vec![outer, message("Second", vec![], vec![])],
        enum_type: vec![enum_type("TopEnum", &[("ZERO", 0)])],
        extension: Vec::new(),
    };
    let mut ext = field("ext_field", 100, "extField", None);
    ext.extendee = ".pkg.sub.Outer".to_string();
    file.extension.push(ext);
    file
}

#[test]
fn messages_are_indexed_depth_first() {
    let file = sample_file();
    let c = match FileDescriptorCommon::new(&file, Vec::new()) {
        Ok(c) => c,
        Err(_) => panic!("indexing failed"),
    };
    let names: Vec<&str> = c.messages.iter().map(|m| m.name.as_str()).collect();
    assert_eq!(names, vec!["Outer", "Inner", "Deep", "Other", "Second"]);
    let full: Vec<&str> = c.messages.iter().map(|m| m.full_name.as_str()).collect();
    assert_eq!(
        full,
        vec!["pkg.sub.Outer", "pkg.sub.Outer.Inner", "pkg.sub.Outer.Inner.Deep", "pkg.sub.Outer.Other", "pkg.sub.Second"]
    );
    assert_eq!(c.messages[2].name_to_package, "Outer.Inner.Deep");
    assert_eq!(c.messages[2].path.0, vec![0, 0, 0]);
    assert_eq!(c.messages[2].enclosing_message, Some(1));
    assert_eq!(c.messages[0].enclosing_message, None);
    assert_eq!(c.messages[0].nested_messages, vec![1, 3]);
    assert_eq!(c.top_level_messages, vec![0, 4]);
    assert_eq!(c.message_by_name_to_package.get(&"Outer.Other".to_string()), Some(3));
    assert_eq!(c.message_by_name_to_package.get(&"Missing".to_string()), None);
}

#[test]
fn enums_top_level_first() {
    let file = sample_file();
    let c = match FileDescriptorCommon::new(&file, Vec::new()) {
        Ok(c) => c,
        Err(_) => panic!("indexing failed"),
    };
    assert_eq!(c.enums.len(), 2);
    assert_eq!(c.enums[0].full_name, "pkg.sub.TopEnum");
    assert_eq!(c.enums[0].enclosing_message, None);
    assert_eq!(c.enums[1].full_name, "pkg.sub.Outer.Kind");
    assert_eq!(c.enums[1].name_to_package, "Outer.Kind");
    assert_eq!(c.enums[1].enclosing_message, Some(0));
    assert_eq!(c.messages[0].first_enum_index, 1);
    assert_eq!(c.messages[0].enum_count, 1);
    // the alias keeps the last index for its number
    assert_eq!(c.enums[1].index_by_number.get(&1), Some(&2));
    assert_eq!(c.enums[1].index_by_name.get(&"K0".to_string()), Some(0));
    assert_eq!(c.enums_by_name_to_package.get(&"Outer.Kind".to_string()), Some(1));
}

#[test]
fn oneofs_and_fields() {
    let file = sample_file();
    let c = match FileDescriptorCommon::new(&file, Vec::new()) {
        Ok(c) => c,
        Err(_) => panic!("indexing failed"),
    };
    assert_eq!(c.oneofs.len(), 2);
    assert_eq!(c.oneofs[0].fields, vec![1]);
    assert!(!c.oneofs[0].synthetic);
    assert_eq!(c.oneofs[1].fields, vec![2]);
    assert!(c.oneofs[1].synthetic);
    let mfi = &c.messages[0].message_index;
    assert_eq!(mfi.field_count, 3);
    assert_eq!(mfi.field_index_by_number.get(&2), Some(&1));
    assert_eq!(mfi.field_index_by_name.get(&"b_field".to_string()), Some(1));
    assert_eq!(mfi.field_index_by_name_or_json_name.get(&"bField".to_string()), Some(1));
    assert_eq!(mfi.field_index_by_name_or_json_name.get(&"b_field".to_string()), Some(1));
    let slice = mfi.slice_fields(&c.fields);
    let json: Vec<&str> = slice.iter().map(|f| f.json_name.as_str()).collect();
    assert_eq!(json, vec!["a", "bField", "c"]);
    // fields of all messages, then the file-level extension
    assert_eq!(c.first_extension_field_index, 4);
    assert_eq!(c.fields.len(), 5);
    assert_eq!(c.fields[4].json_name, "extField");
}

#[test]
fn message_path_eval() {
    let file = sample_file();
    assert_eq!(MessagePath(vec![0, 0, 0]).eval(&file).map(|m| m.name.as_str()), Some("Deep"));
    assert_eq!(MessagePath(vec![0, 1]).eval(&file).map(|m| m.name.as_str()), Some("Other"));
    assert!(MessagePath(vec![0, 2]).eval(&file).is_none());
    assert!(MessagePath(vec![]).eval(&file).is_none());
    assert!(MessagePath(vec![2]).eval(&file).is_none());
}

fn conflict_name(fields: Vec<FieldDescriptorProto>) -> Option<String> {
    let file = FileDescriptorProto {
        name: "c.proto".to_string(),
        package: String::new(),
        message_type: vec![message("M", fields, vec![])],
        enum_type: Vec::new(),
        extension: Vec::new(),
    };
    match FileDescriptorCommon::new(&file, Vec::new()) {
        Ok(_) => None,
        Err(ReflectError::NonUniqueFieldName(name)) => Some(name),
    }
}

#[test]
fn duplicate_fields_are_rejected() {
    assert_eq!(conflict_name(vec![field("a", 1, "a", None), field("b", 2, "b", None)]), None);
    assert_eq!(
        conflict_name(vec![field("a", 1, "a", None), field("b", 1, "b", None)]),
        Some("b".to_string())
    );
    assert_eq!(
        conflict_name(vec![field("a", 1, "a", None), field("a", 2, "a2", None)]),
        Some("a".to_string())
    );
    // the JSON name of one field is the name of another
    assert_eq!(
        conflict_name(vec![field("foo_bar", 1, "fooBar", None), field("fooBar", 2, "fooBar", None)]),
        Some("fooBar".to_string())
    );
    assert_eq!(
        conflict_name(vec![field("x", 1, "y", None), field("y", 2, "y", None), field("z", 2, "z", None)]),
        Some("y".to_string())
    );
}

#[test]
fn empty_package_names() {
    let file = FileDescriptorProto {
        name: "e.proto".to_string(),
        package: String::new(),
        message_type: vec![message("A", vec![], vec![message("B", vec![], vec![])])],
        enum_type: Vec::new(),
        extension: Vec::new(),
    };
    let c = match FileDescriptorCommon::new(&file, Vec::new()) {
        Ok(c) => c,
        Err(_) => panic!("indexing failed"),
    };
    assert_eq!(c.messages[1].full_name, "A.B");
    assert_eq!(c.messages[0].full_name, "A");
}

#[test]
fn nested_enums_follow_their_message() {
    let mut a = message("A", vec![], vec![message("B", vec![], vec![])]);
    a.enum_type.push(enum_type("E1", &[("V", 0)]));
    let file = FileDescriptorProto {
        name: "n.proto".to_string(),
        package: "pkg".to_string(),
        message_type: vec![a, message("C", vec![], vec![])],
        enum_type: vec![enum_type("E0", &[("W", 0)])],
        extension: Vec::new(),
    };
    let c = match FileDescriptorCommon::new(&file, Vec::new()) {
        Ok(c) => c,
        Err(_) => panic!("indexing failed"),
    };
    assert_eq!(c.top_level_messages, vec![0, 2]);
    let names: Vec<&str> = c.messages.iter().map(|m| m.name_to_package.as_str()).collect();
    assert_eq!(names, vec!["A", "A.B", "C"]);
    let full: Vec<&str> = c.messages.iter().map(|m| m.full_name.as_str()).collect();
    assert_eq!(full, vec!["pkg.A", "pkg.A.B", "pkg.C"]);
    assert_eq!(c.messages[0].nested_messages, vec![1]);
    assert_eq!(c.messages[1].enclosing_message, Some(0));
    let enums: Vec<&str> = c.enums.iter().map(|e| e.name_to_package.as_str()).collect();
    assert_eq!(enums, vec!["E0", "A.E1"]);
    assert_eq!(c.messages[0].first_enum_index, 1);
    assert_eq!(c.messages[1].first_enum_index, 2);
    assert_eq!(c.messages[2].first_enum_index, 2);
    assert_eq!(c.message_by_name_to_package.get(&"A.B".to_string()), Some(1));
    assert_eq!(c.enums_by_name_to_package.get(&"E0".to_string()), Some(0));
}

#[test]
fn first_conflict_in_depth_first_order_is_reported() {
    let inner = message("Inner", vec![field("p", 1, "p", None), field("q", 1, "q", None)], vec![]);
    let outer = message("Outer", vec![], vec![inner]);
    let second = message("Second", vec![field("r", 1, "r", None), field("r", 2, "r2", None)], vec![]);
    let file = FileDescriptorProto {
        name: "d.proto".to_string(),
        package: String::new(),
        message_type: vec![outer, second],
        enum_type: Vec::new(),
        extension: Vec::new(),
    };
    match FileDescriptorCommon::new(&file, Vec::new()) {
        Ok(_) => panic!("conflict not found"),
        Err(ReflectError::NonUniqueFieldName(name)) => assert_eq!(name, "q"),
    }
}

#[test]
fn dependencies_are_kept() {
    let dep = FileDescriptor {
        package: ProtobufAbsPath { components: vec!["dep".to_string()] },
        messages: Vec::new(),
        enums: Vec::new(),
        extensions: Vec::new(),
    };
    let c = match FileDescriptorCommon::new(&sample_file(), vec![dep]) {
        Ok(c) => c,
        Err(_) => panic!("indexing failed"),
    };
    assert_eq!(c.dependencies.len(), 1);
    assert_eq!(c.dependencies[0].package.components, vec!["dep".to_string()]);
}

#[test]
fn nested_and_enclosing_agree() {
    let c = match FileDescriptorCommon::new(&sample_file(), Vec::new()) {
        Ok(c) => c,
        Err(_) => panic!("indexing failed"),
    };
    for i in 0..c.messages.len() {
        for j in 0..c.messages.len() {
            let nested = c.messages[i].nested_messages.contains(&j);
            assert_eq!(nested, c.messages[j].enclosing_message == Some(i));
            if nested {
                assert!(i < j);
            }
        }
    }
    for (e, en) in c.enums.iter().enumerate() {
        if let Some(i) = en.enclosing_message {
            let m = &c.messages[i];
            assert!(m.first_enum_index <= e && e < m.first_enum_index + m.enum_count);
        }
    }
}
