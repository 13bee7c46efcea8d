use protobuf::model::Enumeration;
use protobuf::model::Extension;
use protobuf::model::FileDescriptor;
use protobuf::model::FileDescriptorPair;
use protobuf::model::Message;
use protobuf::protobuf_path::ProtobufAbsPath;
use protobuf::protobuf_path::ProtobufPath;
use protobuf::protobuf_path::ProtobufRelPath;
use protobuf::type_resolver::LookupScope;
use protobuf::type_resolver::MessageOrEnum;
use protobuf::type_resolver::TypeResolver;
use protobuf::type_resolver::TypeResolverError;
use protobuf::descriptor::field_descriptor_proto::Type;

fn abs(s: &str) -> ProtobufAbsPath {
    ProtobufAbsPath { components: s.split('.').filter(|c| !c.is_empty()).map(|c| c.to_string()).collect() }
}

fn rel(s: &str) -> ProtobufRelPath {
    ProtobufRelPath { components: s.split('.').map(|c| c.to_string()).collect() }
}

fn text(p: &ProtobufAbsPath) -> String {
    p.components.join(".")
}

fn msg(name: &str, messages: Vec<Message>, enums: &[&str]) -> Message {
    Message {
        name: name.to_string(),
        messages,
        enums: enums.iter().map(|e| Enumeration { name: e.to_string() }).collect(),
        extensions: Vec::new(),
    }
}

fn current() -> FileDescriptor {
    FileDescriptor {
        package: abs("a.b"),
        messages: vec![
            msg("Outer", vec![msg("Inner", vec![], &["Mode"])], &["Kind"]),
            // an enum and a message with the same name: the enum is found
            msg("Both", vec![], &[]),
        ],
        enums: vec![Enumeration { name: "Both".to_string() }],
        extensions: vec![Extension { extendee: "Outer".to_string(), field_name: "ext".to_string() }],
    }
}

fn deps() -> Vec<FileDescriptorPair> {
    vec![
        FileDescriptorPair {
            parsed: FileDescriptor {
                package: abs("a"),
                messages: vec![msg("Shared", vec![], &[])],
                enums: Vec::new(),
                extensions: Vec::new(),
            },
        },
        FileDescriptorPair {
            parsed: FileDescriptor {
                package: abs(""),
                messages: vec![msg("RootMsg", vec![], &[])],
                enums: Vec::new(),
                extensions: Vec::new(),
            },
        },
    ]
}

fn kind(me: &MessageOrEnum) -> (String, Type) {
    match me {
        MessageOrEnum::Message(m) => (m.name.clone(), me._descriptor_type()),
        MessageOrEnum::Enum(e) => (e.name.clone(), me._descriptor_type()),
    }
}

#[test]
fn find_by_absolute_name() {
    let file = current();
    let deps = deps();
    let r = TypeResolver { current_file: &file, deps: &deps };
    let w = r.find_message_or_enum_by_abs_name(&abs("a.b.Outer.Inner")).ok().unwrap();
    assert_eq!(text(&w.full_name), "a.b.Outer.Inner");
    assert_eq!(kind(&w.t), ("Inner".to_string(), Type::TYPE_MESSAGE));
    let w = r.find_message_or_enum_by_abs_name(&abs("a.b.Outer.Inner.Mode")).ok().unwrap();
    assert_eq!(kind(&w.t), ("Mode".to_string(), Type::TYPE_ENUM));
    let w = r.find_message_or_enum_by_abs_name(&abs("a.Shared")).ok().unwrap();
    assert_eq!(text(&w.full_name), "a.Shared");
    let w = r.find_message_or_enum_by_abs_name(&abs("RootMsg")).ok().unwrap();
    assert_eq!(text(&w.full_name), "RootMsg");
    match r.find_message_or_enum_by_abs_name(&abs("a.b.Missing")) {
        Err(TypeResolverError::NotFoundByAbsPath(p)) => assert_eq!(text(&p), "a.b.Missing"),
        _ => panic!("expected not found"),
    }
}

#[test]
fn enums_shadow_messages() {
    let file = current();
    let deps = deps();
    let r = TypeResolver { current_file: &file, deps: &deps };
    let w = r.find_message_or_enum_by_abs_name(&abs("a.b.Both")).ok().unwrap();
    assert_eq!(kind(&w.t), ("Both".to_string(), Type::TYPE_ENUM));
}

#[test]
fn relative_names_are_looked_up_outwards() {
    let file = current();
    let deps = deps();
    let r = TypeResolver { current_file: &file, deps: &deps };
    let scope = abs("a.b.Outer");
    let w = r.resolve_message_or_enum(&scope, &ProtobufPath::Rel(rel("Inner"))).ok().unwrap();
    assert_eq!(text(&w.full_name), "a.b.Outer.Inner");
    let w = r.resolve_message_or_enum(&scope, &ProtobufPath::Rel(rel("Shared"))).ok().unwrap();
    assert_eq!(text(&w.full_name), "a.Shared");
    let w = r.resolve_message_or_enum(&scope, &ProtobufPath::Rel(rel("RootMsg"))).ok().unwrap();
    assert_eq!(text(&w.full_name), "RootMsg");
    let w = r.resolve_message_or_enum(&scope, &ProtobufPath::Abs(abs("a.b.Outer.Kind"))).ok().unwrap();
    assert_eq!(kind(&w.t), ("Kind".to_string(), Type::TYPE_ENUM));
    match r.resolve_message_or_enum(&scope, &ProtobufPath::Rel(rel("Nope.X"))) {
        Err(TypeResolverError::NotFoundByRelPath(n, s)) => {
            assert_eq!(n.components, vec!["Nope".to_string(), "X".to_string()]);
            assert_eq!(text(&s), "a.b.Outer");
        },
        _ => panic!("expected not found"),
    }
}

#[test]
fn scopes_and_unions() {
    let file = current();
    let deps = deps();
    let r = TypeResolver { current_file: &file, deps: &deps };
    assert_eq!(r.all_files().len(), 3);
    let root = r.root_scope();
    let a = root.down("a");
    let ab = a.lookup(&rel("b"));
    let exts = ab.extensions();
    assert_eq!(exts.len(), 1);
    assert_eq!(exts[0].field_name, "ext");
    let outer = ab.down("Outer");
    assert!(outer.extensions().is_empty());

    let scope = LookupScope::File(&file);
    assert_eq!(scope.members().len(), 3);
    assert!(scope.down("Both").is_none());
    let down = scope.down("Outer").unwrap();
    assert_eq!(text(&down.current_path()), "a.b.Outer");
    assert!(scope.find_message("Outer").is_some());
    assert!(scope.find_message("Kind").is_none());
    assert!(scope.find_member("Nope").is_none());
    assert_eq!(scope.extensions().len(), 1);
}

#[test]
fn abs_path_operations() {
    let p = abs("a.b.c");
    assert!(p.starts_with(&abs("a.b")));
    assert!(!p.starts_with(&abs("a.c")));
    assert!(p.remove_prefix(&abs("a")).is_some());
    assert!(p.remove_prefix(&abs("b")).is_none());
    let parents: Vec<String> = p.self_and_parents().iter().map(text).collect();
    assert_eq!(parents, vec!["a.b.c", "a.b", "a", ""]);
    assert!(ProtobufAbsPath::root().is_root());
}
