use protobuf::protoc::DescriptorSetOutArgs;
use protobuf::protoc::Error;
use protobuf::protoc::Protoc;
use protobuf::protoc::ProtocLangOut;
use protobuf::protoc::Version;

fn version_of(out: &str) -> Result<String, Error> {
    Version::parse_version_output(out.as_bytes().to_vec()).map(|v| v.as_str().to_string())
}

#[test]
fn version_is_read_from_first_line() {
    assert_eq!(version_of("libprotoc 3.21.12\n"), Ok("3.21.12".to_string()));
    assert_eq!(version_of("libprotoc 3.21.12"), Ok("3.21.12".to_string()));
    assert_eq!(version_of("libprotoc 25.1\r\nmore\n"), Ok("25.1".to_string()));
    assert_eq!(version_of("libprotoc 3.6.1\nsecond line\n"), Ok("3.6.1".to_string()));
}

#[test]
fn version_errors() {
    assert_eq!(
        Version::parse_version_output(vec![0xff, 0xfe]).map(|_| ()),
        Err(Error::ProtocOutputIsNotUtf8)
    );
    assert_eq!(version_of(""), Err(Error::OutputIsEmpty));
    assert_eq!(version_of("protoc 3.0.0\n"), Err(Error::OutputDoesNotStartWithPrefix));
    assert_eq!(version_of("\nlibprotoc 3.0.0\n"), Err(Error::OutputDoesNotStartWithPrefix));
    assert_eq!(version_of("libprotoc \n"), Err(Error::VersionIsEmpty));
    assert_eq!(version_of("libprotoc v3\n"), Err(Error::VersionDoesNotStartWithDigit));
}

#[test]
fn is_3() {
    let v3 = Version::parse_version_output(b"libprotoc 3.21.12\n".to_vec()).unwrap();
    assert!(v3.is_3());
    let v25 = Version::parse_version_output(b"libprotoc 25.1\n".to_vec()).unwrap();
    assert!(!v25.is_3());
    let v30 = Version::parse_version_output(b"libprotoc 30.2\n".to_vec()).unwrap();
    assert!(!v30.is_3());
    let v3_bare = Version::parse_version_output(b"libprotoc 3\n".to_vec()).unwrap();
    assert!(v3_bare.is_3());
    let v3_19 = Version::parse_version_output(b"libprotoc 3.19.4\n".to_vec()).unwrap();
    assert!(v3_19.is_3());
}

#[test]
fn lang_out_args() {
    let mut args = ProtocLangOut::new();
    assert_eq!(args.command_args(), Err(Error::InputIsEmpty));
    args.input("a.proto");
    assert_eq!(args.command_args(), Err(Error::OutDirIsEmpty));
    args.out_dir("gen");
    assert_eq!(args.command_args(), Err(Error::LangIsEmpty));
    args.lang("go").include_path("protos").include_path("more-protos");
    assert_eq!(
        args.command_args(),
        Ok(vec![
            "--go_out=gen".to_string(),
            "a.proto".to_string(),
            "-Iprotos".to_string(),
            "-Imore-protos".to_string(),
        ])
    );
    args.plugin("protoc-gen-go").inputs(&["b.proto"]).includes(&["x"]);
    assert_eq!(
        args.command_args(),
        Ok(vec![
            "--go_out=gen".to_string(),
            "a.proto".to_string(),
            "b.proto".to_string(),
            "--plugin=protoc-gen-go".to_string(),
            "-Iprotos".to_string(),
            "-Imore-protos".to_string(),
            "-Ix".to_string(),
        ])
    );
}

#[test]
fn descriptor_set_out_args() {
    let protoc = Protoc::from_path("/usr/bin/protoc");
    assert_eq!(protoc.executable(), "/usr/bin/protoc");
    let mut args: DescriptorSetOutArgs = protoc.descriptor_set_out_args();
    assert_eq!(args.command_args(), Err(Error::InputIsEmpty));
    args.inputs(&["a.proto", "b.proto"]);
    assert_eq!(args.command_args(), Err(Error::OutputIsEmpty));
    args.out("fds.bin").includes(&["protos"]);
    assert_eq!(
        args.command_args(),
        Ok(vec![
            "-Iprotos".to_string(),
            "--descriptor_set_out=fds.bin".to_string(),
            "a.proto".to_string(),
            "b.proto".to_string(),
        ])
    );
    args.include_imports(true).extra_arg("--experimental_allow_proto3_optional");
    args.extra_args(&["-v"]);
    assert_eq!(
        args.command_args(),
        Ok(vec![
            "-Iprotos".to_string(),
            "--descriptor_set_out=fds.bin".to_string(),
            "--include_imports".to_string(),
            "a.proto".to_string(),
            "b.proto".to_string(),
            "--experimental_allow_proto3_optional".to_string(),
            "-v".to_string(),
        ])
    );
}

#[test]
fn protoc_args_keep_the_command() {
    let protoc = Protoc::from_path("protoc-bin");
    let args = protoc.args();
    assert_eq!(args.protoc.as_ref().map(|p| p.executable()), Some("protoc-bin"));
    assert!(args.inputs.is_empty());
}
