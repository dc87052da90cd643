use agent_harness::builtin::{object_schema, read_file_spec, shell_spec, string_property, write_file_spec};
use agent_harness::tools::{
    directory_for, directory_to_create, scoped_path, shell_reply, write_reply, Tool, ToolError, ToolRegistry,
    ToolSpec,
};
use serde_json::Value;
use std::path::PathBuf;

struct Named(&'static str, &'static str);

impl Tool for Named {
    fn spec(&self) -> ToolSpec {
        ToolSpec {
            name: self.0.into(),
            description: self.1.into(),
            parameters: Value::Null,
        }
    }

    fn call(&self, _arguments: Value) -> Result<String, ToolError> {
        Ok(self.1.to_string())
    }
}

#[test]
fn rejects_parent_dir_on_read() {
    let err = scoped_path("../secret").expect_err("path escape should fail");
    assert!(matches!(err, ToolError::PathEscape(p) if p == "../secret"));
}

#[test]
fn rejects_parent_dir_on_write() {
    let err = scoped_path("../secret").expect_err("path escape should fail");
    assert!(matches!(err, ToolError::PathEscape(p) if p == "../secret"));
}

#[test]
fn scoped_path_accepts_plain_paths() {
    assert_eq!(scoped_path("src/lib.rs").expect("plain path"), PathBuf::from("src/lib.rs"));
    assert_eq!(scoped_path("a/...b").expect("dots in a name"), PathBuf::from("a/...b"));
    assert!(scoped_path("a/b/../../c").is_err());
    assert_eq!(scoped_path("a..b/c.txt").expect("dots inside a name"), PathBuf::from("a..b/c.txt"));
    assert!(matches!(scoped_path("a/../b"), Err(ToolError::PathEscape(p)) if p == "a/../b"));
    assert_eq!(scoped_path("/abs/x").expect("absolute path"), PathBuf::from("/abs/x"));
    assert!(scoped_path("..").is_err());
}

#[test]
fn tool_error_messages() {
    assert_eq!(ToolError::InvalidArguments("x".into()).message(), "invalid arguments: x");
    assert_eq!(
        ToolError::PathEscape("../a".into()).message(),
        "path escapes the working directory: ../a"
    );
    assert_eq!(
        ToolError::CommandFailed { status: -12, stderr: "boom".into() }.message(),
        "command failed with status -12: boom"
    );
    let io = ToolError::Io(std::io::Error::new(std::io::ErrorKind::Other, "disk"));
    assert_eq!(io.message(), "io error: disk");
}

#[test]
fn shell_reply_combines_outputs() {
    assert_eq!(shell_reply(true, Some(0), b"out", b"").unwrap(), "out");
    assert_eq!(shell_reply(true, Some(0), b"", b"err").unwrap(), "err");
    assert_eq!(shell_reply(true, Some(0), b"out", b"err").unwrap(), "out\nerr");
    assert_eq!(shell_reply(true, Some(0), b"\xff", b"").unwrap(), "\u{fffd}");
    match shell_reply(false, Some(2), b"ignored", b"bad") {
        Err(ToolError::CommandFailed { status, stderr }) => {
            assert_eq!(status, 2);
            assert_eq!(stderr, "bad");
        }
        other => panic!("unexpected {other:?}"),
    }
    match shell_reply(false, None, b"", b"") {
        Err(ToolError::CommandFailed { status, .. }) => assert_eq!(status, -1),
        other => panic!("unexpected {other:?}"),
    }
}

#[test]
fn registry_finds_tools_by_name_and_replaces_same_name() {
    let mut registry = ToolRegistry::new();
    assert!(registry.get("a").is_none());
    registry.register(Box::new(Named("a", "first")));
    registry.register(Box::new(Named("b", "second")));
    assert_eq!(registry.specs().len(), 2);
    registry.register(Box::new(Named("a", "third")));
    let specs = registry.specs();
    assert_eq!(specs.len(), 2);
    let tool = registry.get("a").expect("registered");
    assert_eq!(tool.call(Value::Null).unwrap(), "third");
    assert!(registry.get("c").is_none());
}

#[test]
fn register_as_files_the_tool_under_the_given_name() {
    let mut registry = ToolRegistry::new();
    registry.register_as("alias".to_string(), Box::new(Named("a", "first")));
    assert!(registry.get("a").is_none());
    let tool = registry.get("alias").expect("stored under the given name");
    assert_eq!(tool.call(Value::Null).unwrap(), "first");
    registry.register_as("alias".to_string(), Box::new(Named("b", "second")));
    assert_eq!(registry.get("alias").unwrap().call(Value::Null).unwrap(), "second");
    assert_eq!(registry.specs().len(), 1);
}

#[test]
fn drive_like_prefix_with_parent_part_is_refused() {
    assert!(matches!(scoped_path("a:/../b"), Err(ToolError::PathEscape(p)) if p == "a:/../b"));
}

#[test]
fn write_reply_and_directory_to_create() {
    assert_eq!(write_reply(&PathBuf::from("out/a.txt")), "wrote out/a.txt");
    assert_eq!(directory_for(&PathBuf::from("out/sub/a.txt")), Some(PathBuf::from("out/sub")));
    assert_eq!(directory_for(&PathBuf::from("a.txt")), None);
    assert_eq!(directory_to_create(Some(PathBuf::from(""))), None);
    assert_eq!(directory_to_create(None), None);
}

#[test]
fn builtin_descriptions() {
    let read = read_file_spec();
    assert_eq!(read.name, "read_file");
    assert_eq!(read.description, "Read a UTF-8 file relative to the process working directory.");
    assert_eq!(
        read.parameters,
        serde_json::from_str::<Value>(
            r#"{"type":"object","properties":{"path":{"type":"string","description":"Path to read."}},"required":["path"],"additionalProperties":false}"#
        )
        .unwrap()
    );
    let write = write_file_spec();
    assert_eq!(write.name, "write_file");
    assert_eq!(
        write.parameters,
        serde_json::from_str::<Value>(
            r#"{"type":"object","properties":{"path":{"type":"string","description":"Path to write."},"contents":{"type":"string","description":"File contents."}},"required":["path","contents"],"additionalProperties":false}"#
        )
        .unwrap()
    );
    let shell = shell_spec();
    assert_eq!(shell.name, "shell");
    assert_eq!(shell.description, "Run a shell command in the process working directory.");
    assert_eq!(
        shell.parameters,
        serde_json::from_str::<Value>(
            r#"{"type":"object","properties":{"command":{"type":"string","description":"Command passed to sh -c."}},"required":["command"],"additionalProperties":false}"#
        )
        .unwrap()
    );
    assert_eq!(
        string_property("d"),
        serde_json::from_str::<Value>(r#"{"type":"string","description":"d"}"#).unwrap()
    );
    assert_eq!(
        object_schema(Value::Null, &["x"]),
        serde_json::from_str::<Value>(r#"{"type":"object","properties":null,"required":["x"],"additionalProperties":false}"#).unwrap()
    );
}

#[test]
fn io_error_message_holds_the_error_text() {
    let err = ToolError::Io(std::io::Error::new(std::io::ErrorKind::NotFound, "no such file"));
    assert_eq!(err.message(), "io error: no such file");
}

#[test]
fn specs_follow_the_names() {
    let mut registry = ToolRegistry::new();
    registry.register(Box::new(Named("a", "first")));
    registry.register(Box::new(Named("b", "second")));
    let specs = registry.specs();
    assert_eq!(specs[0].name, "a");
    assert_eq!(specs[1].description, "second");
}
