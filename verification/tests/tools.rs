use git_chronicler::failure::Failure;
use git_chronicler::git::{CommandOutput, GitInput};
use git_chronicler::tools::{
    append_tool, command_for, find_text_member, initialize_tools, list_all_files_command,
    read_file_command, show_command, tool_list_all_files, tool_read_file, ToolCallback, ToolItem,
    ToolsCollection, LIST_ALL_FILES_SCHEMA, READ_FILE_SCHEMA,
};

fn invalid() -> Failure {
    Failure::ToolInvalidArgument { tool: "read_file".to_string() }
}

#[test]
fn the_two_tools_are_registered() {
    let tools = initialize_tools();
    assert_eq!(tools.len(), 2);
    assert_eq!(tools.get("read_file"), Some(ToolCallback::ReadFile));
    assert_eq!(tools.get("list_all_files"), Some(ToolCallback::ListAllFiles));
    assert_eq!(tools.get("write_file"), None);
    assert_eq!(tools.get(""), None);
    assert_eq!(tools.schemas(), vec![READ_FILE_SCHEMA, LIST_ALL_FILES_SCHEMA]);
}

#[test]
fn descriptors_are_json_that_forbids_further_properties() {
    for (schema, name) in [(READ_FILE_SCHEMA, "read_file"), (LIST_ALL_FILES_SCHEMA, "list_all_files")]
    {
        let value: serde_json::Value = serde_json::from_str(schema).unwrap();
        assert_eq!(value["type"], "function");
        assert_eq!(value["function"]["name"], name);
        assert_eq!(value["function"]["parameters"]["additionalProperties"], false);
    }
    let value: serde_json::Value = serde_json::from_str(READ_FILE_SCHEMA).unwrap();
    assert_eq!(value["function"]["parameters"]["required"][0], "path");
    assert_eq!(value["function"]["parameters"]["properties"]["path"]["type"], "string");
}

#[test]
fn a_name_is_registered_once() {
    let mut tools = ToolsCollection::new();
    assert_eq!(tools.len(), 0);
    append_tool(&mut tools, "a".to_string(), ToolCallback::ReadFile, "{1}".to_string());
    append_tool(&mut tools, "b".to_string(), ToolCallback::ReadFile, "{2}".to_string());
    append_tool(&mut tools, "a".to_string(), ToolCallback::ListAllFiles, "{3}".to_string());
    assert_eq!(tools.len(), 2);
    assert_eq!(tools.get("a"), Some(ToolCallback::ListAllFiles));
    assert_eq!(tools.get("b"), Some(ToolCallback::ReadFile));
    assert_eq!(tools.schemas(), vec!["{3}", "{2}"]);
    tools.insert("c".to_string(), ToolItem {
        callback: ToolCallback::ReadFile,
        schema: "{4}".to_string(),
    });
    assert_eq!(tools.schemas(), vec!["{3}", "{2}", "{4}"]);
}

#[test]
fn commands_of_the_tools() {
    let command = list_all_files_command();
    assert_eq!(command.args, vec!["ls-files"]);
    assert_eq!(command.input, GitInput::Nothing);
    let command = show_command("src/main.rs");
    assert_eq!(command.args, vec!["show", "HEAD:src/main.rs"]);
    assert_eq!(command.input, GitInput::Nothing);
}

#[test]
fn read_file_takes_the_path_from_its_arguments() {
    let command = read_file_command("{\"path\": \"src/main.rs\"}").unwrap();
    assert_eq!(command.args, vec!["show", "HEAD:src/main.rs"]);
    let command = read_file_command(" { \"path\" : \"dir/a b.txt\" } ").unwrap();
    assert_eq!(command.args, vec!["show", "HEAD:dir/a b.txt"]);
    let command = read_file_command("{\"path\":\"caf\\u00e9/\\\"x\\\"\"}").unwrap();
    assert_eq!(command.args, vec!["show", "HEAD:café/\"x\""]);
}

#[test]
fn read_file_ignores_other_members() {
    let command = read_file_command("{\"zeta\": 1, \"path\": \"p\", \"alpha\": [true]}").unwrap();
    assert_eq!(command.args, vec!["show", "HEAD:p"]);
}

#[test]
fn read_file_refuses_arguments_without_a_path() {
    assert_eq!(read_file_command("{}"), Err(invalid()));
    assert_eq!(read_file_command("{\"file\": \"x\"}"), Err(invalid()));
    assert_eq!(read_file_command("{\"Path\": \"x\"}"), Err(invalid()));
}

#[test]
fn read_file_refuses_malformed_arguments() {
    assert_eq!(read_file_command(""), Err(invalid()));
    assert_eq!(read_file_command("src/main.rs"), Err(invalid()));
    assert_eq!(read_file_command("\"src/main.rs\""), Err(invalid()));
    assert_eq!(read_file_command("[\"src/main.rs\"]"), Err(invalid()));
    assert_eq!(read_file_command("{\"path\": \"x\""), Err(invalid()));
    assert_eq!(read_file_command("{\"path\": \"x\"} trailing"), Err(invalid()));
    assert_eq!(read_file_command("null"), Err(invalid()));
}

#[test]
fn read_file_refuses_a_path_that_is_no_string() {
    assert_eq!(read_file_command("{\"path\": 12}"), Err(invalid()));
    assert_eq!(read_file_command("{\"path\": null}"), Err(invalid()));
    assert_eq!(read_file_command("{\"path\": [\"x\"]}"), Err(invalid()));
    assert_eq!(read_file_command("{\"path\": {\"path\": \"x\"}}"), Err(invalid()));
}

#[test]
fn list_all_files_ignores_its_arguments() {
    for arguments in ["{}", "", "not json", "{\"path\": 1}"] {
        let command = command_for(ToolCallback::ListAllFiles, arguments).unwrap();
        assert_eq!(command.args, vec!["ls-files"]);
    }
}

#[test]
fn command_for_goes_by_the_callback() {
    let command = command_for(ToolCallback::ReadFile, "{\"path\":\"a\"}").unwrap();
    assert_eq!(command.args, vec!["show", "HEAD:a"]);
    assert_eq!(command_for(ToolCallback::ReadFile, "{}"), Err(invalid()));
}

#[test]
fn member_is_found_by_its_key() {
    let members = vec![
        ("a".to_string(), Some("1".to_string())),
        ("b".to_string(), None),
        ("c".to_string(), Some("3".to_string())),
    ];
    assert_eq!(find_text_member(&members, "a"), Some("1".to_string()));
    assert_eq!(find_text_member(&members, "b"), None);
    assert_eq!(find_text_member(&members, "c"), Some("3".to_string()));
    assert_eq!(find_text_member(&members, "d"), None);
    assert_eq!(find_text_member(&vec![], "a"), None);
}

#[test]
fn tool_results_are_the_output_of_the_command() {
    let listing = CommandOutput {
        success: true,
        stdout: b"Cargo.toml\nsrc/main.rs\n".to_vec(),
        stderr: vec![],
    };
    assert_eq!(tool_list_all_files(listing), Ok("Cargo.toml\nsrc/main.rs\n".to_string()));
    let content = CommandOutput { success: true, stdout: b"fn main() {}\n".to_vec(), stderr: vec![] };
    assert_eq!(tool_read_file(content), Ok("fn main() {}\n".to_string()));
}

#[test]
fn missing_file_fails_the_tool() {
    let diagnostic = "fatal: path 'nope' does not exist in 'HEAD'\n";
    let output = CommandOutput {
        success: false,
        stdout: vec![],
        stderr: diagnostic.as_bytes().to_vec(),
    };
    assert_eq!(
        tool_read_file(output.clone()),
        Err(Failure::RepositoryCommandFailed { diagnostic: diagnostic.to_string() })
    );
    assert_eq!(
        tool_list_all_files(output),
        Err(Failure::RepositoryCommandFailed { diagnostic: diagnostic.to_string() })
    );
}
