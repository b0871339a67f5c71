use git_chronicler::conversation::{
    any_tool_call, choices_of, concat_choices, copy_calls, copy_messages,
    ConversationMessage, ProviderReply, RequestOptions, Role, ToolCall, DEFAULT_OPENAI_URL,
    MAX_TOKENS, MODEL,
};
use git_chronicler::credential::{api_key, authorization};
use git_chronicler::failure::Failure;

fn assistant(text: &str) -> ConversationMessage {
    ConversationMessage::new(Role::Assistant, text.to_string())
}

fn call(id: &str, name: &str, arguments: &str) -> ToolCall {
    ToolCall { id: id.to_string(), name: name.to_string(), arguments: arguments.to_string() }
}

fn asking(calls: Vec<ToolCall>) -> ConversationMessage {
    ConversationMessage {
        role: Role::Assistant,
        content: String::new(),
        tool_calls: calls,
        tool_call_id: None,
    }
}

fn answer(status: u16, body: &str, choices: Option<Vec<ConversationMessage>>) -> ProviderReply {
    ProviderReply::Answer { status, body: body.to_string(), choices }
}

#[test]
fn plain_and_tool_messages() {
    let message = ConversationMessage::new(Role::User, "hi".to_string());
    assert_eq!(message.role, Role::User);
    assert_eq!(message.content, "hi");
    assert!(message.tool_calls.is_empty());
    assert_eq!(message.tool_call_id, None);
    let message = ConversationMessage::tool_result("call_1".to_string(), "out".to_string());
    assert_eq!(message.role, Role::Tool);
    assert_eq!(message.content, "out");
    assert!(message.tool_calls.is_empty());
    assert_eq!(message.tool_call_id, Some("call_1".to_string()));
}

#[test]
fn copies_equal_what_they_copy() {
    let messages = vec![
        assistant("a"),
        asking(vec![call("1", "read_file", "{}"), call("2", "list_all_files", "")]),
        ConversationMessage::tool_result("1".to_string(), "r".to_string()),
    ];
    assert_eq!(copy_messages(&messages), messages);
    assert_eq!(messages[1].duplicate(), messages[1]);
    assert_eq!(copy_calls(&messages[1].tool_calls), messages[1].tool_calls);
    assert_eq!(messages[1].tool_calls[0].duplicate(), call("1", "read_file", "{}"));
    assert_eq!(copy_messages(&vec![]), vec![]);
}

#[test]
fn options_take_defaults_for_what_is_missing() {
    let options = RequestOptions::new(None, None, None);
    assert_eq!(options.model, "google/gemini-2.5-pro-preview-03-25");
    assert_eq!(options.model, MODEL);
    assert_eq!(options.max_tokens, 16384);
    assert_eq!(options.max_tokens, MAX_TOKENS);
    assert_eq!(options.endpoint, "https://openrouter.ai/api/v1/chat/completions");
    assert_eq!(options.endpoint, DEFAULT_OPENAI_URL);
}

#[test]
fn options_keep_what_is_given() {
    let options = RequestOptions::new(
        Some("m".to_string()),
        Some(1),
        Some("http://localhost/v1".to_string()),
    );
    assert_eq!(options.model, "m");
    assert_eq!(options.max_tokens, 1);
    assert_eq!(options.endpoint, "http://localhost/v1");
    assert_eq!(RequestOptions::new(None, Some(u32::MAX), None).max_tokens, u32::MAX);
}

#[test]
fn a_limit_of_zero_tokens_gives_way_to_the_default() {
    assert_eq!(RequestOptions::new(None, Some(0), None).max_tokens, MAX_TOKENS);
}

#[test]
fn unreachable_provider_is_a_transport_error() {
    let reply = ProviderReply::Unreachable { detail: "connection refused".to_string() };
    assert_eq!(
        choices_of(reply),
        Err(Failure::TransportError { detail: "connection refused".to_string() })
    );
}

#[test]
fn status_other_than_success_is_a_provider_error() {
    let body = "{\"error\":\"rate limited\"}";
    assert_eq!(
        choices_of(answer(429, body, None)),
        Err(Failure::ProviderError { status: 429, body: body.to_string() })
    );
    for status in [0u16, 100, 199, 300, 301, 400, 404, 500, 503, u16::MAX] {
        assert_eq!(
            choices_of(answer(status, "b", Some(vec![assistant("text")]))),
            Err(Failure::ProviderError { status, body: "b".to_string() })
        );
    }
}

#[test]
fn every_status_of_success_is_accepted() {
    for status in [200u16, 201, 204, 299] {
        assert_eq!(
            choices_of(answer(status, "", Some(vec![assistant("text")]))),
            Ok(vec![assistant("text")])
        );
    }
}

#[test]
fn answer_without_choices_is_malformed() {
    assert_eq!(choices_of(answer(200, "not json", None)), Err(Failure::MalformedResponse));
    assert_eq!(choices_of(answer(200, "{\"choices\":[]}", Some(vec![]))), Err(Failure::MalformedResponse));
}

#[test]
fn every_choice_counts_whatever_its_role() {
    let choices = vec![assistant("a"), ConversationMessage::new(Role::User, "b".to_string())];
    assert_eq!(choices_of(answer(200, "", Some(choices.clone()))), Ok(choices.clone()));
    assert_eq!(concat_choices(&choices), "ab");
}

#[test]
fn choices_are_joined_without_separators() {
    let choices = vec![assistant("Add retry"), assistant(" backoff"), assistant(""), assistant("\n")];
    assert_eq!(concat_choices(&choices), "Add retry backoff\n");
    assert_eq!(concat_choices(&vec![assistant("one")]), "one");
    assert_eq!(concat_choices(&vec![]), "");
    assert_eq!(concat_choices(&vec![assistant("b"), assistant("a")]), "ba");
}

#[test]
fn tool_calls_are_noticed_in_any_choice() {
    assert!(!any_tool_call(&vec![assistant("a"), assistant("b")]));
    assert!(!any_tool_call(&vec![]));
    assert!(any_tool_call(&vec![assistant("a"), asking(vec![call("1", "x", "")])]));
    assert!(any_tool_call(&vec![asking(vec![call("1", "x", "")]), assistant("a")]));
    assert!(!any_tool_call(&vec![asking(vec![])]));
}

#[test]
fn key_is_the_trimmed_content_of_the_file() {
    assert_eq!(api_key(Some("sk-123\n")), Ok("sk-123".to_string()));
    assert_eq!(api_key(Some("  sk 1 \t")), Ok("sk 1".to_string()));
    assert_eq!(api_key(Some("k")), Ok("k".to_string()));
}

#[test]
fn missing_or_empty_key_is_refused() {
    assert_eq!(api_key(None), Err(Failure::CredentialMissing));
    assert_eq!(api_key(Some("")), Err(Failure::CredentialMissing));
    assert_eq!(api_key(Some(" \n\t")), Err(Failure::CredentialMissing));
}

#[test]
fn authorization_header_names_the_key() {
    assert_eq!(authorization("sk-123"), "Bearer sk-123");
}
