use git_chronicler::applier::Outcome;
use git_chronicler::conversation::{
    ConversationMessage, ProviderReply, Request, RequestOptions, Role, ToolCall,
};
use git_chronicler::failure::Failure;
use git_chronicler::git::{CommandOutput, GitCommand, GitInput};
use git_chronicler::prompt::{check_prompt, inline_prompt, summary_prompt, write_prompt, Action};
use git_chronicler::session::{plan_of, Effect, Event, Pending, Phase, Session, MAX_TOOL_ROUNDS};
use git_chronicler::tools::{initialize_tools, ToolsCollection, LIST_ALL_FILES_SCHEMA, READ_FILE_SCHEMA};

fn git_ok(stdout: &str) -> Event {
    Event::GitFinished(CommandOutput {
        success: true,
        stdout: stdout.as_bytes().to_vec(),
        stderr: vec![],
    })
}

fn git_failed(stderr: &str) -> Event {
    Event::GitFinished(CommandOutput {
        success: false,
        stdout: vec![],
        stderr: stderr.as_bytes().to_vec(),
    })
}

fn assistant(text: &str) -> ConversationMessage {
    ConversationMessage::new(Role::Assistant, text.to_string())
}

fn call(id: &str, name: &str, arguments: &str) -> ToolCall {
    ToolCall { id: id.to_string(), name: name.to_string(), arguments: arguments.to_string() }
}

fn asking(text: &str, calls: Vec<ToolCall>) -> ConversationMessage {
    ConversationMessage {
        role: Role::Assistant,
        content: text.to_string(),
        tool_calls: calls,
        tool_call_id: None,
    }
}

fn replied(choices: Vec<ConversationMessage>) -> Event {
    Event::Replied(ProviderReply::Answer { status: 200, body: String::new(), choices: Some(choices) })
}

fn failure_of(effect: Effect) -> Failure {
    match effect {
        Effect::Finish(Outcome { stdout: None, stderr: None, failure: Some(failure) }) => failure,
        other => panic!("not a plain failure: {:?}", other),
    }
}

fn command_of(effect: Effect) -> GitCommand {
    match effect {
        Effect::RunGit(command) => command,
        other => panic!("not a command: {:?}", other),
    }
}

fn request_of(effect: Effect) -> Request {
    match effect {
        Effect::Send(request) => request,
        other => panic!("not a request: {:?}", other),
    }
}

fn start(action: Action) -> (Session, Effect) {
    Session::start(action, RequestOptions::new(None, None, None), initialize_tools(), MAX_TOOL_ROUNDS)
}

/// A session that has sent its first request, for the patch `patch` and a
/// log of one earlier commit.
fn opened(action: Action, patch: &str) -> (Session, Request) {
    let (session, _) = start(action);
    let (session, _) = session.step(git_ok(patch));
    let (session, effect) = session.step(git_ok("Earlier subject\n\nSigned-off-by: A <a@b>\n\0"));
    (session, request_of(effect))
}

fn write(signoff: bool, cached: bool, interactive: bool) -> Action {
    Action::Write { signoff, cached, interactive }
}

#[test]
fn session_starts_with_the_patch_command() {
    let (session, effect) = start(write(false, false, false));
    assert_eq!(session.phase(), Phase::Patch);
    assert!(!session.is_finished());
    assert_eq!(session.rounds(), 0);
    assert!(session.messages().is_empty());
    assert_eq!(command_of(effect).args, vec!["diff", "-U50"]);
    assert_eq!(command_of(start(write(false, true, false)).1).args, vec!["diff", "-U50", "--cached"]);
    assert_eq!(command_of(start(Action::Fixup).1).args, vec!["log", "-p", "-1"]);
    assert_eq!(command_of(start(Action::Check).1).args, vec!["log", "-p", "-1"]);
    let summary = Action::Summary { base: "origin/main".to_string() };
    assert_eq!(command_of(start(summary).1).args, vec!["log", "-p", "origin/main..HEAD"]);
}

#[test]
fn empty_working_diff_stops_before_any_request() {
    let (session, first) = start(write(false, false, false));
    assert!(matches!(first, Effect::RunGit(_)));
    let (session, effect) = session.step(git_ok(""));
    assert_eq!(failure_of(effect), Failure::EmptyChangeSet);
    assert!(session.is_finished());
    assert!(session.messages().is_empty());
}

#[test]
fn empty_patch_is_no_failure_for_the_other_actions() {
    for action in [Action::Fixup, Action::Check, Action::Summary { base: "main".to_string() }] {
        let (session, _) = start(action);
        let (session, effect) = session.step(git_ok(""));
        assert_eq!(session.phase(), Phase::History);
        assert_eq!(
            command_of(effect).args,
            vec!["log", "-n100", "--no-merges", "--pretty=format:%B%x00"]
        );
    }
}

#[test]
fn failing_patch_command_ends_the_session() {
    let (session, _) = start(Action::Fixup);
    let (session, effect) = session.step(git_failed("fatal: no commits yet\n"));
    assert_eq!(
        failure_of(effect),
        Failure::RepositoryCommandFailed { diagnostic: "fatal: no commits yet\n".to_string() }
    );
    assert!(session.is_finished());
}

#[test]
fn failing_history_command_ends_the_session() {
    let (session, _) = start(Action::Check);
    let (session, _) = session.step(git_ok("patch"));
    let (session, effect) = session.step(git_failed("fatal: bad\n"));
    assert_eq!(
        failure_of(effect),
        Failure::RepositoryCommandFailed { diagnostic: "fatal: bad\n".to_string() }
    );
    assert!(session.is_finished());
}

#[test]
fn first_request_holds_patch_style_hint_and_instruction() {
    let (session, request) = opened(write(false, false, false), "the diff");
    assert_eq!(session.phase(), Phase::Reply);
    assert_eq!(request.endpoint, "https://openrouter.ai/api/v1/chat/completions");
    assert_eq!(request.model, "google/gemini-2.5-pro-preview-03-25");
    assert_eq!(request.max_tokens, 16384);
    assert_eq!(request.tools, vec![READ_FILE_SCHEMA, LIST_ALL_FILES_SCHEMA]);
    assert_eq!(request.messages, vec![
        ConversationMessage::new(Role::System, "the diff".to_string()),
        ConversationMessage::new(
            Role::System,
            "Follow the style of these git commit messages: [\"Earlier subject\"]".to_string(),
        ),
        ConversationMessage::new(Role::User, write_prompt()),
    ]);
    assert_eq!(session.messages(), request.messages);
}

#[test]
fn instruction_follows_the_action() {
    assert_eq!(opened(Action::Fixup, "p").1.messages[2].content, inline_prompt());
    assert_eq!(opened(Action::Check, "p").1.messages[2].content, check_prompt());
    let summary = Action::Summary { base: "main".to_string() };
    assert_eq!(opened(summary, "p").1.messages[2].content, summary_prompt());
}

#[test]
fn request_without_tools_lists_none() {
    let (session, _) = Session::start(
        Action::Check,
        RequestOptions::new(Some("m".to_string()), Some(5), Some("http://e".to_string())),
        ToolsCollection::new(),
        1,
    );
    let (session, _) = session.step(git_ok("p"));
    let (_, effect) = session.step(git_ok(""));
    let request = request_of(effect);
    assert!(request.tools.is_empty());
    assert_eq!(request.model, "m");
    assert_eq!(request.max_tokens, 5);
    assert_eq!(request.endpoint, "http://e");
    assert_eq!(
        request.messages[1].content,
        "Follow the style of these git commit messages: []"
    );
}

#[test]
fn fixup_amends_the_last_commit_with_the_answer() {
    let (session, _) = opened(Action::Fixup, "commit abc\n");
    let answer = "Fix race in scheduler\n\nPrevents double free under load.";
    let (session, effect) = session.step(replied(vec![assistant(answer)]));
    assert_eq!(session.phase(), Phase::Commit);
    let command = command_of(effect);
    assert_eq!(command.args, vec!["commit", "--amend", "-F", "-"]);
    assert_eq!(command.input, GitInput::Stdin(answer.to_string()));
    let (session, effect) = session.step(git_ok(""));
    assert_eq!(effect, Effect::Finish(Outcome { stdout: None, stderr: None, failure: None }));
    assert!(session.is_finished());
}

#[test]
fn write_creates_a_signed_off_commit_of_the_staged_changes() {
    let (session, _) = opened(write(true, true, false), "diff");
    let (session, effect) = session.step(replied(vec![assistant("Add retry backoff")]));
    let command = command_of(effect);
    assert_eq!(command.args, vec!["commit", "-s", "-F", "-"]);
    assert_eq!(command.input, GitInput::Stdin("Add retry backoff".to_string()));
    let (session, effect) = session.step(git_ok("[main 1] Add retry backoff\n"));
    assert_eq!(effect, Effect::Finish(Outcome { stdout: None, stderr: None, failure: None }));
    assert!(session.is_finished());
}

#[test]
fn interactive_write_fails_with_the_editor() {
    let (session, _) = opened(write(false, false, true), "diff");
    let (session, effect) = session.step(replied(vec![assistant("msg")]));
    let command = command_of(effect);
    assert_eq!(command.args, vec!["commit", "-a", "-F"]);
    assert_eq!(
        command.input,
        GitInput::Editor { text: "msg".to_string(), rest: vec!["--edit".to_string()] }
    );
    let (session, effect) = session.step(git_failed(""));
    assert_eq!(
        failure_of(effect),
        Failure::RepositoryCommandFailed { diagnostic: "Commit command failed".to_string() }
    );
    assert!(session.is_finished());
}

#[test]
fn failing_commit_ends_the_session_with_its_diagnostic() {
    let (session, _) = opened(Action::Fixup, "p");
    let (session, _) = session.step(replied(vec![assistant("m")]));
    let (_, effect) = session.step(git_failed("error: gpg failed to sign\n"));
    assert_eq!(
        failure_of(effect),
        Failure::RepositoryCommandFailed { diagnostic: "error: gpg failed to sign\n".to_string() }
    );
}

#[test]
fn rate_limited_provider_fails_without_a_commit() {
    let (session, _) = opened(write(false, false, false), "diff");
    let body = "{\"error\":\"rate limited\"}";
    let reply = ProviderReply::Answer { status: 429, body: body.to_string(), choices: None };
    let (session, effect) = session.step(Event::Replied(reply));
    let failure = failure_of(effect);
    assert_eq!(failure, Failure::ProviderError { status: 429, body: body.to_string() });
    assert!(failure.message().contains("429"));
    assert!(failure.message().contains(body));
    assert!(session.is_finished());
}

#[test]
fn transport_failure_and_malformed_answer_end_the_session() {
    let (session, _) = opened(Action::Check, "p");
    let reply = ProviderReply::Unreachable { detail: "dns".to_string() };
    let (_, effect) = session.step(Event::Replied(reply));
    assert_eq!(failure_of(effect), Failure::TransportError { detail: "dns".to_string() });
    let (session, _) = opened(Action::Check, "p");
    let (_, effect) = session.step(replied(vec![]));
    assert_eq!(failure_of(effect), Failure::MalformedResponse);
    let (session, _) = opened(Action::Check, "p");
    let reply = ProviderReply::Answer { status: 200, body: "<html>".to_string(), choices: None };
    let (_, effect) = session.step(Event::Replied(reply));
    assert_eq!(failure_of(effect), Failure::MalformedResponse);
}

#[test]
fn answer_is_every_choice_in_order() {
    let summary = Action::Summary { base: "main".to_string() };
    let (session, _) = opened(summary, "p");
    let (session, effect) =
        session.step(replied(vec![assistant("Title\n"), assistant("\nBody"), assistant("!")]));
    assert_eq!(
        effect,
        Effect::Finish(Outcome {
            stdout: Some("Title\n\nBody!".to_string()),
            stderr: None,
            failure: None,
        })
    );
    assert!(session.is_finished());
}

#[test]
fn check_prints_a_review_or_fails_on_the_error_line() {
    let (session, _) = opened(Action::Check, "p");
    let (_, effect) = session.step(replied(vec![assistant("All good.")]));
    assert_eq!(
        effect,
        Effect::Finish(Outcome { stdout: Some("All good.".to_string()), stderr: None, failure: None })
    );
    let (session, _) = opened(Action::Check, "p");
    let (session, effect) = session.step(replied(vec![assistant("ERROR\nfoo")]));
    assert_eq!(
        effect,
        Effect::Finish(Outcome {
            stdout: None,
            stderr: Some("foo".to_string()),
            failure: Some(Failure::MessageValidationFailed),
        })
    );
    assert!(session.is_finished());
}

#[test]
fn error_line_may_be_split_over_choices() {
    let (session, _) = opened(Action::Check, "p");
    let (_, effect) = session.step(replied(vec![assistant("ERR"), assistant("OR\n wrong")]));
    assert_eq!(
        effect,
        Effect::Finish(Outcome {
            stdout: None,
            stderr: Some("wrong".to_string()),
            failure: Some(Failure::MessageValidationFailed),
        })
    );
}

#[test]
fn tool_round_appends_one_answer_for_each_call() {
    let (session, first) = opened(Action::Fixup, "p");
    let before = first.messages.clone();
    let request = asking("", vec![
        call("c1", "list_all_files", "{}"),
        call("c2", "read_file", "{\"path\":\"src/lib.rs\"}"),
    ]);
    let (session, effect) = session.step(replied(vec![request.clone()]));
    assert_eq!(session.phase(), Phase::Tool);
    assert_eq!(session.rounds(), 1);
    assert_eq!(command_of(effect).args, vec!["ls-files"]);
    let (session, effect) = session.step(git_ok("src/lib.rs\n"));
    assert_eq!(session.phase(), Phase::Tool);
    assert_eq!(command_of(effect).args, vec!["show", "HEAD:src/lib.rs"]);
    let (session, effect) = session.step(git_ok("pub fn f() {}\n"));
    assert_eq!(session.phase(), Phase::Reply);
    let again = request_of(effect);
    let mut expected = before.clone();
    expected.push(request);
    expected.push(ConversationMessage::tool_result("c1".to_string(), "src/lib.rs\n".to_string()));
    expected.push(ConversationMessage::tool_result("c2".to_string(), "pub fn f() {}\n".to_string()));
    assert_eq!(again.messages, expected);
    assert_eq!(again.messages[..before.len()], before[..]);
    assert_eq!(again.messages.iter().filter(|m| m.role == Role::Tool).count(), 2);
    assert_eq!(again.tools, first.tools);
    assert_eq!(again.model, first.model);
    let (session, effect) = session.step(replied(vec![assistant("Final")]));
    assert_eq!(command_of(effect).input, GitInput::Stdin("Final".to_string()));
    assert_eq!(session.rounds(), 1);
}

#[test]
fn each_asking_choice_is_followed_by_its_answers() {
    let (session, first) = opened(Action::Check, "p");
    let one = asking("a", vec![call("1", "list_all_files", "")]);
    let two = asking("b", vec![call("2", "list_all_files", "")]);
    let (session, _) = session.step(replied(vec![one.clone(), assistant("plain"), two.clone()]));
    let (session, _) = session.step(git_ok("x"));
    let (_, effect) = session.step(git_ok("y"));
    let again = request_of(effect);
    let mut expected = first.messages.clone();
    expected.push(one);
    expected.push(ConversationMessage::tool_result("1".to_string(), "x".to_string()));
    expected.push(two);
    expected.push(ConversationMessage::tool_result("2".to_string(), "y".to_string()));
    assert_eq!(again.messages, expected);
}

#[test]
fn plan_lists_requests_and_calls_in_order() {
    let one = asking("a", vec![call("1", "x", ""), call("2", "y", "")]);
    let two = asking("b", vec![call("3", "z", "")]);
    let queue = plan_of(vec![assistant("t"), one.clone(), asking("none", vec![]), two.clone()]);
    assert_eq!(queue, vec![
        Pending::Request(one),
        Pending::Call(call("1", "x", "")),
        Pending::Call(call("2", "y", "")),
        Pending::Request(two),
        Pending::Call(call("3", "z", "")),
    ]);
    assert_eq!(plan_of(vec![assistant("t")]), vec![]);
    assert_eq!(plan_of(vec![]), vec![]);
}

#[test]
fn unknown_tool_ends_the_session() {
    let (session, _) = opened(Action::Fixup, "p");
    let (session, effect) =
        session.step(replied(vec![asking("", vec![call("1", "delete_file", "{}")])]));
    assert_eq!(failure_of(effect), Failure::ToolExecutionFailed { tool: "delete_file".to_string() });
    assert!(session.is_finished());
}

#[test]
fn invalid_tool_arguments_end_the_session() {
    let (session, _) = opened(Action::Fixup, "p");
    let (session, effect) =
        session.step(replied(vec![asking("", vec![call("1", "read_file", "{\"file\":\"x\"}")])]));
    assert_eq!(failure_of(effect), Failure::ToolInvalidArgument { tool: "read_file".to_string() });
    assert!(session.is_finished());
}

#[test]
fn failing_tool_command_ends_the_session() {
    let (session, _) = opened(Action::Fixup, "p");
    let (session, effect) =
        session.step(replied(vec![asking("", vec![call("1", "read_file", "{\"path\":\"nope\"}")])]));
    assert_eq!(command_of(effect).args, vec!["show", "HEAD:nope"]);
    let (session, effect) = session.step(git_failed("fatal: path 'nope' does not exist\n"));
    assert_eq!(
        failure_of(effect),
        Failure::RepositoryCommandFailed {
            diagnostic: "fatal: path 'nope' does not exist\n".to_string(),
        }
    );
    assert!(session.is_finished());
}

#[test]
fn rounds_of_tool_calls_are_limited() {
    let (session, _) =
        Session::start(Action::Check, RequestOptions::new(None, None, None), initialize_tools(), 2);
    let (session, _) = session.step(git_ok("p"));
    let (mut session, _) = session.step(git_ok(""));
    for round in 1u32..=2 {
        let (next, effect) =
            session.step(replied(vec![asking("", vec![call("c", "list_all_files", "")])]));
        assert_eq!(command_of(effect).args, vec!["ls-files"]);
        assert_eq!(next.rounds(), round);
        let (next, effect) = next.step(git_ok("f"));
        assert!(matches!(effect, Effect::Send(_)));
        session = next;
    }
    let (session, effect) =
        session.step(replied(vec![asking("", vec![call("c", "list_all_files", "")])]));
    assert_eq!(failure_of(effect), Failure::ToolLoopExceeded);
    assert!(session.is_finished());
    assert_eq!(session.rounds(), 2);
}

#[test]
fn no_round_is_allowed_where_the_limit_is_zero() {
    let (session, _) =
        Session::start(Action::Check, RequestOptions::new(None, None, None), initialize_tools(), 0);
    let (session, _) = session.step(git_ok("p"));
    let (session, _) = session.step(git_ok(""));
    let (_, effect) = session.step(replied(vec![asking("", vec![call("c", "list_all_files", "")])]));
    assert_eq!(failure_of(effect), Failure::ToolLoopExceeded);
}

#[test]
fn event_out_of_sequence_ends_the_session() {
    let (session, _) = start(Action::Check);
    let (session, effect) = session.step(replied(vec![assistant("x")]));
    assert_eq!(failure_of(effect), Failure::OutOfSequence);
    assert!(session.is_finished());
    let (session, _) = opened(Action::Check, "p");
    let (_, effect) = session.step(git_ok("x"));
    assert_eq!(failure_of(effect), Failure::OutOfSequence);
}

#[test]
fn finished_session_stays_finished() {
    let (session, _) = opened(Action::Check, "p");
    let (session, _) = session.step(replied(vec![assistant("fine")]));
    assert!(session.is_finished());
    let (session, effect) = session.step(git_ok("x"));
    assert_eq!(failure_of(effect), Failure::OutOfSequence);
    assert!(session.is_finished());
    let (session, effect) = session.step(replied(vec![assistant("x")]));
    assert_eq!(failure_of(effect), Failure::OutOfSequence);
    assert!(session.is_finished());
}

#[test]
fn same_replies_give_the_same_commit() {
    let run = || {
        let (session, _) = opened(write(true, false, false), "diff");
        let (session, _) = session.step(replied(vec![asking("", vec![call("1", "list_all_files", "")])]));
        let (session, _) = session.step(git_ok("a\nb\n"));
        let (_, effect) = session.step(replied(vec![assistant("Subject\n\nBody")]));
        command_of(effect)
    };
    let first = run();
    assert_eq!(first, run());
    assert_eq!(first.args, vec!["commit", "-a", "-s", "-F", "-"]);
    assert_eq!(first.input, GitInput::Stdin("Subject\n\nBody".to_string()));
}
