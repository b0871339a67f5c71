use git_chronicler::collector::{
    branch_patches_command, diff_command, get_branch_patches, get_diff, get_last_commit,
    get_last_git_messages, history_command, last_commit_command, strip_trailers, RECENT_MESSAGES,
    TRAILER_PATTERN,
};
use git_chronicler::failure::Failure;
use git_chronicler::git::{CommandOutput, GitInput};
use git_chronicler::pattern::Pattern;

fn ok(stdout: &str) -> CommandOutput {
    CommandOutput { success: true, stdout: stdout.as_bytes().to_vec(), stderr: vec![] }
}

fn failed(stderr: &str) -> CommandOutput {
    CommandOutput { success: false, stdout: vec![], stderr: stderr.as_bytes().to_vec() }
}

fn pattern() -> Pattern {
    Pattern::new(TRAILER_PATTERN).unwrap()
}

#[test]
fn commands_of_the_collector() {
    let command = last_commit_command();
    assert_eq!(command.args, vec!["log", "-p", "-1"]);
    assert_eq!(command.input, GitInput::Nothing);
    assert_eq!(diff_command(false).args, vec!["diff", "-U50"]);
    assert_eq!(diff_command(true).args, vec!["diff", "-U50", "--cached"]);
    assert_eq!(branch_patches_command("main").args, vec!["log", "-p", "main..HEAD"]);
    assert_eq!(
        history_command(RECENT_MESSAGES).args,
        vec!["log", "-n100", "--no-merges", "--pretty=format:%B%x00"]
    );
    assert_eq!(history_command(7).args[1], "-n7");
}

#[test]
fn empty_diff_is_an_empty_change_set() {
    assert_eq!(get_diff(ok("")), Err(Failure::EmptyChangeSet));
}

#[test]
fn diff_is_handed_on_as_it_came() {
    let diff = "diff --git a/x b/x\n--- a/x\n+++ b/x\n@@ -1 +1 @@\n-a\n+b\n";
    assert_eq!(get_diff(ok(diff)), Ok(diff.to_string()));
    assert_eq!(get_diff(ok(" ")), Ok(" ".to_string()));
}

#[test]
fn failed_command_carries_its_diagnostic() {
    let diagnostic = "fatal: not a git repository\n";
    let expected = Err(Failure::RepositoryCommandFailed { diagnostic: diagnostic.to_string() });
    assert_eq!(get_diff(failed(diagnostic)), expected);
    assert_eq!(get_last_commit(failed(diagnostic)), expected);
    assert_eq!(get_branch_patches(failed(diagnostic)), expected);
    assert_eq!(
        get_last_git_messages(failed(diagnostic)),
        Err(Failure::RepositoryCommandFailed { diagnostic: diagnostic.to_string() })
    );
}

#[test]
fn failed_command_ignores_its_output() {
    let output = CommandOutput {
        success: false,
        stdout: b"partial output".to_vec(),
        stderr: b"boom".to_vec(),
    };
    assert_eq!(
        get_last_commit(output),
        Err(Failure::RepositoryCommandFailed { diagnostic: "boom".to_string() })
    );
}

#[test]
fn output_that_is_not_utf8_is_refused() {
    let output = CommandOutput { success: true, stdout: vec![0x66, 0xff, 0x6f], stderr: vec![] };
    assert_eq!(get_last_commit(output), Err(Failure::OutputNotText));
    let output = CommandOutput { success: false, stdout: vec![], stderr: vec![0xc3, 0x28] };
    assert_eq!(get_diff(output), Err(Failure::OutputNotText));
}

#[test]
fn last_commit_and_branch_patches_are_handed_on() {
    assert_eq!(get_last_commit(ok("commit 1\n")), Ok("commit 1\n".to_string()));
    assert_eq!(get_last_commit(ok("")), Ok(String::new()));
    assert_eq!(get_branch_patches(ok("héllo")), Ok("héllo".to_string()));
}

#[test]
fn trailers_and_what_follows_are_removed() {
    let log = "Fix the parser\n\nIt lost the last token.\n\nSigned-off-by: A B <a@b.c>\n\0";
    assert_eq!(
        get_last_git_messages(ok(log)),
        Ok(vec!["Fix the parser\n\nIt lost the last token.".to_string()])
    );
}

#[test]
fn everything_after_the_first_trailer_goes() {
    let log = "Subject\n\nBody\nReviewed-by: X Y\nmore text\nCloses: #1\n";
    assert_eq!(strip_trailers(log, &pattern()), vec!["Subject\n\nBody"]);
}

#[test]
fn message_with_nothing_left_is_dropped() {
    let log = "Signed-off-by: A B <a@b.c>\n\0Keep me\n\0\n\n\0  \0Fixes: 12\nbody\n";
    assert_eq!(strip_trailers(log, &pattern()), vec!["Keep me"]);
}

#[test]
fn order_of_the_log_is_kept() {
    let log = "third\n\0second\n\nCc: someone\n\0first\0";
    assert_eq!(get_last_git_messages(ok(log)), Ok(vec![
        "third".to_string(),
        "second".to_string(),
        "first".to_string(),
    ]));
}

#[test]
fn subject_with_a_colon_is_a_trailer_line() {
    // The pattern does not know a subject from a trailer: a first line of
    // the shape `token: value` leaves nothing of the message.
    assert_eq!(strip_trailers("docs: fix typo\n\nbody\n", &pattern()), Vec::<String>::new());
    assert_eq!(
        strip_trailers("Fix docs: the typo\n\nbody\n", &pattern()),
        vec!["Fix docs: the typo\n\nbody"]
    );
}

#[test]
fn trailer_test_ignores_the_margin_of_the_line() {
    let log = "Subject\n\n   Signed-off-by: A B   \nrest";
    assert_eq!(strip_trailers(log, &pattern()), vec!["Subject"]);
}

#[test]
fn lines_that_only_look_like_trailers_stay() {
    let log = "Subject\n\nhttp://example.org\nNote:\nkey:value\nA B: c\nend";
    assert_eq!(strip_trailers(log, &pattern()), vec![log]);
}

#[test]
fn carriage_returns_before_line_feeds_go() {
    let log = "Subject\r\n\r\nBody\r\nAcked-by: Z\r\n";
    assert_eq!(strip_trailers(log, &pattern()), vec!["Subject\n\nBody"]);
}

#[test]
fn empty_log_gives_no_messages() {
    assert_eq!(get_last_git_messages(ok("")), Ok(vec![]));
    assert_eq!(get_last_git_messages(ok("\0\0")), Ok(vec![]));
}

#[test]
fn another_pattern_cuts_elsewhere() {
    let dashes = Pattern::new("^---$").unwrap();
    assert_eq!(strip_trailers("a\nb: c\n---\nd", &dashes), vec!["a\nb: c"]);
}

#[test]
fn text_that_is_no_pattern_is_rejected() {
    assert_eq!(Pattern::new("foo(bar").err(), Some(Failure::PatternRejected));
    assert_eq!(Pattern::new("[a-").err(), Some(Failure::PatternRejected));
    assert_eq!(Pattern::new("\\w{100000}").err(), Some(Failure::PatternRejected));
    assert!(Pattern::new("").is_ok());
}

#[test]
fn pattern_matches_anywhere_in_the_text() {
    let digits = Pattern::new("[0-9]+").unwrap();
    assert!(digits.matches("abc 123 def"));
    assert!(!digits.matches("abc def"));
    let letter = Pattern::new("a").unwrap();
    assert!(letter.matches("a"));
    assert!(!letter.matches("A"));
}

#[test]
fn trailer_pattern_wants_token_colon_space_value() {
    let trailer = pattern();
    for line in ["Signed-off-by: A B <a@b.c>", "Fixes: #12", "X:\ty", "a-1:  b"] {
        assert!(trailer.matches(line), "line {:?}", line);
    }
    for line in ["Signed-off-by:", "Signed-off-by: ", "two words: x", ": x", "key:value", "", "a_b: c"] {
        assert!(!trailer.matches(line), "line {:?}", line);
    }
}

#[test]
fn no_line_of_a_kept_message_is_a_trailer_line() {
    let trailer = pattern();
    let logs = [
        "Subject\n\nBody\nReviewed-by: X Y\nmore text\nCloses: #1\n\0",
        "  \n\n Subject \r\n\r\nBody: with colon inside words\r\n  Cc: z  \nrest\0Other\n\0",
        "\n\nFixes: 1\nSubject\0Subject\n\n\n\nAcked-by: a\n\n\0\r\nline\r\r\nTested-by: t\n",
        "a\nb\nc\n\0\0Signed-off-by: x y\0tail  \n \n\0",
    ];
    for log in logs {
        for message in strip_trailers(log, &trailer) {
            assert!(!message.is_empty());
            assert_eq!(message, message.trim());
            for line in message.lines() {
                assert!(!trailer.matches(line.trim()), "line {:?} of {:?}", line, message);
            }
        }
    }
}
