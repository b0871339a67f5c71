//! The action applier: what is done with the answer of the model. A new
//! commit is created or the last one amended, by a `git` command that takes
//! the answer as its message; a review is printed, and found wanting where
//! it begins with the line `ERROR`; a summary is printed.

use crate::failure::{Failure, FailureView};
use crate::git::{
    push_arg, read_output, CommandOutput, CommandOutputView, GitCommand,
    GitCommandView, GitInput, GitInputView,
};
use crate::text::{chars_of, copy_range, starts_with_chars, string_of, trim, trim_chars};
use vstd::prelude::*;
use vstd::utf8::{decode_utf8, valid_utf8};

verus! {

/// The line that a review begins with where it found a significant mistake.
pub const ERROR_MARK: &'static str = "ERROR\n";

/// What is shown where the editor or the commit it leads to has failed.
pub const COMMIT_FAILED: &'static str = "Commit command failed";

/// The arguments of the command that creates a commit. All tracked
/// modifications are staged first unless `cached`; a signed-off trailer is
/// added where `signoff`. The message is read from the file that `-F`
/// names: the standard input, or, where `interactive`, a file whose path
/// follows these arguments.
pub open spec fn commit_args(signoff: bool, cached: bool, interactive: bool) -> Seq<Seq<char>> {
    seq!["commit"@] + (if cached {
        Seq::<Seq<char>>::empty()
    } else {
        seq!["-a"@]
    }) + (if signoff {
        seq!["-s"@]
    } else {
        Seq::<Seq<char>>::empty()
    }) + (if interactive {
        seq!["-F"@]
    } else {
        seq!["-F"@, "-"@]
    })
}

/// What follows the path of the message file in an interactive commit:
/// `--edit`, which opens the message in an editor.
pub open spec fn after_message_file() -> Seq<Seq<char>> {
    seq!["--edit"@]
}

/// The command that creates a commit with `message`.
pub open spec fn commit_command(
    message: Seq<char>,
    signoff: bool,
    cached: bool,
    interactive: bool,
) -> GitCommandView {
    GitCommandView {
        args: commit_args(signoff, cached, interactive),
        input: if interactive {
            GitInputView::Editor { text: message, rest: after_message_file() }
        } else {
            GitInputView::Stdin(message)
        },
    }
}

/// `git commit --amend -F -`, with `message` on the standard input.
pub open spec fn amend_command(message: Seq<char>) -> GitCommandView {
    GitCommandView {
        args: seq!["commit"@, "--amend"@, "-F"@, "-"@],
        input: GitInputView::Stdin(message),
    }
}

/// How a commit command ended: with success exactly where the command did,
/// whatever it wrote. A command that failed gives the text of its error
/// stream as the diagnostic; one that ran in the editor has left nothing to
/// read, and a fixed text is the diagnostic.
pub open spec fn commit_result(interactive: bool, output: CommandOutputView) -> Result<
    (),
    FailureView,
> {
    if output.success {
        Ok(())
    } else if interactive {
        Err(FailureView::RepositoryCommandFailed { diagnostic: COMMIT_FAILED@ })
    } else if valid_utf8(output.stderr) {
        Err(FailureView::RepositoryCommandFailed { diagnostic: decode_utf8(output.stderr) })
    } else {
        Err(FailureView::OutputNotText)
    }
}

/// What an invocation leaves behind when it ends: what goes to the standard
/// output, what goes to the error stream before any diagnostic, and whether
/// it failed.
#[derive(Clone, Debug, PartialEq, Eq)]
pub struct Outcome {
    pub stdout: Option<String>,
    pub stderr: Option<String>,
    pub failure: Option<Failure>,
}

/// An [`Outcome`], with its texts as character sequences.
pub struct OutcomeView {
    pub stdout: Option<Seq<char>>,
    pub stderr: Option<Seq<char>>,
    pub failure: Option<FailureView>,
}

impl View for Outcome {
    type V = OutcomeView;

    open spec fn view(&self) -> OutcomeView {
        OutcomeView {
            stdout: self.stdout.deep_view(),
            stderr: self.stderr.deep_view(),
            failure: match self.failure {
                Some(e) => Some(e@),
                None => None,
            },
        }
    }
}

/// The outcome of an invocation that succeeded without a word.
pub open spec fn silent_success() -> OutcomeView {
    OutcomeView { stdout: None, stderr: None, failure: None }
}

/// The outcome of an invocation that printed `text` and succeeded.
pub open spec fn printed(text: Seq<char>) -> OutcomeView {
    OutcomeView { stdout: Some(text), stderr: None, failure: None }
}

/// The outcome of an invocation that failed.
pub open spec fn failed_with(e: FailureView) -> OutcomeView {
    OutcomeView { stdout: None, stderr: None, failure: Some(e) }
}

/// Whether a review found a significant mistake: whether it begins with the
/// line `ERROR`.
pub open spec fn flags_error(review: Seq<char>) -> bool {
    ERROR_MARK@.is_prefix_of(review)
}

/// The outcome of a review. A review that begins with the line `ERROR`
/// fails the invocation: what follows that line goes to the error stream,
/// without the white space around it, and nothing is printed. Any other
/// review is printed whole, and the invocation succeeds.
pub open spec fn review_outcome(review: Seq<char>) -> OutcomeView {
    if flags_error(review) {
        OutcomeView {
            stdout: None,
            stderr: Some(trim(review.skip(ERROR_MARK@.len() as int))),
            failure: Some(FailureView::MessageValidationFailed),
        }
    } else {
        printed(review)
    }
}

/// A review that begins with the line `ERROR` prints nothing and fails, and
/// what follows that line goes to the error stream without the white space
/// around it.
pub proof fn lemma_flagged_review_shows_the_rest(rest: Seq<char>)
    ensures
        review_outcome(ERROR_MARK@ + rest) == (OutcomeView {
            stdout: None,
            stderr: Some(trim(rest)),
            failure: Some(FailureView::MessageValidationFailed),
        }),
{
    let review = ERROR_MARK@ + rest;
    assert(ERROR_MARK@ =~= review.subrange(0, ERROR_MARK@.len() as int));
    assert(review.skip(ERROR_MARK@.len() as int) =~= rest);
}

/// A review that does not begin with the line `ERROR` is printed whole, and
/// the invocation succeeds.
pub proof fn lemma_plain_review_is_printed(review: Seq<char>)
    requires
        !flags_error(review),
    ensures
        review_outcome(review) == printed(review),
{
}

/// The message that a commit command hands to `git` is the text it was
/// made for, whatever the flags.
pub proof fn lemma_commit_carries_message(
    message: Seq<char>,
    signoff: bool,
    cached: bool,
    interactive: bool,
)
    ensures
        commit_command(message, signoff, cached, interactive).input == (if interactive {
            GitInputView::Editor { text: message, rest: after_message_file() }
        } else {
            GitInputView::Stdin(message)
        }),
        amend_command(message).input == GitInputView::Stdin(message),
{
}

/// The command that creates a commit with `commit_msg` as its message.
pub fn write_commit(commit_msg: &str, signoff: bool, cached: bool, interactive: bool) -> (command:
    GitCommand)
    ensures
        command@ == commit_command(commit_msg@, signoff, cached, interactive),
{
    let mut args: Vec<String> = Vec::new();
    assert(args.deep_view() == Seq::<Seq<char>>::empty());
    push_arg(&mut args, "commit");
    if !cached {
        push_arg(&mut args, "-a");
    }
    if signoff {
        push_arg(&mut args, "-s");
    }
    let message = commit_msg.to_owned();
    if interactive {
        push_arg(&mut args, "-F");
        assert(args.deep_view() == commit_args(signoff, cached, interactive));
        let mut rest: Vec<String> = Vec::new();
        assert(rest.deep_view() == Seq::<Seq<char>>::empty());
        push_arg(&mut rest, "--edit");
        assert(rest.deep_view() == after_message_file());
        GitCommand { args, input: GitInput::Editor { text: message, rest } }
    } else {
        push_arg(&mut args, "-F");
        push_arg(&mut args, "-");
        assert(args.deep_view() == commit_args(signoff, cached, interactive));
        GitCommand { args, input: GitInput::Stdin(message) }
    }
}

/// The command that replaces the message of the last commit by
/// `commit_msg`.
pub fn amend_commit(commit_msg: &str) -> (command: GitCommand)
    ensures
        command@ == amend_command(commit_msg@),
{
    let mut args: Vec<String> = Vec::new();
    assert(args.deep_view() == Seq::<Seq<char>>::empty());
    push_arg(&mut args, "commit");
    push_arg(&mut args, "--amend");
    push_arg(&mut args, "-F");
    push_arg(&mut args, "-");
    assert(args.deep_view() == amend_command(commit_msg@).args);
    GitCommand { args, input: GitInput::Stdin(commit_msg.to_owned()) }
}

/// How a commit command ended.
pub fn commit_finished(interactive: bool, output: CommandOutput) -> (r: Result<(), Failure>)
    ensures
        match r {
            Ok(_) => commit_result(interactive, output@) == Ok::<(), FailureView>(()),
            Err(e) => commit_result(interactive, output@) == Err::<(), FailureView>(e@),
        },
{
    if output.success {
        Ok(())
    } else if interactive {
        Err(Failure::RepositoryCommandFailed { diagnostic: COMMIT_FAILED.to_owned() })
    } else {
        match read_output(output) {
            Ok(_) => Ok(()),
            Err(e) => Err(e),
        }
    }
}

/// The outcome of the review `msg`.
pub fn check_commit(msg: &str) -> (outcome: Outcome)
    ensures
        outcome@ == review_outcome(msg@),
{
    let chars = chars_of(msg);
    let mark = chars_of(ERROR_MARK);
    if starts_with_chars(&chars, &mark) {
        let rest = copy_range(&chars, mark.len(), chars.len());
        assert(rest@ == msg@.skip(ERROR_MARK@.len() as int));
        let trimmed = trim_chars(&rest);
        Outcome {
            stdout: None,
            stderr: Some(string_of(&trimmed)),
            failure: Some(Failure::MessageValidationFailed),
        }
    } else {
        Outcome { stdout: Some(msg.to_owned()), stderr: None, failure: None }
    }
}

} // verus!
