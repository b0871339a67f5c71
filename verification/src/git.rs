//! What is handed to a `git` subprocess and what comes back from it. The
//! library never starts a process: it says which command to run and reads
//! what the command gave.

use crate::failure::{Failure, FailureView};
use vstd::prelude::*;
use vstd::utf8::{decode_utf8, valid_utf8};

verus! {

/// What a `git` command is given beside its arguments.
#[derive(Clone, Debug, PartialEq, Eq)]
pub enum GitInput {
    /// The command reads nothing.
    Nothing,
    /// The text is written to the command's standard input.
    Stdin(String),
    /// The text is written to a temporary file. The file's path is added
    /// behind the arguments of the command, and `rest` behind the path. The
    /// command runs on the terminal, where it opens an editor. The file is
    /// removed whatever the command does.
    Editor { text: String, rest: Vec<String> },
}

/// A [`GitInput`], with its text as a character sequence.
pub enum GitInputView {
    Nothing,
    Stdin(Seq<char>),
    Editor { text: Seq<char>, rest: Seq<Seq<char>> },
}

impl View for GitInput {
    type V = GitInputView;

    open spec fn view(&self) -> GitInputView {
        match self {
            GitInput::Nothing => GitInputView::Nothing,
            GitInput::Stdin(text) => GitInputView::Stdin(text@),
            GitInput::Editor { text, rest } => GitInputView::Editor {
                text: text@,
                rest: rest.deep_view(),
            },
        }
    }
}

/// One run of `git`: the arguments after the program's name, and the input.
#[derive(Clone, Debug, PartialEq, Eq)]
pub struct GitCommand {
    pub args: Vec<String>,
    pub input: GitInput,
}

/// A [`GitCommand`], with its texts as character sequences.
pub struct GitCommandView {
    pub args: Seq<Seq<char>>,
    pub input: GitInputView,
}

impl View for GitCommand {
    type V = GitCommandView;

    open spec fn view(&self) -> GitCommandView {
        GitCommandView { args: self.args.deep_view(), input: self.input@ }
    }
}

/// A command that reads nothing.
pub open spec fn query(args: Seq<Seq<char>>) -> GitCommandView {
    GitCommandView { args, input: GitInputView::Nothing }
}

/// What a finished `git` subprocess left: whether it ended with success, and
/// the bytes of its output and error streams.
#[derive(Clone, Debug, PartialEq, Eq)]
pub struct CommandOutput {
    pub success: bool,
    pub stdout: Vec<u8>,
    pub stderr: Vec<u8>,
}

/// A [`CommandOutput`], with its streams as byte sequences.
pub struct CommandOutputView {
    pub success: bool,
    pub stdout: Seq<u8>,
    pub stderr: Seq<u8>,
}

impl View for CommandOutput {
    type V = CommandOutputView;

    open spec fn view(&self) -> CommandOutputView {
        CommandOutputView { success: self.success, stdout: self.stdout@, stderr: self.stderr@ }
    }
}

/// A text or an error, with the texts as character sequences.
pub open spec fn text_result(r: Result<String, Failure>) -> Result<Seq<char>, FailureView> {
    match r {
        Ok(text) => Ok(text@),
        Err(e) => Err(e@),
    }
}

/// The text that a command gave. A command that failed gives an error with
/// the text of its error stream; a stream that is not UTF-8 is an error too.
pub open spec fn output_text(output: CommandOutputView) -> Result<Seq<char>, FailureView> {
    if !output.success {
        if valid_utf8(output.stderr) {
            Err(FailureView::RepositoryCommandFailed { diagnostic: decode_utf8(output.stderr) })
        } else {
            Err(FailureView::OutputNotText)
        }
    } else if valid_utf8(output.stdout) {
        Ok(decode_utf8(output.stdout))
    } else {
        Err(FailureView::OutputNotText)
    }
}

/// `String::from_utf8`: the text that the bytes encode, where they are valid
/// UTF-8, and nothing where they are not.
#[verifier::external_body]
fn text_of_bytes(bytes: Vec<u8>) -> (text: Option<String>)
    ensures
        match text {
            Some(t) => valid_utf8(bytes@) && t@ == decode_utf8(bytes@),
            None => !valid_utf8(bytes@),
        },
{
    String::from_utf8(bytes).ok()
}

/// Adds `arg` to the arguments.
pub fn push_arg(args: &mut Vec<String>, arg: &str)
    ensures
        final(args).deep_view() == old(args).deep_view().push(arg@),
{
    let owned = arg.to_owned();
    args.push(owned);
    assert(args.deep_view() =~= old(args).deep_view().push(arg@));
}

/// Reads the text that a finished command gave.
pub fn read_output(output: CommandOutput) -> (r: Result<String, Failure>)
    ensures
        text_result(r) == output_text(output@),
{
    if !output.success {
        match text_of_bytes(output.stderr) {
            Some(diagnostic) => Err(Failure::RepositoryCommandFailed { diagnostic }),
            None => Err(Failure::OutputNotText),
        }
    } else {
        match text_of_bytes(output.stdout) {
            Some(text) => Ok(text),
            None => Err(Failure::OutputNotText),
        }
    }
}

} // verus!
