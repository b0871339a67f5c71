//! The prompt assembler: the instruction for each action, the hint that
//! hands the style of earlier commit messages to the model, and the opening
//! messages of a conversation.

use crate::conversation::{plain_message, ConversationMessage, MessageView, Role};
use crate::failure::Failure;
use crate::json::{encode_texts, json_of_texts};
use crate::text::append_str;
use vstd::prelude::*;

verus! {

/// What an invocation is asked to do.
#[derive(Clone, Debug, PartialEq, Eq)]
pub enum Action {
    /// Write the message of a new commit.
    Write { signoff: bool, cached: bool, interactive: bool },
    /// Rewrite the message of the last commit.
    Fixup,
    /// Review the message of the last commit against its patch.
    Check,
    /// Summarize the commits since `base`.
    Summary { base: String },
}

/// An [`Action`], with its text as a character sequence.
pub enum ActionView {
    Write { signoff: bool, cached: bool, interactive: bool },
    Fixup,
    Check,
    Summary { base: Seq<char> },
}

impl View for Action {
    type V = ActionView;

    open spec fn view(&self) -> ActionView {
        match self {
            Action::Write { signoff, cached, interactive } => ActionView::Write {
                signoff: *signoff,
                cached: *cached,
                interactive: *interactive,
            },
            Action::Fixup => ActionView::Fixup,
            Action::Check => ActionView::Check,
            Action::Summary { base } => ActionView::Summary { base: base@ },
        }
    }
}

/// The instruction for rewriting the message of the last commit.
pub const INLINE_PROMPT: &'static str =
    "Improve the git commit message for the patch and add any missing information you get from the code.  Explain why a change is done, not what was changed.  Keep the first line below 52 columns and next ones under 80 columns.  Return only the git commit message without any other information nor any delimiter.  Leave unchanged any signed-off line or any other trailer:\n";

/// The instruction for writing the message of a new commit.
pub const WRITE_PROMPT: &'static str =
    "Write the git commit message for the patch and add any information you get from the code.  Explain why a change is done, not what was changed.  Keep the first line below 52 columns and next ones under 80 columns.  Return only the git commit message without any other information nor any delimiter:\n";

/// The instruction for reviewing the message of the last commit.
pub const CHECK_PROMPT: &'static str =
    "Report any mistake you see in the commit log message.  If the input contains a significant error or discrepancy, the first line of the returned message must only contain the string ERROR and nothing more.  Ignore the date and the author information, look only at the commit message.  Explain carefully what changes you suggest:\n";

/// The instruction for summarizing a range of commits.
pub const SUMMARY_PROMPT: &'static str =
    "Summarize the changes in the git commits, give more importance to the commit messages.\n It is used as the description for a pull request.\nProvide first a one-line descriptive title.\n\n";

/// What stands before the earlier commit messages in the style hint.
pub const STYLE_HINT: &'static str = "Follow the style of these git commit messages: ";

/// The instruction that belongs to an action.
pub open spec fn instruction(action: ActionView) -> Seq<char> {
    match action {
        ActionView::Write { .. } => WRITE_PROMPT@,
        ActionView::Fixup => INLINE_PROMPT@,
        ActionView::Check => CHECK_PROMPT@,
        ActionView::Summary { .. } => SUMMARY_PROMPT@,
    }
}

/// The style hint that holds the encoded earlier commit messages.
pub open spec fn style_hint(encoded: Seq<char>) -> Seq<char> {
    STYLE_HINT@ + encoded
}

/// The opening messages of a conversation, in their fixed order: the patch
/// and the style hint, both of the system, and then the instruction of the
/// action, of the user.
pub open spec fn opening_messages(action: ActionView, patch: Seq<char>, encoded: Seq<char>) -> Seq<
    MessageView,
> {
    seq![
        plain_message(Role::System, patch),
        plain_message(Role::System, style_hint(encoded)),
        plain_message(Role::User, instruction(action)),
    ]
}

/// The instruction for rewriting the message of the last commit.
pub fn inline_prompt() -> (prompt: String)
    ensures
        prompt@ == INLINE_PROMPT@,
{
    INLINE_PROMPT.to_owned()
}

/// The instruction for writing the message of a new commit.
pub fn write_prompt() -> (prompt: String)
    ensures
        prompt@ == WRITE_PROMPT@,
{
    WRITE_PROMPT.to_owned()
}

/// The instruction for reviewing the message of the last commit.
pub fn check_prompt() -> (prompt: String)
    ensures
        prompt@ == CHECK_PROMPT@,
{
    CHECK_PROMPT.to_owned()
}

/// The instruction for summarizing a range of commits.
pub fn summary_prompt() -> (prompt: String)
    ensures
        prompt@ == SUMMARY_PROMPT@,
{
    SUMMARY_PROMPT.to_owned()
}

/// The instruction that belongs to `action`.
pub fn prompt_for(action: &Action) -> (prompt: String)
    ensures
        prompt@ == instruction(action@),
{
    match action {
        Action::Write { .. } => write_prompt(),
        Action::Fixup => inline_prompt(),
        Action::Check => check_prompt(),
        Action::Summary { .. } => summary_prompt(),
    }
}

/// The opening messages of a conversation, from the patch and the encoded
/// earlier commit messages.
pub fn assemble(action: &Action, patch: String, encoded: &str) -> (messages: Vec<
    ConversationMessage,
>)
    ensures
        messages.deep_view() == opening_messages(action@, patch@, encoded@),
{
    let mut messages: Vec<ConversationMessage> = Vec::new();
    messages.push(ConversationMessage::new(Role::System, patch));
    messages.push(ConversationMessage::new(Role::System, append_str(STYLE_HINT, encoded)));
    messages.push(ConversationMessage::new(Role::User, prompt_for(action)));
    assert(messages.deep_view() =~= opening_messages(action@, patch@, encoded@));
    messages
}

/// The opening messages of a conversation, from the patch and the earlier
/// commit messages, which are encoded as a JSON array here.
pub fn assemble_prompt(action: &Action, patch: String, recent: &Vec<String>) -> (r: Result<
    Vec<ConversationMessage>,
    Failure,
>)
    ensures
        r matches Ok(messages) && messages.deep_view() == opening_messages(
            action@,
            patch@,
            json_of_texts(recent.deep_view()),
        ),
{
    match encode_texts(recent) {
        Ok(encoded) => Ok(assemble(action, patch, encoded.as_str())),
        Err(_) => Err(Failure::EncodingFailed),
    }
}

/// The opening messages keep their order whatever they hold: two of the
/// system, of which the first is the patch as it came, and one of the user.
pub proof fn lemma_opening_order(action: ActionView, patch: Seq<char>, encoded: Seq<char>)
    ensures
        opening_messages(action, patch, encoded).len() == 3,
        opening_messages(action, patch, encoded)[0].role == Role::System,
        opening_messages(action, patch, encoded)[0].content == patch,
        opening_messages(action, patch, encoded)[1].role == Role::System,
        opening_messages(action, patch, encoded)[2].role == Role::User,
        opening_messages(action, patch, encoded)[2].content == instruction(action),
{
}

} // verus!
