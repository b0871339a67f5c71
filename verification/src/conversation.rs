//! The data that goes to the provider and comes back from it: messages with
//! their roles, tool calls, the options of a request, and the provider's
//! reply.

use crate::failure::{Failure, FailureView};
use vstd::prelude::*;

verus! {

/// Who a message of the conversation is from.
#[derive(Clone, Copy, Debug, PartialEq, Eq, Structural)]
pub enum Role {
    System,
    User,
    Assistant,
    Tool,
}

/// The request of the model to run a tool: the identifier under which the
/// result is handed back, the tool's name, and its arguments as JSON text.
#[derive(Clone, Debug, PartialEq, Eq)]
pub struct ToolCall {
    pub id: String,
    pub name: String,
    pub arguments: String,
}

/// A [`ToolCall`], with its texts as character sequences.
pub struct ToolCallView {
    pub id: Seq<char>,
    pub name: Seq<char>,
    pub arguments: Seq<char>,
}

impl View for ToolCall {
    type V = ToolCallView;

    open spec fn view(&self) -> ToolCallView {
        ToolCallView { id: self.id@, name: self.name@, arguments: self.arguments@ }
    }
}

impl DeepView for ToolCall {
    type V = ToolCallView;

    open spec fn deep_view(&self) -> ToolCallView {
        self@
    }
}

/// One message of the conversation. A message of the assistant may ask for
/// tool calls; a message of role `Tool` answers the call whose identifier it
/// holds.
#[derive(Clone, Debug, PartialEq, Eq)]
pub struct ConversationMessage {
    pub role: Role,
    pub content: String,
    pub tool_calls: Vec<ToolCall>,
    pub tool_call_id: Option<String>,
}

/// A [`ConversationMessage`], with its texts as character sequences.
pub struct MessageView {
    pub role: Role,
    pub content: Seq<char>,
    pub tool_calls: Seq<ToolCallView>,
    pub tool_call_id: Option<Seq<char>>,
}

impl View for ConversationMessage {
    type V = MessageView;

    open spec fn view(&self) -> MessageView {
        MessageView {
            role: self.role,
            content: self.content@,
            tool_calls: self.tool_calls.deep_view(),
            tool_call_id: self.tool_call_id.deep_view(),
        }
    }
}

impl DeepView for ConversationMessage {
    type V = MessageView;

    open spec fn deep_view(&self) -> MessageView {
        self@
    }
}

/// A message that neither asks for a tool nor answers one.
pub open spec fn plain_message(role: Role, content: Seq<char>) -> MessageView {
    MessageView { role, content, tool_calls: Seq::empty(), tool_call_id: None }
}

/// The message that hands the result of the call `id` back to the model.
pub open spec fn tool_message(id: Seq<char>, result: Seq<char>) -> MessageView {
    MessageView {
        role: Role::Tool,
        content: result,
        tool_calls: Seq::empty(),
        tool_call_id: Some(id),
    }
}

/// The name of the model that is used where none is given.
pub const MODEL: &'static str = "google/gemini-2.5-pro-preview-03-25";

/// The limit on generated tokens that is used where none is given.
pub const MAX_TOKENS: u32 = 16384;

/// The endpoint that is used where none is given.
pub const DEFAULT_OPENAI_URL: &'static str = "https://openrouter.ai/api/v1/chat/completions";

/// What every request of one invocation has in common. The limit on tokens
/// is positive.
#[derive(Clone, Debug, PartialEq, Eq)]
pub struct RequestOptions {
    pub model: String,
    pub max_tokens: u32,
    pub endpoint: String,
}

/// [`RequestOptions`], with the texts as character sequences.
pub struct RequestOptionsView {
    pub model: Seq<char>,
    pub max_tokens: u32,
    pub endpoint: Seq<char>,
}

impl View for RequestOptions {
    type V = RequestOptionsView;

    open spec fn view(&self) -> RequestOptionsView {
        RequestOptionsView {
            model: self.model@,
            max_tokens: self.max_tokens,
            endpoint: self.endpoint@,
        }
    }
}

/// The options that the given settings stand for: each setting that is
/// missing is replaced by its default, and so is a limit of zero tokens.
pub open spec fn options_from(
    model: Option<Seq<char>>,
    max_tokens: Option<u32>,
    endpoint: Option<Seq<char>>,
) -> RequestOptionsView {
    RequestOptionsView {
        model: match model {
            Some(name) => name,
            None => MODEL@,
        },
        max_tokens: match max_tokens {
            Some(limit) => if limit > 0 {
                limit
            } else {
                MAX_TOKENS
            },
            None => MAX_TOKENS,
        },
        endpoint: match endpoint {
            Some(url) => url,
            None => DEFAULT_OPENAI_URL@,
        },
    }
}

/// One request to the provider: where it goes, and what its body holds. The
/// tools are given by their descriptors; where there is none, the body has
/// no list of tools.
#[derive(Clone, Debug, PartialEq, Eq)]
pub struct Request {
    pub endpoint: String,
    pub model: String,
    pub max_tokens: u32,
    pub messages: Vec<ConversationMessage>,
    pub tools: Vec<String>,
}

/// A [`Request`], with its texts as character sequences.
pub struct RequestView {
    pub endpoint: Seq<char>,
    pub model: Seq<char>,
    pub max_tokens: u32,
    pub messages: Seq<MessageView>,
    pub tools: Seq<Seq<char>>,
}

impl View for Request {
    type V = RequestView;

    open spec fn view(&self) -> RequestView {
        RequestView {
            endpoint: self.endpoint@,
            model: self.model@,
            max_tokens: self.max_tokens,
            messages: self.messages.deep_view(),
            tools: self.tools.deep_view(),
        }
    }
}

/// The request that sends `messages` with the given options and tools.
pub open spec fn request_for(
    options: RequestOptionsView,
    messages: Seq<MessageView>,
    tools: Seq<Seq<char>>,
) -> RequestView {
    RequestView {
        endpoint: options.endpoint,
        model: options.model,
        max_tokens: options.max_tokens,
        messages,
        tools,
    }
}

/// What came of one request. Either nothing came back, or an answer did:
/// its status, its body as text, and the choices that the body decodes to,
/// where it decodes.
#[derive(Clone, Debug, PartialEq, Eq)]
pub enum ProviderReply {
    Unreachable { detail: String },
    Answer { status: u16, body: String, choices: Option<Vec<ConversationMessage>> },
}

/// A [`ProviderReply`], with its texts as character sequences.
pub enum ProviderReplyView {
    Unreachable { detail: Seq<char> },
    Answer { status: u16, body: Seq<char>, choices: Option<Seq<MessageView>> },
}

impl View for ProviderReply {
    type V = ProviderReplyView;

    open spec fn view(&self) -> ProviderReplyView {
        match self {
            ProviderReply::Unreachable { detail } => ProviderReplyView::Unreachable {
                detail: detail@,
            },
            ProviderReply::Answer { status, body, choices } => ProviderReplyView::Answer {
                status: *status,
                body: body@,
                choices: choices.deep_view(),
            },
        }
    }
}

/// Whether a status stands for success.
pub open spec fn is_success(status: u16) -> bool {
    200 <= status < 300
}

/// Whether every message is one of the assistant.
pub open spec fn all_from_assistant(choices: Seq<MessageView>) -> bool {
    forall|i: int| 0 <= i < choices.len() ==> (#[trigger] choices[i]).role == Role::Assistant
}

/// The choices of a reply, or why it has none to offer. A reply that did not
/// arrive is a transport error. An answer with a status other than success
/// is a provider error that holds the status and the body as they came. An
/// answer that does not decode, or that holds no choice, is malformed.
pub open spec fn reply_choices(reply: ProviderReplyView) -> Result<Seq<MessageView>, FailureView> {
    match reply {
        ProviderReplyView::Unreachable { detail } => Err(FailureView::TransportError { detail }),
        ProviderReplyView::Answer { status, body, choices } => if !is_success(status) {
            Err(FailureView::ProviderError { status, body })
        } else {
            match choices {
                Some(list) => if list.len() > 0 {
                    Ok(list)
                } else {
                    Err(FailureView::MalformedResponse)
                },
                None => Err(FailureView::MalformedResponse),
            }
        },
    }
}

/// The texts of the choices, one after the other, with nothing between them.
pub open spec fn concat_contents(choices: Seq<MessageView>) -> Seq<char>
    decreases choices.len(),
{
    if choices.len() == 0 {
        Seq::empty()
    } else {
        concat_contents(choices.drop_last()) + choices.last().content
    }
}

/// Whether one of the choices asks for a tool call.
pub open spec fn asks_for_tools(choices: Seq<MessageView>) -> bool {
    exists|i: int| 0 <= i < choices.len() && (#[trigger] choices[i]).tool_calls.len() > 0
}

/// The text of all choices has the text of the first choices as its
/// beginning: a further choice only adds to the end.
pub proof fn lemma_concat_contents_push(choices: Seq<MessageView>, next: MessageView)
    ensures
        concat_contents(choices.push(next)) == concat_contents(choices) + next.content,
{
    assert(choices.push(next).drop_last() == choices);
}

/// The text of a single choice is its content.
pub proof fn lemma_concat_single(choice: MessageView)
    ensures
        concat_contents(seq![choice]) == choice.content,
{
    assert(seq![choice].drop_last() == Seq::<MessageView>::empty());
    assert(concat_contents(Seq::<MessageView>::empty()) == Seq::<char>::empty());
}

impl ToolCall {
    /// A copy of this call.
    pub fn duplicate(&self) -> (copy: ToolCall)
        ensures
            copy@ == self@,
    {
        ToolCall {
            id: self.id.clone(),
            name: self.name.clone(),
            arguments: self.arguments.clone(),
        }
    }
}

/// A copy of the calls.
pub fn copy_calls(calls: &Vec<ToolCall>) -> (copy: Vec<ToolCall>)
    ensures
        copy.deep_view() == calls.deep_view(),
{
    let mut copy: Vec<ToolCall> = Vec::new();
    let mut i: usize = 0;
    while i < calls.len()
        invariant
            i <= calls.len(),
            copy.len() == i,
            forall|k: int| 0 <= k < i ==> copy@[k]@ == calls@[k]@,
        decreases calls.len() - i,
    {
        copy.push(calls[i].duplicate());
        i = i + 1;
    }
    assert(copy.deep_view() =~= calls.deep_view());
    copy
}

impl ConversationMessage {
    /// A message that neither asks for a tool nor answers one.
    pub fn new(role: Role, content: String) -> (message: ConversationMessage)
        ensures
            message@ == plain_message(role, content@),
    {
        let message = ConversationMessage {
            role,
            content,
            tool_calls: Vec::new(),
            tool_call_id: None,
        };
        assert(message.tool_calls.deep_view() =~= Seq::<ToolCallView>::empty());
        message
    }

    /// The message that hands the result of the call `id` back to the model.
    pub fn tool_result(id: String, result: String) -> (message: ConversationMessage)
        ensures
            message@ == tool_message(id@, result@),
    {
        let message = ConversationMessage {
            role: Role::Tool,
            content: result,
            tool_calls: Vec::new(),
            tool_call_id: Some(id),
        };
        assert(message.tool_calls.deep_view() =~= Seq::<ToolCallView>::empty());
        message
    }

    /// A copy of this message.
    pub fn duplicate(&self) -> (copy: ConversationMessage)
        ensures
            copy@ == self@,
    {
        ConversationMessage {
            role: self.role,
            content: self.content.clone(),
            tool_calls: copy_calls(&self.tool_calls),
            tool_call_id: match &self.tool_call_id {
                Some(id) => Some(id.clone()),
                None => None,
            },
        }
    }
}

/// A copy of the messages.
pub fn copy_messages(messages: &Vec<ConversationMessage>) -> (copy: Vec<ConversationMessage>)
    ensures
        copy.deep_view() == messages.deep_view(),
{
    let mut copy: Vec<ConversationMessage> = Vec::new();
    let mut i: usize = 0;
    while i < messages.len()
        invariant
            i <= messages.len(),
            copy.len() == i,
            forall|k: int| 0 <= k < i ==> copy@[k]@ == messages@[k]@,
        decreases messages.len() - i,
    {
        copy.push(messages[i].duplicate());
        i = i + 1;
    }
    assert(copy.deep_view() =~= messages.deep_view());
    copy
}

impl RequestOptions {
    /// The options for the given settings, with the default in place of each
    /// that is missing, and in place of a limit of zero tokens.
    pub fn new(model: Option<String>, max_tokens: Option<u32>, endpoint: Option<String>) -> (options:
        RequestOptions)
        ensures
            options@ == options_from(model.deep_view(), max_tokens, endpoint.deep_view()),
            options.max_tokens > 0,
    {
        let model = match model {
            Some(name) => name,
            None => MODEL.to_owned(),
        };
        let max_tokens = match max_tokens {
            Some(limit) => if limit > 0 {
                limit
            } else {
                MAX_TOKENS
            },
            None => MAX_TOKENS,
        };
        let endpoint = match endpoint {
            Some(url) => url,
            None => DEFAULT_OPENAI_URL.to_owned(),
        };
        RequestOptions { model, max_tokens, endpoint }
    }
}

/// The choices of a reply, or the failure that the reply stands for.
pub fn choices_of(reply: ProviderReply) -> (r: Result<Vec<ConversationMessage>, Failure>)
    ensures
        match r {
            Ok(choices) => reply_choices(reply@) == Ok::<Seq<MessageView>, FailureView>(
                choices.deep_view(),
            ),
            Err(e) => reply_choices(reply@) == Err::<Seq<MessageView>, FailureView>(e@),
        },
{
    match reply {
        ProviderReply::Unreachable { detail } => Err(Failure::TransportError { detail }),
        ProviderReply::Answer { status, body, choices } => {
            if !(200 <= status && status < 300) {
                return Err(Failure::ProviderError { status, body });
            }
            match choices {
                Some(list) => {
                    if list.len() > 0 {
                        Ok(list)
                    } else {
                        Err(Failure::MalformedResponse)
                    }
                },
                None => Err(Failure::MalformedResponse),
            }
        },
    }
}

/// The texts of the choices, one after the other: the answer of the model.
pub fn concat_choices(choices: &Vec<ConversationMessage>) -> (text: String)
    ensures
        text@ == concat_contents(choices.deep_view()),
{
    let mut text = String::new();
    let mut i: usize = 0;
    let ghost all = choices.deep_view();
    assert(all.take(0) == Seq::<MessageView>::empty());
    while i < choices.len()
        invariant
            i <= choices.len(),
            all == choices.deep_view(),
            text@ == concat_contents(all.take(i as int)),
        decreases choices.len() - i,
    {
        proof {
            assert(all.take(i + 1).drop_last() == all.take(i as int));
            assert(all.take(i + 1).last().content == choices@[i as int].content@);
        }
        text.append(choices[i].content.as_str());
        i = i + 1;
    }
    assert(all.take(choices.len() as int) == all);
    text
}

/// Whether one of the choices asks for a tool call.
pub fn any_tool_call(choices: &Vec<ConversationMessage>) -> (b: bool)
    ensures
        b == asks_for_tools(choices.deep_view()),
{
    let mut i: usize = 0;
    while i < choices.len()
        invariant
            i <= choices.len(),
            forall|k: int| 0 <= k < i ==> (#[trigger] choices.deep_view()[k]).tool_calls.len() == 0,
        decreases choices.len() - i,
    {
        if choices[i].tool_calls.len() > 0 {
            assert(choices.deep_view()[i as int].tool_calls.len() > 0);
            return true;
        }
        i = i + 1;
    }
    false
}

} // verus!
