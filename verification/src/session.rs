//! The orchestration of one invocation, as a state machine. The session says
//! what is to be done next (run a `git` command, send a request, finish)
//! and is told what came of it. It collects the patch and the earlier commit
//! messages, opens the conversation, answers the tool calls of the model,
//! and applies the action to the model's final answer.

use crate::applier::{
    amend_command, amend_commit, check_commit, commit_command, commit_finished, commit_result,
    failed_with, printed, review_outcome, silent_success, write_commit, Outcome, OutcomeView,
};
use crate::collector::{
    branch_patches_args, branch_patches_command, diff_args, diff_command, get_branch_patches,
    get_diff, get_last_commit, get_last_git_messages, history_args, history_command,
    history_messages, last_commit_args, last_commit_command, working_diff, RECENT_MESSAGES,
};
use crate::conversation::{
    any_tool_call, asks_for_tools, choices_of, concat_choices, concat_contents, copy_messages,
    reply_choices, request_for, tool_message, ConversationMessage, MessageView, ProviderReply,
    ProviderReplyView, Request, RequestOptions, RequestOptionsView, RequestView, ToolCall,
    ToolCallView,
};
use crate::failure::{Failure, FailureView};
use crate::git::{
    output_text, query, read_output, CommandOutput, CommandOutputView, GitCommand, GitCommandView,
};
use crate::json::{encode_texts, json_of_texts};
use crate::prompt::{assemble, opening_messages, Action, ActionView};
use crate::tools::{
    command_for, lookup, schemas_of, tool_command, ToolView, ToolsCollection,
};
use vstd::prelude::*;

verus! {

/// The number of rounds of tool calls that a conversation may have where no
/// other limit is given.
pub const MAX_TOOL_ROUNDS: u32 = 32;

/// What a session is waiting for.
#[derive(Clone, Copy, Debug, PartialEq, Eq, Structural)]
pub enum Phase {
    /// The output of the command that gives the patch.
    Patch,
    /// The output of the command that gives the earlier commit messages.
    History,
    /// The reply of the provider.
    Reply,
    /// The output of the command that answers a tool call.
    Tool,
    /// The output of the command that creates or amends the commit.
    Commit,
    /// Nothing: the session has ended.
    Finished,
}

/// What is left to do in a round of tool calls: a message of the model that
/// asks for tools is taken into the conversation, and a call is answered.
#[derive(Clone, Debug, PartialEq, Eq)]
pub enum Pending {
    Request(ConversationMessage),
    Call(ToolCall),
}

/// A [`Pending`], with its texts as character sequences.
pub enum PendingView {
    Request(MessageView),
    Call(ToolCallView),
}

impl View for Pending {
    type V = PendingView;

    open spec fn view(&self) -> PendingView {
        match self {
            Pending::Request(message) => PendingView::Request(message@),
            Pending::Call(call) => PendingView::Call(call@),
        }
    }
}

impl DeepView for Pending {
    type V = PendingView;

    open spec fn deep_view(&self) -> PendingView {
        self@
    }
}

/// What the session asks for next.
#[derive(Clone, Debug, PartialEq, Eq)]
pub enum Effect {
    /// Run this `git` command and hand back what it left.
    RunGit(GitCommand),
    /// Send this request and hand back the reply.
    Send(Request),
    /// End the invocation with this outcome.
    Finish(Outcome),
}

/// An [`Effect`], with its texts as character sequences.
pub enum EffectView {
    RunGit(GitCommandView),
    Send(RequestView),
    Finish(OutcomeView),
}

impl View for Effect {
    type V = EffectView;

    open spec fn view(&self) -> EffectView {
        match self {
            Effect::RunGit(command) => EffectView::RunGit(command@),
            Effect::Send(request) => EffectView::Send(request@),
            Effect::Finish(outcome) => EffectView::Finish(outcome@),
        }
    }
}

/// What the session is told.
#[derive(Clone, Debug, PartialEq, Eq)]
pub enum Event {
    /// The `git` command that was asked for has ended.
    GitFinished(CommandOutput),
    /// The request that was asked for has been answered, or has failed.
    Replied(ProviderReply),
}

/// An [`Event`], with its texts as character sequences.
pub enum EventView {
    GitFinished(CommandOutputView),
    Replied(ProviderReplyView),
}

impl View for Event {
    type V = EventView;

    open spec fn view(&self) -> EventView {
        match self {
            Event::GitFinished(output) => EventView::GitFinished(output@),
            Event::Replied(reply) => EventView::Replied(reply@),
        }
    }
}

/// One invocation under way.
#[derive(Clone, Debug, PartialEq, Eq)]
pub struct Session {
    action: Action,
    options: RequestOptions,
    tools: ToolsCollection,
    max_rounds: u32,
    rounds: u32,
    phase: Phase,
    patch: String,
    messages: Vec<ConversationMessage>,
    queue: Vec<Pending>,
}

/// A [`Session`] as a mathematical value: the action, the options and the
/// tools it was started with, the limit on rounds of tool calls and the
/// rounds so far, what it is waiting for, the patch while the earlier commit
/// messages are collected, the conversation so far, and what is left to do
/// in the current round of tool calls.
pub struct SessionView {
    pub action: ActionView,
    pub options: RequestOptionsView,
    pub tools: Seq<ToolView>,
    pub max_rounds: u32,
    pub rounds: u32,
    pub phase: Phase,
    pub patch: Seq<char>,
    pub messages: Seq<MessageView>,
    pub queue: Seq<PendingView>,
}

/// The session at its start.
pub open spec fn start_state(
    action: ActionView,
    options: RequestOptionsView,
    tools: Seq<ToolView>,
    max_rounds: u32,
) -> SessionView {
    SessionView {
        action,
        options,
        tools,
        max_rounds,
        rounds: 0,
        phase: Phase::Patch,
        patch: Seq::empty(),
        messages: Seq::empty(),
        queue: Seq::empty(),
    }
}

/// The command that gives the patch for an action: the working diff for a
/// new commit, the last commit for a rewrite or a review, the commits since
/// the base for a summary.
pub open spec fn patch_command(action: ActionView) -> GitCommandView {
    match action {
        ActionView::Write { cached, .. } => query(diff_args(cached)),
        ActionView::Fixup => query(last_commit_args()),
        ActionView::Check => query(last_commit_args()),
        ActionView::Summary { base } => query(branch_patches_args(base)),
    }
}

/// The patch that the output of the patch command gives. For a new commit
/// the patch must not be empty.
pub open spec fn patch_of(action: ActionView, output: CommandOutputView) -> Result<
    Seq<char>,
    FailureView,
> {
    match action {
        ActionView::Write { .. } => working_diff(output),
        _ => output_text(output),
    }
}

/// The session ends with a failure.
pub open spec fn fail(s: SessionView, e: FailureView) -> (SessionView, EffectView) {
    (SessionView { phase: Phase::Finished, ..s }, EffectView::Finish(failed_with(e)))
}

/// The request that sends the conversation so far.
pub open spec fn request_of(s: SessionView) -> RequestView {
    request_for(s.options, s.messages, schemas_of(s.tools))
}

/// What follows the output of the patch command: the earlier commit
/// messages are asked for, unless there is no patch.
pub open spec fn on_patch(s: SessionView, output: CommandOutputView) -> (SessionView, EffectView) {
    match patch_of(s.action, output) {
        Ok(patch) => (
            SessionView { phase: Phase::History, patch, ..s },
            EffectView::RunGit(query(history_args(RECENT_MESSAGES as nat))),
        ),
        Err(e) => fail(s, e),
    }
}

/// What follows the output of the history command: the conversation opens
/// with the patch, the style sample and the instruction, and the first
/// request is sent. Where the command has failed, or the trailer pattern
/// does not compile, the session ends.
pub open spec fn on_history(s: SessionView, output: CommandOutputView) -> (
    SessionView,
    EffectView,
) {
    match history_messages(output) {
        Ok(recent) => {
            let opened = SessionView {
                phase: Phase::Reply,
                patch: Seq::empty(),
                messages: opening_messages(s.action, s.patch, json_of_texts(recent)),
                ..s
            };
            (opened, EffectView::Send(request_of(opened)))
        },
        Err(e) => fail(s, e),
    }
}

/// The calls of a message, each as something to do.
pub open spec fn calls_of(message: MessageView) -> Seq<PendingView> {
    message.tool_calls.map_values(|call: ToolCallView| PendingView::Call(call))
}

/// What a reply that asks for tools leaves to do: each choice that asks for
/// tools is taken into the conversation, directly followed by its calls, in
/// the order of the reply.
pub open spec fn plan(choices: Seq<MessageView>) -> Seq<PendingView>
    decreases choices.len(),
{
    if choices.len() == 0 {
        Seq::empty()
    } else if choices.last().tool_calls.len() > 0 {
        plan(choices.drop_last()) + seq![PendingView::Request(choices.last())] + calls_of(
            choices.last(),
        )
    } else {
        plan(choices.drop_last())
    }
}

/// The session goes on with what is left to do in the round: messages that
/// ask for tools join the conversation, until a call is reached, whose
/// command is then to be run, or nothing is left, and the conversation is
/// sent again. A call of a tool that is not registered, or with arguments
/// that the tool does not accept, ends the session.
pub open spec fn advance(s: SessionView) -> (SessionView, EffectView)
    decreases s.queue.len(),
{
    if s.queue.len() == 0 {
        let waiting = SessionView { phase: Phase::Reply, ..s };
        (waiting, EffectView::Send(request_of(waiting)))
    } else {
        match s.queue.first() {
            PendingView::Request(message) => advance(
                SessionView {
                    messages: s.messages.push(message),
                    queue: s.queue.drop_first(),
                    ..s
                },
            ),
            PendingView::Call(call) => match lookup(s.tools, call.name) {
                Some(tool) => match tool_command(tool.callback, call.arguments) {
                    Ok(command) => (
                        SessionView { phase: Phase::Tool, ..s },
                        EffectView::RunGit(command),
                    ),
                    Err(e) => fail(s, e),
                },
                None => fail(s, FailureView::ToolExecutionFailed { tool: call.name }),
            },
        }
    }
}

/// The action is applied to the answer of the model: a commit is created or
/// amended with the answer as its message, a review is judged, a summary is
/// printed.
pub open spec fn apply(s: SessionView, answer: Seq<char>) -> (SessionView, EffectView) {
    match s.action {
        ActionView::Write { signoff, cached, interactive } => (
            SessionView { phase: Phase::Commit, ..s },
            EffectView::RunGit(commit_command(answer, signoff, cached, interactive)),
        ),
        ActionView::Fixup => (
            SessionView { phase: Phase::Commit, ..s },
            EffectView::RunGit(amend_command(answer)),
        ),
        ActionView::Check => (
            SessionView { phase: Phase::Finished, ..s },
            EffectView::Finish(review_outcome(answer)),
        ),
        ActionView::Summary { .. } => (
            SessionView { phase: Phase::Finished, ..s },
            EffectView::Finish(printed(answer)),
        ),
    }
}

/// What follows a reply. A reply without choices ends the session with the
/// failure it stands for. A reply that asks for tools opens a round of tool
/// calls, unless the limit on rounds is reached. Any other reply is the
/// answer: the texts of its choices, one after the other.
pub open spec fn on_reply(s: SessionView, reply: ProviderReplyView) -> (SessionView, EffectView) {
    match reply_choices(reply) {
        Ok(choices) => if asks_for_tools(choices) {
            if s.rounds >= s.max_rounds {
                fail(s, FailureView::ToolLoopExceeded)
            } else {
                advance(
                    SessionView { rounds: (s.rounds + 1) as u32, queue: plan(choices), ..s },
                )
            }
        } else {
            apply(s, concat_contents(choices))
        },
        Err(e) => fail(s, e),
    }
}

/// What follows the output of a tool's command: the result joins the
/// conversation as the answer to the call, and the round goes on. A command
/// that failed ends the session.
pub open spec fn on_tool_output(s: SessionView, output: CommandOutputView) -> (
    SessionView,
    EffectView,
) {
    if s.queue.len() > 0 && s.queue.first() is Call {
        match output_text(output) {
            Ok(result) => advance(
                SessionView {
                    messages: s.messages.push(tool_message(s.queue.first()->Call_0.id, result)),
                    queue: s.queue.drop_first(),
                    ..s
                },
            ),
            Err(e) => fail(s, e),
        }
    } else {
        fail(s, FailureView::OutOfSequence)
    }
}

/// Whether the commit of an action runs in the editor.
pub open spec fn in_editor(action: ActionView) -> bool {
    action matches ActionView::Write { interactive, .. } && interactive
}

/// What follows the output of the commit command: the session ends, with
/// success where the command succeeded.
pub open spec fn on_commit_output(s: SessionView, output: CommandOutputView) -> (
    SessionView,
    EffectView,
) {
    match commit_result(in_editor(s.action), output) {
        Ok(_) => (
            SessionView { phase: Phase::Finished, ..s },
            EffectView::Finish(silent_success()),
        ),
        Err(e) => fail(s, e),
    }
}

/// One step of the session. An event that the session is not waiting for
/// ends it.
pub open spec fn step(s: SessionView, event: EventView) -> (SessionView, EffectView) {
    match (s.phase, event) {
        (Phase::Patch, EventView::GitFinished(output)) => on_patch(s, output),
        (Phase::History, EventView::GitFinished(output)) => on_history(s, output),
        (Phase::Reply, EventView::Replied(reply)) => on_reply(s, reply),
        (Phase::Tool, EventView::GitFinished(output)) => on_tool_output(s, output),
        (Phase::Commit, EventView::GitFinished(output)) => on_commit_output(s, output),
        _ => fail(s, FailureView::OutOfSequence),
    }
}

impl Session {
    /// The session as a mathematical value.
    pub closed spec fn view(&self) -> SessionView {
        SessionView {
            action: self.action@,
            options: self.options@,
            tools: self.tools@,
            max_rounds: self.max_rounds,
            rounds: self.rounds,
            phase: self.phase,
            patch: self.patch@,
            messages: self.messages.deep_view(),
            queue: self.queue.deep_view(),
        }
    }

    /// Whether the session is as it must be: no two tools share a name.
    pub closed spec fn well_formed(&self) -> bool {
        self.tools.well_formed()
    }

    /// Starts a session: the first thing to do is to run the command that
    /// gives the patch.
    pub fn start(action: Action, options: RequestOptions, tools: ToolsCollection, max_rounds: u32) -> (r:
        (Session, Effect))
        requires
            tools.well_formed(),
        ensures
            r.0.well_formed(),
            r.0@ == start_state(action@, options@, tools@, max_rounds),
            r.1@ == EffectView::RunGit(patch_command(action@)),
    {
        let command = match &action {
            Action::Write { cached, .. } => diff_command(*cached),
            Action::Fixup => last_commit_command(),
            Action::Check => last_commit_command(),
            Action::Summary { base } => branch_patches_command(base.as_str()),
        };
        let session = Session {
            action,
            options,
            tools,
            max_rounds,
            rounds: 0,
            phase: Phase::Patch,
            patch: String::new(),
            messages: Vec::new(),
            queue: Vec::new(),
        };
        assert(session.messages.deep_view() =~= Seq::<MessageView>::empty());
        assert(session.queue.deep_view() =~= Seq::<PendingView>::empty());
        (session, Effect::RunGit(command))
    }

    /// What the session is waiting for.
    pub fn phase(&self) -> (phase: Phase)
        ensures
            phase == self@.phase,
    {
        self.phase
    }

    /// Whether the session has ended.
    pub fn is_finished(&self) -> (b: bool)
        ensures
            b == (self@.phase == Phase::Finished),
    {
        match self.phase {
            Phase::Finished => true,
            _ => false,
        }
    }

    /// The number of rounds of tool calls so far.
    pub fn rounds(&self) -> (n: u32)
        ensures
            n == self@.rounds,
    {
        self.rounds
    }

    /// A copy of the conversation so far.
    pub fn messages(&self) -> (copy: Vec<ConversationMessage>)
        ensures
            copy.deep_view() == self@.messages,
    {
        copy_messages(&self.messages)
    }

    fn fail(self, e: Failure) -> (r: (Session, Effect))
        requires
            self.well_formed(),
        ensures
            r.0.well_formed(),
            (r.0@, r.1@) == fail(self@, e@),
    {
        let mut session = self;
        session.phase = Phase::Finished;
        (session, Effect::Finish(Outcome { stdout: None, stderr: None, failure: Some(e) }))
    }

    fn request(&self) -> (request: Request)
        requires
            self.well_formed(),
        ensures
            request@ == request_of(self@),
    {
        Request {
            endpoint: self.options.endpoint.clone(),
            model: self.options.model.clone(),
            max_tokens: self.options.max_tokens,
            messages: copy_messages(&self.messages),
            tools: self.tools.schemas(),
        }
    }

    fn on_patch(self, output: CommandOutput) -> (r: (Session, Effect))
        requires
            self.well_formed(),
        ensures
            r.0.well_formed(),
            (r.0@, r.1@) == on_patch(self@, output@),
    {
        let patch = match &self.action {
            Action::Write { .. } => get_diff(output),
            Action::Fixup => get_last_commit(output),
            Action::Check => get_last_commit(output),
            Action::Summary { .. } => get_branch_patches(output),
        };
        match patch {
            Ok(patch) => {
                let mut session = self;
                session.patch = patch;
                session.phase = Phase::History;
                (session, Effect::RunGit(history_command(RECENT_MESSAGES)))
            },
            Err(e) => self.fail(e),
        }
    }

    fn on_history(self, output: CommandOutput) -> (r: (Session, Effect))
        requires
            self.well_formed(),
        ensures
            r.0.well_formed(),
            (r.0@, r.1@) == on_history(self@, output@),
    {
        let recent = match get_last_git_messages(output) {
            Ok(recent) => recent,
            Err(e) => {
                return self.fail(e);
            },
        };
        let encoded = match encode_texts(&recent) {
            Ok(encoded) => encoded,
            Err(_) => {
                return self.fail(Failure::EncodingFailed);
            },
        };
        let Session { action, options, tools, max_rounds, rounds, phase, patch, messages, queue } =
            self;
        let opening = assemble(&action, patch, encoded.as_str());
        let session = Session {
            action,
            options,
            tools,
            max_rounds,
            rounds,
            phase: Phase::Reply,
            patch: String::new(),
            messages: opening,
            queue,
        };
        let request = session.request();
        (session, Effect::Send(request))
    }

    fn advance(self) -> (r: (Session, Effect))
        requires
            self.well_formed(),
        ensures
            r.0.well_formed(),
            (r.0@, r.1@) == advance(self@),
        decreases self.queue.len(),
    {
        let mut session = self;
        if session.queue.len() == 0 {
            session.phase = Phase::Reply;
            let request = session.request();
            return (session, Effect::Send(request));
        }
        let ghost before = session@;
        assert(before.queue.first() == session.queue@[0]@);
        let command = match &session.queue[0] {
            Pending::Call(call) => match session.tools.get(call.name.as_str()) {
                Some(callback) => Some(command_for(callback, call.arguments.as_str())),
                None => Some(Err(Failure::ToolExecutionFailed { tool: call.name.clone() })),
            },
            Pending::Request(_) => None,
        };
        match command {
            Some(Ok(command)) => {
                session.phase = Phase::Tool;
                (session, Effect::RunGit(command))
            },
            Some(Err(e)) => session.fail(e),
            None => {
                let first = session.queue.remove(0);
                assert(session.queue.deep_view() =~= before.queue.drop_first());
                match first {
                    Pending::Request(message) => {
                        let ghost old_messages = session.messages.deep_view();
                        session.messages.push(message);
                        assert(session.messages.deep_view() =~= old_messages.push(message@));
                        session.advance()
                    },
                    Pending::Call(_) => session.fail(Failure::OutOfSequence),
                }
            },
        }
    }

    fn apply(self, answer: String) -> (r: (Session, Effect))
        requires
            self.well_formed(),
        ensures
            r.0.well_formed(),
            (r.0@, r.1@) == apply(self@, answer@),
    {
        let mut session = self;
        let effect = match &session.action {
            Action::Write { signoff, cached, interactive } => Effect::RunGit(
                write_commit(answer.as_str(), *signoff, *cached, *interactive),
            ),
            Action::Fixup => Effect::RunGit(amend_commit(answer.as_str())),
            Action::Check => Effect::Finish(check_commit(answer.as_str())),
            Action::Summary { .. } => Effect::Finish(
                Outcome { stdout: Some(answer), stderr: None, failure: None },
            ),
        };
        session.phase = match &session.action {
            Action::Write { .. } => Phase::Commit,
            Action::Fixup => Phase::Commit,
            Action::Check => Phase::Finished,
            Action::Summary { .. } => Phase::Finished,
        };
        (session, effect)
    }

    fn on_reply(self, reply: ProviderReply) -> (r: (Session, Effect))
        requires
            self.well_formed(),
        ensures
            r.0.well_formed(),
            (r.0@, r.1@) == on_reply(self@, reply@),
    {
        let choices = match choices_of(reply) {
            Ok(choices) => choices,
            Err(e) => {
                return self.fail(e);
            },
        };
        if any_tool_call(&choices) {
            if self.rounds >= self.max_rounds {
                return self.fail(Failure::ToolLoopExceeded);
            }
            let mut session = self;
            session.rounds = session.rounds + 1;
            session.queue = plan_of(choices);
            session.advance()
        } else {
            let answer = concat_choices(&choices);
            self.apply(answer)
        }
    }

    fn on_tool_output(self, output: CommandOutput) -> (r: (Session, Effect))
        requires
            self.well_formed(),
        ensures
            r.0.well_formed(),
            (r.0@, r.1@) == on_tool_output(self@, output@),
    {
        let mut session = self;
        if session.queue.len() == 0 {
            return session.fail(Failure::OutOfSequence);
        }
        let ghost before = session@;
        assert(before.queue.first() == session.queue@[0]@);
        let is_call = match &session.queue[0] {
            Pending::Call(_) => true,
            Pending::Request(_) => false,
        };
        if !is_call {
            return session.fail(Failure::OutOfSequence);
        }
        let result = match read_output(output) {
            Ok(result) => result,
            Err(e) => {
                return session.fail(e);
            },
        };
        let first = session.queue.remove(0);
        assert(session.queue.deep_view() =~= before.queue.drop_first());
        match first {
            Pending::Call(call) => {
                let ghost old_messages = session.messages.deep_view();
                let answer = ConversationMessage::tool_result(call.id, result);
                session.messages.push(answer);
                assert(session.messages.deep_view() =~= old_messages.push(answer@));
                session.advance()
            },
            Pending::Request(_) => session.fail(Failure::OutOfSequence),
        }
    }

    fn on_commit_output(self, output: CommandOutput) -> (r: (Session, Effect))
        requires
            self.well_formed(),
        ensures
            r.0.well_formed(),
            (r.0@, r.1@) == on_commit_output(self@, output@),
    {
        let interactive = match &self.action {
            Action::Write { interactive, .. } => *interactive,
            _ => false,
        };
        match commit_finished(interactive, output) {
            Ok(_) => {
                let mut session = self;
                session.phase = Phase::Finished;
                (session, Effect::Finish(Outcome { stdout: None, stderr: None, failure: None }))
            },
            Err(e) => self.fail(e),
        }
    }

    /// Takes one step: the session is told what came of the last effect and
    /// says what is to be done next.
    pub fn step(self, event: Event) -> (r: (Session, Effect))
        requires
            self.well_formed(),
        ensures
            r.0.well_formed(),
            (r.0@, r.1@) == step(self@, event@),
    {
        match event {
            Event::GitFinished(output) => match self.phase {
                Phase::Patch => self.on_patch(output),
                Phase::History => self.on_history(output),
                Phase::Tool => self.on_tool_output(output),
                Phase::Commit => self.on_commit_output(output),
                _ => self.fail(Failure::OutOfSequence),
            },
            Event::Replied(reply) => match self.phase {
                Phase::Reply => self.on_reply(reply),
                _ => self.fail(Failure::OutOfSequence),
            },
        }
    }
}

/// What a reply that asks for tools leaves to do.
pub fn plan_of(choices: Vec<ConversationMessage>) -> (queue: Vec<Pending>)
    ensures
        queue.deep_view() == plan(choices.deep_view()),
{
    let mut queue: Vec<Pending> = Vec::new();
    let ghost all = choices.deep_view();
    let mut i: usize = 0;
    assert(all.take(0) =~= Seq::<MessageView>::empty());
    assert(queue.deep_view() =~= Seq::<PendingView>::empty());
    while i < choices.len()
        invariant
            i <= choices.len(),
            all == choices.deep_view(),
            queue.deep_view() == plan(all.take(i as int)),
        decreases choices.len() - i,
    {
        let choice = &choices[i];
        proof {
            assert(all.take(i + 1).drop_last() =~= all.take(i as int));
            assert(all.take(i + 1).last() == choice@);
        }
        if choice.tool_calls.len() > 0 {
            let ghost base = queue.deep_view();
            queue.push(Pending::Request(choice.duplicate()));
            assert(queue.deep_view() =~= base + seq![PendingView::Request(choice@)]);
            let ghost with_request = queue.deep_view();
            let mut j: usize = 0;
            while j < choice.tool_calls.len()
                invariant
                    j <= choice.tool_calls.len(),
                    queue.deep_view() == with_request + calls_of(choice@).take(j as int),
                decreases choice.tool_calls.len() - j,
            {
                let ghost so_far = queue.deep_view();
                let call = choice.tool_calls[j].duplicate();
                queue.push(Pending::Call(call));
                assert(queue.deep_view() =~= so_far.push(PendingView::Call(call@)));
                assert(calls_of(choice@).take(j + 1) =~= calls_of(choice@).take(j as int).push(
                    PendingView::Call(call@),
                ));
                j = j + 1;
            }
            assert(calls_of(choice@).take(choice.tool_calls.len() as int) =~= calls_of(choice@));
        }
        i = i + 1;
    }
    assert(all.take(choices.len() as int) =~= all);
    queue
}

} // verus!
