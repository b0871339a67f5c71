//! What holds of every session: statements about the state machine of
//! [`crate::session`], proved from its definition.

use crate::applier::{amend_command, commit_command};
use crate::conversation::{
    all_from_assistant, asks_for_tools, concat_contents, reply_choices, tool_message,
    MessageView, ProviderReplyView, Role,
};
use crate::collector::{recent_messages, TRAILER_PATTERN};
use crate::failure::FailureView;
use crate::git::{output_text, CommandOutputView};
use crate::json::json_of_texts;
use crate::pattern::regex_compiles;
use crate::prompt::{opening_messages, ActionView};
use crate::session::{
    advance, calls_of, fail, on_reply, plan, request_of, step, EffectView, EventView, PendingView,
    Phase, SessionView,
};
use crate::tools::{lookup, tool_command, ToolView};
use vstd::prelude::*;

verus! {

/// The messages that a round of tool calls adds to the conversation, given
/// the results of its calls in order: each message that asks for tools as it
/// came, and one message of role `Tool` for each call, at the place of the
/// call.
pub open spec fn round_block(queue: Seq<PendingView>, results: Seq<Seq<char>>) -> Seq<MessageView>
    decreases queue.len(),
{
    if queue.len() == 0 {
        Seq::empty()
    } else {
        match queue.first() {
            PendingView::Request(message) => seq![message] + round_block(
                queue.drop_first(),
                results,
            ),
            PendingView::Call(call) => if results.len() == 0 {
                Seq::empty()
            } else {
                seq![tool_message(call.id, results.first())] + round_block(
                    queue.drop_first(),
                    results.drop_first(),
                )
            },
        }
    }
}

/// The number of calls among what is left to do.
pub open spec fn call_count(queue: Seq<PendingView>) -> nat
    decreases queue.len(),
{
    if queue.len() == 0 {
        0
    } else if queue.first() is Call {
        1 + call_count(queue.drop_first())
    } else {
        call_count(queue.drop_first())
    }
}

/// The number of messages of role `Tool`.
pub open spec fn tool_replies(messages: Seq<MessageView>) -> nat
    decreases messages.len(),
{
    if messages.len() == 0 {
        0
    } else if messages.first().role == Role::Tool {
        1 + tool_replies(messages.drop_first())
    } else {
        tool_replies(messages.drop_first())
    }
}

/// Whether every call names a registered tool and hands it arguments that
/// the tool accepts.
pub open spec fn answerable(tools: Seq<ToolView>, queue: Seq<PendingView>) -> bool {
    forall|i: int|
        0 <= i < queue.len() && (#[trigger] queue[i]) is Call ==> {
            &&& lookup(tools, queue[i]->Call_0.name) is Some
            &&& tool_command(
                lookup(tools, queue[i]->Call_0.name)->Some_0.callback,
                queue[i]->Call_0.arguments,
            ) is Ok
        }
}

/// Whether no message that asks for tools is itself of role `Tool`.
pub open spec fn requests_are_not_replies(queue: Seq<PendingView>) -> bool {
    forall|i: int|
        0 <= i < queue.len() && (#[trigger] queue[i]) is Request ==> queue[i]->Request_0.role
            != Role::Tool
}

/// Whether every command succeeded and left text.
pub open spec fn all_succeeded(outputs: Seq<CommandOutputView>) -> bool {
    forall|i: int| 0 <= i < outputs.len() ==> output_text(#[trigger] outputs[i]) is Ok
}

/// The texts that the commands left.
pub open spec fn texts_of(outputs: Seq<CommandOutputView>) -> Seq<Seq<char>> {
    outputs.map_values(|output: CommandOutputView| output_text(output)->Ok_0)
}

/// The session after it was told, one after the other, what the `git`
/// commands left.
pub open spec fn feed(s: SessionView, effect: EffectView, outputs: Seq<CommandOutputView>) -> (
    SessionView,
    EffectView,
)
    decreases outputs.len(),
{
    if outputs.len() == 0 {
        (s, effect)
    } else {
        let next = step(s, EventView::GitFinished(outputs.first()));
        feed(next.0, next.1, outputs.drop_first())
    }
}

/// Going on with a round only adds to the conversation: what was said stays,
/// unchanged and in order.
pub proof fn lemma_advance_keeps_conversation(s: SessionView)
    ensures
        s.messages.is_prefix_of(advance(s).0.messages),
        advance(s).0.rounds == s.rounds,
        advance(s).0.max_rounds == s.max_rounds,
    decreases s.queue.len(),
{
    if s.queue.len() > 0 {
        match s.queue.first() {
            PendingView::Request(message) => {
                let next = SessionView {
                    messages: s.messages.push(message),
                    queue: s.queue.drop_first(),
                    ..s
                };
                lemma_advance_keeps_conversation(next);
                assert(s.messages =~= advance(s).0.messages.subrange(0, s.messages.len() as int))
                    by {
                    let after = advance(next).0.messages;
                    assert(next.messages =~= after.subrange(0, next.messages.len() as int));
                    assert forall|k: int| 0 <= k < s.messages.len() implies s.messages[k]
                        == after[k] by {
                        assert(next.messages[k] == after.subrange(
                            0,
                            next.messages.len() as int,
                        )[k]);
                    }
                }
            },
            PendingView::Call(_) => {},
        }
    }
}

/// Once the conversation is open it only grows, whatever the session is
/// told: every message that was part of it stays, unchanged and at its
/// place. (The step that reads the earlier commit messages is the one that
/// opens the conversation.)
pub proof fn lemma_conversation_only_grows(s: SessionView, event: EventView)
    requires
        s.phase != Phase::History,
    ensures
        s.messages.is_prefix_of(step(s, event).0.messages),
{
    let next = step(s, event);
    match (s.phase, event) {
        (Phase::Reply, EventView::Replied(reply)) => {
            match reply_choices(reply) {
                Ok(choices) => {
                    if asks_for_tools(choices) && s.rounds < s.max_rounds {
                        lemma_advance_keeps_conversation(
                            SessionView {
                                rounds: (s.rounds + 1) as u32,
                                queue: plan(choices),
                                ..s
                            },
                        );
                    }
                },
                Err(_) => {},
            }
        },
        (Phase::Tool, EventView::GitFinished(output)) => {
            if s.queue.len() > 0 && s.queue.first() is Call && output_text(output) is Ok {
                let grown = SessionView {
                    messages: s.messages.push(
                        tool_message(s.queue.first()->Call_0.id, output_text(output)->Ok_0),
                    ),
                    queue: s.queue.drop_first(),
                    ..s
                };
                lemma_advance_keeps_conversation(grown);
                let after = advance(grown).0.messages;
                assert(grown.messages =~= after.subrange(0, grown.messages.len() as int));
                assert forall|k: int| 0 <= k < s.messages.len() implies s.messages[k]
                    == after[k] by {
                    assert(grown.messages[k] == after.subrange(0, grown.messages.len() as int)[k]);
                }
                assert(s.messages =~= after.subrange(0, s.messages.len() as int));
            }
        },
        _ => {},
    }
    assert(s.messages =~= s.messages.subrange(0, s.messages.len() as int));
}

/// A round of tool calls in which every call can be answered and every
/// command succeeds ends with the conversation sent again, grown by the
/// block of the round and by nothing else.
pub proof fn lemma_round_appends_block(s: SessionView, outputs: Seq<CommandOutputView>)
    requires
        answerable(s.tools, s.queue),
        outputs.len() == call_count(s.queue),
        all_succeeded(outputs),
    ensures
        ({
            let first = advance(s);
            let last = feed(first.0, first.1, outputs);
            &&& last.0 == SessionView {
                phase: Phase::Reply,
                messages: s.messages + round_block(s.queue, texts_of(outputs)),
                queue: Seq::<PendingView>::empty(),
                ..s
            }
            &&& last.1 == EffectView::Send(request_of(last.0))
        }),
    decreases s.queue.len(),
{
    if s.queue.len() == 0 {
        assert(s.messages + round_block(s.queue, texts_of(outputs)) =~= s.messages);
        assert(s.queue =~= Seq::<PendingView>::empty());
    } else {
        let rest = s.queue.drop_first();
        assert forall|i: int| 0 <= i < rest.len() implies rest[i] == s.queue[i + 1] by {}
        assert(answerable(s.tools, rest)) by {
            assert forall|i: int| 0 <= i < rest.len() && (#[trigger] rest[i]) is Call implies {
                &&& lookup(s.tools, rest[i]->Call_0.name) is Some
                &&& tool_command(
                    lookup(s.tools, rest[i]->Call_0.name)->Some_0.callback,
                    rest[i]->Call_0.arguments,
                ) is Ok
            } by {
                assert(s.queue[i + 1] is Call);
            }
        }
        match s.queue.first() {
            PendingView::Request(message) => {
                let next = SessionView { messages: s.messages.push(message), queue: rest, ..s };
                lemma_round_appends_block(next, outputs);
                assert(next.messages + round_block(rest, texts_of(outputs)) =~= s.messages
                    + round_block(s.queue, texts_of(outputs)));
            },
            PendingView::Call(call) => {
                assert(s.queue[0] is Call);
                let running = SessionView { phase: Phase::Tool, ..s };
                assert(advance(s).0 == running);
                let output = outputs.first();
                assert(output_text(outputs[0]) is Ok);
                let result = output_text(output)->Ok_0;
                let next = SessionView {
                    messages: running.messages.push(tool_message(call.id, result)),
                    queue: rest,
                    ..running
                };
                assert(step(running, EventView::GitFinished(output)) == advance(next));
                let later = outputs.drop_first();
                assert(all_succeeded(later)) by {
                    assert forall|i: int| 0 <= i < later.len() implies output_text(
                        #[trigger] later[i],
                    ) is Ok by {
                        assert(later[i] == outputs[i + 1]);
                    }
                }
                lemma_round_appends_block(next, later);
                assert(texts_of(outputs).drop_first() =~= texts_of(later));
                assert(texts_of(outputs).first() == result);
                assert(next.messages + round_block(rest, texts_of(later)) =~= s.messages
                    + round_block(s.queue, texts_of(outputs)));
            },
        }
    }
}

/// The block of a round holds one message of role `Tool` for each call, and
/// no other message of that role.
pub proof fn lemma_one_reply_for_each_call(queue: Seq<PendingView>, results: Seq<Seq<char>>)
    requires
        requests_are_not_replies(queue),
        results.len() == call_count(queue),
    ensures
        tool_replies(round_block(queue, results)) == call_count(queue),
    decreases queue.len(),
{
    if queue.len() > 0 {
        let rest = queue.drop_first();
        assert(requests_are_not_replies(rest)) by {
            assert forall|i: int| 0 <= i < rest.len() && (#[trigger] rest[i]) is Request implies rest[i]->Request_0.role
                != Role::Tool by {
                assert(queue[i + 1] is Request);
            }
        }
        match queue.first() {
            PendingView::Request(message) => {
                assert(queue[0] is Request);
                lemma_one_reply_for_each_call(rest, results);
                let block = seq![message] + round_block(rest, results);
                assert(block.first() == message);
                assert(block.drop_first() =~= round_block(rest, results));
            },
            PendingView::Call(call) => {
                lemma_one_reply_for_each_call(rest, results.drop_first());
                let answer = tool_message(call.id, results.first());
                let block = seq![answer] + round_block(rest, results.drop_first());
                assert(block.first() == answer);
                assert(block.drop_first() =~= round_block(rest, results.drop_first()));
            },
        }
    }
}

/// In what a reply leaves to do, every message that asks for tools is one of
/// the reply's choices.
pub proof fn lemma_plan_requests_are_choices(choices: Seq<MessageView>)
    ensures
        forall|i: int|
            0 <= i < plan(choices).len() && (#[trigger] plan(choices)[i]) is Request
                ==> choices.contains(plan(choices)[i]->Request_0),
    decreases choices.len(),
{
    if choices.len() > 0 {
        let earlier = choices.drop_last();
        lemma_plan_requests_are_choices(earlier);
        let before = plan(earlier);
        assert forall|i: int|
            0 <= i < plan(choices).len() && (#[trigger] plan(choices)[i]) is Request implies choices.contains(
            plan(choices)[i]->Request_0,
        ) by {
            if i < before.len() {
                assert(plan(choices)[i] == before[i]);
                let message = before[i]->Request_0;
                assert(earlier.contains(message));
                let k = choose|k: int| 0 <= k < earlier.len() && earlier[k] == message;
                assert(choices[k] == message);
            } else {
                assert(choices.last().tool_calls.len() > 0);
                if i == before.len() {
                    assert(plan(choices)[i] == PendingView::Request(choices.last()));
                    assert(choices[choices.len() - 1] == choices.last());
                } else {
                    assert(plan(choices)[i] == calls_of(choices.last())[i - before.len() - 1]);
                }
            }
        }
    }
}

/// A round of tool calls. The session waits for a reply; the reply holds
/// choices of the assistant and asks for tools while the limit on rounds is
/// not reached. Where every call can be answered and every command
/// succeeds, the session sends the
/// conversation again after as many commands as there are calls. The
/// conversation that is sent is the one before the reply, unchanged and in
/// order, followed by the block of the round; and the block holds exactly
/// one message of role `Tool` for each call.
pub proof fn lemma_tool_round(
    s: SessionView,
    reply: ProviderReplyView,
    outputs: Seq<CommandOutputView>,
)
    requires
        s.phase == Phase::Reply,
        reply_choices(reply) is Ok,
        all_from_assistant(reply_choices(reply)->Ok_0),
        asks_for_tools(reply_choices(reply)->Ok_0),
        s.rounds < s.max_rounds,
        answerable(s.tools, plan(reply_choices(reply)->Ok_0)),
        outputs.len() == call_count(plan(reply_choices(reply)->Ok_0)),
        all_succeeded(outputs),
    ensures
        ({
            let queue = plan(reply_choices(reply)->Ok_0);
            let block = round_block(queue, texts_of(outputs));
            let first = step(s, EventView::Replied(reply));
            let last = feed(first.0, first.1, outputs);
            &&& last.1 == EffectView::Send(request_of(last.0))
            &&& last.0.phase == Phase::Reply
            &&& last.0.messages == s.messages + block
            &&& tool_replies(block) == call_count(queue)
            &&& last.0.rounds == s.rounds + 1
        }),
{
    let choices = reply_choices(reply)->Ok_0;
    let queue = plan(choices);
    let opened = SessionView { rounds: (s.rounds + 1) as u32, queue, ..s };
    assert(step(s, EventView::Replied(reply)) == advance(opened));
    lemma_round_appends_block(opened, outputs);
    lemma_plan_requests_are_choices(choices);
    assert(all_from_assistant(choices));
    assert(requests_are_not_replies(queue)) by {
        assert forall|i: int| 0 <= i < queue.len() && (#[trigger] queue[i]) is Request implies queue[i]->Request_0.role
            != Role::Tool by {
            let message = queue[i]->Request_0;
            assert(choices.contains(message));
            let k = choose|k: int| 0 <= k < choices.len() && choices[k] == message;
            assert(choices[k].role == Role::Assistant);
        }
    }
    lemma_one_reply_for_each_call(queue, texts_of(outputs));
}

/// The answer of the model decides the commit. Two sessions with the same
/// action that are given the same reply ask for the same thing; and where
/// the action creates or amends a commit, the message of the commit is the
/// text of the reply's choices, one after the other, and nothing else.
pub proof fn lemma_same_reply_same_commit(s1: SessionView, s2: SessionView, reply: ProviderReplyView)
    requires
        s1.action == s2.action,
        reply_choices(reply) is Ok,
        !asks_for_tools(reply_choices(reply)->Ok_0),
    ensures
        on_reply(s1, reply).1 == on_reply(s2, reply).1,
        s1.action matches ActionView::Write { signoff, cached, interactive } ==> on_reply(
            s1,
            reply,
        ).1 == EffectView::RunGit(
            commit_command(
                concat_contents(reply_choices(reply)->Ok_0),
                signoff,
                cached,
                interactive,
            ),
        ),
        s1.action is Fixup ==> on_reply(s1, reply).1 == EffectView::RunGit(
            amend_command(concat_contents(reply_choices(reply)->Ok_0)),
        ),
{
}

/// Nothing is sent while there is nothing to describe: for a new commit, a
/// working diff that is empty ends the session with `EmptyChangeSet`, before
/// any request is made.
pub proof fn lemma_empty_diff_ends_session(s: SessionView, output: CommandOutputView)
    requires
        s.phase == Phase::Patch,
        s.action is Write,
        output_text(output) == Ok::<Seq<char>, FailureView>(Seq::<char>::empty()),
    ensures
        step(s, EventView::GitFinished(output)) == fail(s, FailureView::EmptyChangeSet),
        step(s, EventView::GitFinished(output)).0.phase == Phase::Finished,
{
}

/// The conversation opens when the earlier commit messages were read: where
/// the history command succeeded and the trailer pattern compiles, the
/// session sends its first request, which holds the patch, then the style
/// hint with the style sample as a JSON array, then the instruction of the
/// action, in this order.
pub proof fn lemma_history_opens_conversation(s: SessionView, output: CommandOutputView)
    requires
        s.phase == Phase::History,
        output_text(output) is Ok,
        regex_compiles(TRAILER_PATTERN@),
    ensures
        ({
            let next = step(s, EventView::GitFinished(output));
            let sample = recent_messages(output_text(output)->Ok_0, TRAILER_PATTERN@);
            &&& next.0.phase == Phase::Reply
            &&& next.0.messages == opening_messages(s.action, s.patch, json_of_texts(sample))
            &&& next.1 == EffectView::Send(request_of(next.0))
        }),
{
}

/// No request is made before the patch was read: the step that reads it
/// asks for the next `git` command or ends the session.
pub proof fn lemma_patch_step_sends_nothing(s: SessionView, event: EventView)
    requires
        s.phase == Phase::Patch,
    ensures
        !(step(s, event).1 is Send),
{
}

/// An answer of the provider with a status other than success ends the
/// session with a provider error that holds the status and the body as they
/// came. No commit is made: the session asks for no command.
pub proof fn lemma_provider_error_ends_session(
    s: SessionView,
    status: u16,
    body: Seq<char>,
    choices: Option<Seq<MessageView>>,
)
    requires
        s.phase == Phase::Reply,
        !(200 <= status < 300),
    ensures
        step(s, EventView::Replied(ProviderReplyView::Answer { status, body, choices })) == fail(
            s,
            FailureView::ProviderError { status, body },
        ),
{
}

/// A failure is final: a session that has ended stays ended, whatever it is
/// told, and asks for nothing but to finish.
pub proof fn lemma_finished_is_final(s: SessionView, event: EventView)
    requires
        s.phase == Phase::Finished,
    ensures
        step(s, event).0.phase == Phase::Finished,
        step(s, event).1 is Finish,
{
}

/// The rounds of tool calls never exceed their limit: a reply that asks for
/// tools when the limit is reached ends the session with
/// `ToolLoopExceeded`.
pub proof fn lemma_rounds_stay_within_limit(s: SessionView, event: EventView)
    requires
        s.rounds <= s.max_rounds,
    ensures
        step(s, event).0.rounds <= s.max_rounds,
        step(s, event).0.max_rounds == s.max_rounds,
        s.phase == Phase::Reply && event is Replied && reply_choices(event->Replied_0) is Ok
            && asks_for_tools(reply_choices(event->Replied_0)->Ok_0) && s.rounds == s.max_rounds
            ==> step(s, event) == fail(s, FailureView::ToolLoopExceeded),
{
    match (s.phase, event) {
        (Phase::Reply, EventView::Replied(reply)) => {
            match reply_choices(reply) {
                Ok(choices) => {
                    if asks_for_tools(choices) && s.rounds < s.max_rounds {
                        lemma_advance_keeps_conversation(
                            SessionView {
                                rounds: (s.rounds + 1) as u32,
                                queue: plan(choices),
                                ..s
                            },
                        );
                    }
                },
                Err(_) => {},
            }
        },
        (Phase::Tool, EventView::GitFinished(output)) => {
            if s.queue.len() > 0 && s.queue.first() is Call && output_text(output) is Ok {
                lemma_advance_keeps_conversation(
                    SessionView {
                        messages: s.messages.push(
                            tool_message(s.queue.first()->Call_0.id, output_text(output)->Ok_0),
                        ),
                        queue: s.queue.drop_first(),
                        ..s
                    },
                );
            }
        },
        _ => {},
    }
}

} // verus!
