//! What holds of every chat, however the model, the tools and the user answer.
use vstd::prelude::*;

use crate::arguments::{command_of, ls_takes_its_flags, path_of, preview, shown_arguments};
use crate::chat::{
    answer_step, call_step, check_step, finish_step, first_messages, fresh_session, goes_too_deep,
    heard_step, lists_beneath, next_round_step, noted, session_after_tool, session_with_answer,
    target_of, tool_plan, ActionView, EventView, PendingToolView, SessionView, StepView,
    ToolPlanView, MAX_TOOL_ROUNDS,
};
use crate::commands::{cat_plan, ls_plan, sed_plan, PlanView};
use crate::json::{json_number, JsonView};
use crate::messages::{
    assistant_message, chat_request, last_messages_are_sent, requests_are_whole,
    sent_answers_are_whole, sent_context, sent_messages_say_who_and_what,
    sent_results_say_whose_they_are, text_message, tool_message, traced_response, MessageView,
    TurnView,
};
use crate::metrics::MetricsView;
use crate::path::{
    normalized, normalized_is_settled, path_text, settled_stands_for_itself, ComponentView,
    FileFacts,
};
use crate::permissions::{
    access_of, allowances_allow, beneath_allowed, choice_settles_question,
    directory_permission_does_not_reach_beneath, file_tools_and_their_access, is_directory,
    permission_check, permission_directory, resolved_rules, FileAccess, FilePermissionChoice,
    PathPermission, PathPermissionRule, PathPermissionState, PermissionCheck,
};
use crate::platform::{Environment, Platform};
use crate::requests::{tool_request, CallView};
use crate::results::{noted_result, result_summary};
use crate::search::{query_of, search_header};
use crate::settings::LlmConfig;
use crate::text::{blank, contains_part, part_is_contained, trimmed};
use crate::tools::available_schemas;

verus! {

/// What comes of an action: what the surroundings hand back after they have performed it.
pub enum Outcome {
    /// The model answers.
    Answer(MessageView, MetricsView),
    /// The request fails, with the given message.
    NoAnswer(Seq<char>),
    /// The rules and the file system are as given.
    Facts(PathPermissionState, FileFacts),
    /// The user has chosen.
    Chosen,
    /// A tool, or a question that it depends on, comes to this.
    Done(Result<Seq<char>, Seq<char>>),
    /// There is nothing to hand back.
    Nothing,
}

/// The step that an action leads to by an outcome, if the outcome is one of the action.
pub open spec fn following(
    action: ActionView,
    outcome: Outcome,
    config: LlmConfig,
    environment: Environment,
) -> Option<StepView> {
    let home = environment.home_view();
    match (action, outcome) {
        (ActionView::Continue(session), Outcome::Nothing) => Some(
            next_round_step(session, config, environment.platform),
        ),
        (ActionView::Ask { session, request }, Outcome::Answer(message, metrics)) => Some(
            answer_step(session, request, message, metrics, environment),
        ),
        (ActionView::Ask { session, request }, Outcome::NoAnswer(message)) => Some(
            StepView { events: Seq::empty(), action: ActionView::Fail(message) },
        ),
        (ActionView::Approve(pending), Outcome::Done(result)) => Some(
            finish_step(pending, result, home),
        ),
        (ActionView::Check(pending), Outcome::Facts(permissions, facts)) => Some(
            check_step(pending, permissions, home, facts),
        ),
        (ActionView::Check(pending), Outcome::Done(result)) => Some(
            finish_step(pending, result, home),
        ),
        (ActionView::Choose(pending, _), Outcome::Chosen) => Some(
            StepView { events: Seq::empty(), action: ActionView::Check(pending) },
        ),
        (ActionView::Choose(pending, _), Outcome::Done(result)) => Some(
            finish_step(pending, result, home),
        ),
        (ActionView::Run(pending), Outcome::Done(result)) => Some(
            finish_step(pending, result, home),
        ),
        _ => None,
    }
}

/// The action that outcomes lead to, one after the other, if each fits.
pub open spec fn reached(
    action: ActionView,
    outcomes: Seq<Outcome>,
    config: LlmConfig,
    environment: Environment,
) -> Option<ActionView>
    decreases outcomes.len(),
{
    if outcomes.len() == 0 {
        Some(action)
    } else {
        match reached(action, outcomes.drop_last(), config, environment) {
            Some(before) => match following(before, outcomes.last(), config, environment) {
                Some(step) => Some(step.action),
                None => None,
            },
            None => None,
        }
    }
}

/// The chat that an action goes on with, if it does.
pub open spec fn session_of(action: ActionView) -> Option<SessionView> {
    match action {
        ActionView::Continue(session) => Some(session),
        ActionView::Ask { session, request } => Some(session),
        ActionView::Approve(pending) => Some(pending.session),
        ActionView::Check(pending) => Some(pending.session),
        ActionView::Choose(pending, _) => Some(pending.session),
        ActionView::Run(pending) => Some(pending.session),
        ActionView::Reply { content, metrics, trace } => None,
        ActionView::Fail(_) => None,
    }
}

/// Whether a chat has only grown.
pub open spec fn grown(before: SessionView, after: SessionView) -> bool {
    &&& before.messages.is_prefix_of(after.messages)
    &&& before.thinking.is_prefix_of(after.thinking)
    &&& before.trace.is_prefix_of(after.trace)
    &&& before.rounds <= after.rounds
}

/// What holds of every action of a chat that started with `first` messages: the model was asked at
/// most so often, each answer is in the trace, each round that is over has left two messages, and
/// the tool is one for the action.
pub open spec fn in_order(action: ActionView, first: nat) -> bool {
    match action {
        ActionView::Continue(session) => {
            &&& session.rounds <= MAX_TOOL_ROUNDS
            &&& session.trace.len() == session.rounds
            &&& session.messages.len() == first + 2 * session.rounds
        },
        ActionView::Ask { session, request } => {
            &&& 1 <= session.rounds <= MAX_TOOL_ROUNDS
            &&& session.trace.len() == session.rounds - 1
            &&& session.messages.len() == first + 2 * (session.rounds - 1)
        },
        ActionView::Approve(pending) => {
            &&& tool_in_order(pending, first)
            &&& pending.invocation.name == "run_command"@
        },
        ActionView::Check(pending) => {
            &&& tool_in_order(pending, first)
            &&& access_of(pending.invocation.name) is Some
        },
        ActionView::Choose(pending, _) => {
            &&& tool_in_order(pending, first)
            &&& access_of(pending.invocation.name) is Some
        },
        ActionView::Run(pending) => {
            &&& tool_in_order(pending, first)
            &&& pending.invocation.name != "run_command"@
        },
        ActionView::Reply { content, metrics, trace } => {
            &&& 1 <= trace.len() <= MAX_TOOL_ROUNDS
            &&& !blank(content)
        },
        ActionView::Fail(_) => true,
    }
}

/// What holds of a chat in which the model has called a tool.
pub open spec fn tool_in_order(pending: PendingToolView, first: nat) -> bool {
    &&& 1 <= pending.session.rounds <= MAX_TOOL_ROUNDS
    &&& pending.session.trace.len() == pending.session.rounds
    &&& pending.session.messages.len() == first + 2 * (pending.session.rounds - 1)
}

/// No command is a file tool.
proof fn command_is_no_file_tool()
    ensures
        access_of("run_command"@) is None,
{
    reveal_strlit("run_command");
    reveal_strlit("ls");
    reveal_strlit("cat");
    reveal_strlit("sed");
    assert("run_command"@.len() == 11);
    assert("ls"@.len() == 2 && "cat"@.len() == 3 && "sed"@.len() == 3);
}

/// What is added to the thinking leaves the rest as it was.
proof fn noting_grows(pending: PendingToolView, note: Seq<char>)
    ensures
        grown(pending.session, noted(pending, note).session),
{
    assert(pending.session.thinking =~= (pending.session.thinking + note).subrange(
        0,
        pending.session.thinking.len() as int,
    ));
    itself_is_prefix(pending.session);
}

/// A chat has grown by nothing.
proof fn itself_is_prefix(session: SessionView)
    ensures
        grown(session, session),
{
    assert(session.messages =~= session.messages.subrange(0, session.messages.len() as int));
    assert(session.thinking =~= session.thinking.subrange(0, session.thinking.len() as int));
    assert(session.trace =~= session.trace.subrange(0, session.trace.len() as int));
}

/// What has grown twice has grown.
proof fn grown_twice(first: SessionView, second: SessionView, third: SessionView)
    requires
        grown(first, second),
        grown(second, third),
    ensures
        grown(first, third),
{
    assert(first.messages =~= third.messages.subrange(0, first.messages.len() as int)) by {
        assert forall|i: int| 0 <= i < first.messages.len() implies first.messages[i]
            == third.messages[i] by {
            assert(first.messages[i] == second.messages.subrange(
                0,
                first.messages.len() as int,
            )[i]);
            assert(second.messages[i] == third.messages.subrange(
                0,
                second.messages.len() as int,
            )[i]);
        }
    }
    assert(first.thinking =~= third.thinking.subrange(0, first.thinking.len() as int)) by {
        assert forall|i: int| 0 <= i < first.thinking.len() implies first.thinking[i]
            == third.thinking[i] by {
            assert(first.thinking[i] == second.thinking.subrange(
                0,
                first.thinking.len() as int,
            )[i]);
            assert(second.thinking[i] == third.thinking.subrange(
                0,
                second.thinking.len() as int,
            )[i]);
        }
    }
    assert(first.trace =~= third.trace.subrange(0, first.trace.len() as int)) by {
        assert forall|i: int| 0 <= i < first.trace.len() implies first.trace[i]
            == third.trace[i] by {
            assert(first.trace[i] == second.trace.subrange(0, first.trace.len() as int)[i]);
            assert(second.trace[i] == third.trace.subrange(0, second.trace.len() as int)[i]);
        }
    }
}

/// A tool that is done adds its messages and a note.
proof fn finishing_grows(pending: PendingToolView, result: Result<Seq<char>, Seq<char>>)
    ensures
        grown(pending.session, session_after_tool(pending, result)),
{
    let before = pending.session;
    let after = session_after_tool(pending, result);
    itself_is_prefix(before);
    assert(before.messages =~= after.messages.subrange(0, before.messages.len() as int));
    assert(before.thinking =~= after.thinking.subrange(0, before.thinking.len() as int));
}

/// An answer adds to the trace and to the thinking.
proof fn answer_grows(
    session: SessionView,
    request: JsonView,
    message: MessageView,
    metrics: MetricsView,
)
    ensures
        grown(session, session_with_answer(session, request, message, metrics)),
{
    let after = session_with_answer(session, request, message, metrics);
    itself_is_prefix(session);
    assert(session.thinking =~= after.thinking.subrange(0, session.thinking.len() as int));
    assert(session.trace =~= after.trace.subrange(0, session.trace.len() as int));
}

/// A chat only grows: no step takes back a message, a part of the thinking or of the trace.
pub proof fn chats_only_grow(
    action: ActionView,
    outcome: Outcome,
    config: LlmConfig,
    environment: Environment,
    before: SessionView,
    step: StepView,
    after: SessionView,
)
    requires
        session_of(action) == Some(before),
        following(action, outcome, config, environment) == Some(step),
        session_of(step.action) == Some(after),
    ensures
        grown(before, after),
{
    let home = environment.home_view();
    itself_is_prefix(before);
    match (action, outcome) {
        (ActionView::Ask { session, request }, Outcome::Answer(message, metrics)) => {
            let heard = session_with_answer(session, request, message, metrics);
            answer_grows(session, request, message, metrics);
            if let Some(invocation) = tool_request(
                message.content,
                message.tool_calls,
                environment.platform,
            ) {
                let pending = PendingToolView { session: heard, assistant: message, invocation };
                called_tool_grows(pending, home, after);
                grown_twice(before, heard, after);
            }
        },
        (ActionView::Approve(pending), Outcome::Done(result)) => {
            finishing_grows(pending, result);
        },
        (ActionView::Check(pending), Outcome::Facts(permissions, facts)) => {
            checked_tool_grows(pending, permissions, home, facts, after);
        },
        (ActionView::Check(pending), Outcome::Done(result)) => {
            finishing_grows(pending, result);
        },
        (ActionView::Choose(pending, _), Outcome::Done(result)) => {
            finishing_grows(pending, result);
        },
        (ActionView::Run(pending), Outcome::Done(result)) => {
            finishing_grows(pending, result);
        },
        _ => {},
    }
}

proof fn called_tool_grows(pending: PendingToolView, home: Option<Seq<char>>, after: SessionView)
    requires
        session_of(call_step(pending, home).action) == Some(after),
    ensures
        grown(pending.session, after),
{
    let call = pending.invocation;
    let note = "\n\n→ Calling "@ + call.name + preview(call, home) + "…"@;
    let calling = noted(pending, note);
    noting_grows(pending, note);
    if call.name == "run_command"@ {
        match command_of(call.arguments) {
            Ok(command) => {
                let asking = "\n\n→ Requesting approval to run command:\n"@ + command
                    + "\n\n⏸ Waiting for your approval…"@;
                noting_grows(calling, asking);
                grown_twice(pending.session, calling.session, after);
            },
            Err(message) => {
                finishing_grows(calling, Err(message));
                grown_twice(pending.session, calling.session, after);
            },
        }
    }
}

proof fn checked_tool_grows(
    pending: PendingToolView,
    permissions: PathPermissionState,
    home: Option<Seq<char>>,
    facts: FileFacts,
    after: SessionView,
)
    requires
        session_of(check_step(pending, permissions, home, facts).action) == Some(after),
    ensures
        grown(pending.session, after),
{
    itself_is_prefix(pending.session);
    let name = pending.invocation.name;
    match (target_of(pending.invocation, home, facts), access_of(name)) {
        (Ok(target), Some(access)) => {
            let directory = path_text(permission_directory(target, is_directory(target, facts)));
            noting_grows(
                pending,
                "\n\n→ Requesting permission to "@ + access.word() + " files in "@ + directory
                    + "\n\n⏸ Waiting for your decision…"@,
            );
            finishing_grows(
                pending,
                Ok("Access denied: file access was rejected for "@ + directory + "."@),
            );
            finishing_grows(
                pending,
                Ok(
                    "Access denied: access to "@ + directory
                        + " does not reach everything beneath it. List it without the R flag."@,
                ),
            );
        },
        (Ok(_), None) => {
            finishing_grows(pending, Err("Unknown file tool: "@ + name));
        },
        (Err(message), _) => {
            finishing_grows(pending, Err(message));
        },
    }
}

/// A step keeps the chat in order.
proof fn step_keeps_order(
    action: ActionView,
    outcome: Outcome,
    config: LlmConfig,
    environment: Environment,
    first: nat,
)
    requires
        in_order(action, first),
        following(action, outcome, config, environment) is Some,
    ensures
        in_order(following(action, outcome, config, environment)->0.action, first),
{
    let home = environment.home_view();
    match (action, outcome) {
        (ActionView::Ask { session, request }, Outcome::Answer(message, metrics)) => {
            let heard = session_with_answer(session, request, message, metrics);
            if let Some(invocation) = tool_request(
                message.content,
                message.tool_calls,
                environment.platform,
            ) {
                call_keeps_order(
                    PendingToolView { session: heard, assistant: message, invocation },
                    home,
                    first,
                );
            }
        },
        (ActionView::Check(pending), Outcome::Facts(permissions, facts)) => {
            check_keeps_order(pending, permissions, home, facts, first);
        },
        _ => {},
    }
}

proof fn call_keeps_order(pending: PendingToolView, home: Option<Seq<char>>, first: nat)
    requires
        tool_in_order(pending, first),
    ensures
        in_order(call_step(pending, home).action, first),
{
}

proof fn check_keeps_order(
    pending: PendingToolView,
    permissions: PathPermissionState,
    home: Option<Seq<char>>,
    facts: FileFacts,
    first: nat,
)
    requires
        tool_in_order(pending, first),
        access_of(pending.invocation.name) is Some,
    ensures
        in_order(check_step(pending, permissions, home, facts).action, first),
{
    command_is_no_file_tool();
}

/// A chat stays in order, whatever comes of its actions: the model is asked at most so often, every
/// answer is traced, every round that is over has left two messages, a command is never run without
/// the user's approval, only file tools are checked, and a reply is never blank.
pub proof fn chats_stay_in_order(
    prompt: Seq<char>,
    turns: Seq<TurnView>,
    outcomes: Seq<Outcome>,
    config: LlmConfig,
    environment: Environment,
)
    ensures
        ({
            let start = ActionView::Continue(fresh_session(prompt, turns));
            reached(start, outcomes, config, environment) matches Some(action) ==> in_order(
                action,
                first_messages(prompt, turns).len(),
            )
        }),
    decreases outcomes.len(),
{
    if outcomes.len() > 0 {
        chats_stay_in_order(prompt, turns, outcomes.drop_last(), config, environment);
        let start = ActionView::Continue(fresh_session(prompt, turns));
        if let Some(before) = reached(start, outcomes.drop_last(), config, environment) {
            if following(before, outcomes.last(), config, environment) is Some {
                step_keeps_order(
                    before,
                    outcomes.last(),
                    config,
                    environment,
                    first_messages(prompt, turns).len(),
                );
            }
        }
    }
}

/// Every request of a chat holds the system prompt and what is sent of the conversation, in front of
/// what the rounds before have added, and tells the model which tools there are.
pub proof fn requests_hold_the_conversation(
    prompt: Seq<char>,
    turns: Seq<TurnView>,
    outcomes: Seq<Outcome>,
    config: LlmConfig,
    environment: Environment,
)
    ensures
        ({
            let start = ActionView::Continue(fresh_session(prompt, turns));
            reached(start, outcomes, config, environment) matches Some(action) ==> {
                &&& session_of(action) matches Some(session) ==> first_messages(
                    prompt,
                    turns,
                ).is_prefix_of(session.messages)
                &&& action matches ActionView::Ask { session, request } ==> request
                    == chat_request(
                    config.model@,
                    session.messages,
                    available_schemas(environment.platform),
                    config.num_ctx,
                )
            }
        }),
    decreases outcomes.len(),
{
    let start = ActionView::Continue(fresh_session(prompt, turns));
    if outcomes.len() == 0 {
        itself_is_prefix(fresh_session(prompt, turns));
    } else {
        let earlier = outcomes.drop_last();
        requests_hold_the_conversation(prompt, turns, earlier, config, environment);
        if let Some(before) = reached(start, earlier, config, environment) {
            if let Some(step) = following(before, outcomes.last(), config, environment) {
                if let (Some(old_session), Some(new_session)) = (
                    session_of(before),
                    session_of(step.action),
                ) {
                    chats_only_grow(
                        before,
                        outcomes.last(),
                        config,
                        environment,
                        old_session,
                        step,
                        new_session,
                    );
                    let fresh = fresh_session(prompt, turns);
                    let first = SessionView {
                        messages: fresh.messages,
                        ..old_session
                    };
                    itself_is_prefix(old_session);
                    grown_twice(first, old_session, new_session);
                }
            }
        }
    }
}

/// What the answers among outcomes report, in all.
pub open spec fn reported_metrics(outcomes: Seq<Outcome>) -> MetricsView
    decreases outcomes.len(),
{
    if outcomes.len() == 0 {
        MetricsView::nothing(Seq::empty())
    } else {
        match outcomes.last() {
            Outcome::Answer(_, metrics) => reported_metrics(outcomes.drop_last()).plus(metrics),
            _ => reported_metrics(outcomes.drop_last()),
        }
    }
}

/// The metrics of a chat, and of its reply, are those of all its answers added up.
pub proof fn metrics_add_up(
    prompt: Seq<char>,
    turns: Seq<TurnView>,
    outcomes: Seq<Outcome>,
    config: LlmConfig,
    environment: Environment,
)
    ensures
        ({
            let start = ActionView::Continue(fresh_session(prompt, turns));
            reached(start, outcomes, config, environment) matches Some(action) ==> {
                &&& session_of(action) matches Some(session) ==> session.metrics
                    == reported_metrics(outcomes)
                &&& action matches ActionView::Reply { content, metrics, trace } ==> metrics
                    == reported_metrics(outcomes)
            }
        }),
    decreases outcomes.len(),
{
    if outcomes.len() > 0 {
        let earlier = outcomes.drop_last();
        metrics_add_up(prompt, turns, earlier, config, environment);
        let start = ActionView::Continue(fresh_session(prompt, turns));
        if let Some(before) = reached(start, earlier, config, environment) {
            if let Some(step) = following(before, outcomes.last(), config, environment) {
                step_adds_metrics(
                    before,
                    outcomes.last(),
                    config,
                    environment,
                    session_of(before)->0,
                    step,
                );
            }
        }
    }
}

/// What a step adds to the metrics of a chat.
proof fn step_adds_metrics(
    action: ActionView,
    outcome: Outcome,
    config: LlmConfig,
    environment: Environment,
    before: SessionView,
    step: StepView,
)
    requires
        session_of(action) == Some(before),
        following(action, outcome, config, environment) == Some(step),
    ensures
        ({
            let now = match outcome {
                Outcome::Answer(_, metrics) => before.metrics.plus(metrics),
                _ => before.metrics,
            };
            &&& session_of(step.action) matches Some(after) ==> after.metrics == now
            &&& step.action matches ActionView::Reply { content, metrics, trace } ==> metrics == now
        }),
{
    let home = environment.home_view();
    match (action, outcome) {
        (ActionView::Ask { session, request }, Outcome::Answer(message, metrics)) => {
            let heard = session_with_answer(session, request, message, metrics);
            if let Some(invocation) = tool_request(
                message.content,
                message.tool_calls,
                environment.platform,
            ) {
                call_keeps_metrics(
                    PendingToolView { session: heard, assistant: message, invocation },
                    home,
                );
            }
        },
        (ActionView::Check(pending), Outcome::Facts(permissions, facts)) => {
            check_keeps_metrics(pending, permissions, home, facts);
        },
        _ => {},
    }
}

proof fn call_keeps_metrics(pending: PendingToolView, home: Option<Seq<char>>)
    ensures
        session_of(call_step(pending, home).action) matches Some(after) && after.metrics
            == pending.session.metrics,
{
}

proof fn check_keeps_metrics(
    pending: PendingToolView,
    permissions: PathPermissionState,
    home: Option<Seq<char>>,
    facts: FileFacts,
)
    ensures
        session_of(check_step(pending, permissions, home, facts).action) matches Some(after)
            && after.metrics == pending.session.metrics,
{
}

/// A file tool is run only where the rules allow the path that it is called for. A listing of
/// everything beneath a directory is run only where they allow everything beneath it.
pub proof fn file_tools_run_with_permission(
    action: ActionView,
    outcome: Outcome,
    config: LlmConfig,
    environment: Environment,
    step: StepView,
    pending: PendingToolView,
)
    requires
        following(action, outcome, config, environment) == Some(step),
        step.action == ActionView::Run(pending),
        access_of(pending.invocation.name) is Some,
    ensures
        action == ActionView::Check(pending),
        outcome matches Outcome::Facts(permissions, facts) && {
            let home = environment.home_view();
            &&& target_of(pending.invocation, home, facts) is Ok
            &&& permission_check(
                path_text(target_of(pending.invocation, home, facts)->Ok_0),
                permissions,
                home,
                facts,
            ) == PermissionCheck::Allowed
            &&& lists_beneath(pending.invocation) && is_directory(
                target_of(pending.invocation, home, facts)->Ok_0,
                facts,
            ) ==> beneath_allowed(
                path_text(target_of(pending.invocation, home, facts)->Ok_0),
                permissions,
                home,
                facts,
            )
        },
{
}

/// A listing of everything beneath a directory is not run where the permission is for the directory
/// only; the model is told so. Nothing is asked of the user, who has decided on the directory.
pub proof fn directory_permission_lists_nothing_beneath(
    pending: PendingToolView,
    permissions: PathPermissionState,
    home: Option<Seq<char>>,
    facts: FileFacts,
)
    requires
        facts.consistent(),
        path_of(pending.invocation.arguments, home) matches Ok(text) && facts.places(text),
        lists_beneath(pending.invocation),
        ({
            let target = target_of(pending.invocation, home, facts)->Ok_0;
            let rules = resolved_rules(permissions.rules(), home, facts);
            &&& is_directory(target, facts)
            &&& forall|i: int|
                0 <= i < rules.len() && (#[trigger] rules[i]).covers(target, true)
                    ==> rules[i].permission == PathPermission::AllowDirectory
            &&& exists|i: int| 0 <= i < rules.len() && (#[trigger] rules[i]).covers(target, true)
        }),
    ensures
        ({
            let directory = path_text(target_of(pending.invocation, home, facts)->Ok_0);
            check_step(pending, permissions, home, facts).action matches ActionView::Continue(
                session,
            ) && session.messages.last() == tool_message(
                "ls"@,
                "Access denied: access to "@ + directory
                    + " does not reach everything beneath it. List it without the R flag."@,
            )
        }),
{
    let text = path_of(pending.invocation.arguments, home)->Ok_0;
    let target = normalized(text, facts);
    let rules = resolved_rules(permissions.rules(), home, facts);
    normalized_is_settled(text, facts);
    settled_stands_for_itself(target, facts);
    allowances_allow(rules, target, true);
    directory_permission_does_not_reach_beneath(rules, target);
}

/// A file tool that the rules deny is not run; the model is told which directory was rejected.
pub proof fn denied_file_tools_do_not_run(
    pending: PendingToolView,
    permissions: PathPermissionState,
    home: Option<Seq<char>>,
    facts: FileFacts,
)
    requires
        access_of(pending.invocation.name) is Some,
        target_of(pending.invocation, home, facts) is Ok,
        permission_check(
            path_text(target_of(pending.invocation, home, facts)->Ok_0),
            permissions,
            home,
            facts,
        ) == PermissionCheck::Denied,
    ensures
        ({
            let target = target_of(pending.invocation, home, facts)->Ok_0;
            let directory = path_text(permission_directory(target, is_directory(target, facts)));
            check_step(pending, permissions, home, facts).action matches ActionView::Continue(
                session,
            ) && session.messages.last() == tool_message(
                pending.invocation.name,
                "Access denied: file access was rejected for "@ + directory + "."@,
            )
        }),
{
}

/// The user is asked once: after the answer to a question, the tool is run, or done where the user
/// has rejected it or has not allowed all that it would list.
pub proof fn answered_questions_are_settled(
    pending: PendingToolView,
    before: PathPermissionState,
    after: PathPermissionState,
    choice: FilePermissionChoice,
    rule: PathPermissionRule,
    home: Option<Seq<char>>,
    facts: FileFacts,
    directory: Seq<char>,
    asking: PendingToolView,
)
    requires
        facts.consistent(),
        path_of(pending.invocation.arguments, home) matches Ok(text) ==> facts.places(text),
        check_step(pending, before, home, facts).action == ActionView::Choose(asking, directory),
        rule.path@ == directory,
        rule.permission == choice.permission(),
        after.session@ == before.session@.push(rule),
        after.persistent@ == before.persistent@,
    ensures
        ({
            let target = target_of(pending.invocation, home, facts)->Ok_0;
            if choice == FilePermissionChoice::Reject || goes_too_deep(
                pending.invocation,
                target,
                after,
                home,
                facts,
            ) {
                check_step(asking, after, home, facts).action is Continue
            } else {
                check_step(asking, after, home, facts).action == ActionView::Run(asking)
            }
        }),
{
    let text = path_of(pending.invocation.arguments, home)->Ok_0;
    let target = normalized(text, facts);
    normalized_is_settled(text, facts);
    settled_stands_for_itself(target, facts);
    choice_settles_question(path_text(target), before, after, choice, rule, home, facts);
}

/// A reply is an answer that is not blank and requests no tool.
pub proof fn replies_request_no_tool(
    session: SessionView,
    request: JsonView,
    message: MessageView,
    metrics: MetricsView,
    environment: Environment,
)
    requires
        answer_step(session, request, message, metrics, environment).action is Reply,
    ensures
        tool_request(message.content, message.tool_calls, environment.platform) is None,
        !blank(message.content),
        answer_step(session, request, message, metrics, environment).action->content
            == message.content,
{
}

/// For every file tool, reading or writing: where the rules say nothing of its file, the user is asked
/// for the directory of the file, by the name of the tool and with the access that it needs.
#[verifier::rlimit(40)]
pub proof fn uncovered_files_are_asked_for(
    pending: PendingToolView,
    permissions: PathPermissionState,
    home: Option<Seq<char>>,
    facts: FileFacts,
)
    requires
        pending.invocation.name == "ls"@ || pending.invocation.name == "cat"@
            || pending.invocation.name == "sed"@,
        target_of(pending.invocation, home, facts) is Ok,
        permission_check(
            path_text(target_of(pending.invocation, home, facts)->Ok_0),
            permissions,
            home,
            facts,
        ) == PermissionCheck::NeedsPrompt,
    ensures
        ({
            let target = target_of(pending.invocation, home, facts)->Ok_0;
            let asked = path_text(permission_directory(target, is_directory(target, facts)));
            let step = check_step(pending, permissions, home, facts);
            &&& step.action matches ActionView::Choose(asking, directory) && {
                &&& directory == asked
                &&& asking.invocation == pending.invocation
                &&& asking.assistant == pending.assistant
                &&& asking.session.messages == pending.session.messages
                &&& asking.session.metrics == pending.session.metrics
                &&& asking.session.trace == pending.session.trace
                &&& asking.session.rounds == pending.session.rounds
                &&& step.events[0] == EventView::Thinking(asking.session.thinking)
            }
            &&& step.events.len() == 2
            &&& step.events.last() matches EventView::FilePermissionNeeded {
                tool_name,
                arguments,
                directory,
                access,
            } && {
                &&& tool_name == pending.invocation.name
                &&& directory == asked
                &&& arguments == shown_arguments(pending.invocation, home)
                &&& access == if pending.invocation.name == "sed"@ {
                    FileAccess::Write
                } else {
                    FileAccess::Read
                }
            }
        }),
{
    file_tools_and_their_access(pending.invocation.name);
    reveal_strlit("ls");
    reveal_strlit("cat");
    reveal_strlit("sed");
    assert("ls"@.len() == 2 && "cat"@[0] == 'c' && "sed"@[0] == 's');
}

/// Where the file of a call can be told, the rules decide: the tool runs exactly where they allow all
/// that it touches, and the user is asked exactly where they say nothing. Otherwise the call is done.
/// A call whose file cannot be told is done.
#[verifier::rlimit(40)]
pub proof fn rules_decide_on_file_tools(
    pending: PendingToolView,
    permissions: PathPermissionState,
    home: Option<Seq<char>>,
    facts: FileFacts,
)
    requires
        pending.invocation.name == "ls"@ || pending.invocation.name == "cat"@
            || pending.invocation.name == "sed"@,
    ensures
        ({
            let action = check_step(pending, permissions, home, facts).action;
            match target_of(pending.invocation, home, facts) {
                Ok(target) => {
                    let check = permission_check(path_text(target), permissions, home, facts);
                    let all_beneath = lists_beneath(pending.invocation) && is_directory(
                        target,
                        facts,
                    ) ==> beneath_allowed(path_text(target), permissions, home, facts);
                    &&& action is Run <==> check == PermissionCheck::Allowed && all_beneath
                    &&& action is Run ==> action == ActionView::Run(pending)
                    &&& action is Choose <==> check == PermissionCheck::NeedsPrompt
                    &&& action is Continue <==> check == PermissionCheck::Denied || (check
                        == PermissionCheck::Allowed && !all_beneath)
                },
                Err(message) => action matches ActionView::Continue(session) && session.messages
                    == pending.session.messages + seq![
                    assistant_message(pending.assistant),
                    tool_message(pending.invocation.name, message),
                ],
            }
        }),
{
    file_tools_and_their_access(pending.invocation.name);
}

/// A listing of everything beneath a directory is told by its flags; no other tool makes one.
pub proof fn listings_beneath_are_told_by_their_flags(
    name: Seq<char>,
    entries: Map<Seq<char>, JsonView>,
)
    ensures
        ({
            let call = CallView { name, arguments: JsonView::Object(entries) };
            &&& name != "ls"@ ==> !lists_beneath(call)
            &&& name == "ls"@ ==> match JsonView::Object(entries).field("flags"@) {
                Some(JsonView::Text(text)) => (forall|i: int|
                    0 <= i < text.len() ==> (#[trigger] text[i] == 'a' || text[i] == 'l' || text[i]
                        == 'R')) ==> lists_beneath(call) == text.contains('R'),
                _ => !lists_beneath(call),
            }
        }),
{
    let arguments = JsonView::Object(entries);
    ls_takes_its_flags(Seq::empty());
    if let Some(text) = arguments.text_field("flags"@) {
        ls_takes_its_flags(text);
    }
}

/// The file of a call is the one that its path stands for.
pub proof fn calls_are_about_their_path(
    call: CallView,
    home: Option<Seq<char>>,
    facts: FileFacts,
)
    ensures
        match path_of(call.arguments, home) {
            Ok(text) => target_of(call, home, facts) == Ok::<Seq<ComponentView>, Seq<char>>(
                normalized(text, facts),
            ),
            Err(message) => target_of(call, home, facts) == Err::<Seq<ComponentView>, Seq<char>>(
                message,
            ),
        },
{
}

/// A chat starts with the system prompt and the conversation: all of its messages, or the last twenty,
/// each with its speaker and, unless it is too long, its whole text. Nothing was asked yet.
pub proof fn chats_start_with_the_conversation(prompt: Seq<char>, turns: Seq<TurnView>)
    ensures
        ({
            let session = fresh_session(prompt, turns);
            let sent: nat = if turns.len() <= 20 {
                turns.len()
            } else {
                20
            };
            &&& session.messages.len() == 1 + sent
            &&& session.messages[0].text_field("role"@) == Some("system"@)
            &&& session.messages[0].text_field("content"@) == Some(prompt)
            &&& forall|i: int|
                0 <= i < sent ==> {
                    let turn = turns[turns.len() - sent + i];
                    let message = #[trigger] session.messages[i + 1];
                    &&& message.text_field("role"@) == Some(turn.role)
                    &&& turn.content.len() <= 3000 ==> message.text_field("content"@) == Some(
                        turn.content,
                    )
                }
            &&& session.rounds == 0
            &&& session.trace.len() == 0
            &&& session.metrics == MetricsView::nothing(Seq::empty())
        }),
{
    let session = fresh_session(prompt, turns);
    let sent: nat = if turns.len() <= 20 {
        turns.len()
    } else {
        20
    };
    last_messages_are_sent(turns);
    sent_messages_say_who_and_what("system"@, prompt);
    assert forall|i: int| 0 <= i < sent implies {
        let turn = turns[turns.len() - sent + i];
        let message = #[trigger] session.messages[i + 1];
        &&& message.text_field("role"@) == Some(turn.role)
        &&& turn.content.len() <= 3000 ==> message.text_field("content"@) == Some(turn.content)
    } by {
        let told = sent_context(turns)[i];
        sent_messages_say_who_and_what(told.role, told.content);
        assert(session.messages[i + 1] == text_message(told.role, told.content));
    }
}

/// The model is asked while it was asked less than eight times: with all messages of the chat, the
/// tools that can be had, and the settings. After that the chat fails.
pub proof fn models_are_asked_eight_times_at_most(
    session: SessionView,
    config: LlmConfig,
    platform: Platform,
)
    ensures
        ({
            let step = next_round_step(session, config, platform);
            &&& session.rounds >= 8 ==> step.events.len() == 0 && step.action == ActionView::Fail(
                "The model kept requesting tools without producing a final answer."@,
            )
            &&& session.rounds < 8 ==> {
                &&& step.events == seq![EventView::Thinking(session.thinking)]
                &&& step.action matches ActionView::Ask { session: asking, request } && {
                    &&& asking == SessionView { rounds: session.rounds + 1, ..session }
                    &&& request.text_field("model"@) == Some(config.model@)
                    &&& request.field("messages"@) == Some(JsonView::Array(session.messages))
                    &&& request.field("tools"@) == Some(
                        JsonView::Array(available_schemas(platform)),
                    )
                    &&& request.field("options"@) matches Some(options) && options.field(
                        "num_ctx"@,
                    ) == Some(JsonView::Number(json_number(config.num_ctx as u64)))
                }
            }
        }),
{
    requests_are_whole(
        config.model@,
        session.messages,
        available_schemas(platform),
        config.num_ctx,
    );
}

/// A call goes its way by its tool: a command waits for the user's approval, a file tool for the
/// rules, and a search runs. The call is shown, and the chat keeps all but a note in its thinking.
#[verifier::rlimit(40)]
pub proof fn calls_go_their_way(pending: PendingToolView, home: Option<Seq<char>>)
    ensures
        ({
            let name = pending.invocation.name;
            let step = call_step(pending, home);
            &&& step.events.len() >= 2
            &&& step.events[0] == EventView::Thinking(
                pending.session.thinking + ("\n\n→ Calling "@ + name + preview(
                    pending.invocation,
                    home,
                ) + "…"@),
            )
            &&& step.events[1] matches EventView::ToolAction(update) && {
                &&& update.name == name
                &&& update.arguments == shown_arguments(pending.invocation, home)
                &&& update.summary == "Running…"@
                &&& update.success && !update.completed
            }
            &&& name == "run_command"@ ==> match command_of(pending.invocation.arguments) {
                Ok(command) => {
                    &&& step.events.last() == (EventView::CommandApprovalNeeded { command })
                    &&& step.action matches ActionView::Approve(waiting) && same_call(
                        pending,
                        waiting,
                    )
                },
                Err(message) => step.action matches ActionView::Continue(session)
                    && session.messages == pending.session.messages + seq![
                    assistant_message(pending.assistant),
                    tool_message(name, message),
                ],
            }
            &&& name == "ls"@ || name == "cat"@ || name == "sed"@ ==> (
            step.action matches ActionView::Check(waiting) && same_call(pending, waiting))
            &&& name == "web_search"@ ==> (step.action matches ActionView::Run(running)
                && same_call(pending, running))
        }),
{
    command_is_no_file_tool();
    file_tools_and_their_access(pending.invocation.name);
    reveal_strlit("run_command");
    reveal_strlit("web_search");
    reveal_strlit("ls");
    reveal_strlit("cat");
    reveal_strlit("sed");
    assert("run_command"@.len() == 11 && "web_search"@.len() == 10 && "ls"@.len() == 2);
    assert("cat"@.len() == 3 && "sed"@.len() == 3);
}

/// Whether two chats are the same but for their thinking.
pub open spec fn same_call(before: PendingToolView, after: PendingToolView) -> bool {
    &&& after.invocation == before.invocation
    &&& after.assistant == before.assistant
    &&& after.session.messages == before.session.messages
    &&& after.session.metrics == before.session.metrics
    &&& after.session.trace == before.session.trace
    &&& after.session.rounds == before.session.rounds
    &&& before.session.thinking.is_prefix_of(after.session.thinking)
}

/// An answer is traced with the request that led to it, and what it reports is added. Where it requests
/// a tool, that call goes on with the answer; where it does not, it is the reply, word for word, unless
/// it is blank.
#[verifier::rlimit(40)]
pub proof fn answers_are_heard(
    session: SessionView,
    request: JsonView,
    message: MessageView,
    metrics: MetricsView,
    requested: Option<CallView>,
    home: Option<Seq<char>>,
)
    ensures
        ({
            let step = heard_step(session, request, message, metrics, requested, home);
            let trace = session.trace.push((request, traced_response(message, metrics)));
            match requested {
                None => if blank(message.content) {
                    step.action == ActionView::Fail("The model returned an empty response."@)
                } else {
                    step.action == ActionView::Reply {
                        content: message.content,
                        metrics: session.metrics.plus(metrics),
                        trace,
                    }
                },
                Some(call) => {
                    &&& session_of(step.action) matches Some(after) && {
                        &&& after.trace == trace
                        &&& after.metrics == session.metrics.plus(metrics)
                        &&& after.rounds == session.rounds
                    }
                    &&& call.name == "web_search"@ ==> (step.action matches ActionView::Run(running)
                        && running.invocation == call && running.assistant == message)
                    &&& call.name == "ls"@ || call.name == "cat"@ || call.name == "sed"@ ==> (
                    step.action matches ActionView::Check(waiting) && waiting.invocation == call
                        && waiting.assistant == message)
                    &&& call.name == "run_command"@ && command_of(call.arguments) is Ok ==> (
                    step.action matches ActionView::Approve(waiting) && waiting.invocation == call
                        && waiting.assistant == message)
                },
            }
        }),
{
    if let Some(invocation) = requested {
        let heard = session_with_answer(session, request, message, metrics);
        calls_go_their_way(
            PendingToolView { session: heard, assistant: message, invocation },
            home,
        );
        call_keeps_metrics(
            PendingToolView { session: heard, assistant: message, invocation },
            home,
        );
    }
}

/// What an answer says is shown as thinking, without white space around it, and at once.
pub proof fn answers_are_shown(
    session: SessionView,
    request: JsonView,
    message: MessageView,
    metrics: MetricsView,
    requested: Option<CallView>,
    home: Option<Seq<char>>,
)
    requires
        !blank(message.content),
    ensures
        ({
            let step = heard_step(session, request, message, metrics, requested, home);
            step.events.len() > 0 && step.events[0] == EventView::Thinking(
                session.thinking + seq!['\n', '\n'] + trimmed(message.content),
            )
        }),
{
    reveal_strlit("\n\n");
    assert("\n\n"@ =~= seq!['\n', '\n']);
}

/// What a tool answers goes to the model: behind the call that asked for it, as the result of that
/// tool. The user is shown that the tool is done, and how it went; the chat goes on with the next
/// round.
#[verifier::rlimit(40)]
pub proof fn results_go_to_the_model(
    pending: PendingToolView,
    result: Result<Seq<char>, Seq<char>>,
    home: Option<Seq<char>>,
)
    ensures
        ({
            let step = finish_step(pending, result, home);
            let said = match result {
                Ok(output) => output,
                Err(message) => message,
            };
            &&& step.action matches ActionView::Continue(session) && {
                let count = pending.session.messages.len() as int;
                &&& session.messages.len() == count + 2
                &&& session.messages.take(count) == pending.session.messages
                &&& session.messages[count].text_field("role"@) == Some("assistant"@)
                &&& session.messages[count].text_field("content"@) == Some(
                    pending.assistant.content,
                )
                &&& session.messages[count + 1].text_field("role"@) == Some("tool"@)
                &&& session.messages[count + 1].text_field("tool_name"@) == Some(
                    pending.invocation.name,
                )
                &&& said.len() <= 4000 ==> session.messages[count + 1].text_field("content"@)
                    == Some(said)
                &&& session.trace == pending.session.trace
                &&& session.metrics == pending.session.metrics
                &&& session.rounds == pending.session.rounds
                &&& session.thinking == pending.session.thinking + "\n\n← "@ + noted_result(
                    pending.invocation.name,
                    said,
                )
                &&& step.events[1] == EventView::Thinking(session.thinking)
            }
            &&& step.events.len() == 2
            &&& step.events[0] matches EventView::ToolAction(update) && {
                &&& update.name == pending.invocation.name
                &&& update.arguments == shown_arguments(pending.invocation, home)
                &&& update.completed
                &&& update.success == result is Ok
                &&& result matches Err(message) ==> update.summary == message
                &&& result matches Ok(output) ==> update.summary == result_summary(
                    pending.invocation.name,
                    output,
                )
            }
        }),
{
    sent_answers_are_whole(pending.assistant);
    let said = match result {
        Ok(output) => output,
        Err(message) => message,
    };
    sent_results_say_whose_they_are(pending.invocation.name, said);
    let session = session_after_tool(pending, result);
    assert(session.messages.take(pending.session.messages.len() as int)
        =~= pending.session.messages);
}

/// Each tool is run as what it is: a search with its query, at most five findings and a summary, and
/// the file tools by their programs. A tool that is not known is an error that names it.
#[verifier::rlimit(40)]
pub proof fn tools_run_as_what_they_are(
    call: CallView,
    api_key: Seq<char>,
    environment: Environment,
    facts: FileFacts,
)
    ensures
        ({
            let plan = tool_plan(call, api_key, environment, facts);
            &&& call.name == "web_search"@ ==> match query_of(call.arguments) {
                Ok(query) => plan == Ok::<ToolPlanView, Seq<char>>(
                    ToolPlanView::Search {
                        query,
                        header: search_header(api_key),
                        max_results: 5,
                        with_answer: true,
                    },
                ),
                Err(message) => plan == Err::<ToolPlanView, Seq<char>>(message),
            }
            &&& call.name == "ls"@ ==> (plan matches Ok(ToolPlanView::Command(program)) ==> ls_plan(
                call.arguments,
                environment,
                facts,
            ) == Ok::<PlanView, Seq<char>>(program))
            &&& call.name == "cat"@ ==> (plan matches Ok(ToolPlanView::Command(program))
                ==> cat_plan(call.arguments, environment, facts) == Ok::<PlanView, Seq<char>>(
                program,
            ))
            &&& call.name == "sed"@ ==> (plan matches Ok(ToolPlanView::Command(program))
                ==> sed_plan(call.arguments, environment, facts) == Ok::<PlanView, Seq<char>>(
                program,
            ))
            &&& call.name == "ls"@ ==> plan is Ok == ls_plan(
                call.arguments,
                environment,
                facts,
            ) is Ok && !(plan matches Ok(ToolPlanView::Search { .. }))
            &&& call.name == "cat"@ ==> plan is Ok == cat_plan(
                call.arguments,
                environment,
                facts,
            ) is Ok && !(plan matches Ok(ToolPlanView::Search { .. }))
            &&& call.name == "sed"@ ==> plan is Ok == sed_plan(
                call.arguments,
                environment,
                facts,
            ) is Ok && !(plan matches Ok(ToolPlanView::Search { .. }))
            &&& call.name != "web_search"@ && call.name != "ls"@ && call.name != "cat"@ && call.name
                != "sed"@ ==> (plan matches Err(message) && contains_part(message, call.name))
        }),
{
    reveal_strlit("web_search");
    reveal_strlit("ls");
    reveal_strlit("cat");
    reveal_strlit("sed");
    assert("web_search"@.len() == 10 && "ls"@.len() == 2);
    assert("cat"@[0] == 'c' && "cat"@.len() == 3 && "sed"@[0] == 's' && "sed"@.len() == 3);
    part_is_contained("Unknown tool: "@, call.name, Seq::empty());
    assert("Unknown tool: "@ + call.name + Seq::<char>::empty() =~= "Unknown tool: "@ + call.name);
}

} // verus!
