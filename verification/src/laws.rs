//! What holds of all subcommands: how they end, and what they send.

use crate::assign_workspace::NOTHING_TO_ASSIGN;
use crate::cli::{Cmd, FollowMode, Order, after_probe, started};
use crate::error::{CauseView, CliError, CliErrorView, Failure, FailureView, IoFailure, IoKind,
    MalformedResponseSourceView, typed_in};
use crate::flow::{AfterConfigRead, AfterName, AfterPick, AfterPickMany, AfterPrint, AfterReply,
    OutputView, ProgressView, Shell, StepView, Tool, failed};
use crate::follow::{focus_window, focus_workspace, following_activity, following_window,
    following_workspace, open_overview, switch_activity};
use crate::ipc::{ActionView, Activity, ActivityReferenceView, IpcError, RequestView, Response,
    WorkspaceReferenceView};
use crate::ipc_helpers::variant;
use crate::list::ListOpts;
use crate::picker::multi_select::MultiPickerOutcome;
use crate::picker::{NameOutcome, PickerOutcome};
use crate::resume::{named, picked_many, picked_one, printed, replied};
use vstd::prelude::*;
use vstd::string::*;

verus! {

// ---- How subcommands end ---------------------------------------------------

/// Whether a subcommand is over, with success.
pub open spec fn succeeded(p: ProgressView) -> bool {
    p.step matches StepView::Finish { outcome: Ok(_) }
}

/// The failure that a subcommand is over with.
pub open spec fn failure(p: ProgressView) -> Option<FailureView> {
    match p.step {
        StepView::Finish { outcome: Err(f) } => Some(f),
        _ => None,
    }
}

/// Whether a subcommand is over with the given failure, whatever the operations
/// around it.
pub open spec fn fails_with(p: ProgressView, error: CliErrorView) -> bool {
    failure(p) matches Some(f) && f.cause == CauseView::Typed(error)
}

/// Leaving a menu or a prompt ends the subcommand with success and without a
/// further request, whatever the menu was for.
pub proof fn law_cancelling_is_no_failure(at: AfterPick, many: AfterPickMany, name: AfterName)
    ensures
        succeeded(picked_one(at, Ok(PickerOutcome::Cancelled))),
        succeeded(picked_many(many, Ok(MultiPickerOutcome::Cancelled))),
        succeeded(named(name, Ok(NameOutcome::Cancelled))),
{
}

/// Where a menu or a prompt cannot be shown, the subcommand ends with that
/// failure and without a further request, whatever the menu was for.
pub proof fn law_failing_menu_ends_the_subcommand(
    at: AfterPick,
    many: AfterPickMany,
    name: AfterName,
    error: CliError,
)
    ensures
        failure(picked_one(at, Err(error))) matches Some(f) && f.cause == CauseView::Typed(error@),
        failure(picked_many(many, Err(error))) matches Some(f) && f.cause == CauseView::Typed(
            error@,
        ),
        failure(named(name, Err(error))) matches Some(f) && f.cause == CauseView::Typed(error@),
{
}

/// Where a menu for assigning a workspace cannot be shown, or a menu that asks
/// whether to follow one, the failure names that menu. Where any other menu or the
/// prompt for a name cannot be shown, the failure is told as it is.
pub proof fn law_failing_menu_is_named(
    at: AfterPick,
    many: AfterPickMany,
    name: AfterName,
    error: CliError,
)
    ensures
        failure(picked_one(at, Err(error))) matches Some(f) && f.contexts == match at {
            AfterPick::AssignOne { .. } => seq!["running assign-workspace chained picker"@],
            AfterPick::FollowActivity { .. } => seq!["running assign-workspace follow picker"@],
            AfterPick::FollowWorkspace { .. } => seq!["running move-workspace follow picker"@],
            _ => Seq::empty(),
        },
        failure(picked_many(many, Err(error))) matches Some(f) && f.contexts == seq![
            "running assign-workspace picker"@,
        ],
        failure(named(name, Err(error))) matches Some(f) && f.contexts == Seq::<Seq<char>>::empty(),
{
    let none = Seq::<Seq<char>>::empty();
    assert(failure(picked_one(at, Err(error)))->0.contexts =~= match at {
        AfterPick::AssignOne { .. } => seq!["running assign-workspace chained picker"@],
        AfterPick::FollowActivity { .. } => seq!["running assign-workspace follow picker"@],
        AfterPick::FollowWorkspace { .. } => seq!["running move-workspace follow picker"@],
        _ => none,
    });
    assert(failure(picked_many(many, Err(error)))->0.contexts =~= seq![
        "running assign-workspace picker"@,
    ]);
    assert(failure(named(name, Err(error)))->0.contexts =~= none);
}

/// Where the compositor cannot be reached or its reply cannot be read, the
/// subcommand ends with that failure and without a further request, whatever was
/// asked for.
pub proof fn law_failed_round_trip_ends_the_subcommand(
    at: AfterReply,
    io: IoFailure,
    message: String,
    shown: Seq<char>,
)
    ensures
        failure(replied(at, Err(IpcError::Transport(io)), shown)) matches Some(f) && f.cause
            == CauseView::Typed(IpcError::Transport(io)@.as_cli_error()) && f.code() == 69,
        failure(replied(at, Err(IpcError::Decode(message)), shown)) matches Some(f) && f.cause
            == CauseView::Typed(IpcError::Decode(message)@.as_cli_error()) && f.code() == 65,
{
}

/// A refusal of the compositor ends the subcommand with a failure and without a
/// further request, whatever was asked for.
pub proof fn law_refusal_ends_the_subcommand(at: AfterReply, message: String, shown: Seq<char>)
    ensures
        failure(replied(at, Err(IpcError::Server(message)), shown)) matches Some(f) && f.code() != 0,
{
}

/// A compositor that cannot be reached and a reply that cannot be read are told
/// apart, each with what was said of it, whatever was asked for.
pub proof fn law_failed_round_trips_are_told_apart(
    at: AfterReply,
    io: IoFailure,
    problem: String,
    shown: Seq<char>,
)
    ensures
        fails_with(
            replied(at, Err(IpcError::Transport(io)), shown),
            CliErrorView::SocketUnavailable(io@),
        ),
        fails_with(
            replied(at, Err(IpcError::Decode(problem)), shown),
            CliErrorView::MalformedResponse(MalformedResponseSourceView::Decode(problem@)),
        ),
{
}

/// What was printed ends the subcommand with success. A reader of the list that
/// went away is the one failure that is quiet; any other failure to print stays
/// what it is.
pub proof fn law_failure_to_print(f: Failure, at: AfterPrint)
    ensures
        succeeded(printed(at, Ok(()))),
        failure(printed(at, Err(f))) matches Some(g) && (if at is List && (
        f@.cause matches CauseView::Io(io) && io.kind == IoKind::BrokenPipe) {
            g.cause == CauseView::Typed(CliErrorView::OutputPipeClosed) && g.code() == 0
        } else {
            g == f@
        }),
{
}

/// A refusal of the compositor is quoted as it is, whatever was asked for. Where
/// the request named an activity, one message means that there is no such activity,
/// and only where it reads exactly so; where it created one, two messages have a
/// meaning of their own.
pub proof fn law_refusals_are_quoted(at: AfterReply, message: String, shown: Seq<char>)
    requires
        at is Created ==> message@ != "activity name already exists"@ && message@
            != "activity name must not be empty"@,
    ensures
        fails_with(
            replied(at, Err(IpcError::Server(message)), shown),
            match at {
                AfterReply::Handled { activity_name: Some(name), .. } if message@
                    == "activity not found"@ => CliErrorView::ActivityNotFound(name@),
                _ => CliErrorView::MalformedResponse(MalformedResponseSourceView::Server(message@)),
            },
        ),
{
}

/// The operation during which the reply to a request is awaited.
pub open spec fn operation_of(at: AfterReply) -> Seq<char> {
    match at {
        AfterReply::Handled { context, .. } => context@,
        AfterReply::Created { context, .. } => context@,
        AfterReply::Reloaded { .. } => "reloading niri config"@,
        AfterReply::MoveWindowDone { .. } => "moving window to workspace"@,
        AfterReply::MoveWindowNewActivity { .. } => "requesting activities after create"@,
        AfterReply::MoveWorkspaceCapture { .. } => "requesting workspaces for --follow capture"@,
        AfterReply::ListWindows { .. } => "requesting windows"@,
        AfterReply::AssignWorkspaces { .. }
        | AfterReply::MoveWindowWorkspaces { .. }
        | AfterReply::MoveWindowStage2 { .. }
        | AfterReply::ListWorkspaces { .. } => "requesting workspaces"@,
        _ => "requesting activities"@,
    }
}

/// A failed round trip is told with the operation that it was part of, and no
/// other.
pub proof fn law_failed_round_trip_names_its_operation(
    at: AfterReply,
    error: IpcError,
    shown: Seq<char>,
)
    ensures
        failure(replied(at, Err(error), shown)) matches Some(f) && f.contexts == seq![
            operation_of(at),
        ],
{
    let f = failure(replied(at, Err(error), shown))->0;
    assert(f.contexts =~= seq![operation_of(at)]);
}

/// Whether a response is one to the request that was made.
pub open spec fn is_response_to(at: AfterReply, response: Response) -> bool {
    match at {
        AfterReply::Handled { .. } | AfterReply::Created { .. } | AfterReply::Reloaded { .. } => {
            response is Handled
        },
        AfterReply::MoveWindowDone { .. } => response is Handled || response is NoOp,
        AfterReply::SwitchActivities { .. }
        | AfterReply::RenameActivities { .. }
        | AfterReply::MoveWorkspaceActivities { .. }
        | AfterReply::AssignActivities { .. }
        | AfterReply::MoveWindowActivities { .. }
        | AfterReply::MoveWindowPickerActivities { .. }
        | AfterReply::MoveWindowHereActivities { .. }
        | AfterReply::MoveWindowNewActivity { .. }
        | AfterReply::ListActivities { .. } => response is Activities,
        AfterReply::MoveWorkspaceCapture { .. }
        | AfterReply::AssignWorkspaces { .. }
        | AfterReply::MoveWindowWorkspaces { .. }
        | AfterReply::MoveWindowStage2 { .. }
        | AfterReply::ListWorkspaces { .. } => response is Workspaces,
        AfterReply::ListWindows { .. } => response is Windows,
    }
}

/// What the response to a request is called.
pub open spec fn wanted(at: AfterReply) -> Seq<char> {
    match at {
        AfterReply::Handled { .. } | AfterReply::Created { .. } | AfterReply::Reloaded { .. } => {
            "Response::Handled"@
        },
        AfterReply::MoveWindowDone { .. } => "Response::Handled | Response::NoOp"@,
        AfterReply::MoveWorkspaceCapture { .. }
        | AfterReply::AssignWorkspaces { .. }
        | AfterReply::MoveWindowWorkspaces { .. }
        | AfterReply::MoveWindowStage2 { .. }
        | AfterReply::ListWorkspaces { .. } => "Response::Workspaces"@,
        AfterReply::ListWindows { .. } => "Response::Windows"@,
        _ => "Response::Activities"@,
    }
}

/// A response to another request ends the subcommand with a failure that says what
/// was wanted and what came, and without a further request, whatever was asked for.
/// The response to a reload is shown in full.
pub proof fn law_unexpected_response_ends_the_subcommand(
    at: AfterReply,
    response: Response,
    shown: Seq<char>,
)
    requires
        !is_response_to(at, response),
    ensures
        fails_with(
            replied(at, Ok(response), shown),
            CliErrorView::MalformedResponse(
                MalformedResponseSourceView::WrongVariant {
                    expected: wanted(at),
                    got: if at is Reloaded {
                        shown
                    } else {
                        variant(response)
                    },
                },
            ),
        ),
        failure(replied(at, Ok(response), shown)) matches Some(f) && f.code() == 65 && f.contexts
            == seq![operation_of(at)],
{
    let f = failure(replied(at, Ok(response), shown))->0;
    assert(f.contexts =~= seq![operation_of(at)]);
}

/// The operations around a step change neither what is asked for nor what is
/// shown, and of an end only what is said about it: not whether it is a success,
/// nor the exit code.
pub proof fn law_scope_only_adds_context(p: ProgressView, contexts: Seq<Seq<char>>)
    ensures
        p.within_all(contexts).notes == p.notes,
        succeeded(p.within_all(contexts)) == succeeded(p),
        match failure(p) {
            Some(f) => failure(p.within_all(contexts)) matches Some(g) && g.cause == f.cause
                && g.contexts == f.contexts + contexts && g.code() == f.code(),
            None => p.within_all(contexts).step == p.step,
        },
        failure(p) is None && !succeeded(p) ==> p.within_all(contexts).scope == p.scope + contexts,
    decreases contexts.len(),
{
    if contexts.len() > 0 {
        let inner = contexts.drop_last();
        law_scope_only_adds_context(p, inner);
        assert(inner.push(contexts.last()) =~= contexts);
        match failure(p) {
            Some(f) => {
                assert((f.contexts + inner).push(contexts.last()) =~= f.contexts + contexts);
            },
            None => {
                assert((p.scope + inner).push(contexts.last()) =~= p.scope + contexts);
            },
        }
    } else {
        match failure(p) {
            Some(f) => {
                assert(f.contexts + contexts =~= f.contexts);
            },
            None => {
                assert(p.scope + contexts =~= p.scope);
            },
        }
    }
}

// ---- What is sent ----------------------------------------------------------

/// The requests of a subcommand that come one after the other, as long as the
/// compositor confirms each of them; at most `n`.
pub open spec fn requests(p: ProgressView, n: nat) -> Seq<RequestView>
    decreases n,
{
    match p.step {
        StepView::Send { request, then } => if n > 0 {
            seq![request] + requests(
                replied(then, Ok(Response::Handled), Seq::empty()),
                (n - 1) as nat,
            )
        } else {
            Seq::empty()
        },
        _ => Seq::empty(),
    }
}

/// What is sent last, where the overview is wanted.
pub open spec fn overview_request(overview: bool) -> Seq<RequestView> {
    if overview {
        seq![open_overview()]
    } else {
        Seq::empty()
    }
}

/// Following a workspace focuses it, and then opens the overview where that is
/// wanted.
pub proof fn law_following_a_workspace(workspace_id: u64, overview: bool, n: nat)
    requires
        n >= 4,
    ensures
        requests(following_workspace(workspace_id, overview), n) == seq![
            focus_workspace(workspace_id),
        ] + overview_request(overview),
{
    reveal_with_fuel(requests, 5);
}

/// Following a window focuses its workspace first and the window then, and opens
/// the overview last where that is wanted.
pub proof fn law_following_a_window(workspace_id: u64, window_id: u64, overview: bool, n: nat)
    requires
        n >= 4,
    ensures
        requests(following_window(workspace_id, window_id, overview), n) == seq![
            focus_workspace(workspace_id),
            focus_window(window_id),
        ] + overview_request(overview),
{
    reveal_with_fuel(requests, 5);
}

/// Following a workspace into an activity switches to the activity first and
/// focuses the workspace then, and opens the overview last where that is wanted.
pub proof fn law_following_into_an_activity(
    activity_name: Seq<char>,
    workspace_id: u64,
    overview: bool,
    n: nat,
)
    requires
        n >= 4,
    ensures
        requests(following_activity(activity_name, workspace_id, overview), n) == seq![
            switch_activity(activity_name),
            focus_workspace(workspace_id),
        ] + overview_request(overview),
{
    reveal_with_fuel(requests, 5);
}

/// What is followed is pointed to by its id, and an activity by its name: a
/// workspace is focused wherever it is, a window as it is, and the overview opened as
/// it stands.
pub proof fn law_requests_that_follow(id: u64, name: Seq<char>)
    ensures
        focus_workspace(id) == RequestView::Action(
            ActionView::FocusWorkspace {
                reference: WorkspaceReferenceView::Id(id),
                activity: None,
            },
        ),
        focus_window(id) == RequestView::Action(ActionView::FocusWindow { id }),
        open_overview() == RequestView::Action(ActionView::OpenOverview),
        switch_activity(name) == RequestView::Action(
            ActionView::SwitchActivity { activity: ActivityReferenceView::Name(name) },
        ),
{
}

/// Switching, going back, creating, removing and renaming by name is one request
/// each, and its confirmation ends the subcommand with success.
pub proof fn law_plain_subcommands_are_one_request(cmd: Cmd, n: nat)
    requires
        n >= 2,
        match cmd {
            Cmd::Switch { name, .. } => name is Some,
            Cmd::SwitchPrevious { .. } => true,
            Cmd::Create { .. } => true,
            Cmd::Remove { .. } => true,
            Cmd::Rename { activity, .. } => activity is Some,
            _ => false,
        },
    ensures
        started(cmd).step matches StepView::Send { request, then } && requests(started(cmd), n)
            == seq![request] && succeeded(replied(then, Ok(Response::Handled), Seq::empty())),
{
    reveal_with_fuel(requests, 3);
}

// ---- How subcommands begin -------------------------------------------------

/// Whether a reply is awaited as part of the given operation: that is what a failed
/// round trip is told with.
pub open spec fn is_part_of(then: AfterReply, operation: Seq<char>) -> bool {
    forall|shown: Seq<char>, error: IpcError|
        #![trigger replied(then, Err(error), shown)]
        failure(replied(then, Err(error), shown)) matches Some(f) && f.contexts == seq![operation]
}

/// Whether every refusal of the compositor is quoted as it is.
pub open spec fn quotes_refusals(then: AfterReply) -> bool {
    forall|shown: Seq<char>, message: String|
        #![trigger replied(then, Err(IpcError::Server(message)), shown)]
        fails_with(
            replied(then, Err(IpcError::Server(message)), shown),
            CliErrorView::MalformedResponse(MalformedResponseSourceView::Server(message@)),
        )
}

/// A request that names no activity to report has every refusal quoted, and a
/// failure is told with the operation of the request.
pub proof fn lemma_handled(then: AfterReply)
    requires
        then is Handled,
    ensures
        is_part_of(then, operation_of(then)),
        then->Handled_activity_name is None ==> quotes_refusals(then),
{
    assert forall|shown: Seq<char>, error: IpcError|
        #![trigger replied(then, Err(error), shown)]
        {
            failure(replied(then, Err(error), shown)) matches Some(f) && f.contexts == seq![
                operation_of(then),
            ]
        } by {
        law_failed_round_trip_names_its_operation(then, error, shown);
    }
}

/// Whether one request is now made, as part of the given operation, and its
/// confirmation ends the subcommand.
pub open spec fn is_last_request(
    p: ProgressView,
    request: RequestView,
    operation: Seq<char>,
) -> bool {
    p.step matches StepView::Send { request: sent, then } && sent == request && is_part_of(
        then,
        operation,
    ) && forall|shown: Seq<char>| #[trigger]
        succeeded(replied(then, Ok(Response::Handled), shown))
}

/// Whether a request that the compositor refuses because it does not know the
/// activity is reported as one for the missing activity `name`.
pub open spec fn reports_missing(p: ProgressView, name: Seq<char>) -> bool {
    p.step matches StepView::Send { then, .. } && forall|shown: Seq<char>, message: String|
        #![trigger replied(then, Err(IpcError::Server(message)), shown)]
        message@ == "activity not found"@ ==> fails_with(
            replied(then, Err(IpcError::Server(message)), shown),
            CliErrorView::ActivityNotFound(name),
        )
}

/// Switching, going back, removing and renaming by name ask for exactly what the
/// command line says, and report an activity that the compositor does not know by
/// the name that was given.
pub proof fn law_commands_ask_for_what_they_name(
    name: String,
    other: String,
    depth: u32,
    order: Order,
)
    ensures
        ({
            let switch = started(Cmd::Switch { name: Some(name), order });
            let back = started(Cmd::SwitchPrevious { depth });
            let remove = started(Cmd::Remove { name });
            let rename = started(Cmd::Rename { name, activity: Some(other) });
            &&& is_last_request(
                switch,
                RequestView::Action(
                    ActionView::SwitchActivity { activity: ActivityReferenceView::Name(name@) },
                ),
                "switching activity"@,
            )
            &&& reports_missing(switch, name@)
            &&& is_last_request(
                back,
                RequestView::Action(ActionView::SwitchActivityPrevious { depth }),
                "switching to previous activity"@,
            )
            &&& back.step matches StepView::Send { then, .. } && quotes_refusals(then)
            &&& is_last_request(
                remove,
                RequestView::Action(
                    ActionView::RemoveActivity { activity: ActivityReferenceView::Name(name@) },
                ),
                "removing activity"@,
            )
            &&& reports_missing(remove, name@)
            &&& is_last_request(
                rename,
                RequestView::Action(
                    ActionView::RenameActivity {
                        activity: ActivityReferenceView::Name(other@),
                        name: name@,
                    },
                ),
                "renaming activity"@,
            )
            &&& reports_missing(rename, other@)
        }),
{
    lemma_handled(started(Cmd::Switch { name: Some(name), order }).step->Send_then);
    lemma_handled(started(Cmd::SwitchPrevious { depth }).step->Send_then);
    lemma_handled(started(Cmd::Remove { name }).step->Send_then);
    lemma_handled(started(Cmd::Rename { name, activity: Some(other) }).step->Send_then);
}

/// Creating an activity asks for one with the given name. Two refusals have a
/// meaning of their own, and only where they read exactly so: that the name is
/// taken, and that it is empty. Any other refusal is quoted.
pub proof fn law_creating_an_activity(name: String, message: String, shown: Seq<char>)
    ensures
        ({
            let p = started(Cmd::Create { name });
            &&& is_last_request(
                p,
                RequestView::Action(ActionView::CreateActivity { name: name@ }),
                "creating activity"@,
            )
            &&& p.step matches StepView::Send { then, .. } && {
                let q = replied(then, Err(IpcError::Server(message)), shown);
                if message@ == "activity name already exists"@ {
                    fails_with(
                        q,
                        CliErrorView::CantCreate("activity \""@ + name@ + "\" already exists"@),
                    )
                } else if message@ == "activity name must not be empty"@ {
                    failure(q) matches Some(f) && f.cause matches CauseView::Typed(
                        CliErrorView::Usage(_),
                    )
                } else {
                    fails_with(
                        q,
                        CliErrorView::MalformedResponse(
                            MalformedResponseSourceView::Server(message@),
                        ),
                    )
                }
            }
        }),
{
    reveal_strlit("activity name already exists");
    reveal_strlit("activity name must not be empty");
    assert("activity name already exists"@.len() != "activity name must not be empty"@.len());
    let then = started(Cmd::Create { name }).step->Send_then;
    assert forall|shown: Seq<char>, error: IpcError|
        #![trigger replied(then, Err(error), shown)]
        {
            failure(replied(then, Err(error), shown)) matches Some(f) && f.contexts == seq![
                "creating activity"@,
            ]
        } by {
        law_failed_round_trip_names_its_operation(then, error, shown);
    }
}

/// A subcommand once all the menu programs that it asks for are there.
pub open spec fn begun(cmd: Cmd) -> ProgressView {
    match started(cmd).step {
        StepView::Probe { then, .. } => match after_probe(then, Ok(())).step {
            StepView::Probe { then: next, .. } => after_probe(next, Ok(())),
            _ => after_probe(then, Ok(())),
        },
        _ => started(cmd),
    }
}

/// What the flags for following and for the overview mean together.
pub open spec fn mode_of(follow: bool, overview: bool) -> FollowMode {
    match (follow, overview) {
        (_, true) => FollowMode::FollowAndOverview,
        (true, false) => FollowMode::Follow,
        (false, false) => FollowMode::Off,
    }
}

/// Whether the activities are now asked for, for the given purpose, and within the
/// given operation if there is one.
pub open spec fn asks_for_activities(
    p: ProgressView,
    purpose: AfterReply,
    operation: Option<Seq<char>>,
) -> bool {
    &&& p.step == (StepView::Send { request: RequestView::Activities, then: purpose })
    &&& p.notes.len() == 0
    &&& match operation {
        Some(name) => p.scope == seq![name],
        None => p.scope.len() == 0,
    }
}

/// A subcommand that needs the activities asks for them first, and keeps all that
/// the command line says for later. Moving a workspace to a named activity is the
/// same as choosing that activity from the menu.
pub proof fn law_subcommands_keep_their_arguments(
    name: String,
    follow: bool,
    overview: bool,
    id: Option<u64>,
    order: Order,
    json: bool,
    only: Option<String>,
)
    ensures
        ({
            let mode = mode_of(follow, overview);
            &&& asks_for_activities(
                begun(Cmd::Switch { name: None, order }),
                AfterReply::SwitchActivities { order },
                Some("running switch picker"@),
            )
            &&& asks_for_activities(
                begun(Cmd::Rename { name, activity: None }),
                AfterReply::RenameActivities { new_name: name },
                Some("running rename picker"@),
            )
            &&& asks_for_activities(
                begun(Cmd::MoveWindow { name: Some(name), follow, overview, window: id }),
                AfterReply::MoveWindowActivities { activity_name: name, follow: mode, window: id },
                None,
            )
            &&& asks_for_activities(
                begun(Cmd::MoveWindow { name: None, follow, overview, window: id }),
                AfterReply::MoveWindowPickerActivities { follow: mode, window: id },
                Some("running move-window picker"@),
            )
            &&& asks_for_activities(
                begun(Cmd::MoveWindowHere { follow, overview, window: id }),
                AfterReply::MoveWindowHereActivities { follow: mode, window: id },
                Some("running move-window-here picker"@),
            )
            &&& asks_for_activities(
                begun(Cmd::MoveWorkspace { name: None, follow, overview, workspace: id }),
                AfterReply::MoveWorkspaceActivities { follow: mode, workspace: id },
                Some("running move-workspace picker"@),
            )
            &&& begun(Cmd::MoveWorkspace { name: Some(name), follow, overview, workspace: id })
                == picked_one(
                AfterPick::MoveWorkspace { follow: mode, workspace: id },
                Ok(PickerOutcome::Selected(name)),
            )
            &&& asks_for_activities(
                begun(Cmd::AssignWorkspace { follow, overview, workspace: id }),
                AfterReply::AssignActivities { follow: mode, workspace: id },
                Some("running assign-workspace picker"@),
            )
            &&& asks_for_activities(
                begun(Cmd::List { json, format: None, activity: only, order }),
                AfterReply::ListActivities {
                    opts: ListOpts { json, format: None, activity: only, order },
                },
                None,
            )
        }),
{
    assert(begun(Cmd::Switch { name: None, order }).scope =~= seq!["running switch picker"@]);
    assert(begun(Cmd::Rename { name, activity: None }).scope =~= seq!["running rename picker"@]);
    assert(begun(Cmd::MoveWindow { name: None, follow, overview, window: id }).scope =~= seq![
        "running move-window picker"@,
    ]);
    assert(begun(Cmd::MoveWindowHere { follow, overview, window: id }).scope =~= seq![
        "running move-window-here picker"@,
    ]);
    assert(begun(Cmd::MoveWorkspace { name: None, follow, overview, workspace: id }).scope =~= seq![
        "running move-workspace picker"@,
    ]);
    assert(begun(Cmd::AssignWorkspace { follow, overview, workspace: id }).scope =~= seq![
        "running assign-workspace picker"@,
    ]);
}

/// Saving reads the config file for the given name, and completing writes the
/// script of the given shell.
pub proof fn law_other_subcommands_keep_their_arguments(name: String, shell: Shell)
    ensures
        started(Cmd::Save { name }).step matches StepView::ReadConfig {
            then: AfterConfigRead::Save { name: kept },
        } ==> kept == name,
        started(Cmd::Completions { shell }).step matches StepView::Print {
            output: OutputView::Completions { shell: written, dynamic },
            then: AfterPrint::Completions,
        } && written == shell && (dynamic.len() > 0 <==> shell == Shell::Fish),
{
    reveal_strlit("\n");
    assert("\n"@.len() == 1);
}

/// Assigning goes on to the workspaces with the activities that were listed, and
/// with all that the command line says. Without any activity nothing more is asked
/// for, and a line says so.
pub proof fn law_assigning_needs_activities(
    follow: FollowMode,
    workspace: Option<u64>,
    activities: Vec<Activity>,
    shown: Seq<char>,
)
    ensures
        ({
            let p = replied(
                AfterReply::AssignActivities { follow, workspace },
                Ok(Response::Activities(activities)),
                shown,
            );
            if activities@.len() == 0 {
                succeeded(p) && p.notes == seq![NOTHING_TO_ASSIGN@]
            } else {
                p.step == (StepView::Send {
                    request: RequestView::Workspaces,
                    then: AfterReply::AssignWorkspaces { activities, follow, workspace },
                })
            }
        }),
{
}

/// Where `rofi` is needed, which is for assigning alone, it is looked for first;
/// every other menu is `fuzzel`'s, and so is the question whether to follow.
pub proof fn law_menu_programs(cmd: Cmd)
    ensures
        match started(cmd).step {
            StepView::Probe { tool, then } => match cmd {
                Cmd::AssignWorkspace { follow, overview, .. } => tool == Tool::Rofi && (follow
                    || overview <==> after_probe(then, Ok(())).step is Probe) && (after_probe(
                    then,
                    Ok(()),
                ).step matches StepView::Probe { tool: next, .. } ==> next == Tool::Fuzzel),
                _ => tool == Tool::Fuzzel && !(after_probe(then, Ok(())).step is Probe),
            },
            _ => true,
        },
{
}

/// A menu program that is missing is told with the subcommand that needs it, and
/// with whether it is needed for choosing or for following.
pub proof fn law_missing_menu_program_names_the_subcommand(
    name: String,
    follow: bool,
    overview: bool,
    id: Option<u64>,
    order: Order,
    error: CliError,
)
    ensures
        ({
            &&& misses(
                started(Cmd::Switch { name: None, order }),
                error,
                "verifying switch picker availability"@,
            )
            &&& misses(
                started(Cmd::Rename { name, activity: None }),
                error,
                "verifying rename picker availability"@,
            )
            &&& misses(
                started(Cmd::MoveWindow { name: None, follow, overview, window: id }),
                error,
                "verifying move-window picker availability"@,
            )
            &&& misses(
                started(Cmd::MoveWindowHere { follow, overview, window: id }),
                error,
                "verifying move-window-here picker availability"@,
            )
            &&& misses(
                started(Cmd::MoveWorkspace { name: None, follow, overview, workspace: id }),
                error,
                "verifying move-workspace picker availability"@,
            )
            &&& misses(
                started(Cmd::AssignWorkspace { follow, overview, workspace: id }),
                error,
                "verifying assign-workspace picker availability"@,
            )
            &&& follow || overview ==> {
                &&& misses(
                    started(Cmd::MoveWindow { name: Some(name), follow, overview, window: id }),
                    error,
                    "verifying move-window follow picker availability"@,
                )
                &&& misses(
                    started(
                        Cmd::MoveWorkspace { name: Some(name), follow, overview, workspace: id },
                    ),
                    error,
                    "verifying move-workspace follow picker availability"@,
                )
                &&& started(
                    Cmd::AssignWorkspace { follow, overview, workspace: id },
                ).step matches StepView::Probe { then, .. } && misses(
                    after_probe(then, Ok(())),
                    error,
                    "verifying assign-workspace follow picker availability"@,
                )
            }
        }),
{
}

/// Whether a menu program is now looked for, and its absence ends the subcommand
/// with the given failure during the given operation.
pub open spec fn misses(p: ProgressView, error: CliError, operation: Seq<char>) -> bool {
    p.step matches StepView::Probe { then, .. } && after_probe(then, Err(error)) == failed(
        typed_in(error@, operation),
    )
}

} // verus!
