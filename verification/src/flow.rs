//! How a subcommand runs: as a chain of steps, each of which asks the outside
//! for one thing and says what to do with the answer.
//!
//! A subcommand never talks to the compositor, a menu program or the file
//! system itself. It hands out a [`Progress`]: the lines to show on stderr and
//! the next [`Step`]. Whoever runs the subcommand carries the step out and
//! hands the answer to the matching `resume_*` function, until the step is
//! [`Step::Finish`].

use crate::cli::{FollowMode, Order};
use crate::error::{CliError, Failure, FailureView, typed, typed_in};
use crate::ipc::{Activity, Request, RequestView, Workspace};
use crate::list::{JsonEnvelope, ListOpts};
use crate::text::{slices, texts};
use vstd::prelude::*;
use vstd::string::*;

verus! {

/// The menu programs.
#[derive(Debug, Clone, Copy, PartialEq, Eq, Structural)]
pub enum Tool {
    /// Chooses one row.
    Fuzzel,
    /// Chooses several rows.
    Rofi,
}

/// The names that a workspace was assigned to.
#[derive(Debug)]
pub enum Saved {
    One(String),
    Many(Vec<String>),
}

/// The activity that a window goes to, and how it goes there.
#[derive(Debug)]
pub struct Destination {
    pub activity_id: u64,
    pub activity_name: String,
    /// Whether the menu of workspaces offers a new one.
    pub with_new: bool,
    pub follow: FollowMode,
    /// The window to move, when it is not the focused one.
    pub window: Option<u64>,
}

/// What to do once the compositor has confirmed an action.
#[derive(Debug)]
pub enum AfterHandled {
    Done,
    /// Focus a workspace, then perhaps open the overview.
    FocusWorkspace { workspace_id: u64, overview: bool },
    /// Focus a window, then perhaps open the overview.
    FocusWindow { window_id: u64, overview: bool },
    OpenOverview,
    /// Ask whether to follow a workspace that went to another activity.
    AskFollowWorkspace { activity_name: String, workspace_id: u64, overview: bool },
    /// Ask which of the assigned activities to follow a workspace into.
    AskFollowActivity { saved: Saved, workspace_id: u64, overview: bool },
}

/// What to do once an activity was created.
#[derive(Debug)]
pub enum AfterCreated {
    Done,
    /// Move a window into the new activity.
    MoveWindow { follow: FollowMode, window: Option<u64> },
}

/// What a reply of the compositor is awaited for.
#[derive(Debug)]
#[allow(inconsistent_fields)]
pub enum AfterReply {
    /// An action that has nothing to report. `activity_name` is the name to
    /// report where the compositor does not know it.
    Handled { activity_name: Option<String>, context: &'static str, next: AfterHandled },
    /// The creation of the activity `name`.
    Created { name: String, context: &'static str, next: AfterCreated },
    /// The activities, to switch to one of them.
    SwitchActivities { order: Order },
    /// The activities, to rename one of them.
    RenameActivities { new_name: String },
    /// The activities, to move a workspace into one of them.
    MoveWorkspaceActivities { follow: FollowMode, workspace: Option<u64> },
    /// The workspaces, to learn which one is about to be moved.
    MoveWorkspaceCapture { activity_name: String, follow: FollowMode },
    /// The activities, to assign a workspace to some of them.
    AssignActivities { follow: FollowMode, workspace: Option<u64> },
    /// The workspaces, to assign one of them.
    AssignWorkspaces {
        activities: Vec<Activity>,
        follow: FollowMode,
        workspace: Option<u64>,
    },
    /// The activities, to move a window into the one with the given name.
    MoveWindowActivities { activity_name: String, follow: FollowMode, window: Option<u64> },
    /// The workspaces, to move a window into an empty one of an activity.
    MoveWindowWorkspaces {
        activity_id: u64,
        activity_name: String,
        follow: FollowMode,
        window: Option<u64>,
    },
    /// The activities, to choose where a window goes.
    MoveWindowPickerActivities { follow: FollowMode, window: Option<u64> },
    /// The activities, to move a window within the active one.
    MoveWindowHereActivities { follow: FollowMode, window: Option<u64> },
    /// The activities, among them one that was just created.
    MoveWindowNewActivity { activity_name: String, follow: FollowMode, window: Option<u64> },
    /// The workspaces, to choose one of the destination.
    MoveWindowStage2 { activities: Vec<Activity>, to: Destination },
    /// The outcome of moving a window.
    MoveWindowDone { workspace_id: u64, activity_name: String, workspaces: Vec<Workspace> },
    /// The activities, to list them.
    ListActivities { opts: ListOpts },
    /// The workspaces, to list the activities.
    ListWorkspaces { opts: ListOpts, activities: Vec<Activity> },
    /// The windows, to list the activities.
    ListWindows { opts: ListOpts, activities: Vec<Activity>, workspaces: Vec<Workspace> },
    /// The outcome of reloading the config file that was written to `path`.
    Reloaded { path: String },
}

/// What the choice of one row is awaited for.
#[derive(Debug)]
pub enum AfterPick {
    /// The activity to switch to.
    Switch { activities: Vec<Activity>, order: Order },
    /// The activity to rename.
    Rename { new_name: String },
    /// The activity to move a workspace to.
    MoveWorkspace { follow: FollowMode, workspace: Option<u64> },
    /// Whether to follow a moved workspace.
    FollowWorkspace { activity_name: String, workspace_id: u64, overview: bool },
    /// The one activity to assign a workspace to.
    AssignOne { workspace_id: u64, follow: FollowMode },
    /// Which of the assigned activities to follow a workspace into.
    FollowActivity { saved: Saved, workspace_id: u64, overview: bool },
    /// The activity to move a window to.
    MoveWindowStage1 { activities: Vec<Activity>, follow: FollowMode, window: Option<u64> },
    /// The workspace to move a window to.
    MoveWindowStage2 { activities: Vec<Activity>, workspaces: Vec<Workspace>, to: Destination },
}

/// What the choice of several rows is awaited for.
#[derive(Debug)]
pub enum AfterPickMany {
    /// The activities to assign a workspace to.
    Assign { activities: Vec<Activity>, workspace_id: u64, follow: FollowMode },
}

/// What a name typed by the user is awaited for.
#[derive(Debug)]
pub enum AfterName {
    /// The activity to create and to move a window to.
    MoveWindowNewActivity { follow: FollowMode, window: Option<u64> },
}

/// What begins once a menu program is known to be there.
#[derive(Debug)]
pub enum AfterProbe {
    Switch { order: Order },
    MoveWindow { activity_name: String, follow: FollowMode, window: Option<u64> },
    MoveWindowPicker { follow: FollowMode, window: Option<u64> },
    MoveWindowHere { follow: FollowMode, window: Option<u64> },
    MoveWorkspace { activity_name: String, follow: FollowMode, workspace: Option<u64> },
    MoveWorkspacePicker { follow: FollowMode, workspace: Option<u64> },
    AssignWorkspace { follow: FollowMode, workspace: Option<u64> },
    AssignWorkspaceFollow { follow: FollowMode, workspace: Option<u64> },
    Rename { new_name: String },
}

/// What the config file is read for.
#[derive(Debug)]
pub enum AfterConfigRead {
    /// Declaring the activity `name` in it.
    Save { name: String },
}

/// What the config file was written for.
#[derive(Debug)]
pub enum AfterConfigWritten {
    /// Having the compositor load it.
    Save { path: String },
}

/// What was printed.
#[derive(Debug, Clone, Copy, PartialEq, Eq, Structural)]
pub enum AfterPrint {
    List,
    Completions,
}

/// The shells that completions can be written for.
#[derive(Debug, Clone, Copy, PartialEq, Eq, Structural)]
pub enum Shell {
    Bash,
    Elvish,
    Fish,
    PowerShell,
    Zsh,
}

/// What goes to stdout.
#[derive(Debug)]
pub enum Output {
    /// A text, as it is.
    Text(String),
    /// A document, to be encoded as indented JSON and followed by a line feed.
    Json(JsonEnvelope),
    /// The completion script of a shell, followed by `dynamic`.
    Completions { shell: Shell, dynamic: String },
}

/// What an [`Output`] holds.
pub enum OutputView {
    Text(Seq<char>),
    Json(crate::list::JsonEnvelopeView),
    Completions { shell: Shell, dynamic: Seq<char> },
}

impl View for Output {
    type V = OutputView;

    open spec fn view(&self) -> OutputView {
        match self {
            Output::Text(t) => OutputView::Text(t@),
            Output::Json(e) => OutputView::Json(e@),
            Output::Completions { shell, dynamic } => {
                OutputView::Completions { shell: *shell, dynamic: dynamic@ }
            },
        }
    }
}

/// What a subcommand asks for next.
#[derive(Debug)]
#[allow(inconsistent_fields)]
pub enum Step {
    /// One round trip over the socket.
    Send { request: Request, then: AfterReply },
    /// Whether a menu program can be run.
    Probe { tool: Tool, then: AfterProbe },
    /// A menu from which the user chooses one row.
    Pick { prompt: &'static str, items: Vec<String>, then: AfterPick },
    /// A menu from which the user chooses several names; those in `current`
    /// are marked.
    PickMany { names: Vec<String>, current: Vec<String>, then: AfterPickMany },
    /// A name, typed by the user.
    PromptName { prompt: &'static str, then: AfterName },
    /// The text of the config file and where it is.
    ReadConfig { then: AfterConfigRead },
    /// Replacing the config file.
    WriteConfig { content: String, then: AfterConfigWritten },
    /// Writing to stdout.
    Print { output: Output, then: AfterPrint },
    /// Nothing: the subcommand is over.
    Finish { outcome: Result<(), Failure> },
}

/// What a [`Step`] holds.
#[allow(inconsistent_fields)]
pub enum StepView {
    Send { request: RequestView, then: AfterReply },
    Probe { tool: Tool, then: AfterProbe },
    Pick { prompt: Seq<char>, items: Seq<Seq<char>>, then: AfterPick },
    PickMany { names: Seq<Seq<char>>, current: Seq<Seq<char>>, then: AfterPickMany },
    PromptName { prompt: Seq<char>, then: AfterName },
    ReadConfig { then: AfterConfigRead },
    WriteConfig { content: Seq<char>, then: AfterConfigWritten },
    Print { output: OutputView, then: AfterPrint },
    Finish { outcome: Result<(), FailureView> },
}

/// What an outcome holds.
pub open spec fn outcome_of(outcome: Result<(), Failure>) -> Result<(), FailureView> {
    match outcome {
        Ok(_) => Ok(()),
        Err(f) => Err(f@),
    }
}

impl View for Step {
    type V = StepView;

    open spec fn view(&self) -> StepView {
        match self {
            Step::Send { request, then } => StepView::Send { request: request@, then: *then },
            Step::Probe { tool, then } => StepView::Probe { tool: *tool, then: *then },
            Step::Pick { prompt, items, then } => {
                StepView::Pick { prompt: prompt@, items: texts(items@), then: *then }
            },
            Step::PickMany { names, current, then } => {
                StepView::PickMany {
                    names: texts(names@),
                    current: texts(current@),
                    then: *then,
                }
            },
            Step::PromptName { prompt, then } => {
                StepView::PromptName { prompt: prompt@, then: *then }
            },
            Step::ReadConfig { then } => StepView::ReadConfig { then: *then },
            Step::WriteConfig { content, then } => {
                StepView::WriteConfig { content: content@, then: *then }
            },
            Step::Print { output, then } => StepView::Print { output: output@, then: *then },
            Step::Finish { outcome } => StepView::Finish { outcome: outcome_of(*outcome) },
        }
    }
}

/// Where a subcommand is: the lines to show on stderr, then the next step.
/// Should a later step fail, the failure happened within the operations named
/// in `scope`, innermost first.
#[derive(Debug)]
pub struct Progress {
    pub notes: Vec<String>,
    pub scope: Vec<&'static str>,
    pub step: Step,
}

/// What a [`Progress`] holds.
#[verifier::ext_equal]
pub struct ProgressView {
    pub notes: Seq<Seq<char>>,
    pub scope: Seq<Seq<char>>,
    pub step: StepView,
}

impl View for Progress {
    type V = ProgressView;

    open spec fn view(&self) -> ProgressView {
        ProgressView { notes: texts(self.notes@), scope: slices(self.scope@), step: self.step@ }
    }
}

/// A step with nothing to show and no operation around it.
pub open spec fn plain(step: StepView) -> ProgressView {
    ProgressView { notes: Seq::empty(), scope: Seq::empty(), step }
}

/// The end, with success.
pub open spec fn done() -> ProgressView {
    plain(StepView::Finish { outcome: Ok(()) })
}

/// The end, with a failure.
pub open spec fn failed(f: FailureView) -> ProgressView {
    plain(StepView::Finish { outcome: Err(f) })
}

/// A request, and what its reply is awaited for.
pub open spec fn sending(request: RequestView, then: AfterReply) -> ProgressView {
    plain(StepView::Send { request, then })
}

/// A menu, and what the choice is awaited for.
pub open spec fn picking(
    prompt: Seq<char>,
    items: Seq<Seq<char>>,
    then: AfterPick,
) -> ProgressView {
    plain(StepView::Pick { prompt, items, then })
}

impl ProgressView {
    /// The same, seen from one operation further out.
    pub open spec fn within(self, context: Seq<char>) -> ProgressView {
        match self.step {
            StepView::Finish { outcome: Ok(_) } => self,
            StepView::Finish { outcome: Err(f) } => ProgressView {
                notes: self.notes,
                scope: self.scope,
                step: StepView::Finish { outcome: Err(f.within(context)) },
            },
            _ => ProgressView {
                notes: self.notes,
                scope: self.scope.push(context),
                step: self.step,
            },
        }
    }

    /// The same, seen from outside of all the operations, which are given
    /// innermost first.
    pub open spec fn within_all(self, contexts: Seq<Seq<char>>) -> ProgressView
        decreases contexts.len(),
    {
        if contexts.len() == 0 {
            self
        } else {
            self.within_all(contexts.drop_last()).within(contexts.last())
        }
    }

    /// The same, with a line to show before anything else.
    pub open spec fn noting(self, line: Seq<char>) -> ProgressView {
        ProgressView { notes: seq![line] + self.notes, scope: self.scope, step: self.step }
    }

    /// The same, with lines to show before anything else.
    pub open spec fn noting_all(self, lines: Seq<Seq<char>>) -> ProgressView {
        ProgressView { notes: lines + self.notes, scope: self.scope, step: self.step }
    }
}

impl Progress {
    /// A step with nothing to show and no operation around it.
    pub fn at(step: Step) -> (r: Progress)
        ensures
            r@ == plain(step@),
    {
        let r = Progress { notes: Vec::new(), scope: Vec::new(), step };
        proof {
            assert(r@ =~= plain(step@));
        }
        r
    }

    /// The end, with success.
    pub fn done() -> (r: Progress)
        ensures
            r@ == done(),
    {
        Progress::at(Step::Finish { outcome: Ok(()) })
    }

    /// The end, with a typed failure.
    pub fn fail(error: CliError) -> (r: Progress)
        ensures
            r@ == failed(typed(error@)),
    {
        Progress::at(Step::Finish { outcome: Err(Failure::new(error)) })
    }

    /// The end, with a typed failure within an operation.
    pub fn fail_in(error: CliError, context: &'static str) -> (r: Progress)
        ensures
            r@ == failed(typed_in(error@, context@)),
    {
        Progress::at(Step::Finish { outcome: Err(Failure::new(error).context(context)) })
    }

    /// A request, and what its reply is awaited for.
    pub fn send(request: Request, then: AfterReply) -> (r: Progress)
        ensures
            r@ == sending(request@, then),
    {
        Progress::at(Step::Send { request, then })
    }

    /// A menu, and what the choice is awaited for.
    pub fn pick(prompt: &'static str, items: Vec<String>, then: AfterPick) -> (r: Progress)
        ensures
            r@ == picking(prompt@, texts(items@), then),
    {
        Progress::at(Step::Pick { prompt, items, then })
    }

    /// The same, seen from one operation further out.
    pub fn within(self, context: &'static str) -> (r: Progress)
        ensures
            r@ == self@.within(context@),
    {
        match self.step {
            Step::Finish { outcome: Ok(_) } => {
                Progress {
                    notes: self.notes,
                    scope: self.scope,
                    step: Step::Finish { outcome: Ok(()) },
                }
            },
            Step::Finish { outcome: Err(f) } => {
                Progress {
                    notes: self.notes,
                    scope: self.scope,
                    step: Step::Finish { outcome: Err(f.context(context)) },
                }
            },
            step => {
                let mut scope = self.scope;
                let ghost before = scope@;
                scope.push(context);
                proof {
                    assert(slices(before.push(context)) =~= slices(before).push(context@));
                }
                Progress { notes: self.notes, scope, step }
            },
        }
    }

    /// The same, seen from outside of all the operations, which are given
    /// innermost first.
    pub fn within_all(self, contexts: &Vec<&'static str>) -> (r: Progress)
        ensures
            r@ == self@.within_all(slices(contexts@)),
    {
        let ghost all = slices(contexts@);
        let ghost start = self@;
        let mut p = self;
        let mut i: usize = 0;
        while i < contexts.len()
            invariant
                i <= contexts@.len(),
                all == slices(contexts@),
                p@ == start.within_all(all.take(i as int)),
            decreases contexts@.len() - i,
        {
            p = p.within(contexts[i]);
            proof {
                let next = all.take(i + 1);
                assert(next.drop_last() =~= all.take(i as int));
                assert(next.last() == contexts@[i as int]@);
            }
            i = i + 1;
        }
        proof {
            assert(all.take(all.len() as int) =~= all);
        }
        p
    }

    /// The same, with a line to show before anything else.
    pub fn noting(self, line: String) -> (r: Progress)
        ensures
            r@ == self@.noting(line@),
    {
        let mut notes: Vec<String> = Vec::new();
        notes.push(line);
        let mut rest = self.notes;
        let ghost later = rest@;
        notes.append(&mut rest);
        proof {
            assert(texts(notes@) =~= seq![line@] + texts(later));
        }
        Progress { notes, scope: self.scope, step: self.step }
    }

    /// The same, with lines to show before anything else.
    pub fn noting_all(self, lines: Vec<String>) -> (r: Progress)
        ensures
            r@ == self@.noting_all(texts(lines@)),
    {
        let mut notes = lines;
        let mut rest = self.notes;
        let ghost later = rest@;
        notes.append(&mut rest);
        proof {
            assert(texts(notes@) =~= texts(lines@) + texts(later));
        }
        Progress { notes, scope: self.scope, step: self.step }
    }
}

} // verus!
