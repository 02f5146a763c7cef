//! What is said on the compositor's socket: requests, replies and the ways in
//! which a round trip can fail.

use crate::error::{CliError, CliErrorView, IoFailure, IoFailureView, IoKind,
    MalformedResponseSource, MalformedResponseSourceView, ends_with};
use crate::text::text_of;
use vstd::prelude::*;
use vstd::string::*;

verus! {

/// An activity, as the compositor lists it.
#[derive(Debug, PartialEq, Eq, Default)]
pub struct Activity {
    pub id: u64,
    pub name: String,
    pub is_active: bool,
    pub is_config_declared: bool,
    /// When the activity was last active: a higher number is more recent, and
    /// 0 means never.
    pub last_active_seq: u64,
}

/// A workspace, as the compositor lists it.
#[derive(Debug, PartialEq, Eq, Default)]
pub struct Workspace {
    pub id: u64,
    /// The position on the output; only meaningful in the active activity.
    pub idx: u8,
    pub name: Option<String>,
    pub output: Option<String>,
    pub is_urgent: bool,
    pub is_active: bool,
    pub is_focused: bool,
    pub active_window_id: Option<u64>,
    /// The ids of the activities that the workspace belongs to.
    pub activities: Vec<u64>,
    pub is_sticky: bool,
    pub is_in_active_activity: bool,
}

/// A window, as the compositor lists it.
#[derive(Debug, PartialEq, Eq, Default)]
pub struct Window {
    pub id: u64,
    pub workspace_id: Option<u64>,
}

/// How a request points to an activity.
#[derive(Debug, PartialEq, Eq)]
pub enum ActivityReferenceArg {
    Id(u64),
    Name(String),
}

/// What an [`ActivityReferenceArg`] holds.
pub enum ActivityReferenceView {
    Id(u64),
    Name(Seq<char>),
}

impl View for ActivityReferenceArg {
    type V = ActivityReferenceView;

    open spec fn view(&self) -> ActivityReferenceView {
        match self {
            ActivityReferenceArg::Id(id) => ActivityReferenceView::Id(*id),
            ActivityReferenceArg::Name(n) => ActivityReferenceView::Name(n@),
        }
    }
}

/// How a request points to a workspace.
#[derive(Debug, PartialEq, Eq)]
pub enum WorkspaceReferenceArg {
    Id(u64),
    Index(u8),
    Name(String),
}

/// What a [`WorkspaceReferenceArg`] holds.
pub enum WorkspaceReferenceView {
    Id(u64),
    Index(u8),
    Name(Seq<char>),
}

impl View for WorkspaceReferenceArg {
    type V = WorkspaceReferenceView;

    open spec fn view(&self) -> WorkspaceReferenceView {
        match self {
            WorkspaceReferenceArg::Id(id) => WorkspaceReferenceView::Id(*id),
            WorkspaceReferenceArg::Index(i) => WorkspaceReferenceView::Index(*i),
            WorkspaceReferenceArg::Name(n) => WorkspaceReferenceView::Name(n@),
        }
    }
}

/// What the compositor can be asked to do.
#[derive(Debug, PartialEq, Eq)]
#[allow(inconsistent_fields)]
pub enum Action {
    SwitchActivity { activity: ActivityReferenceArg },
    SwitchActivityPrevious { depth: u32 },
    CreateActivity { name: String },
    RemoveActivity { activity: ActivityReferenceArg },
    RenameActivity { activity: ActivityReferenceArg, name: String },
    MoveWindowToWorkspace {
        window_id: Option<u64>,
        reference: WorkspaceReferenceArg,
        focus: bool,
    },
    MoveWorkspaceToActivity {
        workspace: Option<WorkspaceReferenceArg>,
        activity: ActivityReferenceArg,
        focus: bool,
    },
    SetWorkspaceActivities {
        workspace: Option<WorkspaceReferenceArg>,
        activities: Vec<ActivityReferenceArg>,
    },
    FocusWorkspace { reference: WorkspaceReferenceArg, activity: Option<ActivityReferenceArg> },
    FocusWindow { id: u64 },
    OpenOverview {  },
    LoadConfigFile { path: Option<String> },
}

/// What an [`Action`] holds.
#[allow(inconsistent_fields)]
pub enum ActionView {
    SwitchActivity { activity: ActivityReferenceView },
    SwitchActivityPrevious { depth: u32 },
    CreateActivity { name: Seq<char> },
    RemoveActivity { activity: ActivityReferenceView },
    RenameActivity { activity: ActivityReferenceView, name: Seq<char> },
    MoveWindowToWorkspace {
        window_id: Option<u64>,
        reference: WorkspaceReferenceView,
        focus: bool,
    },
    MoveWorkspaceToActivity {
        workspace: Option<WorkspaceReferenceView>,
        activity: ActivityReferenceView,
        focus: bool,
    },
    SetWorkspaceActivities {
        workspace: Option<WorkspaceReferenceView>,
        activities: Seq<ActivityReferenceView>,
    },
    FocusWorkspace { reference: WorkspaceReferenceView, activity: Option<ActivityReferenceView> },
    FocusWindow { id: u64 },
    OpenOverview,
    LoadConfigFile { path: Option<Seq<char>> },
}

/// What an optional reference to an activity holds.
pub open spec fn activity_ref(r: Option<ActivityReferenceArg>) -> Option<ActivityReferenceView> {
    match r {
        Some(a) => Some(a@),
        None => None,
    }
}

/// What an optional reference to a workspace holds.
pub open spec fn workspace_ref(r: Option<WorkspaceReferenceArg>) -> Option<WorkspaceReferenceView> {
    match r {
        Some(w) => Some(w@),
        None => None,
    }
}

impl View for Action {
    type V = ActionView;

    open spec fn view(&self) -> ActionView {
        match self {
            Action::SwitchActivity { activity } => {
                ActionView::SwitchActivity { activity: activity@ }
            },
            Action::SwitchActivityPrevious { depth } => {
                ActionView::SwitchActivityPrevious { depth: *depth }
            },
            Action::CreateActivity { name } => ActionView::CreateActivity { name: name@ },
            Action::RemoveActivity { activity } => {
                ActionView::RemoveActivity { activity: activity@ }
            },
            Action::RenameActivity { activity, name } => {
                ActionView::RenameActivity { activity: activity@, name: name@ }
            },
            Action::MoveWindowToWorkspace { window_id, reference, focus } => {
                ActionView::MoveWindowToWorkspace {
                    window_id: *window_id,
                    reference: reference@,
                    focus: *focus,
                }
            },
            Action::MoveWorkspaceToActivity { workspace, activity, focus } => {
                ActionView::MoveWorkspaceToActivity {
                    workspace: workspace_ref(*workspace),
                    activity: activity@,
                    focus: *focus,
                }
            },
            Action::SetWorkspaceActivities { workspace, activities } => {
                ActionView::SetWorkspaceActivities {
                    workspace: workspace_ref(*workspace),
                    activities: activities@.map_values(|a: ActivityReferenceArg| a@),
                }
            },
            Action::FocusWorkspace { reference, activity } => {
                ActionView::FocusWorkspace {
                    reference: reference@,
                    activity: activity_ref(*activity),
                }
            },
            Action::FocusWindow { id } => ActionView::FocusWindow { id: *id },
            Action::OpenOverview {  } => ActionView::OpenOverview,
            Action::LoadConfigFile { path } => ActionView::LoadConfigFile { path: text_of(*path) },
        }
    }
}

/// A request to the compositor.
#[derive(Debug, PartialEq, Eq)]
pub enum Request {
    Version,
    Activities,
    Workspaces,
    Windows,
    Action(Action),
}

/// What a [`Request`] holds.
pub enum RequestView {
    Version,
    Activities,
    Workspaces,
    Windows,
    Action(ActionView),
}

impl View for Request {
    type V = RequestView;

    open spec fn view(&self) -> RequestView {
        match self {
            Request::Version => RequestView::Version,
            Request::Activities => RequestView::Activities,
            Request::Workspaces => RequestView::Workspaces,
            Request::Windows => RequestView::Windows,
            Request::Action(a) => RequestView::Action(a@),
        }
    }
}

/// Why the compositor had nothing to do.
#[derive(Debug, PartialEq, Eq)]
pub enum NoOpReason {
    /// The window was on the target workspace already.
    AlreadyOnTarget { workspace_id: u64 },
    /// A reason that this tool does not know; `shown` is how it reads.
    Unknown { shown: String },
}

/// A reply of the compositor. The replies that no rule looks into carry
/// nothing here.
#[derive(Debug, PartialEq, Eq)]
pub enum Response {
    Handled,
    NoOp(NoOpReason),
    Version(String),
    Outputs,
    Workspaces(Vec<Workspace>),
    Windows(Vec<Window>),
    Layers,
    KeyboardLayouts,
    FocusedOutput,
    Activities(Vec<Activity>),
    FocusedActivity,
    FocusedWindow,
    PickedWindow,
    PickedColor,
    OutputConfigChanged,
    OverviewState,
    Casts,
    /// A reply that this tool does not know.
    Unknown,
}

/// The ways in which a round trip can fail.
#[derive(Debug, PartialEq, Eq)]
pub enum IpcError {
    /// The socket could not be reached, written or read.
    Transport(IoFailure),
    /// The reply line could not be read as a reply.
    Decode(String),
    /// The compositor answered with an error message.
    Server(String),
}

/// What an [`IpcError`] holds.
pub enum IpcErrorView {
    Transport(IoFailureView),
    Decode(Seq<char>),
    Server(Seq<char>),
}

impl View for IpcError {
    type V = IpcErrorView;

    open spec fn view(&self) -> IpcErrorView {
        match self {
            IpcError::Transport(io) => IpcErrorView::Transport(io@),
            IpcError::Decode(m) => IpcErrorView::Decode(m@),
            IpcError::Server(m) => IpcErrorView::Server(m@),
        }
    }
}

impl IpcErrorView {
    /// The sentence shown to the user.
    pub open spec fn text(self) -> Seq<char> {
        match self {
            IpcErrorView::Transport(io) => "ipc transport: "@ + io.message,
            IpcErrorView::Decode(m) => "ipc decode: "@ + m,
            IpcErrorView::Server(m) => "ipc server error: "@ + m,
        }
    }

    /// The typed failure that a failed round trip becomes.
    pub open spec fn as_cli_error(self) -> CliErrorView {
        match self {
            IpcErrorView::Transport(io) => CliErrorView::SocketUnavailable(io),
            IpcErrorView::Decode(m) => CliErrorView::MalformedResponse(
                MalformedResponseSourceView::Decode(m),
            ),
            IpcErrorView::Server(m) => CliErrorView::MalformedResponse(
                MalformedResponseSourceView::Server(m),
            ),
        }
    }
}

impl IpcError {
    /// The sentence shown to the user.
    pub fn describe(&self) -> (r: String)
        ensures
            r@ == self@.text(),
    {
        match self {
            IpcError::Transport(io) => "ipc transport: ".to_owned().concat(io.message.as_str()),
            IpcError::Decode(m) => "ipc decode: ".to_owned().concat(m.as_str()),
            IpcError::Server(m) => "ipc server error: ".to_owned().concat(m.as_str()),
        }
    }
}

impl From<IpcError> for CliError {
    fn from(e: IpcError) -> (r: CliError) {
        match e {
            IpcError::Transport(io) => CliError::SocketUnavailable(io),
            IpcError::Decode(m) => CliError::MalformedResponse(MalformedResponseSource::Decode(m)),
            IpcError::Server(m) => CliError::MalformedResponse(MalformedResponseSource::Server(m)),
        }
    }
}

impl vstd::std_specs::convert::FromSpecImpl<IpcError> for CliError {
    open spec fn obeys_from_spec() -> bool {
        true
    }

    open spec fn from_spec(e: IpcError) -> CliError {
        match e {
            IpcError::Transport(io) => CliError::SocketUnavailable(io),
            IpcError::Decode(m) => CliError::MalformedResponse(MalformedResponseSource::Decode(m)),
            IpcError::Server(m) => CliError::MalformedResponse(MalformedResponseSource::Server(m)),
        }
    }
}

/// The client side of the socket. Every request gets a connection of its own,
/// so a client holds no state.
#[derive(Debug, Clone, Copy, PartialEq, Eq)]
pub struct SocketClient {}

impl SocketClient {
    /// A client. It connects only when a request is sent.
    pub fn new() -> (r: SocketClient)
        ensures
            r == (SocketClient {  }),
    {
        SocketClient {  }
    }

    /// The path of the socket, from the environment variable `variable`: unset,
    /// there is no compositor to talk to.
    pub fn socket_path(&self, variable: &str, value: Option<Vec<u8>>) -> (r: Result<
        Vec<u8>,
        IpcError,
    >)
        ensures
            match (value, r) {
                (Some(path), Ok(p)) => p == path,
                (None, Err(e)) => e@ == IpcErrorView::Transport(
                    IoFailureView {
                        kind: IoKind::NotFound,
                        message: variable@
                            + " is not set, are you running this within niri?"@,
                    },
                ),
                _ => false,
            },
    {
        match value {
            Some(path) => Ok(path),
            None => {
                let message = variable.to_owned().concat(
                    " is not set, are you running this within niri?",
                );
                Err(IpcError::Transport(IoFailure { kind: IoKind::NotFound, message }))
            },
        }
    }

    /// The line that carries an encoded request.
    pub fn request_line(&self, encoded: String) -> (r: String)
        ensures
            r@ == encoded@.push('\n'),
    {
        let mut line = encoded;
        line.push('\n');
        line
    }

    /// Sorts out a reply line: one that could not be decoded, an error message
    /// of the compositor, or a response.
    pub fn reply(&self, decoded: Result<Result<Response, String>, String>) -> (r: Reply)
        ensures
            r == (match decoded {
                Err(problem) => Err(IpcError::Decode(problem)),
                Ok(Err(message)) => Err(IpcError::Server(message)),
                Ok(Ok(response)) => Ok(response),
            }),
    {
        match decoded {
            Err(problem) => Err(IpcError::Decode(problem)),
            Ok(Err(message)) => Err(IpcError::Server(message)),
            Ok(Ok(response)) => Ok(response),
        }
    }
}

/// The answer of one round trip.
pub type Reply = Result<Response, IpcError>;

/// A failed round trip never looks like a refusal to create, a missing
/// activity or a usage mistake: it exits with 69 when the compositor could not
/// be reached and with 65 otherwise.
pub proof fn law_ipc_error_exit_code(e: IpcErrorView)
    ensures
        e.as_cli_error().code() == (if e is Transport {
            69int
        } else {
            65int
        }),
{
}

/// What is told of a failed round trip ends with what was said of it, word for word.
pub proof fn law_failed_round_trip_is_told_in_full(e: IpcErrorView)
    ensures
        match e {
            IpcErrorView::Transport(io) => ends_with(e.text(), io.message) && ends_with(
                e.as_cli_error().text(),
                io.message,
            ),
            IpcErrorView::Decode(m) => ends_with(e.text(), m) && ends_with(
                e.as_cli_error().text(),
                m,
            ),
            IpcErrorView::Server(m) => ends_with(e.text(), m) && ends_with(
                e.as_cli_error().text(),
                m,
            ),
        },
{
    let t = e.text();
    let u = e.as_cli_error().text();
    match e {
        IpcErrorView::Transport(io) => {
            assert(t.skip(t.len() - io.message.len()) =~= io.message);
            assert(u.skip(u.len() - io.message.len()) =~= io.message);
        },
        IpcErrorView::Decode(m) => {
            assert(t.skip(t.len() - m.len()) =~= m);
            assert(u.skip(u.len() - m.len()) =~= m);
        },
        IpcErrorView::Server(m) => {
            assert(t.skip(t.len() - m.len()) =~= m);
            assert(u.skip(u.len() - m.len()) =~= m);
        },
    }
}

} // verus!
