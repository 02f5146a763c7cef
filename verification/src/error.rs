//! Typed errors and the exit codes that they stand for.
//!
//! A failure that should end the process with a code of its own is a
//! [`CliError`]. A [`Failure`] carries it together with the operations that
//! were under way, innermost first; anything that is not a [`CliError`] ends
//! the process with code 1.
//!
//! Exit codes follow `<sysexits.h>` where one fits:
//!
//! | Variant              | Code | Meaning                                  |
//! | -------------------- | ---- | ---------------------------------------- |
//! | `Usage`              |   64 | the command line was not understood      |
//! | `MalformedResponse`  |   65 | the compositor sent an unexpected reply  |
//! | `ActivityNotFound`   |   66 | no activity has that name                |
//! | `SocketUnavailable`  |   69 | the compositor could not be reached      |
//! | `PickerUnavailable`  |   69 | a menu program could not be run          |
//! | `NotImplemented`     |   70 | the subcommand does nothing yet          |
//! | `CantCreate`         |   73 | the activity could not be created        |
//! | `ConfigEdit`         |   73 | the config file could not be edited      |
//! | `OutputPipeClosed`   |    0 | the reader of stdout went away           |

use vstd::prelude::*;
use vstd::string::*;

verus! {

/// The kinds of input/output failure that decisions depend on.
#[derive(Debug, Clone, Copy, PartialEq, Eq, Structural)]
pub enum IoKind {
    NotFound,
    PermissionDenied,
    BrokenPipe,
    InvalidData,
    InvalidInput,
    Other,
}

/// An input/output failure: its kind and what the system said of it.
#[derive(Debug, PartialEq, Eq)]
pub struct IoFailure {
    pub kind: IoKind,
    pub message: String,
}

/// What an [`IoFailure`] holds.
pub struct IoFailureView {
    pub kind: IoKind,
    pub message: Seq<char>,
}

impl View for IoFailure {
    type V = IoFailureView;

    open spec fn view(&self) -> IoFailureView {
        IoFailureView { kind: self.kind, message: self.message@ }
    }
}

/// Why a reply of the compositor was not usable.
#[derive(Debug, PartialEq, Eq)]
pub enum MalformedResponseSource {
    /// The reply line could not be read as a reply.
    Decode(String),
    /// The compositor answered with an error message, kept as it came.
    Server(String),
    /// The reply was well formed but answers another request.
    WrongVariant { expected: &'static str, got: String },
}

/// What a [`MalformedResponseSource`] holds.
pub enum MalformedResponseSourceView {
    Decode(Seq<char>),
    Server(Seq<char>),
    WrongVariant { expected: Seq<char>, got: Seq<char> },
}

impl View for MalformedResponseSource {
    type V = MalformedResponseSourceView;

    open spec fn view(&self) -> MalformedResponseSourceView {
        match self {
            MalformedResponseSource::Decode(m) => MalformedResponseSourceView::Decode(m@),
            MalformedResponseSource::Server(m) => MalformedResponseSourceView::Server(m@),
            MalformedResponseSource::WrongVariant { expected, got } => {
                MalformedResponseSourceView::WrongVariant { expected: expected@, got: got@ }
            },
        }
    }
}

/// A failure with an exit code of its own.
#[derive(Debug, PartialEq, Eq)]
pub enum CliError {
    Usage(String),
    MalformedResponse(MalformedResponseSource),
    ActivityNotFound(String),
    SocketUnavailable(IoFailure),
    PickerUnavailable(IoFailure),
    NotImplemented(&'static str),
    CantCreate(String),
    ConfigEdit(IoFailure),
    OutputPipeClosed,
}

/// What a [`CliError`] holds.
pub enum CliErrorView {
    Usage(Seq<char>),
    MalformedResponse(MalformedResponseSourceView),
    ActivityNotFound(Seq<char>),
    SocketUnavailable(IoFailureView),
    PickerUnavailable(IoFailureView),
    NotImplemented(Seq<char>),
    CantCreate(Seq<char>),
    ConfigEdit(IoFailureView),
    OutputPipeClosed,
}

impl View for CliError {
    type V = CliErrorView;

    open spec fn view(&self) -> CliErrorView {
        match self {
            CliError::Usage(m) => CliErrorView::Usage(m@),
            CliError::MalformedResponse(s) => CliErrorView::MalformedResponse(s@),
            CliError::ActivityNotFound(n) => CliErrorView::ActivityNotFound(n@),
            CliError::SocketUnavailable(io) => CliErrorView::SocketUnavailable(io@),
            CliError::PickerUnavailable(io) => CliErrorView::PickerUnavailable(io@),
            CliError::NotImplemented(n) => CliErrorView::NotImplemented(n@),
            CliError::CantCreate(m) => CliErrorView::CantCreate(m@),
            CliError::ConfigEdit(io) => CliErrorView::ConfigEdit(io@),
            CliError::OutputPipeClosed => CliErrorView::OutputPipeClosed,
        }
    }
}

impl CliErrorView {
    /// The exit code of each kind of failure.
    pub open spec fn code(self) -> int {
        match self {
            CliErrorView::Usage(_) => 64,
            CliErrorView::MalformedResponse(_) => 65,
            CliErrorView::ActivityNotFound(_) => 66,
            CliErrorView::SocketUnavailable(_) => 69,
            CliErrorView::PickerUnavailable(_) => 69,
            CliErrorView::NotImplemented(_) => 70,
            CliErrorView::CantCreate(_) => 73,
            CliErrorView::ConfigEdit(_) => 73,
            CliErrorView::OutputPipeClosed => 0,
        }
    }

    /// The sentence shown to the user.
    pub open spec fn text(self) -> Seq<char> {
        match self {
            CliErrorView::Usage(m) => "usage: "@ + m,
            CliErrorView::MalformedResponse(s) => "malformed compositor response: "@ + s.text(),
            CliErrorView::ActivityNotFound(n) => "no such activity: "@ + n,
            CliErrorView::SocketUnavailable(io) => "niri socket unavailable: "@ + io.message,
            CliErrorView::PickerUnavailable(io) => "picker unavailable: "@ + io.message,
            CliErrorView::NotImplemented(n) => "subcommand not yet implemented: "@ + n,
            CliErrorView::CantCreate(m) => "cannot create activity: "@ + m,
            CliErrorView::ConfigEdit(io) => "cannot edit config file: "@ + io.message,
            CliErrorView::OutputPipeClosed => "output pipe closed"@,
        }
    }

    /// The text of the lower-level error behind this one, if there is one.
    pub open spec fn source_text(self) -> Option<Seq<char>> {
        match self {
            CliErrorView::SocketUnavailable(io) => Some(io.message),
            CliErrorView::PickerUnavailable(io) => Some(io.message),
            CliErrorView::ConfigEdit(io) => Some(io.message),
            CliErrorView::MalformedResponse(MalformedResponseSourceView::Decode(m)) => Some(m),
            _ => None,
        }
    }
}

impl MalformedResponseSourceView {
    /// The sentence shown to the user.
    pub open spec fn text(self) -> Seq<char> {
        match self {
            MalformedResponseSourceView::Decode(m) => "decode error: "@ + m,
            MalformedResponseSourceView::Server(m) => "server error: "@ + m,
            MalformedResponseSourceView::WrongVariant { expected, got } => "wrong response variant: expected "@
                + expected + ", got "@ + got,
        }
    }
}

impl MalformedResponseSource {
    /// The sentence shown to the user.
    pub fn describe(&self) -> (r: String)
        ensures
            r@ == self@.text(),
    {
        match self {
            MalformedResponseSource::Decode(m) => "decode error: ".to_owned().concat(m.as_str()),
            MalformedResponseSource::Server(m) => "server error: ".to_owned().concat(m.as_str()),
            MalformedResponseSource::WrongVariant { expected, got } => {
                let mut s = "wrong response variant: expected ".to_owned();
                s.append(expected);
                s.append(", got ");
                s.append(got.as_str());
                s
            },
        }
    }
}

impl CliError {
    /// The exit code of this failure.
    pub fn exit_code(&self) -> (r: i32)
        ensures
            r == self@.code(),
    {
        match self {
            CliError::Usage(_) => 64,
            CliError::MalformedResponse(_) => 65,
            CliError::ActivityNotFound(_) => 66,
            CliError::SocketUnavailable(_) => 69,
            CliError::PickerUnavailable(_) => 69,
            CliError::NotImplemented(_) => 70,
            CliError::CantCreate(_) => 73,
            CliError::ConfigEdit(_) => 73,
            CliError::OutputPipeClosed => 0,
        }
    }

    /// The sentence shown to the user.
    pub fn describe(&self) -> (r: String)
        ensures
            r@ == self@.text(),
    {
        match self {
            CliError::Usage(m) => "usage: ".to_owned().concat(m.as_str()),
            CliError::MalformedResponse(s) => "malformed compositor response: ".to_owned().concat(
                s.describe().as_str(),
            ),
            CliError::ActivityNotFound(n) => "no such activity: ".to_owned().concat(n.as_str()),
            CliError::SocketUnavailable(io) => "niri socket unavailable: ".to_owned().concat(
                io.message.as_str(),
            ),
            CliError::PickerUnavailable(io) => "picker unavailable: ".to_owned().concat(
                io.message.as_str(),
            ),
            CliError::NotImplemented(n) => "subcommand not yet implemented: ".to_owned().concat(n),
            CliError::CantCreate(m) => "cannot create activity: ".to_owned().concat(m.as_str()),
            CliError::ConfigEdit(io) => "cannot edit config file: ".to_owned().concat(
                io.message.as_str(),
            ),
            CliError::OutputPipeClosed => "output pipe closed".to_owned(),
        }
    }

    /// The text of the lower-level error behind this one, if there is one.
    pub fn source(&self) -> (r: Option<String>)
        ensures
            crate::text::text_of(r) == self@.source_text(),
    {
        match self {
            CliError::SocketUnavailable(io) => Some(io.message.clone()),
            CliError::PickerUnavailable(io) => Some(io.message.clone()),
            CliError::ConfigEdit(io) => Some(io.message.clone()),
            CliError::MalformedResponse(MalformedResponseSource::Decode(m)) => Some(m.clone()),
            _ => None,
        }
    }
}

/// What a [`Failure`] comes from.
#[derive(Debug, PartialEq, Eq)]
pub enum Cause {
    /// A failure with an exit code of its own.
    Typed(CliError),
    /// An input/output failure that nothing has classified.
    Io(IoFailure),
    /// Any other failure.
    Message(String),
}

/// What a [`Cause`] holds.
pub enum CauseView {
    Typed(CliErrorView),
    Io(IoFailureView),
    Message(Seq<char>),
}

impl View for Cause {
    type V = CauseView;

    open spec fn view(&self) -> CauseView {
        match self {
            Cause::Typed(e) => CauseView::Typed(e@),
            Cause::Io(io) => CauseView::Io(io@),
            Cause::Message(m) => CauseView::Message(m@),
        }
    }
}

/// A failure and the operations that were under way when it happened,
/// innermost first.
#[derive(Debug, PartialEq, Eq)]
pub struct Failure {
    pub contexts: Vec<&'static str>,
    pub cause: Cause,
}

/// What a [`Failure`] holds.
#[verifier::ext_equal]
pub struct FailureView {
    pub contexts: Seq<Seq<char>>,
    pub cause: CauseView,
}

impl View for Failure {
    type V = FailureView;

    open spec fn view(&self) -> FailureView {
        FailureView { contexts: crate::text::slices(self.contexts@), cause: self.cause@ }
    }
}

impl FailureView {
    /// The failure seen from one operation further out.
    pub open spec fn within(self, context: Seq<char>) -> FailureView {
        FailureView { contexts: self.contexts.push(context), cause: self.cause }
    }

    /// The exit code: that of the typed cause, else 1.
    pub open spec fn code(self) -> int {
        match self.cause {
            CauseView::Typed(e) => e.code(),
            _ => 1,
        }
    }

    /// The operations from the outermost in, then the cause and what is
    /// behind it, separated by colons.
    pub open spec fn text(self) -> Seq<char> {
        outermost_first(self.contexts) + self.cause.text()
    }
}

/// The contexts from the last to the first, each followed by a colon and a
/// space.
pub open spec fn outermost_first(contexts: Seq<Seq<char>>) -> Seq<char>
    decreases contexts.len(),
{
    if contexts.len() == 0 {
        Seq::empty()
    } else {
        contexts.last() + ": "@ + outermost_first(contexts.drop_last())
    }
}

impl CauseView {
    /// The cause and what is behind it, separated by a colon.
    pub open spec fn text(self) -> Seq<char> {
        match self {
            CauseView::Typed(e) => match e.source_text() {
                Some(s) => e.text() + ": "@ + s,
                None => e.text(),
            },
            CauseView::Io(io) => io.message,
            CauseView::Message(m) => m,
        }
    }
}

/// A typed failure with no operation around it.
pub open spec fn typed(e: CliErrorView) -> FailureView {
    FailureView { contexts: Seq::empty(), cause: CauseView::Typed(e) }
}

/// A typed failure within one operation.
pub open spec fn typed_in(e: CliErrorView, context: Seq<char>) -> FailureView {
    typed(e).within(context)
}

/// A failure that quotes a message of the compositor, or that reports what
/// its reply lacks.
pub open spec fn server(message: Seq<char>) -> CliErrorView {
    CliErrorView::MalformedResponse(MalformedResponseSourceView::Server(message))
}

/// Makes [`CliError::MalformedResponse`] from a message.
pub fn server_error(message: String) -> (r: CliError)
    ensures
        r@ == server(message@),
{
    CliError::MalformedResponse(MalformedResponseSource::Server(message))
}

impl Failure {
    /// A typed failure with no operation around it.
    pub fn new(error: CliError) -> (r: Failure)
        ensures
            r@ == typed(error@),
    {
        let r = Failure { contexts: Vec::new(), cause: Cause::Typed(error) };
        proof {
            assert(r@.contexts =~= Seq::empty());
        }
        r
    }

    /// The failure seen from one operation further out.
    pub fn context(self, context: &'static str) -> (r: Failure)
        ensures
            r@ == self@.within(context@),
    {
        let mut contexts = self.contexts;
        let ghost before = contexts@;
        contexts.push(context);
        let r = Failure { contexts, cause: self.cause };
        proof {
            assert(crate::text::slices(before.push(context)) =~= crate::text::slices(before).push(
                context@,
            ));
        }
        r
    }

    /// The typed failure inside, if there is one.
    pub fn typed_cause(&self) -> (r: Option<&CliError>)
        ensures
            match r {
                Some(e) => self@.cause == CauseView::Typed(e@),
                None => !(self@.cause is Typed),
            },
    {
        match &self.cause {
            Cause::Typed(e) => Some(e),
            _ => None,
        }
    }

    /// The whole trail on one line: the operations from the outermost in, then
    /// the cause and what is behind it.
    pub fn describe(&self) -> (r: String)
        ensures
            r@ == self@.text(),
    {
        let mut s = String::new();
        let mut i: usize = self.contexts.len();
        let ghost all = crate::text::slices(self.contexts@);
        proof {
            assert(all.take(all.len() as int) =~= all);
            assert(s@ + outermost_first(all) =~= outermost_first(all));
        }
        while i > 0
            invariant
                i <= self.contexts@.len(),
                all == crate::text::slices(self.contexts@),
                s@ + outermost_first(all.take(i as int)) == outermost_first(all),
            decreases i,
        {
            let ghost before = s@;
            s.append(self.contexts[i - 1]);
            s.append(": ");
            proof {
                let front = all.take(i as int);
                assert(front.last() == self.contexts@[i - 1]@);
                assert(front.drop_last() =~= all.take(i - 1));
                assert(s@ + outermost_first(all.take(i - 1)) =~= before + (front.last() + ": "@
                    + outermost_first(front.drop_last())));
            }
            i = i - 1;
        }
        proof {
            assert(all.take(0).len() == 0);
            assert(s@ + Seq::<char>::empty() =~= s@);
        }
        match &self.cause {
            Cause::Typed(e) => {
                s.append(e.describe().as_str());
                match e.source() {
                    Some(behind) => {
                        s.append(": ");
                        s.append(behind.as_str());
                    },
                    None => {},
                }
            },
            Cause::Io(io) => s.append(io.message.as_str()),
            Cause::Message(m) => s.append(m.as_str()),
        }
        proof {
            assert(s@ =~= self@.text());
        }
        s
    }
}

/// The process exit code of a failure: that of its typed cause, whatever
/// operations surround it, and 1 for a failure without one.
pub fn map_exit(err: &Failure) -> (r: i32)
    ensures
        r == err@.code(),
{
    match &err.cause {
        Cause::Typed(e) => e.exit_code(),
        _ => 1,
    }
}

/// Whether the failure is that the reader of stdout went away, in which case
/// the process ends silently and with success. A broken pipe elsewhere is no
/// such failure.
pub fn is_stdout_pipe_closed(err: &Failure) -> (r: bool)
    ensures
        r == (err@.cause == CauseView::Typed(CliErrorView::OutputPipeClosed)),
{
    match &err.cause {
        Cause::Typed(CliError::OutputPipeClosed) => true,
        _ => false,
    }
}

/// Naming the operations around a failure does not change its exit code, nor
/// whether it is silent.
pub proof fn law_context_keeps_exit_code(f: FailureView, context: Seq<char>)
    ensures
        f.within(context).code() == f.code(),
        f.within(context).cause == f.cause,
{
}

/// Every exit code fits in a byte, and only a closed output pipe ends the
/// process with code 0.
pub proof fn law_exit_codes(f: FailureView)
    ensures
        0 <= f.code() <= 255,
        f.code() == 0 <==> f.cause == CauseView::Typed(CliErrorView::OutputPipeClosed),
{
}

/// Whether `text` ends with `detail`.
pub open spec fn ends_with(text: Seq<char>, detail: Seq<char>) -> bool {
    text.len() >= detail.len() && text.skip(text.len() - detail.len()) == detail
}

/// Naming the operation around a failure puts it before all that is told of the
/// failure already, so that the outermost operation comes first.
pub proof fn law_outermost_operation_comes_first(f: FailureView, context: Seq<char>)
    ensures
        f.within(context).text() == context + ": "@ + f.text(),
{
    assert(f.contexts.push(context).drop_last() =~= f.contexts);
    assert(f.within(context).text() =~= context + ": "@ + f.text());
}

/// What is told of a failure ends with what was said of it, word for word.
pub proof fn law_failure_is_told_in_full(e: CliErrorView)
    ensures
        match e {
            CliErrorView::Usage(m) => ends_with(e.text(), m),
            CliErrorView::MalformedResponse(MalformedResponseSourceView::Decode(m)) => ends_with(
                e.text(),
                m,
            ),
            CliErrorView::MalformedResponse(MalformedResponseSourceView::Server(m)) => ends_with(
                e.text(),
                m,
            ),
            CliErrorView::MalformedResponse(
                MalformedResponseSourceView::WrongVariant { expected, got },
            ) => ends_with(e.text(), expected + ", got "@ + got),
            CliErrorView::ActivityNotFound(n) => ends_with(e.text(), n),
            CliErrorView::SocketUnavailable(io) => ends_with(e.text(), io.message),
            CliErrorView::PickerUnavailable(io) => ends_with(e.text(), io.message),
            CliErrorView::NotImplemented(n) => ends_with(e.text(), n),
            CliErrorView::CantCreate(m) => ends_with(e.text(), m),
            CliErrorView::ConfigEdit(io) => ends_with(e.text(), io.message),
            CliErrorView::OutputPipeClosed => true,
        },
        e.source_text() matches Some(behind) ==> ends_with(typed(e).text(), behind) && ends_with(
            e.text(),
            behind,
        ),
{
    let t = e.text();
    match e {
        CliErrorView::Usage(m) => {
            assert(t.skip(t.len() - m.len()) =~= m);
        },
        CliErrorView::MalformedResponse(s) => match s {
            MalformedResponseSourceView::Decode(m) => {
                assert(t.skip(t.len() - m.len()) =~= m);
            },
            MalformedResponseSourceView::Server(m) => {
                assert(t.skip(t.len() - m.len()) =~= m);
            },
            MalformedResponseSourceView::WrongVariant { expected, got } => {
                let m = expected + ", got "@ + got;
                assert(t.skip(t.len() - m.len()) =~= m);
            },
        },
        CliErrorView::ActivityNotFound(m) => {
            assert(t.skip(t.len() - m.len()) =~= m);
        },
        CliErrorView::SocketUnavailable(io) => {
            assert(t.skip(t.len() - io.message.len()) =~= io.message);
        },
        CliErrorView::PickerUnavailable(io) => {
            assert(t.skip(t.len() - io.message.len()) =~= io.message);
        },
        CliErrorView::NotImplemented(m) => {
            assert(t.skip(t.len() - m.len()) =~= m);
        },
        CliErrorView::CantCreate(m) => {
            assert(t.skip(t.len() - m.len()) =~= m);
        },
        CliErrorView::ConfigEdit(io) => {
            assert(t.skip(t.len() - io.message.len()) =~= io.message);
        },
        CliErrorView::OutputPipeClosed => {},
    }
    match e.source_text() {
        Some(behind) => {
            let whole = typed(e).text();
            assert(whole.skip(whole.len() - behind.len()) =~= behind);
        },
        None => {},
    }
}

/// Whether `text` begins with `start`.
pub open spec fn starts_with(text: Seq<char>, start: Seq<char>) -> bool {
    text.len() >= start.len() && text.take(start.len() as int) == start
}

/// What is told of a failure begins with what went wrong, and the exit code goes
/// with it: both depend on the kind of the failure and on nothing else.
pub proof fn law_failure_begins_with_its_kind(e: CliErrorView)
    ensures
        ({
            let (start, code) = match e {
                CliErrorView::Usage(_) => ("usage: "@, 64int),
                CliErrorView::MalformedResponse(s) => (
                    "malformed compositor response: "@ + match s {
                        MalformedResponseSourceView::Decode(_) => "decode error: "@,
                        MalformedResponseSourceView::Server(_) => "server error: "@,
                        MalformedResponseSourceView::WrongVariant { .. } => {
                            "wrong response variant: expected "@
                        },
                    },
                    65int,
                ),
                CliErrorView::ActivityNotFound(_) => ("no such activity: "@, 66int),
                CliErrorView::SocketUnavailable(_) => ("niri socket unavailable: "@, 69int),
                CliErrorView::PickerUnavailable(_) => ("picker unavailable: "@, 69int),
                CliErrorView::NotImplemented(_) => ("subcommand not yet implemented: "@, 70int),
                CliErrorView::CantCreate(_) => ("cannot create activity: "@, 73int),
                CliErrorView::ConfigEdit(_) => ("cannot edit config file: "@, 73int),
                CliErrorView::OutputPipeClosed => ("output pipe closed"@, 0int),
            };
            starts_with(e.text(), start) && e.code() == code
        }),
{
    let t = e.text();
    match e {
        CliErrorView::Usage(_) => {
            assert(t.take("usage: "@.len() as int) =~= "usage: "@);
        },
        CliErrorView::MalformedResponse(s) => {
            let outer = "malformed compositor response: "@;
            let inner = match s {
                MalformedResponseSourceView::Decode(_) => "decode error: "@,
                MalformedResponseSourceView::Server(_) => "server error: "@,
                MalformedResponseSourceView::WrongVariant { .. } => {
                    "wrong response variant: expected "@
                },
            };
            assert(s.text().take(inner.len() as int) =~= inner);
            assert(t.take((outer + inner).len() as int) =~= outer + inner);
        },
        CliErrorView::ActivityNotFound(_) => {
            assert(t.take("no such activity: "@.len() as int) =~= "no such activity: "@);
        },
        CliErrorView::SocketUnavailable(_) => {
            let start = "niri socket unavailable: "@;
            assert(t.take(start.len() as int) =~= start);
        },
        CliErrorView::PickerUnavailable(_) => {
            let start = "picker unavailable: "@;
            assert(t.take(start.len() as int) =~= start);
        },
        CliErrorView::NotImplemented(_) => {
            let start = "subcommand not yet implemented: "@;
            assert(t.take(start.len() as int) =~= start);
        },
        CliErrorView::CantCreate(_) => {
            let start = "cannot create activity: "@;
            assert(t.take(start.len() as int) =~= start);
        },
        CliErrorView::ConfigEdit(_) => {
            let start = "cannot edit config file: "@;
            assert(t.take(start.len() as int) =~= start);
        },
        CliErrorView::OutputPipeClosed => {
            assert(t.take(t.len() as int) =~= t);
        },
    }
}

} // verus!
