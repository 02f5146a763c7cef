//! The `create` subcommand: a new activity.
//!
//! Two messages of the compositor have a meaning of their own, each only where
//! it reads exactly so: that the name is taken, and that it is empty.

use crate::error::{CliError, CliErrorView, typed_in};
use crate::flow::{AfterCreated, AfterReply, Progress, ProgressView, done, failed, sending};
use crate::ipc::{Action, ActionView, IpcError, Reply, Request, RequestView, Response};
use crate::ipc_helpers::{result_of, unexpected, variant, wrong_variant};
use crate::move_window::{fetch_after_create, fetching_after_create};
use crate::text::str_eq;
use vstd::prelude::*;
use vstd::string::*;

verus! {

/// Asking for a new activity.
pub open spec fn create_activity(name: Seq<char>) -> RequestView {
    RequestView::Action(ActionView::CreateActivity { name })
}

/// Creating the activity `name`.
pub open spec fn creating(name: String, context: &'static str, next: AfterCreated) -> ProgressView {
    sending(create_activity(name@), AfterReply::Created { name, context, next })
}

/// What the reply to the creation of `name` means.
pub open spec fn creation(reply: Reply, name: Seq<char>) -> Result<(), CliErrorView> {
    match reply {
        Ok(Response::Handled) => Ok(()),
        Ok(other) => Err(unexpected("Response::Handled"@, variant(other))),
        Err(IpcError::Server(m)) => Err(
            if m@ == "activity name already exists"@ {
                CliErrorView::CantCreate("activity \""@ + name + "\" already exists"@)
            } else if m@ == "activity name must not be empty"@ {
                CliErrorView::Usage("activity name must not be empty"@)
            } else {
                IpcError::Server(m)@.as_cli_error()
            },
        ),
        Err(e) => Err(e@.as_cli_error()),
    }
}

/// Asks for the activity `name`. A failure happens within `context`.
pub fn dispatch(name: String, context: &'static str, next: AfterCreated) -> (r: Progress)
    ensures
        r@ == creating(name, context, next),
{
    Progress::send(
        Request::Action(Action::CreateActivity { name: name.clone() }),
        AfterReply::Created { name, context, next },
    )
}

/// Creates the activity `name`.
pub fn run(name: String) -> (r: Progress)
    ensures
        r@ == creating(name, "creating activity", AfterCreated::Done),
{
    dispatch(name, "creating activity", AfterCreated::Done)
}

/// Reads the reply to the creation of `name`.
pub fn expect_created(reply: Reply, name: &str) -> (r: Result<(), CliError>)
    ensures
        result_of(r) == creation(reply, name@),
{
    match reply {
        Ok(Response::Handled) => Ok(()),
        Ok(other) => Err(wrong_variant("Response::Handled", &other)),
        Err(IpcError::Server(m)) => {
            if str_eq(m.as_str(), "activity name already exists") {
                let mut text = "activity \"".to_owned();
                text.append(name);
                text.append("\" already exists");
                Err(CliError::CantCreate(text))
            } else if str_eq(m.as_str(), "activity name must not be empty") {
                Err(CliError::Usage("activity name must not be empty".to_owned()))
            } else {
                Err(CliError::from(IpcError::Server(m)))
            }
        },
        Err(other) => Err(CliError::from(other)),
    }
}

/// What follows the creation of `name`.
pub open spec fn after_creation(
    name: String,
    context: &'static str,
    next: AfterCreated,
    reply: Reply,
) -> ProgressView {
    match creation(reply, name@) {
        Err(e) => failed(typed_in(e, context@)),
        Ok(_) => match next {
            AfterCreated::Done => done(),
            AfterCreated::MoveWindow { follow, window } => fetching_after_create(
                name,
                follow,
                window,
            ),
        },
    }
}

/// Goes on once the compositor has answered to the creation of `name`.
pub fn created(
    name: String,
    context: &'static str,
    next: AfterCreated,
    reply: Reply,
) -> (r: Progress)
    ensures
        r@ == after_creation(name, context, next, reply),
{
    match expect_created(reply, name.as_str()) {
        Err(e) => Progress::fail_in(e, context),
        Ok(_) => match next {
            AfterCreated::Done => Progress::done(),
            AfterCreated::MoveWindow { follow, window } => fetch_after_create(name, follow, window),
        },
    }
}

} // verus!
