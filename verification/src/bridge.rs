//! The way of a message through the bridge: decoded, authorized, routed, and
//! checked for its arguments.

use vstd::prelude::*;
use vstd::string::*;
use crate::acl::{allowed, granted_scope};
use crate::dispatch::{
    argument_keys, dispatch, find_command, invalid_args_text, json_string_of, not_allowed_text,
    not_found_text, rejection_for, respond, step_rejects, CommandRegistry, InvokeRequest,
    InvokeRequestView, Outcome, Step,
};
use crate::envelope::{decode_request, decoded, missing_argument, missing_in};
use crate::error::Error;
use crate::permission::{perms_view, Permission, PermissionView};
use crate::text::strs;

verus! {

/// A decoded request and what is to be done with it.
#[derive(Debug, Clone, PartialEq, Eq)]
pub struct Received {
    /// The request, with the callbacks to answer through.
    pub request: InvokeRequest,
    /// What to do with it.
    pub step: Step,
}

/// What is said of an argument that the payload lacks.
pub open spec fn missing_field_text(key: Seq<char>) -> Seq<char> {
    "missing field `"@ + key + "`"@
}

/// Turns a step that would run a handler into a rejection where the payload
/// lacks an argument; the handler is then never run. Any other step stays.
pub fn reject_missing(request: &InvokeRequest, step: Step, missing: Option<String>) -> (r: Result<
    Step,
    Error,
>)
    ensures
        step is Run && missing is Some ==> step_rejects(
            r,
            rejection_for(
                request.error@,
                json_string_of(invalid_args_text(request.cmd@, missing_field_text(missing->0@))),
            ),
        ),
        !(step is Run && missing is Some) ==> r == Ok::<Step, Error>(step),
{
    match step {
        Step::Run { handler, kind, scope, keys } => match missing {
            Some(key) => {
                let mut detail = String::from_str("missing field `");
                detail.append(key.as_str());
                detail.append("`");
                match respond(request, &Outcome::InvalidArgs(detail)) {
                    Ok(script) => Ok(Step::Reject(script)),
                    Err(e) => Err(e),
                }
            },
            None => Ok(Step::Run { handler, kind, scope, keys }),
        },
        Step::Reject(script) => Ok(Step::Reject(script)),
    }
}

/// Where a request is to go.
pub enum Route {
    /// It is rejected by this script; where the script cannot be formatted,
    /// with this error in its place.
    Reject(Result<Seq<char>, Error>),
    /// It goes to the handler registered at this position.
    Run(int),
}

/// Where a request goes: to the rejection as not allowed where the
/// permissions in force do not allow its command, to the rejection as not
/// found where nobody registered the command, to the rejection for the
/// first argument of the handler that the message lacks, and to the handler
/// where it lacks none.
pub open spec fn route(
    registry: CommandRegistry,
    effective: Seq<PermissionView>,
    request: InvokeRequestView,
    message: Seq<char>,
) -> Route {
    if !allowed(effective, request.cmd) {
        Route::Reject(rejection_for(request.error, json_string_of(not_allowed_text(request.cmd))))
    } else if find_command(registry.entries@, request.cmd) is None {
        Route::Reject(rejection_for(request.error, json_string_of(not_found_text(request.cmd))))
    } else {
        let handler = find_command(registry.entries@, request.cmd)->0;
        match missing_in(message, argument_keys(strs(registry.entries@[handler].params@))) {
            Some(key) => Route::Reject(
                rejection_for(
                    request.error,
                    json_string_of(invalid_args_text(request.cmd, missing_field_text(key))),
                ),
            ),
            None => Route::Run(handler),
        }
    }
}

/// Whether what came back is what the route asks for.
pub open spec fn follows(
    r: Result<Option<Received>, Error>,
    registry: CommandRegistry,
    effective: Seq<PermissionView>,
    request: InvokeRequestView,
    way: Route,
) -> bool {
    match way {
        Route::Reject(Err(e)) => r == Err::<Option<Received>, Error>(e),
        Route::Reject(Ok(script)) => {
            &&& r is Ok
            &&& r->Ok_0 is Some
            &&& r->Ok_0->0.request@ == request
            &&& r->Ok_0->0.step is Reject
            &&& r->Ok_0->0.step->Reject_0@ == script
        },
        Route::Run(handler) => {
            &&& r is Ok
            &&& r->Ok_0 is Some
            &&& r->Ok_0->0.request@ == request
            &&& r->Ok_0->0.step is Run
            &&& r->Ok_0->0.step->handler == handler
            &&& r->Ok_0->0.step->kind == registry.entries@[handler].kind
            &&& r->Ok_0->0.step->scope@ == granted_scope(effective, request.cmd)
            &&& strs(r->Ok_0->0.step->keys@) == argument_keys(
                strs(registry.entries@[handler].params@),
            )
        },
    }
}

/// Takes a message of the frontend through the bridge. `Ok(None)` for a
/// message that is no request. A handler is to run only for a command that
/// the permissions in force allow and that is registered, and only where
/// the message holds every argument of the handler; every other request is
/// answered by a rejection script.
pub fn receive(registry: &CommandRegistry, effective: &Vec<Permission>, message: &str) -> (r: Result<
    Option<Received>,
    Error,
>)
    ensures
        match decoded(message@) {
            None => r == Ok::<Option<Received>, Error>(None),
            Some(request) => follows(
                r,
                *registry,
                perms_view(effective@),
                request,
                route(*registry, perms_view(effective@), request, message@),
            ),
        },
{
    match decode_request(message) {
        None => Ok(None),
        Some(request) => match dispatch(registry, effective, &request) {
            Err(e) => Err(e),
            Ok(step) => {
                let missing = match &step {
                    Step::Run { handler: _, kind: _, scope: _, keys } => missing_argument(
                        message,
                        keys,
                    ),
                    Step::Reject(_) => None,
                };
                match reject_missing(&request, step, missing) {
                    Err(e) => Err(e),
                    Ok(step) => Ok(Some(Received { request, step })),
                }
            },
        },
    }
}

} // verus!
