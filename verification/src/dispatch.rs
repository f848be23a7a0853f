//! Decides what becomes of an invoked command: whether it may run, which
//! handler runs it, and which script answers it.

use vstd::prelude::*;
use vstd::string::*;
use crate::acl::{allowed, authorize, granted_scope, Decision};
use crate::command::{camel_case, snake_case_to_camel_case};
use crate::error::Error;
use crate::permission::{perms_view, Permission};
use crate::rpc::{
    byte_len, callback_argument, callback_script, format_callback, settle, settled,
    MAX_JSON_STR_LEN,
};
use crate::scope::Scopes;
use crate::text::{str_eq, strs};

verus! {

/// The JSON string literal that `serde_json::to_string` writes for a text,
/// or `None` where it reports an error.
pub uninterp spec fn json_string_of(text: Seq<char>) -> Option<Seq<char>>;

/// Writes a text as a JSON string literal with `serde_json::to_string`. The
/// literal depends on the text alone; `None` stands for an error of the
/// serializer.
#[verifier::external_body]
fn json_string(text: &str) -> (r: Option<String>)
    ensures
        match r {
            Some(json) => json_string_of(text@) == Some(json@),
            None => json_string_of(text@) is None,
        },
{
    match serde_json::to_string(text) {
        Ok(json) => Some(json),
        Err(_) => None,
    }
}

/// Whether a function returned the script, or the error, that the model
/// asks for.
pub open spec fn script_is(r: Result<String, Error>, expected: Result<Seq<char>, Error>) -> bool {
    match expected {
        Ok(script) => r is Ok && r->Ok_0@ == script,
        Err(e) => r is Err && r->Err_0 == e,
    }
}

/// The callback script for a JSON text, or the error for one too long.
pub open spec fn callback_for(name: Seq<char>, json: Seq<char>) -> Result<Seq<char>, Error> {
    if byte_len(json) < MAX_JSON_STR_LEN {
        Ok(callback_script(name, callback_argument(json)))
    } else {
        Err(Error::PayloadTooLarge)
    }
}

/// The script that rejects a request with a message already written as
/// JSON, or the error where the message could not be written.
pub open spec fn rejection_for(error_callback: Seq<char>, message_json: Option<Seq<char>>) -> Result<
    Seq<char>,
    Error,
> {
    match message_json {
        None => Err(Error::Json),
        Some(json) => callback_for(error_callback, json),
    }
}

/// Formats a rejection from a message that is already written as JSON.
pub fn reject_with(error_callback: &str, message_json: Option<String>) -> (r: Result<String, Error>)
    ensures
        script_is(
            r,
            rejection_for(
                error_callback@,
                match message_json {
                    Some(j) => Some(j@),
                    None => None,
                },
            ),
        ),
{
    match message_json {
        None => Err(Error::Json),
        Some(json) => format_callback(error_callback, json.as_str()),
    }
}

/// Formats the script that rejects a request with a plain message.
pub fn reject(error_callback: &str, message: &str) -> (r: Result<String, Error>)
    ensures
        script_is(r, rejection_for(error_callback@, json_string_of(message@))),
{
    reject_with(error_callback, json_string(message))
}

/// The message for a command that the window may not run.
pub open spec fn not_allowed_text(command: Seq<char>) -> Seq<char> {
    command + " not allowed"@
}

/// The message for a command that nobody registered.
pub open spec fn not_found_text(command: Seq<char>) -> Seq<char> {
    command + " not found"@
}

/// The message for a payload that does not fit the command.
pub open spec fn invalid_args_text(command: Seq<char>, detail: Seq<char>) -> Seq<char> {
    "invalid args for command `"@ + command + "`: "@ + detail
}

/// How a handler runs.
#[derive(Debug, Clone, Copy, PartialEq, Eq, Structural)]
pub enum HandlerKind {
    /// It produces its result at once.
    Blocking,
    /// It returns a deferred outcome and runs on a worker.
    Async,
}

/// A registered command.
#[derive(Debug, Clone, PartialEq, Eq)]
pub struct CommandEntry {
    /// The name under which the frontend invokes it.
    pub name: String,
    /// How its handler runs.
    pub kind: HandlerKind,
    /// The names of the handler's parameters, in snake case.
    pub params: Vec<String>,
}

/// The commands of an application, by name. A later registration under a
/// name replaces an earlier one.
#[derive(Debug, Clone, PartialEq, Eq)]
pub struct CommandRegistry {
    /// The registrations, oldest first.
    pub entries: Vec<CommandEntry>,
}

/// The position of the registration in force for `name`: the last one
/// under that name.
pub open spec fn find_command(entries: Seq<CommandEntry>, name: Seq<char>) -> Option<int>
    decreases entries.len(),
{
    if entries.len() == 0 {
        None
    } else if entries.last().name@ == name {
        Some(entries.len() - 1)
    } else {
        find_command(entries.drop_last(), name)
    }
}

impl CommandRegistry {
    /// A registry without any command.
    pub fn new() -> (r: CommandRegistry)
        ensures
            r.entries@.len() == 0,
    {
        CommandRegistry { entries: Vec::new() }
    }

    /// Registers a command; it replaces any earlier one of the same name.
    pub fn register(&mut self, name: String, kind: HandlerKind, params: Vec<String>)
        ensures
            final(self).entries@ == old(self).entries@.push(CommandEntry { name, kind, params }),
            find_command(final(self).entries@, name@) == Some(old(self).entries@.len() as int),
    {
        self.entries.push(CommandEntry { name, kind, params });
    }

    /// The position of the registration in force for `name`.
    pub fn find(&self, name: &str) -> (r: Option<usize>)
        ensures
            match r {
                Some(i) => find_command(self.entries@, name@) == Some(i as int) && i
                    < self.entries@.len(),
                None => find_command(self.entries@, name@) is None,
            },
    {
        let mut i: usize = self.entries.len();
        assert(self.entries@.subrange(0, i as int) =~= self.entries@);
        while i > 0
            invariant
                i <= self.entries@.len(),
                find_command(self.entries@, name@) == find_command(
                    self.entries@.subrange(0, i as int),
                    name@,
                ),
            decreases i,
        {
            let ghost prefix = self.entries@.subrange(0, i as int);
            assert(prefix.last() == self.entries@[i - 1]);
            assert(prefix.drop_last() =~= self.entries@.subrange(0, i - 1));
            i -= 1;
            if str_eq(self.entries[i].name.as_str(), name) {
                return Some(i);
            }
        }
        None
    }
}

/// The keys under which the frontend sends the arguments of a handler: the
/// camel-case form of each parameter name.
pub open spec fn argument_keys(params: Seq<Seq<char>>) -> Seq<Seq<char>> {
    params.map_values(|p: Seq<char>| camel_case(p))
}

/// The keys to read from the payload for a handler with these parameters.
pub fn keys_for(params: &Vec<String>) -> (keys: Vec<String>)
    ensures
        strs(keys@) == argument_keys(strs(params@)),
{
    let mut keys: Vec<String> = Vec::new();
    let mut i: usize = 0;
    while i < params.len()
        invariant
            i <= params.len(),
            keys@.len() == i,
            forall|j: int| 0 <= j < i ==> keys@[j]@ == camel_case(#[trigger] params@[j]@),
        decreases params.len() - i,
    {
        keys.push(snake_case_to_camel_case(params[i].clone()));
        i += 1;
    }
    assert(strs(keys@) =~= argument_keys(strs(params@)));
    keys
}

/// A command as it arrives from the frontend, without its arguments.
#[derive(Debug, Clone, PartialEq, Eq)]
pub struct InvokeRequest {
    /// The name of the command.
    pub cmd: String,
    /// The global function that receives the result.
    pub callback: String,
    /// The global function that receives the error.
    pub error: String,
    /// Whether the frontend asked for the main thread.
    pub main_thread: bool,
}

/// The mathematical value of an [`InvokeRequest`].
pub struct InvokeRequestView {
    pub cmd: Seq<char>,
    pub callback: Seq<char>,
    pub error: Seq<char>,
    pub main_thread: bool,
}

impl View for InvokeRequest {
    type V = InvokeRequestView;

    open spec fn view(&self) -> InvokeRequestView {
        InvokeRequestView {
            cmd: self.cmd@,
            callback: self.callback@,
            error: self.error@,
            main_thread: self.main_thread,
        }
    }
}

/// What to do with a request.
#[derive(Debug, Clone, PartialEq, Eq)]
pub enum Step {
    /// Evaluate this script, which rejects the request; no handler runs.
    Reject(String),
    /// Run the handler, within the scope, on the arguments found under the
    /// keys; then answer with [`respond`].
    Run { handler: usize, kind: HandlerKind, scope: Scopes, keys: Vec<String> },
}

/// Routes a request: a command that the permissions in force do not allow is
/// rejected as not allowed, one that nobody registered as not found, and
/// any other goes to its handler.
pub fn dispatch(registry: &CommandRegistry, effective: &Vec<Permission>, request: &InvokeRequest) -> (r:
    Result<Step, Error>)
    ensures
        !allowed(perms_view(effective@), request.cmd@) ==> step_rejects(
            r,
            rejection_for(request.error@, json_string_of(not_allowed_text(request.cmd@))),
        ),
        allowed(perms_view(effective@), request.cmd@) && find_command(
            registry.entries@,
            request.cmd@,
        ) is None ==> step_rejects(
            r,
            rejection_for(request.error@, json_string_of(not_found_text(request.cmd@))),
        ),
        allowed(perms_view(effective@), request.cmd@) && find_command(
            registry.entries@,
            request.cmd@,
        ) is Some ==> (r matches Ok(Step::Run { handler, kind, scope, keys }) && find_command(
            registry.entries@,
            request.cmd@,
        ) == Some(handler as int) && kind == registry.entries@[handler as int].kind && scope@
            == granted_scope(perms_view(effective@), request.cmd@) && strs(keys@)
            == argument_keys(strs(registry.entries@[handler as int].params@))),
{
    match authorize(effective, request.cmd.as_str()) {
        Decision::Deny => {
            let mut message = request.cmd.clone();
            message.append(" not allowed");
            match reject(request.error.as_str(), message.as_str()) {
                Ok(script) => Ok(Step::Reject(script)),
                Err(e) => Err(e),
            }
        },
        Decision::Allow(scope) => match registry.find(request.cmd.as_str()) {
            None => {
                let mut message = request.cmd.clone();
                message.append(" not found");
                match reject(request.error.as_str(), message.as_str()) {
                    Ok(script) => Ok(Step::Reject(script)),
                    Err(e) => Err(e),
                }
            },
            Some(i) => {
                let entry = &registry.entries[i];
                Ok(Step::Run { handler: i, kind: entry.kind, scope, keys: keys_for(&entry.params) })
            },
        },
    }
}

/// Whether a step rejects with the script, or fails with the error, that
/// the model asks for.
pub open spec fn step_rejects(r: Result<Step, Error>, expected: Result<Seq<char>, Error>) -> bool {
    match expected {
        Ok(script) => r matches Ok(Step::Reject(s)) && s@ == script,
        Err(e) => r is Err && r->Err_0 == e,
    }
}

/// How a handler ended.
#[derive(Debug, Clone, PartialEq, Eq)]
pub enum Outcome {
    /// It returned this value, written as JSON.
    Resolved(String),
    /// It signalled this error, written as JSON.
    Rejected(String),
    /// It never ran: the payload did not fit its arguments, for this reason.
    InvalidArgs(String),
}

/// The script that answers a request, or the error in its place.
pub open spec fn response_for(request: InvokeRequest, outcome: Outcome) -> Result<Seq<char>, Error> {
    match outcome {
        Outcome::Resolved(json) => callback_for(request.callback@, json@),
        Outcome::Rejected(json) => callback_for(request.error@, json@),
        Outcome::InvalidArgs(detail) => rejection_for(
            request.error@,
            json_string_of(invalid_args_text(request.cmd@, detail@)),
        ),
    }
}

/// Formats the one script that answers a request: the success callback for
/// a result, the error callback for an error of the handler or for
/// arguments that did not fit.
pub fn respond(request: &InvokeRequest, outcome: &Outcome) -> (r: Result<String, Error>)
    ensures
        script_is(r, response_for(*request, *outcome)),
{
    match outcome {
        Outcome::Resolved(json) => format_callback(request.callback.as_str(), json.as_str()),
        Outcome::Rejected(json) => format_callback(request.error.as_str(), json.as_str()),
        Outcome::InvalidArgs(detail) => {
            let mut message = String::from_str("invalid args for command `");
            message.append(request.cmd.as_str());
            message.append("`: ");
            message.append(detail.as_str());
            reject(request.error.as_str(), message.as_str())
        },
    }
}

/// Formats the one script that answers a request as [`respond`] does, and
/// answers through the error callback where that script cannot be
/// formatted, so that one script goes out whatever the outcome is.
pub fn answer(request: &InvokeRequest, outcome: &Outcome) -> (script: String)
    ensures
        script@ == settled(response_for(*request, *outcome), request.error@),
{
    settle(respond(request, outcome), request.error.as_str())
}

} // verus!
