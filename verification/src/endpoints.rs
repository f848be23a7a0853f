//! The built-in commands and what each of them asks of the application.

use vstd::prelude::*;
use vstd::string::*;
use crate::acl::{allowed, authorize, Decision};
use crate::dispatch::{
    invalid_args_text, json_string_of, not_allowed_text, reject, rejection_for,
};
use crate::envelope::{decode_request, decoded};
use crate::event::{
    event_initialization_script, initialization_script_text, listen_script, listen_script_text,
    on_event, EventNames, Listeners,
};
use crate::permission::{perms_view, Permission, PermissionView};
use crate::rpc::{callback_script, settle, settled};
use crate::salt::{used_up, validate, validation_json, SaltRegistry};
use crate::text::str_eq;

verus! {

/// A built-in command, decoded from the message of the frontend.
#[derive(Debug, Clone, PartialEq, Eq)]
pub enum Cmd {
    /// Set up the event machinery of the page.
    Init,
    /// Read a file as text.
    ReadTextFile { path: String, callback: String, error: String },
    /// Read a file as bytes.
    ReadBinaryFile { path: String, callback: String, error: String },
    /// Write text to a file.
    WriteFile { file: String, contents: String, callback: String, error: String },
    /// List the files of a directory.
    ListFiles { path: String, callback: String, error: String },
    /// List the directories of a directory.
    ListDirs { path: String, callback: String, error: String },
    /// Set the title of the window.
    SetTitle { title: String },
    /// Run a program and hand back what it prints.
    Execute { command: String, args: Vec<String>, callback: String, error: String },
    /// Open a URI with the system's default program.
    Open { uri: String },
    /// Validate the salt of an emitted event.
    ValidateSalt { salt: String, callback: String, error: String },
    /// Register a frontend listener.
    Listen { event: String, handler: String, once: bool },
    /// Emit an event to the backend.
    Emit { event: String, payload: String },
    /// Load an asset of the application into the page.
    LoadAsset { asset: String, callback: String, error: String },
}

/// Work that only the application can do.
#[derive(Debug, Clone, PartialEq, Eq)]
pub enum Task {
    ReadTextFile { path: String },
    ReadBinaryFile { path: String },
    WriteFile { file: String, contents: String },
    ListFiles { path: String },
    ListDirs { path: String },
    Execute { command: String, args: Vec<String> },
    Open { uri: String },
    LoadAsset { asset: String },
}

/// What the application is to do for a command.
#[derive(Debug, Clone, PartialEq, Eq)]
pub enum Action {
    /// Nothing: nobody listens for the event.
    Nothing,
    /// Evaluate the script in the webview.
    Eval(String),
    /// Set the title of the window.
    SetTitle(String),
    /// Run the task on a worker and answer through one of the two
    /// callbacks, formatted with `format_callback_result`.
    Promise { task: Task, callback: String, error: String },
    /// Run the task on a worker; nobody waits for an answer.
    Spawn(Task),
    /// Call the backend listener kept under this number with the payload.
    CallListener { handler: usize, payload: String },
}

/// `true` and `false` as script text.
pub open spec fn flag_text(flag: bool) -> Seq<char> {
    if flag {
        "true"@
    } else {
        "false"@
    }
}

/// The name under which the frontend invokes a built-in command, and under
/// which permissions allow it.
pub open spec fn cmd_name(cmd: Cmd) -> Seq<char> {
    match cmd {
        Cmd::Init => "init"@,
        Cmd::ReadTextFile { .. } => "readTextFile"@,
        Cmd::ReadBinaryFile { .. } => "readBinaryFile"@,
        Cmd::WriteFile { .. } => "writeFile"@,
        Cmd::ListFiles { .. } => "listFiles"@,
        Cmd::ListDirs { .. } => "listDirs"@,
        Cmd::SetTitle { .. } => "setTitle"@,
        Cmd::Execute { .. } => "execute"@,
        Cmd::Open { .. } => "open"@,
        Cmd::ValidateSalt { .. } => "validateSalt"@,
        Cmd::Listen { .. } => "listen"@,
        Cmd::Emit { .. } => "emit"@,
        Cmd::LoadAsset { .. } => "loadAsset"@,
    }
}

/// The error callback that a built-in command carries, if it carries one.
pub open spec fn cmd_error(cmd: Cmd) -> Option<Seq<char>> {
    match cmd {
        Cmd::ReadTextFile { path, callback, error } => Some(error@),
        Cmd::ReadBinaryFile { path, callback, error } => Some(error@),
        Cmd::WriteFile { file, contents, callback, error } => Some(error@),
        Cmd::ListFiles { path, callback, error } => Some(error@),
        Cmd::ListDirs { path, callback, error } => Some(error@),
        Cmd::Execute { command, args, callback, error } => Some(error@),
        Cmd::ValidateSalt { salt, callback, error } => Some(error@),
        Cmd::LoadAsset { asset, callback, error } => Some(error@),
        _ => None,
    }
}

/// Whether the name is that of a built-in command.
pub open spec fn is_builtin(name: Seq<char>) -> bool {
    ||| name == "init"@
    ||| name == "readTextFile"@
    ||| name == "readBinaryFile"@
    ||| name == "writeFile"@
    ||| name == "listFiles"@
    ||| name == "listDirs"@
    ||| name == "setTitle"@
    ||| name == "execute"@
    ||| name == "open"@
    ||| name == "validateSalt"@
    ||| name == "listen"@
    ||| name == "emit"@
    ||| name == "loadAsset"@
}

impl Cmd {
    /// The name under which the frontend invokes the command.
    pub fn name(&self) -> (name: &'static str)
        ensures
            name@ == cmd_name(*self),
    {
        match self {
            Cmd::Init => "init",
            Cmd::ReadTextFile { .. } => "readTextFile",
            Cmd::ReadBinaryFile { .. } => "readBinaryFile",
            Cmd::WriteFile { .. } => "writeFile",
            Cmd::ListFiles { .. } => "listFiles",
            Cmd::ListDirs { .. } => "listDirs",
            Cmd::SetTitle { .. } => "setTitle",
            Cmd::Execute { .. } => "execute",
            Cmd::Open { .. } => "open",
            Cmd::ValidateSalt { .. } => "validateSalt",
            Cmd::Listen { .. } => "listen",
            Cmd::Emit { .. } => "emit",
            Cmd::LoadAsset { .. } => "loadAsset",
        }
    }

    /// The error callback that the command carries, if it carries one.
    pub fn error_callback(&self) -> (error: Option<&String>)
        ensures
            match error {
                Some(name) => cmd_error(*self) == Some(name@),
                None => cmd_error(*self) is None,
            },
    {
        match self {
            Cmd::ReadTextFile { path: _, callback: _, error } => Some(error),
            Cmd::ReadBinaryFile { path: _, callback: _, error } => Some(error),
            Cmd::WriteFile { file: _, contents: _, callback: _, error } => Some(error),
            Cmd::ListFiles { path: _, callback: _, error } => Some(error),
            Cmd::ListDirs { path: _, callback: _, error } => Some(error),
            Cmd::Execute { command: _, args: _, callback: _, error } => Some(error),
            Cmd::ValidateSalt { salt: _, callback: _, error } => Some(error),
            Cmd::LoadAsset { asset: _, callback: _, error } => Some(error),
            _ => None,
        }
    }
}

/// Whether the name is that of a built-in command.
pub fn names_builtin(name: &str) -> (b: bool)
    ensures
        b == is_builtin(name@),
{
    let files = str_eq(name, "readTextFile") || str_eq(name, "readBinaryFile") || str_eq(
        name,
        "writeFile",
    ) || str_eq(name, "listFiles") || str_eq(name, "listDirs") || str_eq(name, "loadAsset");
    let events = str_eq(name, "init") || str_eq(name, "validateSalt") || str_eq(name, "listen")
        || str_eq(name, "emit");
    let system = str_eq(name, "setTitle") || str_eq(name, "execute") || str_eq(name, "open");
    files || events || system
}

/// What a command that the permissions in force allow asks for. File,
/// process and asset commands become a task with the callbacks to answer
/// through; a salt is validated, and used up, on the spot.
pub open spec fn action_is(
    names: EventNames,
    salts: Seq<Seq<char>>,
    listeners: Map<Seq<char>, usize>,
    cmd: Cmd,
    action: Action,
) -> bool {
    match cmd {
        Cmd::Init => action matches Action::Eval(script) && script@ == initialization_script_text(
            names.queue_object@,
            names.emit_function@,
            names.listeners_object@,
        ),
        Cmd::ReadTextFile { path, callback, error } => action == (Action::Promise {
            task: Task::ReadTextFile { path },
            callback,
            error,
        }),
        Cmd::ReadBinaryFile { path, callback, error } => action == (Action::Promise {
            task: Task::ReadBinaryFile { path },
            callback,
            error,
        }),
        Cmd::WriteFile { file, contents, callback, error } => action == (Action::Promise {
            task: Task::WriteFile { file, contents },
            callback,
            error,
        }),
        Cmd::ListFiles { path, callback, error } => action == (Action::Promise {
            task: Task::ListFiles { path },
            callback,
            error,
        }),
        Cmd::ListDirs { path, callback, error } => action == (Action::Promise {
            task: Task::ListDirs { path },
            callback,
            error,
        }),
        Cmd::SetTitle { title } => action == Action::SetTitle(title),
        Cmd::Execute { command, args, callback, error } => action == (Action::Promise {
            task: Task::Execute { command, args },
            callback,
            error,
        }),
        Cmd::Open { uri } => action == Action::Spawn(Task::Open { uri }),
        Cmd::ValidateSalt { salt, callback, error } => action matches Action::Eval(script)
            && script@ == callback_script(callback@, validation_json(salts.contains(salt@))),
        Cmd::Listen { event, handler, once } => action matches Action::Eval(script) && script@
            == listen_script_text(
            names.listeners_object@,
            names.queue_object@,
            names.emit_function@,
            event@,
            handler@,
            flag_text(once),
        ),
        Cmd::Emit { event, payload } => if listeners.contains_key(event@) {
            action == (Action::CallListener { handler: listeners[event@], payload })
        } else {
            action == Action::Nothing
        },
        Cmd::LoadAsset { asset, callback, error } => action == (Action::Promise {
            task: Task::LoadAsset { asset },
            callback,
            error,
        }),
    }
}

/// The open salts after a command: a salt that is validated is used up,
/// and no other command touches them.
pub open spec fn salts_after(salts: Seq<Seq<char>>, cmd: Cmd) -> Seq<Seq<char>> {
    match cmd {
        Cmd::ValidateSalt { salt, callback, error } => used_up(salts, salt@),
        _ => salts,
    }
}

/// Whether the action rejects through the error callback with the script
/// for the message, or with the failure script where that one cannot be
/// formatted.
pub open spec fn rejects_with(action: Action, error: Seq<char>, message: Seq<char>) -> bool {
    action matches Action::Eval(script) && script@ == settled(
        rejection_for(error, json_string_of(message)),
        error,
    )
}

/// The action that rejects through the error callback with a message.
pub fn rejection(error: &str, message: &str) -> (action: Action)
    ensures
        rejects_with(action, error@, message@),
{
    Action::Eval(settle(reject(error, message), error))
}

/// Carries out a command that the permissions in force allow.
pub fn perform(names: &EventNames, salts: &mut SaltRegistry, listeners: &Listeners, command: Cmd) -> (action:
    Action)
    ensures
        action_is(*names, old(salts)@, listeners@, command, action),
        final(salts)@ == salts_after(old(salts)@, command),
{
    match command {
        Cmd::Init => Action::Eval(event_initialization_script(names)),
        Cmd::ReadTextFile { path, callback, error } => Action::Promise {
            task: Task::ReadTextFile { path },
            callback,
            error,
        },
        Cmd::ReadBinaryFile { path, callback, error } => Action::Promise {
            task: Task::ReadBinaryFile { path },
            callback,
            error,
        },
        Cmd::WriteFile { file, contents, callback, error } => Action::Promise {
            task: Task::WriteFile { file, contents },
            callback,
            error,
        },
        Cmd::ListFiles { path, callback, error } => Action::Promise {
            task: Task::ListFiles { path },
            callback,
            error,
        },
        Cmd::ListDirs { path, callback, error } => Action::Promise {
            task: Task::ListDirs { path },
            callback,
            error,
        },
        Cmd::SetTitle { title } => Action::SetTitle(title),
        Cmd::Execute { command, args, callback, error } => Action::Promise {
            task: Task::Execute { command, args },
            callback,
            error,
        },
        Cmd::Open { uri } => Action::Spawn(Task::Open { uri }),
        Cmd::ValidateSalt { salt, callback, error } => {
            let failed = error.clone();
            Action::Eval(settle(validate(salts, salt, callback, error), failed.as_str()))
        },
        Cmd::Listen { event, handler, once } => Action::Eval(
            listen_script(
                names.listeners_object.as_str(),
                names.queue_object.as_str(),
                names.emit_function.as_str(),
                event.as_str(),
                handler.as_str(),
                if once {
                    "true"
                } else {
                    "false"
                },
            ),
        ),
        Cmd::Emit { event, payload } => match on_event(listeners, event, payload) {
            Some((handler, payload)) => Action::CallListener { handler, payload },
            None => Action::Nothing,
        },
        Cmd::LoadAsset { asset, callback, error } => Action::Promise {
            task: Task::LoadAsset { asset },
            callback,
            error,
        },
    }
}

/// What becomes of a message that does not fit any built-in command, for
/// the reason `detail`: where it names a built-in command and carries the
/// two callbacks, one rejection through its error callback, as not allowed
/// where the permissions in force do not allow the command and for its
/// arguments where they do; `None`, not handled, for any other message.
pub open spec fn misfit_is(
    effective: Seq<PermissionView>,
    message: Seq<char>,
    detail: Seq<char>,
    r: Option<Action>,
) -> bool {
    match decoded(message) {
        Some(request) => if !is_builtin(request.cmd) {
            r is None
        } else if !allowed(effective, request.cmd) {
            r is Some && rejects_with(r->0, request.error, not_allowed_text(request.cmd))
        } else {
            r is Some && rejects_with(
                r->0,
                request.error,
                invalid_args_text(request.cmd, detail),
            )
        },
        None => r is None,
    }
}

/// Answers a message that does not fit any built-in command.
pub fn misfit(effective: &Vec<Permission>, message: &str, detail: &str) -> (r: Option<Action>)
    ensures
        misfit_is(perms_view(effective@), message@, detail@, r),
{
    match decode_request(message) {
        None => None,
        Some(request) => {
            if !names_builtin(request.cmd.as_str()) {
                None
            } else {
                match authorize(effective, request.cmd.as_str()) {
                    Decision::Deny => {
                        let mut text = request.cmd.clone();
                        text.append(" not allowed");
                        Some(rejection(request.error.as_str(), text.as_str()))
                    },
                    Decision::Allow(_) => {
                        let mut text = String::from_str("invalid args for command `");
                        text.append(request.cmd.as_str());
                        text.append("`: ");
                        text.append(detail);
                        Some(rejection(request.error.as_str(), text.as_str()))
                    },
                }
            }
        },
    }
}

/// Decides what a message asks for, given what the application's decoder
/// made of it: a built-in command, or the reason why it is none.
///
/// A command that the permissions in force do not allow is never carried
/// out: it is rejected as not allowed through its error callback, and
/// nothing happens where it carries none. An allowed command is carried out
/// as [`perform`] says. A message that names a built-in command but does
/// not fit it is rejected through its error callback; any other message is
/// not handled and gets `None`.
pub fn handler(
    names: &EventNames,
    salts: &mut SaltRegistry,
    listeners: &Listeners,
    effective: &Vec<Permission>,
    message: &str,
    command: Result<Cmd, String>,
) -> (r: Option<Action>)
    ensures
        match command {
            Err(detail) => misfit_is(perms_view(effective@), message@, detail@, r) && final(salts)@
                == old(salts)@,
            Ok(cmd) => if allowed(perms_view(effective@), cmd_name(cmd)) {
                &&& r is Some
                &&& action_is(*names, old(salts)@, listeners@, cmd, r->0)
                &&& final(salts)@ == salts_after(old(salts)@, cmd)
            } else {
                &&& final(salts)@ == old(salts)@
                &&& match cmd_error(cmd) {
                    Some(error) => r is Some && rejects_with(
                        r->0,
                        error,
                        not_allowed_text(cmd_name(cmd)),
                    ),
                    None => r == Some(Action::Nothing),
                }
            },
        },
{
    match command {
        Err(detail) => misfit(effective, message, detail.as_str()),
        Ok(cmd) => match authorize(effective, cmd.name()) {
            Decision::Allow(_) => Some(perform(names, salts, listeners, cmd)),
            Decision::Deny => match cmd.error_callback() {
                Some(error) => {
                    let mut text = String::from_str(cmd.name());
                    text.append(" not allowed");
                    Some(rejection(error.as_str(), text.as_str()))
                },
                None => Some(Action::Nothing),
            },
        },
    }
}

} // verus!
