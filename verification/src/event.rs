//! Events from the backend to the frontend: the names under which the
//! frontend keeps its event machinery, the scripts that drive it, and the
//! backend's own listeners.

use vstd::prelude::*;
use vstd::string::*;
use crate::salt::SaltRegistry;
use crate::text::str_eq;

verus! {

/// Whether the character is a lower-case hexadecimal digit: one of `0` to
/// `9` or of `a` to `f`. The text form of a UUID is made of such digits
/// and of hyphens.
pub open spec fn is_lower_hex(c: char) -> bool {
    ||| '0' <= c && c <= '9'
    ||| 'a' <= c && c <= 'f'
}

/// The names of the global objects through which events reach the frontend.
#[derive(Debug, Clone, PartialEq, Eq)]
pub struct EventNames {
    /// Name of the function that the backend calls to emit an event.
    pub emit_function: String,
    /// Name of the object that holds the frontend listeners.
    pub listeners_object: String,
    /// Name of the queue of events emitted before anyone listened.
    pub queue_object: String,
}

impl EventNames {
    /// The given names.
    pub fn new(emit_function: String, listeners_object: String, queue_object: String) -> (names:
        EventNames)
        ensures
            names.emit_function == emit_function,
            names.listeners_object == listeners_object,
            names.queue_object == queue_object,
    {
        EventNames { emit_function, listeners_object, queue_object }
    }

    /// Three fresh random names, so that no page content can guess them.
    pub fn random() -> (names: EventNames)
        ensures
            is_uuid_text(names.emit_function@),
            is_uuid_text(names.listeners_object@),
            is_uuid_text(names.queue_object@),
    {
        EventNames::new(fresh_token(), fresh_token(), fresh_token())
    }
}

/// The name of the function that the backend calls to emit an event.
pub fn emit_function_name(names: &EventNames) -> (name: String)
    ensures
        name@ == names.emit_function@,
{
    names.emit_function.clone()
}

/// The name of the object that holds the frontend listeners.
pub fn event_listeners_object_name(names: &EventNames) -> (name: String)
    ensures
        name@ == names.listeners_object@,
{
    names.listeners_object.clone()
}

/// The name of the queue of events emitted before anyone listened.
pub fn event_queue_object_name(names: &EventNames) -> (name: String)
    ensures
        name@ == names.queue_object@,
{
    names.queue_object.clone()
}

/// The script that sets up the event queue and the function through which
/// the backend emits events.
pub open spec fn initialization_script_text(
    queue: Seq<char>,
    emit_name: Seq<char>,
    listeners: Seq<char>,
) -> Seq<char> {
    "\n      window['"@
        + queue
        + "'] = [];\n      window['"@
        + emit_name
        + "'] = function (payload, salt, ignoreQueue) {\n      const listeners = (window['"@
        + listeners
        + "'] && window['"@
        + listeners
        + "'][payload.type]) || []\n      if (!ignoreQueue && listeners.length === 0) {\n        window['"@
        + queue
        + "'].push({\n          payload: payload,\n          salt: salt\n        })\n      }\n\n      if (listeners.length > 0) {\n        window.__TAURI__.invoke({\n          __tauriModule: 'Internal',\n          message: {\n            cmd: 'validateSalt',\n            salt: salt\n          }\n        }).then(function (flag) {\n          if (flag) {\n            for (let i = listeners.length - 1; i >= 0; i--) {\n              const listener = listeners[i]\n              if (listener.once)\n                listeners.splice(i, 1)\n              listener.handler(payload)\n            }\n          }\n        })\n      }\n    }\n    "@
}

/// Builds the script that sets up the event queue and the emit function
/// under the given names.
pub fn initialization_script(queue: &str, emit_name: &str, listeners: &str) -> (script: String)
    ensures
        script@ == initialization_script_text(queue@, emit_name@, listeners@),
{
    let mut script = String::from_str("\n      window['");
    script.append(queue);
    script.append("'] = [];\n      window['");
    script.append(emit_name);
    script.append("'] = function (payload, salt, ignoreQueue) {\n      const listeners = (window['");
    script.append(listeners);
    script.append("'] && window['");
    script.append(listeners);
    script.append("'][payload.type]) || []\n      if (!ignoreQueue && listeners.length === 0) {\n        window['");
    script.append(queue);
    script.append("'].push({\n          payload: payload,\n          salt: salt\n        })\n      }\n\n      if (listeners.length > 0) {\n        window.__TAURI__.invoke({\n          __tauriModule: 'Internal',\n          message: {\n            cmd: 'validateSalt',\n            salt: salt\n          }\n        }).then(function (flag) {\n          if (flag) {\n            for (let i = listeners.length - 1; i >= 0; i--) {\n              const listener = listeners[i]\n              if (listener.once)\n                listeners.splice(i, 1)\n              listener.handler(payload)\n            }\n          }\n        })\n      }\n    }\n    ");
    script
}

/// The script that registers a frontend listener for an event and replays
/// what is queued.
pub open spec fn listen_script_text(
    listeners: Seq<char>,
    queue: Seq<char>,
    emit_name: Seq<char>,
    event: Seq<char>,
    handler: Seq<char>,
    once_flag: Seq<char>,
) -> Seq<char> {
    "\n                if (window['"@
        + listeners
        + "'] === void 0) {\n                  window['"@
        + listeners
        + "'] = {}\n                 }\n                if (window['"@
        + listeners
        + "']['"@
        + event
        + "'] === void 0) {\n                  window['"@
        + listeners
        + "']['"@
        + event
        + "'] = []\n                }\n                window['"@
        + listeners
        + "']['"@
        + event
        + "'].push({\n                  handler: window['"@
        + handler
        + "'],\n                  once: "@
        + once_flag
        + "\n                });\n\n                for (let i = 0; i < (window['"@
        + queue
        + "'] || []).length; i++) {\n                  const e = window['"@
        + queue
        + "'][i];\n                  window['"@
        + emit_name
        + "'](e.payload, e.salt, true)\n                }\n              "@
}

/// Builds the script that registers the global function `handler` as a
/// listener for `event`.
pub fn listen_script(
    listeners: &str,
    queue: &str,
    emit_name: &str,
    event: &str,
    handler: &str,
    once_flag: &str,
) -> (script: String)
    ensures
        script@ == listen_script_text(listeners@, queue@, emit_name@, event@, handler@, once_flag@),
{
    let mut script = String::from_str("\n                if (window['");
    script.append(listeners);
    script.append("'] === void 0) {\n                  window['");
    script.append(listeners);
    script.append("'] = {}\n                 }\n                if (window['");
    script.append(listeners);
    script.append("']['");
    script.append(event);
    script.append("'] === void 0) {\n                  window['");
    script.append(listeners);
    script.append("']['");
    script.append(event);
    script.append("'] = []\n                }\n                window['");
    script.append(listeners);
    script.append("']['");
    script.append(event);
    script.append("'].push({\n                  handler: window['");
    script.append(handler);
    script.append("'],\n                  once: ");
    script.append(once_flag);
    script.append("\n                });\n\n                for (let i = 0; i < (window['");
    script.append(queue);
    script.append("'] || []).length; i++) {\n                  const e = window['");
    script.append(queue);
    script.append("'][i];\n                  window['");
    script.append(emit_name);
    script.append("'](e.payload, e.salt, true)\n                }\n              ");
    script
}

/// The script that hands an event with its payload and salt to the emit
/// function.
pub open spec fn emit_script_text(
    emit_name: Seq<char>,
    event: Seq<char>,
    payload: Seq<char>,
    salt: Seq<char>,
) -> Seq<char> {
    "window['"@
        + emit_name
        + "']({type: '"@
        + event
        + "', payload: "@
        + payload
        + "}, '"@
        + salt
        + "')"@
}

/// Builds the script that hands an event to the emit function of the frontend.
pub fn emit_script(emit_name: &str, event: &str, payload: &str, salt: &str) -> (script: String)
    ensures
        script@ == emit_script_text(emit_name@, event@, payload@, salt@),
{
    let mut script = String::from_str("window['");
    script.append(emit_name);
    script.append("']({type: '");
    script.append(event);
    script.append("', payload: ");
    script.append(payload);
    script.append("}, '");
    script.append(salt);
    script.append("')");
    script
}

/// The script that an application evaluates once in every webview before
/// any event is emitted.
pub fn event_initialization_script(names: &EventNames) -> (script: String)
    ensures
        script@ == initialization_script_text(
            names.queue_object@,
            names.emit_function@,
            names.listeners_object@,
        ),
{
    initialization_script(
        names.queue_object.as_str(),
        names.emit_function.as_str(),
        names.listeners_object.as_str(),
    )
}

/// The payload as it stands in the emit script: `void 0` for an empty one.
pub open spec fn payload_text(payload: Seq<char>) -> Seq<char> {
    if payload.len() == 0 {
        "void 0"@
    } else {
        payload
    }
}

/// Emits an event to the frontend: draws a fresh salt, remembers it, and
/// returns the script to evaluate, which carries the event, its payload and
/// the salt. The frontend has to have the salt validated before its
/// listeners get the payload.
pub fn emit(
    names: &EventNames,
    salts: &mut SaltRegistry,
    event: String,
    payload: String,
) -> (script:
    String)
    ensures
        final(salts)@.len() == old(salts)@.len() + 1,
        final(salts)@.drop_last() == old(salts)@,
        is_uuid_text(final(salts)@.last()),
        script@ == emit_script_text(
            names.emit_function@,
            event@,
            payload_text(payload@),
            final(salts)@.last(),
        ),
{
    let salt = salts.generate();
    let shown = if payload.as_str().is_empty() {
        "void 0"
    } else {
        payload.as_str()
    };
    emit_script(names.emit_function.as_str(), event.as_str(), shown, salt.as_str())
}

/// A backend listener: the event it waits for and the handler to call.
#[derive(Debug, Clone, PartialEq, Eq)]
pub struct Listener {
    /// The event.
    pub event: String,
    /// The number under which the application keeps the handler.
    pub handler: usize,
}

/// The backend listeners, by event. An event has at most one handler: a
/// later registration replaces an earlier one.
#[derive(Debug, Clone, PartialEq, Eq)]
pub struct Listeners {
    /// The registrations, oldest first.
    pub entries: Vec<Listener>,
}

/// The handler of each event after the registrations, oldest first.
pub open spec fn handlers_of(entries: Seq<Listener>) -> Map<Seq<char>, usize>
    decreases entries.len(),
{
    if entries.len() == 0 {
        Map::empty()
    } else {
        handlers_of(entries.drop_last()).insert(entries.last().event@, entries.last().handler)
    }
}

impl View for Listeners {
    type V = Map<Seq<char>, usize>;

    open spec fn view(&self) -> Map<Seq<char>, usize> {
        handlers_of(self.entries@)
    }
}

impl Listeners {
    /// No listener at all.
    pub fn new() -> (r: Listeners)
        ensures
            r@ == Map::<Seq<char>, usize>::empty(),
    {
        Listeners { entries: Vec::new() }
    }
}

/// Registers `handler` for the event `id`, in place of any earlier handler
/// of that event.
pub fn listen(listeners: &mut Listeners, id: String, handler: usize)
    ensures
        final(listeners)@ == old(listeners)@.insert(id@, handler),
{
    let ghost before = listeners.entries@;
    listeners.entries.push(Listener { event: id, handler });
    assert(listeners.entries@.drop_last() =~= before);
}

/// Finds who is to hear of an event: the handler registered for it together
/// with the data to hand over, or `None` where nobody listens.
pub fn on_event(listeners: &Listeners, event: String, data: String) -> (r: Option<(usize, String)>)
    ensures
        match r {
            Some((handler, payload)) => listeners@.contains_key(event@) && handler
                == listeners@[event@] && payload == data,
            None => !listeners@.contains_key(event@),
        },
{
    let mut i: usize = listeners.entries.len();
    assert(listeners.entries@.subrange(0, i as int) =~= listeners.entries@);
    while i > 0
        invariant
            i <= listeners.entries@.len(),
            listeners@.contains_key(event@) == handlers_of(
                listeners.entries@.subrange(0, i as int),
            ).contains_key(event@),
            listeners@.contains_key(event@) ==> listeners@[event@] == handlers_of(
                listeners.entries@.subrange(0, i as int),
            )[event@],
        decreases i,
    {
        let ghost prefix = listeners.entries@.subrange(0, i as int);
        assert(prefix.last() == listeners.entries@[i - 1]);
        assert(prefix.drop_last() =~= listeners.entries@.subrange(0, i - 1));
        i -= 1;
        if str_eq(listeners.entries[i].event.as_str(), event.as_str()) {
            return Some((listeners.entries[i].handler, data));
        }
    }
    None
}

/// Whether the text has the form in which a UUID is written: 36
/// characters, a hyphen at each of the places 8, 13, 18 and 23, and a
/// lower-case hexadecimal digit at every other place.
pub open spec fn is_uuid_text(s: Seq<char>) -> bool {
    &&& s.len() == 36
    &&& forall|i: int|
        0 <= i < 36 ==> if i == 8 || i == 13 || i == 18 || i == 23 {
            s[i] == '-'
        } else {
            is_lower_hex(#[trigger] s[i])
        }
}

/// A fresh random identifier: `uuid::Uuid::new_v4` written out with
/// `to_string`, which gives the hyphenated lower-case form whatever the
/// random digits are. Nothing is claimed of the digits themselves. The call
/// panics where the system cannot supply random bytes.
#[verifier::external_body]
pub(crate) fn fresh_token() -> (token: String)
    ensures
        is_uuid_text(token@),
{
    uuid::Uuid::new_v4().to_string()
}

} // verus!
