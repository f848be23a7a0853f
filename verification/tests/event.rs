use tauri_ipc::endpoints::{
    handler, misfit, names_builtin, rejection, Action, Cmd, Task,
};
use tauri_ipc::permission::Permission;
use tauri_ipc::scope::Scopes;
use tauri_ipc::event::{
    emit, emit_function_name, emit_script, event_initialization_script,
    event_listeners_object_name, event_queue_object_name, listen, listen_script, on_event,
    EventNames, Listeners,
};
use tauri_ipc::rpc::format_callback;
use tauri_ipc::salt::{validate, SaltRegistry};

fn names() -> EventNames {
    EventNames::new("emit-fn".to_string(), "listeners-obj".to_string(), "queue-obj".to_string())
}

#[test]
fn event_names_are_handed_out_as_given() {
    let names = names();
    assert_eq!(emit_function_name(&names), "emit-fn");
    assert_eq!(event_listeners_object_name(&names), "listeners-obj");
    assert_eq!(event_queue_object_name(&names), "queue-obj");
}

#[test]
fn random_event_names_differ() {
    let names = EventNames::random();
    assert_eq!(names.emit_function.len(), 36);
    for name in [&names.emit_function, &names.listeners_object, &names.queue_object] {
        assert_eq!(name.chars().count(), 36);
        for (i, c) in name.chars().enumerate() {
            if i == 8 || i == 13 || i == 18 || i == 23 {
                assert_eq!(c, '-');
            } else {
                assert!(matches!(c, '0'..='9' | 'a'..='f'));
            }
        }
    }
    assert_ne!(names.emit_function, names.listeners_object);
    assert_ne!(names.listeners_object, names.queue_object);
    assert_ne!(names.emit_function, EventNames::random().emit_function);
}

#[test]
fn the_initialization_script_names_the_three_objects() {
    let script = event_initialization_script(&names());
    assert!(script.starts_with("\n      window['queue-obj'] = [];\n      window['emit-fn'] = function (payload, salt, ignoreQueue) {\n      const listeners = (window['listeners-obj'] && window['listeners-obj'][payload.type]) || []\n"));
    assert!(script.contains("        window['queue-obj'].push({\n          payload: payload,\n          salt: salt\n        })\n"));
    assert!(script.contains("cmd: 'validateSalt',"));
    assert!(script.ends_with("        })\n      }\n    }\n    "));
    assert!(!script.contains("{{"));
}

#[test]
fn the_listen_script_registers_the_handler() {
    let script = listen_script("L", "Q", "E", "tick", "h1", "true");
    assert!(script.contains("window['L']['tick'].push({\n                  handler: window['h1'],\n                  once: true\n                });"));
    assert!(script.contains("for (let i = 0; i < (window['Q'] || []).length; i++) {"));
    assert!(script.contains("window['E'](e.payload, e.salt, true)"));
}

#[test]
fn emit_tags_the_event_with_a_fresh_salt() {
    let names = names();
    let mut salts = SaltRegistry::new();
    let script = emit(&names, &mut salts, "tick".to_string(), "{\"n\":1}".to_string());
    assert_eq!(salts.salts.len(), 1);
    assert_eq!(
        script,
        format!("window['emit-fn']({{type: 'tick', payload: {{\"n\":1}}}}, '{}')", salts.salts[0])
    );
    let script = emit(&names, &mut salts, "tock".to_string(), String::new());
    assert_eq!(salts.salts.len(), 2);
    assert_ne!(salts.salts[0], salts.salts[1]);
    assert_eq!(
        script,
        format!("window['emit-fn']({{type: 'tock', payload: void 0}}, '{}')", salts.salts[1])
    );
    assert_eq!(emit_script("e", "t", "1", "s"), "window['e']({type: 't', payload: 1}, 's')");
}

#[test]
fn a_salt_validates_once() {
    let mut salts = SaltRegistry::new();
    let token = salts.generate();
    assert_eq!(token.len(), 36);
    assert!(!salts.is_valid("something else"));
    assert_eq!(salts.salts.len(), 1);
    assert!(salts.is_valid(&token));
    assert!(!salts.is_valid(&token));
    assert!(salts.salts.is_empty());

    salts.remember("twice".to_string());
    salts.remember("other".to_string());
    salts.remember("twice".to_string());
    assert!(salts.is_valid("twice"));
    assert_eq!(salts.salts, vec!["other".to_string(), "twice".to_string()]);
    assert!(salts.is_valid("twice"));
    assert!(!salts.is_valid("twice"));
}

#[test]
fn validation_answers_with_a_boolean() {
    let mut salts = SaltRegistry::new();
    salts.remember("s1".to_string());
    salts.remember("s2".to_string());
    let script = validate(&mut salts, "s1".to_string(), "cb".to_string(), "err".to_string()).unwrap();
    assert_eq!(script, format_callback("cb", "true").unwrap());
    assert!(script.contains("window[\"cb\"](true)"));
    assert_eq!(salts.salts, vec!["s2".to_string()]);
    let script = validate(&mut salts, "s1".to_string(), "cb".to_string(), "err".to_string()).unwrap();
    assert!(script.contains("window[\"cb\"](false)"));
    assert!(!script.contains("window[\"err\"]("));
    assert_eq!(salts.salts, vec!["s2".to_string()]);
}

#[test]
fn listeners_are_found_by_event() {
    let mut listeners = Listeners::new();
    assert_eq!(on_event(&listeners, "tick".to_string(), "1".to_string()), None);
    listen(&mut listeners, "tick".to_string(), 4);
    listen(&mut listeners, "tock".to_string(), 5);
    assert_eq!(on_event(&listeners, "tick".to_string(), "1".to_string()), Some((4, "1".to_string())));
    listen(&mut listeners, "tick".to_string(), 6);
    assert_eq!(on_event(&listeners, "tick".to_string(), "2".to_string()), Some((6, "2".to_string())));
    assert_eq!(on_event(&listeners, "tock".to_string(), "3".to_string()), Some((5, "3".to_string())));
    assert_eq!(on_event(&listeners, "tack".to_string(), "4".to_string()), None);
}

fn allowing(commands: &[&str]) -> Vec<Permission> {
    vec![Permission {
        identifier: "p".to_string(),
        version: None,
        description: String::new(),
        commands: commands.iter().map(|c| c.to_string()).collect(),
        scope: Scopes::new(),
    }]
}

fn all_builtin() -> Vec<Permission> {
    allowing(&[
        "init", "readTextFile", "readBinaryFile", "writeFile", "listFiles", "listDirs",
        "setTitle", "execute", "open", "validateSalt", "listen", "emit", "loadAsset",
    ])
}

#[test]
fn built_in_commands_become_actions() {
    let names = names();
    let mut salts = SaltRegistry::new();
    let mut listeners = Listeners::new();
    listen(&mut listeners, "ping".to_string(), 1);
    let effective = all_builtin();

    assert_eq!(
        handler(&names, &mut salts, &listeners, &effective, "", Ok(Cmd::Init)),
        Some(Action::Eval(event_initialization_script(&names)))
    );
    assert_eq!(
        handler(
            &names,
            &mut salts,
            &listeners,
            &effective,
            "",
            Ok(Cmd::ReadTextFile {
                path: "/tmp/x".to_string(),
                callback: "cb1".to_string(),
                error: "err1".to_string(),
            })
        ),
        Some(Action::Promise {
            task: Task::ReadTextFile { path: "/tmp/x".to_string() },
            callback: "cb1".to_string(),
            error: "err1".to_string(),
        })
    );
    assert_eq!(
        handler(
            &names,
            &mut salts,
            &listeners,
            &effective,
            "",
            Ok(Cmd::Execute {
                command: "ls".to_string(),
                args: vec!["-l".to_string()],
                callback: "cb".to_string(),
                error: "err".to_string(),
            })
        ),
        Some(Action::Promise {
            task: Task::Execute { command: "ls".to_string(), args: vec!["-l".to_string()] },
            callback: "cb".to_string(),
            error: "err".to_string(),
        })
    );
    assert_eq!(
        handler(&names, &mut salts, &listeners, &effective, "", Ok(Cmd::SetTitle { title: "T".to_string() })),
        Some(Action::SetTitle("T".to_string()))
    );
    assert_eq!(
        handler(&names, &mut salts, &listeners, &effective, "", Ok(Cmd::Open { uri: "https://x".to_string() })),
        Some(Action::Spawn(Task::Open { uri: "https://x".to_string() }))
    );
    assert_eq!(
        handler(
            &names,
            &mut salts,
            &listeners,
            &effective,
            "",
            Ok(Cmd::Listen { event: "tick".to_string(), handler: "h".to_string(), once: false })
        ),
        Some(Action::Eval(listen_script("listeners-obj", "queue-obj", "emit-fn", "tick", "h", "false")))
    );
    assert_eq!(
        handler(
            &names,
            &mut salts,
            &listeners,
            &effective,
            "",
            Ok(Cmd::Emit { event: "ping".to_string(), payload: "p".to_string() })
        ),
        Some(Action::CallListener { handler: 1, payload: "p".to_string() })
    );
    assert_eq!(
        handler(
            &names,
            &mut salts,
            &listeners,
            &effective,
            "",
            Ok(Cmd::Emit { event: "pong".to_string(), payload: "p".to_string() })
        ),
        Some(Action::Nothing)
    );

    salts.remember("s".to_string());
    let validate_salt = || Cmd::ValidateSalt {
        salt: "s".to_string(),
        callback: "cb".to_string(),
        error: "err".to_string(),
    };
    assert_eq!(
        handler(&names, &mut salts, &listeners, &effective, "", Ok(validate_salt())),
        Some(Action::Eval(format_callback("cb", "true").unwrap()))
    );
    assert_eq!(
        handler(&names, &mut salts, &listeners, &effective, "", Ok(validate_salt())),
        Some(Action::Eval(format_callback("cb", "false").unwrap()))
    );
}

#[test]
fn a_built_in_command_is_denied_without_the_permission() {
    let names = names();
    let mut salts = SaltRegistry::new();
    salts.remember("s".to_string());
    let listeners = Listeners::new();
    let message = r#"{"cmd":"readTextFile","path":"/tmp/x","callback":"cb1","error":"err1"}"#;
    let read = || Cmd::ReadTextFile {
        path: "/tmp/x".to_string(),
        callback: "cb1".to_string(),
        error: "err1".to_string(),
    };
    let denied = Some(Action::Eval(format_callback("err1", "\"readTextFile not allowed\"").unwrap()));
    assert_eq!(handler(&names, &mut salts, &listeners, &Vec::new(), message, Ok(read())), denied);
    assert_eq!(
        handler(&names, &mut salts, &listeners, &allowing(&["writeFile"]), message, Ok(read())),
        denied
    );
    assert!(matches!(
        handler(&names, &mut salts, &listeners, &allowing(&["readTextFile"]), message, Ok(read())),
        Some(Action::Promise { .. })
    ));
    assert_eq!(
        handler(&names, &mut salts, &listeners, &Vec::new(), "", Ok(Cmd::SetTitle { title: "T".to_string() })),
        Some(Action::Nothing)
    );
    assert_eq!(
        handler(
            &names,
            &mut salts,
            &listeners,
            &Vec::new(),
            "",
            Ok(Cmd::ValidateSalt {
                salt: "s".to_string(),
                callback: "cb".to_string(),
                error: "err".to_string(),
            })
        ),
        Some(Action::Eval(format_callback("err", "\"validateSalt not allowed\"").unwrap()))
    );
    assert_eq!(salts.salts, vec!["s".to_string()]);
    assert_eq!(read().name(), "readTextFile");
    assert_eq!(read().error_callback(), Some(&"err1".to_string()));
    assert_eq!(Cmd::Init.error_callback(), None);
}

#[test]
fn a_built_in_command_without_its_field_is_rejected_once() {
    let names = names();
    let mut salts = SaltRegistry::new();
    let listeners = Listeners::new();
    let message = r#"{"cmd":"readTextFile","callback":"cb1","error":"err1"}"#;
    let no_fit = || Err("missing field `path`".to_string());
    assert_eq!(
        handler(&names, &mut salts, &listeners, &all_builtin(), message, no_fit()),
        Some(Action::Eval(
            format_callback(
                "err1",
                "\"invalid args for command `readTextFile`: missing field `path`\""
            )
            .unwrap()
        ))
    );
    assert_eq!(
        handler(&names, &mut salts, &listeners, &Vec::new(), message, no_fit()),
        Some(Action::Eval(format_callback("err1", "\"readTextFile not allowed\"").unwrap()))
    );
    let other = r#"{"cmd":"greet","callback":"cb1","error":"err1"}"#;
    assert_eq!(handler(&names, &mut salts, &listeners, &all_builtin(), other, no_fit()), None);
    assert_eq!(handler(&names, &mut salts, &listeners, &all_builtin(), "garbage", no_fit()), None);
    assert_eq!(
        handler(&names, &mut salts, &listeners, &all_builtin(), r#"{"cmd":"setTitle"}"#, no_fit()),
        None
    );
    assert!(names_builtin("loadAsset"));
    assert!(!names_builtin("greet"));
    assert_eq!(
        misfit(&all_builtin(), message, "x"),
        Some(rejection("err1", "invalid args for command `readTextFile`: x"))
    );
}
