use tauri_ipc::acl::Acl;
use tauri_ipc::bridge::{receive, reject_missing, Received};
use tauri_ipc::capability::{Capability, PermissionEntry, Target};
use tauri_ipc::dispatch::{
    respond, CommandRegistry, HandlerKind, InvokeRequest, Outcome, Step,
};
use tauri_ipc::envelope::{
    decode_request, find_field, flag_field, missing_argument, missing_field, request_from,
    request_of_fields, text_field, Field, Member,
};
use tauri_ipc::pattern::scope_permits;
use tauri_ipc::permission::{Manifest, Permission, PluginManifest};
use tauri_ipc::rpc::format_callback;
use tauri_ipc::scope::Scopes;

fn strings(items: &[&str]) -> Vec<String> {
    items.iter().map(|s| s.to_string()).collect()
}

fn request(cmd: &str, callback: &str, error: &str, main_thread: bool) -> InvokeRequest {
    InvokeRequest {
        cmd: cmd.to_string(),
        callback: callback.to_string(),
        error: error.to_string(),
        main_thread,
    }
}

fn file_acl() -> Acl {
    let manifest = PluginManifest {
        plugin: "fs".to_string(),
        manifest: Manifest {
            default_permission: None,
            permissions: vec![Permission {
                identifier: "allow-read-text-file".to_string(),
                version: None,
                description: String::new(),
                commands: strings(&["readTextFile"]),
                scope: Scopes { allow: strings(&["/tmp/*"]), deny: Vec::new() },
            }],
            permission_sets: Vec::new(),
        },
    };
    let mut capability = Capability::new("files".to_string());
    capability.windows = strings(&["main"]);
    capability.permissions =
        vec![PermissionEntry::PermissionRef("fs:allow-read-text-file".to_string())];
    Acl::load(&vec![manifest], vec![capability]).unwrap()
}

fn registry() -> CommandRegistry {
    let mut registry = CommandRegistry::new();
    registry.register("readTextFile".to_string(), HandlerKind::Async, strings(&["path"]));
    registry.register("copyFile".to_string(), HandlerKind::Blocking, strings(&["source_path"]));
    registry
}

#[test]
fn a_message_decodes_into_a_request() {
    let message = r#"{"cmd":"readTextFile","path":"/tmp/x","callback":"cb1","error":"err1"}"#;
    assert_eq!(decode_request(message), Some(request("readTextFile", "cb1", "err1", false)));
    let message = r#"{"error":"e","mainThread":true,"callback":"c","cmd":"x"}"#;
    assert_eq!(decode_request(message), Some(request("x", "c", "e", true)));
    let message = r#"{"cmd":"x","callback":"c","error":"e","mainThread":"yes"}"#;
    assert_eq!(decode_request(message), Some(request("x", "c", "e", false)));
}

#[test]
fn a_message_without_the_required_fields_is_no_request() {
    for message in [
        "",
        "not json",
        "[]",
        "\"cmd\"",
        r#"{"cmd":"x","callback":"c"}"#,
        r#"{"cmd":"x","error":"e"}"#,
        r#"{"callback":"c","error":"e"}"#,
        r#"{"cmd":1,"callback":"c","error":"e"}"#,
        r#"{"cmd":"x","callback":null,"error":"e"}"#,
        r#"{"cmd":"x","callback":"c","error":"e""#,
    ] {
        assert_eq!(decode_request(message), None);
    }
}

#[test]
fn a_request_needs_its_three_strings() {
    let s = |t: &str| Some(t.to_string());
    assert_eq!(request_from(s("x"), s("c"), s("e"), None), Some(request("x", "c", "e", false)));
    assert_eq!(
        request_from(s("x"), s("c"), s("e"), Some(true)),
        Some(request("x", "c", "e", true))
    );
    assert_eq!(
        request_from(s("x"), s("c"), s("e"), Some(false)),
        Some(request("x", "c", "e", false))
    );
    assert_eq!(request_from(None, s("c"), s("e"), None), None);
    assert_eq!(request_from(s("x"), None, s("e"), None), None);
    assert_eq!(request_from(s("x"), s("c"), None, Some(true)), None);
}

fn member(key: &str, value: Field) -> Member {
    Member { key: key.to_string(), value }
}

#[test]
fn fields_are_found_by_key() {
    let members = vec![
        member("cmd", Field::Text("x".to_string())),
        member("mainThread", Field::Flag(true)),
        member("n", Field::Other),
        member("cmd", Field::Text("y".to_string())),
    ];
    assert_eq!(find_field(&members, "cmd"), Some(3));
    assert_eq!(find_field(&members, "n"), Some(2));
    assert_eq!(find_field(&members, "callback"), None);
    assert_eq!(find_field(&Vec::new(), "cmd"), None);
    assert_eq!(text_field(&members, "cmd"), Some("y".to_string()));
    assert_eq!(text_field(&members, "mainThread"), None);
    assert_eq!(text_field(&members, "n"), None);
    assert_eq!(text_field(&members, "absent"), None);
    assert_eq!(flag_field(&members, "mainThread"), Some(true));
    assert_eq!(flag_field(&members, "cmd"), None);
    assert_eq!(flag_field(&members, "absent"), None);
    assert_eq!(request_of_fields(&members), None);
    assert_eq!(
        missing_field(&members, &strings(&["n", "callback", "error"])),
        Some("callback".to_string())
    );
    assert_eq!(missing_field(&members, &strings(&["n", "cmd"])), None);

    let members = vec![
        member("error", Field::Text("e".to_string())),
        member("callback", Field::Text("c".to_string())),
        member("cmd", Field::Text("x".to_string())),
        member("mainThread", Field::Flag(false)),
    ];
    assert_eq!(request_of_fields(&members), Some(request("x", "c", "e", false)));
}

#[test]
fn the_first_missing_argument_is_found() {
    let keys = strings(&["path", "sourcePath", "mode"]);
    assert_eq!(missing_argument(r#"{"path":1,"sourcePath":null,"mode":[]}"#, &keys), None);
    assert_eq!(missing_argument(r#"{"path":1,"source_path":2}"#, &keys), Some("sourcePath".to_string()));
    assert_eq!(missing_argument(r#"{}"#, &keys), Some("path".to_string()));
    assert_eq!(missing_argument(r#"{}"#, &Vec::new()), None);
    assert_eq!(missing_argument("not json", &keys), None);
}

#[test]
fn read_text_file_goes_through_with_the_capability_and_is_denied_without() {
    let acl = file_acl();
    let registry = registry();
    let message = r#"{"cmd":"readTextFile","path":"/tmp/x","callback":"cb1","error":"err1"}"#;

    let main = acl.resolve("main", "main", Target::Linux);
    let received = receive(&registry, &main, message).unwrap().unwrap();
    assert_eq!(received.request, request("readTextFile", "cb1", "err1", false));
    match &received.step {
        Step::Run { handler, kind, scope, keys } => {
            assert_eq!(*handler, 0);
            assert_eq!(*kind, HandlerKind::Async);
            assert_eq!(*keys, strings(&["path"]));
            assert!(scope_permits(scope, "/tmp/x"));
            assert!(!scope_permits(scope, "/etc/passwd"));
        }
        Step::Reject(_) => panic!("the capability grants the command"),
    }
    let script = respond(&received.request, &Outcome::Resolved("\"contents\"".to_string())).unwrap();
    assert!(script.contains("window[\"cb1\"](\"contents\")"));

    let other = acl.resolve("settings", "settings", Target::Linux);
    let received = receive(&registry, &other, message).unwrap().unwrap();
    assert_eq!(
        received.step,
        Step::Reject(format_callback("err1", "\"readTextFile not allowed\"").unwrap())
    );
}

#[test]
fn a_request_without_its_arguments_never_reaches_the_handler() {
    let acl = file_acl();
    let main = acl.resolve("main", "", Target::Linux);
    let message = r#"{"cmd":"readTextFile","callback":"cb1","error":"err1"}"#;
    let received = receive(&registry(), &main, message).unwrap().unwrap();
    assert_eq!(
        received.step,
        Step::Reject(
            format_callback(
                "err1",
                "\"invalid args for command `readTextFile`: missing field `path`\""
            )
            .unwrap()
        )
    );
    assert_eq!(receive(&registry(), &main, "garbage"), Ok(None));

    let run = Step::Run {
        handler: 0,
        kind: HandlerKind::Blocking,
        scope: Scopes::new(),
        keys: Vec::new(),
    };
    let r = request("c", "cb", "err", false);
    assert_eq!(reject_missing(&r, run.clone(), None), Ok(run.clone()));
    assert_eq!(
        reject_missing(&r, Step::Reject("s".to_string()), Some("k".to_string())),
        Ok(Step::Reject("s".to_string()))
    );
    assert_eq!(
        reject_missing(&r, run, Some("k".to_string())),
        Ok(Step::Reject(
            format_callback("err", "\"invalid args for command `c`: missing field `k`\"").unwrap()
        ))
    );
    let received = Received { request: r.clone(), step: Step::Reject(String::new()) };
    assert_eq!(received.request, r);
}
