use tauri_ipc::command::{format_command, snake_case_to_camel_case};
use tauri_ipc::dispatch::{
    answer, dispatch, keys_for, reject, reject_with, respond, CommandRegistry, HandlerKind,
    InvokeRequest, Outcome, Step,
};
use tauri_ipc::error::Error;
use tauri_ipc::pending::InFlight;
use tauri_ipc::permission::Permission;
use tauri_ipc::rpc::format_callback;
use tauri_ipc::scope::Scopes;

fn strings(items: &[&str]) -> Vec<String> {
    items.iter().map(|s| s.to_string()).collect()
}

fn request(cmd: &str, callback: &str, error: &str) -> InvokeRequest {
    InvokeRequest {
        cmd: cmd.to_string(),
        callback: callback.to_string(),
        error: error.to_string(),
        main_thread: false,
    }
}

fn granting(commands: &[&str], allow: &[&str]) -> Vec<Permission> {
    vec![Permission {
        identifier: "p".to_string(),
        version: None,
        description: String::new(),
        commands: strings(commands),
        scope: Scopes { allow: strings(allow), deny: Vec::new() },
    }]
}

fn registry() -> CommandRegistry {
    let mut registry = CommandRegistry::new();
    registry.register("greet".to_string(), HandlerKind::Async, strings(&["first_name"]));
    registry.register("readTextFile".to_string(), HandlerKind::Blocking, strings(&["path"]));
    registry.register(
        "greet".to_string(),
        HandlerKind::Blocking,
        strings(&["first_name", "last_name_or_initial", "age"]),
    );
    registry
}

#[test]
fn snake_case_becomes_camel_case() {
    assert_eq!(snake_case_to_camel_case("first_name".to_string()), "firstName");
    assert_eq!(snake_case_to_camel_case("path".to_string()), "path");
    assert_eq!(snake_case_to_camel_case("a_b_c".to_string()), "aBC");
    assert_eq!(snake_case_to_camel_case("_x".to_string()), "X");
    assert_eq!(snake_case_to_camel_case("x_".to_string()), "x");
    assert_eq!(snake_case_to_camel_case("a__b".to_string()), "aB");
    assert_eq!(snake_case_to_camel_case("a_1_é_B".to_string()), "a1éB");
    assert_eq!(snake_case_to_camel_case(String::new()), "");
    assert_eq!(keys_for(&strings(&["main_thread", "cmd"])), strings(&["mainThread", "cmd"]));
}

#[test]
fn commands_sit_beside_the_program() {
    assert_eq!(format_command("/opt/app".to_string(), "updater".to_string(), false), "/opt/app/./updater");
    assert_eq!(
        format_command("C:/app".to_string(), "updater".to_string(), true),
        "C:/app/./updater.exe"
    );
}

#[test]
fn the_last_registration_of_a_name_stands() {
    let registry = registry();
    assert_eq!(registry.find("greet"), Some(2));
    assert_eq!(registry.find("readTextFile"), Some(1));
    assert_eq!(registry.find("nope"), None);
    assert_eq!(CommandRegistry::new().find("greet"), None);
}

#[test]
fn an_allowed_command_goes_to_its_handler() {
    let step = dispatch(
        &registry(),
        &granting(&["greet", "readTextFile"], &["/tmp/*"]),
        &request("greet", "cb1", "err1"),
    )
    .unwrap();
    assert_eq!(
        step,
        Step::Run {
            handler: 2,
            kind: HandlerKind::Blocking,
            scope: Scopes { allow: strings(&["/tmp/*"]), deny: Vec::new() },
            keys: strings(&["firstName", "lastNameOrInitial", "age"]),
        }
    );
}

#[test]
fn a_denied_command_is_rejected_through_the_error_callback() {
    let step = dispatch(&registry(), &Vec::new(), &request("readTextFile", "cb1", "err1")).unwrap();
    let expected = format_callback("err1", "\"readTextFile not allowed\"").unwrap();
    assert_eq!(step, Step::Reject(expected));
    match step {
        Step::Reject(script) => {
            assert!(script.contains("window[\"err1\"](\"readTextFile not allowed\")"));
            assert!(!script.contains("window[\"cb1\"]("));
        }
        Step::Run { .. } => panic!("the command is not allowed"),
    }
}

#[test]
fn an_unregistered_command_is_rejected_as_not_found() {
    let step = dispatch(&registry(), &granting(&["say \"hi\""], &[]), &request("say \"hi\"", "cb", "err"))
        .unwrap();
    assert_eq!(
        step,
        Step::Reject(format_callback("err", "\"say \\\"hi\\\" not found\"").unwrap())
    );
}

#[test]
fn rejections_carry_the_message_as_json() {
    let script = reject("err", "a \"quoted\" \\ message\n").unwrap();
    assert!(script.contains("window[\"err\"](\"a \\\"quoted\\\" \\\\ message\\n\")"));
    assert_eq!(reject_with("err", None), Err(Error::Json));
    assert_eq!(
        reject_with("err", Some("\"x\"".to_string())),
        format_callback("err", "\"x\"")
    );
}

#[test]
fn every_outcome_has_one_answer() {
    let request = request("greet", "cb1", "err1");
    let ok = respond(&request, &Outcome::Resolved("{\"a\":1}".to_string())).unwrap();
    assert!(ok.contains("window[\"cb1\"](JSON.parse('{\"a\":1}'))"));
    assert!(!ok.contains("window[\"err1\"]("));
    let err = respond(&request, &Outcome::Rejected("\"boom\"".to_string())).unwrap();
    assert!(err.contains("window[\"err1\"](\"boom\")"));
    assert!(!err.contains("window[\"cb1\"]("));
    let invalid = respond(&request, &Outcome::InvalidArgs("missing field `name`".to_string())).unwrap();
    assert!(invalid.contains(
        "window[\"err1\"](\"invalid args for command `greet`: missing field `name`\")"
    ));
    assert_eq!(answer(&request, &Outcome::Resolved("{\"a\":1}".to_string())), ok);
    assert_eq!(answer(&request, &Outcome::Rejected("\"boom\"".to_string())), err);
}

#[test]
fn three_commands_in_flight_are_answered_once_each() {
    let mut in_flight = InFlight::new();
    let a = in_flight.begin(request("a", "cb_a", "err_a")).unwrap();
    let b = in_flight.begin(request("b", "cb_b", "err_b")).unwrap();
    let c = in_flight.begin(request("c", "cb_c", "err_c")).unwrap();
    assert_eq!((a, b, c), (0, 1, 2));

    let mut evaluated: Vec<String> = Vec::new();
    let order = [
        (c, Outcome::Resolved("3".to_string())),
        (a, Outcome::Rejected("\"failed\"".to_string())),
        (c, Outcome::Resolved("3".to_string())),
        (b, Outcome::Resolved("2".to_string())),
        (a, Outcome::Resolved("1".to_string())),
        (7, Outcome::Resolved("7".to_string())),
    ];
    for (id, outcome) in order.iter() {
        if let Some(script) = in_flight.complete(*id, outcome) {
            evaluated.push(script);
        }
    }
    assert_eq!(evaluated.len(), 3);
    assert!(evaluated[0].contains("window[\"cb_c\"](3)"));
    assert!(evaluated[1].contains("window[\"err_a\"](\"failed\")"));
    assert!(evaluated[2].contains("window[\"cb_b\"](2)"));
    assert!(in_flight.pending.is_empty());
    assert_eq!(in_flight.next, 3);
}

#[test]
fn tickets_run_out_without_a_panic() {
    let mut in_flight = InFlight { pending: Vec::new(), next: u64::MAX };
    assert_eq!(in_flight.begin(request("a", "cb", "err")), None);
    assert!(in_flight.pending.is_empty());
    let mut in_flight = InFlight { pending: Vec::new(), next: u64::MAX - 1 };
    assert_eq!(in_flight.begin(request("a", "cb", "err")), Some(u64::MAX - 1));
    assert_eq!(in_flight.next, u64::MAX);
}
