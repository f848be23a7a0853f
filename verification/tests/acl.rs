use tauri_ipc::acl::{authorize, capability_applies, command_belongs, Acl, Decision};
use tauri_ipc::capability::{
    capability_format, default_capability_local, Capability, CapabilityFile, CapabilityFormat,
    PermissionEntry, Target,
};
use tauri_ipc::error::Error;
use tauri_ipc::manifest::{
    parse_capabilities, process, DefaultPermission, PermissionFile, PluginPermissions,
};
use tauri_ipc::pattern::{
    any_pattern_matches, any_true, label_hits, pattern_matches, permits, scope_permits,
};
use tauri_ipc::permission::{qualify, Manifest, Permission, PermissionSet, PluginManifest};
use tauri_ipc::scope::Scopes;

fn strings(items: &[&str]) -> Vec<String> {
    items.iter().map(|s| s.to_string()).collect()
}

fn permission(id: &str, commands: &[&str], allow: &[&str]) -> Permission {
    Permission {
        identifier: id.to_string(),
        version: None,
        description: String::new(),
        commands: strings(commands),
        scope: Scopes { allow: strings(allow), deny: Vec::new() },
    }
}

fn set(id: &str, members: &[&str]) -> PermissionSet {
    PermissionSet {
        identifier: id.to_string(),
        description: String::new(),
        permissions: strings(members),
    }
}

fn plugin(name: &str, default: Option<Permission>, permissions: Vec<Permission>, sets: Vec<PermissionSet>) -> PluginManifest {
    PluginManifest {
        plugin: name.to_string(),
        manifest: Manifest { default_permission: default, permissions, permission_sets: sets },
    }
}

fn capability(id: &str, windows: &[&str], entries: Vec<PermissionEntry>) -> Capability {
    let mut c = Capability::new(id.to_string());
    c.windows = strings(windows);
    c.permissions = entries;
    c
}

fn reference(id: &str) -> PermissionEntry {
    PermissionEntry::PermissionRef(id.to_string())
}

fn fs_plugin() -> PluginManifest {
    plugin(
        "fs",
        None,
        vec![
            permission("allow-read-text-file", &["fs:read_text_file"], &[]),
            permission("allow-write-text-file", &["fs:write_text_file"], &["$APP/*"]),
        ],
        vec![set("read-write", &["allow-read-text-file", "allow-write-text-file"])],
    )
}

#[test]
fn a_window_without_capability_is_denied_everything() {
    let acl = Acl::load(
        &vec![fs_plugin()],
        vec![capability("main", &["main"], vec![reference("fs:read-write")])],
    )
    .unwrap();
    let effective = acl.resolve("other", "other", Target::Linux);
    assert!(effective.is_empty());
    for command in ["fs:read_text_file", "fs:write_text_file", "anything", ""] {
        assert_eq!(authorize(&effective, command), Decision::Deny);
    }
    let effective = acl.resolve("main", "main", Target::Linux);
    assert!(matches!(authorize(&effective, "fs:read_text_file"), Decision::Allow(_)));
}

#[test]
fn a_permission_set_grants_the_union_of_its_members() {
    let acl = Acl::load(
        &vec![fs_plugin()],
        vec![capability("main", &["main"], vec![reference("fs:read-write")])],
    )
    .unwrap();
    assert_eq!(
        acl.granted[0],
        vec![
            permission("fs:allow-read-text-file", &["fs:read_text_file"], &[]),
            permission("fs:allow-write-text-file", &["fs:write_text_file"], &["$APP/*"]),
        ]
    );
    let effective = acl.resolve("main", "", Target::Linux);
    assert!(matches!(authorize(&effective, "fs:read_text_file"), Decision::Allow(_)));
    assert!(matches!(authorize(&effective, "fs:write_text_file"), Decision::Allow(_)));
    assert_eq!(authorize(&effective, "fs:remove_file"), Decision::Deny);
}

#[test]
fn nested_permission_sets_expand_in_place() {
    let manifest = plugin(
        "",
        None,
        vec![
            permission("a", &["one"], &[]),
            permission("b", &["two"], &[]),
            permission("c", &["three"], &[]),
        ],
        vec![set("inner", &["b", "c"]), set("outer", &["a", "inner", "a"])],
    );
    let acl = Acl::load(&vec![manifest], vec![capability("x", &["*"], vec![reference("outer")])])
        .unwrap();
    let ids: Vec<&str> = acl.granted[0].iter().map(|p| p.identifier.as_str()).collect();
    assert_eq!(ids, vec!["a", "b", "c", "a"]);
}

#[test]
fn a_cyclic_permission_set_fails_the_load() {
    let manifest = plugin(
        "p",
        None,
        vec![permission("a", &["p:one"], &[])],
        vec![set("s", &["a", "t"]), set("t", &["s"])],
    );
    let r = Acl::load(&vec![manifest], vec![capability("x", &["*"], vec![reference("p:s")])]);
    assert!(matches!(r, Err(Error::CyclicPermissionSet(_))));

    let ring = plugin(
        "p",
        None,
        vec![permission("a", &["p:one"], &[])],
        vec![set("s", &["a", "t"]), set("t", &["s"])],
    );
    let r = Acl::load(&vec![ring], Vec::new());
    assert_eq!(r.err(), Some(Error::CyclicPermissionSet("p:s".to_string())));
    let ring = plugin("p", None, Vec::new(), vec![set("s", &["t"]), set("t", &["s"])]);
    let r = Acl::load(&vec![ring], vec![capability("x", &["*"], Vec::new())]);
    assert!(matches!(r, Err(Error::CyclicPermissionSet(_))));

    let itself = plugin("p", None, Vec::new(), vec![set("s", &["s"])]);
    let r = Acl::load(&vec![itself], vec![capability("x", &["*"], vec![reference("p:s")])]);
    assert_eq!(r.err(), Some(Error::CyclicPermissionSet("p:s".to_string())));
}

#[test]
fn an_unknown_identifier_fails_the_load() {
    let r = Acl::load(
        &vec![fs_plugin()],
        vec![
            capability("fine", &["*"], vec![reference("fs:allow-read-text-file")]),
            capability("broken", &["*"], vec![reference("fs:nope")]),
        ],
    );
    assert_eq!(r.err(), Some(Error::UnknownPermission("fs:nope".to_string())));

    let dangling = plugin("p", None, Vec::new(), vec![set("s", &["missing"])]);
    let r = Acl::load(&vec![dangling], vec![capability("x", &["*"], vec![reference("p:s")])]);
    assert_eq!(r.err(), Some(Error::UnknownPermission("p:missing".to_string())));
}

#[test]
fn an_extended_entry_leaves_the_declared_scope_alone() {
    let extended = PermissionEntry::ExtendedPermission {
        identifier: "fs:allow-write-text-file".to_string(),
        scope: Scopes { allow: strings(&["$HOME/test.txt"]), deny: strings(&["$HOME/.ssh/*"]) },
    };
    let acl = Acl::load(
        &vec![fs_plugin()],
        vec![
            capability("first", &["one"], vec![extended]),
            capability("second", &["two"], vec![reference("fs:allow-write-text-file")]),
        ],
    )
    .unwrap();
    assert_eq!(
        acl.granted[0][0].scope,
        Scopes { allow: strings(&["$APP/*", "$HOME/test.txt"]), deny: strings(&["$HOME/.ssh/*"]) }
    );
    assert_eq!(acl.granted[1][0].scope, Scopes { allow: strings(&["$APP/*"]), deny: Vec::new() });
    assert_eq!(acl.permissions[1].scope, Scopes { allow: strings(&["$APP/*"]), deny: Vec::new() });

    let two = acl.resolve("two", "", Target::Linux);
    assert_eq!(
        authorize(&two, "fs:write_text_file"),
        Decision::Allow(Scopes { allow: strings(&["$APP/*"]), deny: Vec::new() })
    );
}

#[test]
fn scopes_of_all_granting_capabilities_are_united() {
    let manifest = plugin(
        "fs",
        None,
        vec![
            permission("read-tmp", &["fs:read"], &["/tmp/*"]),
            permission("read-home", &["fs:read"], &["/home/*"]),
            permission("write", &["fs:write"], &["/var/*"]),
        ],
        Vec::new(),
    );
    let acl = Acl::load(
        &vec![manifest],
        vec![
            capability("a", &["main"], vec![reference("fs:read-tmp"), reference("fs:write")]),
            capability("b", &["ma*"], vec![reference("fs:read-home")]),
            capability("c", &["other"], vec![reference("fs:write")]),
        ],
    )
    .unwrap();
    let effective = acl.resolve("main", "", Target::Linux);
    assert_eq!(
        authorize(&effective, "fs:read"),
        Decision::Allow(Scopes { allow: strings(&["/tmp/*", "/home/*"]), deny: Vec::new() })
    );
    assert_eq!(acl.applying("main", "", Target::Linux), vec![true, true, false]);
    assert_eq!(acl.effective(&vec![false, false, true]).len(), 1);
    assert_eq!(acl.effective(&vec![false, false, false]).len(), 0);
    assert_eq!(acl.effective(&vec![]).len(), 0);
}

#[test]
fn the_default_permission_holds_for_every_window_with_a_capability() {
    let manifest = plugin(
        "path",
        Some(permission("default", &["path:resolve", "fs:remove", "pathfinder:x", "bare"], &[])),
        vec![permission("allow-join", &["path:join"], &[])],
        Vec::new(),
    );
    let acl = Acl::load(
        &vec![manifest, fs_plugin()],
        vec![capability("main", &["main"], vec![reference("fs:allow-read-text-file")])],
    )
    .unwrap();
    assert_eq!(acl.defaults.len(), 1);
    assert_eq!(acl.defaults[0].identifier, "path:default");
    let main = acl.resolve("main", "", Target::Linux);
    assert!(matches!(authorize(&main, "path:resolve"), Decision::Allow(_)));
    assert_eq!(authorize(&main, "path:join"), Decision::Deny);
    assert_eq!(authorize(&main, "fs:remove"), Decision::Deny);
    assert_eq!(authorize(&main, "pathfinder:x"), Decision::Deny);
    assert_eq!(authorize(&main, "bare"), Decision::Deny);
    assert_eq!(acl.defaults[0].commands, strings(&["path:resolve"]));
    assert_eq!(acl.permissions[0].commands.len(), 4);
    let other = acl.resolve("other", "", Target::Linux);
    assert_eq!(authorize(&other, "path:resolve"), Decision::Deny);

    let by_name = Acl::load(
        &vec![plugin("path", Some(permission("default", &["path:resolve"], &[])), Vec::new(), Vec::new())],
        vec![capability("main", &["main"], vec![reference("path:default")])],
    )
    .unwrap();
    assert_eq!(by_name.granted[0].len(), 1);
}

#[test]
fn a_capability_applies_by_window_webview_and_platform() {
    let mut c = capability("c", &["main", "admin-*"], Vec::new());
    c.webviews = strings(&["side-?"]);
    c.platforms = Some(vec![Target::MacOS, Target::Windows]);
    let acl = Acl::load(&Vec::new(), vec![c]).unwrap();
    assert_eq!(acl.applying("main", "none", Target::MacOS), vec![true]);
    assert_eq!(acl.applying("admin-7", "none", Target::Windows), vec![true]);
    assert_eq!(acl.applying("none", "side-1", Target::Windows), vec![true]);
    assert_eq!(acl.applying("none", "side-12", Target::Windows), vec![false]);
    assert_eq!(acl.applying("main", "side-1", Target::Linux), vec![false]);
    assert_eq!(acl.applying("mainx", "none", Target::MacOS), vec![false]);

    let c = Capability::new("c".to_string());
    assert!(c.local);
    assert!(default_capability_local());
    assert!(capability_applies(&c, true, false, Target::Ios));
    assert!(capability_applies(&c, false, true, Target::Android));
    assert!(!capability_applies(&c, false, false, Target::Linux));
    assert!(c.targets(Target::Linux));
}

#[test]
fn a_command_belongs_to_the_plugin_that_prefixes_it() {
    assert!(command_belongs("fs", "fs:read"));
    assert!(command_belongs("fs", "fs:"));
    assert!(!command_belongs("fs", "fs"));
    assert!(!command_belongs("fs", "fsx:read"));
    assert!(!command_belongs("fs", "f:read"));
    assert!(!command_belongs("fs", "read"));
    assert!(!command_belongs("fs", ""));
    assert!(command_belongs("", "read"));
    assert!(command_belongs("", ""));
    assert!(!command_belongs("", "fs:read"));
    assert!(command_belongs("é", "é:x"));
}

#[test]
fn glob_patterns_match_as_globs() {
    assert_eq!(label_hits(&strings(&["x", "ma*", "main"]), "main"), vec![false, true, true]);
    assert!(label_hits(&Vec::new(), "main").is_empty());
    assert!(any_true(&vec![false, true]));
    assert!(!any_true(&vec![false, false]));
    assert!(!any_true(&Vec::new()));
    assert!(any_pattern_matches(&strings(&["x", "ma*"]), "main"));
    assert!(!any_pattern_matches(&strings(&["x", "ma*"]), "other"));
    assert!(!any_pattern_matches(&strings(&[]), "main"));
    assert!(!any_pattern_matches(&strings(&["[unclosed"]), "[unclosed"));
    assert!(pattern_matches("c?t", "cat"));
    assert!(pattern_matches("k[!e]tteh", "kitteh"));
    assert!(!pattern_matches("d*g", "dot"));
    assert!(!pattern_matches("a***", "a"));
    assert!(permits(true, false));
    assert!(!permits(true, true));
    assert!(!permits(false, false));
    let scope = Scopes { allow: strings(&["/tmp/*"]), deny: strings(&["/tmp/secret*"]) };
    assert!(scope_permits(&scope, "/tmp/x"));
    assert!(!scope_permits(&scope, "/tmp/secret.txt"));
    assert!(!scope_permits(&scope, "/etc/passwd"));
    assert!(!scope_permits(&Scopes::new(), "/tmp/x"));
}

#[test]
fn scopes_grow_by_files_and_directories() {
    let mut scope = Scopes::new();
    scope.allow_file("/tmp/a.txt");
    scope.allow_directory("/var/log", false);
    scope.allow_directory("/home/me", true);
    assert_eq!(scope.allow, strings(&["/tmp/a.txt", "/var/log/*", "/home/me/**"]));
    assert!(scope.deny.is_empty());
    assert!(scope_permits(&scope, "/home/me/a/b/c"));
    let merged = scope.merged(&Scopes { allow: strings(&["x"]), deny: strings(&["y"]) });
    assert_eq!(merged.allow, strings(&["/tmp/a.txt", "/var/log/*", "/home/me/**", "x"]));
    assert_eq!(merged.deny, strings(&["y"]));
    assert_eq!(scope.clone(), scope);
}

#[test]
fn read_text_file_is_allowed_only_with_the_capability() {
    let manifest = plugin(
        "fs",
        None,
        vec![permission("allow-read-text-file", &["readTextFile"], &["/tmp/*"])],
        Vec::new(),
    );
    let acl = Acl::load(
        &vec![manifest],
        vec![capability("files", &["main"], vec![reference("fs:allow-read-text-file")])],
    )
    .unwrap();
    match authorize(&acl.resolve("main", "main", Target::Linux), "readTextFile") {
        Decision::Allow(scope) => {
            assert_eq!(scope.allow, strings(&["/tmp/*"]));
            assert!(scope_permits(&scope, "/tmp/x"));
        }
        Decision::Deny => panic!("the capability grants the command"),
    }
    assert_eq!(
        authorize(&acl.resolve("settings", "settings", Target::Linux), "readTextFile"),
        Decision::Deny
    );
}

#[test]
fn identifiers_are_qualified_by_the_plugin() {
    assert_eq!(qualify("fs", "allow-read"), "fs:allow-read");
    assert_eq!(qualify("", "allow-read"), "allow-read");
    let entry = PermissionEntry::ExtendedPermission {
        identifier: "fs:x".to_string(),
        scope: Scopes::new(),
    };
    assert_eq!(entry.identifier(), "fs:x");
    assert_eq!(reference("dialog:open").identifier(), "dialog:open");
}

#[test]
fn permission_files_add_up_to_a_manifest() {
    let files = vec![
        PermissionFile {
            default: Some(DefaultPermission {
                version: Some(1),
                description: "first".to_string(),
                commands: strings(&["p:a"]),
                scopes: Scopes::new(),
            }),
            permission: Some(vec![permission("one", &["p:one"], &[])]),
            set: None,
        },
        PermissionFile {
            default: Some(DefaultPermission {
                version: None,
                description: "second".to_string(),
                commands: strings(&["p:b"]),
                scopes: Scopes::new(),
            }),
            permission: Some(vec![permission("two", &["p:two"], &[])]),
            set: Some(vec![set("both", &["one", "two"])]),
        },
        PermissionFile { default: None, permission: None, set: None },
    ];
    let processed = process(&vec![
        PluginPermissions { plugin: "p".to_string(), files },
        PluginPermissions { plugin: "q".to_string(), files: Vec::new() },
    ]);
    assert_eq!(processed.len(), 2);
    assert_eq!(processed[0].plugin, "p");
    let default = processed[0].manifest.default_permission.as_ref().unwrap();
    assert_eq!(default.identifier, "default");
    assert_eq!(default.description, "second");
    assert_eq!(default.commands, strings(&["p:b"]));
    assert_eq!(processed[0].manifest.permissions.len(), 2);
    assert_eq!(processed[0].manifest.permission_sets, vec![set("both", &["one", "two"])]);
    assert_eq!(processed[1].plugin, "q");
    assert_eq!(processed[1].manifest.default_permission, None);

    let acl = Acl::load(&processed, vec![capability("c", &["*"], vec![reference("p:both")])])
        .unwrap();
    assert_eq!(acl.granted[0].len(), 2);
}

#[test]
fn capability_files_keep_one_capability_per_identifier() {
    let a = capability("a", &["1"], Vec::new());
    let b = capability("b", &["2"], Vec::new());
    let a2 = capability("a", &["3"], Vec::new());
    let c = capability("c", &["4"], Vec::new());
    let list = parse_capabilities(vec![
        CapabilityFile::Capability(a.clone()),
        CapabilityFile::List(vec![b.clone(), a2.clone()]),
        CapabilityFile::NamedList { capabilities: vec![c.clone()] },
    ]);
    assert_eq!(list, vec![a2, b.clone(), c]);
    assert_eq!(CapabilityFile::List(vec![b.clone()]).into_capabilities(), vec![b]);
    assert!(parse_capabilities(Vec::new()).is_empty());
}

#[test]
fn errors_say_what_they_are_about() {
    assert_eq!(Error::PayloadTooLarge.message(), "payload too large for a script string");
    assert_eq!(
        Error::UnknownPermission("fs:nope".to_string()).message(),
        "unknown permission or permission set fs:nope"
    );
    assert_eq!(
        Error::CyclicPermissionSet("p:s".to_string()).message(),
        "permission set p:s contains itself"
    );
    assert_eq!(Error::Json.message(), "message cannot be written as JSON");
    assert_eq!(
        Error::UnknownCapabilityFormat("yaml".to_string()).message(),
        "unknown capability format yaml"
    );
}

#[test]
fn capability_files_are_toml_or_json() {
    assert_eq!(capability_format("toml"), Ok(CapabilityFormat::Toml));
    assert_eq!(capability_format("json"), Ok(CapabilityFormat::Json));
    assert_eq!(
        capability_format("yaml"),
        Err(Error::UnknownCapabilityFormat("yaml".to_string()))
    );
    assert_eq!(capability_format(""), Err(Error::UnknownCapabilityFormat(String::new())));
}
