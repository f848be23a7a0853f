use tauri_ipc::attributes::{Attributes, PluginBuilder, WindowsAttributes};
use tauri_ipc::config::{
    default_build, default_dev_path, default_embedded_server, default_height, default_host,
    default_port, default_resizable, default_tauri, default_title, default_width, default_window,
    setup_server_url, BuildConfig, Cli, CliArg, CliConfig, Config, EmbeddedServerConfig,
    TauriConfig, WindowConfig,
};

#[test]
fn test_defaults() {
    // get default tauri config
    let t_config = default_tauri();
    // get default build config
    let b_config = default_build();
    // get default dev path
    let d_path = default_dev_path();
    // get default embedded server
    let de_server = default_embedded_server();
    // get default window
    let d_window = default_window();
    // get default title
    let d_title = default_title();

    // create a tauri config.
    let tauri = TauriConfig {
        window: WindowConfig {
            width: 800,
            height: 600,
            resizable: true,
            title: String::from("Tauri App"),
            fullscreen: false,
        },
        embedded_server: EmbeddedServerConfig {
            host: String::from("http://127.0.0.1"),
            port: String::from("random"),
        },
        cli: None,
    };

    // create a build config
    let build = BuildConfig { dev_path: String::from("") };

    // test the configs
    assert_eq!(t_config, tauri);
    assert_eq!(b_config, build);
    assert_eq!(de_server, tauri.embedded_server);
    assert_eq!(d_path, String::from(""));
    assert_eq!(d_title, tauri.window.title);
    assert_eq!(d_window, tauri.window);
}

#[test]
fn single_defaults_have_their_values() {
    assert_eq!(default_width(), 800);
    assert_eq!(default_height(), 600);
    assert!(default_resizable());
    assert_eq!(default_host(), "http://127.0.0.1");
    assert_eq!(default_port(), "random");
}

#[test]
fn the_server_url_gets_a_scheme_when_it_has_none() {
    let mut config = Config { tauri: default_tauri(), build: default_build() };
    assert_eq!(setup_server_url("3000".to_string(), &config), "http://127.0.0.1:3000");
    config.tauri.embedded_server.host = "localhost".to_string();
    assert_eq!(setup_server_url("80".to_string(), &config), "http://localhost:80");
    config.tauri.embedded_server.host = "https://example.com".to_string();
    assert_eq!(setup_server_url("443".to_string(), &config), "https://example.com:443");
    config.tauri.embedded_server.host = "ht".to_string();
    assert_eq!(setup_server_url("tp".to_string(), &config), "http://ht:tp");
    config.tauri.embedded_server.host = "htt".to_string();
    assert_eq!(setup_server_url("".to_string(), &config), "http://htt:");
}

#[test]
fn the_command_line_hands_out_its_parts() {
    let cli = CliConfig {
        description: Some("short".to_string()),
        long_description: Some("long".to_string()),
        before_help: Some("before".to_string()),
        after_help: None,
        args: Some(vec![CliArg { name: "config".to_string(), short: Some('c'), ..Default::default() }]),
        subcommands: None,
    };
    assert_eq!(cli.description(), Some(&"short".to_string()));
    assert_eq!(cli.long_description(), Some(&"short".to_string()));
    assert_eq!(cli.before_help(), Some(&"before".to_string()));
    assert_eq!(cli.after_help(), None);
    assert_eq!(cli.args().unwrap().len(), 1);
    assert!(cli.subcommands().is_none());
}

#[test]
fn build_attributes_start_from_defaults() {
    let windows = WindowsAttributes::new();
    assert_eq!(windows.window_icon_path, "icons/icon.ico");
    assert_eq!(windows.sdk_dir, None);
    let windows = windows.window_icon_path("app.ico").sdk_dir("C:/sdk");
    assert_eq!(windows.window_icon_path, "app.ico");
    assert_eq!(windows.sdk_dir, Some("C:/sdk".to_string()));
    assert_eq!(Attributes::new().windows_attributes, WindowsAttributes::new());
    assert_eq!(Attributes::new().windows_attributes(windows.clone()).windows_attributes, windows);

    let plugin = PluginBuilder::new();
    assert_eq!(plugin, PluginBuilder { android_path: None, ios_path: None });
    let plugin = plugin.android_path("android").ios_path("ios");
    assert_eq!(plugin.android_path, Some("android".to_string()));
    assert_eq!(plugin.ios_path, Some("ios".to_string()));
}
