use cangjie_zed::config::{
    check_updates_mode, get_cangjie_home, get_check_updates, get_lsp_server_path, is_autodownload,
    CheckUpdates, LspConfig,
};
use cangjie_zed::util::{
    expand_home_path, is_windows, parent_dir, path_sep, path_to_file_uri, server_name, Os,
};

fn env(pairs: &[(&str, &str)]) -> Vec<(String, String)> {
    pairs
        .iter()
        .map(|(k, v)| (k.to_string(), v.to_string()))
        .collect()
}

fn config(home: Option<&str>, server: Option<&str>, auto: Option<bool>, check: Option<&str>) -> Option<LspConfig> {
    Some(LspConfig {
        cangjie_home: home.map(|s| s.to_string()),
        lsp_server_path: server.map(|s| s.to_string()),
        sdk_auto_download: auto,
        check_updates: check.map(|s| s.to_string()),
    })
}

#[test]
fn windows_is_detected_from_os_variable() {
    assert!(is_windows(&env(&[("PATH", "x"), ("OS", "Windows_NT")])));
    assert!(!is_windows(&env(&[("OS", "Linux")])));
    assert!(!is_windows(&env(&[("os", "Windows_NT")])));
    assert!(!is_windows(&env(&[])));
    assert!(is_windows(&env(&[("OS", "Microsoft Windows 11")])));
}

#[test]
fn server_names_and_separators() {
    assert_eq!(server_name(true), "LSPServer.exe");
    assert_eq!(server_name(false), "LSPServer");
    assert_eq!(path_sep(true), '\\');
    assert_eq!(path_sep(false), '/');
}

#[test]
fn parent_dir_cases() {
    assert_eq!(parent_dir("/opt/cangjie/tools/bin/LSPServer", false), "/opt/cangjie/tools/bin");
    assert_eq!(parent_dir("LSPServer", false), ".");
    assert_eq!(parent_dir("C:\\sdk\\tools\\bin\\LSPServer.exe", true), "C:\\sdk\\tools\\bin");
    assert_eq!(parent_dir("C:/sdk/bin/LSPServer.exe", true), "C:/sdk/bin");
    assert_eq!(parent_dir("C:\\a/b", true), "C:");
    assert_eq!(parent_dir("C:\\a\\b", false), ".");
    assert_eq!(parent_dir("/LSPServer", false), "");
}

#[test]
fn home_expansion() {
    let e = env(&[("HOME", "/home/u")]);
    assert_eq!(expand_home_path(Os::Linux, &e, "~/sdk".to_string()), Ok("/home/u/sdk".to_string()));
    assert_eq!(expand_home_path(Os::Mac, &e, "~/a/~".to_string()), Ok("/home/u/a//home/u".to_string()));
    assert_eq!(expand_home_path(Os::Windows, &e, "~/sdk".to_string()), Ok("~/sdk".to_string()));
    assert_eq!(expand_home_path(Os::Linux, &e, "/abs".to_string()), Ok("/abs".to_string()));
    assert_eq!(
        expand_home_path(Os::Linux, &env(&[("PATH", "/bin")]), "~/sdk".to_string()),
        Err("Failed to expand ~".to_string())
    );
    let two = env(&[("HOME", "/first"), ("HOME", "/second")]);
    assert_eq!(expand_home_path(Os::Linux, &two, "~".to_string()), Ok("/first".to_string()));
}

#[test]
fn file_uris() {
    assert_eq!(path_to_file_uri("/home/user/a b.cj"), "file:///home/user/a%20b.cj");
    assert_eq!(path_to_file_uri("C:\\Users\\me\\proj"), "file:///C:/Users/me/proj");
    assert_eq!(path_to_file_uri("/tmp/é"), "file:///tmp/%C3%A9");
    assert_eq!(path_to_file_uri(""), "file:///");
    assert_eq!(path_to_file_uri("/a-b_c.d~e@f:g"), "file:///a-b_c.d~e@f:g");
    assert_eq!(path_to_file_uri("rel\\x y#"), "file:///rel/x%20y%23");
    assert_eq!(path_to_file_uri("a\\"), "file:///a/");
}

#[test]
fn cangjie_home_resolution_order() {
    let shell = env(&[("HOME", "/home/u"), ("cangjie_home", "/shell/sdk")]);
    assert_eq!(
        get_cangjie_home(&config(Some("~/sdk"), None, None, None), Os::Linux, &shell, Some("/sys".to_string())),
        Some("/home/u/sdk".to_string())
    );
    assert_eq!(
        get_cangjie_home(&config(None, None, None, None), Os::Linux, &shell, Some("/sys".to_string())),
        Some("/shell/sdk".to_string())
    );
    assert_eq!(
        get_cangjie_home(&None, Os::Linux, &env(&[("CANGJIE_HOME", "")]), Some("/sys".to_string())),
        Some("/sys".to_string())
    );
    assert_eq!(get_cangjie_home(&None, Os::Linux, &env(&[]), Some(String::new())), None);
    assert_eq!(get_cangjie_home(&None, Os::Linux, &env(&[]), None), None);
    // A `~` that cannot be expanded falls through to the environment.
    assert_eq!(
        get_cangjie_home(&config(Some("~/x"), None, None, None), Os::Linux, &env(&[("CANGJIE_HOME", "/e")]), None),
        Some("/e".to_string())
    );
}

#[test]
fn server_path_setting() {
    let shell = env(&[("HOME", "/h")]);
    assert_eq!(
        get_lsp_server_path(&config(None, Some("~/bin/LSPServer"), None, None), Os::Linux, &shell),
        Some("/h/bin/LSPServer".to_string())
    );
    assert_eq!(get_lsp_server_path(&config(None, None, None, None), Os::Linux, &shell), None);
    assert_eq!(get_lsp_server_path(&None, Os::Linux, &shell), None);
}

#[test]
fn autodownload_and_updates() {
    assert!(is_autodownload(&config(None, None, Some(true), None)));
    assert!(!is_autodownload(&config(None, None, Some(false), None)));
    assert!(!is_autodownload(&config(None, None, None, None)));
    assert!(!is_autodownload(&None));
    assert_eq!(get_check_updates(&config(None, None, None, Some("Once"))), CheckUpdates::Once);
    assert_eq!(get_check_updates(&config(None, None, None, Some("NEVER"))), CheckUpdates::Never);
    assert_eq!(get_check_updates(&config(None, None, None, Some("always"))), CheckUpdates::Always);
    assert_eq!(get_check_updates(&config(None, None, None, Some("sometimes"))), CheckUpdates::Always);
    assert_eq!(get_check_updates(&None), CheckUpdates::Always);
    assert_eq!(CheckUpdates::default(), CheckUpdates::Always);
    assert_eq!(check_updates_mode("once"), CheckUpdates::Once);
    assert_eq!(check_updates_mode("Once"), CheckUpdates::Always);
}
