use cangjie_zed::config::LspConfig;
use cangjie_zed::lsp_server::{
    build_multi_module, dependency_abs_path, dependency_manifest_path, find_lsp_server, lsp_args,
    parse_package_name, parse_path_dependencies, resolve_module, sdk_library_paths, with_sdk_paths,
};
use cangjie_zed::util::Os;

fn env(pairs: &[(&str, &str)]) -> Vec<(String, String)> {
    pairs
        .iter()
        .map(|(k, v)| (k.to_string(), v.to_string()))
        .collect()
}

fn strings(v: &[&str]) -> Vec<String> {
    v.iter().map(|s| s.to_string()).collect()
}

#[test]
fn server_lookup_order() {
    let shell = env(&[("HOME", "/h"), ("CANGJIE_HOME", "/sdk")]);
    let cfg = Some(LspConfig {
        cangjie_home: None,
        lsp_server_path: Some("~/LSPServer".to_string()),
        sdk_auto_download: None,
        check_updates: None,
    });
    assert_eq!(find_lsp_server(&cfg, Os::Linux, &shell, None, None), Ok("/h/LSPServer".to_string()));
    assert_eq!(
        find_lsp_server(&None, Os::Linux, &shell, None, Some("/usr/bin/LSPServer".to_string())),
        Ok("/sdk/tools/bin/LSPServer".to_string())
    );
    let win = env(&[("OS", "Windows_NT"), ("CANGJIE_HOME", "C:\\sdk")]);
    assert_eq!(
        find_lsp_server(&None, Os::Windows, &win, None, None),
        Ok("C:\\sdk\\tools\\bin\\LSPServer.exe".to_string())
    );
    assert_eq!(
        find_lsp_server(&None, Os::Linux, &env(&[]), None, Some("/usr/bin/LSPServer".to_string())),
        Ok("/usr/bin/LSPServer".to_string())
    );
    assert_eq!(
        find_lsp_server(&None, Os::Linux, &env(&[]), None, None),
        Err("LSPServer not found. Set CANGJIE_HOME or configure lsp_server_path in LSP settings.\n\nInstall the Cangjie SDK from https://cangjie-lang.cn/".to_string())
    );
}

#[test]
fn sdk_paths() {
    assert_eq!(
        sdk_library_paths("/sdk", false),
        strings(&[
            "/sdk/runtime/lib/linux_x86_64_cjnative",
            "/sdk/lib/linux_x86_64_cjnative",
            "/sdk/bin",
            "/sdk/tools/bin",
            "/sdk/tools/lib",
        ])
    );
    assert_eq!(
        sdk_library_paths("C:\\sdk", true),
        strings(&[
            "C:\\sdk\\runtime\\lib\\windows_x86_64_cjnative",
            "C:\\sdk\\lib\\windows_x86_64_cjnative",
            "C:\\sdk\\bin",
            "C:\\sdk\\tools\\bin",
            "C:\\sdk\\tools\\lib",
        ])
    );
}

#[test]
fn path_gets_sdk_prefix() {
    let out = with_sdk_paths(env(&[("HOME", "/h"), ("PATH", "/usr/bin")]), "/sdk", false);
    assert_eq!(
        out,
        env(&[
            ("HOME", "/h"),
            ("PATH", "/sdk/runtime/lib/linux_x86_64_cjnative:/sdk/lib/linux_x86_64_cjnative:/sdk/bin:/sdk/tools/bin:/sdk/tools/lib:/usr/bin"),
        ])
    );
    let out = with_sdk_paths(env(&[("Path", "C:\\W")]), "D:\\c", true);
    assert_eq!(
        out,
        env(&[(
            "Path",
            "D:\\c\\runtime\\lib\\windows_x86_64_cjnative;D:\\c\\lib\\windows_x86_64_cjnative;D:\\c\\bin;D:\\c\\tools\\bin;D:\\c\\tools\\lib;C:\\W"
        )])
    );
    assert_eq!(with_sdk_paths(env(&[("PATHX", "a")]), "/s", false), env(&[("PATHX", "a")]));
    assert_eq!(with_sdk_paths(Vec::new(), "/s", false), Vec::new());
}

#[test]
fn launch_arguments() {
    assert_eq!(lsp_args(), strings(&["--enable-log=true", "--log-path=D:/cangjie-lspserver.log"]));
}

#[test]
fn package_names() {
    let toml = "[package]\n  name = \"demo\"\nversion = \"1.0\"\n";
    assert_eq!(parse_package_name(toml), Some("demo".to_string()));
    assert_eq!(parse_package_name("name = \"x\"\n[package]\n"), None);
    assert_eq!(parse_package_name("[package]\n[dependencies]\nname = \"x\""), None);
    assert_eq!(parse_package_name("[package]\r\nname=\"crlf\"\r\n"), Some("crlf".to_string()));
    assert_eq!(parse_package_name("[package]\nname = \"\"\nname = \"second\""), Some("second".to_string()));
    assert_eq!(parse_package_name("[package]\nname = \"a=b\""), Some("a".to_string()));
    assert_eq!(parse_package_name("[package]\nnamespace = \"ns\""), Some("ns".to_string()));
    assert_eq!(parse_package_name(""), None);
    assert_eq!(parse_package_name("name = \"x\"\n[dependencies.a]\nname = \"y\""), None);
}

#[test]
fn path_dependencies() {
    let toml = "[package]\nname = \"app\"\n\n[dependencies.util]\npath = \"../util\"\n\n[dev-dependencies.testkit]\n  path = \"./testkit\"\n[dependencies.remote]\ngit = \"https://x\"\n[other]\npath = \"ignored\"\n";
    assert_eq!(
        parse_path_dependencies(toml),
        vec![
            ("util".to_string(), "../util".to_string()),
            ("testkit".to_string(), "./testkit".to_string()),
        ]
    );
    assert_eq!(parse_path_dependencies("path = \"x\""), Vec::new());
    assert_eq!(parse_path_dependencies("[dependencies.a]\npath = \"\""), Vec::new());
}

#[test]
fn dependency_paths() {
    assert_eq!(dependency_abs_path("/ws", '/', "../util"), "/ws/../util");
    assert_eq!(dependency_abs_path("C:\\ws", '\\', "../util"), "C:\\ws\\..\\util");
    assert_eq!(dependency_abs_path("C:\\ws", '\\', "libs/util"), "C:\\ws\\libs/util");
    assert_eq!(dependency_manifest_path("..\\util"), "../util/cjpm.toml");
    assert_eq!(
        resolve_module("/ws", '/', "util", "../util", &Some("[package]\nname = \"utilpkg\"".to_string())),
        Some(("/ws/../util".to_string(), "utilpkg".to_string()))
    );
    assert_eq!(
        resolve_module("/ws", '/', "util", "../util", &Some(String::new())),
        Some(("/ws/../util".to_string(), "util".to_string()))
    );
    assert_eq!(resolve_module("/ws", '/', "util", "../util", &None), None);
}

#[test]
fn multi_module_option() {
    let toml = "[package]\nname = \"app\"\n[dependencies.util]\npath = \"../util\"\n[dependencies.gone]\npath = \"gone\"\n";
    let mods = build_multi_module(
        toml,
        "/ws",
        '/',
        "file:///ws",
        &vec![Some("[package]\nname = \"utilpkg\"".to_string()), None],
    );
    assert_eq!(mods.len(), 2);
    assert_eq!(mods[0].uri, "file:////ws/../util");
    assert_eq!(mods[0].name, "utilpkg");
    assert!(mods[0].required.is_empty());
    assert_eq!(mods[1].uri, "file:///ws");
    assert_eq!(mods[1].name, "app");
    assert_eq!(mods[1].required, vec![("util".to_string(), "file:////ws/../util".to_string())]);

    let mods = build_multi_module("", "C:\\a\\proj", '\\', "file:///C:/a/proj", &Vec::new());
    assert_eq!(mods.len(), 1);
    assert_eq!(mods[0].name, "proj");
}
