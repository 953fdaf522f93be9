use cangjie_zed::cangjie::{
    initialization_options, launch_command, launch_plan, missing_home_error, proxy_lookup_error,
    server_lookup_error, sibling_proxy_path, toolchain_dir, toolchain_lib, workspace_uri,
    CangjieExtension, CodeLabel, CodeLabelSpan, Completion, CompletionKind, Symbol, SymbolKind,
};

fn env(pairs: &[(&str, &str)]) -> Vec<(String, String)> {
    pairs
        .iter()
        .map(|(k, v)| (k.to_string(), v.to_string()))
        .collect()
}

fn range(span: &CodeLabelSpan) -> (usize, usize) {
    match span {
        CodeLabelSpan::CodeRange { start, end } => (*start, *end),
        _ => panic!("expected a code range"),
    }
}

fn completion(label: &str, detail: Option<&str>, kind: Option<CompletionKind>) -> Option<CodeLabel> {
    CangjieExtension::new().label_for_completion(Completion {
        label: label.to_string(),
        detail: detail.map(|d| d.to_string()),
        kind,
    })
}

fn symbol(name: &str, kind: SymbolKind) -> CodeLabel {
    CangjieExtension::new()
        .label_for_symbol(Symbol { name: name.to_string(), kind })
        .unwrap()
}

#[test]
fn extension_remembers_proxy() {
    let mut ext = CangjieExtension::new();
    assert_eq!(ext.cached_proxy_path(), None);
    ext.set_cached_proxy_path(Some("/p".to_string()));
    assert_eq!(ext.cached_proxy_path(), Some("/p".to_string()));
}

#[test]
fn proxy_beside_server() {
    assert_eq!(sibling_proxy_path("/sdk/tools/bin/LSPServer", false), "/sdk/tools/bin/cangjie-lsp-proxy");
    assert_eq!(
        sibling_proxy_path("C:\\sdk\\tools\\bin\\LSPServer.exe", true),
        "C:\\sdk\\tools\\bin\\cangjie-lsp-proxy.exe"
    );
    assert_eq!(sibling_proxy_path("LSPServer", false), "./cangjie-lsp-proxy");
    for (server, win) in [("/sdk/tools/bin/LSPServer", false), ("C:\\s\\LSPServer.exe", true), ("D:/x/LSPServer.exe", true)] {
        let sibling = sibling_proxy_path(server, win);
        assert_eq!(cangjie_zed::util::parent_dir(&sibling, win), cangjie_zed::util::parent_dir(server, win));
    }
    assert_eq!(cangjie_zed::proxy::proxy_exec(cangjie_zed::util::Os::Windows), "cangjie-lsp-proxy.exe");
}

#[test]
fn error_messages() {
    assert_eq!(
        missing_home_error(),
        "CANGJIE_HOME not set. Install the Cangjie SDK from https://cangjie-lang.cn/\nor set cangjie_home in LSP settings."
    );
    assert_eq!(server_lookup_error("x"), "Failed to find LSPServer: x");
    assert_eq!(proxy_lookup_error("y"), "Failed to get proxy binary path: y");
}

#[test]
fn launch_decisions() {
    assert_eq!(
        launch_plan(Some("/sdk".to_string()), false, Ok("/sdk/tools/bin/LSPServer".to_string())),
        Ok((Some("/sdk".to_string()), "/sdk/tools/bin/LSPServer".to_string()))
    );
    assert_eq!(
        launch_plan(Some(String::new()), true, Ok("/x/LSPServer".to_string())),
        Ok((Some(String::new()), "/x/LSPServer".to_string()))
    );
    assert_eq!(
        launch_plan(None, false, Ok("/usr/bin/LSPServer".to_string())),
        Ok((None, "/usr/bin/LSPServer".to_string()))
    );
    assert_eq!(launch_plan(None, true, Ok("/x/LSPServer".to_string())), Err(missing_home_error()));
    assert_eq!(launch_plan(None, false, Err("x".to_string())), Err(missing_home_error()));
    assert_eq!(
        launch_plan(Some("/sdk".to_string()), false, Err("x".to_string())),
        Err("Failed to find LSPServer: x".to_string())
    );
}

#[test]
fn server_command() {
    let cmd = launch_command(
        env(&[("PATH", "/usr/bin")]),
        Some("/sdk".to_string()),
        "/sdk/tools/bin/LSPServer".to_string(),
        Ok("/sdk/tools/bin/cangjie-lsp-proxy".to_string()),
    )
    .unwrap();
    assert_eq!(cmd.command, "/sdk/tools/bin/cangjie-lsp-proxy");
    assert_eq!(
        cmd.args,
        vec![
            "/sdk/tools/bin/LSPServer".to_string(),
            "--enable-log=true".to_string(),
            "--log-path=D:/cangjie-lspserver.log".to_string(),
        ]
    );
    assert_eq!(cmd.env.len(), 1);
    assert!(cmd.env[0].1.starts_with("/sdk/runtime/lib/linux_x86_64_cjnative:"));
    assert!(cmd.env[0].1.ends_with(":/usr/bin"));

    let cmd = launch_command(
        env(&[("OS", "Windows_NT"), ("Path", "C:\\W")]),
        Some("D:\\c".to_string()),
        "s".to_string(),
        Ok("p".to_string()),
    )
    .unwrap();
    assert_eq!(cmd.env[0], ("OS".to_string(), "Windows_NT".to_string()));
    assert!(cmd.env[1].1.starts_with("D:\\c\\runtime\\lib\\windows_x86_64_cjnative;"));

    let cmd = launch_command(env(&[("PATH", "/usr/bin")]), None, "s".to_string(), Ok("p".to_string())).unwrap();
    assert_eq!(cmd.env, env(&[("PATH", "/usr/bin")]));
    // An empty home still puts the SDK paths in front of PATH.
    let cmd = launch_command(env(&[("PATH", "x")]), Some(String::new()), "s".to_string(), Ok("p".to_string())).unwrap();
    assert_eq!(
        cmd.env,
        env(&[("PATH", "/runtime/lib/linux_x86_64_cjnative:/lib/linux_x86_64_cjnative:/bin:/tools/bin:/tools/lib:x")])
    );

    assert_eq!(
        launch_command(env(&[]), Some("/sdk".to_string()), "s".to_string(), Err("gone".to_string())).err(),
        Some("Failed to get proxy binary path: gone".to_string())
    );
}

#[test]
fn init_options() {
    let o = initialization_options("/sdk", false, "/ws", Some("/t/lib".to_string()));
    assert_eq!(o.std_lib_path, "/sdk/lib");
    assert_eq!(o.modules_home, "/sdk");
    assert_eq!(o.target_lib, "/ws/.cache/lsp");
    assert!(!o.telemetry_option);
    assert_eq!(o.extension_path, "");
    assert!(o.condition_compile_option.is_empty());
    assert!(o.single_condition_compile_option.is_empty());
    assert!(o.condition_compile_paths.is_empty());
    let o = initialization_options("", true, "C:\\ws", Some("C:\\t\\lib".to_string()));
    assert_eq!(o.std_lib_path, "C:\\t\\lib");
    assert_eq!(o.modules_home, "");
    assert_eq!(o.target_lib, "C:\\ws\\.cache\\lsp");
    let o = initialization_options("", false, "/ws", None);
    assert_eq!(o.std_lib_path, "");
    assert_eq!(toolchain_dir("/home/u", false), "/home/u/.cjv/toolchains/lts-1.0.5");
    assert_eq!(toolchain_dir("C:\\Users\\u", true), "C:\\Users\\u\\.cjv\\toolchains\\lts-1.0.5");
    assert_eq!(toolchain_lib("/d", false), "/d/lib");
    assert_eq!(toolchain_lib("C:\\d", true), "C:\\d\\lib");
    assert_eq!(workspace_uri("C:\\ws\\a"), "file:///C:/ws/a");
}

#[test]
fn completion_labels() {
    let l = completion("count", Some("Int64"), Some(CompletionKind::Variable)).unwrap();
    assert_eq!(l.code, "count: Int64");
    assert_eq!(range(&l.spans[0]), (0, 5));
    match &l.spans[1] {
        CodeLabelSpan::Literal { text, highlight_name } => {
            assert_eq!(text, ": Int64");
            assert_eq!(*highlight_name, None);
        }
        _ => panic!("expected a literal"),
    }
    assert_eq!(l.filter_range, (0, 5));

    let l = completion("x", None, Some(CompletionKind::Field)).unwrap();
    assert_eq!(l.code, "x");
    match &l.spans[1] {
        CodeLabelSpan::Literal { text, .. } => assert_eq!(text, ""),
        _ => panic!("expected a literal"),
    }

    let l = completion("add", Some("(a: Int64): Int64"), Some(CompletionKind::Method)).unwrap();
    assert_eq!(l.code, "add(a: Int64): Int64");
    assert_eq!(l.spans.len(), 1);
    assert_eq!(range(&l.spans[0]), (0, 3));
    let l = completion("init", None, Some(CompletionKind::Constructor)).unwrap();
    assert_eq!(l.code, "init()");

    let l = completion("Point", None, Some(CompletionKind::Class)).unwrap();
    assert_eq!(l.code, "class Point");
    assert_eq!(range(&l.spans[0]), (6, 11));
    assert_eq!(l.filter_range, (0, 5));
    let l = completion("Shape", None, Some(CompletionKind::Interface)).unwrap();
    assert_eq!(l.code, "interface Shape");
    assert_eq!(range(&l.spans[0]), (10, 15));
    let l = completion("Color", None, Some(CompletionKind::Enum)).unwrap();
    assert_eq!(range(&l.spans[0]), (5, 10));

    let l = completion("let", None, Some(CompletionKind::Keyword)).unwrap();
    assert_eq!(l.code, "let");
    assert_eq!(range(&l.spans[0]), (0, 3));
    let l = completion("m", None, Some(CompletionKind::Module)).unwrap();
    assert_eq!(l.code, "m");
    assert!(completion("m", None, None).is_none());

    // Byte offsets for non-ASCII labels.
    let l = completion("数据", None, Some(CompletionKind::Class)).unwrap();
    assert_eq!(range(&l.spans[0]), (6, 12));
    assert_eq!(l.filter_range, (0, 6));
}

#[test]
fn symbol_labels() {
    let l = symbol("Point", SymbolKind::Class);
    assert_eq!(l.code, "class Point {}");
    assert_eq!(range(&l.spans[0]), (6, 11));
    assert_eq!(l.filter_range, (6, 11));
    assert_eq!(&l.code[6..11], "Point");
    let l = symbol("Shape", SymbolKind::Interface);
    assert_eq!(l.code, "interface Shape {}");
    assert_eq!(range(&l.spans[0]), (10, 15));
    let l = symbol("Color", SymbolKind::Enum);
    assert_eq!(l.code, "enum Color {}");
    let l = symbol("run", SymbolKind::Function);
    assert_eq!(l.code, "func run() {}");
    assert_eq!(range(&l.spans[0]), (5, 8));
    let l = symbol("run", SymbolKind::Method);
    assert_eq!(l.code, "func run() {}");
    let l = symbol("v", SymbolKind::Variable);
    assert_eq!(l.code, "let v");
    assert_eq!(range(&l.spans[0]), (4, 5));
    let l = symbol("C", SymbolKind::Constant);
    assert_eq!(l.code, "const C");
    assert_eq!(l.filter_range, (6, 7));
    let l = symbol("pkg", SymbolKind::Package);
    assert_eq!(l.code, "pkg");
    assert_eq!(range(&l.spans[0]), (0, 3));
    let l = symbol("名字", SymbolKind::Class);
    assert_eq!(range(&l.spans[0]), (6, 12));
    assert_eq!(&l.code[6..12], "名字");
}
