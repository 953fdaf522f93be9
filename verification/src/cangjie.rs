//! The extension itself: the server launch command, its initialization
//! options and the labels shown for completions and symbols.

use vstd::prelude::*;
use vstd::utf8::{encode_utf8, is_ascii_chars, is_ascii_chars_encode_utf8};
use crate::proxy::spec_proxy_exec;
use crate::lsp_server::{opt_string_view, lsp_args, sep_join, spec_lsp_args, with_sdk_paths, sdk_env_value};
use crate::text::{lemma_encode_utf8_concat, append_char, replace_char, replace_char_exec, str_chars, string_from_chars, views};
use crate::util::{law_parent_dir_of_child, spec_server_name, Os, is_windows, parent_dir, path_sep, spec_is_windows, spec_parent_dir, spec_path_sep};

verus! {

/// The extension's state: the proxy path found last time.
pub struct CangjieExtension {
    cached_proxy_path: Option<String>,
}

impl CangjieExtension {
    /// The proxy path remembered by the extension.
    pub closed spec fn remembered(&self) -> Option<Seq<char>> {
        match self.cached_proxy_path {
            Some(p) => Some(p@),
            None => None,
        }
    }

    /// A fresh extension, remembering no proxy path.
    pub fn new() -> (r: Self)
        ensures
            r.remembered() is None,
    {
        CangjieExtension { cached_proxy_path: None }
    }

    /// The proxy path remembered by the extension.
    pub fn cached_proxy_path(&self) -> (r: Option<String>)
        ensures
            r matches Some(p) ==> self.remembered() == Some(p@),
            r is None ==> self.remembered() is None,
    {
        match &self.cached_proxy_path {
            Some(p) => Some(p.clone()),
            None => None,
        }
    }

    /// Replaces the remembered proxy path.
    pub fn set_cached_proxy_path(&mut self, path: Option<String>)
        ensures
            final(self).remembered() == match path {
                Some(p) => Some(p@),
                None => None,
            },
    {
        self.cached_proxy_path = path;
    }
}

/// The proxy's file name beside the language server: the server's name with
/// `LSPServer` replaced by `cangjie-lsp-proxy`.
pub open spec fn spec_sibling_proxy_name(is_win: bool) -> Seq<char> {
    if is_win {
        "cangjie-lsp-proxy.exe"@
    } else {
        "cangjie-lsp-proxy"@
    }
}

/// Where a proxy installed beside the language server would be.
pub open spec fn spec_sibling_proxy_path(server_path: Seq<char>, is_win: bool) -> Seq<char> {
    sep_join(spec_parent_dir(server_path, is_win), spec_path_sep(is_win), spec_sibling_proxy_name(is_win))
}

/// The path of a proxy installed in the language server's directory.
pub fn sibling_proxy_path(server_path: &str, is_win: bool) -> (r: String)
    ensures
        r@ == spec_sibling_proxy_path(server_path@, is_win),
{
    let name = if is_win {
        "cangjie-lsp-proxy.exe"
    } else {
        "cangjie-lsp-proxy"
    };
    let dir = parent_dir(server_path, is_win);
    let r = append_char(String::from_str(dir), path_sep(is_win)).concat(name);
    r
}

/// The message given when the SDK home is unknown.
pub open spec fn missing_home_message() -> Seq<char> {
    "CANGJIE_HOME not set. Install the Cangjie SDK from https://cangjie-lang.cn/\nor set cangjie_home in LSP settings."@
}

/// The error given when the SDK home is unknown.
pub fn missing_home_error() -> (r: String)
    ensures
        r@ == missing_home_message(),
{
    String::from_str(
        "CANGJIE_HOME not set. Install the Cangjie SDK from https://cangjie-lang.cn/\n\
         or set cangjie_home in LSP settings.",
    )
}

/// The error given when the language server cannot be found.
pub fn server_lookup_error(err: &str) -> (r: String)
    ensures
        r@ == "Failed to find LSPServer: "@ + err@,
{
    String::from_str("Failed to find LSPServer: ").concat(err)
}

/// The error given when the proxy cannot be found.
pub fn proxy_lookup_error(err: &str) -> (r: String)
    ensures
        r@ == "Failed to get proxy binary path: "@ + err@,
{
    String::from_str("Failed to get proxy binary path: ").concat(err)
}

/// A command that starts the language server.
pub struct ServerCommand {
    pub command: String,
    pub args: Vec<String>,
    pub env: Vec<(String, String)>,
}

/// What to launch, from the SDK home (if one was found), whether the server
/// path came from the user's `lsp_server_path` setting, and the server lookup.
/// With a home, a found server is launched with it. Without one, only a
/// server found on `PATH` is launched (without SDK paths); a configured
/// server or a failed lookup reports the missing home. With a home, a failed
/// lookup reports the lookup's error.
pub open spec fn spec_launch_plan(
    home: Option<Seq<char>>,
    configured: bool,
    server: Result<Seq<char>, Seq<char>>,
) -> Result<(Option<Seq<char>>, Seq<char>), Seq<char>> {
    match home {
        Some(h) => match server {
            Ok(p) => Ok((Some(h), p)),
            Err(e) => Err("Failed to find LSPServer: "@ + e),
        },
        None => match server {
            Ok(p) => if configured {
                Err(missing_home_message())
            } else {
                Ok((None, p))
            },
            Err(_) => Err(missing_home_message()),
        },
    }
}

/// The view of a lookup result.
pub open spec fn result_view(r: Result<String, String>) -> Result<Seq<char>, Seq<char>> {
    match r {
        Ok(s) => Ok(s@),
        Err(e) => Err(e@),
    }
}

/// Decides what to launch: `(SDK home if any, server path)`, or the error to
/// report. `configured` tells whether the server path is the user's
/// `lsp_server_path` setting.
pub fn launch_plan(home: Option<String>, configured: bool, server: Result<String, String>) -> (r: Result<
    (Option<String>, String),
    String,
>)
    ensures
        r is Ok <==> (server is Ok && (home is Some || !configured)),
        r matches Ok(p) ==> server matches Ok(s) && p.1@ == s@ && opt_string_view(p.0)
            == opt_string_view(home),
        r matches Err(m) ==> (home is None ==> m@ == missing_home_message()),
        r matches Err(m) ==> (home is Some ==> (server matches Err(e) && m@
            == "Failed to find LSPServer: "@ + e@)),
        r matches Ok(p) ==> spec_launch_plan(opt_string_view(home), configured, result_view(server))
            == Ok::<(Option<Seq<char>>, Seq<char>), Seq<char>>((opt_string_view(p.0), p.1@)),
        r matches Err(m) ==> spec_launch_plan(opt_string_view(home), configured, result_view(server))
            == Err::<(Option<Seq<char>>, Seq<char>), Seq<char>>(m@),
{
    match home {
        Some(h) => match server {
            Ok(p) => Ok((Some(h), p)),
            Err(e) => Err(server_lookup_error(e.as_str())),
        },
        None => match server {
            Ok(p) => if configured {
                Err(missing_home_error())
            } else {
                Ok((None, p))
            },
            Err(_) => Err(missing_home_error()),
        },
    }
}

/// The launch value of one environment variable: with an SDK home (even an
/// empty one) the SDK paths go in front of `PATH`; without one the
/// environment is kept.
pub open spec fn launch_env_value(key: Seq<char>, value: Seq<char>, home: Option<Seq<char>>, is_win: bool) -> Seq<
    char,
> {
    match home {
        Some(h) => sdk_env_value(key, value, h, is_win),
        None => value,
    }
}

/// The command that starts the language server through the proxy: the proxy
/// runs with the server path and the server's arguments, in the shell
/// environment with the SDK library paths in front of `PATH`; a failed
/// proxy lookup is reported instead.
pub fn launch_command(
    env: Vec<(String, String)>,
    home: Option<String>,
    server: String,
    proxy: Result<String, String>,
) -> (r: Result<ServerCommand, String>)
    ensures
        r is Err <==> proxy is Err,
        r matches Err(m) ==> proxy matches Err(e) && m@ == "Failed to get proxy binary path: "@
            + e@,
        r matches Ok(c) ==> {
            &&& proxy matches Ok(p) && c.command@ == p@
            &&& views(c.args@) == seq![server@] + spec_lsp_args()
            &&& c.env@.len() == env@.len()
            &&& forall|i: int|
                0 <= i < env@.len() ==> #[trigger] c.env@[i].0@ == env@[i].0@ && c.env@[i].1@
                    == launch_env_value(
                    env@[i].0@,
                    env@[i].1@,
                    opt_string_view(home),
                    spec_is_windows(env@),
                )
        },
{
    let proxy_path = match proxy {
        Ok(p) => p,
        Err(e) => {
            return Err(proxy_lookup_error(e.as_str()));
        },
    };
    let is_win = is_windows(env.as_slice());
    let env_vars = match &home {
        Some(h) => with_sdk_paths(env, h.as_str(), is_win),
        None => env,
    };
    let mut args: Vec<String> = Vec::new();
    args.push(server);
    let mut rest = lsp_args();
    let ghost rest_v = views(rest@);
    let ghost first = views(args@);
    args.append(&mut rest);
    assert(views(args@) =~= first + rest_v);
    Ok(ServerCommand { command: proxy_path, args, env: env_vars })
}

/// The options sent to the language server when it starts.
pub struct InitOptions {
    pub std_lib_path: String,
    pub modules_home: String,
    pub target_lib: String,
    pub telemetry_option: bool,
    pub extension_path: String,
    pub condition_compile_option: Vec<(String, String)>,
    pub single_condition_compile_option: Vec<(String, String)>,
    pub condition_compile_paths: Vec<String>,
}

/// Where a `cjv` toolchain lives under a user's home directory.
pub open spec fn spec_toolchain_dir(user_home: Seq<char>, is_win: bool) -> Seq<char> {
    if is_win {
        user_home + "\\.cjv\\toolchains\\lts-1.0.5"@
    } else {
        user_home + "/.cjv/toolchains/lts-1.0.5"@
    }
}

/// The `cjv` toolchain directory under a user's home directory.
pub fn toolchain_dir(user_home: &str, is_win: bool) -> (r: String)
    ensures
        r@ == spec_toolchain_dir(user_home@, is_win),
{
    if is_win {
        String::from_str(user_home).concat("\\.cjv\\toolchains\\lts-1.0.5")
    } else {
        String::from_str(user_home).concat("/.cjv/toolchains/lts-1.0.5")
    }
}

/// The library directory of a toolchain directory.
pub open spec fn spec_toolchain_lib(dir: Seq<char>, is_win: bool) -> Seq<char> {
    if is_win {
        dir + "\\lib"@
    } else {
        dir + "/lib"@
    }
}

/// The library directory of a toolchain directory.
pub fn toolchain_lib(dir: &str, is_win: bool) -> (r: String)
    ensures
        r@ == spec_toolchain_lib(dir@, is_win),
{
    if is_win {
        String::from_str(dir).concat("\\lib")
    } else {
        String::from_str(dir).concat("/lib")
    }
}

/// The initialization options: the standard library under the SDK home (or
/// the installed toolchain's library, or nothing), the SDK home itself, and
/// the `.cache/lsp` directory of the worktree as the build target.
pub open spec fn spec_initialization_options(
    cangjie_home: Seq<char>,
    is_win: bool,
    root_path: Seq<char>,
    toolchain_lib: Option<Seq<char>>,
) -> (Seq<char>, Seq<char>, Seq<char>) {
    let sep = spec_path_sep(is_win);
    (
        if cangjie_home.len() > 0 {
            sep_join(cangjie_home, sep, "lib"@)
        } else {
            match toolchain_lib {
                Some(l) => l,
                None => Seq::empty(),
            }
        },
        cangjie_home,
        sep_join(sep_join(root_path, sep, ".cache"@), sep, "lsp"@),
    )
}

/// Builds the initialization options. `toolchain_lib` is the library of an
/// installed toolchain, when one exists. Telemetry is off, the extension path
/// is empty, and no conditional compilation options or paths are given.
pub fn initialization_options(
    cangjie_home: &str,
    is_win: bool,
    root_path: &str,
    toolchain_lib: Option<String>,
) -> (r: InitOptions)
    ensures
        (r.std_lib_path@, r.modules_home@, r.target_lib@) == spec_initialization_options(
            cangjie_home@,
            is_win,
            root_path@,
            match toolchain_lib {
                Some(l) => Some(l@),
                None => None,
            },
        ),
        !r.telemetry_option,
        r.extension_path@ == Seq::<char>::empty(),
        r.condition_compile_option@.len() == 0,
        r.single_condition_compile_option@.len() == 0,
        r.condition_compile_paths@.len() == 0,
{
    let sep = path_sep(is_win);
    let std_lib_path = if !cangjie_home.is_empty() {
        append_char(String::from_str(cangjie_home), sep).concat("lib")
    } else {
        match toolchain_lib {
            Some(l) => l,
            None => String::new(),
        }
    };
    let target_lib = append_char(
        append_char(String::from_str(root_path), sep).concat(".cache"),
        sep,
    ).concat("lsp");
    InitOptions {
        std_lib_path,
        modules_home: String::from_str(cangjie_home),
        target_lib,
        telemetry_option: false,
        extension_path: String::new(),
        condition_compile_option: Vec::new(),
        single_condition_compile_option: Vec::new(),
        condition_compile_paths: Vec::new(),
    }
}

/// The `file:///` URI of a worktree root.
pub fn workspace_uri(root_path: &str) -> (r: String)
    ensures
        r@ == "file:///"@ + replace_char(root_path@, '\\', '/'),
{
    let chars = str_chars(root_path);
    let norm = replace_char_exec(&chars, '\\', '/');
    String::from_str("file:///").concat(string_from_chars(norm.as_slice()).as_str())
}

/// The kind of a completion item.
#[derive(Clone, Copy, Debug, PartialEq, Eq, Structural)]
pub enum CompletionKind {
    Text,
    Method,
    Function,
    Constructor,
    Field,
    Variable,
    Class,
    Interface,
    Module,
    Property,
    Unit,
    Value,
    Enum,
    Keyword,
    Snippet,
    Color,
    File,
    Reference,
    Folder,
    EnumMember,
    Constant,
    Struct,
    Event,
    Operator,
    TypeParameter,
    Other(i32),
}

/// The kind of a document symbol.
#[derive(Clone, Copy, Debug, PartialEq, Eq, Structural)]
pub enum SymbolKind {
    File,
    Module,
    Namespace,
    Package,
    Class,
    Method,
    Property,
    Field,
    Constructor,
    Enum,
    Interface,
    Function,
    Variable,
    Constant,
    String,
    Number,
    Boolean,
    Array,
    Object,
    Key,
    Null,
    EnumMember,
    Struct,
    Event,
    Operator,
    TypeParameter,
    Other(i32),
}

/// What a label is made of from a completion item.
pub struct Completion {
    pub label: String,
    pub detail: Option<String>,
    pub kind: Option<CompletionKind>,
}

/// What a label is made of from a document symbol.
pub struct Symbol {
    pub name: String,
    pub kind: SymbolKind,
}

/// A piece of a label: a byte range of its code, or literal text.
pub enum CodeLabelSpan {
    CodeRange { start: usize, end: usize },
    Literal { text: String, highlight_name: Option<String> },
}

/// A label: code to highlight, the spans shown, and the byte range used for
/// filtering.
pub struct CodeLabel {
    pub code: String,
    pub spans: Vec<CodeLabelSpan>,
    pub filter_range: (usize, usize),
}

/// The value of a span.
pub enum SpanView {
    CodeRange(usize, usize),
    Literal(Seq<char>, Option<Seq<char>>),
}

impl View for CodeLabelSpan {
    type V = SpanView;

    open spec fn view(&self) -> SpanView {
        match self {
            CodeLabelSpan::CodeRange { start, end } => SpanView::CodeRange(*start, *end),
            CodeLabelSpan::Literal { text, highlight_name } => SpanView::Literal(
                text@,
                match highlight_name {
                    Some(h) => Some(h@),
                    None => None,
                },
            ),
        }
    }
}

/// The value of a label: code, spans and filter range.
pub open spec fn label_view(l: CodeLabel) -> (Seq<char>, Seq<SpanView>, (usize, usize)) {
    (l.code@, l.spans@.map_values(|s: CodeLabelSpan| s@), l.filter_range)
}

/// The number of bytes of a text.
pub open spec fn byte_len(s: Seq<char>) -> usize {
    encode_utf8(s).len() as usize
}

/// A label whose only span is `[start, end)` of the code, filtered on
/// `[fs, fe)`.
pub open spec fn ranged(code: Seq<char>, start: usize, end: usize, fs: usize, fe: usize) -> (
    Seq<char>,
    Seq<SpanView>,
    (usize, usize),
) {
    (code, seq![SpanView::CodeRange(start, end)], (fs, fe))
}

/// The label of a completion: variables, fields and constants show their
/// type after `: `; methods and constructors show their signature (or `()`);
/// classes, interfaces and enums are highlighted after their keyword; other
/// kinds show the bare label; items without a kind get no label.
pub open spec fn spec_label_for_completion(
    label: Seq<char>,
    detail: Option<Seq<char>>,
    kind: Option<CompletionKind>,
) -> Option<(Seq<char>, Seq<SpanView>, (usize, usize))> {
    let d = match detail {
        Some(x) => x,
        None => Seq::empty(),
    };
    let n = byte_len(label);
    match kind {
        None => None,
        Some(k) => Some(
            match k {
                CompletionKind::Variable | CompletionKind::Field | CompletionKind::Constant => (
                    if d.len() == 0 {
                        label
                    } else {
                        label + ": "@ + d
                    },
                    seq![
                        SpanView::CodeRange(0, n),
                        SpanView::Literal(
                            if d.len() == 0 {
                                Seq::empty()
                            } else {
                                ": "@ + d
                            },
                            None,
                        ),
                    ],
                    (0, n),
                ),
                CompletionKind::Method | CompletionKind::Constructor => ranged(
                    if d.len() == 0 {
                        label + "()"@
                    } else {
                        label + d
                    },
                    0,
                    n,
                    0,
                    n,
                ),
                CompletionKind::Class => ranged(
                    "class "@ + label,
                    6,
                    byte_len("class "@ + label),
                    0,
                    n,
                ),
                CompletionKind::Interface => ranged(
                    "interface "@ + label,
                    10,
                    byte_len("interface "@ + label),
                    0,
                    n,
                ),
                CompletionKind::Enum => ranged("enum "@ + label, 5, byte_len("enum "@ + label), 0, n),
                _ => ranged(label, 0, n, 0, n),
            },
        ),
    }
}

fn str_byte_len(s: &str) -> (r: usize)
    ensures
        r == byte_len(s@),
{
    s.len()
}

fn one_span(code: String, start: usize, end: usize, fs: usize, fe: usize) -> (r: CodeLabel)
    ensures
        label_view(r) == ranged(code@, start, end, fs, fe),
{
    let mut spans: Vec<CodeLabelSpan> = Vec::new();
    spans.push(CodeLabelSpan::CodeRange { start, end });
    let r = CodeLabel { code, spans, filter_range: (fs, fe) };
    assert(label_view(r).1 =~= seq![SpanView::CodeRange(start, end)]);
    r
}

impl CangjieExtension {
    /// The label shown for a completion item.
    pub fn label_for_completion(&self, completion: Completion) -> (r: Option<CodeLabel>)
        ensures
            match r {
                Some(l) => spec_label_for_completion(
                    completion.label@,
                    match completion.detail {
                        Some(d) => Some(d@),
                        None => None,
                    },
                    completion.kind,
                ) == Some(label_view(l)),
                None => spec_label_for_completion(
                    completion.label@,
                    match completion.detail {
                        Some(d) => Some(d@),
                        None => None,
                    },
                    completion.kind,
                ) is None,
            },
    {
        let label = completion.label;
        let detail = match completion.detail {
            Some(d) => d,
            None => String::new(),
        };
        let n = str_byte_len(label.as_str());
        let kind = match completion.kind {
            Some(k) => k,
            None => {
                return None;
            },
        };
        match kind {
            CompletionKind::Variable | CompletionKind::Field | CompletionKind::Constant => {
                let empty = detail.as_str().is_empty();
                let code = if empty {
                    label.clone()
                } else {
                    label.clone().concat(": ").concat(detail.as_str())
                };
                let lit = if empty {
                    String::new()
                } else {
                    String::from_str(": ").concat(detail.as_str())
                };
                let mut spans: Vec<CodeLabelSpan> = Vec::new();
                spans.push(CodeLabelSpan::CodeRange { start: 0, end: n });
                spans.push(CodeLabelSpan::Literal { text: lit, highlight_name: None });
                let r = CodeLabel { code, spans, filter_range: (0, n) };
                assert(label_view(r).1 =~= seq![
                    SpanView::CodeRange(0, n),
                    SpanView::Literal(
                        if detail@.len() == 0 {
                            Seq::empty()
                        } else {
                            ": "@ + detail@
                        },
                        None,
                    ),
                ]);
                Some(r)
            },
            CompletionKind::Method | CompletionKind::Constructor => {
                let code = if detail.as_str().is_empty() {
                    label.concat("()")
                } else {
                    label.concat(detail.as_str())
                };
                Some(one_span(code, 0, n, 0, n))
            },
            CompletionKind::Class => {
                let code = String::from_str("class ").concat(label.as_str());
                let e = str_byte_len(code.as_str());
                Some(one_span(code, 6, e, 0, n))
            },
            CompletionKind::Interface => {
                let code = String::from_str("interface ").concat(label.as_str());
                let e = str_byte_len(code.as_str());
                Some(one_span(code, 10, e, 0, n))
            },
            CompletionKind::Enum => {
                let code = String::from_str("enum ").concat(label.as_str());
                let e = str_byte_len(code.as_str());
                Some(one_span(code, 5, e, 0, n))
            },
            _ => Some(one_span(label, 0, n, 0, n)),
        }
    }
}

/// The label of a symbol: classes, interfaces, enums, functions, variables
/// and constants are written as a small declaration with the name
/// highlighted and filtered on; other kinds show the bare name.
pub open spec fn spec_label_for_symbol(name: Seq<char>, kind: SymbolKind) -> (
    Seq<char>,
    Seq<SpanView>,
    (usize, usize),
) {
    let n = encode_utf8(name).len();
    match kind {
        SymbolKind::Class => ranged(
            "class "@ + name + " {}"@,
            6,
            (6 + n) as usize,
            6,
            (6 + n) as usize,
        ),
        SymbolKind::Interface => ranged(
            "interface "@ + name + " {}"@,
            10,
            (10 + n) as usize,
            10,
            (10 + n) as usize,
        ),
        SymbolKind::Enum => ranged(
            "enum "@ + name + " {}"@,
            5,
            (5 + n) as usize,
            5,
            (5 + n) as usize,
        ),
        SymbolKind::Method | SymbolKind::Function => ranged(
            "func "@ + name + "() {}"@,
            5,
            (5 + n) as usize,
            5,
            (5 + n) as usize,
        ),
        SymbolKind::Variable => ranged(
            "let "@ + name,
            4,
            (4 + n) as usize,
            4,
            (4 + n) as usize,
        ),
        SymbolKind::Constant => ranged(
            "const "@ + name,
            6,
            (6 + n) as usize,
            6,
            (6 + n) as usize,
        ),
        _ => ranged(name, 0, n as usize, 0, n as usize),
    }
}

impl CangjieExtension {
    /// The label shown for a document symbol.
    pub fn label_for_symbol(&self, symbol: Symbol) -> (r: Option<CodeLabel>)
        requires
            encode_utf8(symbol.name@).len() + 10 <= usize::MAX,
        ensures
            r matches Some(l) && label_view(l) == spec_label_for_symbol(symbol.name@, symbol.kind),
    {
        let name = symbol.name;
        let n = str_byte_len(name.as_str());
        let label = match symbol.kind {
            SymbolKind::Class => {
                let code = String::from_str("class ").concat(name.as_str()).concat(" {}");
                one_span(code, 6, 6 + n, 6, 6 + n)
            },
            SymbolKind::Interface => {
                let code = String::from_str("interface ").concat(name.as_str()).concat(" {}");
                one_span(code, 10, 10 + n, 10, 10 + n)
            },
            SymbolKind::Enum => {
                let code = String::from_str("enum ").concat(name.as_str()).concat(" {}");
                one_span(code, 5, 5 + n, 5, 5 + n)
            },
            SymbolKind::Method | SymbolKind::Function => {
                let code = String::from_str("func ").concat(name.as_str()).concat("() {}");
                one_span(code, 5, 5 + n, 5, 5 + n)
            },
            SymbolKind::Variable => {
                let code = String::from_str("let ").concat(name.as_str());
                one_span(code, 4, 4 + n, 4, 4 + n)
            },
            SymbolKind::Constant => {
                let code = String::from_str("const ").concat(name.as_str());
                one_span(code, 6, 6 + n, 6, 6 + n)
            },
            _ => one_span(name, 0, n, 0, n),
        };
        Some(label)
    }
}

/// The proxy beside the server is named like the server with its
/// `LSPServer` part replaced by `cangjie-lsp-proxy`, which is also the name of
/// the proxy binary that releases install on that platform.
pub proof fn law_sibling_proxy_name(is_win: bool)
    ensures
        spec_sibling_proxy_name(is_win) == "cangjie-lsp-proxy"@ + spec_server_name(is_win).skip(9),
        spec_sibling_proxy_name(is_win) == spec_proxy_exec(
            if is_win {
                Os::Windows
            } else {
                Os::Linux
            },
        ),
{
    reveal_strlit("cangjie-lsp-proxy.exe");
    reveal_strlit("cangjie-lsp-proxy");
    reveal_strlit("LSPServer.exe");
    reveal_strlit("LSPServer");
    assert(spec_sibling_proxy_name(is_win) =~= "cangjie-lsp-proxy"@ + spec_server_name(is_win).skip(
        9,
    ));
}

/// A proxy installed beside the language server lives in the server's
/// directory.
pub proof fn law_sibling_proxy_in_server_dir(server_path: Seq<char>, is_win: bool)
    ensures
        spec_parent_dir(spec_sibling_proxy_path(server_path, is_win), is_win) == spec_parent_dir(
            server_path,
            is_win,
        ),
{
    let name = spec_sibling_proxy_name(is_win);
    reveal_strlit("cangjie-lsp-proxy.exe");
    reveal_strlit("cangjie-lsp-proxy");
    assert(!name.contains('/') && !name.contains('\\')) by {
        assert forall|i: int| 0 <= i < name.len() implies name[i] != '/' && name[i] != '\\' by {
        }
    }
    law_parent_dir_of_child(spec_parent_dir(server_path, is_win), name, is_win);
}

proof fn lemma_ascii_affix(prefix: Seq<char>, name: Seq<char>, suffix: Seq<char>)
    requires
        is_ascii_chars(prefix),
    ensures
        encode_utf8(prefix + name + suffix).subrange(
            prefix.len() as int,
            (prefix.len() + encode_utf8(name).len()) as int,
        ) == encode_utf8(name),
{
    is_ascii_chars_encode_utf8(prefix);
    lemma_encode_utf8_concat(prefix, name);
    lemma_encode_utf8_concat(prefix + name, suffix);
    assert(encode_utf8(prefix + name + suffix).subrange(
        prefix.len() as int,
        (prefix.len() + encode_utf8(name).len()) as int,
    ) =~= encode_utf8(name));
}

/// The highlighted range of a symbol's label is exactly the bytes of its
/// name inside the label's code, and filtering uses the same range.
pub proof fn law_symbol_label_shows_name(name: Seq<char>, kind: SymbolKind)
    requires
        encode_utf8(name).len() + 10 <= usize::MAX,
    ensures
        ({
            let l = spec_label_for_symbol(name, kind);
            &&& l.1 == seq![SpanView::CodeRange(l.2.0, l.2.1)]
            &&& encode_utf8(l.0).subrange(l.2.0 as int, l.2.1 as int) == encode_utf8(name)
        }),
{
    reveal_strlit("class ");
    reveal_strlit("interface ");
    reveal_strlit("enum ");
    reveal_strlit("func ");
    reveal_strlit("let ");
    reveal_strlit("const ");
    let e = Seq::<char>::empty();
    match kind {
        SymbolKind::Class => lemma_ascii_affix("class "@, name, " {}"@),
        SymbolKind::Interface => lemma_ascii_affix("interface "@, name, " {}"@),
        SymbolKind::Enum => lemma_ascii_affix("enum "@, name, " {}"@),
        SymbolKind::Method | SymbolKind::Function => lemma_ascii_affix("func "@, name, "() {}"@),
        SymbolKind::Variable => {
            lemma_ascii_affix("let "@, name, e);
            assert("let "@ + name + e =~= "let "@ + name);
        },
        SymbolKind::Constant => {
            lemma_ascii_affix("const "@, name, e);
            assert("const "@ + name + e =~= "const "@ + name);
        },
        _ => {
            assert(encode_utf8(name).subrange(0, encode_utf8(name).len() as int) =~= encode_utf8(
                name,
            ));
        },
    }
}

/// The first span of a completion's label highlights part of its code: the
/// label itself at the start for most kinds, and the label after the keyword
/// for classes, interfaces and enums.
pub proof fn law_completion_label_shows_label(
    label: Seq<char>,
    detail: Option<Seq<char>>,
    kind: CompletionKind,
)
    requires
        encode_utf8(label).len() + 10 <= usize::MAX,
    ensures
        ({
            let l = spec_label_for_completion(label, detail, Some(kind)).unwrap();
            l.1[0] matches SpanView::CodeRange(s, e) && encode_utf8(l.0).subrange(s as int, e as int)
                == encode_utf8(label)
        }),
{
    reveal_strlit("class ");
    reveal_strlit("interface ");
    reveal_strlit("enum ");
    let d = match detail {
        Some(x) => x,
        None => Seq::empty(),
    };
    let e = Seq::<char>::empty();
    let z = Seq::<char>::empty();
    assert(is_ascii_chars(z));
    match kind {
        CompletionKind::Class => {
            lemma_ascii_affix("class "@, label, e);
            assert("class "@ + label + e =~= "class "@ + label);
            lemma_encode_utf8_concat("class "@, label);
            is_ascii_chars_encode_utf8("class "@);
        },
        CompletionKind::Interface => {
            lemma_ascii_affix("interface "@, label, e);
            assert("interface "@ + label + e =~= "interface "@ + label);
            lemma_encode_utf8_concat("interface "@, label);
            is_ascii_chars_encode_utf8("interface "@);
        },
        CompletionKind::Enum => {
            lemma_ascii_affix("enum "@, label, e);
            assert("enum "@ + label + e =~= "enum "@ + label);
            lemma_encode_utf8_concat("enum "@, label);
            is_ascii_chars_encode_utf8("enum "@);
        },
        CompletionKind::Variable | CompletionKind::Field | CompletionKind::Constant => {
            if d.len() == 0 {
                lemma_ascii_affix(z, label, e);
                assert(z + label + e =~= label);
            } else {
                lemma_ascii_affix(z, label, ": "@ + d);
                assert(z + label + (": "@ + d) =~= label + ": "@ + d);
            }
        },
        CompletionKind::Method | CompletionKind::Constructor => {
            if d.len() == 0 {
                lemma_ascii_affix(z, label, "()"@);
                assert(z + label + "()"@ =~= label + "()"@);
            } else {
                lemma_ascii_affix(z, label, d);
                assert(z + label + d =~= label + d);
            }
        },
        _ => {
            lemma_ascii_affix(z, label, e);
            assert(z + label + e =~= label);
        },
    }
}

/// Every completion with a kind gets a label that is filtered on the whole
/// completion label (its bytes from the start); one without a kind gets none.
pub proof fn law_completion_filters_on_label(
    label: Seq<char>,
    detail: Option<Seq<char>>,
    kind: Option<CompletionKind>,
)
    ensures
        match kind {
            Some(_) => spec_label_for_completion(label, detail, kind) matches Some(l) && l.2 == (
                0usize,
                byte_len(label),
            ),
            None => spec_label_for_completion(label, detail, kind) is None,
        },
{
}

} // verus!
