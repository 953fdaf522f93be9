//! Locating the language server, its library paths and launch arguments,
//! and reading module information out of `cjpm.toml`.

use vstd::prelude::*;
use crate::config::{LspConfig, get_cangjie_home, get_lsp_server_path, spec_cangjie_home, spec_lsp_server_path};
use crate::text::{
    append_char, char_views, chars_eq, copy_range, eq_ignore_ascii_case, eq_ignore_ascii_case_exec,
    join, join_strings, split, split_chars, starts_with, starts_with_exec, str_chars,
    string_from_chars, trim, trim_chars, trim_quotes, views, contains_seq, contains_exec,
    replace_char, replace_char_exec, str_is,
};
use crate::util::{Os, path_sep, server_name, spec_is_windows, spec_path_sep, spec_server_name, is_windows};

verus! {

/// `a`, the separator, then `b`.
pub open spec fn sep_join(a: Seq<char>, sep: char, b: Seq<char>) -> Seq<char> {
    a + seq![sep] + b
}

fn push_component(s: String, sep: char, part: &str) -> (r: String)
    ensures
        r@ == sep_join(s@, sep, part@),
{
    let ghost s0 = s@;
    let s1 = append_char(s, sep);
    let r = s1.concat(part);
    assert(r@ =~= sep_join(s0, sep, part@));
    r
}

/// The message given when no language server can be found.
pub open spec fn server_not_found_message() -> Seq<char> {
    "LSPServer not found. Set CANGJIE_HOME or configure lsp_server_path in LSP settings.\n\nInstall the Cangjie SDK from https://cangjie-lang.cn/"@
}

/// Where the language server lives: the configured `lsp_server_path`, else
/// `<home>/tools/bin/<server>` under the SDK home, else the binary found on
/// `PATH` (`on_path`), else an error.
pub open spec fn spec_find_lsp_server(
    configuration: Option<LspConfig>,
    os: Os,
    shell_env: Seq<(String, String)>,
    system_home: Option<String>,
    on_path: Option<String>,
) -> Result<Seq<char>, Seq<char>> {
    match spec_lsp_server_path(configuration, os, shell_env) {
        Some(p) => Ok(p),
        None => {
            let win = spec_is_windows(shell_env);
            let sep = spec_path_sep(win);
            match spec_cangjie_home(configuration, os, shell_env, system_home) {
                Some(home) => Ok(
                    sep_join(
                        sep_join(sep_join(home, sep, "tools"@), sep, "bin"@),
                        sep,
                        spec_server_name(win),
                    ),
                ),
                None => match on_path {
                    Some(p) => Ok(p@),
                    None => Err(server_not_found_message()),
                },
            }
        },
    }
}

/// Resolves the language server binary. `on_path` is what a `PATH` lookup of
/// `server_name(is_windows(shell_env))` found.
pub fn find_lsp_server(
    configuration: &Option<LspConfig>,
    os: Os,
    shell_env: &[(String, String)],
    system_home: Option<String>,
    on_path: Option<String>,
) -> (r: Result<String, String>)
    ensures
        r matches Ok(p) ==> spec_find_lsp_server(
            *configuration,
            os,
            shell_env@,
            system_home,
            on_path,
        ) == Ok::<Seq<char>, Seq<char>>(p@),
        r matches Err(e) ==> spec_find_lsp_server(
            *configuration,
            os,
            shell_env@,
            system_home,
            on_path,
        ) == Err::<Seq<char>, Seq<char>>(e@),
{
    if let Some(path) = get_lsp_server_path(configuration, os, shell_env) {
        return Ok(path);
    }
    let is_win = is_windows(shell_env);
    let name = server_name(is_win);
    if let Some(home) = get_cangjie_home(configuration, os, shell_env, system_home) {
        let sep = path_sep(is_win);
        let p = push_component(home, sep, "tools");
        let p = push_component(p, sep, "bin");
        let p = push_component(p, sep, name);
        return Ok(p);
    }
    match on_path {
        Some(p) => Ok(p),
        None => Err(
            String::from_str(
                "LSPServer not found. Set CANGJIE_HOME or configure lsp_server_path in LSP settings.\n\n\
                 Install the Cangjie SDK from https://cangjie-lang.cn/",
            ),
        ),
    }
}

/// The platform directory name of the SDK libraries.
pub open spec fn platform_lib(is_win: bool) -> Seq<char> {
    if is_win {
        "windows_x86_64_cjnative"@
    } else {
        "linux_x86_64_cjnative"@
    }
}

/// The SDK directories that hold the server's libraries and tools.
pub open spec fn spec_sdk_library_paths(home: Seq<char>, is_win: bool) -> Seq<Seq<char>> {
    let sep = spec_path_sep(is_win);
    let lib = platform_lib(is_win);
    seq![
        sep_join(sep_join(sep_join(home, sep, "runtime"@), sep, "lib"@), sep, lib),
        sep_join(sep_join(home, sep, "lib"@), sep, lib),
        sep_join(home, sep, "bin"@),
        sep_join(sep_join(home, sep, "tools"@), sep, "bin"@),
        sep_join(sep_join(home, sep, "tools"@), sep, "lib"@),
    ]
}

fn home_string(home: &str) -> (r: String)
    ensures
        r@ == home@,
{
    String::from_str(home)
}

/// The SDK library paths to put in front of `PATH`.
pub fn sdk_library_paths(cangjie_home: &str, is_win: bool) -> (r: Vec<String>)
    ensures
        views(r@) == spec_sdk_library_paths(cangjie_home@, is_win),
{
    let sep = path_sep(is_win);
    let lib = if is_win {
        "windows_x86_64_cjnative"
    } else {
        "linux_x86_64_cjnative"
    };
    let a = push_component(
        push_component(push_component(home_string(cangjie_home), sep, "runtime"), sep, "lib"),
        sep,
        lib,
    );
    let b = push_component(push_component(home_string(cangjie_home), sep, "lib"), sep, lib);
    let c = push_component(home_string(cangjie_home), sep, "bin");
    let d = push_component(push_component(home_string(cangjie_home), sep, "tools"), sep, "bin");
    let e = push_component(push_component(home_string(cangjie_home), sep, "tools"), sep, "lib");
    let mut r: Vec<String> = Vec::new();
    r.push(a);
    r.push(b);
    r.push(c);
    r.push(d);
    r.push(e);
    assert(views(r@) =~= spec_sdk_library_paths(cangjie_home@, is_win));
    r
}

/// The list separator of `PATH` on the given host.
pub open spec fn path_list_sep(is_win: bool) -> Seq<char> {
    if is_win {
        ";"@
    } else {
        ":"@
    }
}

/// The new value of one environment variable: `PATH` (any ASCII case) gets
/// the SDK paths in front, every other variable is kept.
pub open spec fn sdk_env_value(key: Seq<char>, value: Seq<char>, home: Seq<char>, is_win: bool) -> Seq<
    char,
> {
    if eq_ignore_ascii_case(key, "PATH"@) {
        join(spec_sdk_library_paths(home, is_win), path_list_sep(is_win)) + path_list_sep(is_win)
            + value
    } else {
        value
    }
}

/// The environment with the SDK library paths put in front of `PATH`.
pub fn with_sdk_paths(env: Vec<(String, String)>, cangjie_home: &str, is_win: bool) -> (r: Vec<
    (String, String),
>)
    ensures
        r@.len() == env@.len(),
        forall|i: int|
            0 <= i < env@.len() ==> #[trigger] r@[i].0@ == env@[i].0@ && r@[i].1@ == sdk_env_value(
                env@[i].0@,
                env@[i].1@,
                cangjie_home@,
                is_win,
            ),
{
    let paths = sdk_library_paths(cangjie_home, is_win);
    let list_sep = if is_win {
        ";"
    } else {
        ":"
    };
    let sdk_prefix = join_strings(&paths, list_sep);
    let path_key = str_chars("PATH");
    let mut result: Vec<(String, String)> = Vec::new();
    let mut i: usize = 0;
    while i < env.len()
        invariant
            i <= env@.len(),
            result@.len() == i,
            path_key@ == "PATH"@,
            list_sep@ == path_list_sep(is_win),
            sdk_prefix@ == join(spec_sdk_library_paths(cangjie_home@, is_win), path_list_sep(is_win)),
            forall|m: int|
                0 <= m < i ==> #[trigger] result@[m].0@ == env@[m].0@ && result@[m].1@
                    == sdk_env_value(env@[m].0@, env@[m].1@, cangjie_home@, is_win),
        decreases env.len() - i,
    {
        let k = env[i].0.clone();
        let v = env[i].1.clone();
        let kc = str_chars(k.as_str());
        if eq_ignore_ascii_case_exec(&kc, &path_key) {
            let nv = sdk_prefix.clone().concat(list_sep).concat(v.as_str());
            result.push((k, nv));
        } else {
            result.push((k, v));
        }
        i = i + 1;
    }
    result
}

/// The arguments the language server is started with.
pub open spec fn spec_lsp_args() -> Seq<Seq<char>> {
    seq!["--enable-log=true"@, "--log-path=D:/cangjie-lspserver.log"@]
}

/// The launch arguments of the language server.
pub fn lsp_args() -> (r: Vec<String>)
    ensures
        views(r@) == spec_lsp_args(),
{
    let mut r: Vec<String> = Vec::new();
    r.push(String::from_str("--enable-log=true"));
    r.push(String::from_str("--log-path=D:/cangjie-lspserver.log"));
    assert(views(r@) =~= spec_lsp_args());
    r
}

/// The value after the first `=` of a `key = value` line: the text up to any
/// further `=`, trimmed and stripped of surrounding double quotes; `None` when
/// there is no `=` or nothing is left.
pub open spec fn field_value(rest: Seq<char>) -> Option<Seq<char>> {
    let parts = split(rest, '=');
    if parts.len() >= 2 {
        let v = trim_quotes(trim(parts[1]));
        if v.len() > 0 {
            Some(v)
        } else {
            None
        }
    } else {
        None
    }
}

/// The value of a trimmed line that starts with `key`.
pub open spec fn keyed_value(t: Seq<char>, key: Seq<char>) -> Option<Seq<char>> {
    if starts_with(t, key) {
        field_value(t.skip(key.len() as int))
    } else {
        None
    }
}

/// The package name found in `lines`, reading from the `[package]` header
/// up to the next section header.
pub open spec fn package_name_in(lines: Seq<Seq<char>>, in_package: bool) -> Option<Seq<char>>
    decreases lines.len(),
{
    if lines.len() == 0 {
        None
    } else {
        let t = trim(lines[0]);
        if t == "[package]"@ {
            package_name_in(lines.drop_first(), true)
        } else if in_package {
            if starts_with(t, "["@) {
                None
            } else if keyed_value(t, "name"@) is Some {
                keyed_value(t, "name"@)
            } else {
                package_name_in(lines.drop_first(), true)
            }
        } else {
            package_name_in(lines.drop_first(), false)
        }
    }
}

/// The `name` of the `[package]` section of a `cjpm.toml` text.
pub open spec fn spec_parse_package_name(content: Seq<char>) -> Option<Seq<char>> {
    package_name_in(split(content, '\n'), false)
}

fn field_value_exec(rest: &Vec<char>) -> (r: Option<Vec<char>>)
    ensures
        r matches Some(v) ==> field_value(rest@) == Some(v@),
        r is None ==> field_value(rest@) is None,
{
    let parts = split_chars(rest, '=');
    if parts.len() >= 2 {
        assert(char_views(parts@)[1] == parts@[1]@);
        let t = trim_chars(&parts[1], false);
        let v = trim_chars(&t, true);
        if v.len() > 0 {
            Some(v)
        } else {
            None
        }
    } else {
        None
    }
}

fn keyed_value_exec(t: &Vec<char>, key: &Vec<char>) -> (r: Option<Vec<char>>)
    ensures
        r matches Some(v) ==> keyed_value(t@, key@) == Some(v@),
        r is None ==> keyed_value(t@, key@) is None,
{
    if starts_with_exec(t, key) {
        let rest = copy_range(t, key.len(), t.len());
        assert(rest@ =~= t@.skip(key@.len() as int));
        field_value_exec(&rest)
    } else {
        None
    }
}

/// Reads the package name from a `cjpm.toml` text.
pub fn parse_package_name(content: &str) -> (r: Option<String>)
    ensures
        r matches Some(n) ==> spec_parse_package_name(content@) == Some(n@),
        r is None ==> spec_parse_package_name(content@) is None,
{
    let chars = str_chars(content);
    let lines = split_chars(&chars, '\n');
    let ghost lv = char_views(lines@);
    let header = str_chars("[package]");
    let open = str_chars("[");
    let key = str_chars("name");
    let mut in_package = false;
    let mut k: usize = 0;
    assert(lv.skip(0) =~= lv);
    while k < lines.len()
        invariant
            k <= lines@.len(),
            lv == char_views(lines@),
            lv.len() == lines@.len(),
            header@ == "[package]"@,
            open@ == "["@,
            key@ == "name"@,
            spec_parse_package_name(content@) == package_name_in(lv.skip(k as int), in_package),
        decreases lines.len() - k,
    {
        assert(lv.skip(k as int).drop_first() =~= lv.skip(k + 1));
        assert(lv.skip(k as int)[0] == lines@[k as int]@);
        let t = trim_chars(&lines[k], false);
        if chars_eq(&t, &header) {
            in_package = true;
        } else if in_package {
            if starts_with_exec(&t, &open) {
                return None;
            }
            match keyed_value_exec(&t, &key) {
                Some(v) => {
                    return Some(string_from_chars(v.as_slice()));
                },
                None => {},
            }
        }
        k = k + 1;
    }
    assert(lv.skip(k as int).len() == 0);
    None
}

/// A section header line: `[` ... `]`.
pub open spec fn is_section_header(t: Seq<char>) -> bool {
    starts_with(t, "["@) && t.len() > 0 && t.last() == ']'
}

/// The dependency that a section names, for `dependencies.<name>` and
/// `dev-dependencies.<name>` sections.
pub open spec fn section_dependency(section: Seq<char>) -> Option<Seq<char>> {
    if starts_with(section, "dependencies."@) {
        Some(section.skip(("dependencies."@).len() as int))
    } else if starts_with(section, "dev-dependencies."@) {
        Some(section.skip(("dev-dependencies."@).len() as int))
    } else {
        None
    }
}

/// The `(name, path)` pairs of the dependency sections of `lines` that have
/// a non-empty `path`, in order.
pub open spec fn dependencies_in(lines: Seq<Seq<char>>, current: Option<Seq<char>>) -> Seq<
    (Seq<char>, Seq<char>),
>
    decreases lines.len(),
{
    if lines.len() == 0 {
        Seq::empty()
    } else {
        let t = trim(lines[0]);
        let rest = lines.drop_first();
        if is_section_header(t) {
            dependencies_in(rest, section_dependency(t.subrange(1, t.len() - 1)))
        } else {
            match current {
                Some(d) => match keyed_value(t, "path"@) {
                    Some(p) => seq![(d, p)] + dependencies_in(rest, current),
                    None => dependencies_in(rest, current),
                },
                None => dependencies_in(rest, current),
            }
        }
    }
}

/// The path dependencies of a `cjpm.toml` text.
pub open spec fn spec_parse_path_dependencies(content: Seq<char>) -> Seq<(Seq<char>, Seq<char>)> {
    dependencies_in(split(content, '\n'), None)
}

/// The views of a vector of string pairs.
pub open spec fn pair_views(v: Seq<(String, String)>) -> Seq<(Seq<char>, Seq<char>)> {
    v.map_values(|p: (String, String)| (p.0@, p.1@))
}

/// The view of an optional character vector.
pub open spec fn opt_view(o: Option<Vec<char>>) -> Option<Seq<char>> {
    match o {
        Some(v) => Some(v@),
        None => None,
    }
}

fn section_dependency_exec(section: &Vec<char>, deps: &Vec<char>, dev_deps: &Vec<char>) -> (r: Option<
    Vec<char>,
>)
    requires
        deps@ == "dependencies."@,
        dev_deps@ == "dev-dependencies."@,
    ensures
        opt_view(r) == section_dependency(section@),
{
    if starts_with_exec(section, deps) {
        let n = copy_range(section, deps.len(), section.len());
        assert(n@ =~= section@.skip(("dependencies."@).len() as int));
        Some(n)
    } else if starts_with_exec(section, dev_deps) {
        let n = copy_range(section, dev_deps.len(), section.len());
        assert(n@ =~= section@.skip(("dev-dependencies."@).len() as int));
        Some(n)
    } else {
        None
    }
}

/// Reads the `path` dependencies from a `cjpm.toml` text.
pub fn parse_path_dependencies(content: &str) -> (r: Vec<(String, String)>)
    ensures
        pair_views(r@) == spec_parse_path_dependencies(content@),
{
    let chars = str_chars(content);
    let lines = split_chars(&chars, '\n');
    let ghost lv = char_views(lines@);
    let open = str_chars("[");
    let key = str_chars("path");
    let deps_prefix = str_chars("dependencies.");
    let dev_prefix = str_chars("dev-dependencies.");
    let mut deps: Vec<(String, String)> = Vec::new();
    let mut current: Option<Vec<char>> = None;
    let mut k: usize = 0;
    assert(lv.skip(0) =~= lv);
    assert(pair_views(deps@) =~= Seq::empty());
    while k < lines.len()
        invariant
            k <= lines@.len(),
            lv == char_views(lines@),
            lv.len() == lines@.len(),
            open@ == "["@,
            key@ == "path"@,
            deps_prefix@ == "dependencies."@,
            dev_prefix@ == "dev-dependencies."@,
            spec_parse_path_dependencies(content@) == pair_views(deps@) + dependencies_in(
                lv.skip(k as int),
                opt_view(current),
            ),
        decreases lines.len() - k,
    {
        assert(lv.skip(k as int).drop_first() =~= lv.skip(k + 1));
        assert(lv.skip(k as int)[0] == lines@[k as int]@);
        let t = trim_chars(&lines[k], false);
        if starts_with_exec(&t, &open) && t.len() > 0 && t[t.len() - 1] == ']' {
            proof {
                reveal_strlit("[");
                assert(t@.subrange(0, 1)[0] == t@[0]);
            }
            let section = copy_range(&t, 1, t.len() - 1);
            current = section_dependency_exec(&section, &deps_prefix, &dev_prefix);
        } else {
            match &current {
                Some(d) => match keyed_value_exec(&t, &key) {
                    Some(p) => {
                        let ghost before = pair_views(deps@);
                        let entry = (string_from_chars(d.as_slice()), string_from_chars(p.as_slice()));
                        deps.push(entry);
                        assert(pair_views(deps@) =~= before + seq![(d@, p@)]);
                        assert(before + seq![(d@, p@)] + dependencies_in(
                            lv.skip(k + 1),
                            opt_view(current),
                        ) =~= before + (seq![(d@, p@)] + dependencies_in(
                            lv.skip(k + 1),
                            opt_view(current),
                        )));
                    },
                    None => {},
                },
                None => {},
            }
        }
        k = k + 1;
    }
    assert(lv.skip(k as int).len() == 0);
    assert(pair_views(deps@) + Seq::<(Seq<char>, Seq<char>)>::empty() =~= pair_views(deps@));
    deps
}

/// Where a dependency lives: `<root><sep><rel>`, with `/` turned into the
/// separator when the relative path starts with `.` or contains `..`.
pub open spec fn spec_dependency_abs_path(root: Seq<char>, sep: char, rel: Seq<char>) -> Seq<char> {
    let joined = sep_join(root, sep, rel);
    if starts_with(rel, "."@) || contains_seq(rel, ".."@) {
        replace_char(joined, '/', sep)
    } else {
        joined
    }
}

/// The absolute path of a dependency of the module at `root_path`.
pub fn dependency_abs_path(root_path: &str, sep: char, dep_rel_path: &str) -> (r: String)
    ensures
        r@ == spec_dependency_abs_path(root_path@, sep, dep_rel_path@),
{
    let joined = push_component(String::from_str(root_path), sep, dep_rel_path);
    let rel = str_chars(dep_rel_path);
    let dot = str_chars(".");
    let dots = str_chars("..");
    if starts_with_exec(&rel, &dot) || contains_exec(&rel, &dots) {
        let jc = str_chars(joined.as_str());
        let out = replace_char_exec(&jc, '/', sep);
        string_from_chars(out.as_slice())
    } else {
        joined
    }
}

/// The manifest of a dependency, relative to the worktree root.
pub open spec fn spec_dependency_manifest_path(rel: Seq<char>) -> Seq<char> {
    replace_char(rel, '\\', '/') + "/cjpm.toml"@
}

/// The `cjpm.toml` of a dependency, relative to the worktree root.
pub fn dependency_manifest_path(dep_rel_path: &str) -> (r: String)
    ensures
        r@ == spec_dependency_manifest_path(dep_rel_path@),
{
    let rel = str_chars(dep_rel_path);
    let norm = replace_char_exec(&rel, '\\', '/');
    string_from_chars(norm.as_slice()).concat("/cjpm.toml")
}

/// A dependency's absolute path and package name, given what reading its
/// manifest gave (`None` when it could not be read): the name in the
/// manifest, else the dependency's own name.
pub open spec fn spec_resolve_module(
    root: Seq<char>,
    sep: char,
    name: Seq<char>,
    rel: Seq<char>,
    content: Option<Seq<char>>,
) -> Option<(Seq<char>, Seq<char>)> {
    match content {
        None => None,
        Some(c) => Some(
            (
                spec_dependency_abs_path(root, sep, rel),
                match spec_parse_package_name(c) {
                    Some(n) => n,
                    None => name,
                },
            ),
        ),
    }
}

/// The view of an optional string.
pub open spec fn opt_string_view(o: Option<String>) -> Option<Seq<char>> {
    match o {
        Some(s) => Some(s@),
        None => None,
    }
}

/// Resolves a path dependency from the text of its manifest.
pub fn resolve_module(
    root_path: &str,
    sep: char,
    dep_name: &str,
    dep_rel_path: &str,
    dep_content: &Option<String>,
) -> (r: Option<(String, String)>)
    ensures
        r matches Some(p) ==> spec_resolve_module(
            root_path@,
            sep,
            dep_name@,
            dep_rel_path@,
            opt_string_view(*dep_content),
        ) == Some((p.0@, p.1@)),
        r is None ==> spec_resolve_module(
            root_path@,
            sep,
            dep_name@,
            dep_rel_path@,
            opt_string_view(*dep_content),
        ) is None,
{
    match dep_content {
        None => None,
        Some(c) => {
            let abs = dependency_abs_path(root_path, sep, dep_rel_path);
            let name = match parse_package_name(c.as_str()) {
                Some(n) => n,
                None => String::from_str(dep_name),
            };
            Some((abs, name))
        },
    }
}

/// One module of the multi-module option: its URI, package name and the
/// `(dependency name, dependency URI)` pairs it requires.
pub struct ModuleInfo {
    pub uri: String,
    pub name: String,
    pub required: Vec<(String, String)>,
}

/// The view of a module.
pub open spec fn module_view(m: ModuleInfo) -> (Seq<char>, Seq<char>, Seq<(Seq<char>, Seq<char>)>) {
    (m.uri@, m.name@, pair_views(m.required@))
}

/// The views of a list of modules.
pub open spec fn module_views(v: Seq<ModuleInfo>) -> Seq<
    (Seq<char>, Seq<char>, Seq<(Seq<char>, Seq<char>)>),
> {
    v.map_values(|m: ModuleInfo| module_view(m))
}

/// A pair with the value replaced when its key is `key`.
pub open spec fn replace_value(e: (Seq<char>, Seq<char>), key: Seq<char>, value: Seq<char>) -> (
    Seq<char>,
    Seq<char>,
) {
    if e.0 == key {
        (key, value)
    } else {
        e
    }
}

/// A map insertion on a list of pairs: the value of `key` replaced, or the
/// pair added at the end.
pub open spec fn insert_pair(entries: Seq<(Seq<char>, Seq<char>)>, key: Seq<char>, value: Seq<char>) -> Seq<
    (Seq<char>, Seq<char>),
> {
    if exists|i: int| 0 <= i < entries.len() && entries[i].0 == key {
        entries.map_values(|e: (Seq<char>, Seq<char>)| replace_value(e, key, value))
    } else {
        entries.push((key, value))
    }
}

/// An insertion that keeps an existing entry for the same URI.
pub open spec fn add_module(
    mods: Seq<(Seq<char>, Seq<char>, Seq<(Seq<char>, Seq<char>)>)>,
    uri: Seq<char>,
    name: Seq<char>,
    required: Seq<(Seq<char>, Seq<char>)>,
) -> Seq<(Seq<char>, Seq<char>, Seq<(Seq<char>, Seq<char>)>)> {
    if exists|i: int| 0 <= i < mods.len() && mods[i].0 == uri {
        mods
    } else {
        mods.push((uri, name, required))
    }
}

/// The URI of a dependency at an absolute path.
pub open spec fn spec_dependency_uri(abs: Seq<char>) -> Seq<char> {
    "file:///"@ + replace_char(abs, '\\', '/')
}

/// The modules and requirements after the first `n` dependencies.
pub open spec fn multi_module_state(
    root: Seq<char>,
    sep: char,
    deps: Seq<(Seq<char>, Seq<char>)>,
    contents: Seq<Option<String>>,
    n: nat,
) -> (Seq<(Seq<char>, Seq<char>, Seq<(Seq<char>, Seq<char>)>)>, Seq<(Seq<char>, Seq<char>)>)
    decreases n,
{
    if n == 0 {
        (Seq::empty(), Seq::empty())
    } else {
        let prev = multi_module_state(root, sep, deps, contents, (n - 1) as nat);
        let dep = deps[n - 1];
        match spec_resolve_module(root, sep, dep.0, dep.1, opt_string_view(contents[n - 1])) {
            Some(resolved) => {
                let uri = spec_dependency_uri(resolved.0);
                (add_module(prev.0, uri, resolved.1, Seq::empty()), insert_pair(prev.1, dep.0, uri))
            },
            None => prev,
        }
    }
}

/// The multi-module option of a workspace: one module per resolved path
/// dependency (first one wins per URI), then the workspace module itself,
/// named by its manifest or by the last component of its root path, and
/// requiring every resolved dependency.
pub open spec fn spec_build_multi_module(
    content: Seq<char>,
    root: Seq<char>,
    sep: char,
    workspace_uri: Seq<char>,
    contents: Seq<Option<String>>,
) -> Seq<(Seq<char>, Seq<char>, Seq<(Seq<char>, Seq<char>)>)> {
    let deps = spec_parse_path_dependencies(content);
    let state = multi_module_state(root, sep, deps, contents, deps.len());
    let package = match spec_parse_package_name(content) {
        Some(n) => n,
        None => split(root, sep).last(),
    };
    add_module(state.0, workspace_uri, package, state.1)
}

fn insert_pair_exec(entries: &mut Vec<(String, String)>, key: String, value: String)
    ensures
        pair_views(final(entries)@) == insert_pair(pair_views(old(entries)@), key@, value@),
{
    let ghost old_v = pair_views(entries@);
    let mut found = false;
    let mut i: usize = 0;
    while i < entries.len()
        invariant
            i <= entries@.len(),
            entries@.len() == old_v.len(),
            old_v == pair_views(old(entries)@),
            forall|m: int| 0 <= m < i ==> #[trigger] pair_views(entries@)[m] == replace_value(old_v[m], key@, value@),
            forall|m: int| i <= m < entries@.len() ==> #[trigger] pair_views(entries@)[m] == old_v[m],
            found == exists|m: int| 0 <= m < i && old_v[m].0 == key@,
        decreases entries.len() - i,
    {
        let ghost cur = pair_views(entries@);
        assert(cur[i as int] == old_v[i as int]);
        assert(cur[i as int].0 == entries@[i as int].0@);
        if str_is(entries[i].0.as_str(), key.as_str()) {
            entries.set(i, (key.clone(), value.clone()));
            assert(pair_views(entries@) =~= cur.update(i as int, (key@, value@)));
            found = true;
        } else {
            assert(old_v[i as int].0 != key@);
        }
        i = i + 1;
    }
    if !found {
        assert forall|m: int| 0 <= m < old_v.len() implies #[trigger] pair_views(entries@)[m]
            == old_v[m] by {
            assert(old_v[m].0 != key@);
        }
        let ghost before = entries@;
        assert(pair_views(before) =~= old_v);
        entries.push((key, value));
        assert(entries@ == before.push((key, value)));
        assert(pair_views(entries@) =~= pair_views(before).push((key@, value@)));
    } else {
        assert(pair_views(entries@) =~= old_v.map_values(
            |e: (Seq<char>, Seq<char>)| replace_value(e, key@, value@),
        ));
    }
}

fn add_module_exec(mods: &mut Vec<ModuleInfo>, uri: String, name: String, required: Vec<(String, String)>)
    ensures
        module_views(final(mods)@) == add_module(
            module_views(old(mods)@),
            uri@,
            name@,
            pair_views(required@),
        ),
{
    let ghost old_v = module_views(mods@);
    let mut i: usize = 0;
    while i < mods.len()
        invariant
            i <= mods@.len(),
            mods@ == old(mods)@,
            old_v == module_views(mods@),
            forall|m: int| 0 <= m < i ==> old_v[m].0 != uri@,
        decreases mods.len() - i,
    {
        assert(old_v[i as int].0 == mods@[i as int].uri@);
        if str_is(mods[i].uri.as_str(), uri.as_str()) {
            return;
        }
        i = i + 1;
    }
    mods.push(ModuleInfo { uri, name, required });
    assert(module_views(mods@) =~= old_v.push((uri@, name@, pair_views(required@))));
}

/// The text after the last `sep` of `s` (all of `s` without one).
pub fn last_component(s: &str, sep: char) -> (r: String)
    ensures
        r@ == split(s@, sep).last(),
{
    let chars = str_chars(s);
    let parts = split_chars(&chars, sep);
    proof {
        crate::text::lemma_split_nonempty(s@, sep);
    }
    let n = parts.len();
    assert(char_views(parts@)[n - 1] == parts@[n - 1]@);
    string_from_chars(parts[n - 1].as_slice())
}

/// Builds the multi-module option of a workspace from its `cjpm.toml` text and
/// what reading each path dependency's manifest gave (in the order of
/// `parse_path_dependencies`).
pub fn build_multi_module(
    cjpm_content: &str,
    root_path: &str,
    sep: char,
    workspace_uri: &str,
    dep_contents: &Vec<Option<String>>,
) -> (r: Vec<ModuleInfo>)
    requires
        dep_contents@.len() == spec_parse_path_dependencies(cjpm_content@).len(),
    ensures
        module_views(r@) == spec_build_multi_module(
            cjpm_content@,
            root_path@,
            sep,
            workspace_uri@,
            dep_contents@,
        ),
{
    let package_name = match parse_package_name(cjpm_content) {
        Some(n) => n,
        None => last_component(root_path, sep),
    };
    let deps = parse_path_dependencies(cjpm_content);
    let ghost dv = pair_views(deps@);
    let mut modules: Vec<ModuleInfo> = Vec::new();
    let mut required: Vec<(String, String)> = Vec::new();
    let mut i: usize = 0;
    while i < deps.len()
        invariant
            i <= deps@.len(),
            dv == pair_views(deps@),
            dv == spec_parse_path_dependencies(cjpm_content@),
            dep_contents@.len() == dv.len(),
            (module_views(modules@), pair_views(required@)) == multi_module_state(
                root_path@,
                sep,
                dv,
                dep_contents@,
                i as nat,
            ),
        decreases deps.len() - i,
    {
        let name = &deps[i].0;
        let rel = &deps[i].1;
        assert(dv[i as int] == (name@, rel@));
        match resolve_module(root_path, sep, name.as_str(), rel.as_str(), &dep_contents[i]) {
            Some(resolved) => {
                let abs = str_chars(resolved.0.as_str());
                let norm = replace_char_exec(&abs, '\\', '/');
                let uri = String::from_str("file:///").concat(string_from_chars(norm.as_slice()).as_str());
                insert_pair_exec(&mut required, name.clone(), uri.clone());
                let none: Vec<(String, String)> = Vec::new();
                assert(pair_views(none@) =~= Seq::empty());
                add_module_exec(&mut modules, uri, resolved.1, none);
            },
            None => {},
        }
        i = i + 1;
    }
    add_module_exec(&mut modules, String::from_str(workspace_uri), package_name, required);
    modules
}

/// Without a `[package]` line there is no package name.
pub proof fn law_no_package_section_no_name(content: Seq<char>)
    requires
        forall|i: int|
            0 <= i < split(content, '\n').len() ==> trim(#[trigger] split(content, '\n')[i])
                != "[package]"@,
    ensures
        spec_parse_package_name(content) is None,
{
    lemma_no_package_header(split(content, '\n'));
}

proof fn lemma_no_package_header(lines: Seq<Seq<char>>)
    requires
        forall|i: int| 0 <= i < lines.len() ==> trim(#[trigger] lines[i]) != "[package]"@,
    ensures
        package_name_in(lines, false) is None,
    decreases lines.len(),
{
    if lines.len() > 0 {
        assert forall|i: int| 0 <= i < lines.drop_first().len() implies trim(
            #[trigger] lines.drop_first()[i],
        ) != "[package]"@ by {
            assert(lines.drop_first()[i] == lines[i + 1]);
        }
        assert(trim(lines[0]) != "[package]"@);
        lemma_no_package_header(lines.drop_first());
    }
}

/// Without a section header there are no dependencies.
pub proof fn law_no_sections_no_dependencies(content: Seq<char>)
    requires
        forall|i: int|
            0 <= i < split(content, '\n').len() ==> !is_section_header(
                trim(#[trigger] split(content, '\n')[i]),
            ),
    ensures
        spec_parse_path_dependencies(content).len() == 0,
{
    lemma_no_sections(split(content, '\n'));
}

proof fn lemma_no_sections(lines: Seq<Seq<char>>)
    requires
        forall|i: int| 0 <= i < lines.len() ==> !is_section_header(trim(#[trigger] lines[i])),
    ensures
        dependencies_in(lines, None).len() == 0,
    decreases lines.len(),
{
    if lines.len() > 0 {
        assert forall|i: int| 0 <= i < lines.drop_first().len() implies !is_section_header(
            trim(#[trigger] lines.drop_first()[i]),
        ) by {
            assert(lines.drop_first()[i] == lines[i + 1]);
        }
        assert(!is_section_header(trim(lines[0])));
        lemma_no_sections(lines.drop_first());
    }
}

/// The workspace always has a module in the multi-module option.
pub proof fn law_workspace_module_present(
    content: Seq<char>,
    root: Seq<char>,
    sep: char,
    workspace_uri: Seq<char>,
    contents: Seq<Option<String>>,
)
    ensures
        exists|i: int|
            0 <= i < spec_build_multi_module(content, root, sep, workspace_uri, contents).len()
                && (#[trigger] spec_build_multi_module(
                content,
                root,
                sep,
                workspace_uri,
                contents,
            )[i]).0 == workspace_uri,
{
    let deps = spec_parse_path_dependencies(content);
    let state = multi_module_state(root, sep, deps, contents, deps.len());
    let r = spec_build_multi_module(content, root, sep, workspace_uri, contents);
    if !(exists|i: int| 0 <= i < state.0.len() && state.0[i].0 == workspace_uri) {
        assert(r[state.0.len() as int].0 == workspace_uri);
    } else {
        let i = choose|i: int| 0 <= i < state.0.len() && state.0[i].0 == workspace_uri;
        assert(r[i].0 == workspace_uri);
    }
}

/// Inside `[package]`, lines that are neither a section header nor a `name`
/// line are skipped: the name on the first `name` line after any number of
/// them is the package name.
pub proof fn law_package_name_after_other_keys(
    content: Seq<char>,
    before: Seq<Seq<char>>,
    header: Seq<char>,
    others: Seq<Seq<char>>,
    name_line: Seq<char>,
    after: Seq<Seq<char>>,
    name: Seq<char>,
)
    requires
        split(content, '\n') == before + seq![header] + others + seq![name_line] + after,
        forall|i: int| 0 <= i < before.len() ==> trim(#[trigger] before[i]) != "[package]"@,
        trim(header) == "[package]"@,
        forall|i: int|
            0 <= i < others.len() ==> !starts_with(trim(#[trigger] others[i]), "["@)
                && !starts_with(trim(others[i]), "name"@),
        keyed_value(trim(name_line), "name"@) == Some(name),
    ensures
        spec_parse_package_name(content) == Some(name),
{
    let tail = others + seq![name_line] + after;
    lemma_skip_to_package(before, seq![header] + tail);
    assert(before + seq![header] + others + seq![name_line] + after =~= before + (seq![header] + tail));
    assert((seq![header] + tail).drop_first() =~= tail);
    lemma_skip_other_keys(others, seq![name_line] + after);
    assert(others + seq![name_line] + after =~= others + (seq![name_line] + after));
    let t = trim(name_line);
    reveal_strlit("name");
    reveal_strlit("[package]");
    reveal_strlit("[");
    assert(starts_with(t, "name"@));
    assert(t[0] == t.subrange(0, 4)[0]);
    assert(t[0] == 'n');
    assert(t != "[package]"@) by {
        if t == "[package]"@ {
            assert(t[0] == '[');
        }
    }
    assert(!starts_with(t, "["@)) by {
        if starts_with(t, "["@) {
            assert(t[0] == t.subrange(0, 1)[0]);
        }
    }
}

proof fn lemma_skip_to_package(before: Seq<Seq<char>>, rest: Seq<Seq<char>>)
    requires
        forall|i: int| 0 <= i < before.len() ==> trim(#[trigger] before[i]) != "[package]"@,
    ensures
        package_name_in(before + rest, false) == package_name_in(rest, false),
    decreases before.len(),
{
    if before.len() > 0 {
        assert((before + rest).drop_first() =~= before.drop_first() + rest);
        assert((before + rest)[0] == before[0]);
        assert forall|i: int| 0 <= i < before.drop_first().len() implies trim(
            #[trigger] before.drop_first()[i],
        ) != "[package]"@ by {
            assert(before.drop_first()[i] == before[i + 1]);
        }
        lemma_skip_to_package(before.drop_first(), rest);
    } else {
        assert(before + rest =~= rest);
    }
}

proof fn lemma_skip_other_keys(others: Seq<Seq<char>>, rest: Seq<Seq<char>>)
    requires
        forall|i: int|
            0 <= i < others.len() ==> !starts_with(trim(#[trigger] others[i]), "["@)
                && !starts_with(trim(others[i]), "name"@),
    ensures
        package_name_in(others + rest, true) == package_name_in(rest, true),
    decreases others.len(),
{
    if others.len() > 0 {
        assert((others + rest).drop_first() =~= others.drop_first() + rest);
        assert((others + rest)[0] == others[0]);
        let t = trim(others[0]);
        assert(!starts_with(t, "["@) && !starts_with(t, "name"@));
        assert(t != "[package]"@) by {
            reveal_strlit("[package]");
            reveal_strlit("[");
            if t == "[package]"@ {
                assert(t.subrange(0, 1) =~= "["@);
            }
        }
        assert forall|i: int| 0 <= i < others.drop_first().len() implies !starts_with(
            trim(#[trigger] others.drop_first()[i]),
            "["@,
        ) && !starts_with(trim(others.drop_first()[i]), "name"@) by {
            assert(others.drop_first()[i] == others[i + 1]);
        }
        lemma_skip_other_keys(others.drop_first(), rest);
    } else {
        assert(others + rest =~= rest);
    }
}

/// Adding a requirement is a map insertion: every earlier entry stays where
/// it was (its value replaced only when its key is the new key), the new
/// pair is present, and the list grows by one exactly when the key is new.
pub proof fn law_insert_pair_keeps_entries(
    entries: Seq<(Seq<char>, Seq<char>)>,
    key: Seq<char>,
    value: Seq<char>,
)
    ensures
        ({
            let r = insert_pair(entries, key, value);
            &&& r.len() == if exists|i: int| 0 <= i < entries.len() && entries[i].0 == key {
                entries.len()
            } else {
                entries.len() + 1
            }
            &&& forall|i: int|
                0 <= i < entries.len() ==> #[trigger] r[i] == if entries[i].0 == key {
                    (key, value)
                } else {
                    entries[i]
                }
            &&& exists|j: int| 0 <= j < r.len() && r[j] == (key, value)
        }),
{
    let r = insert_pair(entries, key, value);
    if exists|i: int| 0 <= i < entries.len() && entries[i].0 == key {
        let i = choose|i: int| 0 <= i < entries.len() && entries[i].0 == key;
        assert(r[i] == (key, value));
    } else {
        assert(r[entries.len() as int] == (key, value));
    }
}

/// The URI under which a dependency is required.
pub open spec fn dependency_uri_of(root: Seq<char>, sep: char, rel: Seq<char>) -> Seq<char> {
    spec_dependency_uri(spec_dependency_abs_path(root, sep, rel))
}

proof fn lemma_state_requires(
    root: Seq<char>,
    sep: char,
    deps: Seq<(Seq<char>, Seq<char>)>,
    contents: Seq<Option<String>>,
    n: nat,
)
    requires
        n <= deps.len(),
        n <= contents.len(),
    ensures
        forall|k: int|
            0 <= k < n && #[trigger] contents[k] is Some ==> exists|j: int|
                0 <= j < multi_module_state(root, sep, deps, contents, n).1.len()
                    && multi_module_state(root, sep, deps, contents, n).1[j].0 == deps[k].0,
        forall|j: int|
            0 <= j < multi_module_state(root, sep, deps, contents, n).0.len() ==> exists|k: int|
                0 <= k < n && contents[k] is Some && (#[trigger] multi_module_state(
                    root,
                    sep,
                    deps,
                    contents,
                    n,
                ).0[j]).0 == dependency_uri_of(root, sep, deps[k].1),
    decreases n,
{
    if n > 0 {
        let m = (n - 1) as nat;
        lemma_state_requires(root, sep, deps, contents, m);
        let prev = multi_module_state(root, sep, deps, contents, m);
        let cur = multi_module_state(root, sep, deps, contents, n);
        let dep = deps[m as int];
        match spec_resolve_module(root, sep, dep.0, dep.1, opt_string_view(contents[m as int])) {
            Some(resolved) => {
                let uri = spec_dependency_uri(resolved.0);
                law_insert_pair_keeps_entries(prev.1, dep.0, uri);
                assert forall|k: int| 0 <= k < n && #[trigger] contents[k] is Some implies exists|j: int|
                    0 <= j < cur.1.len() && cur.1[j].0 == deps[k].0 by {
                    if k < m {
                        let j = choose|j: int| 0 <= j < prev.1.len() && prev.1[j].0 == deps[k].0;
                        assert(cur.1[j].0 == deps[k].0);
                    } else {
                        let j = choose|j: int| 0 <= j < cur.1.len() && cur.1[j] == (dep.0, uri);
                        assert(cur.1[j].0 == deps[k].0);
                    }
                }
                assert forall|j: int| 0 <= j < cur.0.len() implies exists|k: int|
                    0 <= k < n && contents[k] is Some && (#[trigger] cur.0[j]).0 == dependency_uri_of(
                        root,
                        sep,
                        deps[k].1,
                    ) by {
                    if j < prev.0.len() {
                        assert(cur.0[j] == prev.0[j]);
                        let k = choose|k: int| 0 <= k < m && contents[k] is Some && prev.0[j].0
                            == dependency_uri_of(root, sep, deps[k].1);
                        assert(0 <= k < n);
                    } else {
                        assert(cur.0[j].0 == uri);
                        assert(contents[m as int] is Some);
                    }
                }
            },
            None => {
                assert(cur == prev);
                assert forall|k: int| 0 <= k < n && #[trigger] contents[k] is Some implies exists|j: int|
                    0 <= j < cur.1.len() && cur.1[j].0 == deps[k].0 by {
                    assert(k < m);
                }
            },
        }
    }
}

/// When no dependency shares the workspace's URI, the workspace module comes
/// last and requires every dependency whose manifest was read, under the
/// dependency's name.
pub proof fn law_workspace_requires_every_dependency(
    content: Seq<char>,
    root: Seq<char>,
    sep: char,
    workspace_uri: Seq<char>,
    contents: Seq<Option<String>>,
)
    requires
        contents.len() == spec_parse_path_dependencies(content).len(),
        forall|k: int|
            0 <= k < contents.len() && #[trigger] contents[k] is Some ==> dependency_uri_of(
                root,
                sep,
                spec_parse_path_dependencies(content)[k].1,
            ) != workspace_uri,
    ensures
        ({
            let r = spec_build_multi_module(content, root, sep, workspace_uri, contents);
            let deps = spec_parse_path_dependencies(content);
            &&& r.len() > 0
            &&& r.last().0 == workspace_uri
            &&& forall|k: int|
                0 <= k < deps.len() && #[trigger] contents[k] is Some ==> exists|j: int|
                    0 <= j < r.last().2.len() && r.last().2[j].0 == deps[k].0
        }),
{
    let deps = spec_parse_path_dependencies(content);
    let state = multi_module_state(root, sep, deps, contents, deps.len());
    lemma_state_requires(root, sep, deps, contents, deps.len());
    assert(!(exists|i: int| 0 <= i < state.0.len() && state.0[i].0 == workspace_uri)) by {
        if exists|i: int| 0 <= i < state.0.len() && state.0[i].0 == workspace_uri {
            let i = choose|i: int| 0 <= i < state.0.len() && state.0[i].0 == workspace_uri;
            let k = choose|k: int| 0 <= k < deps.len() && contents[k] is Some && (#[trigger] state.0[i]).0
                == dependency_uri_of(root, sep, deps[k].1);
            assert(contents[k] is Some);
        }
    }
    let r = spec_build_multi_module(content, root, sep, workspace_uri, contents);
    let package = match spec_parse_package_name(content) {
        Some(n) => n,
        None => split(root, sep).last(),
    };
    assert(r == state.0.push((workspace_uri, package, state.1)));
    assert(r.last() == (workspace_uri, package, state.1));
    assert forall|k: int| 0 <= k < deps.len() && #[trigger] contents[k] is Some implies exists|j: int|
        0 <= j < r.last().2.len() && r.last().2[j].0 == deps[k].0 by {
        assert(0 <= k < deps.len() && contents[k] is Some);
        assert(exists|j: int| 0 <= j < state.1.len() && state.1[j].0 == deps[k].0);
        let j = choose|j: int| 0 <= j < state.1.len() && state.1[j].0 == deps[k].0;
        assert(0 <= j < r.last().2.len() && r.last().2[j].0 == deps[k].0);
    }
}

/// The `[package]` section ends at the next section header: a `name` line
/// after it is not the package name, and without a `name` line before it
/// there is none.
pub proof fn law_package_section_ends_at_header(
    content: Seq<char>,
    before: Seq<Seq<char>>,
    header: Seq<char>,
    others: Seq<Seq<char>>,
    next: Seq<char>,
    after: Seq<Seq<char>>,
)
    requires
        split(content, '\n') == before + seq![header] + others + seq![next] + after,
        forall|i: int| 0 <= i < before.len() ==> trim(#[trigger] before[i]) != "[package]"@,
        trim(header) == "[package]"@,
        forall|i: int|
            0 <= i < others.len() ==> !starts_with(trim(#[trigger] others[i]), "["@)
                && !starts_with(trim(others[i]), "name"@),
        starts_with(trim(next), "["@),
        trim(next) != "[package]"@,
    ensures
        spec_parse_package_name(content) is None,
{
    let tail = others + seq![next] + after;
    lemma_skip_to_package(before, seq![header] + tail);
    assert(before + seq![header] + others + seq![next] + after =~= before + (seq![header] + tail));
    assert((seq![header] + tail).drop_first() =~= tail);
    lemma_skip_other_keys(others, seq![next] + after);
    assert(others + seq![next] + after =~= others + (seq![next] + after));
}

} // verus!
