//! User settings of the language server and the values derived from them.

use vstd::prelude::*;
use crate::text::{eq_ignore_ascii_case, eq_ignore_ascii_case_exec, str_chars};
use crate::util::{Os, spec_expand_home_path, expand_home_path};

verus! {

/// How often the proxy binary is checked for updates.
#[derive(Clone, Copy, Debug, PartialEq, Eq, Structural)]
pub enum CheckUpdates {
    Always,
    Once,
    Never,
}

impl Default for CheckUpdates {
    fn default() -> (r: Self)
        ensures
            r == CheckUpdates::Always,
    {
        CheckUpdates::Always
    }
}

/// The settings of the language server that the extension reads: the string
/// at `/cangjie_home`, the string at `/lsp_server_path`, the boolean at
/// `/sdk_auto_download` and the string at `/check_updates` (each `None`
/// when absent or of another JSON type).
pub struct LspConfig {
    pub cangjie_home: Option<String>,
    pub lsp_server_path: Option<String>,
    pub sdk_auto_download: Option<bool>,
    pub check_updates: Option<String>,
}

/// The first value whose key equals `key` up to ASCII case.
pub open spec fn env_lookup_ci(env: Seq<(String, String)>, key: Seq<char>) -> Option<Seq<char>>
    decreases env.len(),
{
    if env.len() == 0 {
        None
    } else if eq_ignore_ascii_case(env[0].0@, key) {
        Some(env[0].1@)
    } else {
        env_lookup_ci(env.drop_first(), key)
    }
}

/// A configured path with `~` expanded, when the expansion succeeds.
pub open spec fn expanded_setting(os: Os, env: Seq<(String, String)>, value: Option<String>) -> Option<
    Seq<char>,
> {
    match value {
        Some(v) => match spec_expand_home_path(os, env, v@) {
            Ok(p) => Some(p),
            Err(_) => None,
        },
        None => None,
    }
}

/// The SDK home: the configured `cangjie_home` (expanded), else the first
/// `CANGJIE_HOME` of the shell environment (any ASCII case) when not empty,
/// else the process's `CANGJIE_HOME` when not empty.
pub open spec fn spec_cangjie_home(
    configuration: Option<LspConfig>,
    os: Os,
    shell_env: Seq<(String, String)>,
    system_home: Option<String>,
) -> Option<Seq<char>> {
    let from_settings = match configuration {
        Some(c) => expanded_setting(os, shell_env, c.cangjie_home),
        None => None,
    };
    if from_settings is Some {
        from_settings
    } else {
        match env_lookup_ci(shell_env, "CANGJIE_HOME"@) {
            Some(v) if v.len() > 0 => Some(v),
            _ => match system_home {
                Some(h) if h@.len() > 0 => Some(h@),
                _ => None,
            },
        }
    }
}

/// The first value of `env` whose key equals `key` up to ASCII case.
pub fn env_get_ci(env: &[(String, String)], key: &str) -> (r: Option<String>)
    ensures
        r matches Some(v) ==> env_lookup_ci(env@, key@) == Some(v@),
        r is None ==> env_lookup_ci(env@, key@) is None,
{
    let k = str_chars(key);
    let mut i: usize = 0;
    assert(env@.subrange(0, env@.len() as int) =~= env@);
    while i < env.len()
        invariant
            i <= env@.len(),
            k@ == key@,
            env_lookup_ci(env@, key@) == env_lookup_ci(
                env@.subrange(i as int, env@.len() as int),
                key@,
            ),
        decreases env.len() - i,
    {
        assert(env@.subrange(i as int, env@.len() as int).drop_first() =~= env@.subrange(
            i + 1,
            env@.len() as int,
        ));
        let name = str_chars(env[i].0.as_str());
        if eq_ignore_ascii_case_exec(&name, &k) {
            return Some(env[i].1.clone());
        }
        i = i + 1;
    }
    None
}

fn expand_setting(os: Os, env: &[(String, String)], value: &Option<String>) -> (r: Option<String>)
    ensures
        r matches Some(p) ==> expanded_setting(os, env@, *value) == Some(p@),
        r is None ==> expanded_setting(os, env@, *value) is None,
{
    match value {
        Some(v) => match expand_home_path(os, env, v.clone()) {
            Ok(p) => Some(p),
            Err(_) => None,
        },
        None => None,
    }
}

/// Reads the SDK home from the settings, the shell environment, or the
/// process environment (`system_home`), in that order.
pub fn get_cangjie_home(
    configuration: &Option<LspConfig>,
    os: Os,
    shell_env: &[(String, String)],
    system_home: Option<String>,
) -> (r: Option<String>)
    ensures
        r matches Some(h) ==> spec_cangjie_home(*configuration, os, shell_env@, system_home) == Some(
            h@,
        ),
        r is None ==> spec_cangjie_home(*configuration, os, shell_env@, system_home) is None,
{
    if let Some(c) = configuration {
        if let Some(p) = expand_setting(os, shell_env, &c.cangjie_home) {
            return Some(p);
        }
    }
    if let Some(v) = env_get_ci(shell_env, "CANGJIE_HOME") {
        if v.as_str().is_empty() {
            return match system_home {
                Some(h) => if h.as_str().is_empty() {
                    None
                } else {
                    Some(h)
                },
                None => None,
            };
        }
        return Some(v);
    }
    match system_home {
        Some(h) => if h.as_str().is_empty() {
            None
        } else {
            Some(h)
        },
        None => None,
    }
}

/// The configured `lsp_server_path`, expanded.
pub open spec fn spec_lsp_server_path(
    configuration: Option<LspConfig>,
    os: Os,
    shell_env: Seq<(String, String)>,
) -> Option<Seq<char>> {
    match configuration {
        Some(c) => expanded_setting(os, shell_env, c.lsp_server_path),
        None => None,
    }
}

/// Reads the user-configured path of the language server binary.
pub fn get_lsp_server_path(
    configuration: &Option<LspConfig>,
    os: Os,
    shell_env: &[(String, String)],
) -> (r: Option<String>)
    ensures
        r matches Some(p) ==> spec_lsp_server_path(*configuration, os, shell_env@) == Some(p@),
        r is None ==> spec_lsp_server_path(*configuration, os, shell_env@) is None,
{
    match configuration {
        Some(c) => expand_setting(os, shell_env, &c.lsp_server_path),
        None => None,
    }
}

/// Whether the SDK may be downloaded automatically (off unless set to `true`).
pub fn is_autodownload(configuration: &Option<LspConfig>) -> (r: bool)
    ensures
        r == (configuration matches Some(c) && c.sdk_auto_download == Some(true)),
{
    match configuration {
        Some(c) => match c.sdk_auto_download {
            Some(b) => b,
            None => false,
        },
        None => false,
    }
}

/// What `str::to_lowercase` returns for a string.
pub uninterp spec fn lowercase(s: Seq<char>) -> Seq<char>;

/// Calls `str::to_lowercase`; its result depends on the string alone.
#[verifier::external_body]
fn to_lowercase(s: &str) -> (r: String)
    ensures
        r@ == lowercase(s@),
{
    s.to_lowercase()
}

/// The update policy named by an already lower-cased setting.
pub open spec fn spec_check_updates_mode(mode: Seq<char>) -> CheckUpdates {
    if mode == "once"@ {
        CheckUpdates::Once
    } else if mode == "never"@ {
        CheckUpdates::Never
    } else {
        CheckUpdates::Always
    }
}

/// The update policy named by a lower-cased setting; unknown names give the
/// default, `Always`.
pub fn check_updates_mode(mode: &str) -> (r: CheckUpdates)
    ensures
        r == spec_check_updates_mode(mode@),
{
    if crate::text::str_is(mode, "once") {
        CheckUpdates::Once
    } else if crate::text::str_is(mode, "never") {
        CheckUpdates::Never
    } else {
        CheckUpdates::Always
    }
}

/// The update policy of the settings, read without regard to case.
pub open spec fn spec_get_check_updates(configuration: Option<LspConfig>) -> CheckUpdates {
    match configuration {
        Some(c) => match c.check_updates {
            Some(m) => spec_check_updates_mode(lowercase(m@)),
            None => CheckUpdates::Always,
        },
        None => CheckUpdates::Always,
    }
}

/// Reads the update policy (`once`, `never` or `always`, any case).
pub fn get_check_updates(configuration: &Option<LspConfig>) -> (r: CheckUpdates)
    ensures
        r == spec_get_check_updates(*configuration),
{
    match configuration {
        Some(c) => match &c.check_updates {
            Some(m) => {
                let lower = to_lowercase(m.as_str());
                check_updates_mode(lower.as_str())
            },
            None => CheckUpdates::default(),
        },
        None => CheckUpdates::default(),
    }
}

/// On Windows the configured paths are used as written, whatever the shell
/// environment holds: a configured `cangjie_home` is the SDK home and a
/// configured `lsp_server_path` is the server path.
pub proof fn law_windows_settings_as_written(
    c: LspConfig,
    shell_env: Seq<(String, String)>,
    system_home: Option<String>,
)
    ensures
        c.cangjie_home matches Some(h) ==> spec_cangjie_home(Some(c), Os::Windows, shell_env, system_home)
            == Some(h@),
        c.lsp_server_path matches Some(p) ==> spec_lsp_server_path(Some(c), Os::Windows, shell_env)
            == Some(p@),
{
}

/// A configured `cangjie_home` comes before both environments: where it
/// expands, the SDK home is the expansion, on every platform.
pub proof fn law_configured_home_first(
    c: LspConfig,
    os: Os,
    shell_env: Seq<(String, String)>,
    system_home: Option<String>,
)
    ensures
        c.cangjie_home matches Some(h) ==> (spec_expand_home_path(os, shell_env, h@) matches Ok(p)
            ==> spec_cangjie_home(Some(c), os, shell_env, system_home) == Some(p)),
{
}

/// Without a configured `cangjie_home`, a non-empty `CANGJIE_HOME` of the
/// shell (any ASCII case of the name) comes before the process's; an empty
/// value counts as unset, and with neither there is no SDK home.
pub proof fn law_environment_home_order(
    configuration: Option<LspConfig>,
    os: Os,
    shell_env: Seq<(String, String)>,
    system_home: Option<String>,
)
    requires
        configuration matches Some(c) ==> c.cangjie_home is None,
    ensures
        ({
            let r = spec_cangjie_home(configuration, os, shell_env, system_home);
            match env_lookup_ci(shell_env, "CANGJIE_HOME"@) {
                Some(v) if v.len() > 0 => r == Some(v),
                _ => match system_home {
                    Some(h) if h@.len() > 0 => r == Some(h@),
                    _ => r is None,
                },
            }
        }),
{
}

} // verus!
