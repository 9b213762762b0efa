//! Where the segments find their settings and credentials: the debug switch,
//! the choice of settings file, the `ANTHROPIC_*` values and the endpoints
//! built from the base URL.

use vstd::prelude::*;
use crate::text::{ascii_lower, ascii_lowercase, ends_with_char, same_text, trim, trim_text};

verus! {

/// The words that switch debug logging on, compared case-insensitively.
pub open spec fn is_debug_word(lowered: Seq<char>) -> bool {
    ||| lowered == "1"@
    ||| lowered == "true"@
    ||| lowered == "yes"@
    ||| lowered == "on"@
}

/// Whether a debug variable with this value (absent when `None`) switches
/// debug logging on: its ASCII-lowercased value is `1`, `true`, `yes` or `on`.
pub fn debug_flag_enabled(value: Option<&str>) -> (r: bool)
    ensures
        r == (value matches Some(v) && is_debug_word(ascii_lower(v@))),
{
    match value {
        None => false,
        Some(v) => {
            let lowered = ascii_lowercase(v);
            let l = lowered.as_str();
            same_text(l, "1") || same_text(l, "true") || same_text(l, "yes") || same_text(l, "on")
        },
    }
}

/// Which settings file to read.
#[derive(PartialEq, Eq, Structural, Debug, Clone, Copy)]
pub enum SettingsSource {
    /// `settings.json` in the directory named by `CLAUDE_CONFIG_DIR`.
    ConfigDir,
    /// `settings.json` in the assistant's folder under the home directory.
    Home,
}

/// Picks the settings file: the one under `CLAUDE_CONFIG_DIR` when that
/// variable is set and the file exists, else the one under the home directory
/// when that is known and the file exists, else none. Each argument is `None`
/// when its directory is unknown, else whether `settings.json` exists there.
pub fn choose_settings_source(config_dir_file: Option<bool>, home_file: Option<bool>) -> (r:
    Option<SettingsSource>)
    ensures
        r == (if config_dir_file == Some(true) {
            Some(SettingsSource::ConfigDir)
        } else if home_file == Some(true) {
            Some(SettingsSource::Home)
        } else {
            None
        }),
{
    if let Some(true) = config_dir_file {
        Some(SettingsSource::ConfigDir)
    } else if let Some(true) = home_file {
        Some(SettingsSource::Home)
    } else {
        None
    }
}

/// The `env` table of the assistant's settings file, with the values the segments read.
pub struct ClaudeEnv {
    pub anthropic_base_url: Option<String>,
    pub anthropic_auth_token: Option<String>,
}

/// The assistant's settings file, as far as the segments read it.
pub struct ClaudeSettings {
    pub env: Option<ClaudeEnv>,
}

/// Which credential to resolve.
#[derive(PartialEq, Eq, Structural, Debug, Clone, Copy)]
pub enum Credential {
    /// `ANTHROPIC_BASE_URL`
    BaseUrl,
    /// `ANTHROPIC_AUTH_TOKEN`
    AuthToken,
}

/// The value of a credential in the settings file, if the file has it.
pub open spec fn settings_value(settings: Option<ClaudeSettings>, key: Credential) -> Option<
    Seq<char>,
> {
    match settings {
        Some(s) => match s.env {
            Some(e) => match key {
                Credential::BaseUrl => match e.anthropic_base_url {
                    Some(v) => Some(v@),
                    None => None,
                },
                Credential::AuthToken => match e.anthropic_auth_token {
                    Some(v) => Some(v@),
                    None => None,
                },
            },
            None => None,
        },
        None => None,
    }
}

/// A value with surrounding whitespace removed, or nothing when that leaves it empty.
pub open spec fn nonblank(value: Option<Seq<char>>) -> Option<Seq<char>> {
    match value {
        Some(v) => if trim(v).len() > 0 {
            Some(trim(v))
        } else {
            None
        },
        None => None,
    }
}

/// The view of an optional string.
pub open spec fn opt_view(value: Option<&str>) -> Option<Seq<char>> {
    match value {
        Some(v) => Some(v@),
        None => None,
    }
}

/// The resolved credential: the trimmed environment value when it is not
/// blank, else the trimmed settings value when it is not blank.
pub open spec fn resolved_credential(
    env_value: Option<Seq<char>>,
    settings: Option<ClaudeSettings>,
    key: Credential,
) -> Option<Seq<char>> {
    if nonblank(env_value) is Some {
        nonblank(env_value)
    } else {
        nonblank(settings_value(settings, key))
    }
}

/// The view of an optional `String`.
pub open spec fn opt_string_view(value: Option<String>) -> Option<Seq<char>> {
    match value {
        Some(v) => Some(v@),
        None => None,
    }
}

/// `value` trimmed, or `None` when nothing is left.
fn nonblank_text(value: &str) -> (r: Option<String>)
    ensures
        opt_string_view(r) == nonblank(Some(value@)),
        r matches Some(t) ==> t@.len() > 0 && trim(t@) == t@,
{
    let t = trim_text(value);
    proof {
        crate::text::lemma_trim_idempotent(value@);
    }
    if t.unicode_len() > 0 {
        Some(t)
    } else {
        None
    }
}

/// Whether the settings file must be read to resolve a credential: the
/// environment value is absent or blank.
pub fn needs_settings(env_value: Option<&str>) -> (r: bool)
    ensures
        r == (nonblank(opt_view(env_value)) is None),
{
    match env_value {
        Some(v) => nonblank_text(v).is_none(),
        None => true,
    }
}

/// Resolves `ANTHROPIC_BASE_URL` or `ANTHROPIC_AUTH_TOKEN`: the environment
/// value wins when it is not blank; else the value in the settings file, when
/// it is not blank. Values come back trimmed.
pub fn resolve_credential(
    env_value: Option<&str>,
    settings: Option<&ClaudeSettings>,
    key: Credential,
) -> (r: Option<String>)
    ensures
        opt_string_view(r) == resolved_credential(
            opt_view(env_value),
            match settings {
                Some(s) => Some(*s),
                None => None,
            },
            key,
        ),
        r matches Some(v) ==> v@.len() > 0 && trim(v@) == v@,
{
    if let Some(v) = env_value {
        let from_env = nonblank_text(v);
        if from_env.is_some() {
            return from_env;
        }
    }
    match settings {
        None => None,
        Some(s) => match &s.env {
            None => None,
            Some(e) => {
                let stored = match key {
                    Credential::BaseUrl => &e.anthropic_base_url,
                    Credential::AuthToken => &e.anthropic_auth_token,
                };
                match stored {
                    Some(v) => nonblank_text(v.as_str()),
                    None => None,
                }
            },
        },
    }
}

/// The URL of an endpoint under `base_url`: exactly one `/` between them
/// when `base_url` does not already end with one.
pub open spec fn endpoint(base_url: Seq<char>, path: Seq<char>) -> Seq<char> {
    if base_url.len() > 0 && base_url.last() == '/' {
        base_url + path
    } else {
        base_url + "/"@ + path
    }
}

/// Appends `path` to `base_url` with one `/` between them.
pub fn endpoint_url(base_url: &str, path: &str) -> (r: String)
    ensures
        r@ == endpoint(base_url@, path@),
{
    let mut out = String::from_str(base_url);
    if !ends_with_char(base_url, '/') {
        out.append("/");
    }
    out.append(path);
    out
}

/// The value of the `Authorization` header that carries `token`.
pub fn bearer_header(token: &str) -> (r: String)
    ensures
        r@ == "Bearer "@ + token@,
{
    let mut out = String::from_str("Bearer ");
    out.append(token);
    out
}

/// Whether an HTTP status is the success the segments wait for, 200.
pub fn http_ok(status: u16) -> (r: bool)
    ensures
        r == (status == 200),
{
    status == 200
}


/// A trailing `/` on the base URL makes no difference to an endpoint.
pub proof fn lemma_endpoint_trailing_slash(base_url: Seq<char>, path: Seq<char>)
    requires
        base_url.len() == 0 || base_url.last() != '/',
    ensures
        endpoint(base_url + "/"@, path) == endpoint(base_url, path),
{
    reveal_strlit("/");
    assert(endpoint(base_url + "/"@, path) =~= base_url + "/"@ + path);
}

/// The debug switch ignores ASCII case: a value and its lower-case form
/// switch logging on alike.
pub proof fn lemma_debug_flag_ignores_case(v: Seq<char>)
    ensures
        is_debug_word(ascii_lower(v)) == is_debug_word(ascii_lower(ascii_lower(v))),
{
    assert(ascii_lower(ascii_lower(v)) =~= ascii_lower(v));
}


/// For either credential, a value in the environment that is not blank wins:
/// it comes back trimmed, whatever the settings file holds.
pub proof fn lemma_environment_wins(
    env_value: Seq<char>,
    settings: Option<ClaudeSettings>,
    key: Credential,
)
    requires
        trim(env_value).len() > 0,
    ensures
        resolved_credential(Some(env_value), settings, key) == Some(trim(env_value)),
{
}

/// An absent or blank environment value counts for nothing: the credential is
/// what the settings file alone gives.
pub proof fn lemma_blank_environment_defers(
    env_value: Option<Seq<char>>,
    settings: Option<ClaudeSettings>,
    key: Credential,
)
    requires
        env_value is None || trim(env_value->0).len() == 0,
    ensures
        resolved_credential(env_value, settings, key) == resolved_credential(None, settings, key),
{
}

/// With nothing in the environment, each credential is read from its own
/// entry of the settings file, trimmed; a blank or missing entry gives none.
pub proof fn lemma_settings_entry_per_key(env: ClaudeEnv, key: Credential)
    ensures
        ({
            let stored = match key {
                Credential::BaseUrl => env.anthropic_base_url,
                Credential::AuthToken => env.anthropic_auth_token,
            };
            let got = resolved_credential(None, Some(ClaudeSettings { env: Some(env) }), key);
            match stored {
                Some(v) => if trim(v@).len() > 0 {
                    got == Some(trim(v@))
                } else {
                    got is None
                },
                None => got is None,
            }
        }),
{
}

} // verus!
