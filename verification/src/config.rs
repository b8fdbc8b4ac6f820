//! Where settings come from, and which of them count.
use vstd::prelude::*;

use crate::codex::sse_bridge::opt_text;
use crate::random::{fresh_token, is_token};
use crate::text::{
    chars_of, concat2, owned, parse_u64, same, string_of, trim, trimmed, unsigned_value,
};

verus! {

/// The name of the file that keeps the shared secret.
pub const SECRET_FILE_NAME: &'static str = ".router_secret";

/// The published password of a new installation.
pub const DEFAULT_ADMIN_PASSWORD: &'static str = "password";

/// Where the shared secret came from, or that there is none yet.
#[derive(Clone, Debug)]
pub enum SecretSource {
    Env(String),
    SidecarFile(String),
    BootstrapNeeded,
}

impl SecretSource {
    pub fn into_secret(self) -> (r: Option<String>)
        ensures
            r == match self {
                SecretSource::Env(s) => Some(s),
                SecretSource::SidecarFile(s) => Some(s),
                SecretSource::BootstrapNeeded => None,
            },
    {
        match self {
            SecretSource::Env(s) => Some(s),
            SecretSource::SidecarFile(s) => Some(s),
            SecretSource::BootstrapNeeded => None,
        }
    }
}

/// Where the shared secret in use came from.
#[derive(Clone, Copy, Debug, PartialEq, Eq, Structural)]
pub enum SecretOrigin {
    Env,
    SidecarFile,
}

impl SecretOrigin {
    pub fn from_source(source: &SecretSource) -> (r: Option<SecretOrigin>)
        ensures
            r == match source {
                SecretSource::Env(_) => Some(SecretOrigin::Env),
                SecretSource::SidecarFile(_) => Some(SecretOrigin::SidecarFile),
                SecretSource::BootstrapNeeded => None,
            },
    {
        match source {
            SecretSource::Env(_) => Some(SecretOrigin::Env),
            SecretSource::SidecarFile(_) => Some(SecretOrigin::SidecarFile),
            SecretSource::BootstrapNeeded => None,
        }
    }
}

/// Whether the proxy asks for the shared secret, and who said so.
#[derive(Clone, Copy, Debug, PartialEq, Eq, Structural)]
pub enum AuthModeSource {
    Env(bool),
    Db(bool),
    Default(bool),
}

/// Who said whether the proxy asks for the shared secret.
#[derive(Clone, Copy, Debug, PartialEq, Eq, Structural)]
pub enum AuthModeOrigin {
    Env,
    Db,
    Default,
}

pub fn auth_mode_parts(source: AuthModeSource) -> (r: (bool, AuthModeOrigin))
    ensures
        r == match source {
            AuthModeSource::Env(value) => (value, AuthModeOrigin::Env),
            AuthModeSource::Db(value) => (value, AuthModeOrigin::Db),
            AuthModeSource::Default(value) => (value, AuthModeOrigin::Default),
        },
{
    match source {
        AuthModeSource::Env(value) => (value, AuthModeOrigin::Env),
        AuthModeSource::Db(value) => (value, AuthModeOrigin::Db),
        AuthModeSource::Default(value) => (value, AuthModeOrigin::Default),
    }
}

/// What a stored setting says; only the two words that are ever stored count.
pub fn stored_bool(value: &str) -> (r: Option<bool>)
    ensures
        r == if value@ == "true"@ {
            Some(true)
        } else if value@ == "false"@ {
            Some(false)
        } else {
            None
        },
{
    proof {
        reveal_strlit("true");
        reveal_strlit("false");
    }
    if same(value, "true") {
        Some(true)
    } else if same(value, "false") {
        Some(false)
    } else {
        None
    }
}

/// The word under which a setting is stored.
pub fn bool_text(value: bool) -> (r: &'static str)
    ensures
        r@ == if value {
            "true"@
        } else {
            "false"@
        },
{
    if value {
        "true"
    } else {
        "false"
    }
}

/// Whether the proxy asks for the shared secret: as the environment says, or
/// else the database, or else as suits the installation. A new one, which has
/// no secret yet, starts open.
pub fn resolve_auth_mode(source: &SecretSource, env: Option<bool>, stored: Option<bool>) -> (r:
    AuthModeSource)
    ensures
        r == match env {
            Some(value) => AuthModeSource::Env(value),
            None => match stored {
                Some(value) => AuthModeSource::Db(value),
                None => AuthModeSource::Default(!(source is BootstrapNeeded)),
            },
        },
{
    match env {
        Some(value) => AuthModeSource::Env(value),
        None => match stored {
            Some(value) => AuthModeSource::Db(value),
            None => AuthModeSource::Default(
                match source {
                    SecretSource::BootstrapNeeded => false,
                    _ => true,
                },
            ),
        },
    }
}

// ---------------------------------------------------------------------------
// The shared secret
// ---------------------------------------------------------------------------

/// A path without the slashes, and the names of this directory, that end it.
pub open spec fn tidy(path: Seq<char>) -> Seq<char>
    decreases path.len(),
{
    if path.len() > 0 && path.last() == '/' {
        tidy(path.drop_last())
    } else if path.len() > 1 && path.last() == '.' && path[path.len() - 2] == '/' {
        tidy(path.drop_last())
    } else {
        path
    }
}

/// A path up to its last slash, with it.
pub open spec fn directory(path: Seq<char>) -> Seq<char>
    decreases path.len(),
{
    if path.len() == 0 || path.last() == '/' {
        path
    } else {
        directory(path.drop_last())
    }
}

/// The path of the secret file: it stands beside the database file.
pub open spec fn secret_path(sqlite_path: Seq<char>) -> Seq<char> {
    directory(tidy(sqlite_path)) + SECRET_FILE_NAME@
}

/// The path of the secret file: it stands beside the database file. Slashes
/// part the names in a path.
pub fn secret_file_path(sqlite_path: &str) -> (r: String)
    ensures
        r@ == secret_path(sqlite_path@),
{
    let v = chars_of(sqlite_path);
    let mut end: usize = v.len();
    assert(v@.subrange(0, end as int) =~= v@);
    while end > 0 && (v[end - 1] == '/' || (end > 1 && v[end - 1] == '.' && v[end - 2] == '/'))
        invariant
            end <= v.len(),
            tidy(v@) == tidy(v@.subrange(0, end as int)),
        decreases end,
    {
        assert(v@.subrange(0, end as int).drop_last() =~= v@.subrange(0, end - 1));
        end -= 1;
    }
    let ghost base = tidy(v@);
    assert(base == v@.subrange(0, end as int));
    while end > 0 && v[end - 1] != '/'
        invariant
            end <= v.len(),
            directory(base) == directory(v@.subrange(0, end as int)),
        decreases end,
    {
        assert(v@.subrange(0, end as int).drop_last() =~= v@.subrange(0, end - 1));
        end -= 1;
    }
    concat2(string_of(&v, 0, end).as_str(), SECRET_FILE_NAME)
}

/// What became of reading the secret file.
pub enum Sidecar {
    Found(String),
    Missing,
    Unreadable,
}

/// Why no shared secret could be settled on.
#[derive(Clone, Copy, Debug, PartialEq, Eq, Structural)]
pub enum SecretError {
    /// The secret file is blank.
    EmptyFile,
    /// The secret file is there but cannot be read.
    UnreadableFile,
}

/// The shared secret: as the environment says, or else the secret file. A
/// secret file that holds none is never taken for a missing one.
pub fn choose_secret(env: Option<String>, sidecar: Sidecar) -> (r: Result<
    SecretSource,
    SecretError,
>)
    ensures
        match env {
            Some(s) if s@.len() > 0 => r matches Ok(SecretSource::Env(t)) && t == s,
            _ => match sidecar {
                Sidecar::Found(raw) => if trimmed(raw@).len() == 0 {
                    r matches Err(SecretError::EmptyFile)
                } else {
                    r matches Ok(SecretSource::SidecarFile(t)) && t@ == trimmed(raw@)
                },
                Sidecar::Missing => r matches Ok(SecretSource::BootstrapNeeded),
                Sidecar::Unreadable => r matches Err(SecretError::UnreadableFile),
            },
        },
{
    match env {
        Some(s) => {
            if !s.as_str().is_empty() {
                return Ok(SecretSource::Env(s));
            }
        },
        None => {},
    }
    match sidecar {
        Sidecar::Found(raw) => {
            let secret = trim(raw.as_str());
            if secret.as_str().is_empty() {
                Err(SecretError::EmptyFile)
            } else {
                Ok(SecretSource::SidecarFile(secret))
            }
        },
        Sidecar::Missing => Ok(SecretSource::BootstrapNeeded),
        Sidecar::Unreadable => Err(SecretError::UnreadableFile),
    }
}

/// A new shared secret: 32 random bytes in hexadecimal.
pub fn generate_secret() -> (r: String)
    ensures
        is_token(r@),
        r@.len() == 64,
{
    fresh_token()
}

// ---------------------------------------------------------------------------
// Settings
// ---------------------------------------------------------------------------

/// The number that a setting gives, or else its default.
pub open spec fn number_of(raw: Option<Seq<char>>, default: nat) -> nat {
    match raw {
        Some(s) => match unsigned_value(s) {
            Some(n) if n <= u64::MAX => n,
            _ => default,
        },
        None => default,
    }
}

/// A number that a setting gives, or else its default.
pub fn number_setting(raw: Option<&str>, default: u64) -> (r: u64)
    ensures
        r as nat == number_of(
            match raw {
                Some(s) => Some(s@),
                None => None,
            },
            default as nat,
        ),
{
    match raw {
        Some(s) => match parse_u64(s) {
            Some(n) => n,
            None => default,
        },
        None => default,
    }
}

fn number_or(raw: &Option<String>, default: u64) -> (r: u64)
    ensures
        r as nat == number_of(opt_text(*raw), default as nat),
{
    match raw {
        Some(s) => number_setting(Some(s.as_str()), default),
        None => default,
    }
}

/// The text that a setting gives, or else its default.
pub open spec fn text_of(raw: Option<Seq<char>>, default: Seq<char>) -> Seq<char> {
    match raw {
        Some(s) => s,
        None => default,
    }
}

fn text_or(raw: Option<String>, default: &str) -> (r: String)
    ensures
        r@ == text_of(opt_text(raw), default@),
{
    match raw {
        Some(s) => s,
        None => owned(default),
    }
}

/// The path of the database, given what its setting says.
pub fn sqlite_path_setting(raw: Option<String>) -> (r: String)
    ensures
        r@ == text_of(opt_text(raw), "1router.db"@),
{
    text_or(raw, "1router.db")
}

/// What the settings say, where they say anything.
#[derive(Clone, Debug)]
pub struct RawSettings {
    pub listen_addr: Option<String>,
    pub sqlite_path: Option<String>,
    pub seed_path: Option<String>,
    pub connect_timeout: Option<String>,
    pub ttfb_timeout: Option<String>,
    pub idle_timeout: Option<String>,
    pub max_body_bytes: Option<String>,
    pub drain_timeout: Option<String>,
}

/// The settings in use. Timeouts are in seconds.
#[derive(Clone, Debug)]
pub struct Settings {
    pub listen_addr: String,
    pub sqlite_path: String,
    pub seed_path: Option<String>,
    pub connect_timeout: u64,
    pub ttfb_timeout: u64,
    pub idle_timeout: u64,
    pub max_body_bytes: u64,
    pub drain_timeout: u64,
}

/// The settings in use: what is said, and a default for the rest.
pub fn settings_from(raw: RawSettings) -> (r: Settings)
    ensures
        r.listen_addr@ == text_of(opt_text(raw.listen_addr), "0.0.0.0:8080"@),
        r.sqlite_path@ == text_of(opt_text(raw.sqlite_path), "1router.db"@),
        r.seed_path == raw.seed_path,
        r.connect_timeout as nat == number_of(opt_text(raw.connect_timeout), 10),
        r.ttfb_timeout as nat == number_of(opt_text(raw.ttfb_timeout), 60),
        r.idle_timeout as nat == number_of(opt_text(raw.idle_timeout), 120),
        r.max_body_bytes as nat == number_of(opt_text(raw.max_body_bytes), 10 * 1024 * 1024),
        r.drain_timeout as nat == number_of(opt_text(raw.drain_timeout), 30),
{
    Settings {
        connect_timeout: number_or(&raw.connect_timeout, 10),
        ttfb_timeout: number_or(&raw.ttfb_timeout, 60),
        idle_timeout: number_or(&raw.idle_timeout, 120),
        max_body_bytes: number_or(&raw.max_body_bytes, 10 * 1024 * 1024),
        drain_timeout: number_or(&raw.drain_timeout, 30),
        listen_addr: text_or(raw.listen_addr, "0.0.0.0:8080"),
        sqlite_path: sqlite_path_setting(raw.sqlite_path),
        seed_path: raw.seed_path,
    }
}


// ---------------------------------------------------------------------------
// Laws
// ---------------------------------------------------------------------------

/// The secret stands in the directory of the database, whatever the database file
/// is called.
pub proof fn law_secret_stands_beside_the_database(dir: Seq<char>, name: Seq<char>)
    requires
        dir.len() == 0 || dir.last() == '/',
        name.len() > 1,
        forall|i: int| 0 <= i < name.len() ==> #[trigger] name[i] != '/',
    ensures
        secret_path(dir + name) == dir + ".router_secret"@,
{
    let path = dir + name;
    assert(path.last() == name.last());
    assert(name[name.len() - 1] != '/' && name[name.len() - 2] != '/');
    assert(path[path.len() - 2] == name[name.len() - 2]);
    assert(tidy(path) == path);
    lemma_directory(dir, name);
}

proof fn lemma_directory(dir: Seq<char>, name: Seq<char>)
    requires
        dir.len() == 0 || dir.last() == '/',
        forall|i: int| 0 <= i < name.len() ==> #[trigger] name[i] != '/',
    ensures
        directory(dir + name) == dir,
    decreases name.len(),
{
    if name.len() == 0 {
        assert(dir + name =~= dir);
    } else {
        let rest = name.drop_last();
        assert forall|i: int| 0 <= i < rest.len() implies #[trigger] rest[i] != '/' by {
            assert(rest[i] == name[i]);
        }
        assert(name[name.len() - 1] != '/');
        assert((dir + name).drop_last() =~= dir + rest);
        lemma_directory(dir, rest);
    }
}

/// A setting that is a number counts, with a plus sign before it too; any other does
/// not, nor does one that is too large to count.
pub proof fn law_numbers_count(n: nat, s: Seq<char>, default: nat)
    ensures
        n <= u64::MAX ==> number_of(Some(crate::text::decimal(n)), default) == n,
        n > u64::MAX ==> number_of(Some(crate::text::decimal(n)), default) == default,
        unsigned_value(s) is None ==> number_of(Some(s), default) == default,
        number_of(None, default) == default,
        text_of(Some(s), crate::text::decimal(n)) == s,
        text_of(None, s) == s,
{
    crate::text_laws::law_numbers_read_back(n);
}


/// A slash at the end of the database's path makes no difference.
pub proof fn law_ending_slashes_make_no_difference(path: Seq<char>)
    ensures
        secret_path(path.push('/')) == secret_path(path),
{
    assert(path.push('/').drop_last() =~= path);
}

} // verus!
