//! The service configuration, read from the environment's variables.
use vstd::prelude::*;

use crate::form::{form_lookup, FormValues};
use crate::text::{all_digits, chars_of, digits_at_most, digits_value, str_eq, trim, trimmed};

verus! {

/// Why the configuration was refused, naming the environment variable.
#[derive(Debug, Clone, Copy, PartialEq, Eq)]
pub enum ConfigError {
    Missing(&'static str),
    Invalid(&'static str),
}

pub open spec fn bool_from(v: Seq<char>) -> Option<bool> {
    if v == "1"@ || v == "true"@ || v == "TRUE"@ || v == "yes"@ {
        Some(true)
    } else if v == "0"@ || v == "false"@ || v == "FALSE"@ || v == "no"@ {
        Some(false)
    } else {
        None
    }
}

/// The accepted spellings of a boolean setting.
pub fn parse_bool(value: &str) -> (r: Option<bool>)
    ensures
        r == bool_from(value@),
{
    if str_eq(value, "1") || str_eq(value, "true") || str_eq(value, "TRUE") || str_eq(value, "yes") {
        Some(true)
    } else if str_eq(value, "0") || str_eq(value, "false") || str_eq(value, "FALSE") || str_eq(
        value,
        "no",
    ) {
        Some(false)
    } else {
        None
    }
}

/// The value of a character in the standard Base64 alphabet.
pub open spec fn b64_val(c: char) -> Option<u8> {
    if 'A' <= c && c <= 'Z' {
        Some(((c as u32) - 65) as u8)
    } else if 'a' <= c && c <= 'z' {
        Some(((c as u32) - 97 + 26) as u8)
    } else if '0' <= c && c <= '9' {
        Some(((c as u32) - 48 + 52) as u8)
    } else if c == '+' {
        Some(62)
    } else if c == '/' {
        Some(63)
    } else {
        None
    }
}

/// `s` without its trailing `=` characters.
pub open spec fn strip_padding(s: Seq<char>) -> Seq<char>
    decreases s.len(),
{
    if s.len() > 0 && s.last() == '=' {
        strip_padding(s.drop_last())
    } else {
        s
    }
}

/// Four digits give three bytes.
pub open spec fn quartet(a: u8, b: u8, c: u8, d: u8) -> Seq<u8> {
    seq![
        (a as int * 4 + b as int / 16) as u8,
        ((b as int % 16) * 16 + c as int / 4) as u8,
        ((c as int % 4) * 64 + d as int) as u8,
    ]
}

/// The bytes the digit values stand for, group by group; a final group of two or three
/// digits must leave no set bit over.
pub open spec fn decode_digits(ds: Seq<u8>) -> Option<Seq<u8>>
    decreases ds.len(),
{
    if ds.len() >= 4 {
        match decode_digits(ds.skip(4)) {
            Some(rest) => Some(quartet(ds[0], ds[1], ds[2], ds[3]) + rest),
            None => None,
        }
    } else if ds.len() == 0 {
        Some(Seq::empty())
    } else if ds.len() == 2 {
        if ds[1] as int % 16 == 0 {
            Some(seq![(ds[0] as int * 4 + ds[1] as int / 16) as u8])
        } else {
            None
        }
    } else if ds.len() == 3 {
        if ds[2] as int % 4 == 0 {
            Some(seq![
                (ds[0] as int * 4 + ds[1] as int / 16) as u8,
                ((ds[1] as int % 16) * 16 + ds[2] as int / 4) as u8,
            ])
        } else {
            None
        }
    } else {
        None
    }
}

/// Strict RFC 4648 Base64 with the standard alphabet: a non-empty length divisible by
/// four, at most two padding characters, only alphabet characters before them, and no
/// stray bits in the last group.
pub open spec fn base64_decoded(s: Seq<char>) -> Option<Seq<u8>> {
    let u = strip_padding(s);
    if s.len() == 0 || s.len() % 4 != 0 {
        None
    } else if s.len() - u.len() > 2 || u.len() % 4 == 1 {
        None
    } else if exists|k: int| 0 <= k < u.len() && (#[trigger] b64_val(u[k])) is None {
        None
    } else {
        decode_digits(u.map_values(|c: char| b64_val(c)->0))
    }
}

fn b64_digit(c: char) -> (r: Option<u8>)
    ensures
        r == b64_val(c),
{
    if 'A' <= c && c <= 'Z' {
        Some(((c as u32) - 65) as u8)
    } else if 'a' <= c && c <= 'z' {
        Some(((c as u32) - 97 + 26) as u8)
    } else if '0' <= c && c <= '9' {
        Some(((c as u32) - 48 + 52) as u8)
    } else if c == '+' {
        Some(62)
    } else if c == '/' {
        Some(63)
    } else {
        None
    }
}

proof fn lemma_strip_padding(s: Seq<char>, j: int)
    requires
        0 <= j <= s.len(),
        forall|k: int| j <= k < s.len() ==> s[k] == '=',
        j == 0 || s[j - 1] != '=',
    ensures
        strip_padding(s) == s.take(j),
    decreases s.len() - j,
{
    if j < s.len() {
        assert(s.drop_last().take(j) =~= s.take(j));
        lemma_strip_padding(s.drop_last(), j);
    } else {
        assert(s.take(j) =~= s);
    }
}

/// Decodes strict standard Base64; `None` for anything else.
pub fn decode_base64(value: &str) -> (r: Option<Vec<u8>>)
    ensures
        r matches Some(v) ==> base64_decoded(value@) == Some(v@),
        r is None ==> base64_decoded(value@) is None,
{
    let s = chars_of(value);
    let n = s.len();
    if n == 0 || n % 4 != 0 {
        return None;
    }
    let mut j: usize = n;
    while j > 0 && s[j - 1] == '='
        invariant
            j <= n,
            n == s@.len(),
            forall|k: int| j <= k < n ==> s@[k] == '=',
        decreases j,
    {
        j = j - 1;
    }
    proof {
        lemma_strip_padding(s@, j as int);
    }
    let ghost u = s@.take(j as int);
    if n - j > 2 || j % 4 == 1 {
        return None;
    }
    let mut digits: Vec<u8> = Vec::new();
    let mut i: usize = 0;
    while i < j
        invariant
            i <= j <= n,
            n == s@.len(),
            s@ == value@,
            u == s@.take(j as int),
            u == strip_padding(value@),
            n - j <= 2,
            j % 4 != 1,
            n % 4 == 0,
            n > 0,
            forall|k: int| 0 <= k < i ==> #[trigger] digits@[k] < 64,
            digits@.len() == i,
            forall|k: int| 0 <= k < i ==> b64_val(u[k]) == Some(#[trigger] digits@[k]),
        decreases j - i,
    {
        match b64_digit(s[i]) {
            Some(d) => digits.push(d),
            None => {
                assert(b64_val(u[i as int]) is None);
                assert(n - j <= 2 && j % 4 != 1);
                return None;
            },
        }
        i = i + 1;
    }
    assert(digits@ =~= u.map_values(|c: char| b64_val(c)->0));
    assert forall|k: int| 0 <= k < u.len() implies (#[trigger] b64_val(u[k])) is Some by {
        assert(b64_val(u[k]) == Some(digits@[k]));
    }
    decode_groups(digits.as_slice())
}

fn decode_groups(ds: &[u8]) -> (r: Option<Vec<u8>>)
    requires
        forall|k: int| 0 <= k < ds@.len() ==> ds@[k] < 64,
    ensures
        r matches Some(v) ==> decode_digits(ds@) == Some(v@),
        r is None ==> decode_digits(ds@) is None,
{
    let n = ds.len();
    let mut out: Vec<u8> = Vec::new();
    let mut i: usize = 0;
    assert(ds@.skip(0) =~= ds@);
    while n - i >= 4
        invariant
            i <= n,
            n == ds@.len(),
            forall|k: int| 0 <= k < ds@.len() ==> ds@[k] < 64,
            decode_digits(ds@) == (match decode_digits(ds@.skip(i as int)) {
                Some(rest) => Some(out@ + rest),
                None => None,
            }),
        decreases n - i,
    {
        let a = ds[i];
        let b = ds[i + 1];
        let c = ds[i + 2];
        let d = ds[i + 3];
        let ghost t = ds@.skip(i as int);
        assert(t[0] == a && t[1] == b && t[2] == c && t[3] == d);
        assert(t.skip(4) =~= ds@.skip(i + 4));
        out.push(a * 4 + b / 16);
        out.push((b % 16) * 16 + c / 4);
        out.push((c % 4) * 64 + d);
        proof {
            let q = quartet(a, b, c, d);
            assert(out@ =~= (out@.subrange(0, out@.len() - 3)) + q);
            match decode_digits(ds@.skip(i + 4)) {
                Some(rest) => {
                    assert((out@.subrange(0, out@.len() - 3)) + (q + rest) =~= out@ + rest);
                },
                None => {},
            }
        }
        i = i + 4;
    }
    let rem = n - i;
    let ghost t = ds@.skip(i as int);
    if rem == 0 {
        assert(out@ + Seq::<u8>::empty() =~= out@);
        Some(out)
    } else if rem == 2 {
        let a = ds[i];
        let b = ds[i + 1];
        assert(t[0] == a && t[1] == b);
        if b % 16 == 0 {
            out.push(a * 4 + b / 16);
            proof {
                assert(out@ =~= out@.subrange(0, out@.len() - 1) + seq![(a as int * 4 + b as int / 16) as u8]);
            }
            Some(out)
        } else {
            None
        }
    } else if rem == 3 {
        let a = ds[i];
        let b = ds[i + 1];
        let c = ds[i + 2];
        assert(t[0] == a && t[1] == b && t[2] == c);
        if c % 4 == 0 {
            out.push(a * 4 + b / 16);
            out.push((b % 16) * 16 + c / 4);
            proof {
                assert(out@ =~= out@.subrange(0, out@.len() - 2) + seq![
                    (a as int * 4 + b as int / 16) as u8,
                    ((b as int % 16) * 16 + c as int / 4) as u8,
                ]);
            }
            Some(out)
        } else {
            None
        }
    } else {
        None
    }
}

// ---------------------------------------------------------------------------
// The administrator's password hash
// ---------------------------------------------------------------------------

/// What the configuration reads of a PHC string: its algorithm, the length of its
/// decoded salt (if it has one that decodes), whether it holds a hash output, and
/// whether Argon2 accepts its parameters and its version.
pub struct PhcSummary {
    pub algorithm: String,
    pub salt_len: Option<usize>,
    pub has_output: bool,
    pub params_ok: bool,
    pub version_ok: bool,
}

pub open spec fn phc_view(p: Option<PhcSummary>) -> Option<(Seq<char>, Option<nat>, bool, bool, bool)> {
    match p {
        Some(s) => Some((s.algorithm@, match s.salt_len {
            Some(n) => Some(n as nat),
            None => None,
        }, s.has_output, s.params_ok, s.version_ok)),
        None => None,
    }
}

/// What `summarize_phc` reads of `hash`.
pub uninterp spec fn phc_summary(hash: Seq<char>) -> Option<(Seq<char>, Option<nat>, bool, bool, bool)>;

/// `password_hash::PasswordHash::new(hash)`, then of the parsed hash: the algorithm's
/// name, the salt decoded by `decode_b64` into a 64-byte buffer, whether the output is
/// present, `argon2::Params::try_from` and `argon2::Version::try_from` on its version.
/// `None` when `hash` is no PHC string.
#[verifier::external_body]
fn summarize_phc(hash: &str) -> (r: Option<PhcSummary>)
    ensures
        phc_view(r) == phc_summary(hash@),
{
    let parsed = password_hash::PasswordHash::new(hash).ok()?;
    let mut buffer = [0u8; 64];
    Some(PhcSummary {
        algorithm: parsed.algorithm.as_str().to_owned(),
        salt_len: parsed.salt.and_then(|salt| salt.decode_b64(&mut buffer).ok()).map(|salt| salt.len()),
        has_output: parsed.hash.is_some(),
        params_ok: argon2::Params::try_from(&parsed).is_ok(),
        version_ok: parsed.version.map(argon2::Version::try_from).transpose().is_ok(),
    })
}

/// `argon2::MIN_SALT_LEN`, the shortest salt Argon2 accepts: 8 bytes.
#[verifier::external_body]
fn argon2_min_salt_len() -> (r: usize)
    ensures
        r == 8,
{
    argon2::MIN_SALT_LEN
}

/// A PHC string that Argon2id can verify against: the algorithm is `argon2id`, the salt
/// decodes to at least 8 bytes, there is an output, and parameters and version are valid.
pub open spec fn usable_admin_hash(hash: Seq<char>) -> bool {
    match phc_summary(hash) {
        Some((alg, salt, out, params, version)) => alg == "argon2id"@ && (salt matches Some(n) && n >= 8)
            && out && params && version,
        None => false,
    }
}

fn admin_hash_usable(hash: &str) -> (r: bool)
    ensures
        r == usable_admin_hash(hash@),
{
    match summarize_phc(hash) {
        Some(p) => {
            let min = argon2_min_salt_len();
            let salt_ok = match p.salt_len {
                Some(n) => n >= min,
                None => false,
            };
            str_eq(p.algorithm.as_str(), "argon2id") && salt_ok && p.has_output && p.params_ok
                && p.version_ok
        },
        None => false,
    }
}

// ---------------------------------------------------------------------------
// Reading the environment
// ---------------------------------------------------------------------------

/// The configuration of the service. The listen address stays the text the environment
/// gives; turning it into a socket address is the caller's.
pub struct Config {
    pub app_env: String,
    pub bind_addr: String,
    pub admin_username: String,
    pub admin_password_hash: String,
    pub session_secret: Vec<u8>,
    pub database_url: String,
    pub upload_dir: String,
    pub cookie_secure: bool,
    pub max_body_bytes: usize,
}

/// A configuration error as (whether the variable is missing, the variable's name).
pub open spec fn error_view(e: ConfigError) -> (bool, Seq<char>) {
    match e {
        ConfigError::Missing(n) => (true, n@),
        ConfigError::Invalid(n) => (false, n@),
    }
}

/// A required variable: missing, blank (invalid), or its value.
pub open spec fn required_var(vars: FormValues, name: Seq<char>) -> Result<Seq<char>, (bool, Seq<char>)> {
    match vars.lookup(name) {
        None => Err((true, name)),
        Some(v) => if trim(v).len() == 0 { Err((false, name)) } else { Ok(v) },
    }
}

/// `usize::from_str`: an optional `+` and digits, in range.
pub open spec fn parse_usize_spec(s: Seq<char>) -> Option<nat> {
    let d = if s.len() > 0 && s[0] == '+' { s.drop_first() } else { s };
    if all_digits(d) && digits_value(d) <= usize::MAX { Some(digits_value(d)) } else { None }
}

/// The default limit on a request body: 110 MiB.
pub const DEFAULT_MAX_BODY_BYTES: usize = 115_343_360;

/// The first problem of the configuration, in the order the variables are read, if any.
/// `bind_ok` says whether `BIND_ADDR` reads as a socket address.
pub open spec fn config_problem(vars: FormValues, bind_ok: bool) -> Option<(bool, Seq<char>)> {
    match required_var(vars, "APP_ENV"@) {
        Err(e) => Some(e),
        Ok(app_env) => if app_env != "development"@ && app_env != "production"@ {
            Some((false, "APP_ENV"@))
        } else {
            match required_var(vars, "BIND_ADDR"@) {
                Err(e) => Some(e),
                Ok(_) => if !bind_ok {
                    Some((false, "BIND_ADDR"@))
                } else {
                    match required_var(vars, "ADMIN_USERNAME"@) {
                        Err(e) => Some(e),
                        Ok(_) => match required_var(vars, "ADMIN_PASSWORD_HASH"@) {
                            Err(e) => Some(e),
                            Ok(h) => if !usable_admin_hash(h) {
                                Some((false, "ADMIN_PASSWORD_HASH"@))
                            } else {
                                secret_problem(vars, app_env)
                            },
                        },
                    }
                },
            }
        },
    }
}

/// The problems from `SESSION_SECRET` on.
pub open spec fn secret_problem(vars: FormValues, app_env: Seq<char>) -> Option<(bool, Seq<char>)> {
    match required_var(vars, "SESSION_SECRET"@) {
        Err(e) => Some(e),
        Ok(s) => match base64_decoded(s) {
            None => Some((false, "SESSION_SECRET"@)),
            Some(bytes) => if bytes.len() < 32 {
                Some((false, "SESSION_SECRET"@))
            } else {
                match required_var(vars, "DATABASE_URL"@) {
                    Err(e) => Some(e),
                    Ok(url) => if !(url.len() >= 7 && url.take(7) == "sqlite:"@) {
                        Some((false, "DATABASE_URL"@))
                    } else {
                        match required_var(vars, "UPLOAD_DIR"@) {
                            Err(e) => Some(e),
                            Ok(_) => switches_problem(vars, app_env),
                        }
                    },
                }
            },
        },
    }
}

/// Whether cookies are marked secure: as `COOKIE_SECURE` says, else in production.
pub open spec fn cookie_secure_value(vars: FormValues, app_env: Seq<char>) -> Option<bool> {
    match vars.lookup("COOKIE_SECURE"@) {
        Some(v) => bool_from(v),
        None => Some(app_env == "production"@),
    }
}

/// The request body limit: as `MAX_BODY_BYTES` says, else the default.
pub open spec fn max_body_value(vars: FormValues) -> Option<nat> {
    match vars.lookup("MAX_BODY_BYTES"@) {
        Some(v) => parse_usize_spec(v),
        None => Some(DEFAULT_MAX_BODY_BYTES as nat),
    }
}

/// The problems of the optional switches.
pub open spec fn switches_problem(vars: FormValues, app_env: Seq<char>) -> Option<(bool, Seq<char>)> {
    match cookie_secure_value(vars, app_env) {
        None => Some((false, "COOKIE_SECURE"@)),
        Some(secure) => if app_env == "production"@ && !secure {
            Some((false, "COOKIE_SECURE"@))
        } else {
            match max_body_value(vars) {
                None => Some((false, "MAX_BODY_BYTES"@)),
                Some(n) => if n == 0 { Some((false, "MAX_BODY_BYTES"@)) } else { None },
            }
        },
    }
}

fn required(vars: &FormValues, name: &'static str) -> (r: Result<String, ConfigError>)
    ensures
        match r {
            Ok(v) => required_var(*vars, name@) == Ok::<Seq<char>, (bool, Seq<char>)>(v@),
            Err(e) => required_var(*vars, name@) == Err::<Seq<char>, (bool, Seq<char>)>(error_view(e)),
        },
{
    match vars.get(name) {
        None => Err(ConfigError::Missing(name)),
        Some(v) => {
            if trimmed(v).as_str().is_empty() {
                Err(ConfigError::Invalid(name))
            } else {
                Ok(v.to_owned())
            }
        },
    }
}

fn parse_usize(value: &str) -> (r: Option<usize>)
    ensures
        match r {
            Some(n) => parse_usize_spec(value@) == Some(n as nat),
            None => parse_usize_spec(value@) is None,
        },
{
    let cs = chars_of(value);
    let start: usize = if cs.len() > 0 && cs[0] == '+' { 1 } else { 0 };
    assert(cs@.skip(start as int) =~= (if cs@.len() > 0 && cs@[0] == '+' { cs@.drop_first() } else { cs@ }));
    assert(usize::MAX as u64 == usize::MAX);
    match digits_at_most(cs.as_slice(), start, usize::MAX as u64) {
        Some(v) => Some(v as usize),
        None => None,
    }
}

fn starts_with_sqlite(url: &str) -> (r: bool)
    ensures
        r == (url@.len() >= 7 && url@.take(7) == "sqlite:"@),
{
    let cs = chars_of(url);
    let p = chars_of("sqlite:");
    proof {
        reveal_strlit("sqlite:");
    }
    if cs.len() < 7 {
        return false;
    }
    let mut i: usize = 0;
    while i < 7
        invariant
            i <= 7,
            cs@ == url@,
            cs@.len() >= 7,
            p@ == "sqlite:"@,
            p@.len() == 7,
            forall|k: int| 0 <= k < i ==> cs@[k] == p@[k],
        decreases 7 - i,
    {
        if cs[i] != p[i] {
            assert(cs@.take(7)[i as int] != p@[i as int]);
            return false;
        }
        i = i + 1;
    }
    assert(cs@.take(7) =~= p@);
    true
}

impl Config {
    /// Reads the configuration from the environment's variables. Each required variable
    /// must be present and not blank; the first problem, in the order the variables are
    /// read, is reported by name.
    pub fn from_vars(vars: &FormValues, bind_ok: bool) -> (r: Result<Config, ConfigError>)
        ensures
            match r {
                Err(e) => config_problem(*vars, bind_ok) == Some(error_view(e)),
                Ok(c) => {
                    &&& config_problem(*vars, bind_ok) is None
                    &&& vars.lookup("APP_ENV"@) == Some(c.app_env@)
                    &&& vars.lookup("BIND_ADDR"@) == Some(c.bind_addr@)
                    &&& vars.lookup("ADMIN_USERNAME"@) == Some(c.admin_username@)
                    &&& vars.lookup("ADMIN_PASSWORD_HASH"@) == Some(c.admin_password_hash@)
                    &&& vars.lookup("SESSION_SECRET"@) matches Some(s) && base64_decoded(s) == Some(c.session_secret@)
                    &&& vars.lookup("DATABASE_URL"@) == Some(c.database_url@)
                    &&& vars.lookup("UPLOAD_DIR"@) == Some(c.upload_dir@)
                    &&& cookie_secure_value(*vars, c.app_env@) == Some(c.cookie_secure)
                    &&& max_body_value(*vars) == Some(c.max_body_bytes as nat)
                },
            },
    {
        proof {
            reveal_strlit("development");
            reveal_strlit("production");
        }
        let app_env = match required(vars, "APP_ENV") {
            Ok(v) => v,
            Err(e) => {
                return Err(e);
            },
        };
        let production = str_eq(app_env.as_str(), "production");
        if !production && !str_eq(app_env.as_str(), "development") {
            return Err(ConfigError::Invalid("APP_ENV"));
        }
        let bind_addr = match required(vars, "BIND_ADDR") {
            Ok(v) => v,
            Err(e) => {
                return Err(e);
            },
        };
        if !bind_ok {
            return Err(ConfigError::Invalid("BIND_ADDR"));
        }
        let admin_username = match required(vars, "ADMIN_USERNAME") {
            Ok(v) => v,
            Err(e) => {
                return Err(e);
            },
        };
        let admin_password_hash = match required(vars, "ADMIN_PASSWORD_HASH") {
            Ok(v) => v,
            Err(e) => {
                return Err(e);
            },
        };
        if !admin_hash_usable(admin_password_hash.as_str()) {
            return Err(ConfigError::Invalid("ADMIN_PASSWORD_HASH"));
        }
        let secret_text = match required(vars, "SESSION_SECRET") {
            Ok(v) => v,
            Err(e) => {
                return Err(e);
            },
        };
        let session_secret = match decode_base64(secret_text.as_str()) {
            Some(b) => b,
            None => {
                return Err(ConfigError::Invalid("SESSION_SECRET"));
            },
        };
        if session_secret.len() < 32 {
            return Err(ConfigError::Invalid("SESSION_SECRET"));
        }
        let database_url = match required(vars, "DATABASE_URL") {
            Ok(v) => v,
            Err(e) => {
                return Err(e);
            },
        };
        if !starts_with_sqlite(database_url.as_str()) {
            return Err(ConfigError::Invalid("DATABASE_URL"));
        }
        let upload_dir = match required(vars, "UPLOAD_DIR") {
            Ok(v) => v,
            Err(e) => {
                return Err(e);
            },
        };
        let cookie_secure = match vars.get("COOKIE_SECURE") {
            Some(v) => match parse_bool(v) {
                Some(b) => b,
                None => {
                    return Err(ConfigError::Invalid("COOKIE_SECURE"));
                },
            },
            None => production,
        };
        if production && !cookie_secure {
            return Err(ConfigError::Invalid("COOKIE_SECURE"));
        }
        let max_body_bytes = match vars.get("MAX_BODY_BYTES") {
            Some(v) => match parse_usize(v) {
                Some(n) => n,
                None => {
                    return Err(ConfigError::Invalid("MAX_BODY_BYTES"));
                },
            },
            None => DEFAULT_MAX_BODY_BYTES,
        };
        if max_body_bytes == 0 {
            return Err(ConfigError::Invalid("MAX_BODY_BYTES"));
        }
        Ok(Config {
            app_env,
            bind_addr,
            admin_username,
            admin_password_hash,
            session_secret,
            database_url,
            upload_dir,
            cookie_secure,
            max_body_bytes,
        })
    }
}

/// A production configuration that is accepted marks cookies secure.
pub proof fn law_production_cookies_secure(vars: FormValues, bind_ok: bool)
    requires
        config_problem(vars, bind_ok) is None,
        vars.lookup("APP_ENV"@) == Some("production"@),
    ensures
        cookie_secure_value(vars, "production"@) == Some(true),
{
    reveal_strlit("production");
    reveal_strlit("development");
    assert(trim("production"@).len() > 0) by {
        assert("production"@[0] == 'p');
        crate::text::lemma_trim_nonblank("production"@, 0);
    }
}

} // verus!
