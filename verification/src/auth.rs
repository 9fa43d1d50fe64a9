//! Credentials, secrets and codes.
use password_hash::rand_core::{OsRng, RngCore};
use password_hash::{PasswordHash, PasswordHasher, PasswordVerifier, Salt, SaltString};
use subtle::ConstantTimeEq;
use vstd::prelude::*;
use vstd::string::StringSliceAdditionalSpecFns;

pub mod edit_codes;

use crate::domain::AcademicYear;
use crate::random::{is_lower_hex, random_below, simple_uuid, thread_rng};
use crate::text::{
    chars_of, decimal, decimal_string, digits_value, lemma_decimal_digits, push_char, push_str,
    push_zero_padded, zero_padded,
};

verus! {

#[verifier::external_type_specification]
#[verifier::external_body]
pub struct ExSessionError(tower_sessions::session::Error);

#[verifier::external_type_specification]
#[verifier::external_body]
pub struct ExPasswordHashError(password_hash::Error);

/// Why an authentication step failed.
#[derive(Debug)]
pub enum AuthError {
    Session(tower_sessions::session::Error),
    Database(sqlx::Error),
    InvalidCredentials,
    MissingSession,
    InvalidSessionSecret,
    Verification,
}

/// Why a secret could not be hashed; the text is the hasher's own message.
#[derive(Debug)]
pub enum PasswordError {
    Hash(String),
}

// ---------------------------------------------------------------------------
// Password hashing
// ---------------------------------------------------------------------------

/// Whether `password_hash::PasswordHash::new` reads `hash` as a PHC string.
pub uninterp spec fn phc_parses(hash: Seq<char>) -> bool;

/// Whether Argon2 with its default parameters accepts `plain` against the PHC string `hash`.
pub uninterp spec fn argon2_accepts(hash: Seq<char>, plain: Seq<char>) -> bool;

/// `password_hash::PasswordHash::new(hash).is_ok()`: whether `hash` is a PHC string.
#[verifier::external_body]
fn phc_is_valid(hash: &str) -> (r: bool)
    ensures
        r == phc_parses(hash@),
{
    PasswordHash::new(hash).is_ok()
}

/// `argon2::Argon2::default().verify_password`, on `hash` read as a PHC string:
/// whether `plain` is the secret that `hash` was made from.
#[verifier::external_body]
fn argon2_verify(hash: &str, plain: &str) -> (r: bool)
    requires
        phc_parses(hash@),
    ensures
        r == argon2_accepts(hash@, plain@),
{
    match PasswordHash::new(hash) {
        Ok(parsed) => argon2::Argon2::default().verify_password(plain.as_bytes(), &parsed).is_ok(),
        Err(_) => false,
    }
}

/// `OsRng::fill_bytes` on `Salt::RECOMMENDED_LENGTH` (16) bytes: the random bytes of a
/// fresh salt, as `SaltString::generate` draws them. Which bytes come is chance; the
/// generator panics if the operating system cannot supply randomness.
#[verifier::external_body]
fn fresh_salt() -> (r: Vec<u8>)
    ensures
        r@.len() == 16,
{
    let mut bytes = [0u8; Salt::RECOMMENDED_LENGTH];
    OsRng.fill_bytes(&mut bytes);
    bytes.to_vec()
}

/// `argon2::Argon2::default().hash_password(plain, salt)`, the salt bytes handed over as
/// `SaltString::encode_b64` writes them, and the hash written out as a PHC string.
/// A hash it gives is a PHC string that the same hasher's `verify_password` accepts for
/// `plain`: it re-hashes `plain` with the salt and parameters recorded in the string and
/// compares. With a salt of 16 bytes (which encodes and decodes within the crate's
/// 64-byte buffers and is over Argon2's 8-byte minimum) and the default parameters, the
/// source refuses only a password longer than `MAX_PWD_LEN` (0xFFFF_FFFF) bytes.
#[verifier::external_body]
fn argon2_hash(plain: &str, salt: &[u8]) -> (r: Result<String, password_hash::Error>)
    ensures
        r matches Ok(h) ==> phc_parses(h@) && argon2_accepts(h@, plain@),
        salt@.len() == 16 ==> (r is Ok <==> plain.spec_bytes().len() <= 0xFFFF_FFFF),
{
    let salt = SaltString::encode_b64(salt)?;
    argon2::Argon2::default().hash_password(plain.as_bytes(), &salt).map(|hash| hash.to_string())
}

/// `Display` of `password_hash::Error`: its message. Nothing is claimed of the text.
#[verifier::external_body]
fn hash_error_text(error: &password_hash::Error) -> String {
    error.to_string()
}

/// Whether `plain` is the secret the PHC string `hash` was made from.
pub open spec fn secret_matches(hash: Seq<char>, plain: Seq<char>) -> bool {
    phc_parses(hash) && argon2_accepts(hash, plain)
}

/// Hashes a secret with Argon2 under a fresh random salt. It succeeds on every secret of at
/// most 0xFFFF_FFFF bytes (Argon2's limit) and fails on a longer one; a hash it gives
/// verifies against the same secret.
pub fn hash_secret(plain: &str) -> (r: Result<String, PasswordError>)
    ensures
        r is Ok <==> plain.spec_bytes().len() <= 0xFFFF_FFFF,
        r matches Ok(h) ==> secret_matches(h@, plain@),
{
    let salt = fresh_salt();
    match argon2_hash(plain, salt.as_slice()) {
        Ok(h) => Ok(h),
        Err(e) => Err(PasswordError::Hash(hash_error_text(&e))),
    }
}

/// Whether `plain` matches the stored hash; a hash that is no PHC string matches nothing.
pub fn verify_secret(hash: &str, plain: &str) -> (r: bool)
    ensures
        r == secret_matches(hash@, plain@),
{
    if !phc_is_valid(hash) {
        return false;
    }
    argon2_verify(hash, plain)
}

/// A hash that `hash_secret` made for a secret is accepted by `verify_secret` for that
/// secret.
pub proof fn law_hashed_secret_verifies(hash: Seq<char>, plain: Seq<char>)
    requires
        phc_parses(hash),
        argon2_accepts(hash, plain),
    ensures
        secret_matches(hash, plain),
{
}

/// `subtle`'s constant-time comparison of the two strings' bytes: whether they are equal.
#[verifier::external_body]
fn constant_time_eq(a: &str, b: &str) -> (r: bool)
    ensures
        r == (a@ == b@),
{
    a.as_bytes().ct_eq(b.as_bytes()).into()
}

// ---------------------------------------------------------------------------
// Administrator credentials
// ---------------------------------------------------------------------------

/// The administrator's name and password hash. Deliberately without `Debug`.
pub struct AdminCredentials {
    username: String,
    password_hash: String,
}

impl AdminCredentials {
    pub closed spec fn username_view(&self) -> Seq<char> {
        self.username@
    }

    pub closed spec fn password_hash_view(&self) -> Seq<char> {
        self.password_hash@
    }

    pub fn new(username: String, password_hash: String) -> (r: Self)
        ensures
            r.username_view() == username@,
            r.password_hash_view() == password_hash@,
    {
        AdminCredentials { username, password_hash }
    }

    /// Whether both the name and the password match. The password hash is checked
    /// whatever the name, so that an unknown name takes as long as a known one.
    pub fn verify(&self, username: &str, password: &str) -> (r: bool)
        ensures
            r == (self.username_view() == username@ && phc_parses(self.password_hash_view())
                && argon2_accepts(self.password_hash_view(), password@)),
    {
        let username_matches = constant_time_eq(self.username.as_str(), username);
        let password_matches = verify_secret(self.password_hash.as_str(), password);
        username_matches && password_matches
    }
}

// ---------------------------------------------------------------------------
// Tokens and codes
// ---------------------------------------------------------------------------

/// Whether a submitted form token equals the one the session holds; with none held, no
/// token matches.
pub fn csrf_token_matches(expected: Option<&str>, submitted: &str) -> (r: bool)
    ensures
        r == (expected matches Some(e) && e@ == submitted@),
{
    match expected {
        Some(e) => constant_time_eq(e, submitted),
        None => false,
    }
}

/// The session's form token: the one it holds, else a fresh random one of 32 lowercase
/// hexadecimal digits.
pub fn csrf_token(existing: Option<String>) -> (r: String)
    ensures
        existing matches Some(t) ==> r@ == t@,
        existing is None ==> r@.len() == 32 && forall|k: int|
            0 <= k < 32 ==> is_lower_hex(#[trigger] r@[k]),
{
    match existing {
        Some(t) => t,
        None => simple_uuid(),
    }
}

/// The key material for signing session cookies: the first 64 bytes of a long secret,
/// or a secret of 32 to 63 bytes written twice. A shorter secret is refused.
pub fn session_key_material(secret: &[u8]) -> (r: Result<Vec<u8>, AuthError>)
    ensures
        secret@.len() >= 64 ==> (r matches Ok(k) && k@ == secret@.take(64)),
        32 <= secret@.len() < 64 ==> (r matches Ok(k) && k@ == secret@ + secret@),
        secret@.len() < 32 ==> r matches Err(AuthError::InvalidSessionSecret),
        r matches Ok(k) ==> k@.len() >= 64,
{
    let mut key: Vec<u8> = Vec::new();
    if secret.len() >= 64 {
        let mut i: usize = 0;
        while i < 64
            invariant
                i <= 64 <= secret@.len(),
                key@ == secret@.take(i as int),
            decreases 64 - i,
        {
            key.push(secret[i]);
            i = i + 1;
            assert(key@ =~= secret@.take(i as int));
        }
        Ok(key)
    } else if secret.len() >= 32 {
        let mut round: usize = 0;
        while round < 2
            invariant
                round <= 2,
                round == 0 ==> key@ == Seq::<u8>::empty(),
                round == 1 ==> key@ == secret@,
                round == 2 ==> key@ == secret@ + secret@,
            decreases 2 - round,
        {
            let ghost before = key@;
            let mut i: usize = 0;
            while i < secret.len()
                invariant
                    i <= secret@.len(),
                    key@ == before + secret@.take(i as int),
                decreases secret@.len() - i,
            {
                key.push(secret[i]);
                i = i + 1;
                assert(key@ =~= before + secret@.take(i as int));
            }
            assert(secret@.take(secret@.len() as int) =~= secret@);
            assert(Seq::<u8>::empty() + secret@ =~= secret@);
            round = round + 1;
        }
        Ok(key)
    } else {
        Err(AuthError::InvalidSessionSecret)
    }
}

/// The characters edit codes are drawn from: capitals and digits without `I`, `O`, `0`, `1`.
pub const EDIT_CODE_ALPHABET: &'static str = "ABCDEFGHJKLMNPQRSTUVWXYZ23456789";

/// A character that cannot be mistaken for another when read aloud or copied.
pub open spec fn is_edit_code_char(c: char) -> bool {
    ('A' <= c && c <= 'Z' && c != 'I' && c != 'O') || ('2' <= c && c <= '9')
}

/// Each character of the edit-code alphabet is unambiguous, and there are 32 of them.
pub proof fn law_edit_code_alphabet()
    ensures
        EDIT_CODE_ALPHABET@.len() == 32,
        forall|i: int| 0 <= i < 32 ==> is_edit_code_char(#[trigger] EDIT_CODE_ALPHABET@[i]),
{
    reveal_strlit("ABCDEFGHJKLMNPQRSTUVWXYZ23456789");
}

/// A fresh edit code: ten characters drawn at random from the edit-code alphabet.
pub fn generate_edit_code() -> (r: String)
    ensures
        r@.len() == 10,
        forall|i: int| 0 <= i < 10 ==> EDIT_CODE_ALPHABET@.contains(#[trigger] r@[i]),
        forall|i: int| 0 <= i < 10 ==> is_edit_code_char(#[trigger] r@[i]),
{
    proof {
        law_edit_code_alphabet();
    }
    let alphabet = chars_of(EDIT_CODE_ALPHABET);
    let mut random = thread_rng();
    let mut code = String::new();
    let mut n: usize = 0;
    while n < 10
        invariant
            n <= 10,
            alphabet@ == EDIT_CODE_ALPHABET@,
            alphabet@.len() == 32,
            forall|i: int| 0 <= i < 32 ==> is_edit_code_char(#[trigger] alphabet@[i]),
            code@.len() == n,
            forall|i: int| 0 <= i < n ==> alphabet@.contains(#[trigger] code@[i]),
            forall|i: int| 0 <= i < n ==> is_edit_code_char(#[trigger] code@[i]),
        decreases 10 - n,
    {
        let k = random_below(&mut random, alphabet.len());
        let c = alphabet[k];
        assert(alphabet@.contains(c));
        push_char(&mut code, c);
        assert(code@[n as int] == c);
        n = n + 1;
    }
    code
}

// ---------------------------------------------------------------------------
// Submission numbers
// ---------------------------------------------------------------------------

/// A year as `{:04}` writes it: at least four characters, a minus sign counted among them.
pub open spec fn year_text(y: int) -> Seq<char> {
    if y < 0 {
        seq!['-'] + zero_padded(decimal((-y) as nat), 3)
    } else {
        zero_padded(decimal(y as nat), 4)
    }
}

/// `ZC`, the year in which the academic year ends, a hyphen and the sequence number
/// padded to six digits.
pub open spec fn submission_no_text(year: int, sequence: nat) -> Seq<char> {
    "ZC"@ + year_text(year) + seq!['-'] + zero_padded(decimal(sequence), 6)
}

/// The public number of a submission: `ZC`, the end year of its academic year (`{:04}`),
/// `-`, and the sequence number with at least six digits.
pub fn generate_submission_no(year: &AcademicYear, sequence: u64) -> (r: String)
    ensures
        r@ == submission_no_text(year.end_date.year as int, sequence as nat),
{
    let mut r = String::new();
    push_str(&mut r, "ZC");
    let y = year.end_date.year;
    if y < 0 {
        push_char(&mut r, '-');
        let magnitude: u64 = (-(y as i64)) as u64;
        let digits = decimal_string(magnitude);
        push_zero_padded(&mut r, digits.as_str(), 3);
    } else {
        let digits = decimal_string(y as u64);
        push_zero_padded(&mut r, digits.as_str(), 4);
    }
    push_char(&mut r, '-');
    let digits = decimal_string(sequence);
    push_zero_padded(&mut r, digits.as_str(), 6);
    proof {
        reveal_strlit("ZC");
    }
    assert(r@ =~= submission_no_text(year.end_date.year as int, sequence as nat));
    r
}

proof fn lemma_leading_zeros(n: nat, d: Seq<char>)
    ensures
        digits_value(Seq::new(n, |_i: int| '0') + d) == digits_value(d),
    decreases d.len(), n,
{
    let z = Seq::new(n, |_i: int| '0');
    if d.len() == 0 {
        assert(z + d =~= z);
        if n > 0 {
            assert(z.drop_last() =~= Seq::new((n - 1) as nat, |_i: int| '0'));
            lemma_leading_zeros((n - 1) as nat, d);
            assert(Seq::new((n - 1) as nat, |_i: int| '0') + d =~= Seq::new((n - 1) as nat, |_i: int| '0'));
            assert(digits_value(z) == digits_value(z.drop_last()) * 10 + ((z.last() as u32) - 48) as nat);
        }
    } else {
        assert((z + d).drop_last() =~= z + d.drop_last());
        assert((z + d).last() == d.last());
        lemma_leading_zeros(n, d.drop_last());
    }
}

proof fn lemma_padded_value(n: nat, width: nat)
    ensures
        digits_value(zero_padded(decimal(n), width)) == n,
{
    lemma_decimal_digits(n);
    if decimal(n).len() < width {
        lemma_leading_zeros((width - decimal(n).len()) as nat, decimal(n));
    }
}

/// Two submissions of the same year with different sequence numbers get different
/// submission numbers.
pub proof fn law_submission_numbers_distinct(year: int, a: nat, b: nat)
    requires
        a != b,
    ensures
        submission_no_text(year, a) != submission_no_text(year, b),
{
    let p = "ZC"@ + year_text(year) + seq!['-'];
    let x = zero_padded(decimal(a), 6);
    let y = zero_padded(decimal(b), 6);
    assert(submission_no_text(year, a) =~= p + x);
    assert(submission_no_text(year, b) =~= p + y);
    if p + x == p + y {
        assert(x =~= (p + x).skip(p.len() as int));
        assert(y =~= (p + y).skip(p.len() as int));
        lemma_padded_value(a, 6);
        lemma_padded_value(b, 6);
    }
}


// ---------------------------------------------------------------------------
// A secret typed in for hashing
// ---------------------------------------------------------------------------

/// A text without its last character when that is `c`.
pub open spec fn without_last(t: Seq<char>, c: char) -> Seq<char> {
    if t.len() > 0 && t.last() == c { t.drop_last() } else { t }
}

/// The secret a line of input gives: the input without one final line feed and then one
/// final carriage return; none when that is empty or still holds a line break.
pub open spec fn secret_of_line(input: Seq<char>) -> Option<Seq<char>> {
    let secret = without_last(without_last(input, '\n'), '\r');
    if secret.len() == 0 || crate::text::has_char(secret, '\n') || crate::text::has_char(secret, '\r') {
        None
    } else {
        Some(secret)
    }
}

/// The secret typed in as one line, if it is one non-empty line.
pub fn secret_line(input: &str) -> (r: Option<String>)
    ensures
        match r {
            Some(s) => secret_of_line(input@) == Some(s@),
            None => secret_of_line(input@) is None,
        },
{
    let cs = chars_of(input);
    let mut n = cs.len();
    if n > 0 && cs[n - 1] == '\n' {
        n = n - 1;
    }
    if n > 0 && cs[n - 1] == '\r' {
        n = n - 1;
    }
    let secret = crate::text::sub_chars(cs.as_slice(), 0, n);
    proof {
        let a = without_last(input@, '\n');
        assert(secret@ =~= without_last(a, '\r'));
    }
    if n == 0 || crate::text::chars_contain(secret.as_slice(), '\n') || crate::text::chars_contain(secret.as_slice(), '\r') {
        return None;
    }
    Some(crate::text::string_of(secret.as_slice()))
}

} // verus!
