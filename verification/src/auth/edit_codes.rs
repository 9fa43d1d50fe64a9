//! Edit codes kept for the administrator: each one sealed with authenticated encryption
//! under a key derived from the service secret, bound to its submission's number.
use tower_sessions::cookie::{Cookie, CookieJar, Key};
use vstd::prelude::*;

use crate::auth::{argon2_accepts, phc_parses, verify_secret, AuthError};
use crate::domain::Submission;
use crate::text::{chars_of, push_str, string_of, sub_chars};

verus! {

/// What the `cookie` crate's private jar, keyed by `Key::derive_from(secret)`, decrypts the
/// sealed text `sealed` of a cookie named `name` to; `None` when it does not authenticate.
pub uninterp spec fn private_cookie_opened(secret: Seq<u8>, name: Seq<char>, sealed: Seq<char>) -> Option<Seq<char>>;

/// `PrivateJar::add` of the cookie `name=value` under `Key::derive_from(secret)`, then the
/// jar's stored (sealed) value. The crate documents that decryption always succeeds for a
/// cookie that a private jar with the same key made, giving back its value. The sealed
/// text itself carries a random nonce and is not stated.
#[verifier::external_body]
fn private_cookie_seal(secret: &[u8], name: &str, value: &str) -> (r: String)
    requires
        secret@.len() >= 32,
    ensures
        private_cookie_opened(secret@, name@, r@) == Some(value@),
{
    let key = Key::derive_from(secret);
    let mut jar = CookieJar::new();
    jar.private_mut(&key).add(Cookie::new(name.to_owned(), value.to_owned()));
    jar.get(name).map(|cookie| cookie.value().to_owned()).unwrap_or_default()
}

/// `PrivateJar::decrypt` of the cookie `name=sealed` under `Key::derive_from(secret)`: the
/// decrypted value, or `None` when it does not authenticate.
#[verifier::external_body]
fn private_cookie_open(secret: &[u8], name: &str, sealed: &str) -> (r: Option<String>)
    requires
        secret@.len() >= 32,
    ensures
        match r {
            Some(v) => private_cookie_opened(secret@, name@, sealed@) == Some(v@),
            None => private_cookie_opened(secret@, name@, sealed@) is None,
        },
{
    let key = Key::derive_from(secret);
    let cookie = Cookie::new(name.to_owned(), sealed.to_owned());
    CookieJar::new().private(&key).decrypt(cookie).map(|cookie| cookie.value().to_owned())
}

/// The name an edit code is sealed under: the submission's number bound into it, so that
/// a sealed code does not open for another submission.
pub open spec fn envelope_name(submission_no: Seq<char>) -> Seq<char> {
    "zongce.edit-code.v1."@ + submission_no
}

/// The marker of the envelope's format.
pub open spec fn envelope_marker() -> Seq<char> {
    "v1:"@
}

/// What an envelope opens to for a submission: its marker, then a sealed code.
pub open spec fn envelope_opened(secret: Seq<u8>, submission_no: Seq<char>, envelope: Seq<char>) -> Option<Seq<char>> {
    if envelope.len() >= 3 && envelope.take(3) == envelope_marker() {
        private_cookie_opened(secret, envelope_name(submission_no), envelope.skip(3))
    } else {
        None
    }
}

/// Seals and opens edit codes under a key derived from the service secret. Deliberately
/// without `Debug`.
pub struct EditCodeVault {
    secret: Vec<u8>,
}

impl EditCodeVault {
    #[verifier::type_invariant]
    spec fn secret_long_enough(self) -> bool {
        self.secret@.len() >= 32
    }

    /// The secret the vault's key is derived from.
    pub closed spec fn secret_view(&self) -> Seq<u8> {
        self.secret@
    }

    /// A vault for this secret; a secret shorter than 32 bytes is refused.
    pub fn new(secret: &[u8]) -> (r: Result<EditCodeVault, AuthError>)
        ensures
            r is Ok <==> secret@.len() >= 32,
            r matches Ok(v) ==> v.secret_view() == secret@,
            r matches Err(e) ==> e is InvalidSessionSecret,
    {
        if secret.len() < 32 {
            return Err(AuthError::InvalidSessionSecret);
        }
        let mut kept: Vec<u8> = Vec::new();
        let mut i: usize = 0;
        while i < secret.len()
            invariant
                i <= secret@.len(),
                kept@ == secret@.take(i as int),
            decreases secret@.len() - i,
        {
            kept.push(secret[i]);
            i = i + 1;
            assert(kept@ =~= secret@.take(i as int));
        }
        assert(secret@.take(secret@.len() as int) =~= secret@);
        Ok(EditCodeVault { secret: kept })
    }

    fn name(submission_no: &str) -> (r: String)
        ensures
            r@ == envelope_name(submission_no@),
    {
        let mut name = String::new();
        push_str(&mut name, "zongce.edit-code.v1.");
        push_str(&mut name, submission_no);
        proof {
            reveal_strlit("zongce.edit-code.v1.");
        }
        name
    }

    /// The envelope of `code` for the submission `submission_no`: the marker `v1:` and the
    /// sealed code, which opens to `code` for that submission.
    pub fn encrypt(&self, submission_no: &str, code: &str) -> (r: String)
        ensures
            sealed_envelope(self.secret_view(), submission_no@, code@, r@),
    {
        proof {
            use_type_invariant(self);
        }
        let name = Self::name(submission_no);
        let sealed = private_cookie_seal(self.secret.as_slice(), name.as_str(), code);
        let mut r = String::new();
        push_str(&mut r, "v1:");
        push_str(&mut r, sealed.as_str());
        proof {
            reveal_strlit("v1:");
            assert(r@.take(3) =~= envelope_marker());
            assert(r@.skip(3) =~= sealed@);
        }
        r
    }

    /// The code an envelope holds for the submission `submission_no`, if it is one of
    /// this vault's envelopes for that submission.
    pub fn decrypt(&self, submission_no: &str, ciphertext: &str) -> (r: Option<String>)
        ensures
            match r {
                Some(code) => envelope_opened(self.secret_view(), submission_no@, ciphertext@) == Some(code@),
                None => envelope_opened(self.secret_view(), submission_no@, ciphertext@) is None,
            },
    {
        proof {
            use_type_invariant(self);
            reveal_strlit("v1:");
        }
        let cs = chars_of(ciphertext);
        if cs.len() < 3 || !(cs[0] == 'v' && cs[1] == '1' && cs[2] == ':') {
            proof {
                if ciphertext@.len() >= 3 && ciphertext@.take(3) == envelope_marker() {
                    assert(ciphertext@.take(3)[0] == 'v' && ciphertext@.take(3)[1] == '1' && ciphertext@.take(3)[2] == ':');
                }
            }
            return None;
        }
        assert(ciphertext@.take(3) =~= envelope_marker());
        let sealed_chars = sub_chars(cs.as_slice(), 3, cs.len());
        let sealed = string_of(sealed_chars.as_slice());
        assert(sealed@ =~= ciphertext@.skip(3));
        let name = Self::name(submission_no);
        private_cookie_open(self.secret.as_slice(), name.as_str(), sealed.as_str())
    }
}

/// An envelope as `encrypt` makes it for `code`: the marker `v1:`, then a text that the
/// private jar opens to `code` under the submission's envelope name.
pub open spec fn sealed_envelope(secret: Seq<u8>, submission_no: Seq<char>, code: Seq<char>, envelope: Seq<char>) -> bool {
    &&& envelope.len() >= 3
    &&& envelope.take(3) == envelope_marker()
    &&& private_cookie_opened(secret, envelope_name(submission_no), envelope.skip(3)) == Some(code)
}

/// Decrypting an envelope that encryption made, for the same submission, gives back the
/// code that was sealed.
pub proof fn law_envelope_round_trip(secret: Seq<u8>, submission_no: Seq<char>, code: Seq<char>, envelope: Seq<char>)
    requires
        sealed_envelope(secret, submission_no, code, envelope),
    ensures
        envelope_opened(secret, submission_no, envelope) == Some(code),
{
}

/// A text without the `v1:` marker opens to nothing, whatever the secret and the
/// submission.
pub proof fn law_unmarked_envelope_opens_nothing(secret: Seq<u8>, submission_no: Seq<char>, envelope: Seq<char>)
    requires
        !(envelope.len() >= 3 && envelope.take(3) == envelope_marker()),
    ensures
        envelope_opened(secret, submission_no, envelope) is None,
{
}

/// The edit code the administrator is shown for a submission: the one its envelope holds,
/// and only while it is still the submission's current code.
pub open spec fn recovered_code(secret: Seq<u8>, s: Submission, envelope: Option<Seq<char>>) -> Option<Seq<char>> {
    match envelope {
        Some(e) => match envelope_opened(secret, s.submission_no@, e) {
            Some(code) => if phc_parses(s.edit_code_hash@) && argon2_accepts(s.edit_code_hash@, code) {
                Some(code)
            } else {
                None
            },
            None => None,
        },
        None => None,
    }
}

/// Opens the submission's stored envelope and checks the code against the submission's
/// current hash, so that an envelope of an earlier code shows nothing.
pub fn recover_edit_code(vault: &EditCodeVault, submission: &Submission, envelope: Option<&str>) -> (r: Option<String>)
    ensures
        match r {
            Some(code) => recovered_code(vault.secret_view(), *submission, match envelope { Some(e) => Some(e@), None => None }) == Some(code@),
            None => recovered_code(vault.secret_view(), *submission, match envelope { Some(e) => Some(e@), None => None }) is None,
        },
{
    let e = match envelope {
        Some(e) => e,
        None => return None,
    };
    match vault.decrypt(submission.submission_no.as_str(), e) {
        Some(code) => {
            if verify_secret(submission.edit_code_hash.as_str(), code.as_str()) {
                Some(code)
            } else {
                None
            }
        },
        None => None,
    }
}

} // verus!
