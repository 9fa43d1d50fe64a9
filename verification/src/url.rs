//! Percent-encoding of query values and the dashboard's links.
use vstd::prelude::*;
use vstd::utf8::encode_utf8;

use crate::form::FormValues;
use crate::text::{push_str, str_eq};

verus! {

/// The bytes `urlencoding` leaves as they are: ASCII letters, digits and `-`, `.`, `_`, `~`.
pub open spec fn unreserved(b: u8) -> bool {
    (48 <= b <= 57) || (65 <= b <= 90) || (97 <= b <= 122) || b == 45 || b == 46 || b == 95 || b == 126
}

pub open spec fn hex_upper(d: u8) -> char {
    if d < 10 {
        ((d + 48) as u32) as char
    } else {
        ((d + 55) as u32) as char
    }
}

/// Every byte but the unreserved ones as `%` and two upper-case hexadecimal digits.
pub open spec fn percent_encoded(bytes: Seq<u8>) -> Seq<char>
    decreases bytes.len(),
{
    if bytes.len() == 0 {
        Seq::empty()
    } else {
        let b = bytes.last();
        let tail = if unreserved(b) {
            seq![(b as u32) as char]
        } else {
            seq!['%', hex_upper(b / 16), hex_upper(b % 16)]
        };
        percent_encoded(bytes.drop_last()) + tail
    }
}

/// `urlencoding::encode`: its documentation says it percent-encodes every byte of the UTF-8
/// text except alphanumerics and `-`, `_`, `.`, `~`; the source writes the hexadecimal
/// digits in upper case.
#[verifier::external_body]
pub(crate) fn url_encode(data: &str) -> (r: String)
    ensures
        r@ == percent_encoded(encode_utf8(data@)),
{
    urlencoding::encode(data).into_owned()
}

/// The filter fields that a dashboard link carries, in this order.
pub open spec fn query_keys() -> Seq<Seq<char>> {
    seq!["academic_year_id"@, "name"@, "student_no"@, "category"@, "status"@]
}

/// `key=value` for each present filter field, values encoded, joined with `&`.
pub open spec fn encoded_query(values: FormValues) -> Seq<char> {
    encoded_query_from(values, 0)
}

pub open spec fn encoded_query_from(values: FormValues, i: int) -> Seq<char>
    decreases 5 - i,
{
    if i >= 5 || i < 0 {
        Seq::empty()
    } else {
        let rest = encoded_query_from(values, i + 1);
        match values.lookup(query_keys()[i]) {
            Some(v) => {
                let part = query_keys()[i] + "="@ + percent_encoded(encode_utf8(v));
                if rest.len() == 0 {
                    part
                } else {
                    part + "&"@ + rest
                }
            },
            None => rest,
        }
    }
}

/// The query string of the dashboard filter fields.
pub fn encode_query(values: &FormValues) -> (r: String)
    ensures
        r@ == encoded_query(*values),
{
    let ks: [&str; 5] = ["academic_year_id", "name", "student_no", "category", "status"];
    proof {
        assert(ks@.map_values(|k: &str| k@) =~= query_keys());
    }
    let mut r = String::new();
    let mut i: usize = 5;
    while i > 0
        invariant
            i <= 5,
            ks@.map_values(|k: &str| k@) == query_keys(),
            r@ == encoded_query_from(*values, i as int),
        decreases i,
    {
        i = i - 1;
        assert(ks@[i as int]@ == query_keys()[i as int]);
        match values.get(ks[i]) {
            Some(v) => {
                let mut part = String::new();
                push_str(&mut part, ks[i]);
                push_str(&mut part, "=");
                let e = url_encode(v);
                push_str(&mut part, e.as_str());
                if r.as_str().is_empty() {
                    r = part;
                } else {
                    push_str(&mut part, "&");
                    push_str(&mut part, r.as_str());
                    r = part;
                }
            },
            None => {},
        }
    }
    r
}

/// A character that a download's file name must not carry.
pub open spec fn dropped_from_filename(c: char) -> bool {
    crate::text::is_ctrl(c) || c == '/' || c == '\\'
}

/// The file name without control characters and slashes.
pub open spec fn clean_filename(name: Seq<char>) -> Seq<char>
    decreases name.len(),
{
    if name.len() == 0 {
        Seq::empty()
    } else if dropped_from_filename(name.last()) {
        clean_filename(name.drop_last())
    } else {
        clean_filename(name.drop_last()).push(name.last())
    }
}

/// The `Content-Disposition` of a downloaded attachment: shown inline, under a fixed
/// ASCII name and, for clients that read it, its own name cleaned and percent-encoded.
pub fn attachment_disposition(original_name: &str) -> (r: String)
    ensures
        r@ == "inline; filename=\"attachment\"; filename*=UTF-8''"@ + percent_encoded(
            encode_utf8(clean_filename(original_name@)),
        ),
{
    let cs = crate::text::chars_of(original_name);
    let mut kept: Vec<char> = Vec::new();
    let mut i: usize = 0;
    while i < cs.len()
        invariant
            i <= cs@.len(),
            cs@ == original_name@,
            kept@ == clean_filename(cs@.take(i as int)),
        decreases cs@.len() - i,
    {
        assert(cs@.take(i + 1).drop_last() =~= cs@.take(i as int));
        let c = cs[i];
        if !(crate::text::char_is_control(c) || c == '/' || c == '\\') {
            kept.push(c);
        }
        i = i + 1;
    }
    assert(cs@.take(cs@.len() as int) =~= cs@);
    let name = crate::text::string_of(kept.as_slice());
    let encoded = url_encode(name.as_str());
    let mut r = String::new();
    crate::text::push_str(&mut r, "inline; filename=\"attachment\"; filename*=UTF-8''");
    crate::text::push_str(&mut r, encoded.as_str());
    r
}

} // verus!
