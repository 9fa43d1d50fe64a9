//! Attachment limits, safe path components and stored-file names.
use vstd::prelude::*;
use vstd::utf8::encode_utf8;

use crate::text::{
    ascii_lower, chars_contain, chars_have_control, chars_of, has_char, has_ctrl, i64_string,
    int_text, last_index_of, push_str, rfind_char, seq_eq, str_eq, sub_chars, to_ascii_lower,
    string_of,
};

verus! {

pub const MAX_ATTACHMENT_BYTES: u64 = 10 * 1024 * 1024;

pub const MAX_ATTACHMENTS_PER_SUBMISSION: usize = 10;

/// One uploaded file as the form delivered it.
#[derive(Debug, Clone)]
pub struct UploadInput {
    pub original_name: String,
    pub mime_type: String,
    pub bytes: Vec<u8>,
}

impl UploadInput {
    pub fn new(original_name: String, mime_type: String, bytes: Vec<u8>) -> (r: Self)
        ensures
            r.original_name == original_name,
            r.mime_type == mime_type,
            r.bytes == bytes,
    {
        UploadInput { original_name, mime_type, bytes }
    }
}

/// A saved attachment: its display name, generated file name, type and size.
#[derive(Debug, Clone, PartialEq, Eq)]
pub struct StoredAttachment {
    pub original_name: String,
    pub stored_name: String,
    pub mime_type: String,
    pub file_size: i64,
}

/// Why an attachment was refused or could not be stored.
#[derive(Debug)]
pub enum StorageError {
    InvalidPath,
    InvalidSize,
    UnsupportedType,
    TooManyAttachments,
    /// Reading or writing the file failed; `not_found` says whether the file or directory
    /// was missing (`std::io::ErrorKind::NotFound`).
    Io { not_found: bool },
}

/// At most ten attachments per submission, counting those already stored.
pub fn validate_attachment_count(existing_count: usize, incoming_count: usize) -> (r: Result<(), StorageError>)
    ensures
        r is Ok <==> existing_count + incoming_count <= MAX_ATTACHMENTS_PER_SUBMISSION,
        r matches Err(e) ==> e is TooManyAttachments,
{
    if existing_count.saturating_add(incoming_count) > MAX_ATTACHMENTS_PER_SUBMISSION {
        Err(StorageError::TooManyAttachments)
    } else {
        Ok(())
    }
}

/// A single path component that cannot leave its directory.
pub open spec fn component_ok(v: Seq<char>) -> bool {
    &&& v.len() > 0
    &&& v != "."@
    &&& v != ".."@
    &&& !has_char(v, '/')
    &&& !has_char(v, '\\')
    &&& !has_ctrl(v)
}

pub fn validate_component(value: &str) -> (r: Result<(), StorageError>)
    ensures
        r is Ok <==> component_ok(value@),
        r matches Err(e) ==> e is InvalidPath,
{
    let cs = chars_of(value);
    if cs.len() == 0 || str_eq(value, ".") || str_eq(value, "..") || chars_contain(cs.as_slice(), '/')
        || chars_contain(cs.as_slice(), '\\') || chars_have_control(cs.as_slice()) {
        return Err(StorageError::InvalidPath);
    }
    Ok(())
}

pub open spec fn is_hex(c: char) -> bool {
    ('0' <= c && c <= '9') || ('a' <= c && c <= 'f') || ('A' <= c && c <= 'F')
}

/// The extensions under which files are stored.
pub open spec fn stored_extension_ok(e: Seq<char>) -> bool {
    e == "jpg"@ || e == "png"@ || e == "pdf"@
}

/// A generated file name: 32 hexadecimal digits, a dot and a stored extension.
pub open spec fn stored_name_ok(v: Seq<char>) -> bool {
    &&& component_ok(v)
    &&& match last_index_of(v, '.') {
        Some(i) => {
            &&& i == 32
            &&& forall|k: int| 0 <= k < 32 ==> is_hex(#[trigger] v[k])
            &&& stored_extension_ok(v.skip(i + 1))
        },
        None => false,
    }
}

pub fn validate_stored_name(value: &str) -> (r: Result<(), StorageError>)
    ensures
        r is Ok <==> stored_name_ok(value@),
        r matches Err(e) ==> e is InvalidPath,
{
    validate_component(value)?;
    let cs = chars_of(value);
    let dot = match rfind_char(cs.as_slice(), '.') {
        Some(i) => i,
        None => return Err(StorageError::InvalidPath),
    };
    if dot != 32 {
        return Err(StorageError::InvalidPath);
    }
    let mut k: usize = 0;
    while k < 32
        invariant
            k <= 32,
            dot == 32,
            dot < cs@.len(),
            cs@ == value@,
            forall|j: int| 0 <= j < k ==> is_hex(#[trigger] cs@[j]),
        decreases 32 - k,
    {
        let c = cs[k];
        if !(('0' <= c && c <= '9') || ('a' <= c && c <= 'f') || ('A' <= c && c <= 'F')) {
            return Err(StorageError::InvalidPath);
        }
        k = k + 1;
    }
    let ext = sub_chars(cs.as_slice(), dot + 1, cs.len());
    let jpg = chars_of("jpg");
    let png = chars_of("png");
    let pdf = chars_of("pdf");
    if seq_eq(ext.as_slice(), jpg.as_slice()) || seq_eq(ext.as_slice(), png.as_slice())
        || seq_eq(ext.as_slice(), pdf.as_slice()) {
        assert(ext@ =~= value@.skip(33));
        Ok(())
    } else {
        assert(ext@ =~= value@.skip(33));
        Err(StorageError::InvalidPath)
    }
}

/// Between one byte and 10 MiB.
pub fn validate_size(size: u64) -> (r: Result<(), StorageError>)
    ensures
        r is Ok <==> 0 < size <= MAX_ATTACHMENT_BYTES,
        r matches Err(e) ==> e is InvalidSize,
{
    if size == 0 || size > MAX_ATTACHMENT_BYTES {
        Err(StorageError::InvalidSize)
    } else {
        Ok(())
    }
}

/// What `Path::extension` gives for a file name without separators: the text after the
/// last dot, unless that dot is the first character.
pub open spec fn path_extension(name: Seq<char>) -> Option<Seq<char>> {
    match last_index_of(name, '.') {
        Some(i) => if i == 0 { None } else { Some(name.skip(i + 1)) },
        None => None,
    }
}

pub fn extension_of(name: &[char]) -> (r: Option<Vec<char>>)
    ensures
        r matches Some(e) ==> path_extension(name@) == Some(e@),
        r is None ==> path_extension(name@) is None,
{
    match rfind_char(name, '.') {
        Some(i) => {
            if i == 0 {
                None
            } else {
                assert(i < name.len());
                let e = sub_chars(name, i + 1, name.len());
                assert(e@ =~= name@.skip(i + 1));
                Some(e)
            }
        },
        None => None,
    }
}

/// A display name that is safe to keep: not empty, at most 255 bytes, no separator,
/// not `.` or `..`, no control character.
pub open spec fn original_name_ok(name: Seq<char>) -> bool {
    &&& name.len() > 0
    &&& encode_utf8(name).len() <= 255
    &&& !has_char(name, '/')
    &&& !has_char(name, '\\')
    &&& name != "."@
    &&& name != ".."@
    &&& !has_ctrl(name)
}

/// Whether the (lower-cased) extension suits the file type.
pub open spec fn extension_matches(mime: Seq<char>, ext: Option<Seq<char>>) -> bool {
    let e = match ext {
        Some(x) => Some(ascii_lower(x)),
        None => None,
    };
    if mime == "image/jpeg"@ {
        e == Some("jpg"@) || e == Some("jpeg"@)
    } else if mime == "image/png"@ {
        e == Some("png"@)
    } else if mime == "application/pdf"@ {
        e == Some("pdf"@)
    } else {
        false
    }
}

pub fn name_is_safe(name: &str) -> (r: bool)
    ensures
        r == original_name_ok(name@),
{
    let cs = chars_of(name);
    let bytes = name.as_bytes();
    !(cs.len() == 0 || bytes.len() > 255 || chars_contain(cs.as_slice(), '/') || chars_contain(
        cs.as_slice(),
        '\\',
    ) || str_eq(name, ".") || str_eq(name, "..") || chars_have_control(cs.as_slice()))
}

pub fn extension_suits(mime: &str, name: &str) -> (r: bool)
    ensures
        r == extension_matches(mime@, path_extension(name@)),
{
    let cs = chars_of(name);
    let ext = match extension_of(cs.as_slice()) {
        Some(e) => Some(to_ascii_lower(e.as_slice())),
        None => None,
    };
    let jpg = chars_of("jpg");
    let jpeg = chars_of("jpeg");
    let png = chars_of("png");
    let pdf = chars_of("pdf");
    match ext {
        Some(e) => {
            if str_eq(mime, "image/jpeg") {
                seq_eq(e.as_slice(), jpg.as_slice()) || seq_eq(e.as_slice(), jpeg.as_slice())
            } else if str_eq(mime, "image/png") {
                seq_eq(e.as_slice(), png.as_slice())
            } else if str_eq(mime, "application/pdf") {
                seq_eq(e.as_slice(), pdf.as_slice())
            } else {
                false
            }
        },
        None => false,
    }
}

pub fn validate_original_name(name: &str, mime_type: &str) -> (r: Result<(), StorageError>)
    ensures
        r is Ok <==> original_name_ok(name@) && extension_matches(mime_type@, path_extension(name@)),
        r matches Err(e) ==> (if original_name_ok(name@) { e is UnsupportedType } else { e is InvalidPath }),
{
    if !name_is_safe(name) {
        return Err(StorageError::InvalidPath);
    }
    if extension_suits(mime_type, name) {
        Ok(())
    } else {
        Err(StorageError::UnsupportedType)
    }
}

/// The file types attachments may have.
pub open spec fn supported_mime(m: Seq<char>) -> bool {
    m == "image/jpeg"@ || m == "image/png"@ || m == "application/pdf"@
}

/// The extension a stored file of this type gets.
pub open spec fn extension_for_spec(m: Seq<char>) -> Seq<char> {
    if m == "image/jpeg"@ {
        ".jpg"@
    } else if m == "image/png"@ {
        ".png"@
    } else if m == "application/pdf"@ {
        ".pdf"@
    } else {
        ""@
    }
}

pub fn extension_for(mime_type: &str) -> (r: &'static str)
    ensures
        r@ == extension_for_spec(mime_type@),
{
    if str_eq(mime_type, "image/jpeg") {
        ".jpg"
    } else if str_eq(mime_type, "image/png") {
        ".png"
    } else if str_eq(mime_type, "application/pdf") {
        ".pdf"
    } else {
        ""
    }
}

/// What the `mime` crate reads as the essence (type/subtype, lower-cased, without
/// parameters) of a content type, or `None` when it does not parse.
pub uninterp spec fn mime_essence(raw: Seq<char>) -> Option<Seq<char>>;

/// `raw.parse::<mime::Mime>()` followed by `Mime::essence_str`. The claim is only that the
/// result is a function of `raw`, named `mime_essence`.
#[verifier::external_body]
fn parse_mime_essence(raw: &str) -> (r: Option<String>)
    ensures
        r matches Some(e) ==> mime_essence(raw@) == Some(e@),
        r is None ==> mime_essence(raw@) is None,
{
    match raw.parse::<mime::Mime>() {
        Ok(m) => Some(m.essence_str().to_owned()),
        Err(_) => None,
    }
}

/// The stored type for a parsed essence: one of the supported types, else refused.
pub fn supported_essence(essence: Option<&str>) -> (r: Result<String, StorageError>)
    ensures
        r matches Ok(m) ==> essence matches Some(e) && supported_mime(e@) && m@ == e@,
        r is Err ==> !(essence matches Some(e) && supported_mime(e@)),
        r matches Err(e) ==> e is UnsupportedType,
{
    match essence {
        Some(e) => {
            if str_eq(e, "image/jpeg") || str_eq(e, "image/png") || str_eq(e, "application/pdf") {
                Ok(e.to_owned())
            } else {
                Err(StorageError::UnsupportedType)
            }
        },
        None => Err(StorageError::UnsupportedType),
    }
}

/// The attachment's type as stored: the parsed essence when it is a supported type.
pub fn normalize_mime(raw: &str) -> (r: Result<String, StorageError>)
    ensures
        r matches Ok(m) ==> mime_essence(raw@) == Some(m@) && supported_mime(m@),
        r is Err ==> !(mime_essence(raw@) matches Some(e) && supported_mime(e)),
        r matches Err(e) ==> e is UnsupportedType,
{
    let essence = parse_mime_essence(raw);
    match essence {
        Some(e) => supported_essence(Some(e.as_str())),
        None => supported_essence(None),
    }
}

/// The immutable directory name for uploads of an academic year.
pub fn academic_year_directory(academic_year_id: i64) -> (r: String)
    ensures
        r@ == "year-"@ + int_text(academic_year_id as int),
{
    let mut r = String::new();
    push_str(&mut r, "year-");
    let n = i64_string(academic_year_id);
    push_str(&mut r, n.as_str());
    r
}

/// An attachment row to be stored for a submission.
#[derive(Debug, Clone)]
pub struct NewAttachment {
    pub submission_id: i64,
    pub original_name: String,
    pub stored_name: String,
    pub mime_type: String,
    pub file_size: i64,
}

impl NewAttachment {
    /// The row for a file stored for the submission `submission_id`.
    pub fn for_stored(submission_id: i64, stored: &StoredAttachment) -> (r: NewAttachment)
        ensures
            r.submission_id == submission_id,
            r.original_name@ == stored.original_name@,
            r.stored_name@ == stored.stored_name@,
            r.mime_type@ == stored.mime_type@,
            r.file_size == stored.file_size,
    {
        NewAttachment {
            submission_id,
            original_name: stored.original_name.clone(),
            stored_name: stored.stored_name.clone(),
            mime_type: stored.mime_type.clone(),
            file_size: stored.file_size,
        }
    }
}

/// The name a file of type `mime` is stored under: a fresh random identifier of 32
/// lowercase hexadecimal digits and the type's extension.
pub fn stored_name_for(mime: &str) -> (r: String)
    ensures
        r@.len() == 32 + extension_for_spec(mime@).len(),
        forall|k: int| 0 <= k < 32 ==> crate::random::is_lower_hex(#[trigger] r@[k]),
        r@.skip(32) == extension_for_spec(mime@),
{
    let mut r = crate::random::simple_uuid();
    let ghost id = r@;
    push_str(&mut r, extension_for(mime));
    assert(r@.skip(32) =~= extension_for_spec(mime@));
    r
}

proof fn lemma_last_dot(v: Seq<char>, i: int)
    requires
        0 <= i < v.len(),
        v[i] == '.',
        forall|k: int| i < k < v.len() ==> v[k] != '.',
    ensures
        last_index_of(v, '.') == Some(i),
    decreases v.len(),
{
    if v.len() - 1 != i {
        assert forall|k: int| i < k < v.drop_last().len() implies v.drop_last()[k] != '.' by {
            assert(v.drop_last()[k] == v[k]);
        }
        lemma_last_dot(v.drop_last(), i);
    }
}

/// A name `stored_name_for` makes for a supported type is one `validate_stored_name`
/// accepts, so every stored file can be opened again by its name.
pub proof fn law_stored_names_valid(v: Seq<char>, mime: Seq<char>)
    requires
        supported_mime(mime),
        v.len() == 32 + extension_for_spec(mime).len(),
        forall|k: int| 0 <= k < 32 ==> crate::random::is_lower_hex(#[trigger] v[k]),
        v.skip(32) == extension_for_spec(mime),
    ensures
        stored_name_ok(v),
{
    reveal_strlit(".jpg");
    reveal_strlit(".png");
    reveal_strlit(".pdf");
    reveal_strlit("jpg");
    reveal_strlit("png");
    reveal_strlit("pdf");
    reveal_strlit(".");
    reveal_strlit("..");
    let e = extension_for_spec(mime);
    assert(e.len() == 4);
    assert(v[32] == v.skip(32)[0]);
    assert(v[32] == '.');
    assert forall|k: int| 32 < k < v.len() implies v[k] != '.' by {
        assert(v[k] == v.skip(32)[k - 32]);
    }
    lemma_last_dot(v, 32);
    assert(v.skip(33) =~= e.skip(1));
    assert(!crate::text::has_char(v, '/')) by {
        assert forall|k: int| 0 <= k < v.len() implies v[k] != '/' by {
            if k >= 32 {
                assert(v[k] == v.skip(32)[k - 32]);
            }
        }
    }
    assert(!crate::text::has_char(v, '\\')) by {
        assert forall|k: int| 0 <= k < v.len() implies v[k] != '\\' by {
            if k >= 32 {
                assert(v[k] == v.skip(32)[k - 32]);
            }
        }
    }
    assert(!crate::text::has_ctrl(v)) by {
        assert forall|k: int| 0 <= k < v.len() implies !crate::text::is_ctrl(#[trigger] v[k]) by {
            if k >= 32 {
                assert(v[k] == v.skip(32)[k - 32]);
            }
        }
    }
    assert(v != "."@ && v != ".."@);
    assert forall|k: int| 0 <= k < 32 implies is_hex(#[trigger] v[k]) by {
        assert(crate::random::is_lower_hex(v[k]));
    }
    if mime == "image/jpeg"@ {
        assert(e.skip(1) =~= "jpg"@);
    } else if mime == "image/png"@ {
        assert(e.skip(1) =~= "png"@);
    } else {
        assert(e.skip(1) =~= "pdf"@);
    }
    assert(stored_extension_ok(v.skip(33)));
    assert(component_ok(v));
}

/// The first check a file fails before it is stored, in the order they are made, as the
/// error it is refused with; `None` when it passes them all.
pub open spec fn upload_refusal(year_name: Seq<char>, submission_no: Seq<char>, upload: UploadInput) -> Option<StorageError> {
    if !component_ok(year_name) || !component_ok(submission_no) {
        Some(StorageError::InvalidPath)
    } else {
        match mime_essence(upload.mime_type@) {
            Some(m) => if !supported_mime(m) {
                Some(StorageError::UnsupportedType)
            } else if !original_name_ok(upload.original_name@) {
                Some(StorageError::InvalidPath)
            } else if !extension_matches(m, path_extension(upload.original_name@)) {
                Some(StorageError::UnsupportedType)
            } else if !(0 < upload.bytes@.len() <= MAX_ATTACHMENT_BYTES) {
                Some(StorageError::InvalidSize)
            } else {
                None
            },
            None => Some(StorageError::UnsupportedType),
        }
    }
}

/// The checks a file passes before it is stored: safe directory names, a supported
/// type, a file name that suits the type, and a size within the limit. The stored type
/// is the parsed one.
pub fn check_upload(year_name: &str, submission_no: &str, upload: &UploadInput) -> (r: Result<String, StorageError>)
    ensures
        r matches Ok(m) ==> upload_refusal(year_name@, submission_no@, *upload) is None && mime_essence(upload.mime_type@) == Some(m@),
        r is Ok <==> upload_refusal(year_name@, submission_no@, *upload) is None,
        r matches Err(e) ==> upload_refusal(year_name@, submission_no@, *upload) matches Some(f) && (
            (e is InvalidPath && f is InvalidPath) || (e is UnsupportedType && f is UnsupportedType)
            || (e is InvalidSize && f is InvalidSize)),
{
    validate_component(year_name)?;
    validate_component(submission_no)?;
    let mime = normalize_mime(upload.mime_type.as_str())?;
    validate_original_name(upload.original_name.as_str(), mime.as_str())?;
    validate_size(upload.bytes.len() as u64)?;
    Ok(mime)
}

/// What to do with a file part of a multipart body.
pub enum FilePart {
    /// An untouched optional file input: nothing was chosen.
    Skip,
    /// A file to keep.
    Keep,
    /// One file more than a submission may carry.
    TooMany,
}

/// Whether a chunk still fits in an attachment that holds `current` bytes.
pub fn chunk_fits(current: usize, chunk: usize) -> (r: bool)
    ensures
        r == (current + chunk <= MAX_ATTACHMENT_BYTES),
{
    match current.checked_add(chunk) {
        Some(total) => total as u64 <= MAX_ATTACHMENT_BYTES,
        None => false,
    }
}

/// Decides on a received file part, `kept` files having been kept so far: an empty part
/// without a name is skipped; otherwise it is kept unless the limit is reached.
pub fn file_part(kept: usize, original_name: &str, size: usize) -> (r: FilePart)
    ensures
        (original_name@.len() == 0 && size == 0) ==> r is Skip,
        !(original_name@.len() == 0 && size == 0) && kept >= MAX_ATTACHMENTS_PER_SUBMISSION ==> r is TooMany,
        !(original_name@.len() == 0 && size == 0) && kept < MAX_ATTACHMENTS_PER_SUBMISSION ==> r is Keep,
{
    if original_name.is_empty() && size == 0 {
        FilePart::Skip
    } else if kept >= MAX_ATTACHMENTS_PER_SUBMISSION {
        FilePart::TooMany
    } else {
        FilePart::Keep
    }
}

} // verus!
