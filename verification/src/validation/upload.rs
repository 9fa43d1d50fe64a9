//! Checks on uploaded evidence files.
use vstd::prelude::*;

use crate::storage::{
    extension_matches, extension_suits, name_is_safe, original_name_ok, path_extension,
    supported_mime, UploadInput, MAX_ATTACHMENTS_PER_SUBMISSION, MAX_ATTACHMENT_BYTES,
};
use crate::text::{ascii_lower, chars_of, str_eq, string_of, to_ascii_lower, trim, trim_chars};
use super::{add_msg, merge_msgs, rejects_with, ValidationErrors};
use super::category::Errs;

verus! {

/// A file that passed the checks: its name, normalized type and size.
#[derive(Debug, Clone, PartialEq, Eq)]
pub struct ValidatedUpload {
    pub original_name: String,
    pub mime_type: String,
    pub file_size: i64,
}

/// The declared type, trimmed and lower-cased.
pub open spec fn upload_mime(f: UploadInput) -> Seq<char> {
    ascii_lower(trim(f.mime_type@))
}

/// The messages the checks give for one file.
pub open spec fn upload_errs(f: UploadInput) -> Errs {
    let m0 = Map::<Seq<char>, Seq<Seq<char>>>::empty();
    let m1 = if f.bytes@.len() == 0 || f.bytes@.len() > MAX_ATTACHMENT_BYTES {
        add_msg(m0, "attachments"@, "每个附件必须大于 0 且不超过 10 MiB"@)
    } else {
        m0
    };
    let mime = upload_mime(f);
    let m2 = if !supported_mime(mime) {
        add_msg(m1, "attachments"@, "附件仅支持 JPG、PNG 或 PDF 格式"@)
    } else {
        m1
    };
    if !original_name_ok(f.original_name@) {
        add_msg(m2, "attachments"@, "附件文件名不合法"@)
    } else if !extension_matches(mime, path_extension(f.original_name@)) {
        add_msg(m2, "attachments"@, "附件扩展名与文件类型不匹配"@)
    } else {
        m2
    }
}

/// `v` is what the checks make of `f`.
pub open spec fn validated_from(v: ValidatedUpload, f: UploadInput) -> bool {
    &&& v.original_name@ == f.original_name@
    &&& v.mime_type@ == upload_mime(f)
    &&& v.file_size == f.bytes@.len()
}

pub fn validate_upload(file: &UploadInput) -> (r: Result<ValidatedUpload, ValidationErrors>)
    ensures
        rejects_with(r, upload_errs(*file)),
        r matches Ok(v) ==> validated_from(v, *file),
{
    let mut errors = ValidationErrors::new();
    let size = file.bytes.len();
    if size == 0 || size as u64 > MAX_ATTACHMENT_BYTES {
        errors.add("attachments", "每个附件必须大于 0 且不超过 10 MiB");
    }
    let raw = chars_of(file.mime_type.as_str());
    let trimmed = trim_chars(raw.as_slice());
    let lowered = to_ascii_lower(trimmed.as_slice());
    let mime = string_of(lowered.as_slice());
    let m = mime.as_str();
    if !(str_eq(m, "image/jpeg") || str_eq(m, "image/png") || str_eq(m, "application/pdf")) {
        errors.add("attachments", "附件仅支持 JPG、PNG 或 PDF 格式");
    }
    let name = file.original_name.as_str();
    if !name_is_safe(name) {
        errors.add("attachments", "附件文件名不合法");
    } else if !extension_suits(m, name) {
        errors.add("attachments", "附件扩展名与文件类型不匹配");
    }
    if errors.is_empty() {
        Ok(ValidatedUpload {
            original_name: file.original_name.clone(),
            mime_type: mime,
            file_size: size as i64,
        })
    } else {
        Err(errors)
    }
}

/// The messages for a batch: the count rules, then each file's messages in order.
pub open spec fn batch_errs(m: Errs, us: Seq<UploadInput>) -> Errs
    decreases us.len(),
{
    if us.len() == 0 {
        m
    } else {
        merge_msgs(batch_errs(m, us.drop_last()), upload_errs(us.last()))
    }
}

pub open spec fn uploads_errs(us: Seq<UploadInput>, existing_count: nat) -> Errs {
    let m0 = Map::<Seq<char>, Seq<Seq<char>>>::empty();
    let m1 = if us.len() == 0 && existing_count == 0 {
        add_msg(m0, "attachments"@, "成果申报至少需要上传 1 个证明材料"@)
    } else {
        m0
    };
    let m2 = if us.len() + existing_count > MAX_ATTACHMENTS_PER_SUBMISSION {
        add_msg(m1, "attachments"@, "每项成果最多上传 10 个证明材料"@)
    } else {
        m1
    };
    batch_errs(m2, us)
}

proof fn lemma_merge_keeps(a: Errs, b: Errs)
    ensures
        a != Map::<Seq<char>, Seq<Seq<char>>>::empty() ==> merge_msgs(a, b) != Map::<Seq<char>, Seq<Seq<char>>>::empty(),
        b != Map::<Seq<char>, Seq<Seq<char>>>::empty() ==> merge_msgs(a, b) != Map::<Seq<char>, Seq<Seq<char>>>::empty(),
        a == Map::<Seq<char>, Seq<Seq<char>>>::empty() && b == Map::<Seq<char>, Seq<Seq<char>>>::empty() ==> merge_msgs(a, b) == Map::<Seq<char>, Seq<Seq<char>>>::empty(),
{
    if a != Map::<Seq<char>, Seq<Seq<char>>>::empty() {
        let k = choose|k: Seq<char>| a.contains_key(k);
        if !(exists|k: Seq<char>| a.contains_key(k)) {
            assert(a =~= Map::<Seq<char>, Seq<Seq<char>>>::empty());
        }
        assert(merge_msgs(a, b).contains_key(k));
    }
    if b != Map::<Seq<char>, Seq<Seq<char>>>::empty() {
        let k = choose|k: Seq<char>| b.contains_key(k);
        if !(exists|k: Seq<char>| b.contains_key(k)) {
            assert(b =~= Map::<Seq<char>, Seq<Seq<char>>>::empty());
        }
        assert(merge_msgs(a, b).contains_key(k));
    }
    if a == Map::<Seq<char>, Seq<Seq<char>>>::empty() && b == Map::<Seq<char>, Seq<Seq<char>>>::empty() {
        assert(merge_msgs(a, b) =~= Map::<Seq<char>, Seq<Seq<char>>>::empty());
    }
}

/// Checks a batch of new files against the attachments a submission already has.
pub fn validate_uploads_with_existing(uploads: &[UploadInput], existing_count: usize) -> (r: Result<Vec<ValidatedUpload>, ValidationErrors>)
    ensures
        rejects_with(r, uploads_errs(uploads@, existing_count as nat)),
        r matches Ok(v) ==> v@.len() == uploads@.len() && forall|i: int| 0 <= i < v@.len() ==> validated_from(#[trigger] v@[i], uploads@[i]),
{
    let mut errors = ValidationErrors::new();
    if uploads.len() == 0 && existing_count == 0 {
        errors.add("attachments", "成果申报至少需要上传 1 个证明材料");
    }
    if uploads.len().saturating_add(existing_count) > MAX_ATTACHMENTS_PER_SUBMISSION {
        errors.add("attachments", "每项成果最多上传 10 个证明材料");
    }
    let ghost m2 = errors@;
    let mut validated: Vec<ValidatedUpload> = Vec::new();
    let mut i: usize = 0;
    while i < uploads.len()
        invariant
            i <= uploads@.len(),
            errors.wf(),
            errors@ == batch_errs(m2, uploads@.take(i as int)),
            errors@ == Map::<Seq<char>, Seq<Seq<char>>>::empty() ==> validated@.len() == i
                && forall|j: int| 0 <= j < i ==> validated_from(#[trigger] validated@[j], uploads@[j]),
        decreases uploads@.len() - i,
    {
        let ghost before = errors@;
        match validate_upload(&uploads[i]) {
            Ok(file) => {
                validated.push(file);
                proof {
                    assert(merge_msgs(before, upload_errs(uploads@[i as int])) =~= before);
                }
            },
            Err(file_errors) => {
                errors.extend(file_errors);
            },
        }
        proof {
            assert(uploads@.take(i + 1).drop_last() =~= uploads@.take(i as int));
            lemma_merge_keeps(before, upload_errs(uploads@[i as int]));
        }
        i = i + 1;
    }
    proof {
        assert(uploads@.take(uploads@.len() as int) =~= uploads@);
    }
    if errors.is_empty() {
        Ok(validated)
    } else {
        Err(errors)
    }
}

proof fn lemma_last_dot(stem: Seq<char>, ext: Seq<char>)
    requires
        forall|k: int| 0 <= k < ext.len() ==> ext[k] != '.',
    ensures
        crate::text::last_index_of(stem.push('.') + ext, '.') == Some(stem.len() as int),
    decreases ext.len(),
{
    let s = stem.push('.') + ext;
    if ext.len() == 0 {
        assert(s =~= stem.push('.'));
    } else {
        assert(s.drop_last() =~= stem.push('.') + ext.drop_last());
        lemma_last_dot(stem, ext.drop_last());
    }
}

proof fn lemma_plain_mime(m: Seq<char>)
    requires
        m.len() > 0,
        forall|k: int| 0 <= k < m.len() ==> ('a' <= #[trigger] m[k] <= 'z' || m[k] == '/'),
    ensures
        ascii_lower(trim(m)) == m,
{
    assert(!crate::text::is_ws(m[0]));
    assert(crate::text::trim_start(m) == m);
    assert(!crate::text::is_ws(m.last()));
    assert(crate::text::trim_end(m) == m);
    assert(ascii_lower(m) =~= m);
}

/// A file of one byte to 10 MiB, declared as JPEG, PNG or PDF, whose safe name is a stem,
/// a dot and an extension that names that type in any letter case (`jpg` or `jpeg`, `png`,
/// `pdf`), passes the file checks.
pub proof fn law_matching_upload_accepted(f: UploadInput, stem: Seq<char>, ext: Seq<char>)
    requires
        0 < f.bytes@.len() <= MAX_ATTACHMENT_BYTES,
        f.original_name@ == stem.push('.') + ext,
        stem.len() > 0,
        original_name_ok(f.original_name@),
        (f.mime_type@ == "image/png"@ && ascii_lower(ext) == "png"@)
            || (f.mime_type@ == "image/jpeg"@ && (ascii_lower(ext) == "jpg"@ || ascii_lower(ext) == "jpeg"@))
            || (f.mime_type@ == "application/pdf"@ && ascii_lower(ext) == "pdf"@),
    ensures
        upload_errs(f) == Map::<Seq<char>, Seq<Seq<char>>>::empty(),
{
    reveal_strlit("image/png");
    reveal_strlit("image/jpeg");
    reveal_strlit("application/pdf");
    reveal_strlit("png");
    reveal_strlit("jpg");
    reveal_strlit("jpeg");
    reveal_strlit("pdf");
    let e = ascii_lower(ext);
    assert forall|k: int| 0 <= k < ext.len() implies ext[k] != '.' by {
        assert(e[k] == crate::text::ascii_lower_char(ext[k]));
        assert(e == "png"@ || e == "jpg"@ || e == "jpeg"@ || e == "pdf"@);
        assert("png"@.len() == 3 && "jpg"@.len() == 3 && "jpeg"@.len() == 4 && "pdf"@.len() == 3);
        assert(e.len() == ext.len());
        assert(k < 4);
        if k == 0 {
            assert(e[0] != '.');
        } else if k == 1 {
            assert(e[1] != '.');
        } else if k == 2 {
            assert(e[2] != '.');
        } else {
            assert(e[3] != '.');
        }
    }
    lemma_last_dot(stem, ext);
    assert(path_extension(f.original_name@) == Some(ext)) by {
        assert(f.original_name@.skip(stem.len() as int + 1) =~= ext);
    }
    lemma_plain_mime(f.mime_type@);
    assert(upload_mime(f) == f.mime_type@);
}

/// An empty file, a file over 10 MiB, a type other than JPEG, PNG or PDF, an unsafe name or
/// an extension that does not name the type is refused.
pub proof fn law_unsuitable_upload_refused(f: UploadInput)
    requires
        f.bytes@.len() == 0 || f.bytes@.len() > MAX_ATTACHMENT_BYTES
            || !supported_mime(upload_mime(f))
            || !original_name_ok(f.original_name@)
            || !extension_matches(upload_mime(f), path_extension(f.original_name@)),
    ensures
        upload_errs(f).contains_key("attachments"@),
{
}

} // verus!
