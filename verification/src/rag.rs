//! The document store behind retrieval: document records, reading text out
//! of uploads, cutting text into overlapping character windows, and sorting
//! documents by the state of their embeddings.

use vstd::prelude::*;
use vstd::utf8::{decode_utf8, valid_utf8};
use crate::chunking::string_views;
use crate::ids::new_uuid_v4;
use sha2::Digest;
use vstd::utf8::encode_utf8;
use crate::text::{
    chars_of, contains_str, decimal, has_substring, join, join_chars, push_char, push_str, str_eq,
    string_from_chars, to_owned_string, u64_to_decimal,
};

verus! {

/// An uploaded document.
#[derive(Debug, Clone)]
pub struct Document {
    pub id: String,
    pub file_name: String,
    pub file_path: String,
    pub file_type: String,
    pub file_size: i64,
    pub content: String,
    pub created_at: String,
    pub updated_at: String,
    pub access_count: i32,
    pub last_accessed: Option<String>,
    pub is_cached: bool,
    pub metadata: Option<String>,
}

/// An uploaded document with the state of its embeddings.
#[derive(Debug, Clone)]
pub struct EnhancedDocument {
    pub id: String,
    pub file_name: String,
    pub file_path: String,
    pub file_type: String,
    pub file_size: i64,
    pub content: String,
    pub created_at: String,
    pub updated_at: String,
    pub access_count: i32,
    pub last_accessed: Option<String>,
    pub is_cached: bool,
    /// `pending`, `processing`, `completed` or `failed`.
    pub embedding_status: String,
    pub chunk_count: i32,
    pub metadata: Option<String>,
    pub content_hash: Option<String>,
}

/// Documents sorted by whether they can be searched yet.
#[derive(Debug, Clone)]
pub struct DocumentValidationResult {
    pub ready_documents: Vec<String>,
    pub pending_documents: Vec<String>,
    pub processing_documents: Vec<String>,
    pub failed_documents: Vec<String>,
}

/// A window of a document's characters.
#[derive(Debug)]
pub struct RagChunk {
    pub id: String,
    pub document_id: String,
    pub chunk_index: i32,
    pub content: String,
    pub start_char: i32,
    pub end_char: i32,
}

// ---------------------------------------------------------------------------
// Text of uploads
// ---------------------------------------------------------------------------

/// What `String::from_utf8_lossy` gives for some bytes: invalid sequences
/// become U+FFFD.
pub uninterp spec fn utf8_lossy(bytes: Seq<u8>) -> Seq<char>;

/// `String::from_utf8_lossy(..).to_string()`. Valid UTF-8 is decoded as it is,
/// as the standard library documents.
#[verifier::external_body]
fn lossy_text(bytes: &[u8]) -> (r: String)
    ensures
        r@ == utf8_lossy(bytes@),
        valid_utf8(bytes@) ==> r@ == decode_utf8(bytes@),
{
    String::from_utf8_lossy(bytes).to_string()
}

/// The text stored for an upload of the given type: text types are read as
/// UTF-8 (invalid sequences replaced); PDFs and images are not read yet and
/// get a placeholder; anything else is read as text.
pub open spec fn upload_text(bytes: Seq<u8>, file_type: Seq<char>) -> Seq<char> {
    if has_substring(file_type, "text"@) || has_substring(file_type, "plain"@) {
        utf8_lossy(bytes)
    } else if has_substring(file_type, "pdf"@) {
        "PDF content extraction pending implementation"@
    } else if has_substring(file_type, "image"@) {
        "Image OCR pending implementation"@
    } else {
        utf8_lossy(bytes)
    }
}

/// The text stored for an upload of the given type.
pub fn extract_text_content(file_content: &[u8], file_type: &str) -> (r: String)
    ensures
        r@ == upload_text(file_content@, file_type@),
{
    if contains_str(file_type, "text") || contains_str(file_type, "plain") {
        lossy_text(file_content)
    } else if contains_str(file_type, "pdf") {
        to_owned_string("PDF content extraction pending implementation")
    } else if contains_str(file_type, "image") {
        to_owned_string("Image OCR pending implementation")
    } else {
        lossy_text(file_content)
    }
}

// ---------------------------------------------------------------------------
// Character windows
// ---------------------------------------------------------------------------

/// The windows `(start, end)` over `len` characters from `start` on: each
/// `size` long (the last may be shorter), each next one starting `overlap`
/// characters before the previous one ends. Where the overlap is not shorter
/// than a window, the windows would not advance: only the first is given.
pub open spec fn windows_from(start: nat, len: nat, size: nat, overlap: nat) -> Seq<(nat, nat)>
    decreases len - start,
{
    if start >= len {
        Seq::empty()
    } else {
        let end = if start + size < len {
            start + size
        } else {
            len
        };
        if end >= len || size <= overlap {
            seq![(start, end)]
        } else {
            seq![(start, end)] + windows_from((end - overlap) as nat, len, size, overlap)
        }
    }
}

/// The windows over `len` characters.
pub open spec fn char_windows(len: nat, size: nat, overlap: nat) -> Seq<(nat, nat)> {
    windows_from(0, len, size, overlap)
}

/// The chunks of a document: windows of its characters, numbered from zero,
/// each with a fresh id.
pub fn create_document_chunks(document_id: &str, content: &str, chunk_size: usize, chunk_overlap: usize) -> (r:
    Vec<RagChunk>)
    requires
        chunk_overlap < chunk_size || content@.len() <= chunk_size,
    ensures
        ({
            let w = char_windows(content@.len(), chunk_size as nat, chunk_overlap as nat);
            &&& r@.len() == w.len()
            &&& forall|k: int|
                0 <= k < r@.len() ==> {
                    &&& (#[trigger] r@[k]).document_id@ == document_id@
                    &&& r@[k].chunk_index == k as i32
                    &&& r@[k].content@ == content@.subrange(w[k].0 as int, w[k].1 as int)
                    &&& r@[k].start_char == w[k].0 as i32
                    &&& r@[k].end_char == w[k].1 as i32
                }
        }),
{
    let chars = chars_of(content);
    let n = chars.len();
    let ghost total = char_windows(n as nat, chunk_size as nat, chunk_overlap as nat);
    let mut r: Vec<RagChunk> = Vec::new();
    let mut start: usize = 0;
    while start < n
        invariant
            n == chars@.len(),
            chars@ == content@,
            chunk_overlap < chunk_size || n <= chunk_size,
            start <= n,
            r@.len() + windows_from(start as nat, n as nat, chunk_size as nat, chunk_overlap as nat).len()
                == total.len(),
            forall|j: int|
                0 <= j < windows_from(start as nat, n as nat, chunk_size as nat, chunk_overlap as nat).len()
                    ==> total[r@.len() + j] == #[trigger] windows_from(
                    start as nat,
                    n as nat,
                    chunk_size as nat,
                    chunk_overlap as nat,
                )[j],
            forall|k: int|
                0 <= k < r@.len() ==> {
                    &&& (#[trigger] r@[k]).document_id@ == document_id@
                    &&& r@[k].chunk_index == k as i32
                    &&& r@[k].content@ == content@.subrange(total[k].0 as int, total[k].1 as int)
                    &&& r@[k].start_char == total[k].0 as i32
                    &&& r@[k].end_char == total[k].1 as i32
                },
        decreases n - start,
    {
        let ghost rest = windows_from(start as nat, n as nat, chunk_size as nat, chunk_overlap as nat);
        let end: usize = if chunk_size < n - start {
            start + chunk_size
        } else {
            n
        };
        assert(rest[0] == (start as nat, end as nat));
        let mut piece: Vec<char> = Vec::new();
        let mut k: usize = start;
        while k < end
            invariant
                start <= k <= end <= n,
                n == chars@.len(),
                piece@ == chars@.subrange(start as int, k as int),
            decreases end - k,
        {
            piece.push(chars[k]);
            assert(chars@.subrange(start as int, k + 1) =~= chars@.subrange(start as int, k as int).push(
                chars@[k as int],
            ));
            k = k + 1;
        }
        let ghost before = r@;
        let chunk = RagChunk {
            id: new_uuid_v4(),
            document_id: to_owned_string(document_id),
            chunk_index: r.len() as i32,
            content: string_from_chars(piece.as_slice()),
            start_char: start as i32,
            end_char: end as i32,
        };
        r.push(chunk);
        assert(total[before.len() as int] == rest[0]) by {
            assert(total[before.len() as int + 0] == rest[0]);
        }
        let next: usize = if end >= n {
            n
        } else {
            end - chunk_overlap
        };
        proof {
            let later = windows_from(next as nat, n as nat, chunk_size as nat, chunk_overlap as nat);
            if end >= n {
                assert(rest =~= seq![(start as nat, end as nat)]);
                assert(later.len() == 0);
            } else {
                assert(rest =~= seq![(start as nat, end as nat)] + later);
                assert forall|j: int| 0 <= j < later.len() implies total[r@.len() + j] == #[trigger] later[j] by {
                    assert(rest[j + 1] == later[j]);
                    assert(total[before.len() as int + (j + 1)] == rest[j + 1]);
                }
            }
            assert forall|q: int| 0 <= q < r@.len() implies {
                &&& (#[trigger] r@[q]).document_id@ == document_id@
                &&& r@[q].chunk_index == q as i32
                &&& r@[q].content@ == content@.subrange(total[q].0 as int, total[q].1 as int)
                &&& r@[q].start_char == total[q].0 as i32
                &&& r@[q].end_char == total[q].1 as i32
            } by {
                if q < before.len() {
                    assert(r@[q] == before[q]);
                }
            }
        }
        start = next;
    }
    r
}

// ---------------------------------------------------------------------------
// Embedding states
// ---------------------------------------------------------------------------

/// The ids whose stored state satisfies `p` (documents that were not found,
/// with no state, are left out), in order.
pub open spec fn ids_where(
    entries: Seq<(String, Option<String>)>,
    p: spec_fn(Seq<char>) -> bool,
) -> Seq<Seq<char>>
    decreases entries.len(),
{
    if entries.len() == 0 {
        Seq::empty()
    } else {
        let prev = ids_where(entries.drop_last(), p);
        match entries.last().1 {
            Some(s) => if p(s@) {
                prev.push(entries.last().0@)
            } else {
                prev
            },
            None => prev,
        }
    }
}

/// A state that counts as pending: `pending`, or one that is not known.
pub open spec fn pending_state(s: Seq<char>) -> bool {
    s != "completed"@ && s != "processing"@ && s != "failed"@
}

/// Sorts the looked-up documents by the state of their embeddings: each entry
/// is a document id with its stored state, or `None` where the document was
/// not found (it is left out). Also returns the documents whose embedding
/// should be queued again: those pending by name and those that failed.
pub fn classify_documents(entries: &Vec<(String, Option<String>)>) -> (r: (
    DocumentValidationResult,
    Vec<String>,
))
    ensures
        string_views(r.0.ready_documents@) == ids_where(entries@, |s: Seq<char>| s == "completed"@),
        string_views(r.0.pending_documents@) == ids_where(entries@, |s: Seq<char>| pending_state(s)),
        string_views(r.0.processing_documents@) == ids_where(
            entries@,
            |s: Seq<char>| s == "processing"@,
        ),
        string_views(r.0.failed_documents@) == ids_where(entries@, |s: Seq<char>| s == "failed"@),
        string_views(r.1@) == ids_where(
            entries@,
            |s: Seq<char>| s == "pending"@ || s == "failed"@,
        ),
{
    let ghost pr = |s: Seq<char>| s == "completed"@;
    let ghost pp = |s: Seq<char>| pending_state(s);
    let ghost pc = |s: Seq<char>| s == "processing"@;
    let ghost pf = |s: Seq<char>| s == "failed"@;
    let ghost pq = |s: Seq<char>| s == "pending"@ || s == "failed"@;
    let mut ready: Vec<String> = Vec::new();
    let mut pending: Vec<String> = Vec::new();
    let mut processing: Vec<String> = Vec::new();
    let mut failed: Vec<String> = Vec::new();
    let mut requeue: Vec<String> = Vec::new();
    let mut i: usize = 0;
    while i < entries.len()
        invariant
            i <= entries.len(),
            pr == (|s: Seq<char>| s == "completed"@),
            pp == (|s: Seq<char>| pending_state(s)),
            pc == (|s: Seq<char>| s == "processing"@),
            pf == (|s: Seq<char>| s == "failed"@),
            pq == (|s: Seq<char>| s == "pending"@ || s == "failed"@),
            string_views(ready@) == ids_where(entries@.take(i as int), pr),
            string_views(pending@) == ids_where(entries@.take(i as int), pp),
            string_views(processing@) == ids_where(entries@.take(i as int), pc),
            string_views(failed@) == ids_where(entries@.take(i as int), pf),
            string_views(requeue@) == ids_where(entries@.take(i as int), pq),
        decreases entries.len() - i,
    {
        assert(entries@.take(i + 1).drop_last() =~= entries@.take(i as int));
        assert(entries@.take(i + 1).last() == entries@[i as int]);
        let id = &entries[i].0;
        let ghost r0 = string_views(ready@);
        let ghost p0 = string_views(pending@);
        let ghost c0 = string_views(processing@);
        let ghost f0 = string_views(failed@);
        let ghost q0 = string_views(requeue@);
        match &entries[i].1 {
            None => {},
            Some(status) => {
                let st = status.as_str();
                proof {
                    reveal_strlit("completed");
                    reveal_strlit("pending");
                    reveal_strlit("processing");
                    reveal_strlit("failed");
                    assert("completed"@.len() == 9);
                    assert("pending"@.len() == 7);
                    assert("processing"@.len() == 10);
                    assert("failed"@.len() == 6);
                }
                if str_eq(st, "completed") {
                    ready.push(to_owned_string(id.as_str()));
                    assert(string_views(ready@) =~= r0.push(id@));
                } else if str_eq(st, "processing") {
                    processing.push(to_owned_string(id.as_str()));
                    assert(string_views(processing@) =~= c0.push(id@));
                } else if str_eq(st, "failed") {
                    failed.push(to_owned_string(id.as_str()));
                    requeue.push(to_owned_string(id.as_str()));
                    assert(string_views(failed@) =~= f0.push(id@));
                    assert(string_views(requeue@) =~= q0.push(id@));
                } else {
                    pending.push(to_owned_string(id.as_str()));
                    assert(string_views(pending@) =~= p0.push(id@));
                    if str_eq(st, "pending") {
                        requeue.push(to_owned_string(id.as_str()));
                        assert(string_views(requeue@) =~= q0.push(id@));
                    }
                }
            },
        }
        i = i + 1;
    }
    assert(entries@.take(i as int) =~= entries@);
    (
        DocumentValidationResult {
            ready_documents: ready,
            pending_documents: pending,
            processing_documents: processing,
            failed_documents: failed,
        },
        requeue,
    )
}

/// The label shown for each document after the check before a search, in the
/// order they are entered into the answer (a later entry for the same id
/// replaces an earlier one): ready, queued, processing, queued again.
pub open spec fn readiness_entries(v: DocumentValidationResult) -> Seq<(Seq<char>, Seq<char>)> {
    string_views(v.ready_documents@).map_values(|id: Seq<char>| (id, "ready"@)) + string_views(
        v.pending_documents@,
    ).map_values(|id: Seq<char>| (id, "embedding_queued"@)) + string_views(
        v.processing_documents@,
    ).map_values(|id: Seq<char>| (id, "embedding_processing"@)) + string_views(
        v.failed_documents@,
    ).map_values(|id: Seq<char>| (id, "embedding_retry_queued"@))
}

/// The views of a list of id and label pairs.
pub open spec fn pair_views(v: Seq<(String, String)>) -> Seq<(Seq<char>, Seq<char>)> {
    v.map_values(|p: (String, String)| (p.0@, p.1@))
}

fn label_all(out: &mut Vec<(String, String)>, ids: &Vec<String>, label: &str)
    ensures
        pair_views(final(out)@) == pair_views(old(out)@) + string_views(ids@).map_values(
            |id: Seq<char>| (id, label@),
        ),
{
    let ghost start = pair_views(out@);
    let mut i: usize = 0;
    while i < ids.len()
        invariant
            i <= ids.len(),
            pair_views(out@) == start + string_views(ids@.take(i as int)).map_values(
                |id: Seq<char>| (id, label@),
            ),
        decreases ids.len() - i,
    {
        let ghost before = pair_views(out@);
        out.push((to_owned_string(ids[i].as_str()), to_owned_string(label)));
        assert(pair_views(out@) =~= before.push((ids@[i as int]@, label@)));
        assert(string_views(ids@.take(i + 1)).map_values(|id: Seq<char>| (id, label@)) =~= string_views(
            ids@.take(i as int),
        ).map_values(|id: Seq<char>| (id, label@)).push((ids@[i as int]@, label@)));
        i = i + 1;
    }
    assert(ids@.take(i as int) =~= ids@);
}

/// The label of each document after the check before a search.
pub fn readiness_labels(v: &DocumentValidationResult) -> (r: Vec<(String, String)>)
    ensures
        pair_views(r@) == readiness_entries(*v),
{
    let mut r: Vec<(String, String)> = Vec::new();
    label_all(&mut r, &v.ready_documents, "ready");
    label_all(&mut r, &v.pending_documents, "embedding_queued");
    label_all(&mut r, &v.processing_documents, "embedding_processing");
    label_all(&mut r, &v.failed_documents, "embedding_retry_queued");
    assert(pair_views(r@) =~= readiness_entries(*v));
    r
}

/// The stored embedding state of each looked-up document, `not_found` for one
/// that was not found.
pub fn embedding_status_entries(entries: &Vec<(String, Option<String>)>) -> (r: Vec<(String, String)>)
    ensures
        r@.len() == entries@.len(),
        forall|k: int|
            0 <= k < r@.len() ==> (#[trigger] r@[k]).0@ == entries@[k].0@ && r@[k].1@ == match entries@[k].1 {
                Some(s) => s@,
                None => "not_found"@,
            },
{
    let mut r: Vec<(String, String)> = Vec::new();
    let mut i: usize = 0;
    while i < entries.len()
        invariant
            i <= entries.len(),
            r@.len() == i,
            forall|k: int|
                0 <= k < i ==> (#[trigger] r@[k]).0@ == entries@[k].0@ && r@[k].1@ == match entries@[k].1 {
                    Some(s) => s@,
                    None => "not_found"@,
                },
        decreases entries.len() - i,
    {
        let status = match &entries[i].1 {
            Some(s) => to_owned_string(s.as_str()),
            None => to_owned_string("not_found"),
        };
        r.push((to_owned_string(entries[i].0.as_str()), status));
        i = i + 1;
    }
    r
}

/// The windows over a text tile it from its first character to its last: the
/// first starts at zero, the last ends at the end, each but the last is full,
/// and each next one starts `overlap` characters before the previous one ends.
pub proof fn law_windows_tile(start: nat, len: nat, size: nat, overlap: nat)
    requires
        overlap < size || len - start <= size,
        start < len,
    ensures
        ({
            let w = windows_from(start, len, size, overlap);
            &&& w.len() > 0
            &&& w[0].0 == start
            &&& w.last().1 == len
            &&& forall|k: int| 0 <= k < w.len() ==> (#[trigger] w[k]).0 < w[k].1 <= len && w[k].1 - w[k].0 <= size
            &&& forall|k: int|
                0 <= k < w.len() - 1 ==> (#[trigger] w[k]).1 - w[k].0 == size && w[k + 1].0 == w[k].1
                    - overlap
        }),
    decreases len - start,
{
    let end = if start + size < len {
        start + size
    } else {
        len
    };
    let w = windows_from(start, len, size, overlap);
    if end < len {
        let next = (end - overlap) as nat;
        law_windows_tile(next, len, size, overlap);
        let rest = windows_from(next, len, size, overlap);
        assert(w =~= seq![(start, end)] + rest);
        assert forall|k: int| 0 <= k < w.len() implies (#[trigger] w[k]).0 < w[k].1 <= len && w[k].1 - w[k].0
            <= size by {
            if k > 0 {
                assert(w[k] == rest[k - 1]);
            }
        }
        assert forall|k: int| 0 <= k < w.len() - 1 implies (#[trigger] w[k]).1 - w[k].0 == size && w[k
            + 1].0 == w[k].1 - overlap by {
            if k > 0 {
                assert(w[k] == rest[k - 1]);
                assert(w[k + 1] == rest[k]);
            }
        }
    }
}

// ---------------------------------------------------------------------------
// Content hashes
// ---------------------------------------------------------------------------

/// The SHA-256 digest of some bytes.
pub uninterp spec fn sha256(bytes: Seq<u8>) -> Seq<u8>;

/// SHA-256 over `a` followed by `b` (`Sha256::new`, `update` with each,
/// `finalize`): the 32-byte digest of the two concatenated.
#[verifier::external_body]
fn sha256_of_parts(a: &[u8], b: &[u8]) -> (r: Vec<u8>)
    ensures
        r@ == sha256(a@ + b@),
        r@.len() == 32,
{
    let mut h = sha2::Sha256::new();
    h.update(a);
    h.update(b);
    h.finalize().to_vec()
}

/// The lower-case hexadecimal digit for `d < 16`.
pub open spec fn hex_digit(d: int) -> char {
    if d < 10 {
        ((d + 48) as u32) as char
    } else {
        ((d + 87) as u32) as char
    }
}

/// Bytes in lower-case hexadecimal, two digits each (what `{:x}` prints for a digest).
pub open spec fn hex_lower(b: Seq<u8>) -> Seq<char>
    decreases b.len(),
{
    if b.len() == 0 {
        Seq::empty()
    } else {
        hex_lower(b.drop_last()) + seq![hex_digit((b.last() / 16) as int), hex_digit((b.last() % 16) as int)]
    }
}

fn hex_char(d: u8) -> (c: char)
    requires
        d < 16,
    ensures
        c == hex_digit(d as int),
{
    if d < 10 {
        (d + 48) as char
    } else {
        (d + 87) as char
    }
}

/// The hash that identifies an upload: SHA-256 over its bytes followed by the
/// bytes of its file name, in lower-case hexadecimal.
pub fn content_hash(file_content: &[u8], file_name: &str) -> (r: String)
    ensures
        r@ == hex_lower(sha256(file_content@ + encode_utf8(file_name@))),
{
    let digest = sha256_of_parts(file_content, file_name.as_bytes());
    let mut r = String::new();
    let mut i: usize = 0;
    while i < digest.len()
        invariant
            i <= digest.len(),
            r@ == hex_lower(digest@.take(i as int)),
        decreases digest.len() - i,
    {
        let b = digest[i];
        assert(digest@.take(i + 1).drop_last() =~= digest@.take(i as int));
        assert(digest@.take(i + 1).last() == b);
        push_char(&mut r, hex_char(b / 16));
        push_char(&mut r, hex_char(b % 16));
        assert(r@ =~= hex_lower(digest@.take(i + 1)));
        i = i + 1;
    }
    assert(digest@.take(i as int) =~= digest@);
    r
}

/// The text kept for a document upload: text types read as UTF-8 (invalid
/// sequences replaced), PDFs through `read_pdf`, images not read yet, and
/// anything else read as text; then cleaned.
pub fn document_text_for_upload<R: Fn(&[u8]) -> Result<String, String>>(
    file_content: &[u8],
    file_type: &str,
    read_pdf: &R,
) -> (r: Result<String, String>)
    requires
        forall|b: &[u8]| #[trigger] call_requires(*read_pdf, (b,)),
    ensures
        (has_substring(file_type@, "text"@) || has_substring(file_type@, "plain"@)) ==> (r matches Ok(
            s,
        ) && s@ == crate::chunking::clean_text_spec(utf8_lossy(file_content@))),
        !(has_substring(file_type@, "text"@) || has_substring(file_type@, "plain"@))
            && has_substring(file_type@, "pdf"@) ==> exists|p: Result<String, String>|
            crate::files::pdf_reading(*read_pdf, file_content@, p) && match p {
                Ok(t) => r matches Ok(s) && s@ == crate::chunking::clean_text_spec(t@),
                Err(e) => r matches Err(m) && m@ == "PDF extraction failed: "@ + e@,
            },
        !(has_substring(file_type@, "text"@) || has_substring(file_type@, "plain"@))
            && !has_substring(file_type@, "pdf"@) && has_substring(file_type@, "image"@) ==> (r matches Ok(
            s,
        ) && s@ == crate::chunking::clean_text_spec("Image OCR not yet implemented"@)),
        !(has_substring(file_type@, "text"@) || has_substring(file_type@, "plain"@))
            && !has_substring(file_type@, "pdf"@) && !has_substring(file_type@, "image"@) ==> (r matches Ok(
            s,
        ) && s@ == crate::chunking::clean_text_spec(utf8_lossy(file_content@))),
{
    let raw = if contains_str(file_type, "text") || contains_str(file_type, "plain") {
        lossy_text(file_content)
    } else if contains_str(file_type, "pdf") {
        crate::chunking::extract_text_from_pdf(file_content, read_pdf)?
    } else if contains_str(file_type, "image") {
        to_owned_string("Image OCR not yet implemented")
    } else {
        lossy_text(file_content)
    };
    Ok(crate::chunking::clean_text(raw.as_str()))
}


// ---------------------------------------------------------------------------
// Text search over stored chunks
// ---------------------------------------------------------------------------

/// The chunk search over every document: chunks whose content matches the
/// pattern `?1`, in chunk order, at most ten.
pub const CHUNK_SEARCH_ALL_SQL: &'static str = "SELECT id, document_id, chunk_index, content, start_char, end_char, embedding, metadata\n             FROM document_chunks\n             WHERE content LIKE ?1\n             ORDER BY chunk_index\n             LIMIT 10";

/// The chunk search limited to some documents, up to the list of their ids.
pub const CHUNK_SEARCH_IN_HEAD: &'static str = "SELECT id, document_id, chunk_index, content, start_char, end_char, embedding, metadata\n                 FROM document_chunks\n                 WHERE content LIKE ?1 AND document_id IN (";

/// The rest of the chunk search limited to some documents.
pub const CHUNK_SEARCH_IN_TAIL: &'static str = ")\n                 ORDER BY chunk_index\n                 LIMIT 10";

/// The parameters `?2`, `?3`, ... that stand for `n` document ids.
pub open spec fn id_placeholders(n: nat) -> Seq<Seq<char>> {
    Seq::new(n, |i: int| seq!['?'] + decimal((i + 2) as nat))
}

/// The chunk search for `n` document ids: over every document where there
/// are none, else over those whose id is one of the parameters after the
/// pattern.
pub open spec fn chunk_search_sql_text(n: nat) -> Seq<char> {
    if n == 0 {
        CHUNK_SEARCH_ALL_SQL@
    } else {
        CHUNK_SEARCH_IN_HEAD@ + join(id_placeholders(n), ", "@) + CHUNK_SEARCH_IN_TAIL@
    }
}

/// The statement that searches the chunks of `id_count` documents (of every
/// document where it is zero).
pub fn chunk_search_sql(id_count: usize) -> (r: String)
    requires
        id_count < usize::MAX,
    ensures
        r@ == chunk_search_sql_text(id_count as nat),
{
    if id_count == 0 {
        return to_owned_string(CHUNK_SEARCH_ALL_SQL);
    }
    proof {
        reveal_strlit("?");
        reveal_strlit(", ");
    }
    let mut pieces: Vec<Vec<char>> = Vec::new();
    let mut i: usize = 0;
    while i < id_count
        invariant
            i <= id_count < usize::MAX,
            pieces@.len() == i,
            forall|j: int| 0 <= j < i ==> (#[trigger] pieces@[j])@ == seq!['?'] + decimal((j + 2) as nat),
        decreases id_count - i,
    {
        proof {
            reveal_strlit("?");
        }
        let number = u64_to_decimal((i as u64) + 2);
        let mut p = to_owned_string("?");
        push_str(&mut p, number.as_str());
        assert(p@ =~= seq!['?'] + decimal((i + 2) as nat));
        pieces.push(chars_of(p.as_str()));
        i = i + 1;
    }
    assert(pieces@.map_values(|w: Vec<char>| w@) =~= id_placeholders(id_count as nat));
    let sep: Vec<char> = vec![',', ' '];
    assert(sep@ =~= ", "@);
    let list = join_chars(&pieces, sep.as_slice());
    let mut r = to_owned_string(CHUNK_SEARCH_IN_HEAD);
    let listed = string_from_chars(list.as_slice());
    push_str(&mut r, listed.as_str());
    push_str(&mut r, CHUNK_SEARCH_IN_TAIL);
    r
}

/// The `LIKE` pattern that matches a text containing `query`.
pub fn like_pattern(query: &str) -> (r: String)
    ensures
        r@ == "%"@ + query@ + "%"@,
{
    let mut r = to_owned_string("%");
    push_str(&mut r, query);
    push_str(&mut r, "%");
    r
}

} // verus!
