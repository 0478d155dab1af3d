use enteract::rag::{chunk_search_sql, like_pattern, CHUNK_SEARCH_ALL_SQL};
use enteract::rag::{classify_documents, content_hash, document_text_for_upload, create_document_chunks, embedding_status_entries, extract_text_content, readiness_labels};

#[test]
fn text_of_uploads() {
    assert_eq!(extract_text_content(b"abc", "text/plain"), "abc");
    assert_eq!(extract_text_content(&[b'a', 0xff], "text/csv"), "a\u{fffd}");
    assert_eq!(extract_text_content(b"%PDF", "application/pdf"), "PDF content extraction pending implementation");
    assert_eq!(extract_text_content(b"..", "image/png"), "Image OCR pending implementation");
    assert_eq!(extract_text_content(b"raw", "application/octet-stream"), "raw");
}

#[test]
fn windows_overlap() {
    let chunks = create_document_chunks("d", "abcdefghij", 4, 1);
    let spans: Vec<(i32, i32)> = chunks.iter().map(|c| (c.start_char, c.end_char)).collect();
    assert_eq!(spans, vec![(0, 4), (3, 7), (6, 10)]);
    assert_eq!(chunks[1].content, "defg");
    assert_eq!(chunks[2].chunk_index, 2);
    assert!(chunks.iter().all(|c| c.document_id == "d"));
    assert!(create_document_chunks("d", "", 4, 1).is_empty());
    let one = create_document_chunks("d", "h\u{e9}llo", 512, 50);
    assert_eq!(one.len(), 1);
    assert_eq!(one[0].content, "h\u{e9}llo");
    assert_eq!(one[0].end_char, 5);
}

fn e(id: &str, s: Option<&str>) -> (String, Option<String>) {
    (id.to_string(), s.map(|x| x.to_string()))
}

#[test]
fn documents_sorted_by_state() {
    let entries = vec![
        e("a", Some("completed")),
        e("b", Some("pending")),
        e("c", None),
        e("d", Some("processing")),
        e("f", Some("failed")),
        e("g", Some("weird")),
    ];
    let (v, requeue) = classify_documents(&entries);
    assert_eq!(v.ready_documents, vec!["a".to_string()]);
    assert_eq!(v.pending_documents, vec!["b".to_string(), "g".to_string()]);
    assert_eq!(v.processing_documents, vec!["d".to_string()]);
    assert_eq!(v.failed_documents, vec!["f".to_string()]);
    assert_eq!(requeue, vec!["b".to_string(), "f".to_string()]);
    let labels = readiness_labels(&v);
    assert_eq!(labels[0], ("a".to_string(), "ready".to_string()));
    assert_eq!(labels[1], ("b".to_string(), "embedding_queued".to_string()));
    assert_eq!(labels[3], ("d".to_string(), "embedding_processing".to_string()));
    assert_eq!(labels[4], ("f".to_string(), "embedding_retry_queued".to_string()));
    let st = embedding_status_entries(&entries);
    assert_eq!(st[2], ("c".to_string(), "not_found".to_string()));
    assert_eq!(st[0].1, "completed");
}

#[test]
fn content_hash_is_sha256_hex() {
    // SHA-256 of "abc" followed by an empty file name.
    assert_eq!(
        content_hash(b"abc", ""),
        "ba7816bf8f01cfea414140de5dae2223b00361a396177a9cb410ff61f20015ad"
    );
    assert_eq!(content_hash(b"ab", "c"), content_hash(b"abc", ""));
    assert_ne!(content_hash(b"abc", "x"), content_hash(b"abc", ""));
}

#[test]
fn upload_text_is_cleaned() {
    assert_eq!(document_text_for_upload(b"  a \n\n b  ", "text/plain", &read_pdf).unwrap(), "a b");
    assert_eq!(document_text_for_upload(b"..", "image/png", &read_pdf).unwrap(), "Image OCR not yet implemented");
    assert!(document_text_for_upload(b"garbage", "application/pdf", &read_pdf).unwrap_err().starts_with("PDF extraction failed: "));
}

#[test]
fn chunk_search_statements() {
    let all = chunk_search_sql(0);
    assert_eq!(all, CHUNK_SEARCH_ALL_SQL);
    assert!(all.contains("WHERE content LIKE ?1\n"));
    let three = chunk_search_sql(3);
    assert!(three.contains("WHERE content LIKE ?1 AND document_id IN (?2, ?3, ?4)\n"));
    assert!(three.ends_with("LIMIT 10"));
    let eleven = chunk_search_sql(11);
    assert!(eleven.contains("(?2, ?3, ?4, ?5, ?6, ?7, ?8, ?9, ?10, ?11, ?12)"));
    assert_eq!(like_pattern("rust"), "%rust%");
    assert_eq!(like_pattern(""), "%%");
}

fn read_pdf(bytes: &[u8]) -> Result<String, String> {
    pdf_extract::extract_text_from_mem(bytes).map_err(|e| e.to_string())
}

#[test]
fn chunks_with_overlap_of_a_whole_window() {
    let one = create_document_chunks("d", "abc", 4, 4);
    assert_eq!(one.len(), 1);
    assert_eq!(one[0].content, "abc");
    assert_eq!((one[0].start_char, one[0].end_char), (0, 3));
}
