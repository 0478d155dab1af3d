use enteract::chunking::{clean_text, extract_text_from_docx, ChunkingConfig, ChunkingService};

#[test]
fn test_chunking_service_creation() {
    let service = ChunkingService::new(None);
    assert!(service.is_ok());
}

#[test]
fn test_sentence_splitting() {
    let service = ChunkingService::new(None).unwrap();
    let text = "This is sentence one. This is sentence two! Is this sentence three?";
    let sentences = service.split_sentences(text);

    assert_eq!(sentences.len(), 3);
    assert!(sentences[0].contains("sentence one"));
    assert!(sentences[1].contains("sentence two"));
    assert!(sentences[2].contains("sentence three"));
}

#[test]
fn test_text_cleaning() {
    let dirty_text = "  This   is  \n\n messy    text.  \t\n  ";
    let clean = clean_text(dirty_text);
    assert_eq!(clean, "This is messy text.");
}

#[test]
fn test_token_counting() {
    let service = ChunkingService::new(None).unwrap();
    let text = "Hello world";
    let count = service.count_tokens(text).unwrap();
    assert!(count > 0);
}

#[test]
fn default_chunking_config_values() {
    let c = ChunkingConfig::default();
    assert_eq!(c.chunk_size, 512);
    assert_eq!(c.chunk_overlap, 64);
    assert_eq!(c.max_chunk_size, 800);
    assert_eq!(c.min_chunk_size, 100);
    assert!(c.respect_sentence_boundaries);
    assert!(c.respect_paragraph_boundaries);
}

#[test]
fn hello_world_is_two_tokens() {
    let service = ChunkingService::new(None).unwrap();
    assert_eq!(service.count_tokens("Hello world").unwrap(), 2);
    assert_eq!(service.count_tokens("").unwrap(), 0);
}

#[test]
fn short_sentences_are_dropped() {
    let service = ChunkingService::new(None).unwrap();
    let sentences = service.split_sentences("Hi. Ok! This one is long enough.");
    assert_eq!(sentences, vec!["This one is long enough.".to_string()]);
}

#[test]
fn clean_text_is_idempotent_on_example() {
    let once = clean_text("a \t b\n\nc");
    assert_eq!(once, "a b c");
    assert_eq!(clean_text(&once), once);
}

#[test]
fn docx_is_not_read() {
    assert_eq!(
        extract_text_from_docx(b"PK\x03\x04").unwrap(),
        "DOCX text extraction not yet implemented"
    );
}

#[test]
fn chunks_are_numbered_and_cover_text() {
    let service = ChunkingService::new(None).unwrap();
    let text = "First paragraph is here and it is long.\n\nSecond paragraph follows it closely.";
    let chunks = service.chunk_text(text).unwrap();
    assert!(!chunks.is_empty());
    for (i, c) in chunks.iter().enumerate() {
        assert_eq!(c.chunk_index, i);
        assert!(c.token_count > 0);
    }
}

#[test]
fn clean_text_twice_is_once() {
    for t in ["  Caf\u{e9} \u{1F600} ok!\n\n  next\tline ", "", "\u{2022}\u{2022} a", "x  \u{3000} y"] {
        let once = clean_text(t);
        assert_eq!(clean_text(&once), once);
    }
}

#[test]
fn large_overlap_on_short_and_long_texts() {
    let cfg = ChunkingConfig {
        chunk_size: 4,
        chunk_overlap: 4,
        max_chunk_size: 8,
        min_chunk_size: 1,
        respect_sentence_boundaries: false,
        respect_paragraph_boundaries: false,
    };
    let service = ChunkingService::new(Some(cfg)).unwrap();
    let short = service.chunk_text_checked("hello world").unwrap().unwrap();
    assert_eq!(short.len(), 1);
    assert_eq!(short[0].content, "hello world");
    assert_eq!(service.chunk_text("hello world").unwrap().len(), 1);
    assert!(service.chunk_text_checked("one two three four five six seven eight nine ten").is_none());
}
