use picker::preview::{
    choose_preview, classify_preview, preview_for_read, CachedPreview, Document, DocumentId,
    PathOrId, Preview, PreviewCache, PreviewClass, MAX_FILE_SIZE_FOR_PREVIEW,
};

#[test]
fn oversized_files_yield_the_oversized_marker_regardless_of_content() {
    let texts: [&[u8]; 3] = [b"fn main() {}", b"", b"just some prose"];
    for prefix in texts {
        let class = classify_preview(MAX_FILE_SIZE_FOR_PREVIEW + 1, prefix);
        assert!(matches!(class, PreviewClass::TooLarge));
        let entry = preview_for_read(MAX_FILE_SIZE_FOR_PREVIEW + 1, prefix, None);
        assert!(matches!(entry, CachedPreview::LargeFile));
    }
}

#[test]
fn nul_byte_in_prefix_yields_the_binary_marker() {
    let with_nul: &[u8] = b"ELF\x00more bytes";
    assert!(matches!(classify_preview(10, with_nul), PreviewClass::Binary));
    // Binary beats oversized.
    assert!(matches!(
        classify_preview(MAX_FILE_SIZE_FOR_PREVIEW + 1, with_nul),
        PreviewClass::Binary
    ));
    let entry = preview_for_read(10, with_nul, None);
    assert!(matches!(entry, CachedPreview::Binary));
}

#[test]
fn small_text_files_become_documents() {
    let prefix: &[u8] = b"hello";
    assert!(matches!(classify_preview(5, prefix), PreviewClass::Text));
    let doc = Document::new("hello".to_string());
    let entry = preview_for_read(5, prefix, Some(doc));
    match entry {
        CachedPreview::Document(d) => assert_eq!(d.text, "hello"),
        _ => panic!("expected a document entry"),
    }
    // A failed parse degrades to the not-found marker.
    let entry = preview_for_read(5, prefix, None);
    assert!(matches!(entry, CachedPreview::NotFound));
}

#[test]
fn placeholders_name_each_outcome() {
    let binary = CachedPreview::Binary;
    let large = CachedPreview::LargeFile;
    let missing = CachedPreview::NotFound;
    assert_eq!(Preview::Cached(&binary).placeholder(), "<Binary file>");
    assert_eq!(Preview::Cached(&large).placeholder(), "<File too large to preview>");
    assert_eq!(Preview::Cached(&missing).placeholder(), "<File not found>");
    let doc = Document::new("text".to_string());
    assert_eq!(
        Preview::EditorDocument(&doc).placeholder(),
        "<Invalid file location>"
    );
}

#[test]
fn preview_document_is_returned_only_for_documents() {
    let doc_entry = CachedPreview::Document(Box::new(Document::new("body".to_string())));
    let preview = Preview::Cached(&doc_entry);
    assert_eq!(preview.document().map(|d| d.text.as_str()), Some("body"));
    let binary = CachedPreview::Binary;
    assert!(Preview::Cached(&binary).document().is_none());
    let open_doc = Document::new("open".to_string());
    let preview = Preview::EditorDocument(&open_doc);
    assert_eq!(preview.document().map(|d| d.text.as_str()), Some("open"));
}

#[test]
fn cache_memoizes_by_path() {
    let mut cache = PreviewCache::new();
    assert!(cache.get("/a").is_none());
    cache.insert("/a".to_string(), CachedPreview::Binary);
    cache.insert("/b".to_string(), CachedPreview::NotFound);
    assert!(matches!(cache.get("/a"), Some(CachedPreview::Binary)));
    assert!(matches!(cache.get("/b"), Some(CachedPreview::NotFound)));
    assert!(cache.get("/c").is_none());
}

#[test]
fn mark_highlighted_touches_only_cached_documents() {
    let mut cache = PreviewCache::new();
    cache.insert(
        "/doc".to_string(),
        CachedPreview::Document(Box::new(Document::new("text".to_string()))),
    );
    cache.insert("/bin".to_string(), CachedPreview::Binary);
    assert!(cache.mark_highlighted("/doc"));
    match cache.get("/doc") {
        Some(CachedPreview::Document(d)) => assert!(d.highlighted),
        _ => panic!("expected the cached document"),
    }
    // A stale completion against a non-document or missing entry is a no-op.
    assert!(!cache.mark_highlighted("/bin"));
    assert!(!cache.mark_highlighted("/missing"));
    assert!(matches!(cache.get("/bin"), Some(CachedPreview::Binary)));
}

#[test]
fn documents_track_language_and_highlight_state() {
    let mut doc = Document::new("fn f() {}".to_string());
    assert!(doc.needs_highlight());
    doc.set_language("rust".to_string());
    assert!(!doc.needs_highlight());
    assert_eq!(doc.language.as_deref(), Some("rust"));
}

#[test]
fn path_or_id_conversions() {
    let by_path = PathOrId::from("/x".to_string());
    assert!(matches!(by_path, PathOrId::Path(p) if p == "/x"));
    let by_id = PathOrId::from(DocumentId { id: 7 });
    assert!(matches!(by_id, PathOrId::Id(DocumentId { id: 7 })));
}

#[test]
fn line_count_is_newlines_plus_one() {
    assert_eq!(Document::new("".to_string()).line_count(), 1);
    assert_eq!(Document::new("one".to_string()).line_count(), 1);
    assert_eq!(Document::new("a\nb\nc".to_string()).line_count(), 3);
    assert_eq!(Document::new("trailing\n".to_string()).line_count(), 2);
}

#[test]
fn open_host_document_beats_the_cache() {
    let open = Document::new("open in the editor".to_string());
    let cached = CachedPreview::Document(Box::new(Document::new("stale copy".to_string())));
    // An open document is authoritative, whatever the cache holds.
    let preview = choose_preview(Some(&open), Some(&cached)).expect("a preview");
    assert_eq!(preview.document().map(|d| d.text.as_str()), Some("open in the editor"));
    // Without one, the cache answers.
    let preview = choose_preview(None, Some(&cached)).expect("a preview");
    assert_eq!(preview.document().map(|d| d.text.as_str()), Some("stale copy"));
    // With neither there is nothing to show.
    assert!(choose_preview(None, None).is_none());
}
