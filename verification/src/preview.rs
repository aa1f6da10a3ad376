//! The preview pane's loader support: content classification of freshly
//! read files and a per-picker cache of the outcome.
//!
//! A previewed file is classified from its size and its first KiB: binary
//! content beats the size limit, which beats parsing the file into a
//! document; every failure degrades to a not-found marker, never an error.
//! Entries are memoized by canonical path for the picker's lifetime.
use vstd::prelude::*;
use vstd::string::*;
use crate::query::str_eq;

verus! {

/// Biggest file size to preview, in bytes.
pub const MAX_FILE_SIZE_FOR_PREVIEW: u64 = 10 * 1024 * 1024;

/// How many leading bytes of a file are sniffed to classify its content.
pub const CONTENT_SNIFF_LEN: usize = 1024;

/// Identifier of a document already open in the host editor.
#[derive(Clone, Copy, PartialEq, Eq, Structural, Debug, Hash)]
pub struct DocumentId {
    pub id: usize,
}

/// What a preview target is named by: a document open in the host, or a
/// canonical file-system path.
#[derive(PartialEq, Eq, Hash)]
pub enum PathOrId {
    Id(DocumentId),
    Path(String),
}

impl From<String> for PathOrId {
    fn from(v: String) -> (r: Self) {
        PathOrId::Path(v)
    }
}

impl vstd::std_specs::convert::FromSpecImpl<String> for PathOrId {
    open spec fn obeys_from_spec() -> bool {
        true
    }

    open spec fn from_spec(v: String) -> Self {
        PathOrId::Path(v)
    }
}

impl From<DocumentId> for PathOrId {
    fn from(v: DocumentId) -> (r: Self) {
        PathOrId::Id(v)
    }
}

impl vstd::std_specs::convert::FromSpecImpl<DocumentId> for PathOrId {
    open spec fn obeys_from_spec() -> bool {
        true
    }

    open spec fn from_spec(v: DocumentId) -> Self {
        PathOrId::Id(v)
    }
}

/// The readable state of a previewed document.
pub ghost struct DocView {
    pub text: Seq<char>,
    pub language: Option<Seq<char>>,
    pub highlighted: bool,
}

/// A read-only document loaded for previewing: its text, the language the
/// host detected for it, and whether background highlighting has finished.
pub struct Document {
    pub text: String,
    pub language: Option<String>,
    pub highlighted: bool,
}

impl View for Document {
    type V = DocView;

    open spec fn view(&self) -> DocView {
        DocView { text: self.text@, language: self.language.deep_view(), highlighted: self.highlighted }
    }
}

impl Document {
    /// A freshly parsed document: no language detected, not highlighted.
    pub fn new(text: String) -> (d: Document)
        ensures
            d@ == (DocView { text: text@, language: None, highlighted: false }),
    {
        Document { text, language: None, highlighted: false }
    }

    /// Whether background syntax highlighting still has work to do here:
    /// the host has not yet detected a language for this document.
    pub fn needs_highlight(&self) -> (r: bool)
        ensures
            r == (self@.language is None),
    {
        self.language.is_none()
    }

    /// Records the language the host detected.
    pub fn set_language(&mut self, language: String)
        ensures
            final(self)@ == (DocView { language: Some(language@), ..old(self)@ }),
    {
        self.language = Some(language);
    }

    /// How many lines the document has: one more than its newlines (the
    /// bound a requested preview line range is checked against).
    pub fn line_count(&self) -> (r: usize)
        requires
            self.text@.len() < usize::MAX,
        ensures
            r == spec_newline_count(self.text@) + 1,
    {
        let s = self.text.as_str();
        let n = s.unicode_len();
        let mut count: usize = 0;
        let mut i: usize = 0;
        proof {
            assert(s@.take(0) =~= Seq::<char>::empty());
        }
        while i < n
            invariant
                i <= n,
                n == s@.len(),
                s@ == self.text@,
                n < usize::MAX,
                count == spec_newline_count(s@.take(i as int)),
                count <= i,
            decreases n - i,
        {
            proof {
                assert(s@.take(i + 1).drop_last() =~= s@.take(i as int));
                assert(s@.take(i + 1).last() == s@[i as int]);
            }
            if s.get_char(i) == '\n' {
                count += 1;
            }
            i += 1;
        }
        proof {
            assert(s@.take(n as int) =~= s@);
        }
        count + 1
    }
}

/// Number of newline characters in `s`.
pub open spec fn spec_newline_count(s: Seq<char>) -> nat
    decreases s.len(),
{
    if s.len() == 0 {
        0
    } else {
        spec_newline_count(s.drop_last()) + if s.last() == '\n' {
            1nat
        } else {
            0nat
        }
    }
}

/// A cached preview outcome for one path.
pub enum CachedPreview {
    Document(Box<Document>),
    Binary,
    LargeFile,
    NotFound,
}

/// The preview handed to the renderer: a cache entry, or a document that is
/// already open in the host editor (which always wins over the cache).
pub enum Preview<'picker, 'editor> {
    Cached(&'picker CachedPreview),
    EditorDocument(&'editor Document),
}

impl Preview<'_, '_> {
    /// The renderable document behind this preview, if one exists.
    pub open spec fn spec_document(&self) -> Option<Document> {
        match *self {
            Preview::EditorDocument(d) => Some(*d),
            Preview::Cached(c) => match *c {
                CachedPreview::Document(d) => Some(*d),
                _ => None,
            },
        }
    }

    /// The document to render, if this preview holds one.
    pub fn document(&self) -> (r: Option<&Document>)
        ensures
            match r {
                Some(d) => self.spec_document() == Some(*d),
                None => self.spec_document() is None,
            },
    {
        match self {
            Preview::EditorDocument(doc) => Some(doc),
            Preview::Cached(CachedPreview::Document(doc)) => Some(&**doc),
            _ => None,
        }
    }

    /// The text shown in place of file content.
    pub open spec fn spec_placeholder(&self) -> Seq<char> {
        match *self {
            Preview::EditorDocument(_) => "<Invalid file location>"@,
            Preview::Cached(c) => match *c {
                CachedPreview::Document(_) => "<Invalid file location>"@,
                CachedPreview::Binary => "<Binary file>"@,
                CachedPreview::LargeFile => "<File too large to preview>"@,
                CachedPreview::NotFound => "<File not found>"@,
            },
        }
    }

    /// Alternate text to show for the preview when no document can be
    /// rendered (or the location into one is invalid).
    pub fn placeholder(&self) -> (r: &str)
        ensures
            r@ == self.spec_placeholder(),
    {
        match *self {
            Preview::EditorDocument(_) => "<Invalid file location>",
            Preview::Cached(preview) => match preview {
                CachedPreview::Document(_) => "<Invalid file location>",
                CachedPreview::Binary => "<Binary file>",
                CachedPreview::LargeFile => "<File too large to preview>",
                CachedPreview::NotFound => "<File not found>",
            },
        }
    }
}

/// Chooses what the preview pane shows for a target: a document already
/// open in the host editor is authoritative and bypasses the cache
/// entirely; failing that, the memoized cache entry; nothing otherwise.
pub fn choose_preview<'picker, 'editor>(
    open: Option<&'editor Document>,
    cached: Option<&'picker CachedPreview>,
) -> (r: Option<Preview<'picker, 'editor>>)
    ensures
        match open {
            Some(d) => r == Some(Preview::<'picker, 'editor>::EditorDocument(d)),
            None => match cached {
                Some(c) => r == Some(Preview::<'picker, 'editor>::Cached(c)),
                None => r is None,
            },
        },
{
    match open {
        Some(doc) => Some(Preview::EditorDocument(doc)),
        None => match cached {
            Some(entry) => Some(Preview::Cached(entry)),
            None => None,
        },
    }
}

/// True of a byte sequence that starts with `p`.
pub open spec fn starts_with_bytes(b: Seq<u8>, p: Seq<u8>) -> bool {
    p.len() <= b.len() && b.take(p.len() as int) == p
}

/// A known byte-order mark opens the buffer, marking it as encoded text.
pub open spec fn spec_has_bom(b: Seq<u8>) -> bool {
    ||| starts_with_bytes(b, seq![0xefu8, 0xbbu8, 0xbfu8])
    ||| starts_with_bytes(b, seq![0x00u8, 0x00u8, 0xfeu8, 0xffu8])
    ||| starts_with_bytes(b, seq![0xffu8, 0xfeu8, 0x00u8, 0x00u8])
    ||| starts_with_bytes(b, seq![0xfeu8, 0xffu8])
    ||| starts_with_bytes(b, seq![0xffu8, 0xfeu8])
}

/// A NUL byte somewhere in the first KiB of the buffer.
pub open spec fn spec_has_nul_prefix(b: Seq<u8>) -> bool {
    exists|i: int| 0 <= i < b.len() && i < 1024 && b[i] == 0u8
}

/// A magic number of a file type that would otherwise look like text.
pub open spec fn spec_has_magic(b: Seq<u8>) -> bool {
    ||| starts_with_bytes(b, seq![0x25u8, 0x50u8, 0x44u8, 0x46u8])
    ||| starts_with_bytes(b, seq![0x89u8, 0x50u8, 0x4eu8, 0x47u8])
}

/// What the content sniffer reports as binary: no byte-order mark, and
/// either a NUL byte in the first KiB or a known binary magic number.
pub open spec fn spec_is_binary(b: Seq<u8>) -> bool {
    !spec_has_bom(b) && (spec_has_nul_prefix(b) || spec_has_magic(b))
}

/// Relies on `content_inspector::inspect`: a buffer is reported `BINARY`
/// exactly when it carries no known byte-order mark and either holds a NUL
/// byte within its first 1024 bytes or starts with a PDF or PNG magic
/// number; every other outcome is a text encoding.
#[verifier::external_body]
fn inspect_is_binary(bytes: &[u8]) -> (r: bool)
    ensures
        r == spec_is_binary(bytes@),
{
    matches!(content_inspector::inspect(bytes), content_inspector::ContentType::BINARY)
}

/// How a freshly read file is to be previewed.
pub enum PreviewClass {
    /// The sniffed prefix looks binary; shown as a marker, never parsed.
    Binary,
    /// Not binary, but over the preview size limit.
    TooLarge,
    /// Worth parsing into a document.
    Text,
}

/// Classifies a file from its total size and its sniffed prefix. Binary
/// content takes precedence over the size limit, which takes precedence
/// over parsing.
pub fn classify_preview(size: u64, prefix: &[u8]) -> (r: PreviewClass)
    ensures
        r is Binary <==> spec_is_binary(prefix@),
        r is TooLarge <==> !spec_is_binary(prefix@) && size > MAX_FILE_SIZE_FOR_PREVIEW,
        r is Text <==> !spec_is_binary(prefix@) && size <= MAX_FILE_SIZE_FOR_PREVIEW,
{
    if inspect_is_binary(prefix) {
        PreviewClass::Binary
    } else if size > MAX_FILE_SIZE_FOR_PREVIEW {
        PreviewClass::TooLarge
    } else {
        PreviewClass::Text
    }
}

/// The cache entry for a file that was read and classified: the oversized
/// marker for any too-large non-binary file regardless of its content, the
/// binary marker for any binary-looking file, and otherwise the parsed
/// document — or the not-found marker where parsing failed.
pub fn preview_for_read(size: u64, prefix: &[u8], parsed: Option<Document>) -> (r: CachedPreview)
    ensures
        spec_is_binary(prefix@) ==> r is Binary,
        !spec_is_binary(prefix@) && size > MAX_FILE_SIZE_FOR_PREVIEW ==> r is LargeFile,
        !spec_is_binary(prefix@) && size <= MAX_FILE_SIZE_FOR_PREVIEW ==> match parsed {
            Some(d) => r matches CachedPreview::Document(b) && *b == d,
            None => r is NotFound,
        },
{
    match classify_preview(size, prefix) {
        PreviewClass::Binary => CachedPreview::Binary,
        PreviewClass::TooLarge => CachedPreview::LargeFile,
        PreviewClass::Text => match parsed {
            Some(d) => CachedPreview::Document(Box::new(d)),
            None => CachedPreview::NotFound,
        },
    }
}

/// A NUL byte in the first KiB makes a buffer binary, as long as no
/// byte-order mark re-labels it as encoded text.
pub proof fn lemma_nul_prefix_is_binary(b: Seq<u8>, i: int)
    requires
        !spec_has_bom(b),
        0 <= i < b.len(),
        i < 1024,
        b[i] == 0u8,
    ensures
        spec_is_binary(b),
{
}

/// The first match for `path` in an entry list, front to back.
pub open spec fn spec_lookup(
    entries: Seq<(String, CachedPreview)>,
    path: Seq<char>,
) -> Option<CachedPreview>
    decreases entries.len(),
{
    if entries.len() == 0 {
        None
    } else if entries[0].0@ == path {
        Some(entries[0].1)
    } else {
        spec_lookup(entries.drop_first(), path)
    }
}

/// No two entries name the same path.
pub open spec fn distinct_keys(entries: Seq<(String, CachedPreview)>) -> bool {
    forall|i: int, j: int| 0 <= i < j < entries.len() ==> entries[i].0@ != entries[j].0@
}

/// The per-picker preview cache, keyed by canonical file path. Entries are
/// never evicted: a picker is a short-lived, per-invocation object, and its
/// lifetime bounds the cache's growth.
pub struct PreviewCache {
    pub entries: Vec<(String, CachedPreview)>,
}

impl PreviewCache {
    /// One path, one entry.
    pub open spec fn wf(&self) -> bool {
        distinct_keys(self.entries@)
    }

    /// The entry stored for `path`, if any.
    pub open spec fn spec_get(&self, path: Seq<char>) -> Option<CachedPreview> {
        spec_lookup(self.entries@, path)
    }

    /// An empty cache.
    pub fn new() -> (c: PreviewCache)
        ensures
            c.wf(),
            forall|p: Seq<char>| c.spec_get(p) is None,
    {
        PreviewCache { entries: Vec::new() }
    }

    /// Looks `path` up in the cache.
    pub fn get(&self, path: &str) -> (r: Option<&CachedPreview>)
        ensures
            match r {
                Some(e) => self.spec_get(path@) == Some(*e),
                None => self.spec_get(path@) is None,
            },
    {
        let n = self.entries.len();
        let mut i: usize = 0;
        while i < n
            invariant
                i <= n,
                n == self.entries@.len(),
                forall|j: int| 0 <= j < i ==> self.entries@[j].0@ != path@,
            decreases n - i,
        {
            let e = &self.entries[i];
            if str_eq(e.0.as_str(), path) {
                proof {
                    lemma_lookup_at(self.entries@, path@, i as int);
                }
                return Some(&e.1);
            }
            i += 1;
        }
        proof {
            lemma_lookup_absent(self.entries@, path@);
        }
        None
    }

    /// Memoizes the outcome for a path seen for the first time.
    pub fn insert(&mut self, path: String, entry: CachedPreview)
        requires
            old(self).wf(),
            old(self).spec_get(path@) is None,
        ensures
            final(self).wf(),
            final(self).spec_get(path@) == Some(entry),
            forall|p: Seq<char>| p != path@ ==> final(self).spec_get(p) == old(self).spec_get(p),
    {
        proof {
            lemma_lookup_push(self.entries@, (path, entry));
        }
        self.entries.push((path, entry));
    }

    /// Records that background highlighting finished for `path` — but only
    /// if that path still names a cached document: a stale completion
    /// against any other entry changes nothing. Returns whether anything
    /// was recorded.
    pub fn mark_highlighted(&mut self, path: &str) -> (r: bool)
        requires
            old(self).wf(),
        ensures
            final(self).wf(),
            forall|p: Seq<char>| p != path@ ==> final(self).spec_get(p) == old(self).spec_get(p),
            match old(self).spec_get(path@) {
                Some(CachedPreview::Document(d0)) => {
                    &&& r
                    &&& match final(self).spec_get(path@) {
                        Some(CachedPreview::Document(d1)) => d1@ == (DocView {
                            highlighted: true,
                            ..d0@
                        }),
                        _ => false,
                    }
                },
                _ => !r && final(self).entries@ == old(self).entries@,
            },
    {
        let n = self.entries.len();
        let mut i: usize = 0;
        while i < n
            invariant
                i <= n,
                n == self.entries@.len(),
                self.entries@ == old(self).entries@,
                distinct_keys(self.entries@),
                forall|j: int| 0 <= j < i ==> self.entries@[j].0@ != path@,
            decreases n - i,
        {
            let hit = {
                let e = &self.entries[i];
                str_eq(e.0.as_str(), path)
            };
            if hit {
                proof {
                    lemma_lookup_at(self.entries@, path@, i as int);
                }
                let rebuilt: Option<(String, Document)> = {
                    let e = &self.entries[i];
                    match &e.1 {
                        CachedPreview::Document(d) => {
                            let language: Option<String> = match &d.language {
                                Some(l) => Some(l.clone()),
                                None => None,
                            };
                            let doc = Document { text: d.text.clone(), language, highlighted: true };
                            Some((e.0.clone(), doc))
                        },
                        _ => None,
                    }
                };
                match rebuilt {
                    Some((key, doc)) => {
                        proof {
                            lemma_lookup_update(
                                self.entries@,
                                i as int,
                                (key, CachedPreview::Document(Box::new(doc))),
                            );
                        }
                        let entry = CachedPreview::Document(Box::new(doc));
                        self.entries.set(i, (key, entry));
                        return true;
                    },
                    None => {
                        return false;
                    },
                }
            }
            i += 1;
        }
        proof {
            lemma_lookup_absent(self.entries@, path@);
        }
        false
    }
}

/// If the first entry for `path` stands at `i`, the lookup returns it.
proof fn lemma_lookup_at(entries: Seq<(String, CachedPreview)>, path: Seq<char>, i: int)
    requires
        0 <= i < entries.len(),
        entries[i].0@ == path,
        forall|j: int| 0 <= j < i ==> entries[j].0@ != path,
    ensures
        spec_lookup(entries, path) == Some(entries[i].1),
    decreases entries.len(),
{
    if i > 0 {
        lemma_lookup_at(entries.drop_first(), path, i - 1);
    }
}

/// If no entry names `path`, the lookup misses.
proof fn lemma_lookup_absent(entries: Seq<(String, CachedPreview)>, path: Seq<char>)
    requires
        forall|j: int| 0 <= j < entries.len() ==> entries[j].0@ != path,
    ensures
        spec_lookup(entries, path) is None,
    decreases entries.len(),
{
    if entries.len() > 0 {
        lemma_lookup_absent(entries.drop_first(), path);
    }
}

/// A miss means no entry at all names `path`.
proof fn lemma_lookup_none_means_absent(entries: Seq<(String, CachedPreview)>, path: Seq<char>)
    requires
        spec_lookup(entries, path) is None,
    ensures
        forall|j: int| 0 <= j < entries.len() ==> entries[j].0@ != path,
    decreases entries.len(),
{
    if entries.len() > 0 {
        lemma_lookup_none_means_absent(entries.drop_first(), path);
        assert forall|j: int| 0 <= j < entries.len() implies entries[j].0@ != path by {
            if j > 0 {
                assert(entries.drop_first()[j - 1] == entries[j]);
            }
        }
    }
}

/// Appending a fresh key resolves lookups for it and disturbs no other.
proof fn lemma_lookup_push(entries: Seq<(String, CachedPreview)>, pair: (String, CachedPreview))
    requires
        distinct_keys(entries),
        spec_lookup(entries, pair.0@) is None,
    ensures
        distinct_keys(entries.push(pair)),
        spec_lookup(entries.push(pair), pair.0@) == Some(pair.1),
        forall|p: Seq<char>| p != pair.0@ ==> spec_lookup(entries.push(pair), p) == spec_lookup(
            entries,
            p,
        ),
    decreases entries.len(),
{
    lemma_lookup_none_means_absent(entries, pair.0@);
    assert(distinct_keys(entries.push(pair))) by {
        assert forall|i: int, j: int|
            0 <= i < j < entries.push(pair).len() implies entries.push(pair)[i].0@ != entries.push(
            pair,
        )[j].0@ by {
            if j < entries.len() {
            } else {
                assert(entries.push(pair)[i] == entries[i]);
                assert(entries.push(pair)[j] == pair);
            }
        }
    }
    if entries.len() == 0 {
        assert(entries.push(pair)[0] == pair);
        assert(entries.push(pair).drop_first() =~= entries);
        assert forall|p: Seq<char>| p != pair.0@ implies spec_lookup(entries.push(pair), p)
            == spec_lookup(entries, p) by {
            assert(spec_lookup(entries.push(pair), p) == spec_lookup(
                entries.push(pair).drop_first(),
                p,
            ));
        }
    } else {
        assert(entries.push(pair)[0] == entries[0]);
        assert(entries.push(pair).drop_first() =~= entries.drop_first().push(pair));
        lemma_drop_first_distinct(entries);
        lemma_lookup_push(entries.drop_first(), pair);
        assert forall|p: Seq<char>| p != pair.0@ implies spec_lookup(entries.push(pair), p)
            == spec_lookup(entries, p) by {
            if entries[0].0@ != p {
                assert(spec_lookup(entries.push(pair), p) == spec_lookup(
                    entries.drop_first().push(pair),
                    p,
                ));
                assert(spec_lookup(entries.drop_first().push(pair), p) == spec_lookup(
                    entries.drop_first(),
                    p,
                ));
                assert(spec_lookup(entries, p) == spec_lookup(entries.drop_first(), p));
            }
        }
    }
}

/// Distinctness of keys carries over to the tail of the list.
proof fn lemma_drop_first_distinct(entries: Seq<(String, CachedPreview)>)
    requires
        entries.len() > 0,
        distinct_keys(entries),
    ensures
        distinct_keys(entries.drop_first()),
{
    assert forall|i: int, j: int|
        0 <= i < j < entries.drop_first().len() implies entries.drop_first()[i].0@
        != entries.drop_first()[j].0@ by {
        assert(entries.drop_first()[i] == entries[i + 1]);
        assert(entries.drop_first()[j] == entries[j + 1]);
    }
}

/// Replacing the entry at `idx` under the same key rewrites that key's
/// lookup and leaves every other untouched.
proof fn lemma_lookup_update(
    entries: Seq<(String, CachedPreview)>,
    idx: int,
    pair: (String, CachedPreview),
)
    requires
        distinct_keys(entries),
        0 <= idx < entries.len(),
        pair.0@ == entries[idx].0@,
    ensures
        distinct_keys(entries.update(idx, pair)),
        spec_lookup(entries.update(idx, pair), pair.0@) == Some(pair.1),
        forall|p: Seq<char>| p != pair.0@ ==> spec_lookup(entries.update(idx, pair), p)
            == spec_lookup(entries, p),
    decreases entries.len(),
{
    assert(distinct_keys(entries.update(idx, pair))) by {
        assert forall|i: int, j: int|
            0 <= i < j < entries.len() implies entries.update(idx, pair)[i].0@ != entries.update(
            idx,
            pair,
        )[j].0@ by {
            assert(entries[i].0@ != entries[j].0@);
        }
    }
    if idx == 0 {
        assert(entries.update(0, pair)[0] == pair);
        assert(entries.update(0, pair).drop_first() =~= entries.drop_first());
        assert forall|p: Seq<char>| p != pair.0@ implies spec_lookup(entries.update(idx, pair), p)
            == spec_lookup(entries, p) by {
            assert(spec_lookup(entries.update(idx, pair), p) == spec_lookup(
                entries.drop_first(),
                p,
            ));
            assert(spec_lookup(entries, p) == spec_lookup(entries.drop_first(), p));
        }
    } else {
        assert(entries.update(idx, pair)[0] == entries[0]);
        assert(entries[0].0@ != entries[idx].0@);
        assert(entries.update(idx, pair).drop_first() =~= entries.drop_first().update(
            idx - 1,
            pair,
        ));
        lemma_drop_first_distinct(entries);
        assert(entries.drop_first()[idx - 1] == entries[idx]);
        lemma_lookup_update(entries.drop_first(), idx - 1, pair);
        assert forall|p: Seq<char>| p != pair.0@ implies spec_lookup(entries.update(idx, pair), p)
            == spec_lookup(entries, p) by {
            if entries[0].0@ != p {
                assert(spec_lookup(entries.update(idx, pair), p) == spec_lookup(
                    entries.drop_first().update(idx - 1, pair),
                    p,
                ));
                assert(spec_lookup(entries.drop_first().update(idx - 1, pair), p) == spec_lookup(
                    entries.drop_first(),
                    p,
                ));
                assert(spec_lookup(entries, p) == spec_lookup(entries.drop_first(), p));
            }
        }
    }
}

} // verus!
