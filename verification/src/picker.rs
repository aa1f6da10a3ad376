//! The picker's state machine: cursor and selection over the matched set,
//! query diffing against the match engine, viewport arithmetic, and
//! teardown.
//!
//! The engine rescores in the background; once per frame [`Picker::tick`]
//! folds its latest snapshot into the picker's own fields, re-clamping the
//! cursor whenever the matched set changed. Every cursor operation is then
//! plain verified arithmetic over those fields.
use vstd::prelude::*;
use vstd::string::*;
use crate::engine::{snapshot_item_count, snapshot_matched_count, snapshot_matched_item, Engine};
use crate::injector::Injector;
use crate::preview::PreviewCache;
use crate::query::{parse_query, spec_parse_query, str_eq, lemma_vec_deep_view, Query};
use crate::version::VersionCounter;

verus! {

/// Smallest total width at which the preview pane is drawn at all.
pub const MIN_AREA_WIDTH_FOR_PREVIEW: u16 = 72;

/// A picker holding more items than this when closed is dropped outright
/// rather than retained for reopening, to bound memory.
pub const MAX_RETAINED_ITEMS: u32 = 100_000;

/// Which way the cursor moves through the matched list.
#[derive(Clone, Copy, PartialEq, Eq, Structural, Debug)]
pub enum Direction {
    Forward,
    Backward,
}

/// One column of the picker: its name, and whether its text takes part in
/// match scoring (a display-only column, such as a line number, does not).
pub struct Column {
    pub name: String,
    pub filter: bool,
}

impl Column {
    /// A filterable column.
    pub fn new(name: String) -> (c: Column)
        ensures
            c.name == name,
            c.filter,
    {
        Column { name, filter: true }
    }

    /// Excludes this column from matching and filtering; it is only shown.
    pub fn without_filtering(self) -> (c: Column)
        ensures
            c.name == self.name,
            !c.filter,
    {
        Column { name: self.name, filter: false }
    }
}

/// How many of the columns take part in matching.
pub open spec fn filter_count(s: Seq<Column>) -> nat
    decreases s.len(),
{
    if s.len() == 0 {
        0
    } else {
        filter_count(s.drop_last()) + if s.last().filter {
            1nat
        } else {
            0nat
        }
    }
}

/// Every prefix has at most as many filterable columns as the whole list.
pub proof fn lemma_filter_count_prefix(s: Seq<Column>, k: int)
    requires
        0 <= k <= s.len(),
    ensures
        filter_count(s.take(k)) <= filter_count(s),
    decreases s.len() - k,
{
    if k == s.len() {
        assert(s.take(k) =~= s);
    } else {
        lemma_filter_count_prefix(s, k + 1);
        assert(s.take(k + 1).drop_last() =~= s.take(k));
        assert(s.take(k + 1).last() == s[k]);
    }
}

/// There are no more filterable columns than columns.
pub proof fn lemma_filter_count_le_len(s: Seq<Column>)
    ensures
        filter_count(s) <= s.len(),
    decreases s.len(),
{
    if s.len() > 0 {
        lemma_filter_count_le_len(s.drop_last());
    }
}

/// The names of the columns, in order.
pub open spec fn col_names(s: Seq<Column>) -> Seq<Seq<char>> {
    Seq::new(s.len(), |i: int| s[i].name@)
}

/// Where the cursor lands: moves wrap modulo the matched count, forward
/// adding and backward subtracting; with nothing matched the cursor stays
/// put.
pub open spec fn spec_move(cursor: u32, amount: u32, len: u32, direction: Direction) -> u32 {
    if len == 0 {
        cursor
    } else {
        match direction {
            Direction::Forward => ((cursor as int + amount as int) % (len as int)) as u32,
            Direction::Backward => ((cursor as int + len as int - amount as int % (len as int)) % (
            len as int)) as u32,
        }
    }
}

/// The interactive fuzzy picker over items of type `T`.
#[verifier::reject_recursive_types(T)]
pub struct Picker<T: Sync + Send + 'static> {
    /// The third-party match engine, behind its adapter.
    pub engine: Engine<T>,
    /// The picker's columns; their order fixes column indices.
    pub columns: Vec<Column>,
    /// The column names, in column order (what queries are parsed against).
    pub column_names: Vec<String>,
    /// The column free query words go to.
    pub primary_column: usize,
    /// The live generation counter invalidating stale injector handles.
    pub version: VersionCounter,
    /// Index into the matched item sequence.
    pub cursor: u32,
    /// The prompt's current line.
    pub line: String,
    /// The query parsed from the current line.
    pub query: Query,
    /// Whether the preview pane is shown (default true).
    pub show_preview: bool,
    /// Whether long rows are truncated at their start.
    pub truncate_start: bool,
    /// Current height of the completions box, set from the viewport.
    pub completion_height: u16,
    /// Matched item count as of the last tick that changed the snapshot.
    pub matched_count: u32,
    /// Total item count as of the last tick that changed the snapshot.
    pub item_count: u32,
    /// Whether the engine was still rescoring at the last tick.
    pub running: bool,
    /// Whether a dynamic-query fetch is in flight.
    pub fetch_running: bool,
    /// Cached previews of files read for the preview pane.
    pub preview_cache: PreviewCache,
    /// Whether items are matched as paths (a preview locator is in use).
    pub path_matching: bool,
}

impl<T: Sync + Send + 'static> Picker<T> {
    /// The picker's internal consistency: the engine was built over exactly
    /// the filterable columns, names mirror the columns, the query spans
    /// every column, and the cursor lies inside the matched set.
    pub open spec fn wf(&self) -> bool {
        &&& self.primary_column < self.columns@.len()
        &&& self.column_names@.len() == self.columns@.len()
        &&& self.column_names.deep_view() == col_names(self.columns@)
        &&& self.engine.spec_columns() as nat == filter_count(self.columns@)
        &&& self.query.wf()
        &&& self.query.names_view() == self.column_names.deep_view()
        &&& self.query@.len() == self.columns@.len()
        &&& (self.matched_count == 0 ==> self.cursor == 0)
        &&& (self.matched_count > 0 ==> self.cursor < self.matched_count)
    }

    /// The picker's fixed configuration, unchanged by an operation.
    pub open spec fn same_config(&self, o: &Self) -> bool {
        &&& self.columns == o.columns
        &&& self.column_names == o.column_names
        &&& self.primary_column == o.primary_column
        &&& self.engine.spec_columns() == o.engine.spec_columns()
    }

    /// The picker's result-set fields, unchanged by an operation.
    pub open spec fn same_results(&self, o: &Self) -> bool {
        &&& self.matched_count == o.matched_count
        &&& self.item_count == o.item_count
        &&& self.running == o.running
    }

    /// A picker over the given columns, with nothing ingested yet. Items
    /// are streamed in afterwards through an [`Self::injector`] handle.
    pub fn new(columns: Vec<Column>, primary_column: usize) -> (p: Picker<T>)
        requires
            primary_column < columns@.len(),
            filter_count(columns@) >= 1,
            columns@.len() <= u32::MAX,
        ensures
            p.wf(),
            p.columns == columns,
            p.cursor == 0,
            p.matched_count == 0,
            p.item_count == 0,
            p.show_preview,
            p.truncate_start,
            !p.fetch_running,
            !p.path_matching,
            !p.running,
            p.line@ == Seq::<char>::empty(),
            forall|q: Seq<char>| p.preview_cache.spec_get(q) is None,
            p.query@ =~= Seq::new(columns@.len() as nat, |i: int| None::<Seq<char>>),
    {
        let names = column_names_of(&columns);
        let fc = count_filterable(&columns);
        proof {
            lemma_filter_count_le_len(columns@);
        }
        let engine = Engine::<T>::new(fc as u32);
        let query = Query::empty(&names);
        Picker {
            engine,
            columns,
            column_names: names,
            primary_column,
            version: VersionCounter::new(),
            cursor: 0,
            line: String::new(),
            query,
            show_preview: true,
            truncate_start: true,
            completion_height: 0,
            matched_count: 0,
            item_count: 0,
            running: false,
            fetch_running: false,
            preview_cache: PreviewCache::new(),
            path_matching: false,
        }
    }

    /// Builds the match engine and a first producer handle before the
    /// picker itself exists, so background producers can start streaming
    /// immediately; [`Self::with_stream`] later wraps them into a picker
    /// sharing the same live version.
    pub fn stream(columns: &Vec<Column>) -> (r: (Engine<T>, Injector<T>))
        requires
            filter_count(columns@) >= 1,
            columns@.len() <= u32::MAX,
        ensures
            r.0.spec_columns() as nat == filter_count(columns@),
            r.1.spec_match_columns() == r.0.spec_columns(),
    {
        let fc = count_filterable(columns);
        proof {
            lemma_filter_count_le_len(columns@);
        }
        let engine = Engine::<T>::new(fc as u32);
        let version = VersionCounter::new();
        let injector = Injector::create(&engine, &version);
        (engine, injector)
    }

    /// A picker over an engine and injector made by [`Self::stream`], for
    /// the same columns: it shares their live version, so items the
    /// injector already streamed (and keeps streaming) feed this picker.
    pub fn with_stream(
        engine: Engine<T>,
        columns: Vec<Column>,
        primary_column: usize,
        injector: &Injector<T>,
    ) -> (p: Picker<T>)
        requires
            primary_column < columns@.len(),
            engine.spec_columns() as nat == filter_count(columns@),
        ensures
            p.wf(),
            p.columns == columns,
            p.cursor == 0,
            p.matched_count == 0,
            p.item_count == 0,
            p.show_preview,
            p.truncate_start,
            !p.fetch_running,
            !p.path_matching,
            !p.running,
            p.line@ == Seq::<char>::empty(),
            forall|q: Seq<char>| p.preview_cache.spec_get(q) is None,
            p.query@ =~= Seq::new(columns@.len() as nat, |i: int| None::<Seq<char>>),
    {
        let names = column_names_of(&columns);
        let query = Query::empty(&names);
        Picker {
            engine,
            columns,
            column_names: names,
            primary_column,
            version: injector.share_live(),
            cursor: 0,
            line: String::new(),
            query,
            show_preview: true,
            truncate_start: true,
            completion_height: 0,
            matched_count: 0,
            item_count: 0,
            running: false,
            fetch_running: false,
            preview_cache: PreviewCache::new(),
            path_matching: false,
        }
    }

    /// A producer handle stamped with the version that is live right now.
    pub fn injector(&self) -> (inj: Injector<T>)
        ensures
            inj.spec_match_columns() == self.engine.spec_columns(),
    {
        Injector::create(&self.engine, &self.version)
    }

    /// Builder: whether long rows are truncated at their start.
    pub fn truncate_start(self, truncate_start: bool) -> (r: Self)
        ensures
            r == (Picker { truncate_start, ..self }),
    {
        Picker { truncate_start, ..self }
    }

    /// Builder: a preview locator is in use, so items are paths; switches
    /// the engine to path-aware scoring.
    pub fn with_preview(self) -> (r: Self)
        requires
            self.wf(),
        ensures
            r.wf(),
            r.path_matching,
            r.same_config(&self),
            r.same_results(&self),
            r.cursor == self.cursor,
            r.query == self.query,
            r.line == self.line,
            r.show_preview == self.show_preview,
            r.truncate_start == self.truncate_start,
            r.preview_cache == self.preview_cache,
    {
        let mut p = self;
        p.engine.set_path_matching();
        p.path_matching = true;
        p
    }

    /// Builder: starts the prompt with the given line already typed.
    pub fn with_line(self, line: String) -> (r: Self)
        requires
            self.wf(),
        ensures
            r.wf(),
            r.line@ == line@,
            r.query@ == spec_parse_query(
                self.column_names.deep_view(),
                self.primary_column as int,
                line@,
            ),
            r.same_config(&self),
            r.same_results(&self),
            r.cursor == self.cursor,
    {
        let mut p = self;
        p.update_line(line);
        p
    }

    /// Re-parses the prompt line and hands every changed column pattern to
    /// the engine, with the append hint when the old pattern is a plain
    /// prefix of the new one (and was not left mid-escape).
    pub fn update_line(&mut self, line: String)
        requires
            old(self).wf(),
        ensures
            final(self).wf(),
            final(self).line@ == line@,
            final(self).query@ == spec_parse_query(
                old(self).column_names.deep_view(),
                old(self).primary_column as int,
                line@,
            ),
            final(self).same_config(old(self)),
            final(self).same_results(old(self)),
            final(self).cursor == old(self).cursor,
            final(self).show_preview == old(self).show_preview,
            final(self).truncate_start == old(self).truncate_start,
            final(self).completion_height == old(self).completion_height,
            final(self).fetch_running == old(self).fetch_running,
            final(self).path_matching == old(self).path_matching,
            final(self).version == old(self).version,
            final(self).preview_cache == old(self).preview_cache,
    {
        let new_query = parse_query(&self.column_names, self.primary_column, line.as_str());
        if !query_eq(&self.query, &new_query) {
            let n = self.columns.len();
            let mut ci: usize = 0;
            let mut mi: u32 = 0;
            proof {
                assert(self.columns@.take(0) =~= Seq::<Column>::empty());
            }
            while ci < n
                invariant
                    ci <= n,
                    n == self.columns@.len(),
                    mi as nat == filter_count(self.columns@.take(ci as int)),
                    self.engine.spec_columns() as nat == filter_count(self.columns@),
                    self.columns == old(self).columns,
                    self.column_names == old(self).column_names,
                    self.primary_column == old(self).primary_column,
                    self.query == old(self).query,
                    self.line == old(self).line,
                    self.cursor == old(self).cursor,
                    self.matched_count == old(self).matched_count,
                    self.item_count == old(self).item_count,
                    self.running == old(self).running,
                    self.fetch_running == old(self).fetch_running,
                    self.show_preview == old(self).show_preview,
                    self.truncate_start == old(self).truncate_start,
                    self.completion_height == old(self).completion_height,
                    self.preview_cache == old(self).preview_cache,
                    self.path_matching == old(self).path_matching,
                    self.version == old(self).version,
                    new_query.wf(),
                    new_query@.len() == n,
                    self.query@.len() == n,
                decreases n - ci,
            {
                let is_filter = self.columns[ci].filter;
                proof {
                    assert(self.columns@.take(ci + 1).drop_last() =~= self.columns@.take(
                        ci as int,
                    ));
                    assert(self.columns@.take(ci + 1).last() == self.columns@[ci as int]);
                    lemma_filter_count_prefix(self.columns@, ci + 1);
                }
                if is_filter {
                    let pattern: &str = match &new_query.patterns[ci] {
                        Some(p) => p.as_str(),
                        None => "",
                    };
                    let append: bool = match &self.query.patterns[ci] {
                        Some(op) => str_starts_with(pattern, op.as_str())
                            && !str_ends_with_backslash(op.as_str()),
                        None => false,
                    };
                    self.engine.reparse(mi, pattern, append);
                    mi = mi + 1;
                }
                ci += 1;
            }
            self.query = new_query;
        } else {
            self.query = new_query;
        }
        self.line = line;
    }

    /// Folds the engine's latest results into the picker, once per frame.
    /// The snapshot only moves during a tick that reports a change, and a
    /// change re-clamps the cursor into the new matched set — so the cursor
    /// never exceeds the matched count after a tick that shrank it.
    pub fn tick(&mut self, timeout: u64) -> (r: (bool, bool))
        requires
            old(self).wf(),
        ensures
            final(self).wf(),
            final(self).same_config(old(self)),
            final(self).running == r.1,
            final(self).query == old(self).query,
            final(self).fetch_running == old(self).fetch_running,
            !r.0 ==> final(self).matched_count == old(self).matched_count
                && final(self).item_count == old(self).item_count
                && final(self).cursor == old(self).cursor,
            r.0 ==> final(self).cursor == (if old(self).cursor
                <= final(self).matched_count.saturating_sub(1) {
                old(self).cursor
            } else {
                final(self).matched_count.saturating_sub(1)
            }),
            final(self).matched_count > 0 ==> final(self).cursor < final(self).matched_count,
    {
        let (changed, running) = self.engine.tick_raw(timeout);
        if changed {
            let matched: u32;
            let items: u32;
            {
                let snap = self.engine.snapshot();
                matched = snapshot_matched_count(snap);
                items = snapshot_item_count(snap);
            }
            self.matched_count = matched;
            self.item_count = items;
            let bound = matched.saturating_sub(1);
            if self.cursor > bound {
                self.cursor = bound;
            }
        }
        self.running = running;
        (changed, running)
    }

    /// Moves the cursor `amount` rows through the matched list, wrapping
    /// around; with nothing matched this is a no-op.
    pub fn move_by(&mut self, amount: u32, direction: Direction)
        requires
            old(self).wf(),
        ensures
            final(self).wf(),
            *final(self) == (Picker {
                cursor: spec_move(old(self).cursor, amount, old(self).matched_count, direction),
                ..*old(self)
            }),
    {
        let len = self.matched_count;
        if len == 0 {
            return ;
        }
        let len64 = len as u64;
        match direction {
            Direction::Forward => {
                let landed = (self.cursor as u64 + amount as u64) % len64;
                self.cursor = landed as u32;
            },
            Direction::Backward => {
                let back = amount as u64 % len64;
                let landed = (self.cursor as u64 + len64 - back) % len64;
                self.cursor = landed as u32;
            },
        }
    }

    /// Moves the cursor up by exactly one page.
    pub fn page_up(&mut self)
        requires
            old(self).wf(),
        ensures
            final(self).wf(),
            *final(self) == (Picker {
                cursor: spec_move(
                    old(self).cursor,
                    old(self).completion_height as u32,
                    old(self).matched_count,
                    Direction::Backward,
                ),
                ..*old(self)
            }),
    {
        let amount = self.completion_height as u32;
        self.move_by(amount, Direction::Backward);
    }

    /// Moves the cursor down by exactly one page.
    pub fn page_down(&mut self)
        requires
            old(self).wf(),
        ensures
            final(self).wf(),
            *final(self) == (Picker {
                cursor: spec_move(
                    old(self).cursor,
                    old(self).completion_height as u32,
                    old(self).matched_count,
                    Direction::Forward,
                ),
                ..*old(self)
            }),
    {
        let amount = self.completion_height as u32;
        self.move_by(amount, Direction::Forward);
    }

    /// Moves the cursor to the first matched entry.
    pub fn to_start(&mut self)
        requires
            old(self).wf(),
        ensures
            final(self).wf(),
            *final(self) == (Picker { cursor: 0u32, ..*old(self) }),
    {
        self.cursor = 0;
    }

    /// Moves the cursor to the last matched entry.
    pub fn to_end(&mut self)
        requires
            old(self).wf(),
        ensures
            final(self).wf(),
            *final(self) == (Picker {
                cursor: old(self).matched_count.saturating_sub(1),
                ..*old(self)
            }),
    {
        self.cursor = self.matched_count.saturating_sub(1);
    }

    /// The currently selected item, read fresh from the engine's snapshot.
    pub fn selection(&self) -> Option<&T> {
        snapshot_matched_item(self.engine.snapshot(), self.cursor)
    }

    /// Flips preview visibility; no other field changes, so flipping twice
    /// restores the picker exactly.
    pub fn toggle_preview(&mut self)
        requires
            old(self).wf(),
        ensures
            final(self).wf(),
            *final(self) == (Picker { show_preview: !old(self).show_preview, ..*old(self) }),
    {
        self.show_preview = !self.show_preview;
    }

    /// The sub-pattern of the primary column, if the query assigned one.
    pub fn primary_query(&self) -> (r: Option<&String>)
        requires
            self.wf(),
        ensures
            match r {
                Some(p) => self.query.spec_get(self.column_names.deep_view()[self.primary_column as int])
                    == Some(p@),
                None => self.query.spec_get(self.column_names.deep_view()[self.primary_column as int])
                    is None,
            },
    {
        self.query.get(self.column_names[self.primary_column].as_str())
    }

    /// Tears the picker down: advances the live version, so every
    /// outstanding injector handle and background producer observes
    /// cancellation. Returns whether the host should retain the picker for
    /// reopening — one grown past [`MAX_RETAINED_ITEMS`] is to be dropped
    /// outright instead.
    /// Callers must invoke this on teardown: nothing else advances the
    /// version, so a picker discarded without `close` never invalidates its
    /// handles. The bump acts through the shared counter, which the model
    /// does not see, so the picker's own fields read unchanged.
    pub fn close(&mut self) -> (retain: bool)
        requires
            old(self).wf(),
        ensures
            final(self).wf(),
            retain == (old(self).item_count <= MAX_RETAINED_ITEMS),
            *final(self) == *old(self),
    {
        self.version.bump();
        self.item_count <= MAX_RETAINED_ITEMS
    }

    /// Starts one authoritative dynamic re-fetch: advances the version
    /// (cancelling every outstanding injector handle and any in-flight
    /// fetch), restarts the engine's item stream, marks the fetch running,
    /// and hands back a fresh injector bound to the new version.
    pub fn begin_dynamic_fetch(&mut self) -> (inj: Injector<T>)
        requires
            old(self).wf(),
        ensures
            final(self).wf(),
            final(self).fetch_running,
            inj.spec_match_columns() == final(self).engine.spec_columns(),
            final(self).same_config(old(self)),
            final(self).same_results(old(self)),
            final(self).cursor == old(self).cursor,
            final(self).query == old(self).query,
            final(self).line == old(self).line,
            final(self).preview_cache == old(self).preview_cache,
    {
        self.version.bump();
        self.engine.restart(false);
        self.fetch_running = true;
        Injector::create(&self.engine, &self.version)
    }

    /// The fetch callback resolved (with or without success): clear the
    /// running indicator.
    pub fn fetch_done(&mut self)
        requires
            old(self).wf(),
        ensures
            final(self).wf(),
            *final(self) == (Picker { fetch_running: false, ..*old(self) }),
    {
        self.fetch_running = false;
    }

    /// Remembers the viewport and answers the preferred size: the whole
    /// viewport, with four rows reserved around the completion box.
    pub fn required_size(&mut self, viewport: (u16, u16)) -> (r: Option<(u16, u16)>)
        requires
            old(self).wf(),
        ensures
            final(self).wf(),
            *final(self) == (Picker {
                completion_height: viewport.1.saturating_sub(4),
                ..*old(self)
            }),
            r == Some(viewport),
    {
        self.completion_height = viewport.1.saturating_sub(4);
        Some(viewport)
    }
}

/// Compares two queries' patterns, column by column.
fn query_eq(a: &Query, b: &Query) -> (r: bool)
    ensures
        r == (a@ == b@),
{
    let n = a.patterns.len();
    let m = b.patterns.len();
    proof {
        lemma_vec_deep_view(a.patterns);
        lemma_vec_deep_view(b.patterns);
    }
    if n != m {
        proof {
            assert(a@.len() != b@.len());
        }
        return false;
    }
    let mut i: usize = 0;
    while i < n
        invariant
            i <= n,
            n == a.patterns@.len(),
            n == b.patterns@.len(),
            a@.len() == n,
            b@.len() == n,
            forall|j: int| 0 <= j < i ==> a@[j] == b@[j],
            forall|k: int| 0 <= k < n ==> #[trigger] a@[k] == a.patterns@[k].deep_view(),
            forall|k: int| 0 <= k < n ==> #[trigger] b@[k] == b.patterns@[k].deep_view(),
        decreases n - i,
    {
        let same = match (&a.patterns[i], &b.patterns[i]) {
            (None, None) => true,
            (Some(x), Some(y)) => str_eq(x.as_str(), y.as_str()),
            _ => false,
        };
        if !same {
            proof {
                assert(a@[i as int] != b@[i as int]);
            }
            return false;
        }
        i += 1;
    }
    proof {
        assert(a@ =~= b@);
    }
    true
}

/// Whether `b` is a prefix of `a`, character by character.
pub fn str_starts_with(a: &str, b: &str) -> (r: bool)
    ensures
        r == (b@.len() <= a@.len() && a@.take(b@.len() as int) == b@),
{
    let alen = a.unicode_len();
    let blen = b.unicode_len();
    if blen > alen {
        return false;
    }
    let mut i: usize = 0;
    while i < blen
        invariant
            i <= blen,
            alen as nat == a@.len(),
            blen as nat == b@.len(),
            blen <= alen,
            forall|j: int| 0 <= j < i ==> a@[j] == b@[j],
        decreases blen - i,
    {
        if a.get_char(i) != b.get_char(i) {
            proof {
                assert(a@.take(blen as int)[i as int] == a@[i as int]);
            }
            return false;
        }
        i += 1;
    }
    proof {
        assert(a@.take(blen as int) =~= b@);
    }
    true
}

/// Whether the string's last character is a backslash — a pattern that was
/// left mid-escape, which blocks the incremental append hint.
pub fn str_ends_with_backslash(s: &str) -> (r: bool)
    ensures
        r == (s@.len() > 0 && s@.last() == '\\'),
{
    let n = s.unicode_len();
    if n == 0 {
        false
    } else {
        s.get_char(n - 1) == '\\'
    }
}

/// A copy of the columns' names, in column order.
fn column_names_of(columns: &Vec<Column>) -> (r: Vec<String>)
    ensures
        r@.len() == columns@.len(),
        r.deep_view() == col_names(columns@),
{
    let n = columns.len();
    let mut r: Vec<String> = Vec::new();
    let mut i: usize = 0;
    while i < n
        invariant
            i <= n,
            n == columns@.len(),
            r@.len() == i,
            forall|j: int| 0 <= j < i ==> r.deep_view()[j] == columns@[j].name@,
        decreases n - i,
    {
        let ghost r0 = r;
        let cloned = columns[i].name.clone();
        r.push(cloned);
        proof {
            lemma_vec_deep_view(r0);
            lemma_vec_deep_view(r);
            assert forall|j: int| 0 <= j <= i implies r.deep_view()[j] == columns@[j].name@ by {
                if j < i {
                    assert(r@[j] == r0@[j]);
                    assert(r0.deep_view()[j] == r0@[j].deep_view());
                } else {
                    assert(r@[j] == cloned);
                }
            }
        }
        i += 1;
    }
    proof {
        lemma_vec_deep_view(r);
        assert(r.deep_view() =~= col_names(columns@));
    }
    r
}

/// Counts the filterable columns.
fn count_filterable(columns: &Vec<Column>) -> (r: usize)
    ensures
        r as nat == filter_count(columns@),
        r <= columns@.len(),
{
    let n = columns.len();
    let mut count: usize = 0;
    let mut i: usize = 0;
    proof {
        assert(columns@.take(0) =~= Seq::<Column>::empty());
    }
    while i < n
        invariant
            i <= n,
            n == columns@.len(),
            count as nat == filter_count(columns@.take(i as int)),
            count <= i,
        decreases n - i,
    {
        proof {
            assert(columns@.take(i + 1).drop_last() =~= columns@.take(i as int));
            assert(columns@.take(i + 1).last() == columns@[i as int]);
        }
        if columns[i].filter {
            count += 1;
        }
        i += 1;
    }
    proof {
        assert(columns@.take(n as int) =~= columns@);
    }
    count
}

/// The visible window of the matched list, from the cursor and the number
/// of rows the viewport offers: the first row shown, the cursor's row
/// inside the window, and one past the last row shown.
pub fn view_window(cursor: u32, rows: u32, matched: u32) -> (r: (u32, u32, u32))
    ensures
        ({
            let page = if rows == 0 {
                1u32
            } else {
                rows
            };
            &&& r.0 == cursor - (cursor % page)
            &&& r.1 == cursor % page
            &&& r.2 == (if r.0.saturating_add(rows) <= matched {
                r.0.saturating_add(rows)
            } else {
                matched
            })
        }),
{
    let page: u32 = if rows == 0 {
        1
    } else {
        rows
    };
    let rem = cursor % page;
    proof {
        vstd::arithmetic::div_mod::lemma_mod_decreases(cursor as nat, page as nat);
    }
    let offset = cursor - rem;
    let end_unclamped = offset.saturating_add(rows);
    let end = if end_unclamped <= matched {
        end_unclamped
    } else {
        matched
    };
    (offset, rem, end)
}

/// Whether the preview pane renders at this width, and how wide the picker
/// half of the area is.
pub fn layout_split(width: u16, show_preview: bool) -> (r: (bool, u16))
    ensures
        r.0 == (show_preview && width > MIN_AREA_WIDTH_FOR_PREVIEW),
        r.1 == (if show_preview && width > MIN_AREA_WIDTH_FOR_PREVIEW {
            width / 2
        } else {
            width
        }),
{
    let render_preview = show_preview && width > MIN_AREA_WIDTH_FOR_PREVIEW;
    let picker_width = if render_preview {
        width / 2
    } else {
        width
    };
    (render_preview, picker_width)
}

/// The first line a preview viewport shows for a requested line range:
/// centered when the range fits, and top-aligned at the range's start when
/// centering would scroll back past it (or the range does not fit at all).
pub fn preview_scroll_line(start_line: usize, end_line: usize, viewport_height: usize) -> (r: usize)
    requires
        start_line <= end_line,
    ensures
        ({
            let height = end_line - start_line;
            let middle = start_line + height / 2;
            let anchor: int = if middle - viewport_height / 2 >= 0 {
                middle - viewport_height / 2
            } else {
                0
            };
            if height < viewport_height {
                r == (if anchor <= start_line {
                    anchor
                } else {
                    start_line as int
                })
            } else {
                r == start_line
            }
        }),
{
    let height = end_line - start_line;
    if height < viewport_height {
        let middle = start_line + height / 2;
        let anchor = middle.saturating_sub(viewport_height / 2);
        if anchor <= start_line {
            anchor
        } else {
            start_line
        }
    } else {
        start_line
    }
}

/// Moving the cursor forward by any amount and then backward by the same
/// amount returns it to where it stood, for every cursor inside a nonempty
/// matched set.
pub proof fn lemma_move_round_trip(cursor: u32, amount: u32, len: u32)
    requires
        0 < len,
        cursor < len,
    ensures
        spec_move(spec_move(cursor, amount, len, Direction::Forward), amount, len, Direction::Backward)
            == cursor,
{
    let l = len as int;
    let c = cursor as int;
    let k = amount as int;
    vstd::arithmetic::div_mod::lemma_fundamental_div_mod(c + k, l);
    let q1 = (c + k) / l;
    let c1 = (c + k) % l;
    assert(0 <= c1 < l);
    vstd::arithmetic::div_mod::lemma_fundamental_div_mod(k, l);
    let q2 = k / l;
    let back = k % l;
    assert(0 <= back < l);
    let fwd = spec_move(cursor, amount, len, Direction::Forward);
    assert(fwd == c1);
    assert(l * (1 + q2 - q1) == l + l * q2 - l * q1) by (nonlinear_arith);
    assert(c1 + l - back == l * (1 + q2 - q1) + c) by {
        assert(c + k == l * q1 + c1);
        assert(k == l * q2 + back);
    }
    vstd::arithmetic::div_mod::lemma_mod_multiples_vanish(1 + q2 - q1, c, l);
    vstd::arithmetic::div_mod::lemma_small_mod(cursor as nat, len as nat);
    assert((c1 + l - back) % l == c);
}

} // verus!
