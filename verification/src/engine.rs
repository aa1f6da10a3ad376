//! The matching-engine adapter: a thin, trusted rim around the third-party
//! incremental fuzzy matcher, plus the column configuration it was built
//! with.
//!
//! The matcher rescores on a background pool, so nothing definite can be
//! promised of the counts a snapshot reports; the verified picker logic
//! takes whatever the snapshot says as input. What the contracts do pin
//! down is the column configuration: it is fixed at construction, and every
//! pattern reparse must stay inside it.
use vstd::prelude::*;

verus! {

#[verifier::external_type_specification]
#[verifier::external_body]
#[verifier::reject_recursive_types(T)]
pub struct ExNucleo<T: Sync + Send + 'static>(nucleo::Nucleo<T>);

/// An opaque holder for the matcher's own producer handle; the declaration
/// of that handle's type collides with this crate's [`Injector`] name, so
/// it lives behind this trusted, hidden struct instead.
///
/// [`Injector`]: crate::injector::Injector
#[verifier::external_body]
#[verifier::reject_recursive_types(T)]
pub struct RawHandle<T: Sync + Send + 'static> {
    pub(crate) inner: nucleo::Injector<T>,
}

#[verifier::external_type_specification]
#[verifier::external_body]
#[verifier::reject_recursive_types(T)]
pub struct ExSnapshot<T: Sync + Send + 'static>(nucleo::Snapshot<T>);

/// The match engine: the third-party matcher and the number of match
/// columns it was constructed with, fixed for its lifetime.
#[verifier::reject_recursive_types(T)]
pub struct Engine<T: Sync + Send + 'static> {
    matcher: nucleo::Nucleo<T>,
    columns: u32,
}

impl<T: Sync + Send + 'static> Engine<T> {
    /// How many filterable columns each item (and the pattern) has.
    pub closed spec fn spec_columns(&self) -> u32 {
        self.columns
    }

    /// The number of match columns the engine was built with.
    pub fn match_columns(&self) -> (r: u32)
        ensures
            r == self.spec_columns(),
    {
        self.columns
    }

    /// Relies on `Nucleo::new`: builds a matcher worker pool over `columns`
    /// match columns, with the default scoring configuration. The matcher
    /// refuses an empty column set (its item store asserts at least one
    /// matcher column), so at least one is required here.
    #[verifier::external_body]
    pub fn new(columns: u32) -> (e: Engine<T>)
        requires
            columns >= 1,
        ensures
            e.spec_columns() == columns,
    {
        let matcher = nucleo::Nucleo::new(
            nucleo::Config::DEFAULT,
            std::sync::Arc::new(|| {}),
            None,
            columns,
        );
        Engine { matcher, columns }
    }

    /// Relies on `Nucleo::injector`: a handle that appends items to the
    /// engine's item list, cheap to clone and usable from any thread.
    #[verifier::external_body]
    pub fn injector_handle(&self) -> RawHandle<T> {
        RawHandle { inner: self.matcher.injector() }
    }

    /// Relies on `Nucleo::tick`: waits up to `timeout` milliseconds for
    /// the worker (longer when a pattern change forces a blocking lock) and
    /// reports `(changed, running)` — whether the snapshot moved, and
    /// whether rescoring is still in flight. The snapshot only moves during
    /// a tick that reports a change.
    #[verifier::external_body]
    pub fn tick_raw(&mut self, timeout: u64) -> (r: (bool, bool))
        ensures
            final(self).spec_columns() == old(self).spec_columns(),
    {
        let status = self.matcher.tick(timeout);
        (status.changed, status.running)
    }

    /// Relies on `Nucleo::snapshot`: the results as of the last tick.
    #[verifier::external_body]
    pub fn snapshot(&self) -> &nucleo::Snapshot<T> {
        self.matcher.snapshot()
    }

    /// Relies on `Nucleo::restart`: removes all items and disconnects every
    /// previously created raw injector handle from this engine.
    #[verifier::external_body]
    pub fn restart(&mut self, clear_snapshot: bool)
        ensures
            final(self).spec_columns() == old(self).spec_columns(),
    {
        self.matcher.restart(clear_snapshot)
    }

    /// Relies on `Nucleo::update_config` with the path-matching preset:
    /// scoring then favors path-component boundaries over arbitrary
    /// substrings.
    #[verifier::external_body]
    pub fn set_path_matching(&mut self)
        ensures
            final(self).spec_columns() == old(self).spec_columns(),
    {
        self.matcher.update_config(nucleo::Config::DEFAULT.match_paths())
    }

    /// Relies on `MultiPattern::reparse`: reparses one column's pattern
    /// with smart case matching and smart Unicode normalization. `append`
    /// promises that the previously parsed text is a prefix of `pattern`,
    /// letting the matcher keep its incremental state.
    #[verifier::external_body]
    pub fn reparse(&mut self, column: u32, pattern: &str, append: bool)
        requires
            column < old(self).spec_columns(),
        ensures
            final(self).spec_columns() == old(self).spec_columns(),
    {
        self.matcher.pattern.reparse(
            column as usize,
            pattern,
            nucleo::pattern::CaseMatching::Smart,
            nucleo::pattern::Normalization::Smart,
            append,
        );
    }
}

/// Relies on `Snapshot::item_count`: how many items the snapshot holds.
#[verifier::external_body]
pub fn snapshot_item_count<T: Sync + Send + 'static>(snap: &nucleo::Snapshot<T>) -> u32 {
    snap.item_count()
}

/// Relies on `Snapshot::matched_item_count`: how many of the snapshot's
/// items matched the pattern.
#[verifier::external_body]
pub fn snapshot_matched_count<T: Sync + Send + 'static>(snap: &nucleo::Snapshot<T>) -> u32 {
    snap.matched_item_count()
}

/// Relies on `Snapshot::get_matched_item`: the data of the `n`th matched
/// item, or nothing when `n` lies outside the snapshot's matched set.
#[verifier::external_body]
pub fn snapshot_matched_item<'a, T: Sync + Send + 'static>(
    snap: &'a nucleo::Snapshot<T>,
    n: u32,
) -> Option<&'a T> {
    snap.get_matched_item(n).map(|item| item.data)
}

} // verus!
