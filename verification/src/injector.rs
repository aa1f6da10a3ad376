//! The versioned producer handle: how background tasks stream candidate
//! items into a picker's match engine.
//!
//! Every handle captures a stamp of the picker's live version counter when
//! it is created. A push first compares that stamp against the live value:
//! once the picker has moved on (it was closed, or a newer fetch became
//! authoritative), the push is rejected with [`InjectorShutdown`] and
//! changes nothing. This comparison is the whole cross-thread cancellation
//! protocol — stale producers waste work, they never corrupt state.
use vstd::prelude::*;
use crate::engine::{Engine, RawHandle};
use crate::version::{stamp_current, VersionCounter};

verus! {

/// The error of a push through a stale handle: the picker has been closed
/// or restarted, and the producer should stop.
#[derive(Debug, PartialEq, Eq, Structural)]
pub struct InjectorShutdown;

/// A cloneable, versioned handle for pushing items into a picker's engine.
#[verifier::reject_recursive_types(T)]
pub struct Injector<T: Sync + Send + 'static> {
    pub(crate) raw: RawHandle<T>,
    match_columns: u32,
    stamp: usize,
    pub(crate) live: VersionCounter,
}

impl<T: Sync + Send + 'static> Injector<T> {
    /// How many match-column texts each pushed item must bring, at most.
    pub closed spec fn spec_match_columns(&self) -> u32 {
        self.match_columns
    }

    /// The live version this handle was stamped with at creation time.
    pub closed spec fn spec_stamp(&self) -> usize {
        self.stamp
    }

    /// The version stamp this handle carries.
    pub fn stamp(&self) -> (r: usize)
        ensures
            r == self.spec_stamp(),
    {
        self.stamp
    }

    /// Another handle on the live version counter this injector watches.
    pub(crate) fn share_live(&self) -> VersionCounter {
        self.live.share()
    }

    /// A handle on `engine`, stamped with the version that is live now.
    pub(crate) fn create(engine: &Engine<T>, live: &VersionCounter) -> (inj: Injector<T>)
        ensures
            inj.spec_match_columns() == engine.spec_columns(),
    {
        Injector {
            raw: engine.injector_handle(),
            match_columns: engine.match_columns(),
            stamp: live.load(),
            live: live.share(),
        }
    }

    /// Pushes one item with its per-column match texts — the item's
    /// filterable column projections, computed by the caller. Projections
    /// must be pure, since a push may run on any producer thread. The live
    /// version is read once; the outcome for the value read is fixed by
    /// [`Self::push_observed`].
    pub fn push(&self, item: T, column_texts: Vec<String>) -> (r: Result<(), InjectorShutdown>)
        requires
            column_texts@.len() <= self.spec_match_columns(),
    {
        let live = self.live.load();
        self.push_observed(item, column_texts, live)
    }

    /// The push decision against an observed live version: the item goes in
    /// exactly when this handle's stamp is still current, and a stale
    /// handle gets the shutdown error.
    pub fn push_observed(&self, item: T, column_texts: Vec<String>, live: usize) -> (r: Result<
        (),
        InjectorShutdown,
    >)
        requires
            column_texts@.len() <= self.spec_match_columns(),
        ensures
            r is Ok <==> stamp_current(self.spec_stamp(), live),
    {
        if live != self.stamp {
            return Err(InjectorShutdown);
        }
        raw_push(self, item, column_texts);
        Ok(())
    }
}

impl<T: Sync + Send + 'static> Clone for Injector<T> {
    /// A clone is an independent handle carrying the same version stamp: it
    /// goes stale at the same bump as the handle it was cloned from.
    fn clone(&self) -> (r: Self)
        ensures
            r.spec_match_columns() == self.spec_match_columns(),
            r.spec_stamp() == self.spec_stamp(),
    {
        Injector {
            raw: raw_injector_clone(&self.raw),
            match_columns: self.match_columns,
            stamp: self.stamp,
            live: self.live.share(),
        }
    }
}

/// Relies on `nucleo::Injector::push`: appends the item to the engine's
/// item list, filling one match column per given text, in order. The fill
/// slice holds exactly the engine's column count, so no more texts than
/// that may be given.
#[verifier::external_body]
fn raw_push<T: Sync + Send + 'static>(inj: &Injector<T>, item: T, column_texts: Vec<String>)
    requires
        column_texts@.len() <= inj.spec_match_columns(),
{
    inj.raw.inner.push(item, |_, dst| {
        for (i, text) in column_texts.into_iter().enumerate() {
            dst[i] = text.as_str().into();
        }
    });
}

/// Relies on `nucleo::Injector::clone`: an independent handle feeding the
/// same item list.
#[verifier::external_body]
fn raw_injector_clone<T: Sync + Send + 'static>(raw: &RawHandle<T>) -> RawHandle<T> {
    RawHandle { inner: raw.inner.clone() }
}

} // verus!
