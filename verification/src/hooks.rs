//! Cooperative hooks around the picker: the dynamic-query debounce state
//! machine, and the gating decision for signature-help triggering.
//!
//! The debounce hook coalesces a burst of query edits into a single delayed
//! re-fetch. Each decision here is a pure function from state and event to
//! the next state and an action; the caller runs the timer and the async
//! callback, which this library cannot.
use vstd::prelude::*;
use crate::picker::Picker;
use crate::query::str_eq;

verus! {

/// How long the prompt must stay quiet before a dynamic re-query fires, in
/// milliseconds.
pub const DEBOUNCE_DELAY_MS: u64 = 275;

/// What the debounce hook asks its runner to do after a query event.
#[derive(Clone, Copy, PartialEq, Eq, Structural, Debug)]
pub enum DebounceAction {
    /// Cancel any pending timer: the query reverted to the last committed
    /// one, so no new request is needed.
    ClearTimer,
    /// (Re)arm the single debounce timer this many milliseconds from now.
    ArmTimer(u64),
}

/// The debounce hook's state: the last query it committed, and the one
/// pending behind the timer, if any.
pub struct DebounceHook {
    /// The last query a re-fetch was committed for.
    pub last_query: String,
    /// The query waiting behind the armed timer.
    pub pending: Option<String>,
}

impl DebounceHook {
    /// A hook that has committed nothing yet.
    pub fn new() -> (h: DebounceHook)
        ensures
            h.last_query@ == Seq::<char>::empty(),
            h.pending is None,
    {
        DebounceHook { last_query: String::new(), pending: None }
    }

    /// One query event. A query equal to the last committed one cancels any
    /// pending request — typing and then undoing must not re-fetch; any
    /// other query becomes pending and (re)arms the debounce timer.
    pub fn handle_event(&mut self, query: String) -> (r: DebounceAction)
        ensures
            query@ == old(self).last_query@ ==> r is ClearTimer && final(self).pending is None,
            query@ != old(self).last_query@ ==> r == DebounceAction::ArmTimer(DEBOUNCE_DELAY_MS)
                && final(self).pending == Some(query),
            final(self).last_query == old(self).last_query,
    {
        if str_eq(query.as_str(), self.last_query.as_str()) {
            self.pending = None;
            DebounceAction::ClearTimer
        } else {
            self.pending = Some(query);
            DebounceAction::ArmTimer(DEBOUNCE_DELAY_MS)
        }
    }

    /// Timer expiry: commits the pending query, if any, as the new last
    /// query and hands it back for the fetch callback; with nothing pending
    /// this does nothing.
    pub fn finish_debounce(&mut self) -> (r: Option<String>)
        ensures
            match old(self).pending {
                Some(q) => r == Some(q) && final(self).last_query == q
                    && final(self).pending is None,
                None => r is None && final(self).last_query == old(self).last_query
                    && final(self).pending is None,
            },
    {
        let taken = self.pending.take();
        match taken {
            Some(q) => {
                self.last_query = q.clone();
                Some(q)
            },
            None => None,
        }
    }
}

/// The dynamic picker variant: a picker whose contents are replaced
/// through a caller-supplied fetch whenever its committed query changes —
/// live grep, workspace symbols, and the like. The timer, the channel and
/// the async fetch belong to the host; the state and the decisions stand
/// here.
#[verifier::reject_recursive_types(T)]
pub struct DynamicPicker<T: Sync + Send + 'static> {
    /// The picker being driven.
    pub file_picker: Picker<T>,
    /// The last query line forwarded to the debounce hook.
    pub query: String,
    /// The debounce state behind the re-fetch timer.
    pub hook: DebounceHook,
}

impl<T: Sync + Send + 'static> DynamicPicker<T> {
    /// Wraps a picker for dynamic querying; nothing forwarded yet.
    pub fn new(file_picker: Picker<T>) -> (d: DynamicPicker<T>)
        ensures
            d.file_picker == file_picker,
            d.query@ == Seq::<char>::empty(),
            d.hook.last_query@ == Seq::<char>::empty(),
            d.hook.pending is None,
    {
        DynamicPicker { file_picker, query: String::new(), hook: DebounceHook::new() }
    }

    /// After the inner picker handled an event: if the primary column's
    /// query changed since it was last forwarded, hands it to the debounce
    /// hook and returns the timer action for the host to run.
    pub fn after_event(&mut self) -> (r: Option<DebounceAction>)
        requires
            old(self).file_picker.wf(),
        ensures
            final(self).file_picker == old(self).file_picker,
            ({
                let current = match old(self).file_picker.query.spec_get(
                    old(self).file_picker.column_names.deep_view()[old(
                        self,
                    ).file_picker.primary_column as int],
                ) {
                    Some(p) => p,
                    None => Seq::<char>::empty(),
                };
                if current == old(self).query@ {
                    r is None && final(self).query == old(self).query && final(self).hook == old(
                        self,
                    ).hook
                } else {
                    &&& final(self).query@ == current
                    &&& final(self).hook.last_query == old(self).hook.last_query
                    &&& (current == old(self).hook.last_query@ ==> r == Some(
                        DebounceAction::ClearTimer,
                    ) && final(self).hook.pending is None)
                    &&& (current != old(self).hook.last_query@ ==> r == Some(
                        DebounceAction::ArmTimer(DEBOUNCE_DELAY_MS),
                    ) && (final(self).hook.pending matches Some(q) && q@ == current))
                }
            }),
    {
        let current: String = match self.file_picker.primary_query() {
            Some(p) => p.clone(),
            None => String::new(),
        };
        if !str_eq(current.as_str(), self.query.as_str()) {
            self.query = current.clone();
            Some(self.hook.handle_event(current))
        } else {
            None
        }
    }
}

/// How signature help was asked for.
#[derive(Clone, Copy, PartialEq, Eq, Structural, Debug)]
pub enum SignatureHelpInvoked {
    /// The editor noticed a trigger character.
    Automatic,
    /// The user asked for it.
    Manual,
}

/// The event sent to the signature-help handler.
#[derive(Clone, Copy, PartialEq, Eq, Structural, Debug)]
pub enum SignatureHelpEvent {
    /// Explicitly invoked by the user.
    Invoked,
    /// Triggered automatically while typing.
    Trigger,
}

/// Which signature-help event to send, if any: a manual invocation always
/// goes through, an automatic one only when the user has automatic
/// signature help switched on.
pub fn signature_help_event(
    invoked: SignatureHelpInvoked,
    auto_signature_help: bool,
) -> (r: Option<SignatureHelpEvent>)
    ensures
        invoked is Manual ==> r == Some(SignatureHelpEvent::Invoked),
        invoked is Automatic && auto_signature_help ==> r == Some(SignatureHelpEvent::Trigger),
        invoked is Automatic && !auto_signature_help ==> r is None,
{
    match invoked {
        SignatureHelpInvoked::Manual => Some(SignatureHelpEvent::Invoked),
        SignatureHelpInvoked::Automatic => {
            if auto_signature_help {
                Some(SignatureHelpEvent::Trigger)
            } else {
                None
            }
        },
    }
}

} // verus!
