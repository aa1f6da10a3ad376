use picker::hooks::{
    signature_help_event, DebounceAction, DebounceHook, DynamicPicker, SignatureHelpEvent,
    SignatureHelpInvoked, DEBOUNCE_DELAY_MS,
};
use picker::picker::{Column, Picker};

#[test]
fn a_new_query_arms_the_debounce_timer() {
    let mut hook = DebounceHook::new();
    assert_eq!(
        hook.handle_event("a".to_string()),
        DebounceAction::ArmTimer(DEBOUNCE_DELAY_MS)
    );
    assert_eq!(hook.finish_debounce(), Some("a".to_string()));
    assert_eq!(hook.last_query, "a");
}

#[test]
fn reverting_within_the_window_commits_nothing() {
    let mut hook = DebounceHook::new();
    // One committed query: "a".
    hook.handle_event("a".to_string());
    assert_eq!(hook.finish_debounce(), Some("a".to_string()));
    // The user types on to "ab", then reverts to "a" before the timer
    // fires: the pending request is cancelled and nothing is committed.
    assert_eq!(
        hook.handle_event("ab".to_string()),
        DebounceAction::ArmTimer(DEBOUNCE_DELAY_MS)
    );
    assert_eq!(hook.handle_event("a".to_string()), DebounceAction::ClearTimer);
    assert_eq!(hook.finish_debounce(), None);
    assert_eq!(hook.last_query, "a");
}

#[test]
fn expiry_with_nothing_pending_is_a_no_op() {
    let mut hook = DebounceHook::new();
    assert_eq!(hook.finish_debounce(), None);
    assert_eq!(hook.last_query, "");
}

#[test]
fn each_edit_rearms_the_single_timer() {
    let mut hook = DebounceHook::new();
    assert_eq!(
        hook.handle_event("a".to_string()),
        DebounceAction::ArmTimer(DEBOUNCE_DELAY_MS)
    );
    assert_eq!(
        hook.handle_event("ab".to_string()),
        DebounceAction::ArmTimer(DEBOUNCE_DELAY_MS)
    );
    // Only the latest pending query is committed, once.
    assert_eq!(hook.finish_debounce(), Some("ab".to_string()));
    assert_eq!(hook.finish_debounce(), None);
}

#[test]
fn signature_help_gating() {
    assert_eq!(
        signature_help_event(SignatureHelpInvoked::Manual, false),
        Some(SignatureHelpEvent::Invoked)
    );
    assert_eq!(
        signature_help_event(SignatureHelpInvoked::Manual, true),
        Some(SignatureHelpEvent::Invoked)
    );
    assert_eq!(
        signature_help_event(SignatureHelpInvoked::Automatic, true),
        Some(SignatureHelpEvent::Trigger)
    );
    assert_eq!(signature_help_event(SignatureHelpInvoked::Automatic, false), None);
}

#[test]
fn dynamic_picker_forwards_only_changed_queries() {
    let p: Picker<String> = Picker::new(vec![Column::new("path".to_string())], 0);
    let mut d = DynamicPicker::new(p);
    // Nothing typed yet: nothing to forward.
    assert_eq!(d.after_event(), None);
    d.file_picker.update_line("a".to_string());
    assert_eq!(
        d.after_event(),
        Some(DebounceAction::ArmTimer(DEBOUNCE_DELAY_MS))
    );
    // The same query again is not forwarded twice.
    assert_eq!(d.after_event(), None);
    assert_eq!(d.hook.finish_debounce(), Some("a".to_string()));
    d.file_picker.update_line("".to_string());
    assert_eq!(
        d.after_event(),
        Some(DebounceAction::ArmTimer(DEBOUNCE_DELAY_MS))
    );
    // Reverting to the last committed query cancels the pending request.
    d.file_picker.update_line("a".to_string());
    assert_eq!(d.after_event(), Some(DebounceAction::ClearTimer));
    assert_eq!(d.hook.finish_debounce(), None);
}
