use playlist_studio::safety::{
    PlaylistId, SafetyError, SafetyPolicy, Tier, DELETE_CONFIRMATION_WORD,
};

fn pid(s: &str) -> PlaylistId {
    PlaylistId(s.to_string())
}

#[test]
fn unknown_playlists_are_protected_by_default() {
    let policy = SafetyPolicy::new();
    assert_eq!(policy.tier(&pid("abc")), Tier::Protected);
    assert!(!policy.is_session(&pid("abc")));
}

#[test]
fn created_playlists_are_session_tier() {
    let mut policy = SafetyPolicy::new();
    policy.note_created(pid("new1"), "My Session Mix");
    assert_eq!(policy.tier(&pid("new1")), Tier::Session);
    assert_eq!(
        policy.session_playlists(),
        vec![(pid("new1"), "My Session Mix".to_string())]
    );
}

#[test]
fn a_fresh_session_treats_previous_sessions_playlists_as_protected() {
    let mut session1 = SafetyPolicy::new();
    session1.note_created(pid("older"), "From Last Time");
    assert_eq!(session1.tier(&pid("older")), Tier::Session);

    let session2 = SafetyPolicy::new();
    assert_eq!(session2.tier(&pid("older")), Tier::Protected);
    assert!(session2
        .authorize_content_edit(&pid("older"), "From Last Time")
        .is_err());
}

#[test]
fn content_edit_grant_only_for_session_playlists() {
    let mut policy = SafetyPolicy::new();
    policy.note_created(pid("s1"), "Session One");

    let grant = policy
        .authorize_content_edit(&pid("s1"), "Session One")
        .unwrap();
    assert_eq!(grant.id(), &pid("s1"));

    let err = policy
        .authorize_content_edit(&pid("longstanding"), "Road Trip 2019")
        .unwrap_err();
    assert_eq!(
        err,
        SafetyError::ProtectedContentEdit {
            id: pid("longstanding"),
            name: "Road Trip 2019".to_string()
        }
    );
}

#[test]
fn session_delete_is_free_but_protected_delete_requires_guarded_flow() {
    let mut policy = SafetyPolicy::new();
    policy.note_created(pid("s1"), "Session One");

    let grant = policy
        .authorize_session_delete(&pid("s1"), "Session One")
        .unwrap();
    assert_eq!(grant.id(), &pid("s1"));

    let err = policy
        .authorize_session_delete(&pid("keeper"), "Keeper")
        .unwrap_err();
    assert!(matches!(
        err,
        SafetyError::GuardedConfirmationRequired { .. }
    ));
}

#[test]
fn guarded_flow_happy_path_requires_exact_word() {
    let mut policy = SafetyPolicy::new();
    policy.begin_guarded_delete(pid("victim"), "Old Playlist");
    assert!(policy.pending_delete().is_some());

    let grant = policy
        .confirm_guarded_delete(&pid("victim"), "delete")
        .unwrap();
    assert_eq!(grant.id(), &pid("victim"));
    assert_eq!(grant.name(), "Old Playlist");
    assert_eq!(
        policy.confirm_guarded_delete(&pid("victim"), "delete"),
        Err(SafetyError::NoPendingDeletion)
    );
}

#[test]
fn guarded_flow_rejects_and_cancels_on_any_mismatched_text() {
    for wrong in [
        "", "Delete", "DELETE", " delete", "delete ", "del", "yes", "delete!",
    ] {
        let mut policy = SafetyPolicy::new();
        policy.begin_guarded_delete(pid("victim"), "Old Playlist");
        assert_eq!(
            policy.confirm_guarded_delete(&pid("victim"), wrong),
            Err(SafetyError::ConfirmationMismatch),
            "input {wrong:?} must be rejected"
        );
        assert!(policy.pending_delete().is_none());
        assert_eq!(
            policy.confirm_guarded_delete(&pid("victim"), "delete"),
            Err(SafetyError::NoPendingDeletion),
            "flow must require re-arming after a mismatch"
        );
    }
}

#[test]
fn guarded_flow_is_bound_to_the_armed_playlist_only() {
    let mut policy = SafetyPolicy::new();
    policy.begin_guarded_delete(pid("armed"), "Armed Playlist");
    let err = policy
        .confirm_guarded_delete(&pid("other"), "delete")
        .unwrap_err();
    assert_eq!(
        err,
        SafetyError::PendingDeletionMismatch {
            pending_name: "Armed Playlist".to_string()
        }
    );
    assert!(policy.pending_delete().is_none());
}

#[test]
fn arming_twice_keeps_only_the_latest_target() {
    let mut policy = SafetyPolicy::new();
    policy.begin_guarded_delete(pid("first"), "First");
    policy.begin_guarded_delete(pid("second"), "Second");
    assert_eq!(
        policy.confirm_guarded_delete(&pid("first"), "delete"),
        Err(SafetyError::PendingDeletionMismatch {
            pending_name: "Second".to_string()
        })
    );
}

#[test]
fn cancel_disarms_the_flow() {
    let mut policy = SafetyPolicy::new();
    policy.begin_guarded_delete(pid("victim"), "Old Playlist");
    assert!(policy.cancel_pending_delete());
    assert!(!policy.cancel_pending_delete());
    assert_eq!(
        policy.confirm_guarded_delete(&pid("victim"), "delete"),
        Err(SafetyError::NoPendingDeletion)
    );
}

#[test]
fn deleting_a_session_playlist_removes_it_from_the_registry() {
    let mut policy = SafetyPolicy::new();
    policy.note_created(pid("s1"), "Session One");
    policy.note_deleted(&pid("s1"));
    assert_eq!(policy.tier(&pid("s1")), Tier::Protected);
    assert!(policy.session_playlists().is_empty());
}

#[test]
fn rename_updates_registry_name() {
    let mut policy = SafetyPolicy::new();
    policy.note_created(pid("s1"), "Draft");
    policy.note_renamed(&pid("s1"), "Final Name");
    assert_eq!(
        policy.session_playlists(),
        vec![(pid("s1"), "Final Name".to_string())]
    );
    policy.note_renamed(&pid("ghost"), "Spooky");
    assert_eq!(policy.tier(&pid("ghost")), Tier::Protected);
}

#[test]
fn guarded_flow_also_works_for_session_playlists_stricter_is_fine() {
    let mut policy = SafetyPolicy::new();
    policy.note_created(pid("s1"), "Session One");
    policy.begin_guarded_delete(pid("s1"), "Session One");
    let grant = policy.confirm_guarded_delete(&pid("s1"), "delete").unwrap();
    assert_eq!(grant.id(), &pid("s1"));
}

// ---------------------------------------------------------------------
// Further checks of the policy's laws on concrete values.
// ---------------------------------------------------------------------

#[test]
fn session_playlists_are_listed_by_name() {
    let mut policy = SafetyPolicy::new();
    policy.note_created(pid("b"), "Zebra");
    policy.note_created(pid("a"), "Apple");
    policy.note_created(pid("c"), "Mango");
    assert_eq!(
        policy.session_playlists(),
        vec![
            (pid("a"), "Apple".to_string()),
            (pid("c"), "Mango".to_string()),
            (pid("b"), "Zebra".to_string()),
        ]
    );
}

#[test]
fn renaming_keeps_every_tier() {
    let mut policy = SafetyPolicy::new();
    policy.note_created(pid("s1"), "One");
    policy.note_renamed(&pid("s1"), "Uno");
    assert_eq!(policy.tier(&pid("s1")), Tier::Session);
    assert_eq!(policy.tier(&pid("p1")), Tier::Protected);
}

#[test]
fn deleted_then_recreated_is_session_again() {
    let mut policy = SafetyPolicy::new();
    policy.note_created(pid("s1"), "One");
    policy.note_deleted(&pid("s1"));
    assert!(!policy.is_session(&pid("s1")));
    policy.note_created(pid("s1"), "One again");
    assert!(policy.is_session(&pid("s1")));
}

#[test]
fn protected_session_delete_names_the_playlist() {
    let policy = SafetyPolicy::new();
    assert_eq!(
        policy.authorize_session_delete(&pid("keeper"), "Keeper"),
        Err(SafetyError::GuardedConfirmationRequired {
            id: pid("keeper"),
            name: "Keeper".to_string()
        })
    );
}

#[test]
fn arming_reports_the_armed_record() {
    let mut policy = SafetyPolicy::new();
    let p = policy.begin_guarded_delete(pid("x"), "X List");
    assert_eq!(p.id, pid("x"));
    assert_eq!(p.name, "X List");
    assert_eq!(policy.pending_delete(), Some(&p));
}

#[test]
fn confirmation_word_is_delete() {
    assert_eq!(DELETE_CONFIRMATION_WORD, "delete");
}

#[test]
fn tier_labels() {
    assert_eq!(Tier::Session.label(), "session");
    assert_eq!(Tier::Protected.label(), "protected");
}

#[test]
fn error_messages_name_the_playlist() {
    let e = SafetyError::ProtectedContentEdit {
        id: pid("x"),
        name: "Road Trip".to_string(),
    };
    assert!(e.message().contains("Road Trip"));
    assert!(!SafetyError::NoPendingDeletion.message().is_empty());
}
