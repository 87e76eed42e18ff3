use realm_session::backend::{BackendContractError, BackendWindowId};
use realm_session::identities::{LedgerEdit, WindowIdentities};
use realm_session::policy::SessionEventError;

fn id(text: &str) -> BackendWindowId {
    BackendWindowId::new(text.to_owned()).unwrap()
}

#[test]
fn opened_windows_get_numbers_once_and_are_bound_once() {
    let mut identities = WindowIdentities::new(7);

    let first = identities.opened(&id("a"), "foot", "shell").unwrap();
    assert_eq!((first.win, first.edit, first.assign), (7, LedgerEdit::Summon(7), true));
    assert_eq!(identities.next_win_id(), 8);

    let again = identities.opened(&id("a"), "foot", "vim").unwrap();
    assert_eq!((again.win, again.edit, again.assign), (7, LedgerEdit::Summon(7), false));
    assert_eq!(identities.next_win_id(), 8);
    assert_eq!(identities.metadata(7).unwrap().title, "vim");

    let second = identities.opened(&id("b"), "yazi", "files").unwrap();
    assert_eq!((second.win, second.assign), (8, true));
    assert_eq!(identities.realm_window(&id("b")), Some(8));
    assert!(identities.is_bound(&id("b")));
}

#[test]
fn closed_windows_are_banished_and_forgotten() {
    let mut identities = WindowIdentities::new(1);
    identities.opened(&id("a"), "foot", "shell").unwrap();
    identities.opened(&id("b"), "foot", "shell").unwrap();

    assert_eq!(identities.closed(&id("a")), Ok(LedgerEdit::Banish(1)));
    assert_eq!(identities.realm_window(&id("a")), None);
    assert!(!identities.is_bound(&id("a")));
    assert!(identities.metadata(1).is_none());
    assert_eq!(identities.realm_window(&id("b")), Some(2));

    assert_eq!(
        identities.closed(&id("a")),
        Err(SessionEventError::BackendContract(
            BackendContractError::UnknownWindowReference
        ))
    );

    let reopened = identities.opened(&id("a"), "foot", "shell").unwrap();
    assert_eq!((reopened.win, reopened.assign), (3, true));
}

#[test]
fn titles_are_normalized_and_unknown_windows_refused() {
    let mut identities = WindowIdentities::new(1);
    identities.opened(&id("a"), "foot", "shell").unwrap();

    identities.title_changed(&id("a"), &"x".repeat(100)).unwrap();
    let metadata = identities.metadata(1).unwrap();
    assert_eq!(metadata.app_id, "foot");
    assert_eq!(metadata.title, format!("{}…", "x".repeat(77)));

    assert_eq!(
        identities.title_changed(&id("zz"), "t"),
        Err(SessionEventError::BackendContract(
            BackendContractError::UnknownWindowReference
        ))
    );
}

#[test]
fn opening_a_new_window_fails_when_numbers_run_out() {
    let mut identities = WindowIdentities::new(u64::MAX);
    assert_eq!(
        identities.opened(&id("a"), "foot", "shell").err(),
        Some(SessionEventError::WindowIdExhausted)
    );
    assert_eq!(identities.realm_window(&id("a")), None);
    assert_eq!(identities.next_win_id(), u64::MAX);
}
