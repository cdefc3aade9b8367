//! Session model tests: lifecycle, chunk queue, shell choice.

use term_render::pty::{choose_shell, PtySession, SessionStatus, ShellChoice};

#[test]
fn test_poll_drains_in_order() {
    let mut session = PtySession::new();
    session.start();
    session.push_chunk(vec![1, 2, 3]);
    session.push_chunk(vec![4]);
    session.push_chunk(vec![5, 6]);
    let drained = session.poll();
    assert_eq!(drained, vec![vec![1, 2, 3], vec![4], vec![5, 6]]);
}

#[test]
fn test_poll_idempotent() {
    // a second poll with no new output yields nothing: no duplication,
    // no lost carryover
    let mut session = PtySession::new();
    session.start();
    session.push_chunk(vec![7, 8]);
    let first = session.poll();
    assert_eq!(first.len(), 1);
    let second = session.poll();
    assert!(second.is_empty());
}

#[test]
fn test_poll_empty_session() {
    let mut session = PtySession::new();
    session.start();
    assert!(session.poll().is_empty());
}

#[test]
fn test_lifecycle_states() {
    let mut session = PtySession::new();
    assert_eq!(session.status, SessionStatus::Initializing);
    assert!(!session.can_transmit());
    session.start();
    assert_eq!(session.status, SessionStatus::Running);
    assert!(session.can_transmit());
    session.mark_exited(0);
    assert_eq!(session.status, SessionStatus::Exited(0));
    assert!(!session.can_transmit());
}

#[test]
fn test_errored_is_terminal() {
    let mut session = PtySession::new();
    session.start();
    session.mark_errored();
    assert_eq!(session.status, SessionStatus::Errored);
    assert!(!session.can_transmit());
}

#[test]
fn test_exit_keeps_pending_chunks() {
    // data read before the child exited is still delivered
    let mut session = PtySession::new();
    session.start();
    session.push_chunk(vec![9]);
    session.mark_exited(1);
    let drained = session.poll();
    assert_eq!(drained, vec![vec![9]]);
}

#[test]
fn test_choose_shell_chain() {
    assert_eq!(choose_shell(true, true, true), ShellChoice::Configured);
    assert_eq!(choose_shell(true, false, false), ShellChoice::Configured);
    assert_eq!(choose_shell(false, true, true), ShellChoice::Bash);
    assert_eq!(choose_shell(false, false, true), ShellChoice::Zsh);
    assert_eq!(choose_shell(false, false, false), ShellChoice::Sh);
}
