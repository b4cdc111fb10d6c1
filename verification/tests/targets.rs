use celeris::tmux::{exists_probe_args, PaneTarget, SessionTarget, Target};

const TARGET_TEST_STR: &str = "test";

#[test]
fn session_target() {
    assert_eq!(
        SessionTarget::new(TARGET_TEST_STR).get(),
        &format!("{TARGET_TEST_STR}")
    );
}

#[test]
fn window_target() {
    let session_target = SessionTarget::new(TARGET_TEST_STR);
    let window_target = session_target.window_target(TARGET_TEST_STR);
    assert_eq!(
        window_target.get(),
        &format!("{TARGET_TEST_STR}:{TARGET_TEST_STR}")
    );
}

#[test]
fn pane_target() {
    let session_target = SessionTarget::new(TARGET_TEST_STR);
    let window_target = session_target.window_target(TARGET_TEST_STR);
    let pane_target = window_target.pane_target(TARGET_TEST_STR);
    assert_eq!(
        pane_target.get(),
        &format!("{TARGET_TEST_STR}:{TARGET_TEST_STR}.{TARGET_TEST_STR}")
    );
}

#[test]
fn sibling_pane_shares_window() {
    let pane = SessionTarget::new("$1").window_target("@2").pane_target("%3");
    let sibling = PaneTarget::from_sibling(&pane, "%7");
    assert_eq!(sibling.get(), "$1:@2.%7");
    assert_eq!(pane.get(), "$1:@2.%3");
}

#[test]
fn existence_probe_is_has_session() {
    let t = SessionTarget::new("work");
    let args = exists_probe_args(&t);
    assert_eq!(args, vec!["has-session".to_string(), "-t".to_string(), "work".to_string()]);
}
