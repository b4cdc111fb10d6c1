use celeris::tmux::session::{Session, SessionBuilder};
use celeris::tmux::{
    run_result, socket_args, targeted_command, CmdOutput, EnvVar, Root, RootOptions,
    SessionTarget, Target, TerminalState, TmuxError,
};

fn fresh_session(name: &str, stdout: &str) -> Session {
    let builder = SessionBuilder::new(name.to_string());
    let args = builder.build_precheck(false).unwrap();
    assert_eq!(args[0], "new-session");
    builder.build_finish(stdout.to_string()).unwrap()
}

#[test]
fn build_fresh_name_succeeds() {
    let session = fresh_session("work", "@1|$5\n");
    assert_eq!(session.target().get(), "$5");
    assert_eq!(session.window_count, 0);
    assert_eq!(session.default_window_target.get(), "$5:@1");
}

#[test]
fn build_existing_name_fails() {
    let builder = SessionBuilder::new("work".to_string());
    let r = builder.build_precheck(true);
    assert!(matches!(r, Err(TmuxError::AlreadyExists { name }) if name == "work"));
}

#[test]
fn build_creation_args() {
    let builder = SessionBuilder::new("work".to_string());
    let args = builder.creation_args();
    assert_eq!(
        args,
        vec![
            "new-session".to_string(),
            "-d".to_string(),
            "-s".to_string(),
            "work".to_string(),
            "-P".to_string(),
            "-F".to_string(),
            "#{window_id}|#{session_id}".to_string(),
        ]
    );
}

#[test]
fn build_creation_args_with_root() {
    let mut builder = SessionBuilder::new("work".to_string());
    builder.root_checked("/srv/code".to_string(), true).unwrap();
    let args = builder.creation_args();
    assert_eq!(args[7], "-c");
    assert_eq!(args[8], "/srv/code");
}

#[test]
fn build_malformed_response() {
    let builder = SessionBuilder::new("work".to_string());
    let r = builder.build_finish("no delimiter here".to_string());
    assert!(matches!(r, Err(TmuxError::MalformedResponse { raw }) if raw == "no delimiter here"));
}

#[test]
fn recover_unknown_identifier_fails() {
    let r = Session::from_precheck("nonexistent", false);
    assert!(matches!(r, Err(TmuxError::TargetNotFound { address }) if address == "nonexistent"));
}

#[test]
fn recover_existing_session() {
    let args = Session::from_precheck("work", true).unwrap();
    assert_eq!(
        args,
        vec![
            "display-message".to_string(),
            "-p".to_string(),
            "-t".to_string(),
            "work".to_string(),
            "#{window_id}|#{session_id}|#{session_windows}".to_string(),
        ]
    );
    let session = Session::from_finish("@1|$5|3\n".to_string()).unwrap();
    assert_eq!(session.target().get(), "$5");
    assert_eq!(session.default_window_target.get(), "$5:@1");
    assert_eq!(session.window_count, 3);
}

#[test]
fn recover_malformed_count() {
    let r = Session::from_finish("@1|$5|three".to_string());
    assert!(matches!(r, Err(TmuxError::MalformedResponse { .. })));
    let r = Session::from_finish("@1|$5".to_string());
    assert!(matches!(r, Err(TmuxError::MalformedResponse { .. })));
}

#[test]
fn terminal_state_from_marker() {
    assert!(matches!(
        Session::terminal_state(&EnvVar::Present("/tmp/tmux-0/default,1,0".to_string())),
        Ok(TerminalState::InTmux)
    ));
    assert!(matches!(
        Session::terminal_state(&EnvVar::Unset),
        Ok(TerminalState::Normal)
    ));
    assert!(matches!(
        Session::terminal_state(&EnvVar::Invalid),
        Err(TmuxError::InvalidEnvironment)
    ));
}

#[test]
fn attach_inside_multiplexer_switches() {
    let session = fresh_session("work", "@1|$5");
    let args = session.attach_args(TerminalState::InTmux, true).unwrap();
    assert_eq!(args[0], "switch-client");
    assert_eq!(args, vec!["switch-client".to_string(), "-t".to_string(), "$5".to_string()]);
}

#[test]
fn attach_outside_multiplexer_attaches() {
    let session = fresh_session("work", "@1|$5");
    let args = session.attach_args(TerminalState::Normal, true).unwrap();
    assert_eq!(args[0], "attach-session");
}

#[test]
fn attach_failure_carries_stderr() {
    let session = fresh_session("work", "@1|$5");
    let r = session.attach_finish(false, "no server".to_string());
    assert!(matches!(
        r,
        Err(TmuxError::AttachFailed { target, stderr })
            if target == "$5" && stderr == "no server"
    ));
    assert!(session.attach_finish(true, String::new()).is_ok());
}

#[test]
fn first_registration_reclaims_then_counts() {
    let mut session = fresh_session("work", "@1|$5");
    assert!(session.register_window());
    assert_eq!(session.window_count, 1);
    assert!(!session.register_window());
    assert_eq!(session.window_count, 2);
    assert!(!session.register_window());
    assert_eq!(session.window_count, 3);
}

#[test]
fn active_name_states() {
    assert!(matches!(Session::active_name_plan(false, &EnvVar::Unset), Ok(None)));
    assert!(matches!(Session::active_name_plan(true, &EnvVar::Unset), Ok(None)));
    let q = Session::active_name_plan(true, &EnvVar::Present("x".to_string()))
        .unwrap()
        .unwrap();
    assert_eq!(q[0], "display-message");
    assert_eq!(Session::active_name_finish("main\n".to_string()), "main");
}

#[test]
fn list_sessions_states() {
    assert!(Session::list_sessions_plan(false).is_none());
    let q = Session::list_sessions_plan(true).unwrap();
    assert_eq!(q, vec!["list-sessions".to_string(), "-F".to_string(), "#{session_name}".to_string()]);
    let names = Session::list_sessions_finish("a\nb\nc\n".to_string());
    assert_eq!(names, vec!["a".to_string(), "b".to_string(), "c".to_string()]);
    let none = Session::list_sessions_finish("\n".to_string());
    assert!(none.is_empty());
}

#[test]
fn socket_override_choices() {
    let ok = socket_args(&EnvVar::Present("sock".to_string()), &EnvVar::Unset).unwrap();
    assert_eq!(ok, vec!["-L".to_string(), "sock".to_string()]);
    let ok = socket_args(&EnvVar::Unset, &EnvVar::Present("/tmp/s".to_string())).unwrap();
    assert_eq!(ok, vec!["-S".to_string(), "/tmp/s".to_string()]);
    let ok = socket_args(&EnvVar::Unset, &EnvVar::Unset).unwrap();
    assert!(ok.is_empty());
    assert!(matches!(
        socket_args(
            &EnvVar::Present("a".to_string()),
            &EnvVar::Present("b".to_string())
        ),
        Err(TmuxError::InvalidEnvironment)
    ));
    assert!(matches!(
        socket_args(&EnvVar::Invalid, &EnvVar::Unset),
        Err(TmuxError::InvalidEnvironment)
    ));
}

#[test]
fn runner_surfaces_failures() {
    let args = vec!["has-session".to_string()];
    let out = CmdOutput {
        success: true,
        valid_text: true,
        stdout: "yes".to_string(),
        stderr: String::new(),
    };
    assert_eq!(run_result(args.clone(), out).unwrap(), "yes");
    let out = CmdOutput {
        success: false,
        valid_text: true,
        stdout: String::new(),
        stderr: "boom".to_string(),
    };
    let r = run_result(args.clone(), out);
    assert!(matches!(
        r,
        Err(TmuxError::ExecutionFailed { args: a, stderr })
            if a == vec!["has-session".to_string()] && stderr == "boom"
    ));
}

#[test]
fn targeted_command_needs_existing_target() {
    let t = SessionTarget::new("gone");
    let r = targeted_command(&t, "kill-session", false);
    assert!(matches!(r, Err(TmuxError::TargetNotFound { address }) if address == "gone"));
    let args = targeted_command(&t, "kill-session", true).unwrap();
    assert_eq!(args, vec!["kill-session".to_string(), "-t".to_string(), "gone".to_string()]);
}

#[test]
fn root_validation() {
    let r = Root::checked("/missing".to_string(), false);
    assert!(matches!(r, Err(TmuxError::RootNotFound { path }) if path == "/missing"));
    let r = Root::checked("/srv".to_string(), true).unwrap();
    assert!(matches!(r.option(), RootOptions::Custom(p) if p == "/srv"));
    let r = Root::custom("/".to_string()).unwrap();
    assert!(matches!(r.option(), RootOptions::Custom(p) if p == "/"));
    let r = Root::custom("/definitely/not/a/real/path/here".to_string());
    assert!(matches!(r, Err(TmuxError::RootNotFound { .. })));
}
