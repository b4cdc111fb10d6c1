use celeris::script::{parse_split_size, SplitOptions};
use celeris::tmux::pane::{build_pane, Direction, SplitSize};
use celeris::tmux::session::SessionBuilder;
use celeris::tmux::window::{Window, WindowBuilder};
use celeris::tmux::{Target, TmuxError};

fn scenario_session() -> celeris::tmux::session::Session {
    let builder = SessionBuilder::new("scenario".to_string());
    builder.build_precheck(false).unwrap();
    builder.build_finish("@1|$3".to_string()).unwrap()
}

#[test]
fn window_creation_args_compose_options() {
    let session = scenario_session();
    let builder = WindowBuilder::new(&session)
        .name("build".to_string())
        .raw_command("make".to_string());
    let args = builder.create_args(true).unwrap();
    assert_eq!(
        args,
        vec![
            "new-window".to_string(),
            "-t".to_string(),
            "$3".to_string(),
            "-P".to_string(),
            "-F".to_string(),
            "#{pane_id}|#{window_id}".to_string(),
            "-n".to_string(),
            "build".to_string(),
            "-c".to_string(),
            "#{pane_current_path}".to_string(),
            "make".to_string(),
        ]
    );
}

#[test]
fn window_custom_root_passes_through() {
    let session = scenario_session();
    let builder = WindowBuilder::new(&session)
        .root_checked("/srv/code".to_string(), true)
        .unwrap();
    let args = builder.create_args(true).unwrap();
    assert!(args.contains(&"-c".to_string()));
    assert!(args.contains(&"/srv/code".to_string()));
    assert!(!args.contains(&"#{pane_current_path}".to_string()));
}

#[test]
fn window_missing_root_rejected() {
    let session = scenario_session();
    let r = WindowBuilder::new(&session).root_checked("/missing".to_string(), false);
    assert!(matches!(r, Err(TmuxError::RootNotFound { path }) if path == "/missing"));
}

#[test]
fn window_response_derives_targets() {
    let session = scenario_session();
    let builder = WindowBuilder::new(&session);
    let core = builder.create_finish("%0|@2\n".to_string()).unwrap();
    assert_eq!(core.target.get(), "$3:@2");
    assert_eq!(core.default_pane_target.get(), "$3:@2.%0");
}

#[test]
fn window_malformed_response() {
    let session = scenario_session();
    let builder = WindowBuilder::new(&session);
    let r = builder.create_finish("garbage".to_string());
    assert!(matches!(r, Err(TmuxError::MalformedResponse { raw }) if raw == "garbage"));
}

#[test]
fn named_window_locks_rename() {
    let session = scenario_session();
    let builder = WindowBuilder::new(&session).name("build".to_string());
    let core = builder.create_finish("%0|@2".to_string()).unwrap();
    let post = builder.post_build_args(&core, true).unwrap().unwrap();
    assert_eq!(
        post,
        vec![
            "set-window-option".to_string(),
            "-t".to_string(),
            "$3:@2".to_string(),
            "allow-rename".to_string(),
            "off".to_string(),
        ]
    );
    let unnamed = WindowBuilder::new(&session);
    let core = unnamed.create_finish("%0|@2".to_string()).unwrap();
    assert!(unnamed.post_build_args(&core, true).unwrap().is_none());
}

#[test]
fn window_operations_target_the_window() {
    let session = scenario_session();
    let core = WindowBuilder::new(&session)
        .create_finish("%0|@2".to_string())
        .unwrap();
    let select = core.select_args(true).unwrap();
    assert_eq!(select, vec!["select-window".to_string(), "-t".to_string(), "$3:@2".to_string()]);
    let even = core.even_out_args(Direction::Vertical, true).unwrap();
    assert_eq!(even[3], "even-vertical");
    let even = core.even_out_args(Direction::Horizontal, true).unwrap();
    assert_eq!(even[3], "even-horizontal");
    let mv = core.move_kill_args(&session.default_window_target, true).unwrap();
    assert_eq!(
        mv,
        vec![
            "move-window".to_string(),
            "-t".to_string(),
            "$3:@2".to_string(),
            "-s".to_string(),
            "$3:@2".to_string(),
            "-t".to_string(),
            "$3:@1".to_string(),
            "-k".to_string(),
        ]
    );
}

#[test]
fn split_percentage_boundary() {
    let session = scenario_session();
    let core = WindowBuilder::new(&session)
        .create_finish("%0|@2".to_string())
        .unwrap();
    let window = Window::new(core);
    let pane = window.default_pane();

    let ok = pane
        .split(Direction::Horizontal)
        .size(SplitSize::Percentage(100))
        .split_args(true);
    assert!(ok.is_ok());

    let zero = pane
        .split(Direction::Horizontal)
        .size(SplitSize::Percentage(0))
        .split_args(true)
        .unwrap();
    assert!(zero.contains(&"0%".to_string()));

    let over = pane
        .split(Direction::Horizontal)
        .size(SplitSize::Percentage(101))
        .split_args(true);
    assert!(matches!(over, Err(TmuxError::InvalidPercentage { value }) if value == 101));
}

#[test]
fn split_absolute_size_written_bare() {
    let session = scenario_session();
    let core = WindowBuilder::new(&session)
        .create_finish("%0|@2".to_string())
        .unwrap();
    let window = Window::new(core);
    let args = window
        .default_pane()
        .split(Direction::Vertical)
        .size(SplitSize::Absolute(1))
        .split_args(true)
        .unwrap();
    let l = args.iter().position(|a| a == "-l").unwrap();
    assert_eq!(args[l + 1], "1");
    assert!(args.contains(&"-v".to_string()));
}

#[test]
fn split_keeps_the_window() {
    let session = scenario_session();
    let core = WindowBuilder::new(&session)
        .create_finish("%0|@2".to_string())
        .unwrap();
    let window = Window::new(core);
    let sibling = window.default_pane();
    let new_pane = sibling
        .split(Direction::Vertical)
        .build_finish("%8\n".to_string());
    assert_eq!(new_pane.target().get(), "$3:@2.%8");
    assert_eq!(sibling.target().get(), "$3:@2.%0");
}

#[test]
fn pane_operations() {
    let pane = build_pane(
        celeris::tmux::SessionTarget::new("$3")
            .window_target("@2")
            .pane_target("%0"),
    );
    let select = pane.select(true).unwrap();
    assert_eq!(select, vec!["select-pane".to_string(), "-t".to_string(), "$3:@2.%0".to_string()]);
    let keys = pane.run_command("cat", true).unwrap();
    assert_eq!(
        keys,
        vec![
            "send-keys".to_string(),
            "-t".to_string(),
            "$3:@2.%0".to_string(),
            "cat".to_string(),
            "Enter".to_string(),
        ]
    );
    let stale = pane.select(false);
    assert!(matches!(stale, Err(TmuxError::TargetNotFound { address }) if address == "$3:@2.%0"));
}

#[test]
fn scenario_window_then_split() {
    // Bring up a session, build one named window against it, then split its
    // default pane one cell wide; every step is checked on the invocations
    // and identities the library produces.
    let builder = SessionBuilder::new("scenario".to_string());
    builder.build_precheck(false).unwrap();
    let mut session = builder.build_finish("@1|$3".to_string()).unwrap();

    let wb = WindowBuilder::new(&session).name("build".to_string());
    wb.create_args(true).unwrap();
    let core = wb.create_finish("%4|@7".to_string()).unwrap();
    let reclaim = session.register_window();
    assert!(reclaim, "the first window must reclaim the implicit one");
    assert_eq!(session.window_count, 1, "exactly one window after the first build");
    let mv = core.move_kill_args(&session.default_window_target, true).unwrap();
    assert_eq!(mv[mv.len() - 1], "-k");
    let window = Window::new(core);

    let split_args = window
        .default_pane()
        .split(Direction::Vertical)
        .size(SplitSize::Absolute(1))
        .split_args(true)
        .unwrap();
    let l = split_args.iter().position(|a| a == "-l").unwrap();
    assert_eq!(split_args[l + 1], "1");
    let new_pane = window
        .default_pane()
        .split(Direction::Vertical)
        .build_finish("%9".to_string());
    assert_eq!(new_pane.target().get(), "$3:@7.%9");
    assert_eq!(window.default_pane().target().get(), "$3:@7.%4");
}

#[test]
fn split_size_text_forms() {
    assert_eq!(parse_split_size("420").unwrap(), SplitSize::Absolute(420));
    assert_eq!(parse_split_size("69%").unwrap(), SplitSize::Percentage(69));
    assert_eq!(parse_split_size(" 42 ").unwrap(), SplitSize::Absolute(42));
    assert!(parse_split_size("&420").is_err());
    assert!(parse_split_size(" 69 %").is_err());
    assert!(parse_split_size("-69-% ").is_err());
    assert!(parse_split_size("300%").is_err());
    assert!(parse_split_size("").is_err());
}

#[test]
fn split_options_become_builders() {
    let session = scenario_session();
    let core = WindowBuilder::new(&session)
        .create_finish("%0|@2".to_string())
        .unwrap();
    let window = Window::new(core);
    let pane = window.default_pane();

    let opts = SplitOptions { root: None, size: Some("69%".to_string()) };
    let builder = opts.try_into_builder(&pane, Direction::Vertical).unwrap();
    assert_eq!(builder.opts.size, Some(SplitSize::Percentage(69)));

    let opts = SplitOptions { root: None, size: Some("420".to_string()) };
    let builder = opts.try_into_builder(&pane, Direction::Horizontal).unwrap();
    assert_eq!(builder.opts.size, Some(SplitSize::Absolute(420)));

    let opts = SplitOptions { root: None, size: Some("&420".to_string()) };
    assert!(opts.try_into_builder(&pane, Direction::Vertical).is_err());

    let opts = SplitOptions { root: None, size: None };
    let builder = opts.try_into_builder(&pane, Direction::Vertical).unwrap();
    assert!(builder.opts.size.is_none());
}
