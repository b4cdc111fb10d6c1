use celeris::cli::{CliSwitchTarget, CreateOptions, ListSessionsConflicting, ListSessionsOptions};
use celeris::config::Config;
use celeris::directory_manager::DirectoryManagerBuilder;
use celeris::fuzzy::{highlight_state, HighlightState};
use celeris::layout::{editor_decision, template_decision, EditorDecision, TemplateDecision};
use celeris::paths::DirPath;
use celeris::repos::{format_repos, Repo};
use celeris::session_manager::{run, Options, SessionManager, SwitchPlan, SwitchTarget};
use celeris::text::{fmt_u64, parse_u64, split_all, split_once_at, trim_ws};

fn opts() -> Options {
    Options {
        tmux_format: false,
        include_active: false,
        exclude_running: false,
        only_running: false,
    }
}

fn strings(v: &[&str]) -> Vec<String> {
    v.iter().map(|s| s.to_string()).collect()
}

#[test]
fn listing_merges_sorts_and_dedups() {
    let out = run(
        strings(&["b", "a"]),
        strings(&["c", "a"]),
        None,
        &opts(),
    );
    assert_eq!(out, "a\nb\nc");
}

#[test]
fn listing_marks_active_when_included() {
    let mut o = opts();
    o.include_active = true;
    let out = run(strings(&["b", "a"]), strings(&["c", "a"]), Some("c".to_string()), &o);
    assert_eq!(out, "a\nb\nc*");
}

#[test]
fn listing_hides_active_by_default() {
    let out = run(
        strings(&["b", "a"]),
        strings(&["c", "a"]),
        Some("c".to_string()),
        &opts(),
    );
    assert_eq!(out, "a\nb");
}

#[test]
fn listing_excludes_running() {
    let mut o = opts();
    o.exclude_running = true;
    let out = run(strings(&["a", "b"]), strings(&["a"]), None, &o);
    assert_eq!(out, "b");
}

#[test]
fn listing_only_running() {
    let mut o = opts();
    o.only_running = true;
    o.include_active = true;
    let out = run(strings(&["a", "b"]), strings(&["a", "c"]), Some("c".to_string()), &o);
    assert_eq!(out, "a\nc*");
}

#[test]
fn listing_status_bar_format() {
    let mut o = opts();
    o.tmux_format = true;
    let out = run(strings(&["b", "a"]), strings(&[]), None, &o);
    assert_eq!(out, "a b");
}

#[test]
fn switch_plan_decisions() {
    let running = strings(&["one", "two"]);
    assert_eq!(
        SessionManager::switch_plan("one", &Some("one".to_string()), &running),
        SwitchPlan::AlreadyAttached
    );
    assert_eq!(
        SessionManager::switch_plan("two", &Some("one".to_string()), &running),
        SwitchPlan::AttachRunning
    );
    assert_eq!(
        SessionManager::switch_plan("three", &Some("one".to_string()), &running),
        SwitchPlan::RunLayout
    );
    assert_eq!(
        SessionManager::switch_plan("stored", &None, &strings(&[])),
        SwitchPlan::RunLayout
    );
}

#[test]
fn running_sessions_drop_the_active_one() {
    let filtered = SessionManager::running_sessions(
        &Some("b".to_string()),
        strings(&["a", "b", "c"]),
    );
    assert_eq!(filtered, strings(&["a", "c"]));
    let untouched = SessionManager::running_sessions(&None, strings(&["a", "b"]));
    assert_eq!(untouched, strings(&["a", "b"]));
}

#[test]
fn template_decisions() {
    assert_eq!(template_decision(true, true), TemplateDecision::LeaveEmpty);
    assert_eq!(template_decision(true, false), TemplateDecision::LeaveEmpty);
    assert_eq!(template_decision(false, true), TemplateDecision::GenerateCustom);
    assert_eq!(template_decision(false, false), TemplateDecision::GenerateDefault);
}

#[test]
fn editor_decisions() {
    assert_eq!(editor_decision(true), EditorDecision::DontSpawn);
    assert_eq!(editor_decision(false), EditorDecision::Spawn);
}

#[test]
fn config_defaults() {
    let config = Config::default();
    assert!(config.editor.is_none());
    assert_eq!(config.depth, 10);
    assert!(!config.search_subdirs);
    assert!(config.search_roots.is_empty());
    assert!(config.excludes.is_empty());
    assert!(!config.disable_template);
}

#[test]
fn directories_resolve() {
    let builder = DirectoryManagerBuilder::new();
    let m = builder
        .build(Some("/home/u/.config".to_string()), Some("/home/u/.cache".to_string()))
        .unwrap();
    assert_eq!(m.config_dir(), "/home/u/.config/celeris");
    assert_eq!(m.cache_dir(), "/home/u/.cache/celeris");
    assert_eq!(m.layouts_dir(), "/home/u/.config/celeris/layouts");
}

#[test]
fn directories_prefer_custom() {
    let mut builder = DirectoryManagerBuilder::new();
    builder.config_dir_checked("/custom/conf".to_string(), true).unwrap();
    let m = builder.build(Some("/ignored".to_string()), Some("/c".to_string())).unwrap();
    assert_eq!(m.config_dir(), "/custom/conf");
    assert_eq!(m.layouts_dir(), "/custom/conf/layouts");
}

#[test]
fn directories_require_some_location() {
    let builder = DirectoryManagerBuilder::new();
    assert!(builder.build(None, Some("/c".to_string())).is_err());
    assert!(builder.build(Some("/c".to_string()), None).is_err());
}

#[test]
fn custom_directory_must_exist() {
    let mut builder = DirectoryManagerBuilder::new();
    let r = builder.config_dir_checked("/missing".to_string(), false);
    assert!(r.is_err());
    assert!(builder.custom_config_path.is_none());
}

#[test]
fn switch_target_conversion() {
    let t = CliSwitchTarget { last_session: true, name: None };
    assert!(matches!(t.to_switch_target(), SwitchTarget::LastSession));
    let t = CliSwitchTarget { last_session: false, name: Some("work".to_string()) };
    assert!(matches!(t.to_switch_target(), SwitchTarget::Session(n) if n == "work"));
}

#[test]
fn list_options_conversion() {
    let o = ListSessionsOptions {
        tmux_format: true,
        conflicting: ListSessionsConflicting {
            include_active: true,
            exclude_running: false,
            only_running: true,
        },
    };
    let m = o.to_options();
    assert!(m.tmux_format && m.include_active && !m.exclude_running && m.only_running);
}

#[test]
fn create_options_conversion() {
    let o = CreateOptions {
        path: "/srv/p".to_string(),
        name: Some("n".to_string()),
        disable_editor: true,
        machine_readable: false,
    };
    let c = o.to_create_session_options();
    assert_eq!(c.path, "/srv/p");
    assert_eq!(c.name.as_deref(), Some("n"));
    assert!(c.disable_editor && !c.machine_readable);
}

#[test]
fn repo_listing_aligns_paths() {
    let repos = vec![
        Repo { name: "a".to_string(), path: DirPath::new(strings(&["srv", "a"])) },
        Repo { name: "longer".to_string(), path: DirPath::new(strings(&["srv", "b"])) },
    ];
    let lines = format_repos(&repos).unwrap();
    assert_eq!(lines[0], "a          -- /srv/a");
    assert_eq!(lines[1], "longer     -- /srv/b");
    assert!(format_repos(&Vec::new()).is_err());
}

#[test]
fn highlight_states() {
    let idx = vec![0u32, 2u32];
    assert_eq!(highlight_state(&idx, 0), HighlightState::Highlighted);
    assert_eq!(highlight_state(&idx, 1), HighlightState::NotHighlighted);
    assert_eq!(highlight_state(&idx, 2), HighlightState::Highlighted);
    assert_eq!(highlight_state(&idx, 3), HighlightState::NotHighlighted);
}

#[test]
fn text_helpers() {
    assert_eq!(trim_ws("  a b \n"), "a b");
    assert_eq!(trim_ws("\r\n"), "");
    let (a, b) = split_once_at("x|y|z", '|').unwrap();
    assert_eq!((a.as_str(), b.as_str()), ("x", "y|z"));
    assert!(split_once_at("xyz", '|').is_none());
    assert_eq!(split_all("a\nb\nc", '\n'), strings(&["a", "b", "c"]));
    assert_eq!(parse_u64("0"), Some(0));
    assert_eq!(parse_u64("18446744073709551615"), Some(u64::MAX));
    assert_eq!(parse_u64("18446744073709551616"), None);
    assert_eq!(parse_u64("12a"), None);
    assert_eq!(parse_u64(""), None);
    assert_eq!(fmt_u64(0), "0");
    assert_eq!(fmt_u64(120), "120");
    assert_eq!(fmt_u64(u64::MAX), "18446744073709551615");
}

#[test]
fn path_display() {
    let p = DirPath::new(strings(&["srv", "code", "proj"]));
    assert_eq!(p.display(), "/srv/code/proj");
    assert_eq!(DirPath::new(Vec::new()).display(), "");
}

#[test]
fn highlight_runs() {
    let chars: Vec<char> = "abcde".chars().collect();
    let indicies = vec![1u32, 2u32, 4u32];
    let runs: Vec<celeris::fuzzy::ItemHighlight> = celeris::fuzzy::item_highlights(&chars, &indicies);
    let shown: Vec<(bool, &str)> = runs
        .iter()
        .map(|r| (r.highlight_state == HighlightState::Highlighted, r.text.as_str()))
        .collect();
    assert_eq!(shown, vec![(false, "a"), (true, "bc"), (false, "d"), (true, "e")]);
    assert!(celeris::fuzzy::item_highlights(&Vec::new(), &indicies).is_empty());
}
