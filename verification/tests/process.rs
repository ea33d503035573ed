//! How the child is found, started and ended.

use acp_adapter::process::{
    build_argv, child_env, platform_binary_name, resolve_binary, Ending, EnvChange, Ladder,
    LadderAction, LadderEvent, Os, ResolveError, SpawnError, SpawnOptions, StderrTail, Timings,
    KILL_WAIT, STDERR_TAIL_CAP,
};

#[test]
fn inv_25_resolve_binary_platform_names() {
    // No path, no env, no binary on the search path: an error that names the
    // platform-specific binary.
    let nowhere: Vec<String> = Vec::new();
    let err = resolve_binary(None, None, "/definitely/empty", "agent", Os::Windows, &nowhere)
        .expect_err("windows lookup must fail");
    assert!(err.describe().contains("agent.exe"), "windows name: {}", err.describe());

    let err = resolve_binary(None, None, "/definitely/empty", "agent", Os::Unix, &nowhere)
        .expect_err("unix lookup must fail");
    assert!(err.describe().contains("`agent`"), "unix name: {}", err.describe());

    // The platform name is what is searched for.
    assert_eq!(platform_binary_name("agent", Os::Windows), "agent.exe");
    assert_eq!(platform_binary_name("agent", Os::Unix), "agent");
}

#[test]
fn resolve_binary_precedence() {
    let nowhere: Vec<String> = Vec::new();
    // The variable takes precedence over the search path.
    let r = resolve_binary(None, Some("/opt/agent"), "/no/such/path", "agent", Os::Unix, &nowhere)
        .expect("env path");
    assert_eq!(r, "/opt/agent");

    // An explicit path wins over the variable.
    let r = resolve_binary(
        Some("/explicit"),
        Some("/opt/agent"),
        "/nope",
        "agent",
        Os::Unix,
        &nowhere,
    )
    .expect("explicit path");
    assert_eq!(r, "/explicit");
}

#[test]
fn search_path_is_searched() {
    let present = vec!["/usr/bin".to_string(), "".to_string()];
    let r = resolve_binary(None, Some(""), "/bin:/usr/bin", "agent", Os::Unix, &present);
    assert_eq!(r, Ok("agent".to_string()));
    // An empty entry of the path is skipped.
    let r = resolve_binary(None, None, "::/bin", "agent", Os::Unix, &present);
    assert_eq!(r, Err(ResolveError::NotFound { name: "agent".to_string() }));
}

#[test]
fn inv_25_text_only_argv_and_env() {
    let opts = SpawnOptions {
        session_id: Some("11111111-2222-3333-4444-555566667777".to_string()),
        permission_mode: Some("default".to_string()),
        disallowed_tools: vec!["AskUserQuestion".to_string()],
        include_partial_messages: true,
        permission_prompt_tool: true,
        allow_dangerously_skip_permissions: true,
        replay_user_messages: true,
        ..Default::default()
    };
    assert_eq!(
        build_argv(&opts),
        vec![
            "--output-format",
            "stream-json",
            "--verbose",
            "--input-format",
            "stream-json",
            "--permission-prompt-tool",
            "stdio",
            "--disallowedTools",
            "AskUserQuestion",
            "--setting-sources=user,project,local",
            "--permission-mode",
            "default",
            "--allow-dangerously-skip-permissions",
            "--include-partial-messages",
            "--session-id=11111111-2222-3333-4444-555566667777",
            "--replay-user-messages",
            "",
        ]
    );
    let env = child_env(&vec![("A".to_string(), "1".to_string())]);
    assert!(env.contains(&EnvChange::Put { name: "A".to_string(), value: "1".to_string() }));
    assert!(env.iter().any(
        |c| matches!(c, EnvChange::Put { name, .. } if name == "CLAUDE_CODE_ENTRYPOINT")
    ));
    assert!(env.contains(&EnvChange::Put {
        name: "CLAUDE_CODE_EMIT_SESSION_STATE_EVENTS".to_string(),
        value: "1".to_string()
    }));
    assert!(env.contains(&EnvChange::Remove { name: "NODE_OPTIONS".to_string() }));
}

#[test]
fn argv_with_model_tools_and_resume() {
    let opts = SpawnOptions {
        resume: Some("s1".to_string()),
        model: Some("m1".to_string()),
        tools: Some(vec!["Read".to_string(), "Bash".to_string()]),
        setting_sources: vec![],
        ..Default::default()
    };
    assert_eq!(
        build_argv(&opts),
        vec![
            "--output-format",
            "stream-json",
            "--verbose",
            "--input-format",
            "stream-json",
            "--model",
            "m1",
            "--resume=s1",
            "--tools",
            "Read,Bash",
            "--setting-sources=",
        ]
    );
}

#[test]
fn usual_timings() {
    let t = Timings::default();
    assert_eq!(t.stdin_close_wait, 2_000);
    assert_eq!(t.term_to_kill_wait, 5_000);
    assert_eq!(t.force_cancel_grace, 30_000);
    assert_eq!(t.stderr_drain_cap, 200);
}

#[test]
fn inv_05_kill_ladder() {
    let t = Timings::default();
    // A child that ignores the end of its input and the request to end.
    let mut seen = Vec::new();
    let mut ladder = Ladder::start(Ending::Shutdown);
    loop {
        seen.push(ladder.last);
        let event = match ladder.last {
            LadderAction::Wait(_) => LadderEvent::TimedOut,
            LadderAction::Done | LadderAction::GiveUp => break,
            _ => LadderEvent::Happened,
        };
        ladder = ladder.next(event, &t);
    }
    assert_eq!(
        seen,
        vec![
            LadderAction::CloseStdin,
            LadderAction::Wait(t.stdin_close_wait),
            LadderAction::Term,
            LadderAction::Wait(t.term_to_kill_wait),
            LadderAction::Kill,
            LadderAction::Wait(KILL_WAIT),
            LadderAction::Done,
        ]
    );
    // A child that ends by itself is not signalled.
    let ladder = Ladder::start(Ending::Shutdown)
        .next(LadderEvent::Happened, &t)
        .next(LadderEvent::Happened, &t);
    assert_eq!(ladder.last, LadderAction::Done);
    // A signal that cannot be sent ends the shutdown.
    let ladder = Ladder::start(Ending::Shutdown)
        .next(LadderEvent::Failed, &t)
        .next(LadderEvent::TimedOut, &t)
        .next(LadderEvent::Failed, &t);
    assert_eq!(ladder.last, LadderAction::GiveUp);
}

#[test]
fn inv_06_no_orphan_after_dispose() {
    let t = Timings::default();
    // Whatever happens, the child is killed and collected.
    for stuck in [LadderEvent::Happened, LadderEvent::TimedOut, LadderEvent::Failed] {
        let mut seen = Vec::new();
        let mut ladder = Ladder::start(Ending::Dispose);
        while ladder.last != LadderAction::Done && seen.len() < 20 {
            seen.push(ladder.last);
            ladder = ladder.next(stuck, &t);
        }
        assert!(seen.contains(&LadderAction::Kill), "{seen:?}");
        assert_eq!(seen.last(), Some(&LadderAction::Reap), "{seen:?}");
    }
}

#[test]
fn inv_04_stderr_drained() {
    let mut tail = StderrTail::new();
    tail.push(b"STDERR_");
    tail.push(b"MARKER_12345\n");
    assert!(tail.text().contains("STDERR_MARKER_12345"));
    // Only the end of a long output is kept.
    tail.push(&vec![b'x'; STDERR_TAIL_CAP + 5]);
    tail.push(b"END");
    let text = tail.text();
    assert_eq!(text.len(), STDERR_TAIL_CAP);
    assert!(text.ends_with("xEND"));
    assert!(!text.contains("MARKER"));
    // Bytes that are no UTF-8 are replaced.
    let mut tail = StderrTail::new();
    tail.push(&[b'a', 0xff, b'b']);
    assert_eq!(tail.text(), "a\u{FFFD}b");
}

#[test]
fn tail_does_not_depend_on_the_pieces() {
    let all: Vec<u8> = (0..5000u32).map(|i| b'a' + (i % 26) as u8).collect();
    let mut whole = StderrTail::new();
    whole.push(&all);
    for size in [1, 7, 100, 2048, 4999] {
        let mut tail = StderrTail::new();
        for piece in all.chunks(size) {
            tail.push(piece);
        }
        assert_eq!(tail.text(), whole.text());
    }
}

#[test]
fn spawn_errors_are_described() {
    assert_eq!(
        SpawnError::Spawn { binary: "b".into(), source: "s".into() }.describe(),
        "failed to spawn `b`: s"
    );
    assert_eq!(SpawnError::Stdin("e".into()).describe(), "failed to write to child stdin: e");
    assert_eq!(SpawnError::Signal("e".into()).describe(), "failed to signal child: e");
    assert_eq!(
        SpawnError::ExitedEarly { tail: "t".into() }.describe(),
        "child exited early (no result frame): t"
    );
    let not_found = ResolveError::NotFound { name: "agent".into() };
    assert_eq!(
        SpawnError::Resolve(not_found.clone()).describe(),
        format!("failed to resolve the executable: {}", not_found.describe())
    );
}

#[test]
fn usual_arguments_name_no_tools() {
    assert_eq!(
        build_argv(&SpawnOptions::default()),
        vec![
            "--output-format",
            "stream-json",
            "--verbose",
            "--input-format",
            "stream-json",
            "--setting-sources=user,project,local",
        ]
    );
    let none = SpawnOptions { tools: Some(vec![]), ..Default::default() };
    assert!(build_argv(&none).windows(2).any(|w| w == ["--tools", ""]));
    let usual = SpawnOptions { tools: Some(vec!["default".to_string()]), ..Default::default() };
    assert!(build_argv(&usual).windows(2).any(|w| w == ["--tools", "default"]));
}
