use opencode_gpui::startup::{after_first_attempt, retry_delay, setup_failed, Startup, StartupAction};

fn error_of(action: &StartupAction) -> Option<&str> {
    match action {
        StartupAction::Fail { error, .. } => Some(error),
        _ => None,
    }
}

#[test]
fn without_a_client_the_setup_error_is_reported() {
    assert_eq!(error_of(&setup_failed(Some("bad url".into()))), Some("bad url"));
    assert_eq!(error_of(&setup_failed(None)), Some("client setup failed"));
}

#[test]
fn first_attempt_decides_or_starts_retrying() {
    let (_, action) = after_first_attempt(Ok(()), Some(Ok(true)));
    assert!(matches!(action, StartupAction::Ready { server: true }));
    let (_, action) = after_first_attempt(Ok(()), Some(Err("spawn failed".into())));
    assert!(matches!(action, StartupAction::Ready { server: false }));
    let (_, action) = after_first_attempt(Err("refused".into()), Some(Err("spawn failed".into())));
    assert_eq!(error_of(&action), Some("spawn failed"));
    let (state, action) = after_first_attempt(Err("refused".into()), None);
    assert!(matches!(action, StartupAction::Retry { delay_ms: 50 }));
    assert!(!state.autostart);
    assert_eq!(state.last_error, "refused");
}

#[test]
fn a_server_that_exits_ends_the_wait() {
    let state = Startup { autostart: true, server: true, last_error: "refused".into(), round: 0 };
    assert!(state.after_server_check(Ok(None)).is_none());
    let exited = state.after_server_check(Ok(Some("exit status: 1".into()))).unwrap();
    assert_eq!(
        error_of(&exited),
        Some("local opencode server exited before becoming ready (exit status: 1)")
    );
    let unknown = state.after_server_check(Err("wait failed".into())).unwrap();
    assert_eq!(error_of(&unknown), Some("wait failed"));
}

#[test]
fn retries_double_and_then_give_up() {
    assert_eq!(
        (0..8).map(retry_delay).collect::<Vec<_>>(),
        [Some(50), Some(100), Some(200), Some(400), Some(800), Some(1600), Some(3200), None]
    );
    let mut state = Startup { autostart: true, server: false, last_error: "refused".into(), round: 0 };
    for expected in [100, 200, 400, 800, 1600, 3200] {
        assert!(matches!(
            state.after_retry(Err("refused".into())),
            StartupAction::Retry { delay_ms } if delay_ms == expected
        ));
    }
    let last = state.after_retry(Err("timed out".into()));
    assert_eq!(
        error_of(&last),
        Some(
            "could not connect to opencode after startup retries: port 4096 is occupied but is not responding as OpenCode; free it or set OPENCODE_SERVER_URL (timed out)"
        )
    );
    let mut plain = Startup { autostart: false, server: false, last_error: "refused".into(), round: 6 };
    assert_eq!(
        error_of(&plain.after_retry(Err("refused".into()))),
        Some("could not connect to opencode after startup retries: refused")
    );
    let mut ok = Startup { autostart: true, server: true, last_error: "refused".into(), round: 3 };
    assert!(matches!(ok.after_retry(Ok(())), StartupAction::Ready { server: true }));
}
