use puzzle::tmux::{
    ask_new_viewport, ask_panes, ask_record, ask_viewport, ask_window, client_window_name,
    pane_is_listed, tagged_pane, tmux_error, tmux_socket, valid_window_slug, Answer, Ask,
    Setup, SetupStep, Teleporter, TmuxError, POLLS,
};

fn args(ask: &Ask) -> Vec<String> {
    match ask {
        Ask::Output { args, .. } => args.clone(),
        Ask::Status { args, .. } => args.clone(),
        Ask::Success { args } => args.clone(),
        Ask::Try { args } => args.clone(),
        _ => Vec::new(),
    }
}

fn teleporter() -> Teleporter {
    Teleporter {
        puzzle_pane: "%1".to_string(),
        window_id: "@1".to_string(),
        viewport_pane: "%2".to_string(),
    }
}

#[test]
fn slugs_of_windows_are_narrow() {
    for slug in ["a", "solver", "a_1", "9_b9"] {
        assert!(valid_window_slug(slug), "{slug}");
    }
    for slug in ["", "a b", "a;b", "$(x)", "\u{e9}", "A", "a-1", "_a", "a_", "a__b"] {
        assert!(!valid_window_slug(slug), "{slug}");
    }
}

#[test]
fn the_socket_is_in_the_environment() {
    assert_eq!(tmux_socket(Some("/tmp/tmux-1/default,12,0")).unwrap(), "/tmp/tmux-1/default");
    assert!(matches!(tmux_socket(None), Err(TmuxError::NotInside)));
    assert!(matches!(tmux_socket(Some(",1,0")), Err(TmuxError::NoSocket)));
    assert!(!TmuxError::NotInside.message().is_empty());
    assert!(!TmuxError::NoSocket.message().is_empty());
}

#[test]
fn panes_are_found_in_lists() {
    assert!(pane_is_listed("%1\n%2\n", "%2"));
    assert!(!pane_is_listed("%12\n", "%1"));
    assert_eq!(tagged_pane("%1\tsolver\n%2\tother\n", "other"), Some("%2".to_string()));
    assert_eq!(tagged_pane("%1\tsolver\n", "solve"), None);
    assert!(tmux_error(" no server \n").contains("no server"));
}

#[test]
fn questions_name_their_panes() {
    assert_eq!(line(&ask_window("%1")), "display-message -p -t %1 #{window_id}");
    assert_eq!(line(&ask_viewport("@1")), "show-option -wqv -t @1 @puzzle-viewport-pane");
    assert!(ask_panes("@1", "").is_none());
    assert_eq!(line(&ask_panes("@1", "%2").unwrap()), "list-panes -t @1 -F #{pane_id}");
    assert_eq!(line(&ask_new_viewport("%1")), "split-window -hdP -p 65 -F #{pane_id} -t %1");
    assert_eq!(line(&ask_record("@1", "%2")), "set-option -w -t @1 @puzzle-viewport-pane %2");
}

#[test]
fn names_of_client_windows_differ() {
    assert_eq!(client_window_name(17, 1700000000000000000), "client-17-1700000000000000000");
    assert!(client_window_name(1, 2) != client_window_name(1, 3));
}

#[test]
fn a_client_that_is_shown_stays() {
    let mut t = teleporter();
    let (mut show, ask) = t.show("solver", "name");
    assert!(args(&ask).len() > 0);
    let ask = t.go_on(&mut show, Answer::Text("%1\n%2\n".to_string()));
    assert!(matches!(ask, Ask::Output { .. }));
    let ask = t.go_on(&mut show, Answer::Text("%2\tsolver\n".to_string()));
    assert!(matches!(ask, Ask::Done));
    assert_eq!(t.viewport_pane, "%2");
}

fn line(ask: &Ask) -> String {
    args(ask).join(" ")
}

#[test]
fn a_client_is_started_and_swapped_in() {
    let mut t = teleporter();
    let (mut show, ask) = t.show("solver", "client-7-8");
    assert_eq!(line(&ask), "list-panes -t @1 -F #{pane_id}");
    let ask = t.go_on(&mut show, Answer::Text("%1\n%2".to_string()));
    assert_eq!(line(&ask), "list-panes -a -F #{pane_id}\t#{@puzzle-slug}");
    let ask = t.go_on(&mut show, Answer::Text("%5\tother".to_string()));
    assert!(matches!(&ask, Ask::Success { .. }));
    assert_eq!(line(&ask), "has-session -t puzzle-parking");
    let ask = t.go_on(&mut show, Answer::Succeeded(false));
    assert_eq!(line(&ask), "new-session -d -s puzzle-parking -n reserve");
    let ask = t.go_on(&mut show, Answer::Done);
    assert_eq!(
        line(&ask),
        "run-shell -b tmux new-window -ad -t puzzle-parking:reserve -n client-7-8 'exec muster codex tui --slug solver'"
    );
    let ask = t.go_on(&mut show, Answer::Done);
    assert!(matches!(&ask, Ask::Try { .. }));
    assert_eq!(line(&ask), "list-panes -t puzzle-parking:client-7-8 -F #{pane_id}");
    assert!(matches!(t.go_on(&mut show, Answer::Nothing), Ask::Pause));
    let ask = t.go_on(&mut show, Answer::Done);
    assert!(matches!(&ask, Ask::Try { .. }));
    let ask = t.go_on(&mut show, Answer::Text("%9".to_string()));
    assert_eq!(line(&ask), "set-option -p -t %9 @puzzle-slug solver");
    let ask = t.go_on(&mut show, Answer::Done);
    assert_eq!(line(&ask), "rename-window -t %9 solver");
    let ask = t.go_on(&mut show, Answer::Done);
    assert_eq!(line(&ask), "swap-pane -d -s %9 -t %2");
    let ask = t.go_on(&mut show, Answer::Done);
    assert_eq!(line(&ask), "set-option -w -t @1 @puzzle-viewport-pane %9");
    assert!(matches!(t.go_on(&mut show, Answer::Done), Ask::Done));
    assert_eq!(t.viewport_pane, "%9");
}

#[test]
fn a_client_that_does_not_come_is_given_up() {
    let mut t = teleporter();
    let (mut show, _) = t.show("solver", "n");
    t.go_on(&mut show, Answer::Text("%2".to_string()));
    t.go_on(&mut show, Answer::Text(String::new()));
    t.go_on(&mut show, Answer::Succeeded(true));
    let mut ask = t.go_on(&mut show, Answer::Done);
    let mut polls = 0;
    let reason = loop {
        match ask {
            Ask::Try { .. } => {
                polls += 1;
                ask = t.go_on(&mut show, Answer::Nothing);
            }
            Ask::Pause => ask = t.go_on(&mut show, Answer::Done),
            Ask::Fail(reason) => break reason,
            other => panic!("{:?}", other),
        }
    };
    assert_eq!(polls, 40);
    assert_eq!(reason, "tmux did not create a client pane for solver");
}

#[test]
fn a_bad_slug_starts_nothing() {
    let mut t = teleporter();
    let (mut show, mut ask) = t.show("a b", "name");
    for _ in 0..10 {
        match &ask {
            Ask::Fail(reason) => {
                assert_eq!(reason, "invalid window slug: a b");
                return;
            }
            Ask::Output { .. } => {
                ask = t.go_on(&mut show, Answer::Text("%1\n%2\n".to_string()));
            }
            Ask::Success { .. } => ask = t.go_on(&mut show, Answer::Succeeded(true)),
            other => panic!("{:?}", other),
        }
    }
    panic!("it did not end");
}

#[test]
fn focus_names_the_viewport() {
    let ask = teleporter().focus();
    assert_eq!(line(&ask), "select-pane -t %2");
    assert_eq!(POLLS, 40);
}

fn asked(step: SetupStep) -> String {
    match step {
        SetupStep::Ask(ask) => line(&ask),
        SetupStep::Ready(_) => panic!("ready"),
    }
}

#[test]
fn a_recorded_viewport_is_used_again() {
    let (mut setup, ask) = Setup::begin("%1");
    assert_eq!(line(&ask), "display-message -p -t %1 #{window_id}");
    let step = setup.go_on(Answer::Text("@1".to_string()));
    assert_eq!(asked(step), "show-option -wqv -t @1 @puzzle-viewport-pane");
    let step = setup.go_on(Answer::Text("%2".to_string()));
    assert_eq!(asked(step), "list-panes -t @1 -F #{pane_id}");
    match setup.go_on(Answer::Text("%1\n%2".to_string())) {
        SetupStep::Ready(t) => {
            assert_eq!(t.puzzle_pane, "%1");
            assert_eq!(t.window_id, "@1");
            assert_eq!(t.viewport_pane, "%2");
        }
        SetupStep::Ask(ask) => panic!("{:?}", ask),
    }
}

#[test]
fn a_viewport_that_is_gone_is_made_anew() {
    for recorded in ["", "%2"] {
        let (mut setup, _) = Setup::begin("%1");
        setup.go_on(Answer::Text("@1".to_string()));
        let mut step = setup.go_on(Answer::Text(recorded.to_string()));
        if !recorded.is_empty() {
            step = setup.go_on(Answer::Text("%1".to_string()));
        }
        assert_eq!(asked(step), "split-window -hdP -p 65 -F #{pane_id} -t %1");
        let step = setup.go_on(Answer::Text("%3".to_string()));
        assert_eq!(asked(step), "set-option -w -t @1 @puzzle-viewport-pane %3");
        match setup.go_on(Answer::Done) {
            SetupStep::Ready(t) => assert_eq!(t.viewport_pane, "%3"),
            SetupStep::Ask(ask) => panic!("{:?}", ask),
        }
    }
}
