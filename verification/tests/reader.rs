use puzzle::app::{App, ApprovalDecision, Mode, PendingApproval, RunState};
use puzzle::keys::{Code, Key};
use puzzle::model::{ContentBlock, ConversationEntry, EntryKind};

fn entry() -> ConversationEntry {
    ConversationEntry {
        kind: EntryKind::User,
        blocks: vec![ContentBlock::ToolResult {
            content: "x".to_string(),
            is_error: false,
            collapsed: true,
        }],
        uuid: None,
        seq: None,
        timestamp: None,
        input_tokens: None,
        output_tokens: None,
    }
}

fn collapsed(app: &App, at: usize) -> bool {
    matches!(&app.entries[at].blocks[0], ContentBlock::ToolResult { collapsed: true, .. })
}

fn with_entries(count: usize) -> App {
    let mut app = App::new(false);
    for _ in 0..count {
        app.push_entry(entry());
    }
    app
}

#[test]
fn the_selection_moves_within_the_entries() {
    let mut app = with_entries(3);
    assert_eq!(app.selected, Some(2));
    app.handle_key(Key::of(Code::Char('k')));
    assert_eq!(app.selected, Some(1));
    app.handle_key(Key::of(Code::Char('g')));
    assert_eq!(app.selected, Some(0));
    app.handle_key(Key::of(Code::Char('k')));
    assert_eq!(app.selected, Some(0));
    app.handle_key(Key::of(Code::Char('G')));
    assert_eq!(app.selected, Some(2));
    app.handle_key(Key::of(Code::Char('j')));
    assert_eq!(app.selected, Some(2));
}

#[test]
fn unfolding_twice_restores() {
    let mut app = with_entries(1);
    app.handle_key(Key::of(Code::Enter));
    assert!(!collapsed(&app, 0));
    app.handle_key(Key::of(Code::Enter));
    assert!(collapsed(&app, 0));
}

#[test]
fn a_question_takes_all_keys() {
    let mut app = with_entries(1);
    app.pending_approval = Some(PendingApproval {
        tool_name: "Bash".to_string(),
        input_summary: "rm".to_string(),
    });
    assert!(!app.handle_key(Key::of(Code::Char('x'))));
    let question = app.pending_approval.as_ref().unwrap();
    assert_eq!((question.tool_name.as_str(), question.input_summary.as_str()), ("Bash", "rm"));
    assert!(!app.should_quit);
    app.handle_key(Key::of(Code::Char('y')));
    assert!(app.pending_approval.is_none());
    assert_eq!(app.approval_decision, Some(ApprovalDecision::Allow));
}

#[test]
fn a_question_can_be_refused() {
    let mut app = with_entries(1);
    app.pending_approval = Some(PendingApproval {
        tool_name: "Bash".to_string(),
        input_summary: "rm".to_string(),
    });
    app.handle_key(Key::of(Code::Char('n')));
    assert_eq!(app.approval_decision, Some(ApprovalDecision::Deny));
}

#[test]
fn keys_go_to_the_prompt_when_typing() {
    let mut app = App::new(true);
    app.mode = Mode::Input;
    assert!(app.handle_key(Key::of(Code::Char('q'))));
    assert!(!app.should_quit);
    app.run_state = RunState::Running;
    assert!(!app.handle_key(Key::of(Code::Char('q'))));
}

#[test]
fn q_ends_the_reader() {
    let mut app = App::new(false);
    app.handle_key(Key::of(Code::Char('q')));
    assert!(app.should_quit);
}

#[test]
fn only_a_text_is_submitted() {
    let app = App::new(true);
    assert_eq!(app.submit_input(&vec!["".to_string(), "  ".to_string()]), None);
    assert_eq!(
        app.submit_input(&vec![" a".to_string(), "b ".to_string()]),
        Some(" a\nb ".to_string())
    );
}
