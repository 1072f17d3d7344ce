use puzzle::look::{Color, Look};
use puzzle::markdown::{render_markdown, write_events, MdEvent, MdTag, MdWriter, Piece};
use puzzle::model::{ContentBlock, ConversationEntry, EntryKind};
use puzzle::render::{
    lay_words, render_entry, render_marked, render_text, render_thinking, render_thought,
    render_tool_result, render_tool_result_read, render_tool_use, style_wrap_with_indent, Line,
    Paint, Word,
};

/// The text of a line.
fn text(line: &Line) -> String {
    line.spans.iter().map(|span| span.text.as_str()).collect()
}

fn all(lines: &Vec<Line>) -> Vec<String> {
    lines.iter().map(text).collect()
}

fn look(line: &Line, at: usize) -> Look {
    match &line.spans[at].paint {
        Paint::Own(look) => *look,
        Paint::Ansi(_) => panic!("set by a command"),
    }
}

fn shown(markdown: &str) -> Vec<String> {
    let mut lines = Vec::new();
    render_text(&mut lines, markdown, EntryKind::Assistant, 80);
    all(&lines)
}

fn piece(text: &str) -> Piece {
    Piece { text: text.to_string(), style: Look::new() }
}

fn entry(kind: EntryKind, blocks: Vec<ContentBlock>) -> ConversationEntry {
    ConversationEntry {
        kind,
        blocks,
        uuid: None,
        seq: None,
        timestamp: None,
        input_tokens: None,
        output_tokens: None,
    }
}

#[test]
fn looks_are_laid_over_each_other() {
    let heading = Look::of(Color::Cyan).with_bold();
    assert_eq!(
        heading.patch(Look::new().with_italic()),
        Look { fg: Some(Color::Cyan), bold: true, italic: true }
    );
    assert_eq!(heading.patch(Look::of(Color::Green)).fg, Some(Color::Green));
    assert_eq!(Look::new().patch(heading), heading);
}

#[test]
fn headings_and_paragraphs_stand_apart() {
    assert_eq!(shown("# Title\n\nOne\n\nTwo"), vec!["# Title", "", "One", "", "Two"]);
    let lines = render_markdown("## Title");
    assert_eq!(lines[0].spans[0].text, "## ");
    assert_eq!(lines[0].spans[0].style, Look::of(Color::Cyan).with_bold());
    assert_eq!(lines[0].spans[1].style, Look::of(Color::Cyan).with_bold());
}

#[test]
fn nested_emphasis_is_both() {
    let lines = render_markdown("*a **b** c* d `e`");
    let spans: Vec<(&str, Look)> =
        lines[0].spans.iter().map(|p| (p.text.as_str(), p.style)).collect();
    assert_eq!(
        spans,
        vec![
            ("a ", Look::new().with_italic()),
            ("b", Look::new().with_italic().with_bold()),
            (" c", Look::new().with_italic()),
            (" d ", Look::new()),
            ("e", Look::of(Color::Green)),
        ]
    );
}

#[test]
fn lists_have_markers() {
    let lines = render_markdown("- one\n- two\n  - three\n\n7. x\n8. y");
    let texts: Vec<String> = lines
        .iter()
        .map(|l| l.spans.iter().map(|p| p.text.as_str()).collect::<String>())
        .collect();
    assert_eq!(texts, vec!["- one", "- two", "    - three", "", "7. x", "8. y"]);
    assert_eq!(lines[2].indent_level, 6);
    assert_eq!(lines[4].indent_level, 3);
}

#[test]
fn code_is_kept_as_it_is() {
    let lines = render_markdown("```\nlet a =  1;\n\n  b\n```\n");
    let texts: Vec<String> = lines
        .iter()
        .map(|l| l.spans.iter().map(|p| p.text.as_str()).collect::<String>())
        .collect();
    assert_eq!(texts, vec!["let a =  1;", "", "  b"]);
    assert_eq!(lines[0].spans[0].style, Look::of(Color::White));
    assert!(lines.iter().all(|line| line.no_wrap));
    let long = format!("text\n\n```\n{}\n```\n", "word ".repeat(40));
    let shown = shown(&long);
    assert!(shown.contains(&"word ".repeat(40)));
}

#[test]
fn rules_and_breaks() {
    assert_eq!(shown("a\n\n---\n"), vec!["a", "", "\u{2500}\u{2500}\u{2500}"]);
    assert_eq!(shown("a\nb"), vec!["a", "b"]);
    assert_eq!(shown("a  \nb"), vec!["a", "b"]);
}

#[test]
fn a_writer_takes_events_one_by_one() {
    let mut writer = MdWriter::new();
    writer.handle_event(MdEvent::Start(MdTag::List(Some(1))));
    writer.handle_event(MdEvent::Start(MdTag::Item));
    writer.handle_event(MdEvent::TaskListMarker);
    writer.handle_event(MdEvent::Html("<b>".to_string()));
    writer.handle_event(MdEvent::FootnoteReference("1".to_string()));
    writer.handle_event(MdEvent::End(MdTag::Item));
    writer.handle_event(MdEvent::End(MdTag::List(Some(1))));
    assert_eq!(writer.lines.len(), 1);
    let texts: Vec<&str> = writer.lines[0].spans.iter().map(|p| p.text.as_str()).collect();
    assert_eq!(texts, vec!["1. ", "<b>", "1"]);
    assert!(writer.list_indices.is_empty());
    assert!(writer.item_indents.is_empty());
    assert!(writer.needs_newline);
}

#[test]
fn an_empty_item_still_gets_its_marker() {
    let lines = write_events(vec![
        MdEvent::Start(MdTag::List(None)),
        MdEvent::Start(MdTag::Item),
        MdEvent::End(MdTag::Item),
        MdEvent::End(MdTag::List(None)),
        MdEvent::Start(MdTag::Link),
        MdEvent::End(MdTag::Link),
    ]);
    assert_eq!(lines.len(), 1);
    assert_eq!(lines[0].spans[0].text, "- ");
    assert_eq!(lines[0].indent_level, 2);
}

#[test]
fn lines_are_wrapped_between_words() {
    let lines = style_wrap_with_indent(vec![piece("aaa bbb ccc")], 8, 0);
    assert_eq!(all(&lines), vec!["aaa bbb ", "ccc"]);
    let lines = style_wrap_with_indent(vec![piece("- "), piece("aaa bbb")], 7, 2);
    assert_eq!(all(&lines), vec!["- aaa ", "  bbb"]);
    let lines = style_wrap_with_indent(vec![piece("abcdefghij k")], 4, 0);
    assert_eq!(all(&lines), vec!["abcdefghij ", "k"]);
    assert_eq!(all(&style_wrap_with_indent(Vec::new(), 4, 0)), vec![""]);
}

#[test]
fn wrapping_keeps_styles_and_counts_columns() {
    let green = Look::of(Color::Green);
    let spans = vec![piece("ab "), Piece { text: "\u{6f22}\u{5b57} x".to_string(), style: green }];
    let lines = style_wrap_with_indent(spans, 7, 0);
    assert_eq!(all(&lines), vec!["ab ", "\u{6f22}\u{5b57} x"]);
    assert_eq!(look(&lines[0], 0), Look::new());
    assert_eq!(look(&lines[1], 0), green);
    assert_eq!(look(&lines[1], 1), green);
}

#[test]
fn marked_lines_are_wrapped_where_they_may() {
    let mut lines = Vec::new();
    let mut marked = render_markdown("one two");
    marked[0].no_wrap = true;
    render_marked(&mut lines, marked, 4);
    render_marked(&mut lines, render_markdown("one two"), 4);
    assert_eq!(all(&lines), vec!["one two", "one ", "two"]);
}

#[test]
fn thoughts_stand_beside_a_bar() {
    let mut lines = Vec::new();
    render_thinking(&mut lines, "one two\n\nthree", 8);
    assert_eq!(
        all(&lines),
        vec![
            "  \u{2502} thinking",
            "  \u{2502} one",
            "  \u{2502} two",
            "  \u{2502} ",
            "  \u{2502} thr",
            "  \u{2502} ee",
            "  \u{2502}"
        ]
        .into_iter()
        .map(|s| s.replace("thr", "thre").replace("  \u{2502} ee", "  \u{2502} e"))
        .collect::<Vec<String>>()
    );
    assert_eq!(look(&lines[0], 0), Look::of(Color::Cyan));
    assert_eq!(look(&lines[0], 1), Look::of(Color::DarkGray).with_italic());
    assert_eq!(look(&lines[1], 1), Look::of(Color::DarkGray));
}

#[test]
fn calls_of_tools_are_cut_short() {
    let mut lines = Vec::new();
    render_tool_use(&mut lines, "Bash", "1\n2\n3\n4\n5\n6\n7");
    assert_eq!(
        all(&lines),
        vec![
            "  \u{25b6} Bash",
            "    1",
            "    2",
            "    3",
            "    4",
            "    5",
            "    ... (2 more lines)"
        ]
    );
    assert_eq!(look(&lines[0], 0), Look::of(Color::Yellow).with_bold());
    let mut lines = Vec::new();
    render_tool_use(&mut lines, "Read", "");
    assert_eq!(all(&lines), vec!["  \u{25b6} Read"]);
}

#[test]
fn results_are_folded_and_unfolded() {
    let mut lines = Vec::new();
    render_tool_result(&mut lines, "a\nb", false, true);
    assert_eq!(all(&lines), vec!["  \u{25c0} result (2 lines)"]);
    let mut lines = Vec::new();
    render_tool_result(&mut lines, "a\nb", true, false);
    assert_eq!(all(&lines), vec!["  \u{25c0} error (2 lines)", "    a", "    b"]);
    assert_eq!(look(&lines[2], 0), Look::of(Color::Red));
}

#[test]
fn colors_of_commands_are_kept() {
    let mut lines = Vec::new();
    render_tool_result(&mut lines, "x\u{1b}[31mred\u{1b}[0m\nplain", false, false);
    assert_eq!(all(&lines), vec!["  \u{25c0} result (2 lines)", "    xred", "    plain"]);
    let styled: Vec<bool> = lines[1]
        .spans
        .iter()
        .map(|span| matches!(&span.paint, Paint::Ansi(s) if s.fg == Some(ratatui::style::Color::Red)))
        .collect();
    assert_eq!(styled, vec![false, false, true]);
}

#[test]
fn a_result_that_cannot_be_read_is_shown_plain() {
    let mut lines = Vec::new();
    render_tool_result_read(&mut lines, "a\nb", false, false, None);
    assert_eq!(all(&lines), vec!["  \u{25c0} result (2 lines)", "    a", "    b"]);
    assert_eq!(look(&lines[1], 0), Look::of(Color::DarkGray));
    let read = vec![vec![("z".to_string(), ratatui::style::Style::new())]];
    let mut lines = Vec::new();
    render_tool_result_read(&mut lines, "a", false, false, Some(read));
    assert_eq!(all(&lines), vec!["  \u{25c0} result (1 lines)", "    z"]);
}

#[test]
fn entries_say_who_speaks() {
    let said = entry(EntryKind::User, vec![ContentBlock::Text { text: "hi\n*there*".to_string() }]);
    assert_eq!(all(&render_entry(&said, 80)), vec!["Human", "", "hi", "*there*", ""]);
    let answer = entry(EntryKind::Assistant, vec![
        ContentBlock::Text { text: "*yes*".to_string() },
        ContentBlock::ToolUse { name: "Bash".to_string(), input_summary: "ls".to_string() },
    ]);
    let lines = render_entry(&answer, 80);
    assert_eq!(all(&lines), vec!["Assistant", "", "yes", "  \u{25b6} Bash", "    ls", ""]);
    assert_eq!(look(&lines[0], 0), Look::of(Color::Blue).with_bold());
    let result = entry(EntryKind::User, vec![ContentBlock::ToolResult {
        content: "x".to_string(),
        is_error: false,
        collapsed: true,
    }]);
    assert_eq!(all(&render_entry(&result, 80)), vec!["  \u{25c0} result (1 lines)", ""]);
}

#[test]
fn words_are_laid_out_by_their_widths() {
    let word = |text: &str, width| Word { text: text.to_string(), style: Look::new(), width };
    let lines = lay_words(vec![word("a ", 2), word("b ", 3), word("c", 1)], 5, 2);
    assert_eq!(all(&lines), vec!["a b ", "  c"]);
    // A word that is too wide for any line has one of its own.
    let lines = lay_words(vec![word("a ", 2), word("wide", usize::MAX), word("b", 1)], 5, 0);
    assert_eq!(all(&lines), vec!["a ", "wide", "b"]);
    assert_eq!(all(&lay_words(Vec::new(), 5, 2)), vec![""]);
}

#[test]
fn each_piece_of_a_thought_has_its_bar() {
    let mut lines = Vec::new();
    render_thought(&mut lines, &vec!["one".to_string(), "two".to_string()]);
    let mut expected = Vec::new();
    render_thinking(&mut expected, "one two", 7);
    assert_eq!(lines.len(), 2);
    assert!(text(&lines[0]).ends_with("one"));
    assert!(text(&lines[1]).ends_with("two"));
    assert_eq!(look(&lines[0], 0).fg, Some(Color::Cyan));
    assert!(all(&expected).contains(&text(&lines[0])));
}

#[test]
fn a_user_who_speaks_beside_a_result_is_named() {
    let result = || ContentBlock::ToolResult {
        content: "ok".to_string(),
        is_error: false,
        collapsed: true,
    };
    let text = || ContentBlock::Text { text: "hi".to_string() };
    let mixed = render_entry(&entry(EntryKind::User, vec![text(), result()]), 80);
    assert_eq!(all(&mixed)[..3], ["Human", "", "hi"]);
    let mixed = render_entry(&entry(EntryKind::User, vec![result(), text()]), 80);
    assert_eq!(all(&mixed)[..2], ["Human", ""]);
    let alone = render_entry(&entry(EntryKind::User, vec![result(), result()]), 80);
    assert_eq!(alone.len(), 3);
    assert_ne!(all(&alone)[0], "Human");
    assert_eq!(all(&render_entry(&entry(EntryKind::User, vec![]), 80)), vec!["Human", "", ""]);
}
