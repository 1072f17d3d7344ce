//! How the entries of a conversation look: each block of an entry adds its lines to those before.

use vstd::prelude::*;

use crate::chars::{
    blank_text, blanks, cat, cut, decimal, decimal_text, first_from, first_hit,
    lemma_first_hit_bounds, lemma_lines_are_single, lines, split_lines, texts, to_chars, to_text,
    Pick,
};
use crate::markdown::{
    events_taken, markdown, marked_view, pieces_view, render_markdown, unwritten, MarkedLine,
    MarkedV, Piece,
};
use crate::model::{blocks_view, BlockV, ContentBlock, ConversationEntry, EntryKind};
use crate::look::{colored, plain, Color, Look};
use crate::textarea::{display_width, width_of, wrap_line, wrapped, Fit};

verus! {

// ---------------------------------------------------------------------------
// What comes from outside

#[verifier::external_type_specification]
#[verifier::external_body]
pub struct ExStyle(ratatui::style::Style);

/// The lines that a text with escape sequences for colors consists of, each as pieces with their
/// styles. `None` if the text cannot be read.
pub uninterp spec fn ansi_lines(text: Seq<char>) -> Option<
    Seq<Seq<(Seq<char>, ratatui::style::Style)>>,
>;

pub open spec fn ansi_line(line: Seq<(String, ratatui::style::Style)>) -> Seq<
    (Seq<char>, ratatui::style::Style),
> {
    Seq::new(line.len(), |i: int| (line[i].0@, line[i].1))
}

pub open spec fn ansi_view(text: Option<Vec<Vec<(String, ratatui::style::Style)>>>) -> Option<
    Seq<Seq<(Seq<char>, ratatui::style::Style)>>,
> {
    match text {
        Some(ls) => Some(Seq::new(ls@.len(), |i: int| ansi_line(ls@[i]@))),
        None => None,
    }
}

/// `ansi_to_tui::IntoText::into_text` on the bytes of a text: the pieces of each line with their
/// styles depend on the text alone.
#[verifier::external_body]
fn read_ansi(text: &str) -> (out: Option<Vec<Vec<(String, ratatui::style::Style)>>>)
    ensures
        ansi_view(out) == ansi_lines(text@),
{
    match ansi_to_tui::IntoText::into_text(&text.as_bytes()) {
        Ok(read) => Some(
            read.lines.into_iter().map(
                |line|
                    line.spans.into_iter().map(
                        |span| (span.content.into_owned(), span.style),
                    ).collect(),
            ).collect(),
        ),
        Err(_) => None,
    }
}

// ---------------------------------------------------------------------------
// Lines

/// What a piece of a line looks like: as it is set here, or as a command that ran has set it.
#[derive(Debug)]
pub enum Paint {
    Own(Look),
    Ansi(ratatui::style::Style),
}

#[derive(Debug)]
pub struct Span {
    pub text: String,
    pub paint: Paint,
}

#[derive(Debug)]
pub struct Line {
    pub spans: Vec<Span>,
}

pub struct SpanV {
    pub text: Seq<char>,
    pub paint: Paint,
}

impl View for Line {
    type V = Seq<SpanV>;

    open spec fn view(&self) -> Seq<SpanV> {
        Seq::new(
            self.spans@.len(),
            |i: int| SpanV { text: self.spans@[i].text@, paint: self.spans@[i].paint },
        )
    }
}

pub open spec fn lines_view(ls: Seq<Line>) -> Seq<Seq<SpanV>> {
    Seq::new(ls.len(), |i: int| ls[i]@)
}

pub open spec fn own(text: Seq<char>, style: Look) -> SpanV {
    SpanV { text, paint: Paint::Own(style) }
}

/// A line that is one piece.
pub open spec fn single(text: Seq<char>, style: Look) -> Seq<SpanV> {
    seq![own(text, style)]
}

pub open spec fn own_line(pieces: Seq<(Seq<char>, Look)>) -> Seq<SpanV> {
    Seq::new(pieces.len(), |i: int| own(pieces[i].0, pieces[i].1))
}

proof fn lemma_lines_push(v: Seq<Line>, line: Line)
    ensures
        lines_view(v.push(line)) == lines_view(v).push(line@),
{
}

fn span_of(text: &str, style: Look) -> (out: Span)
    ensures
        out.text@ == text@,
        out.paint == Paint::Own(style),
{
    Span { text: text.to_string(), paint: Paint::Own(style) }
}

/// Adds a line that is one piece.
fn add_single(ls: &mut Vec<Line>, text: &str, style: Look)
    ensures
        lines_view(final(ls)@) == lines_view(old(ls)@).push(single(text@, style)),
{
    let mut spans: Vec<Span> = Vec::new();
    spans.push(span_of(text, style));
    let line = Line { spans };
    assert(line@ =~= single(text@, style));
    proof {
        lemma_lines_push(ls@, line);
    }
    ls.push(line);
}

/// Adds a line that is two pieces.
fn add_pair(ls: &mut Vec<Line>, first: &str, style: Look, second: &str, other: Look)
    ensures
        lines_view(final(ls)@) == lines_view(old(ls)@).push(
            seq![own(first@, style), own(second@, other)],
        ),
{
    let mut spans: Vec<Span> = Vec::new();
    spans.push(span_of(first, style));
    spans.push(span_of(second, other));
    let line = Line { spans };
    assert(line@ =~= seq![own(first@, style), own(second@, other)]);
    proof {
        lemma_lines_push(ls@, line);
    }
    ls.push(line);
}

fn add_empty(ls: &mut Vec<Line>)
    ensures
        lines_view(final(ls)@) == lines_view(old(ls)@).push(Seq::empty()),
{
    let line = Line { spans: Vec::new() };
    assert(line@ =~= Seq::empty());
    proof {
        lemma_lines_push(ls@, line);
    }
    ls.push(line);
}

/// Adds a line whose pieces are styled here.
fn add_pieces(ls: &mut Vec<Line>, pieces: Vec<Piece>)
    ensures
        lines_view(final(ls)@) == lines_view(old(ls)@).push(own_line(pieces_view(pieces@))),
{
    let ghost all = pieces_view(pieces@);
    let mut spans: Vec<Span> = Vec::new();
    for piece in it: pieces
        invariant
            it.seq() == pieces@,
            all == pieces_view(pieces@),
            spans@.len() == it.index(),
            forall|j: int|
                0 <= j < spans@.len() ==> (#[trigger] spans@[j]).text@ == all[j].0 && spans@[j].paint
                    == Paint::Own(all[j].1),
    {
        spans.push(Span { text: piece.text, paint: Paint::Own(piece.style) });
    }
    let line = Line { spans };
    assert(line@ =~= own_line(all));
    proof {
        lemma_lines_push(ls@, line);
    }
    ls.push(line);
}

/// Lines with the same text before each of them, all in one style.
pub open spec fn prefixed(prefix: Seq<char>, ls: Seq<Seq<char>>, style: Look) -> Seq<Seq<SpanV>> {
    Seq::new(ls.len(), |i: int| single(prefix + ls[i], style))
}

fn add_prefixed(out: &mut Vec<Line>, prefix: &str, ls: &Vec<String>, count: usize, style: Look)
    requires
        count <= ls@.len(),
    ensures
        lines_view(final(out)@) == lines_view(old(out)@) + prefixed(
            prefix@,
            texts(ls@).take(count as int),
            style,
        ),
{
    let ghost all = texts(ls@);
    let ghost before = lines_view(out@);
    assert(before + prefixed(prefix@, all.take(0), style) =~= before);
    for i in 0..count
        invariant
            count <= ls@.len(),
            all == texts(ls@),
            lines_view(out@) == before + prefixed(prefix@, all.take(i as int), style),
    {
        add_single(out, cat(prefix, ls[i].as_str()).as_str(), style);
        assert(prefixed(prefix@, all.take(i + 1), style) =~= prefixed(
            prefix@,
            all.take(i as int),
            style,
        ).push(single(prefix@ + all[i as int], style)));
        assert(before + prefixed(prefix@, all.take(i + 1), style) =~= (before + prefixed(
            prefix@,
            all.take(i as int),
            style,
        )).push(single(prefix@ + all[i as int], style)));
    }
}

// ---------------------------------------------------------------------------
// Thinking

/// What stands before each line of a thought.
pub open spec fn bar() -> Seq<char> {
    "  \u{2502} "@
}

pub open spec fn room(width: nat) -> nat {
    if width <= 5 {
        1
    } else {
        (width - 4) as nat
    }
}

pub open spec fn thought(ls: Seq<Seq<char>>, available: nat) -> Seq<Seq<SpanV>>
    decreases ls.len(),
{
    if ls.len() == 0 {
        Seq::empty()
    } else {
        thought(ls.drop_last(), available) + if ls.last().len() == 0 {
            seq![single(bar(), colored(Color::Cyan))]
        } else {
            thought_pieces(wrapped(ls.last(), available, Fit::Best))
        }
    }
}

pub open spec fn thought_pieces(pieces: Seq<Seq<char>>) -> Seq<Seq<SpanV>> {
    Seq::new(
        pieces.len(),
        |i: int|
            seq![
                own(bar(), colored(Color::Cyan)),
                own(pieces[i], colored(Color::DarkGray)),
            ],
    )
}

pub open spec fn thinking_lines(text: Seq<char>, width: nat) -> Seq<Seq<SpanV>> {
    seq![
        seq![
            own(bar(), colored(Color::Cyan)),
            own(
                "thinking"@,
                Look { fg: Some(Color::DarkGray), bold: false, italic: true },
            ),
        ],
    ] + thought(lines(text), room(width)) + seq![
        single("  \u{2502}"@, colored(Color::Cyan)),
    ]
}

/// The pieces that a line of a thought was wrapped into, each beside a bar.
pub fn render_thought(ls: &mut Vec<Line>, pieces: &Vec<String>)
    ensures
        lines_view(final(ls)@) == lines_view(old(ls)@) + thought_pieces(texts(pieces@)),
{
    let ghost all = texts(pieces@);
    let ghost before = lines_view(ls@);
    let bar_style = Look::of(Color::Cyan);
    let style = Look::of(Color::DarkGray);
    assert(before + thought_pieces(all.take(0)) =~= before);
    for i in 0..pieces.len()
        invariant
            all == texts(pieces@),
            bar_style == colored(Color::Cyan),
            style == colored(Color::DarkGray),
            lines_view(ls@) == before + thought_pieces(all.take(i as int)),
    {
        add_pair(ls, "  \u{2502} ", bar_style, pieces[i].as_str(), style);
        let ghost added = seq![own(bar(), bar_style), own(all[i as int], style)];
        assert(thought_pieces(all.take(i + 1)) =~= thought_pieces(all.take(i as int)).push(added));
        assert(before + thought_pieces(all.take(i + 1)) =~= (before + thought_pieces(
            all.take(i as int),
        )).push(added));
    }
    assert(all.take(pieces@.len() as int) =~= all);
}

/// A thought, wrapped beside a bar.
pub fn render_thinking(ls: &mut Vec<Line>, text: &str, width: u16)
    ensures
        lines_view(final(ls)@) == lines_view(old(ls)@) + thinking_lines(text@, width as nat),
{
    let ghost before = lines_view(ls@);
    let style = Look::of(Color::DarkGray);
    let bar_style = Look::of(Color::Cyan);
    add_pair(ls, "  \u{2502} ", bar_style, "thinking", style.with_italic());
    let ghost head = lines_view(ls@);
    let available: usize = if width <= 5 {
        1
    } else {
        width as usize - 4
    };
    let parts = split_lines(text);
    let ghost all = lines(text@);
    assert(head + thought(all.take(0), available as nat) =~= head);
    for i in 0..parts.len()
        invariant
            texts(parts@) == all,
            all == lines(text@),
            bar_style == colored(Color::Cyan),
            lines_view(ls@) == head + thought(all.take(i as int), available as nat),
    {
        assert(all.take(i + 1).drop_last() =~= all.take(i as int));
        assert(all.take(i + 1).last() == parts@[i as int]@);
        let ghost so_far = thought(all.take(i as int), available as nat);
        if to_chars(parts[i].as_str()).len() == 0 {
            add_single(ls, "  \u{2502} ", bar_style);
            assert((head + so_far).push(single(bar(), bar_style)) =~= head + (so_far + seq![
                single(bar(), bar_style),
            ]));
        } else {
            proof {
                lemma_lines_are_single(text@, i as int);
            }
            let pieces = wrap_line(parts[i].as_str(), available, Fit::Best);
            render_thought(ls, &pieces);
            assert((head + so_far) + thought_pieces(texts(pieces@)) =~= head + (so_far
                + thought_pieces(texts(pieces@))));
        }
    }
    assert(all.take(parts@.len() as int) =~= all);
    add_single(ls, "  \u{2502}", bar_style);
    assert(lines_view(ls@) =~= before + thinking_lines(text@, width as nat));
}

// ---------------------------------------------------------------------------
// Tools

pub open spec fn tool_use_lines(name: Seq<char>, summary: Seq<char>) -> Seq<Seq<SpanV>> {
    let all = lines(summary);
    let yellow = colored(Color::Yellow);
    seq![
        single(
            "  \u{25b6} "@ + name,
            Look { fg: Some(Color::Yellow), bold: true, italic: false },
        ),
    ] + if all.len() > 5 {
        prefixed("    "@, all.take(5), yellow).push(
            single(
                "    ... ("@ + (decimal((all.len() - 5) as nat) + " more lines)"@),
                yellow,
            ),
        )
    } else {
        prefixed("    "@, all, yellow)
    }
}

/// A call of a tool with the first lines of what it was called with.
pub fn render_tool_use(ls: &mut Vec<Line>, name: &str, summary: &str)
    ensures
        lines_view(final(ls)@) == lines_view(old(ls)@) + tool_use_lines(name@, summary@),
{
    let ghost before = lines_view(ls@);
    let style = Look::of(Color::Yellow);
    add_single(ls, cat("  \u{25b6} ", name).as_str(), style.with_bold());
    let parts = split_lines(summary);
    let ghost all = lines(summary@);
    if parts.len() > 5 {
        add_prefixed(ls, "    ", &parts, 5, style);
        let more = decimal_text((parts.len() - 5) as u64);
        let tail = cat(more.as_str(), " more lines)");
        add_single(ls, cat("    ... (", tail.as_str()).as_str(), style);
    } else {
        add_prefixed(ls, "    ", &parts, parts.len(), style);
        assert(all.take(all.len() as int) =~= all);
    }
    assert(lines_view(ls@) =~= before + tool_use_lines(name@, summary@));
}

pub open spec fn result_style(is_error: bool) -> Look {
    if is_error {
        colored(Color::Red)
    } else {
        colored(Color::DarkGray)
    }
}

pub open spec fn result_header(content: Seq<char>, is_error: bool) -> Seq<char> {
    (if is_error {
        "  \u{25c0} error ("@
    } else {
        "  \u{25c0} result ("@
    }) + (decimal(lines(content).len()) + " lines)"@)
}

/// A line that a command has set, four columns in.
pub open spec fn set_in(line: Seq<(Seq<char>, ratatui::style::Style)>) -> Seq<SpanV> {
    single("    "@, plain()) + Seq::new(
        line.len(),
        |i: int| SpanV { text: line[i].0, paint: Paint::Ansi(line[i].1) },
    )
}

pub open spec fn ansi_rows(ls: Seq<Seq<(Seq<char>, ratatui::style::Style)>>) -> Seq<Seq<SpanV>> {
    Seq::new(ls.len(), |i: int| set_in(ls[i]))
}

/// The result of a tool. `ansi` is how its content reads as a text with escape sequences.
pub open spec fn tool_result_lines(
    content: Seq<char>,
    is_error: bool,
    collapsed: bool,
    ansi: Option<Seq<Seq<(Seq<char>, ratatui::style::Style)>>>,
) -> Seq<Seq<SpanV>> {
    let header = seq![single(result_header(content, is_error), result_style(is_error))];
    if collapsed {
        header
    } else {
        header + match ansi {
            Some(ls) if !is_error => ansi_rows(ls),
            _ => prefixed("    "@, lines(content), result_style(is_error)),
        }
    }
}

fn add_ansi(ls: &mut Vec<Line>, line: Vec<(String, ratatui::style::Style)>)
    ensures
        lines_view(final(ls)@) == lines_view(old(ls)@).push(set_in(ansi_line(line@))),
{
    let ghost all = ansi_line(line@);
    let mut spans: Vec<Span> = Vec::new();
    spans.push(span_of("    ", Look::new()));
    for part in it: line
        invariant
            it.seq() == line@,
            all == ansi_line(line@),
            spans@.len() == it.index() + 1,
            spans@[0].text@ == "    "@,
            spans@[0].paint == Paint::Own(plain()),
            forall|j: int|
                1 <= j < spans@.len() ==> (#[trigger] spans@[j]).text@ == all[j - 1].0
                    && spans@[j].paint == Paint::Ansi(all[j - 1].1),
    {
        let (text, style) = part;
        spans.push(Span { text, paint: Paint::Ansi(style) });
    }
    let line = Line { spans };
    assert(line@ =~= set_in(all));
    proof {
        lemma_lines_push(ls@, line);
    }
    ls.push(line);
}

/// The result of a tool, for a given reading of its content as a text with escape sequences.
pub fn render_tool_result_read(
    ls: &mut Vec<Line>,
    content: &str,
    is_error: bool,
    collapsed: bool,
    ansi: Option<Vec<Vec<(String, ratatui::style::Style)>>>,
)
    ensures
        lines_view(final(ls)@) == lines_view(old(ls)@) + tool_result_lines(
            content@,
            is_error,
            collapsed,
            ansi_view(ansi),
        ),
{
    let ghost before = lines_view(ls@);
    let ghost reading = ansi_view(ansi);
    let style = if is_error {
        Look::of(Color::Red)
    } else {
        Look::of(Color::DarkGray)
    };
    let parts = split_lines(content);
    let ghost all = lines(content@);
    let count = decimal_text(parts.len() as u64);
    let tail = cat(count.as_str(), " lines)");
    let header = if is_error {
        cat("  \u{25c0} error (", tail.as_str())
    } else {
        cat("  \u{25c0} result (", tail.as_str())
    };
    add_single(ls, header.as_str(), style);
    let ghost head = lines_view(ls@);
    assert(head =~= before + seq![single(result_header(content@, is_error), style)]);
    if !collapsed {
        assert(all.take(all.len() as int) =~= all);
        match ansi {
            Some(rows) => {
                if is_error {
                    add_prefixed(ls, "    ", &parts, parts.len(), style);
                } else {
                    let ghost whole = reading->Some_0;
                    assert(head + ansi_rows(whole.take(0)) =~= head);
                    for row in it: rows
                        invariant
                            it.seq() == rows@,
                            whole == ansi_view(Some(rows))->Some_0,
                            lines_view(ls@) == head + ansi_rows(whole.take(it.index() as int)),
                    {
                        let ghost i = it.index() as int;
                        add_ansi(ls, row);
                        assert(ansi_rows(whole.take(i + 1)) =~= ansi_rows(whole.take(i)).push(
                            set_in(whole[i]),
                        ));
                        assert(head + ansi_rows(whole.take(i + 1)) =~= (head + ansi_rows(
                            whole.take(i),
                        )).push(set_in(whole[i])));
                    }
                    assert(whole.take(whole.len() as int) =~= whole);
                }
            },
            None => {
                add_prefixed(ls, "    ", &parts, parts.len(), style);
            },
        }
    }
    assert(lines_view(ls@) =~= before + tool_result_lines(content@, is_error, collapsed, reading));
}

/// The result of a tool: a header alone, or all of it.
pub fn render_tool_result(ls: &mut Vec<Line>, content: &str, is_error: bool, collapsed: bool)
    ensures
        lines_view(final(ls)@) == lines_view(old(ls)@) + tool_result_lines(
            content@,
            is_error,
            collapsed,
            ansi_lines(content@),
        ),
{
    let ansi = read_ansi(content);
    render_tool_result_read(ls, content, is_error, collapsed, ansi);
}

// ---------------------------------------------------------------------------
// Wrapping

/// The parts of a text that end with a blank, and what is left behind the last one.
pub open spec fn words_of(s: Seq<char>) -> Seq<Seq<char>>
    decreases s.len(),
{
    let n = first_hit(s, Pick::Is(' ')) as int;
    if s.len() == 0 {
        Seq::empty()
    } else if n >= s.len() {
        seq![s]
    } else {
        seq![s.take(n + 1)] + words_of(s.skip(n + 1))
    }
}

/// A word with its style and its width on a screen.
pub struct WordV {
    pub text: Seq<char>,
    pub style: Look,
    pub width: nat,
}

/// The words of a text, each with its width.
pub open spec fn measured_words(words: Seq<Seq<char>>, style: Look) -> Seq<WordV> {
    Seq::new(
        words.len(),
        |i: int| WordV { text: words[i], style, width: display_width(words[i]) },
    )
}

/// The words of a line, each with its width.
pub open spec fn measured(spans: Seq<(Seq<char>, Look)>) -> Seq<WordV>
    decreases spans.len(),
{
    if spans.len() == 0 {
        Seq::empty()
    } else {
        measured(spans.drop_last()) + measured_words(words_of(spans.last().0), spans.last().1)
    }
}

/// A line that is being wrapped: the lines that are full, the pieces of the one that is not, and
/// its width.
pub struct WrapV {
    pub done: Seq<Seq<(Seq<char>, Look)>>,
    pub current: Seq<(Seq<char>, Look)>,
    pub width: nat,
}

pub open spec fn unwrapped() -> WrapV {
    WrapV { done: Seq::empty(), current: Seq::empty(), width: 0 }
}

/// The room on a line, which is less where the line goes on.
pub open spec fn room_on(s: WrapV, max: nat, indent: nat) -> nat {
    if s.done.len() == 0 {
        max
    } else if indent >= max {
        0
    } else {
        (max - indent) as nat
    }
}

pub open spec fn broken(s: WrapV, indent: nat) -> WrapV {
    WrapV {
        done: s.done.push(s.current),
        current: if indent > 0 {
            seq![(blanks(indent), plain())]
        } else {
            Seq::empty()
        },
        width: indent,
    }
}

pub open spec fn must_break(s: WrapV, word: WordV, max: nat, indent: nat) -> bool {
    s.width > 0 && s.width + word.width > room_on(s, max, indent) && s.current.len() > 0
}

/// A word goes to the end of the line if there is room for it, or if there is nothing before it.
/// Otherwise it begins another line.
pub open spec fn word_placed(s: WrapV, word: WordV, max: nat, indent: nat) -> WrapV {
    let begun = if must_break(s, word, max, indent) {
        broken(s, indent)
    } else {
        s
    };
    WrapV {
        current: begun.current.push((word.text, word.style)),
        width: begun.width + word.width,
        ..begun
    }
}

pub open spec fn words_placed(s: WrapV, words: Seq<WordV>, max: nat, indent: nat) -> WrapV
    decreases words.len(),
{
    if words.len() == 0 {
        s
    } else {
        word_placed(words_placed(s, words.drop_last(), max, indent), words.last(), max, indent)
    }
}

pub open spec fn wrapped_up(s: WrapV) -> Seq<Seq<(Seq<char>, Look)>> {
    if s.current.len() == 0 && s.done.len() > 0 {
        s.done
    } else {
        s.done.push(s.current)
    }
}

/// The lines that words are laid out in.
pub open spec fn laid_words(words: Seq<WordV>, max: nat, indent: nat) -> Seq<
    Seq<(Seq<char>, Look)>,
> {
    wrapped_up(words_placed(unwrapped(), words, max, indent))
}

/// The lines that a line is wrapped into.
pub open spec fn wrapped_line(spans: Seq<(Seq<char>, Look)>, max: nat, indent: nat) -> Seq<
    Seq<(Seq<char>, Look)>,
> {
    laid_words(measured(spans), max, indent)
}

pub open spec fn own_lines(ls: Seq<Seq<(Seq<char>, Look)>>) -> Seq<Seq<SpanV>> {
    Seq::new(ls.len(), |i: int| own_line(ls[i]))
}

proof fn lemma_words_step(s: Seq<char>, n: int)
    requires
        s.len() > 0,
        n == first_hit(s, Pick::Is(' ')),
    ensures
        n < s.len() ==> words_of(s) == seq![s.take(n + 1)] + words_of(s.skip(n + 1)),
        n >= s.len() ==> words_of(s) == seq![s],
{
}

fn split_words_after(text: &str) -> (out: Vec<String>)
    ensures
        texts(out@) == words_of(text@),
{
    let s = to_chars(text);
    let mut out: Vec<String> = Vec::new();
    let mut i: usize = 0;
    assert(s@.skip(0) =~= s@);
    assert(texts(out@) + words_of(s@) =~= words_of(s@));
    while i < s.len()
        invariant
            i <= s@.len(),
            texts(out@) + words_of(s@.skip(i as int)) == words_of(s@),
        decreases s@.len() - i,
    {
        let ghost before = out@;
        let ghost rest = s@.skip(i as int);
        let n = first_from(&s, i, Pick::Is(' '));
        proof {
            lemma_first_hit_bounds(rest, Pick::Is(' '));
        }
        let end: usize = if n < s.len() {
            n + 1
        } else {
            s.len()
        };
        let word = to_text(&cut(&s, i, end));
        assert(word@ =~= rest.take(end - i));
        out.push(word);
        assert(texts(out@) =~= texts(before).push(word@));
        proof {
            lemma_words_step(rest, n - i);
            assert(s@.skip(end as int) =~= rest.skip(end - i));
            if n >= s@.len() {
                assert(rest.take(end - i) =~= rest);
                assert(words_of(s@.skip(end as int)) =~= Seq::empty());
            }
            assert(texts(out@) + words_of(s@.skip(end as int)) =~= texts(before) + words_of(rest));
        }
        i = end;
    }
    assert(s@.skip(i as int) =~= Seq::empty());
    assert(words_of(s@.skip(i as int)) =~= Seq::empty());
    assert(texts(out@) =~= words_of(s@));
    out
}

/// A word with its style and its width on a screen.
#[derive(Debug)]
pub struct Word {
    pub text: String,
    pub style: Look,
    pub width: usize,
}

impl View for Word {
    type V = WordV;

    open spec fn view(&self) -> WordV {
        WordV { text: self.text@, style: self.style, width: self.width as nat }
    }
}

pub open spec fn word_views(words: Seq<Word>) -> Seq<WordV> {
    Seq::new(words.len(), |i: int| words[i]@)
}

/// A width that does not fit is as good as the greatest one.
pub open spec fn capped(width: nat) -> nat {
    if width > usize::MAX {
        usize::MAX as nat
    } else {
        width
    }
}

/// A line that is being wrapped, with the width of what is not full yet.
struct Wrapping {
    done: Vec<Line>,
    current: Vec<Piece>,
    width: usize,
}

impl Wrapping {
    spec fn holds(self, s: WrapV) -> bool {
        &&& lines_view(self.done@) == own_lines(s.done)
        &&& pieces_view(self.current@) == s.current
        &&& self.width == capped(s.width)
    }

    fn place(&mut self, word: Word, max: usize, indent: usize, Ghost(s): Ghost<WrapV>)
        requires
            max < usize::MAX,
            old(self).holds(s),
        ensures
            final(self).holds(word_placed(s, word@, max as nat, indent as nat)),
    {
        let taken: usize = word.width;
        assert(own_lines(s.done).len() == s.done.len());
        let available: usize = if self.done.len() == 0 {
            max
        } else if indent >= max {
            0
        } else {
            max - indent
        };
        assert(lines_view(self.done@).len() == self.done@.len());
        assert(pieces_view(self.current@).len() == self.current@.len());
        assert(available == room_on(s, max as nat, indent as nat));
        let too_wide = taken > available || self.width > available - taken;
        assert(s.width > 0 ==> (too_wide <==> s.width + word@.width > available));
        let ghost mut begun = s;
        if self.width > 0 && too_wide && self.current.len() > 0 {
            let mut full: Vec<Piece> = Vec::new();
            std::mem::swap(&mut full, &mut self.current);
            add_pieces(&mut self.done, full);
            assert(own_lines(s.done.push(s.current)) =~= own_lines(s.done).push(
                own_line(s.current),
            ));
            if indent > 0 {
                self.current.push(Piece { text: blank_text(indent), style: Look::new() });
            }
            assert(pieces_view(self.current@) =~= broken(s, indent as nat).current);
            self.width = indent;
            proof {
                begun = broken(s, indent as nat);
            }
        }
        let ghost placed = (word@.text, word@.style);
        self.current.push(Piece { text: word.text, style: word.style });
        assert(pieces_view(self.current@) =~= begun.current.push(placed));
        self.width = if self.width > usize::MAX - taken {
            usize::MAX
        } else {
            self.width + taken
        };
    }
}

/// Lays words out in lines. The lines that they go on with are indented.
pub fn lay_words(words: Vec<Word>, max_width: u16, indent: usize) -> (out: Vec<Line>)
    ensures
        lines_view(out@) == own_lines(
            laid_words(word_views(words@), max_width as nat, indent as nat),
        ),
{
    let max: usize = max_width as usize;
    let ghost all = word_views(words@);
    let mut state = Wrapping { done: Vec::new(), current: Vec::new(), width: 0 };
    let ghost mut s = unwrapped();
    assert(lines_view(state.done@) =~= own_lines(s.done));
    assert(pieces_view(state.current@) =~= s.current);
    assert(all.take(0) =~= Seq::empty());
    for word in it: words
        invariant
            it.seq() == words@,
            all == word_views(words@),
            max == max_width,
            max < usize::MAX,
            state.holds(s),
            s == words_placed(unwrapped(), all.take(it.index() as int), max as nat, indent as nat),
    {
        let ghost i = it.index() as int;
        let ghost view = word@;
        assert(all.take(i + 1).drop_last() =~= all.take(i));
        assert(all.take(i + 1).last() == view);
        state.place(word, max, indent, Ghost(s));
        proof {
            s = word_placed(s, view, max as nat, indent as nat);
        }
    }
    assert(all.take(all.len() as int) =~= all);
    assert(own_lines(s.done).len() == s.done.len());
    let Wrapping { done, current, width: _ } = state;
    let mut out = done;
    if current.len() > 0 || out.len() == 0 {
        add_pieces(&mut out, current);
        assert(own_lines(s.done.push(s.current)) =~= own_lines(s.done).push(own_line(s.current)));
    }
    out
}

/// The words of a line with their widths.
fn measure(spans: &Vec<Piece>) -> (out: Vec<Word>)
    ensures
        word_views(out@) == measured(pieces_view(spans@)),
{
    let ghost all = pieces_view(spans@);
    let mut out: Vec<Word> = Vec::new();
    assert(all.take(0) =~= Seq::empty());
    assert(word_views(out@) =~= Seq::empty());
    for i in 0..spans.len()
        invariant
            all == pieces_view(spans@),
            word_views(out@) == measured(all.take(i as int)),
    {
        assert(all.take(i + 1).drop_last() =~= all.take(i as int));
        assert(all.take(i + 1).last() == (spans@[i as int].text@, spans@[i as int].style));
        let style = spans[i].style;
        let parts = split_words_after(spans[i].text.as_str());
        let ghost before = word_views(out@);
        let ghost words = texts(parts@);
        assert(before + measured_words(words.take(0), style) =~= before);
        for k in 0..parts.len()
            invariant
                words == texts(parts@),
                word_views(out@) == before + measured_words(words.take(k as int), style),
        {
            let width = width_of(parts[k].as_str());
            let ghost so_far = out@;
            let word = Word { text: parts[k].clone(), style, width };
            let ghost view = word@;
            out.push(word);
            assert(word_views(out@) =~= word_views(so_far).push(view));
            assert(measured_words(words.take(k + 1), style) =~= measured_words(
                words.take(k as int),
                style,
            ).push(view));
            assert(before + measured_words(words.take(k + 1), style) =~= (before + measured_words(
                words.take(k as int),
                style,
            )).push(view));
        }
        assert(words.take(words.len() as int) =~= words);
    }
    assert(all.take(all.len() as int) =~= all);
    out
}

/// Wraps a line between words. The pieces keep their styles, and the lines that it goes on with
/// are indented.
pub fn style_wrap_with_indent(spans: Vec<Piece>, max_width: u16, indent: usize) -> (out: Vec<Line>)
    ensures
        lines_view(out@) == own_lines(
            wrapped_line(pieces_view(spans@), max_width as nat, indent as nat),
        ),
{
    let words = measure(&spans);
    lay_words(words, max_width, indent)
}

// ---------------------------------------------------------------------------
// Texts and entries

/// The lines of a text that was written, as it was.
pub open spec fn user_lines(text: Seq<char>) -> Seq<Seq<SpanV>> {
    let all = lines(text);
    Seq::new(all.len(), |i: int| single(all[i], colored(Color::White)))
}

/// Lines of markdown on a screen: those of a code block as they are, the others wrapped.
pub open spec fn marked_lines(ls: Seq<MarkedV>, width: nat) -> Seq<Seq<SpanV>>
    decreases ls.len(),
{
    if ls.len() == 0 {
        Seq::empty()
    } else {
        marked_lines(ls.drop_last(), width) + if ls.last().no_wrap {
            seq![own_line(ls.last().spans)]
        } else {
            own_lines(wrapped_line(ls.last().spans, width, ls.last().indent_level))
        }
    }
}

/// What an entry says: the text of a user as it stands, that of an assistant as markdown.
pub open spec fn text_lines(
    text: Seq<char>,
    kind: EntryKind,
    width: nat,
) -> Seq<Seq<SpanV>> {
    match kind {
        EntryKind::User => user_lines(text),
        EntryKind::Assistant => marked_lines(
            events_taken(unwritten(), markdown(text)).lines,
            width,
        ),
    }
}

/// The lines of markdown, wrapped.
pub fn render_marked(ls: &mut Vec<Line>, marked: Vec<MarkedLine>, width: u16)
    ensures
        lines_view(final(ls)@) == lines_view(old(ls)@) + marked_lines(
            marked_view(marked@),
            width as nat,
        ),
{
    let ghost before = lines_view(ls@);
    let ghost all = marked_view(marked@);
    assert(before + marked_lines(all.take(0), width as nat) =~= before);
    for line in it: marked
        invariant
            it.seq() == marked@,
            all == marked_view(marked@),
            lines_view(ls@) == before + marked_lines(all.take(it.index() as int), width as nat),
    {
        let ghost i = it.index() as int;
        let ghost so_far = marked_lines(all.take(i), width as nat);
        let ghost view = line@;
        assert(all.take(i + 1).drop_last() =~= all.take(i));
        assert(all.take(i + 1).last() == view);
        if line.no_wrap {
            add_pieces(ls, line.spans);
            assert((before + so_far).push(own_line(view.spans)) =~= before + (so_far + seq![
                own_line(view.spans),
            ]));
        } else {
            let mut more = style_wrap_with_indent(line.spans, width, line.indent_level);
            let ghost added = more@;
            let ghost earlier = ls@;
            ls.append(&mut more);
            assert(lines_view(ls@) =~= lines_view(earlier) + lines_view(added));
            assert((before + so_far) + lines_view(added) =~= before + (so_far + lines_view(added)));
        }
    }
    assert(all.take(all.len() as int) =~= all);
}

/// What an entry says: as it was written, or as markdown.
pub fn render_text(ls: &mut Vec<Line>, text: &str, kind: EntryKind, width: u16)
    ensures
        lines_view(final(ls)@) == lines_view(old(ls)@) + text_lines(text@, kind, width as nat),
{
    match kind {
        EntryKind::User => {
            let parts = split_lines(text);
            let style = Look::of(Color::White);
            let ghost all = lines(text@);
            add_prefixed(ls, "", &parts, parts.len(), style);
            proof {
                reveal_strlit("");
                assert forall|i: int| 0 <= i < all.len() implies ""@ + all[i] == all[i] by {
                    assert(""@ + all[i] =~= all[i]);
                }
            }
            assert(all.take(all.len() as int) =~= all);
            assert(prefixed(""@, all, style) =~= user_lines(text@));
        },
        EntryKind::Assistant => {
            let marked = render_markdown(text);
            render_marked(ls, marked, width);
        },
    }
}

pub open spec fn block_lines(block: BlockV, kind: EntryKind, width: nat) -> Seq<Seq<SpanV>> {
    match block {
        BlockV::Thinking { text } => thinking_lines(text, width),
        BlockV::Text { text } => text_lines(text, kind, width),
        BlockV::ToolUse { name, input_summary } => tool_use_lines(name, input_summary),
        BlockV::ToolResult { content, is_error, collapsed } => tool_result_lines(
            content,
            is_error,
            collapsed,
            ansi_lines(content),
        ),
    }
}

pub open spec fn all_block_lines(blocks: Seq<BlockV>, kind: EntryKind, width: nat) -> Seq<
    Seq<SpanV>,
>
    decreases blocks.len(),
{
    if blocks.len() == 0 {
        Seq::empty()
    } else {
        all_block_lines(blocks.drop_last(), kind, width) + block_lines(blocks.last(), kind, width)
    }
}

/// The blocks are the results of tools and nothing else.
pub open spec fn only_results(blocks: Seq<BlockV>) -> bool {
    &&& blocks.len() > 0
    &&& forall|i: int| 0 <= i < blocks.len() ==> blocks[i] is ToolResult
}

/// Who speaks. Nobody is named where nothing but results follow the calls of their tools.
pub open spec fn header_lines(kind: EntryKind, blocks: Seq<BlockV>) -> Seq<Seq<SpanV>> {
    match kind {
        EntryKind::User => if only_results(blocks) {
            Seq::empty()
        } else {
            seq![
                single("Human"@, Look { fg: Some(Color::Green), bold: true, italic: false }),
                Seq::empty(),
            ]
        },
        EntryKind::Assistant => seq![
            single("Assistant"@, Look { fg: Some(Color::Blue), bold: true, italic: false }),
            Seq::empty(),
        ],
    }
}

pub open spec fn entry_lines(kind: EntryKind, blocks: Seq<BlockV>, width: nat) -> Seq<Seq<SpanV>> {
    (header_lines(kind, blocks) + all_block_lines(blocks, kind, width)).push(Seq::empty())
}

fn holds_only_results(blocks: &Vec<ContentBlock>) -> (b: bool)
    ensures
        b == only_results(blocks_view(blocks@)),
{
    let ghost all = blocks_view(blocks@);
    for i in 0..blocks.len()
        invariant
            all == blocks_view(blocks@),
            forall|j: int| 0 <= j < i ==> all[j] is ToolResult,
    {
        assert(all[i as int] == blocks@[i as int]@);
        match &blocks[i] {
            ContentBlock::ToolResult { .. } => {},
            _ => {
                return false;
            },
        }
    }
    blocks.len() > 0
}

fn render_block(ls: &mut Vec<Line>, block: &ContentBlock, kind: EntryKind, width: u16)
    ensures
        lines_view(final(ls)@) == lines_view(old(ls)@) + block_lines(block@, kind, width as nat),
{
    match block {
        ContentBlock::Thinking { text } => {
            render_thinking(ls, text.as_str(), width);
        },
        ContentBlock::Text { text } => {
            render_text(ls, text.as_str(), kind, width);
        },
        ContentBlock::ToolUse { name, input_summary } => {
            render_tool_use(ls, name.as_str(), input_summary.as_str());
        },
        ContentBlock::ToolResult { content, is_error, collapsed } => {
            render_tool_result(ls, content.as_str(), *is_error, *collapsed);
        },
    }
}

/// All lines of an entry.
pub fn render_entry(entry: &ConversationEntry, width: u16) -> (out: Vec<Line>)
    ensures
        lines_view(out@) == entry_lines(entry.kind, blocks_view(entry.blocks@), width as nat),
{
    let ghost all = blocks_view(entry.blocks@);
    let kind = entry.kind;
    let mut ls: Vec<Line> = Vec::new();
    match kind {
        EntryKind::User => {
            if !holds_only_results(&entry.blocks) {
                add_single(&mut ls, "Human", Look::of(Color::Green).with_bold());
                add_empty(&mut ls);
            }
        },
        EntryKind::Assistant => {
            add_single(&mut ls, "Assistant", Look::of(Color::Blue).with_bold());
            add_empty(&mut ls);
        },
    }
    let ghost head = header_lines(kind, all);
    assert(lines_view(ls@) =~= head);
    assert(head + all_block_lines(all.take(0), kind, width as nat) =~= head);
    for i in 0..entry.blocks.len()
        invariant
            all == blocks_view(entry.blocks@),
            lines_view(ls@) == head + all_block_lines(all.take(i as int), kind, width as nat),
    {
        let ghost so_far = all_block_lines(all.take(i as int), kind, width as nat);
        assert(all.take(i + 1).drop_last() =~= all.take(i as int));
        assert(all.take(i + 1).last() == entry.blocks@[i as int]@);
        render_block(&mut ls, &entry.blocks[i], kind, width);
        let ghost added = block_lines(all[i as int], kind, width as nat);
        assert((head + so_far) + added =~= head + (so_far + added));
    }
    assert(all.take(all.len() as int) =~= all);
    add_empty(&mut ls);
    ls
}

// ---------------------------------------------------------------------------
// What holds of the lines

/// A tool's result that is folded up is its header alone.
pub proof fn folded_result_is_its_header(
    content: Seq<char>,
    is_error: bool,
    ansi: Option<Seq<Seq<(Seq<char>, ratatui::style::Style)>>>,
)
    ensures
        tool_result_lines(content, is_error, true, ansi) == seq![
            single(result_header(content, is_error), result_style(is_error)),
        ],
{
}

/// An error stays red, whatever its content sets.
pub proof fn errors_stay_red(
    content: Seq<char>,
    collapsed: bool,
    ansi: Option<Seq<Seq<(Seq<char>, ratatui::style::Style)>>>,
    i: int,
    j: int,
)
    requires
        0 <= i < tool_result_lines(content, true, collapsed, ansi).len(),
        0 <= j < tool_result_lines(content, true, collapsed, ansi)[i].len(),
    ensures
        tool_result_lines(content, true, collapsed, ansi)[i][j].paint == Paint::Own(
            colored(Color::Red),
        ),
{
}

/// The characters of pieces, each with its style.
pub open spec fn inked(pieces: Seq<(Seq<char>, Look)>) -> Seq<(char, Look)>
    decreases pieces.len(),
{
    if pieces.len() == 0 {
        Seq::empty()
    } else {
        inked(pieces.drop_last()) + ink(pieces.last().0, pieces.last().1)
    }
}

pub open spec fn ink(text: Seq<char>, style: Look) -> Seq<(char, Look)> {
    Seq::new(text.len(), |i: int| (text[i], style))
}

/// A line that goes on, without its indentation.
pub open spec fn outdented(line: Seq<(Seq<char>, Look)>, at: int, indent: nat) -> Seq<
    (Seq<char>, Look),
> {
    if at > 0 && indent > 0 {
        line.skip(1)
    } else {
        line
    }
}

/// What wrapped lines say when they are read one behind the other.
pub open spec fn read_on(ls: Seq<Seq<(Seq<char>, Look)>>, indent: nat) -> Seq<(char, Look)>
    decreases ls.len(),
{
    if ls.len() == 0 {
        Seq::empty()
    } else {
        read_on(ls.drop_last(), indent) + inked(outdented(ls.last(), ls.len() - 1, indent))
    }
}

/// What has been placed so far.
pub open spec fn said(s: WrapV, indent: nat) -> Seq<(char, Look)> {
    read_on(s.done.push(s.current), indent)
}

/// A line that goes on begins with its indentation.
pub open spec fn begins_right(s: WrapV, indent: nat) -> bool {
    s.done.len() > 0 && indent > 0 ==> s.current.len() > 0
}

proof fn lemma_inked_push(pieces: Seq<(Seq<char>, Look)>, text: Seq<char>, style: Look)
    ensures
        inked(pieces.push((text, style))) == inked(pieces) + ink(text, style),
{
    assert(pieces.push((text, style)).drop_last() =~= pieces);
}

/// The characters of words, each with its style.
pub open spec fn inked_words(words: Seq<WordV>) -> Seq<(char, Look)>
    decreases words.len(),
{
    if words.len() == 0 {
        Seq::empty()
    } else {
        inked_words(words.drop_last()) + ink(words.last().text, words.last().style)
    }
}

proof fn lemma_word_said(s: WrapV, word: WordV, max: nat, indent: nat)
    requires
        begins_right(s, indent),
    ensures
        begins_right(word_placed(s, word, max, indent), indent),
        said(word_placed(s, word, max, indent), indent) == said(s, indent) + ink(
            word.text,
            word.style,
        ),
{
    let begun = if must_break(s, word, max, indent) {
        broken(s, indent)
    } else {
        s
    };
    assert(begins_right(begun, indent));
    let at = begun.done.len() as int;
    assert(said(begun, indent) =~= said(s, indent)) by {
        if must_break(s, word, max, indent) {
            assert(begun.done.push(begun.current).drop_last() =~= begun.done);
            assert(outdented(begun.current, at, indent) =~= Seq::empty());
            assert(inked(outdented(begun.current, at, indent)) =~= Seq::empty());
        }
    }
    let placed = word_placed(s, word, max, indent);
    assert(placed.done.push(placed.current).drop_last() =~= begun.done);
    assert(begun.done.push(begun.current).drop_last() =~= begun.done);
    assert(outdented(placed.current, at, indent) =~= outdented(begun.current, at, indent).push(
        (word.text, word.style),
    ));
    lemma_inked_push(outdented(begun.current, at, indent), word.text, word.style);
    assert(said(placed, indent) =~= said(begun, indent) + ink(word.text, word.style));
}

proof fn lemma_words_said(words: Seq<WordV>, max: nat, indent: nat)
    ensures
        begins_right(words_placed(unwrapped(), words, max, indent), indent),
        said(words_placed(unwrapped(), words, max, indent), indent) == inked_words(words),
    decreases words.len(),
{
    if words.len() == 0 {
        let s = unwrapped();
        assert(s.done.push(s.current).drop_last() =~= Seq::empty());
        assert(inked(s.current) =~= Seq::empty());
        assert(read_on(s.done, indent) =~= Seq::empty());
        assert(said(s, indent) =~= inked_words(words));
    } else {
        lemma_words_said(words.drop_last(), max, indent);
        lemma_word_said(
            words_placed(unwrapped(), words.drop_last(), max, indent),
            words.last(),
            max,
            indent,
        );
    }
}

proof fn lemma_inked_add(a: Seq<WordV>, b: Seq<WordV>)
    ensures
        inked_words(a + b) == inked_words(a) + inked_words(b),
    decreases b.len(),
{
    if b.len() == 0 {
        assert(a + b =~= a);
        assert(inked_words(a) + inked_words(b) =~= inked_words(a));
    } else {
        lemma_inked_add(a, b.drop_last());
        assert((a + b).drop_last() =~= a + b.drop_last());
        assert(inked_words(a + b) =~= inked_words(a) + inked_words(b));
    }
}

proof fn lemma_measured_ink(words: Seq<Seq<char>>, style: Look)
    ensures
        inked_words(measured_words(words, style)) == ink(joined_words(words), style),
    decreases words.len(),
{
    let all = measured_words(words, style);
    if words.len() == 0 {
        assert(inked_words(all) =~= ink(joined_words(words), style));
    } else {
        lemma_measured_ink(words.drop_last(), style);
        assert(all.drop_last() =~= measured_words(words.drop_last(), style));
        assert(ink(joined_words(words), style) =~= ink(joined_words(words.drop_last()), style)
            + ink(words.last(), style));
    }
}

/// Words one behind the other.
pub open spec fn joined_words(words: Seq<Seq<char>>) -> Seq<char>
    decreases words.len(),
{
    if words.len() == 0 {
        Seq::empty()
    } else {
        joined_words(words.drop_last()) + words.last()
    }
}

proof fn lemma_joined_prepend(word: Seq<char>, words: Seq<Seq<char>>)
    ensures
        joined_words(seq![word] + words) == word + joined_words(words),
    decreases words.len(),
{
    let all = seq![word] + words;
    if words.len() == 0 {
        assert(all.drop_last() =~= Seq::empty());
        assert(joined_words(all.drop_last()) =~= Seq::empty());
        assert(joined_words(all) =~= word);
        assert(word + joined_words(words) =~= word);
    } else {
        lemma_joined_prepend(word, words.drop_last());
        assert(all.drop_last() =~= seq![word] + words.drop_last());
        assert(joined_words(all) =~= word + joined_words(words));
    }
}

proof fn lemma_words_join(s: Seq<char>)
    ensures
        joined_words(words_of(s)) == s,
    decreases s.len(),
{
    let n = first_hit(s, Pick::Is(' ')) as int;
    if s.len() == 0 {
        assert(joined_words(words_of(s)) =~= s);
    } else if n >= s.len() {
        assert(seq![s].drop_last() =~= Seq::empty());
        assert(joined_words(seq![s].drop_last()) =~= Seq::empty());
        assert(joined_words(words_of(s)) =~= s);
    } else {
        lemma_words_join(s.skip(n + 1));
        lemma_joined_prepend(s.take(n + 1), words_of(s.skip(n + 1)));
        assert(s.take(n + 1) + s.skip(n + 1) =~= s);
    }
}

proof fn lemma_measured_says(spans: Seq<(Seq<char>, Look)>)
    ensures
        inked_words(measured(spans)) == inked(spans),
    decreases spans.len(),
{
    if spans.len() > 0 {
        lemma_measured_says(spans.drop_last());
        let words = words_of(spans.last().0);
        lemma_inked_add(measured(spans.drop_last()), measured_words(words, spans.last().1));
        lemma_measured_ink(words, spans.last().1);
        lemma_words_join(spans.last().0);
    }
}

/// Wrapping loses and changes nothing: without the indentation, the lines hold the characters of
/// the line in their order, and each in its style.
pub proof fn wrapping_keeps_the_text(spans: Seq<(Seq<char>, Look)>, max: nat, indent: nat)
    ensures
        read_on(wrapped_line(spans, max, indent), indent) == inked(spans),
{
    lemma_words_said(measured(spans), max, indent);
    lemma_measured_says(spans);
    let s = words_placed(unwrapped(), measured(spans), max, indent);
    if s.current.len() == 0 && s.done.len() > 0 {
        assert(s.done.push(s.current).drop_last() =~= s.done);
        assert(inked(outdented(s.current, s.done.len() as int, indent)) =~= Seq::empty()) by {
            assert(outdented(s.current, s.done.len() as int, indent) =~= Seq::empty());
        }
        assert(said(s, indent) =~= read_on(s.done, indent));
    }
}

/// How wide pieces are, one beside the other.
pub open spec fn total_width(pieces: Seq<(Seq<char>, Look)>) -> nat
    decreases pieces.len(),
{
    if pieces.len() == 0 {
        0
    } else {
        total_width(pieces.drop_last()) + display_width(pieces.last().0)
    }
}

/// All words of a line but the last one take no room at all.
pub open spec fn one_word(pieces: Seq<(Seq<char>, Look)>) -> bool {
    forall|i: int| 0 <= i < pieces.len() - 1 ==> display_width((#[trigger] pieces[i]).0) == 0
}

/// A line has room for its words behind its indentation, or is one word.
pub open spec fn line_fits(line: Seq<(Seq<char>, Look)>, at: int, max: nat, indent: nat) -> bool {
    let words = outdented(line, at, indent);
    one_word(words) || total_width(words) + (if at > 0 {
        indent
    } else {
        0
    }) <= max
}

/// The line that is not full yet fits, and its width is counted right.
spec fn current_fits(s: WrapV, max: nat, indent: nat) -> bool {
    let at = s.done.len() as int;
    let words = outdented(s.current, at, indent);
    &&& line_fits(s.current, at, max, indent)
    &&& s.width == total_width(words) + if at > 0 {
        indent
    } else {
        0
    }
    &&& begins_right(s, indent)
}

spec fn all_fit(s: WrapV, max: nat, indent: nat) -> bool {
    &&& current_fits(s, max, indent)
    &&& forall|i: int|
        0 <= i < s.done.len() ==> line_fits(#[trigger] s.done[i], i, max, indent)
}

proof fn lemma_widthless(pieces: Seq<(Seq<char>, Look)>)
    requires
        total_width(pieces) == 0,
    ensures
        forall|i: int| 0 <= i < pieces.len() ==> display_width((#[trigger] pieces[i]).0) == 0,
    decreases pieces.len(),
{
    if pieces.len() > 0 {
        lemma_widthless(pieces.drop_last());
        assert forall|i: int| 0 <= i < pieces.len() implies display_width(
            (#[trigger] pieces[i]).0,
        ) == 0 by {
            if i < pieces.len() - 1 {
                assert(pieces.drop_last()[i] == pieces[i]);
            }
        }
    }
}

proof fn lemma_word_fits(s: WrapV, word: WordV, max: nat, indent: nat)
    requires
        all_fit(s, max, indent),
        word.width == display_width(word.text),
    ensures
        all_fit(word_placed(s, word, max, indent), max, indent),
{
    let breaks = must_break(s, word, max, indent);
    let begun = if breaks {
        broken(s, indent)
    } else {
        s
    };
    let at = begun.done.len() as int;
    let before = outdented(begun.current, at, indent);
    let placed = word_placed(s, word, max, indent);
    let words = outdented(placed.current, at, indent);
    assert(words =~= before.push((word.text, word.style)));
    assert(words.drop_last() =~= before);
    assert(total_width(words) == total_width(before) + word.width);
    if breaks {
        assert(before =~= Seq::empty());
        assert(total_width(before) == 0);
        assert(one_word(words));
        assert forall|i: int| 0 <= i < placed.done.len() implies line_fits(
            #[trigger] placed.done[i],
            i,
            max,
            indent,
        ) by {
            if i < s.done.len() {
                assert(placed.done[i] == s.done[i]);
            }
        }
    } else if s.current.len() == 0 {
        assert(before =~= Seq::empty());
        assert(one_word(words));
    } else if s.width == 0 {
        lemma_widthless(before);
        assert(one_word(words));
    }
}

proof fn lemma_words_fit(words: Seq<WordV>, max: nat, indent: nat)
    requires
        forall|i: int|
            0 <= i < words.len() ==> (#[trigger] words[i]).width == display_width(words[i].text),
    ensures
        all_fit(words_placed(unwrapped(), words, max, indent), max, indent),
    decreases words.len(),
{
    if words.len() > 0 {
        assert forall|i: int| 0 <= i < words.drop_last().len() implies (
        #[trigger] words.drop_last()[i]).width == display_width(words.drop_last()[i].text) by {
            assert(words.drop_last()[i] == words[i]);
        }
        lemma_words_fit(words.drop_last(), max, indent);
        lemma_word_fits(
            words_placed(unwrapped(), words.drop_last(), max, indent),
            words.last(),
            max,
            indent,
        );
    }
}

proof fn lemma_measured_widths(spans: Seq<(Seq<char>, Look)>)
    ensures
        forall|i: int|
            0 <= i < measured(spans).len() ==> (#[trigger] measured(spans)[i]).width
                == display_width(measured(spans)[i].text),
    decreases spans.len(),
{
    if spans.len() > 0 {
        lemma_measured_widths(spans.drop_last());
    }
}

/// A wrapped line is no wider than the screen, unless it is a single word.
pub proof fn wrapped_lines_fit(spans: Seq<(Seq<char>, Look)>, max: nat, indent: nat, i: int)
    requires
        0 <= i < wrapped_line(spans, max, indent).len(),
    ensures
        line_fits(wrapped_line(spans, max, indent)[i], i, max, indent),
{
    lemma_measured_widths(spans);
    lemma_words_fit(measured(spans), max, indent);
    let s = words_placed(unwrapped(), measured(spans), max, indent);
    if i < s.done.len() {
        assert(wrapped_line(spans, max, indent)[i] == s.done[i]);
    }
}

} // verus!
