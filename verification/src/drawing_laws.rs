//! What holds of what is drawn: nothing that is to be shown is lost, and it looks as it should.

use vstd::prelude::*;

use crate::chars::{blanks, decimal, lemma_first_hit, lines, padded, Pick};
use crate::look::{colored, plain, Color, Look};
use crate::markdown::{
    event_taken, item_begun, marker, parted, style_of, tag_ended, tag_started, unwritten, with_code,
    with_line, with_marker, with_span, EventV, MarkedV, MdTag, WriterV,
};
use crate::model::{BlockV, EntryKind};
use crate::render::{
    all_block_lines, ansi_lines, block_lines, entry_lines, laid_words, marked_lines, measured,
    own_line, own_lines, single, text_lines, thinking_lines, thought, thought_pieces,
    tool_result_lines, tool_use_lines, unwrapped, word_placed, words_of, words_placed, wrapped_line,
    Paint, SpanV, WordV, WrapV,
};
use crate::screen::{footer_of, row_of, title_of, visible};
use crate::textarea::{display_width, wrapped, Fit};
use crate::window::{description, StatusV, WindowV};

verus! {

// ---------------------------------------------------------------------------
// The list

/// The text begins with the word and goes on with blanks up to the width.
pub open spec fn fills(text: Seq<char>, word: Seq<char>, width: int) -> bool {
    &&& text.len() >= word.len()
    &&& text.take(word.len() as int) == word
    &&& forall|i: int| word.len() <= i < text.len() ==> #[trigger] text[i] == ' '
    &&& word.len() <= width ==> text.len() == width
    &&& word.len() > width ==> text.len() == word.len()
}

proof fn lemma_padded(word: Seq<char>, width: nat)
    ensures
        fills(padded(word, width), word, width as int),
{
    assert(padded(word, width).take(word.len() as int) =~= word);
}

/// A row shows how the window stands in ten columns, its slug in twenty, and what is known of it.
pub proof fn row_shows_the_window(w: WindowV, selected_slug: Option<Seq<char>>)
    ensures
        ({
            let row = row_of(w, selected_slug);
            let word = match w.status {
                StatusV::Active { .. } => "active"@,
                StatusV::Idle => "idle"@,
                StatusV::NotLoaded => "unloaded"@,
                StatusV::SystemError => "error"@,
            };
            &&& row.spans.len() == 3
            &&& fills(row.spans[0].0, word, 10)
            &&& fills(row.spans[1].0, w.slug, 20)
            &&& row.spans[2].0 == description(w)
            &&& row.spans[1].1 == Color::Cyan
        }),
{
    lemma_padded("active"@, 10);
    lemma_padded("idle"@, 10);
    lemma_padded("unloaded"@, 10);
    lemma_padded("error"@, 10);
    lemma_padded(w.slug, 20);
}

/// The colors tell: green what is active, red what is broken, a color of its own what somebody has
/// to attend to; the selected row has a background, and no other has.
pub proof fn colors_tell(w: WindowV, selected_slug: Option<Seq<char>>)
    ensures
        w.status is Active <==> row_of(w, selected_slug).spans[0].1 == Color::Green,
        w.status == StatusV::SystemError <==> row_of(w, selected_slug).spans[0].1 == Color::Red,
        w.classification is Some && w.classification->Some_0.attention <==> row_of(
            w,
            selected_slug,
        ).spans[2].1 == Color::Indexed(173),
        w.classification is None ==> row_of(w, selected_slug).spans[2].1 == Color::Reset,
        selected_slug == Some(w.slug) <==> row_of(w, selected_slug).bg == Color::DarkGray,
        selected_slug != Some(w.slug) ==> row_of(w, selected_slug).bg == Color::Reset,
{
}

/// Shown are the matches from the first visible one on, as many as there are rows.
pub proof fn rows_show_the_matches(matches: Seq<usize>, offset: int, page: int, i: int)
    requires
        0 <= offset < matches.len(),
        0 <= page,
        0 <= i < page,
        offset + i < matches.len(),
    ensures
        i < visible(matches, offset, page).len(),
        visible(matches, offset, page)[i] == matches[offset + i],
        visible(matches, offset, page).len() <= page,
        visible(matches, offset, page).len() <= matches.len() - offset,
{
}

/// The title counts the windows; the foot counts the matches while something is looked for, and
/// otherwise says which of them are visible where not all are.
pub proof fn head_and_foot_count(
    windows: nat,
    query: Seq<char>,
    count: nat,
    offset: nat,
    page: nat,
)
    requires
        offset < count,
    ensures
        title_of(windows) == decimal(windows) + " primary Codex windows"@,
        count > 1 ==> footer_of(Some(query), count as int, offset as int, page as int) == "find /"@
            + query + "  "@ + decimal(count) + " "@ + "matches"@
            + "  Up/Down select  Enter open  Esc clear"@,
        footer_of(Some(query), 1, offset as int, page as int) == "find /"@ + query + "  "@ + decimal(
            1,
        ) + " "@ + "match"@ + "  Up/Down select  Enter open  Esc clear"@,
        footer_of(Some(query), 0, offset as int, page as int) == "find /"@ + query
            + "  no matches  Esc clear"@,
        count <= page ==> footer_of(None, count as int, offset as int, page as int)
            == "j/k select  g/G first/last  / find  Enter open  q quit"@ + ""@,
        count > page && offset + page <= count ==> footer_of(
            None,
            count as int,
            offset as int,
            page as int,
        ) == "j/k select  g/G first/last  / find  Enter open  q quit"@ + ("  "@ + decimal(
            (offset + 1) as nat,
        ) + "-"@ + decimal((offset + page) as nat) + " of "@ + decimal(count)),
{
}

// ---------------------------------------------------------------------------
// Entries of a conversation

/// The line is the one text in the one look.
pub open spec fn is_line(line: Seq<SpanV>, text: Seq<char>, look: Look) -> bool {
    &&& line.len() == 1
    &&& line[0].text == text
    &&& line[0].paint == Paint::Own(look)
}

/// What the user wrote is shown line for line, in white.
pub proof fn user_text_is_shown(text: Seq<char>, width: nat, i: int)
    requires
        0 <= i < lines(text).len(),
    ensures
        text_lines(text, EntryKind::User, width).len() == lines(text).len(),
        is_line(
            text_lines(text, EntryKind::User, width)[i],
            lines(text)[i],
            Look { fg: Some(Color::White), bold: false, italic: false },
        ),
{
}

/// A tool is shown by its name and the first five lines of its input, in yellow; of longer input it
/// is said how many lines are left out.
pub proof fn tool_use_is_shown(name: Seq<char>, summary: Seq<char>, i: int)
    requires
        0 <= i < lines(summary).len(),
        i < 5,
    ensures
        ({
            let shown = tool_use_lines(name, summary);
            let n = lines(summary).len();
            let yellow = Look { fg: Some(Color::Yellow), bold: false, italic: false };
            &&& is_line(shown[0], "  \u{25b6} "@ + name, Look { bold: true, ..yellow })
            &&& is_line(shown[i + 1], "    "@ + lines(summary)[i], yellow)
            &&& n <= 5 ==> shown.len() == n + 1
            &&& n > 5 ==> shown.len() == 7 && is_line(
                shown[6],
                "    ... ("@ + (decimal((n - 5) as nat) + " more lines)"@),
                yellow,
            )
        }),
{
}

/// A result is shown by how many lines it has, and unfolded by its lines too; an error says that it
/// is one, in red.
pub proof fn tool_result_is_shown(content: Seq<char>, is_error: bool, i: int)
    requires
        0 <= i < lines(content).len(),
    ensures
        ({
            let shown = tool_result_lines(content, is_error, false, None);
            let folded = tool_result_lines(content, is_error, true, None);
            let n = lines(content).len();
            let look = Look {
                fg: Some(
                    if is_error {
                        Color::Red
                    } else {
                        Color::DarkGray
                    },
                ),
                bold: false,
                italic: false,
            };
            let head = (if is_error {
                "  \u{25c0} error ("@
            } else {
                "  \u{25c0} result ("@
            }) + (decimal(n) + " lines)"@);
            &&& shown.len() == n + 1
            &&& is_line(shown[0], head, look)
            &&& is_line(shown[i + 1], "    "@ + lines(content)[i], look)
            &&& folded.len() == 1
            &&& is_line(folded[0], head, look)
        }),
{
}

/// A result with colors keeps them, set in by four blanks; an error does not.
pub proof fn colored_result_is_shown(
    content: Seq<char>,
    rows: Seq<Seq<(Seq<char>, ratatui::style::Style)>>,
    i: int,
    k: int,
)
    requires
        0 <= i < rows.len(),
        0 <= k < rows[i].len(),
    ensures
        ({
            let shown = tool_result_lines(content, false, false, Some(rows));
            &&& shown.len() == rows.len() + 1
            &&& shown[i + 1].len() == rows[i].len() + 1
            &&& shown[i + 1][0].text == "    "@
            &&& shown[i + 1][k + 1].text == rows[i][k].0
            &&& shown[i + 1][k + 1].paint == Paint::Ansi(rows[i][k].1)
        }),
{
}

/// Thinking is shown line for line behind a bar, an empty line by the bar alone.
pub proof fn thinking_is_shown(before: Seq<Seq<char>>, line: Seq<char>, room: nat)
    ensures
        line.len() == 0 ==> thought(before.push(line), room) == thought(before, room) + seq![
            single("  \u{2502} "@, Look { fg: Some(Color::Cyan), bold: false, italic: false }),
        ],
        line.len() > 0 ==> thought(before.push(line), room) == thought(before, room)
            + thought_pieces(wrapped(line, room, Fit::Best)),
        thought(Seq::empty(), room).len() == 0,
{
    assert(before.push(line).drop_last() =~= before);
}

/// Each piece of a thought is shown whole.
pub proof fn pieces_of_a_thought_are_shown(pieces: Seq<Seq<char>>, i: int)
    requires
        0 <= i < pieces.len(),
    ensures
        thought_pieces(pieces).len() == pieces.len(),
        thought_pieces(pieces)[i].len() == 2,
        thought_pieces(pieces)[i][0].text == "  \u{2502} "@,
        thought_pieces(pieces)[i][1].text == pieces[i],
{
}

/// Thinking stands under its name and above a bar, and has the room that is left beside the bar.
pub proof fn thinking_has_a_head_and_a_foot(text: Seq<char>, width: nat)
    ensures
        ({
            let shown = thinking_lines(text, width);
            let n = shown.len() as int;
            &&& n >= 2
            &&& shown[0].len() == 2
            &&& shown[0][0].text == "  \u{2502} "@
            &&& shown[0][1].text == "thinking"@
            &&& shown[0][1].paint == Paint::Own(
                Look { fg: Some(Color::DarkGray), bold: false, italic: true },
            )
            &&& is_line(
                shown[n - 1],
                "  \u{2502}"@,
                Look { fg: Some(Color::Cyan), bold: false, italic: false },
            )
            &&& width > 5 ==> shown.subrange(1, n - 1) == thought(lines(text), (width - 4) as nat)
            &&& width <= 5 ==> shown.subrange(1, n - 1) == thought(lines(text), 1)
        }),
{
    let shown = thinking_lines(text, width);
    assert(shown.subrange(1, shown.len() - 1) =~= thought(lines(text), crate::render::room(width)));
}

/// Marked lines are shown in their order: what may not be broken as it is, the rest broken to the
/// width and set in behind its marker.
pub proof fn marked_lines_are_shown(before: Seq<MarkedV>, line: MarkedV, width: nat)
    ensures
        line.no_wrap ==> marked_lines(before.push(line), width) == marked_lines(before, width)
            + seq![own_line(line.spans)],
        !line.no_wrap ==> marked_lines(before.push(line), width) == marked_lines(before, width)
            + own_lines(wrapped_line(line.spans, width, line.indent_level)),
        marked_lines(Seq::empty(), width).len() == 0,
{
    assert(before.push(line).drop_last() =~= before);
}

/// A text may be broken behind each blank, and nowhere else.
pub proof fn text_is_broken_behind_blanks(word: Seq<char>, rest: Seq<char>)
    requires
        forall|i: int| 0 <= i < word.len() ==> #[trigger] word[i] != ' ',
    ensures
        words_of(word + seq![' '] + rest) == seq![word + seq![' ']] + words_of(rest),
        word.len() > 0 ==> words_of(word) == seq![word],
        words_of(Seq::empty()) == Seq::<Seq<char>>::empty(),
{
    let n = word.len() as int;
    let s = word + seq![' '] + rest;
    assert forall|j: int| 0 <= j < n implies s[j] != ' ' by {
        assert(s[j] == word[j]);
    }
    assert(s[n] == ' ');
    lemma_first_hit(s, Pick::Is(' '), n);
    assert(s.take(n + 1) =~= word + seq![' ']);
    assert(s.skip(n + 1) =~= rest);
    lemma_first_hit(word, Pick::Is(' '), n);
}

/// The words of a line are those of its pieces, each in the look of its piece and as wide as it is.
pub proof fn words_keep_their_look(
    before: Seq<(Seq<char>, Look)>,
    text: Seq<char>,
    look: Look,
    i: int,
)
    requires
        0 <= i < words_of(text).len(),
    ensures
        ({
            let all = measured(before.push((text, look)));
            let n = measured(before).len();
            &&& all.len() == n + words_of(text).len()
            &&& all.take(n as int) == measured(before)
            &&& all[n + i] == (WordV {
                text: words_of(text)[i],
                style: look,
                width: display_width(words_of(text)[i]),
            })
        }),
{
    assert(before.push((text, look)).drop_last() =~= before);
    let all = measured(before.push((text, look)));
    assert(all.take(measured(before).len() as int) =~= measured(before));
}

/// How wide the words are together.
pub open spec fn words_width(words: Seq<WordV>) -> nat
    decreases words.len(),
{
    if words.len() == 0 {
        0
    } else {
        words_width(words.drop_last()) + words.last().width
    }
}

/// The words as the pieces of a line.
pub open spec fn as_pieces(words: Seq<WordV>) -> Seq<(Seq<char>, Look)> {
    Seq::new(words.len(), |i: int| (words[i].text, words[i].style))
}

proof fn lemma_unbroken(words: Seq<WordV>, max: nat, indent: nat)
    requires
        words_width(words) <= max,
    ensures
        words_placed(unwrapped(), words, max, indent) == (WrapV {
            done: Seq::empty(),
            current: as_pieces(words),
            width: words_width(words),
        }),
    decreases words.len(),
{
    if words.len() == 0 {
        assert(as_pieces(words) =~= Seq::<(Seq<char>, Look)>::empty());
    } else {
        lemma_unbroken(words.drop_last(), max, indent);
        assert(as_pieces(words) =~= as_pieces(words.drop_last()).push(
            (words.last().text, words.last().style),
        ));
    }
}

/// What fits on a line is not broken.
pub proof fn line_that_fits_is_not_broken(words: Seq<WordV>, max: nat, indent: nat)
    requires
        words_width(words) <= max,
    ensures
        laid_words(words, max, indent) == seq![as_pieces(words)],
{
    lemma_unbroken(words, max, indent);
    assert(Seq::<Seq<(Seq<char>, Look)>>::empty().push(as_pieces(words)) =~= seq![as_pieces(words)]);
}

/// A line is broken before the word that has no room on it, and before no other; the next line is
/// set in by blanks.
pub proof fn lines_are_broken_where_they_are_full(s: WrapV, word: WordV, max: nat, indent: nat)
    requires
        s.width > 0,
        s.current.len() > 0,
    ensures
        ({
            let after = word_placed(s, word, max, indent);
            let room = if s.done.len() == 0 {
                max as int
            } else if indent < max {
                max - indent
            } else {
                0
            };
            &&& after.current.last() == (word.text, word.style)
            &&& s.width + word.width <= room ==> after.done == s.done && after.current
                == s.current.push((word.text, word.style)) && after.width == s.width + word.width
            &&& s.width + word.width > room ==> after.done == s.done.push(s.current)
                && after.width == indent + word.width && after.current.len() == (if indent > 0 {
                2int
            } else {
                1int
            }) && (indent > 0 ==> after.current[0] == (blanks(indent), plain()))
        }),
{
}

/// The blocks of an entry are shown one behind the other, each by what it is.
pub proof fn blocks_are_shown_in_order(
    before: Seq<BlockV>,
    block: BlockV,
    kind: EntryKind,
    width: nat,
)
    ensures
        all_block_lines(before.push(block), kind, width) == all_block_lines(before, kind, width)
            + block_lines(block, kind, width),
        all_block_lines(Seq::empty(), kind, width).len() == 0,
        block matches BlockV::Text { text } ==> block_lines(block, kind, width) == text_lines(
            text,
            kind,
            width,
        ),
        block matches BlockV::ToolUse { name, input_summary } ==> block_lines(block, kind, width)
            == tool_use_lines(name, input_summary),
        block matches BlockV::ToolResult { content, is_error, collapsed } ==> block_lines(
            block,
            kind,
            width,
        ) == tool_result_lines(content, is_error, collapsed, ansi_lines(content)),
{
    assert(before.push(block).drop_last() =~= before);
}

/// An entry says who speaks, in a color of their own, unless it holds results alone; an empty line
/// ends it.
pub proof fn entry_says_who_speaks(blocks: Seq<BlockV>, width: nat)
    ensures
        ({
            let shown = entry_lines(EntryKind::Assistant, blocks, width);
            &&& is_line(
                shown[0],
                "Assistant"@,
                Look { fg: Some(Color::Blue), bold: true, italic: false },
            )
            &&& shown[1].len() == 0
            &&& shown.last().len() == 0
            &&& shown.subrange(2, shown.len() - 1) == all_block_lines(
                blocks,
                EntryKind::Assistant,
                width,
            )
        }),
        (exists|i: int| 0 <= i < blocks.len() && !(blocks[i] is ToolResult)) ==> {
            let shown = entry_lines(EntryKind::User, blocks, width);
            &&& is_line(
                shown[0],
                "Human"@,
                Look { fg: Some(Color::Green), bold: true, italic: false },
            )
            &&& shown[1].len() == 0
            &&& shown.subrange(2, shown.len() - 1) == all_block_lines(
                blocks,
                EntryKind::User,
                width,
            )
        },
        blocks.len() > 0 && (forall|i: int| 0 <= i < blocks.len() ==> blocks[i] is ToolResult) ==> {
            let shown = entry_lines(EntryKind::User, blocks, width);
            shown.drop_last() == all_block_lines(blocks, EntryKind::User, width)
        },
{
    let a = all_block_lines(blocks, EntryKind::Assistant, width);
    let u = all_block_lines(blocks, EntryKind::User, width);
    let shown = entry_lines(EntryKind::Assistant, blocks, width);
    let other = entry_lines(EntryKind::User, blocks, width);
    assert(shown.subrange(2, shown.len() - 1) =~= a);
    if exists|i: int| 0 <= i < blocks.len() && !(blocks[i] is ToolResult) {
        assert(other.subrange(2, other.len() - 1) =~= u);
    } else {
        assert(other.drop_last() =~= u || blocks.len() == 0);
    }
}

// ---------------------------------------------------------------------------
// Marked text

/// The text of the pieces, one behind the other.
pub open spec fn line_text(spans: Seq<(Seq<char>, Look)>) -> Seq<char>
    decreases spans.len(),
{
    if spans.len() == 0 {
        Seq::empty()
    } else {
        line_text(spans.drop_last()) + spans.last().0
    }
}

/// All that is written.
pub open spec fn written(ls: Seq<MarkedV>) -> Seq<char>
    decreases ls.len(),
{
    if ls.len() == 0 {
        Seq::empty()
    } else {
        written(ls.drop_last()) + line_text(ls.last().spans)
    }
}

/// The lines of a text without their ends.
pub open spec fn run_together(ls: Seq<Seq<char>>) -> Seq<char>
    decreases ls.len(),
{
    if ls.len() == 0 {
        Seq::empty()
    } else {
        run_together(ls.drop_last()) + ls.last()
    }
}

proof fn lemma_empty_line(w: WriterV)
    ensures
        written(with_line(w, Seq::empty()).lines) == written(w.lines),
{
    let after = with_line(w, Seq::empty()).lines;
    assert(after.drop_last() =~= w.lines);
    assert(written(w.lines) + Seq::<char>::empty() =~= written(w.lines));
}

proof fn lemma_line(w: WriterV, text: Seq<char>, style: Look)
    ensures
        written(with_line(w, seq![(text, style)]).lines) == written(w.lines) + text,
{
    let spans = seq![(text, style)];
    let after = with_line(w, spans).lines;
    assert(after.drop_last() =~= w.lines);
    reveal_with_fuel(line_text, 2);
    assert(spans.drop_last() =~= Seq::<(Seq<char>, Look)>::empty());
    assert(line_text(spans) =~= text);
}

proof fn lemma_span(w: WriterV, text: Seq<char>, style: Look)
    ensures
        written(with_span(w, text, style).lines) == written(w.lines) + text,
        with_span(w, text, style).lines.len() > 0,
        with_span(w, text, style).lines.last().spans.len() > 0,
        with_span(w, text, style).lines.last().spans.last() == (text, style),
{
    if w.lines.len() == 0 {
        lemma_line(w, text, style);
    } else {
        let after = with_span(w, text, style).lines;
        let last = w.lines.last().spans;
        assert(after.drop_last() =~= w.lines.drop_last());
        assert(last.push((text, style)).drop_last() =~= last);
        assert(written(w.lines.drop_last()) + (line_text(last) + text) =~= written(
            w.lines.drop_last(),
        ) + line_text(last) + text);
    }
}

/// The marker that an item still lacks.
pub open spec fn missing_marker(w: WriterV) -> Seq<char> {
    if w.item && w.lists.len() > 0 {
        marker(w.lists.len(), w.lists.last())
    } else {
        Seq::empty()
    }
}

proof fn lemma_item(w: WriterV)
    ensures
        written(item_begun(w).lines) == written(w.lines) + missing_marker(w),
        item_begun(w).code == w.code,
        style_of(item_begun(w)) == style_of(w),
{
    assert(written(w.lines) + Seq::<char>::empty() =~= written(w.lines));
    if w.item && w.lists.len() > 0 {
        let text = missing_marker(w);
        let numbered = WriterV {
            lists: w.lists.drop_last().push(crate::markdown::next_number(w.lists.last())),
            indents: if w.indents.len() == 0 {
                w.indents
            } else {
                w.indents.drop_last().push(text.len())
            },
            ..w
        };
        let marked = with_span(numbered, text, plain());
        lemma_span(numbered, text, plain());
        let after = with_marker(w).lines;
        assert(after.drop_last() =~= marked.lines.drop_last());
    }
}

proof fn lemma_parted(w: WriterV)
    ensures
        written(parted(w).lines) == written(w.lines),
{
    lemma_empty_line(w);
}

/// What a text says is written behind all that is there, whole and in the look that it stands in;
/// an item that has no marker yet gets it first.
pub proof fn text_is_written(w: WriterV, text: Seq<char>)
    requires
        !w.code,
    ensures
        ({
            let after = event_taken(w, EventV::Text(text));
            &&& written(after.lines) == written(w.lines) + missing_marker(w) + text
            &&& after.lines.last().spans.last() == (text, style_of(w))
            &&& !after.newline
            &&& !after.item
            &&& w.lines.len() > 0 ==> after.lines.len() == w.lines.len() + if w.newline {
                1int
            } else {
                0int
            }
        }),
{
    lemma_item(w);
    let begun = item_begun(w);
    lemma_parted(begun);
    lemma_span(WriterV { newline: false, ..parted(begun) }, text, style_of(begun));
}

/// Code in the middle of a text is written whole, in green.
pub proof fn inline_code_is_written(w: WriterV, text: Seq<char>)
    ensures
        ({
            let after = event_taken(w, EventV::Code(text));
            &&& written(after.lines) == written(w.lines) + missing_marker(w) + text
            &&& after.lines.last().spans.last() == (
                text,
                Look { fg: Some(Color::Green), bold: false, italic: false },
            )
        }),
{
    lemma_item(w);
    lemma_span(item_begun(w), text, colored(Color::Green));
}

proof fn lemma_code(w: WriterV, ls: Seq<Seq<char>>)
    ensures
        written(with_code(w, ls).lines) == written(w.lines) + run_together(ls),
    decreases ls.len(),
{
    if ls.len() == 0 {
        assert(written(w.lines) + Seq::<char>::empty() =~= written(w.lines));
    } else {
        lemma_code(w, ls.drop_last());
        let before = with_code(w, ls.drop_last());
        lemma_empty_line(before);
        let apart = if ls.len() > 1 || w.newline {
            with_line(before, Seq::empty())
        } else {
            before
        };
        lemma_span(apart, ls.last(), colored(Color::White));
        let spanned = with_span(apart, ls.last(), colored(Color::White));
        let after = with_code(w, ls).lines;
        assert(after.drop_last() =~= spanned.lines.drop_last());
        assert(written(w.lines) + run_together(ls.drop_last()) + ls.last() =~= written(w.lines) + (
        run_together(ls.drop_last()) + ls.last()));
    }
}

/// A block of code is written line for line, and nothing of it is lost.
pub proof fn code_block_is_written(w: WriterV, text: Seq<char>)
    requires
        w.code,
    ensures
        written(event_taken(w, EventV::Text(text)).lines) == written(w.lines) + missing_marker(w)
            + run_together(lines(text)),
        event_taken(w, EventV::Text(text)).newline <==> text.len() > 0 && text.last() == '\n',
{
    lemma_item(w);
    lemma_code(item_begun(w), lines(text));
}

/// Breaks, and the beginnings and ends of elements, write nothing but what marks them: a heading
/// its hashes, a rule its strokes, an item that stayed empty its marker.
pub proof fn elements_write_their_marks_only(w: WriterV, level: usize, number: Option<u64>)
    ensures
        written(event_taken(w, EventV::SoftBreak).lines) == written(w.lines),
        event_taken(w, EventV::SoftBreak).lines.len() == w.lines.len() + 1,
        written(event_taken(w, EventV::HardBreak).lines) == written(w.lines),
        event_taken(w, EventV::HardBreak).lines.len() == w.lines.len() + 1,
        written(tag_started(w, MdTag::Paragraph).lines) == written(w.lines),
        written(tag_started(w, MdTag::CodeBlock).lines) == written(w.lines),
        written(tag_started(w, MdTag::BlockQuote).lines) == written(w.lines),
        written(tag_started(w, MdTag::List(number)).lines) == written(w.lines),
        written(tag_started(w, MdTag::Item).lines) == written(w.lines),
        written(tag_started(w, MdTag::Strong).lines) == written(w.lines) + missing_marker(w),
        written(tag_started(w, MdTag::Emphasis).lines) == written(w.lines) + missing_marker(w),
        written(tag_started(w, MdTag::Heading(level)).lines) == written(w.lines) + (Seq::new(
            level as nat,
            |i: int| '#',
        ) + " "@),
        written(event_taken(w, EventV::Rule).lines) == written(w.lines)
            + "\u{2500}\u{2500}\u{2500}"@,
        written(tag_ended(w, MdTag::Item).lines) == written(w.lines) + missing_marker(w),
{
    lemma_item(w);
    lemma_empty_line(w);
    lemma_parted(w);
    lemma_empty_line(parted(w));
    lemma_empty_line(WriterV { indents: w.indents.push(0), ..w });
    let apart = parted(w);
    let styled = crate::markdown::with_style(apart, crate::markdown::heading_style());
    lemma_line(
        styled,
        crate::markdown::hashes(level as nat) + " "@,
        crate::markdown::heading_style(),
    );
    assert(crate::markdown::hashes(level as nat) =~= Seq::new(level as nat, |i: int| '#'));
    lemma_line(apart, "\u{2500}\u{2500}\u{2500}"@, colored(Color::DarkGray));
}

/// What comes behind a paragraph, a heading, a quotation, a list or a block of code is set off from
/// it by an empty line.
pub proof fn elements_are_set_off(w: WriterV, level: usize)
    requires
        w.lists.len() == 0,
    ensures
        ({
            let ended = tag_ended(w, MdTag::Paragraph);
            let next = tag_started(ended, MdTag::Paragraph);
            &&& ended.lines == w.lines
            &&& next.lines.len() == w.lines.len() + 2
            &&& next.lines[w.lines.len() as int].spans.len() == 0
            &&& next.lines[w.lines.len() as int + 1].spans.len() == 0
            &&& tag_started(ended, MdTag::Heading(level)).lines.len() == w.lines.len() + 2
            &&& tag_started(ended, MdTag::CodeBlock).lines.len() == w.lines.len() + 1
            &&& tag_started(ended, MdTag::List(None)).lines.len() == w.lines.len() + 1
            &&& tag_ended(w, MdTag::Heading(level)).newline
            &&& tag_ended(w, MdTag::CodeBlock).newline
            &&& tag_ended(w, MdTag::BlockQuote).newline
            &&& tag_ended(w, MdTag::List(None)).newline
        }),
{
}

/// Text in a block of code is kept from being broken; any other is not.
pub proof fn code_is_told_from_text(w: WriterV)
    ensures
        tag_started(w, MdTag::CodeBlock).code,
        !tag_ended(w, MdTag::CodeBlock).code,
        with_line(w, Seq::empty()).lines.last().no_wrap == w.code,
        tag_started(w, MdTag::Paragraph).code == w.code,
{
}

/// The writer begins with nothing written, in no element and in no look.
pub proof fn writer_begins_with_nothing()
    ensures
        ({
            let w = unwritten();
            &&& w.lines.len() == 0
            &&& w.styles.len() == 0
            &&& w.lists.len() == 0
            &&& w.indents.len() == 0
            &&& !w.code
            &&& !w.item
            &&& !w.newline
            &&& style_of(w) == plain()
            &&& tag_started(w, MdTag::Paragraph).lines.len() == 1
        }),
{
}

/// An element that has begun is not set off again from what comes in it; an item waits for its
/// marker.
pub proof fn elements_are_set_off_once(w: WriterV, level: usize, number: Option<u64>)
    ensures
        !tag_started(w, MdTag::Paragraph).newline,
        !tag_started(w, MdTag::Heading(level)).newline,
        !tag_started(w, MdTag::CodeBlock).newline,
        !tag_started(w, MdTag::BlockQuote).newline,
        !tag_started(w, MdTag::List(number)).newline,
        !tag_started(w, MdTag::Item).newline,
        tag_started(w, MdTag::Item).item,
        tag_started(w, MdTag::Item).indents == w.indents.push(0),
        event_taken(w, EventV::Rule).newline,
        !tag_ended(w, MdTag::Item).item,
        tag_ended(w, MdTag::Item).newline == w.newline,
{
}

/// What an element does to the look of the text in it.
pub proof fn elements_have_their_look(w: WriterV, level: usize)
    ensures
        ({
            let strong = style_of(tag_started(w, MdTag::Strong));
            let emphasis = style_of(tag_started(w, MdTag::Emphasis));
            let heading = style_of(tag_started(w, MdTag::Heading(level)));
            &&& strong.bold && strong.italic == style_of(w).italic && strong.fg == style_of(w).fg
            &&& emphasis.italic && emphasis.bold == style_of(w).bold && emphasis.fg
                == style_of(w).fg
            &&& heading.bold && heading.fg == Some(Color::Cyan) && heading.italic == style_of(
                w,
            ).italic
            &&& style_of(tag_ended(tag_started(w, MdTag::Strong), MdTag::Strong)) == style_of(w)
            &&& style_of(tag_ended(tag_started(w, MdTag::Emphasis), MdTag::Emphasis)) == style_of(w)
        }),
{
    lemma_item(w);
    let s = tag_started(w, MdTag::Strong);
    let e = tag_started(w, MdTag::Emphasis);
    assert(s.styles.drop_last() =~= w.styles);
    assert(e.styles.drop_last() =~= w.styles);
}

/// The items of a list are numbered on from its first number, or have dashes; each list within
/// another is set in by four blanks.
pub proof fn items_are_numbered_on(w: WriterV, n: u64, depth: nat)
    requires
        w.lists.len() > 0,
        w.item,
        n < u64::MAX,
        depth > 0,
    ensures
        w.lists.last() == Some(n) ==> item_begun(w).lists.last() == Some((n + 1) as u64),
        w.lists.last() is None ==> item_begun(w).lists.last() is None,
        item_begun(w).lists.len() == w.lists.len(),
        marker(depth, Some(n)) == blanks((4 * (depth - 1)) as nat) + (decimal(n as nat) + ". "@),
        marker(depth, None) == blanks((4 * (depth - 1)) as nat) + "- "@,
        tag_started(w, MdTag::List(Some(n))).lists == w.lists.push(Some(n)),
        tag_ended(w, MdTag::List(Some(n))).lists == w.lists.drop_last(),
{
}

} // verus!
