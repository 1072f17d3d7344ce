//! What holds of the text of a prompt and of the reader around it, read off the text before and
//! behind the cursor.

use vstd::arithmetic::div_mod::lemma_small_mod;
use vstd::prelude::*;

use crate::app::{folded, keyed as pressed, AppV, ApprovalDecision, Mode, RunState};
use crate::chars::{
    after_last, first_hit, is_ascii_control, is_space, lemma_after_last, lemma_first_hit, stands_at,
    trim_end, Pick,
};
use crate::keys::{Code, Key, Kind};
use crate::model::{blocks_view, BlockV, ConversationEntry};
use crate::textarea::{
    before_column, begin_of, clusters, cursor_at, deleted, display_width, drawn_cursor, drawn_rows,
    inserted, keyed, laid_out, least, line_of, lines_up_to, next_boundary, places,
    previous_boundary, ranges, ranges_from, scroll_for, seen, sizes, total_length, word_begin,
    word_end, wrapped, Fit, TextAreaV,
};

verus! {

// ---------------------------------------------------------------------------
// Typing and cutting

/// The cursor stands between the two parts of the text.
pub open spec fn stands(t: TextAreaV, before: Seq<char>, behind: Seq<char>) -> bool {
    &&& t.text == before + behind
    &&& t.cursor == before.len()
}

proof fn lemma_parts(t: TextAreaV, before: Seq<char>, behind: Seq<char>)
    requires
        stands(t, before, behind),
    ensures
        t.text.take(t.cursor) == before,
        t.text.skip(t.cursor) == behind,
        0 <= t.cursor <= t.text.len(),
{
    assert(t.text.take(t.cursor) =~= before);
    assert(t.text.skip(t.cursor) =~= behind);
}

/// The key goes down or is held.
pub open spec fn goes_down(key: Key) -> bool {
    key.kind != Kind::Release
}

pub open spec fn is_ctrl(key: Key, c: char) -> bool {
    goes_down(key) && key.ctrl && key.code == Code::Char(c)
}

pub open spec fn is_alt(key: Key, c: char) -> bool {
    goes_down(key) && key.alt && !key.ctrl && key.code == Code::Char(c)
}

/// A key of a whole word: one of those for a character, with control or alt.
pub open spec fn is_wordly(key: Key, code: Code) -> bool {
    goes_down(key) && (key.ctrl || key.alt) && key.code == code
}

pub open spec fn is_bare(key: Key, code: Code) -> bool {
    goes_down(key) && !key.ctrl && !key.alt && key.code == code
}

/// A character is put in at the cursor, which moves behind it.
pub proof fn typing_puts_a_character_in(
    t: TextAreaV,
    key: Key,
    c: char,
    before: Seq<char>,
    behind: Seq<char>,
)
    requires
        stands(t, before, behind),
        is_bare(key, Code::Char(c)),
        !is_ascii_control(c),
    ensures
        stands(keyed(t, key), before + seq![c], behind),
        keyed(t, key).kill == t.kill,
{
    lemma_parts(t, before, behind);
}

/// What was cut out is put in at the cursor, which moves behind it.
pub proof fn yanking_puts_the_cut_in(
    t: TextAreaV,
    key: Key,
    before: Seq<char>,
    behind: Seq<char>,
)
    requires
        stands(t, before, behind),
        is_ctrl(key, 'y'),
    ensures
        stands(keyed(t, key), before + t.kill, behind),
        keyed(t, key).kill == t.kill,
{
    lemma_parts(t, before, behind);
    if t.kill.len() == 0 {
        assert(before + t.kill =~= before);
    }
}

/// A key that is let go does nothing.
pub proof fn letting_go_does_nothing(t: TextAreaV, key: Key)
    requires
        key.kind == Kind::Release,
    ensures
        keyed(t, key) == t,
{
}

/// The line begins here: behind nothing, or behind the end of a line.
pub open spec fn ends_a_line(part: Seq<char>) -> bool {
    part.len() == 0 || part.last() == '\n'
}

/// The line ends here.
pub open spec fn begins_a_line(part: Seq<char>) -> bool {
    part.len() == 0 || part[0] == '\n'
}

pub open spec fn is_one_line(part: Seq<char>) -> bool {
    forall|i: int| 0 <= i < part.len() ==> #[trigger] part[i] != '\n'
}

proof fn lemma_line_begin(upper: Seq<char>, line: Seq<char>)
    requires
        ends_a_line(upper),
        is_one_line(line),
    ensures
        after_last(upper + line, Pick::Is('\n')) == upper.len(),
{
    let before = upper + line;
    assert forall|j: int| upper.len() <= j < before.len() implies before[j] != '\n' by {
        assert(before[j] == line[j - upper.len()]);
    }
    if upper.len() > 0 {
        assert(before[upper.len() - 1] == upper.last());
    }
    lemma_after_last(before, Pick::Is('\n'), upper.len() as int);
}

proof fn lemma_line_end(line: Seq<char>, lower: Seq<char>)
    requires
        begins_a_line(lower),
        is_one_line(line),
    ensures
        first_hit(line + lower, Pick::Is('\n')) == line.len(),
{
    let behind = line + lower;
    assert forall|j: int| 0 <= j < line.len() implies behind[j] != '\n' by {
        assert(behind[j] == line[j]);
    }
    if lower.len() > 0 {
        assert(behind[line.len() as int] == lower[0]);
    }
    lemma_first_hit(behind, Pick::Is('\n'), line.len() as int);
}

/// The cursor goes to the beginning of its line.
pub proof fn cursor_goes_to_the_beginning(
    t: TextAreaV,
    key: Key,
    upper: Seq<char>,
    line: Seq<char>,
    behind: Seq<char>,
)
    requires
        stands(t, upper + line, behind),
        ends_a_line(upper),
        is_one_line(line),
        (goes_down(key) && key.code == Code::Home) || is_ctrl(key, 'a'),
    ensures
        stands(keyed(t, key), upper, line + behind),
{
    lemma_parts(t, upper + line, behind);
    lemma_line_begin(upper, line);
    assert(upper + line + behind =~= upper + (line + behind));
}

/// The cursor goes to the end of its line.
pub proof fn cursor_goes_to_the_end(
    t: TextAreaV,
    key: Key,
    before: Seq<char>,
    line: Seq<char>,
    lower: Seq<char>,
)
    requires
        stands(t, before, line + lower),
        begins_a_line(lower),
        is_one_line(line),
        (goes_down(key) && key.code == Code::End) || is_ctrl(key, 'e'),
    ensures
        stands(keyed(t, key), before + line, lower),
{
    lemma_parts(t, before, line + lower);
    lemma_line_end(line, lower);
    assert(before + (line + lower) =~= before + line + lower);
}

/// The rest of the line is cut out; where there is none, the end of the line is.
pub proof fn rest_of_the_line_is_cut(
    t: TextAreaV,
    key: Key,
    before: Seq<char>,
    line: Seq<char>,
    lower: Seq<char>,
)
    requires
        stands(t, before, line + lower),
        begins_a_line(lower),
        is_one_line(line),
        is_ctrl(key, 'k'),
    ensures
        line.len() > 0 ==> stands(keyed(t, key), before, lower) && keyed(t, key).kill == line,
        line.len() == 0 && lower.len() > 0 ==> stands(keyed(t, key), before, lower.skip(1))
            && keyed(t, key).kill == seq!['\n'],
        line.len() == 0 && lower.len() == 0 ==> keyed(t, key) == t,
{
    lemma_parts(t, before, line + lower);
    lemma_line_end(line, lower);
    let n = before.len() as int;
    let after = keyed(t, key);
    if line.len() > 0 {
        let end = n + line.len();
        assert(t.text.subrange(n, end) =~= line);
        assert(t.text.take(n) + t.text.skip(end) =~= before + lower);
    } else if lower.len() > 0 {
        assert(t.text.subrange(n, n + 1) =~= seq!['\n']);
        assert(t.text.take(n) + t.text.skip(n + 1) =~= before + lower.skip(1));
    }
}

/// The line up to the cursor is cut out.
pub proof fn beginning_of_the_line_is_cut(
    t: TextAreaV,
    key: Key,
    upper: Seq<char>,
    line: Seq<char>,
    behind: Seq<char>,
)
    requires
        stands(t, upper + line, behind),
        ends_a_line(upper),
        is_one_line(line),
        is_ctrl(key, 'u'),
    ensures
        line.len() > 0 ==> stands(keyed(t, key), upper, behind) && keyed(t, key).kill == line,
        line.len() == 0 ==> keyed(t, key) == t,
{
    lemma_parts(t, upper + line, behind);
    lemma_line_begin(upper, line);
    let a = upper.len() as int;
    let b = a + line.len();
    assert(t.text.subrange(a, b) =~= line);
    assert(t.text.take(a) + t.text.skip(b) =~= upper + behind);
}

/// White space only.
pub open spec fn is_gap(part: Seq<char>) -> bool {
    forall|i: int| 0 <= i < part.len() ==> is_space(#[trigger] part[i])
}

/// A word: no white space.
pub open spec fn is_word(part: Seq<char>) -> bool {
    part.len() > 0 && forall|i: int| 0 <= i < part.len() ==> !is_space(#[trigger] part[i])
}

proof fn lemma_word_begin(
    t: TextAreaV,
    left: Seq<char>,
    word: Seq<char>,
    gap: Seq<char>,
    behind: Seq<char>,
)
    requires
        stands(t, left + word + gap, behind),
        left.len() == 0 || is_space(left.last()),
        is_word(word),
        is_gap(gap),
    ensures
        word_begin(t) == left.len(),
{
    let before = left + word + gap;
    lemma_parts(t, before, behind);
    let n = (left.len() + word.len()) as int;
    assert forall|j: int| n <= j < before.len() implies is_space(before[j]) by {
        assert(before[j] == gap[j - n]);
    }
    assert(before[n - 1] == word[word.len() - 1]);
    lemma_after_last(before, Pick::Solid, n);
    let trimmed = before.take(n);
    assert(trim_end(before) == trimmed);
    assert forall|j: int| left.len() <= j < trimmed.len() implies !is_space(trimmed[j]) by {
        assert(trimmed[j] == word[j - left.len()]);
    }
    if left.len() > 0 {
        assert(trimmed[left.len() - 1] == left.last());
    }
    lemma_after_last(trimmed, Pick::Space, left.len() as int);
}

proof fn lemma_word_end(
    t: TextAreaV,
    before: Seq<char>,
    gap: Seq<char>,
    word: Seq<char>,
    right: Seq<char>,
)
    requires
        stands(t, before, gap + word + right),
        right.len() == 0 || is_space(right[0]),
        is_word(word),
        is_gap(gap),
    ensures
        word_end(t) == before.len() + gap.len() + word.len(),
{
    let behind = gap + word + right;
    lemma_parts(t, before, behind);
    let g = gap.len() as int;
    assert forall|j: int| 0 <= j < g implies is_space(behind[j]) by {
        assert(behind[j] == gap[j]);
    }
    assert(behind[g] == word[0]);
    lemma_first_hit(behind, Pick::Solid, g);
    let rest = behind.skip(g);
    let n = word.len() as int;
    assert forall|j: int| 0 <= j < n implies !is_space(rest[j]) by {
        assert(rest[j] == word[j]);
    }
    if right.len() > 0 {
        assert(rest[n] == right[0]);
    }
    lemma_first_hit(rest, Pick::Space, n);
}

/// The cursor goes back to the beginning of a word, over the white space behind it.
pub proof fn cursor_goes_back_a_word(
    t: TextAreaV,
    key: Key,
    left: Seq<char>,
    word: Seq<char>,
    gap: Seq<char>,
    behind: Seq<char>,
)
    requires
        stands(t, left + word + gap, behind),
        left.len() == 0 || is_space(left.last()),
        is_word(word),
        is_gap(gap),
        is_wordly(key, Code::Left) || is_alt(key, 'b'),
    ensures
        stands(keyed(t, key), left, word + gap + behind),
{
    lemma_word_begin(t, left, word, gap, behind);
    assert(left + word + gap + behind =~= left + (word + gap + behind));
}

/// The cursor goes on to the end of a word, over the white space before it.
pub proof fn cursor_goes_on_a_word(
    t: TextAreaV,
    key: Key,
    before: Seq<char>,
    gap: Seq<char>,
    word: Seq<char>,
    right: Seq<char>,
)
    requires
        stands(t, before, gap + word + right),
        right.len() == 0 || is_space(right[0]),
        is_word(word),
        is_gap(gap),
        is_wordly(key, Code::Right) || is_alt(key, 'f'),
    ensures
        stands(keyed(t, key), before + gap + word, right),
{
    lemma_word_end(t, before, gap, word, right);
    assert(before + (gap + word + right) =~= before + gap + word + right);
}

/// The word before the cursor is cut out, with the white space behind it.
pub proof fn word_before_is_cut(
    t: TextAreaV,
    key: Key,
    left: Seq<char>,
    word: Seq<char>,
    gap: Seq<char>,
    behind: Seq<char>,
)
    requires
        stands(t, left + word + gap, behind),
        left.len() == 0 || is_space(left.last()),
        is_word(word),
        is_gap(gap),
        is_wordly(key, Code::Backspace) || is_ctrl(key, 'w'),
    ensures
        stands(keyed(t, key), left, behind),
        keyed(t, key).kill == word + gap,
{
    lemma_word_begin(t, left, word, gap, behind);
    let a = left.len() as int;
    let b = t.cursor;
    assert(t.text.subrange(a, b) =~= word + gap);
    assert(t.text.take(a) + t.text.skip(b) =~= left + behind);
}

/// The word behind the cursor is cut out, with the white space before it.
pub proof fn word_behind_is_cut(
    t: TextAreaV,
    key: Key,
    before: Seq<char>,
    gap: Seq<char>,
    word: Seq<char>,
    right: Seq<char>,
)
    requires
        stands(t, before, gap + word + right),
        right.len() == 0 || is_space(right[0]),
        is_word(word),
        is_gap(gap),
        is_wordly(key, Code::Delete) || is_alt(key, 'd'),
    ensures
        stands(keyed(t, key), before, right),
        keyed(t, key).kill == gap + word,
{
    lemma_word_end(t, before, gap, word, right);
    let a = t.cursor;
    let b = word_end(t);
    assert(t.text.subrange(a, b) =~= gap + word);
    assert(t.text.take(a) + t.text.skip(b) =~= before + right);
}

/// A character before the cursor, as the user sees it, is taken out, or the cursor goes before it.
/// Nothing is cut.
pub proof fn character_before_goes(
    t: TextAreaV,
    key: Key,
    before: Seq<char>,
    seen: Seq<char>,
    behind: Seq<char>,
)
    requires
        stands(t, before + seen, behind),
        seen.len() > 0,
        previous_boundary(t.text, t.cursor as nat) == before.len(),
    ensures
        is_bare(key, Code::Backspace) || is_ctrl(key, 'h') ==> stands(
            keyed(t, key),
            before,
            behind,
        ) && keyed(t, key).kill == t.kill,
        is_bare(key, Code::Left) || is_ctrl(key, 'b') ==> stands(
            keyed(t, key),
            before,
            seen + behind,
        ),
{
    let a = before.len() as int;
    let b = t.cursor;
    assert(t.text.take(a) + t.text.skip(b) =~= before + behind);
    assert(before + seen + behind =~= before + (seen + behind));
}

/// A character behind the cursor, as the user sees it, is taken out, or the cursor goes behind it.
/// Nothing is cut.
pub proof fn character_behind_goes(
    t: TextAreaV,
    key: Key,
    before: Seq<char>,
    seen: Seq<char>,
    behind: Seq<char>,
)
    requires
        stands(t, before, seen + behind),
        seen.len() > 0,
        next_boundary(t.text, t.cursor as nat) == before.len() + seen.len(),
    ensures
        is_bare(key, Code::Delete) || is_ctrl(key, 'd') ==> stands(
            keyed(t, key),
            before,
            behind,
        ) && keyed(t, key).kill == t.kill,
        is_bare(key, Code::Right) || is_ctrl(key, 'f') ==> stands(
            keyed(t, key),
            before + seen,
            behind,
        ),
{
    let a = t.cursor;
    let b = a + seen.len();
    assert(t.text.take(a) + t.text.skip(b) =~= before + behind);
    assert(before + (seen + behind) =~= before + seen + behind);
}

/// At the ends of the text there is nothing to take out and nowhere to go.
pub proof fn ends_of_the_text_hold(t: TextAreaV, key: Key)
    requires
        0 <= t.cursor <= t.text.len(),
    ensures
        t.cursor == 0 && (is_bare(key, Code::Backspace) || is_ctrl(key, 'h')) ==> keyed(t, key)
            == t,
        t.cursor == t.text.len() && (is_bare(key, Code::Delete) || is_ctrl(key, 'd')) ==> keyed(
            t,
            key,
        ) == t,
        t.cursor == 0 && is_bare(key, Code::Left) ==> keyed(t, key).cursor == 0,
        t.cursor == t.text.len() && is_bare(key, Code::Right) ==> keyed(t, key).cursor == t.cursor,
{
}

/// A text is put in at the cursor, which moves behind it.
pub proof fn inserting_puts_a_text_in(
    t: TextAreaV,
    s: Seq<char>,
    before: Seq<char>,
    behind: Seq<char>,
)
    requires
        stands(t, before, behind),
    ensures
        stands(inserted(t, s), before + s, behind),
        inserted(t, s).kill == t.kill,
{
    lemma_parts(t, before, behind);
}

/// A part of the text is taken out, and the cursor stays where it stands in what is left; within the
/// part it goes to where the part was.
pub proof fn deleting_takes_a_part_out(
    t: TextAreaV,
    left: Seq<char>,
    part: Seq<char>,
    right: Seq<char>,
)
    requires
        t.text == left + part + right,
        0 <= t.cursor <= t.text.len(),
        part.len() > 0,
    ensures
        ({
            let from = left.len() as int;
            let to = from + part.len();
            let after = deleted(t, from, to);
            &&& after.text == left + right
            &&& after.kill == t.kill
            &&& t.cursor <= from ==> after.cursor == t.cursor
            &&& t.cursor >= to ==> after.cursor == t.cursor - part.len()
            &&& from < t.cursor < to ==> after.cursor == from
        }),
{
    let from = left.len() as int;
    let to = from + part.len();
    assert(t.text.take(from) + t.text.skip(to) =~= left + right);
}

/// A part that goes beyond the text is taken as far as the text goes, and an empty part not at all.
pub proof fn parts_end_with_the_text(t: TextAreaV, from: int, to: int)
    requires
        0 <= from <= t.text.len(),
    ensures
        to > t.text.len() && from < t.text.len() ==> deleted(t, from, to) == deleted(
            t,
            from,
            t.text.len() as int,
        ),
        from >= to ==> deleted(t, from, to) == t,
{
}

/// Where there is no word to cut, what was cut before is kept behind the cursor, and the text is
/// left as it is before it.
pub proof fn nothing_is_cut_at_the_ends(t: TextAreaV, key: Key)
    requires
        0 <= t.cursor <= t.text.len(),
    ensures
        t.cursor == t.text.len() && (is_wordly(key, Code::Delete) || is_alt(key, 'd')) ==> keyed(
            t,
            key,
        ) == t,
        t.cursor == 0 && (is_wordly(key, Code::Backspace) || is_ctrl(key, 'w')) ==> keyed(
            t,
            key,
        ).text == t.text && keyed(t, key).cursor == 0,
{
    let rest = t.text.skip(t.cursor);
    if t.cursor == t.text.len() {
        assert(rest =~= Seq::<char>::empty());
        lemma_first_hit(rest, Pick::Solid, 0);
        assert(rest.skip(0) =~= rest);
        lemma_first_hit(rest, Pick::Space, 0);
    }
    if t.cursor == 0 {
        let before = t.text.take(0);
        lemma_after_last(before, Pick::Solid, 0);
        assert(before.take(0) =~= Seq::<char>::empty());
        lemma_after_last(before.take(0), Pick::Space, 0);
    }
}

/// The column that the cursor keeps to is forgotten when the cursor moves or the text changes in any
/// other way than by going up and down.
pub proof fn column_is_forgotten(t: TextAreaV, key: Key)
    requires
        key.code != Code::Up,
        key.code != Code::Down,
        keyed(t, key).text != t.text || keyed(t, key).cursor != t.cursor,
    ensures
        keyed(t, key).preferred is None,
{
}

// ---------------------------------------------------------------------------
// Up and down

/// The cursor is on the line: not before its beginning, and before the beginning of the next one.
pub open spec fn is_on(lines: Seq<(int, int)>, cursor: int, i: int) -> bool {
    &&& 0 <= i < lines.len()
    &&& forall|j: int| 0 <= j <= i ==> (#[trigger] lines[j]).0 <= cursor
    &&& i + 1 < lines.len() ==> cursor < lines[i + 1].0
}

proof fn lemma_up_to(lines: Seq<(int, int)>, cursor: int, i: int)
    requires
        is_on(lines, cursor, i),
    ensures
        lines_up_to(lines, cursor) == i + 1,
    decreases i,
{
    assert(lines[0].0 <= cursor);
    let rest = lines.skip(1);
    if i > 0 {
        assert forall|j: int| 0 <= j <= i - 1 implies (#[trigger] rest[j]).0 <= cursor by {
            assert(rest[j] == lines[j + 1]);
        }
        if i + 1 < lines.len() {
            assert(rest[i] == lines[i + 1]);
        }
        lemma_up_to(rest, cursor, i - 1);
    } else {
        if lines.len() > 1 {
            assert(rest[0] == lines[1]);
        }
        assert(lines_up_to(rest, cursor) == 0);
    }
}

/// The line of the cursor is the last one that begins at it or before it.
pub proof fn cursor_is_on_its_line(lines: Seq<(int, int)>, cursor: int, i: int)
    requires
        is_on(lines, cursor, i),
    ensures
        line_of(lines, cursor) == Some(i),
{
    lemma_up_to(lines, cursor, i);
}

/// The column that the cursor keeps to: the one from which it began to move up and down.
pub open spec fn column(t: TextAreaV, line: (int, int)) -> int {
    match t.preferred {
        Some(c) => c,
        None => display_width(t.text.subrange(line.0, t.cursor)) as int,
    }
}

/// Up goes to the line above, down to the line below, in the column that the cursor keeps to; the
/// text stays as it is.
pub proof fn cursor_changes_lines(
    t: TextAreaV,
    key: Key,
    width: u16,
    lines: Seq<(int, int)>,
    i: int,
)
    requires
        t.cache == Some((width, lines)),
        is_on(lines, t.cursor, i),
        goes_down(key),
        (key.code == Code::Up && i > 0) || (key.code == Code::Down && i + 1 < lines.len()),
    ensures
        ({
            let after = keyed(t, key);
            let to = if key.code == Code::Up {
                lines[i - 1]
            } else {
                lines[i + 1]
            };
            let end = least(to.1, t.text.len() as int);
            &&& after.preferred == Some(column(t, lines[i]))
            &&& after.cursor == to.0 + before_column(
                sizes(clusters(t.text.subrange(to.0, end))),
                column(t, lines[i]),
            )
            &&& after.text == t.text
            &&& after.kill == t.kill
            &&& after.cache == t.cache
        }),
{
    cursor_is_on_its_line(lines, t.cursor, i);
}

/// On the first line up goes to the beginning of the text, on the last one down goes to its end.
pub proof fn outer_lines_lead_to_the_ends(
    t: TextAreaV,
    key: Key,
    width: u16,
    lines: Seq<(int, int)>,
    i: int,
)
    requires
        t.cache == Some((width, lines)),
        is_on(lines, t.cursor, i),
        goes_down(key),
    ensures
        key.code == Code::Up && i == 0 ==> keyed(t, key).cursor == 0 && keyed(t, key).text == t.text,
        key.code == Code::Down && i + 1 == lines.len() ==> keyed(t, key).cursor == t.text.len()
            && keyed(t, key).text == t.text,
{
    cursor_is_on_its_line(lines, t.cursor, i);
}

/// How wide the characters are together.
pub open spec fn total_width(sizes: Seq<(nat, nat)>) -> nat
    decreases sizes.len(),
{
    if sizes.len() == 0 {
        0
    } else {
        sizes[0].1 + total_width(sizes.skip(1))
    }
}

/// A column is reached by going over as many characters as it has room for, and no more.
pub proof fn column_is_reached_as_far_as_there_is_room(
    over: Seq<(nat, nat)>,
    rest: Seq<(nat, nat)>,
    column: int,
)
    requires
        total_width(over) <= column,
        rest.len() > 0 ==> total_width(over) + rest[0].1 > column,
    ensures
        before_column(over + rest, column) == total_length(over),
    decreases over.len(),
{
    let all = over + rest;
    if over.len() == 0 {
        assert(all =~= rest);
    } else {
        assert(all[0] == over[0]);
        assert(all.skip(1) =~= over.skip(1) + rest);
        column_is_reached_as_far_as_there_is_room(over.skip(1), rest, column - over[0].1);
    }
}

// ---------------------------------------------------------------------------
// What is drawn of the prompt

/// Each row shows the text of its line, from the first visible line on.
pub proof fn rows_show_their_lines(
    t: TextAreaV,
    lines: Seq<(int, int)>,
    scroll: int,
    height: int,
    i: int,
)
    requires
        0 <= scroll,
        0 <= i < height,
        scroll + i < lines.len(),
    ensures
        ({
            let rows = drawn_rows(t, seen(lines, scroll, height));
            &&& i < rows.len() <= height
            &&& rows[i] == t.text.subrange(lines[scroll + i].0, lines[scroll + i].1)
        }),
{
}

/// The cursor is drawn on the row of its line, behind the text before it; where that is not visible
/// it is not drawn.
pub proof fn cursor_is_drawn_behind_its_text(
    t: TextAreaV,
    lines: Seq<(int, int)>,
    width: u16,
    height: u16,
    scroll: int,
    i: int,
)
    requires
        is_on(lines, t.cursor, i),
        display_width(t.text.subrange(lines[i].0, t.cursor)) < width,
    ensures
        scroll <= i < scroll + height ==> drawn_cursor(t, lines, width, height, scroll) == Some(
            (display_width(t.text.subrange(lines[i].0, t.cursor)) as int, i - scroll),
        ),
        i < scroll || i >= scroll + height ==> drawn_cursor(t, lines, width, height, scroll)
            is None,
        scroll <= i < scroll + height ==> cursor_at(t, lines, height, scroll) == Some(
            (display_width(t.text.subrange(lines[i].0, t.cursor)) as int, i - scroll),
        ),
{
    cursor_is_on_its_line(lines, t.cursor, i);
    let w = display_width(t.text.subrange(lines[i].0, t.cursor));
    lemma_small_mod(w, 65536);
    if scroll <= i < scroll + height {
        lemma_small_mod((i - scroll) as nat, 65536);
    }
}

/// The text is not scrolled while all of it fits, and otherwise no further than the line of the
/// cursor needs.
pub proof fn prompt_scrolls_no_more_than_it_must(
    lines: Seq<(int, int)>,
    cursor: int,
    height: u16,
    scroll: u16,
    i: int,
)
    requires
        height > 0,
        lines.len() <= u16::MAX,
        is_on(lines, cursor, i),
    ensures
        lines.len() <= height ==> scroll_for(lines, cursor, height, scroll) == 0,
        lines.len() > height && scroll + height <= lines.len() && scroll <= i < scroll + height
            ==> scroll_for(lines, cursor, height, scroll) == scroll,
        lines.len() > height && scroll + height <= lines.len() && i < scroll ==> scroll_for(
            lines,
            cursor,
            height,
            scroll,
        ) == i,
        lines.len() > height && scroll + height <= lines.len() && i >= scroll + height
            ==> scroll_for(lines, cursor, height, scroll) == i + 1 - height,
{
    cursor_is_on_its_line(lines, cursor, i);
    lemma_small_mod(lines.len(), 65536);
    lemma_small_mod(i as nat, 65536);
}

/// The pieces that a line is broken into stand in it one behind the other, each where its range
/// says.
pub proof fn ranges_hold_their_pieces(
    line: Seq<char>,
    pieces: Seq<Seq<char>>,
    at: int,
    base: int,
    k: int,
)
    requires
        laid_out(line, pieces, at),
        0 <= at,
        0 <= k < pieces.len(),
    ensures
        places(line, pieces, at, base).len() == pieces.len(),
        ({
            let (from, to) = places(line, pieces, at, base)[k];
            &&& base + at <= from <= to <= base + line.len()
            &&& line.subrange(from - base, to - base) == pieces[k]
            &&& k > 0 ==> places(line, pieces, at, base)[k - 1].1 <= from
        }),
    decreases pieces.len(),
{
    let b = begin_of(line, pieces[0], at);
    let e = b + pieces[0].len();
    lemma_begin(line, pieces[0], at);
    let rest = pieces.skip(1);
    let all = places(line, pieces, at, base);
    let tail = places(line, rest, e, base);
    assert(all =~= seq![(base + b, base + e)] + tail);
    if rest.len() > 0 {
        ranges_hold_their_pieces(line, rest, e, base, if k > 0 {
            k - 1
        } else {
            0
        });
    }
    if k > 0 {
        assert(rest[k - 1] == pieces[k]);
        assert(all[k] == tail[k - 1]);
        if k > 1 {
            assert(all[k - 1] == tail[k - 2]);
        }
    }
}

proof fn lemma_begin(line: Seq<char>, piece: Seq<char>, at: int)
    requires
        0 <= at,
    ensures
        at <= begin_of(line, piece, at),
        forall|j: int| at <= j < begin_of(line, piece, at) ==> line[j] == ' ',
    decreases line.len() - at,
{
    if !stands_at(line, piece, at) && 0 <= at < line.len() && line[at] == ' ' {
        lemma_begin(line, piece, at + 1);
    }
}

/// The rows of a text are those of its lines; an empty text has one empty row.
pub proof fn rows_are_those_of_the_lines(text: Seq<char>, width: nat)
    ensures
        text.len() == 0 ==> ranges(text, width) == seq![(0int, 0int)],
        text.len() > 0 && ranges_from(text, 0, width).len() > 0 ==> ranges(text, width)
            == ranges_from(text, 0, width),
{
}

/// Each line of the text is broken by itself, and an empty one takes a row too.
pub proof fn each_line_is_broken_by_itself(
    upper: Seq<char>,
    line: Seq<char>,
    lower: Seq<char>,
    width: nat,
)
    requires
        is_one_line(line),
    ensures
        ({
            let text = upper + line + seq!['\n'] + lower;
            let from = upper.len() as int;
            let own = if line.len() == 0 {
                seq![(from, from)]
            } else {
                places(line, wrapped(line, width, Fit::First), 0, from)
            };
            ranges_from(text, from, width) == own + ranges_from(
                text,
                from + line.len() + 1,
                width,
            )
        }),
        ({
            let text = upper + line;
            let from = upper.len() as int;
            ranges_from(text, from, width) == if line.len() == 0 {
                seq![(from, from)]
            } else {
                places(line, wrapped(line, width, Fit::First), 0, from)
            }
        }),
{
    let from = upper.len() as int;
    let text = upper + line + seq!['\n'] + lower;
    let rest = text.skip(from);
    assert(rest =~= line + (seq!['\n'] + lower));
    lemma_line_end(line, seq!['\n'] + lower);
    assert(text.subrange(from, from + line.len()) =~= line);
    let last = upper + line;
    assert(last.skip(from) =~= line + Seq::<char>::empty());
    lemma_line_end(line, Seq::empty());
    assert(last.subrange(from, from + line.len()) =~= line);
}

// ---------------------------------------------------------------------------
// The reader

/// The reader scrolls: no question is open, and nothing is typed.
pub open spec fn scrolls(a: AppV, i: int) -> bool {
    &&& a.asked is None
    &&& a.mode == Mode::Scroll
    &&& a.selected == Some(i)
    &&& 0 <= i < a.count
}

/// The selection goes by one or by twenty entries, and no further than the first and the last.
pub proof fn selection_goes_through_the_entries(a: AppV, key: Key, i: int)
    requires
        scrolls(a, i),
        !key.ctrl,
    ensures
        key.code == Code::Down || key.code == Code::Char('j') ==> pressed(a, key).app.selected
            == Some(least(i + 1, a.count - 1)),
        key.code == Code::Up || key.code == Code::Char('k') ==> pressed(a, key).app.selected
            == Some(
            if i == 0 {
                0
            } else {
                i - 1
            },
        ),
        key.code == Code::PageDown ==> pressed(a, key).app.selected == Some(
            least(i + 20, a.count - 1),
        ),
        key.code == Code::PageUp ==> pressed(a, key).app.selected == Some(
            if i < 20 {
                0
            } else {
                i - 20
            },
        ),
        key.code == Code::Home || key.code == Code::Char('g') ==> pressed(a, key).app.selected
            == Some(0int),
        key.code == Code::End || key.code == Code::Char('G') ==> pressed(a, key).app.selected
            == Some(a.count - 1),
{
}

/// Keys that scroll change nothing but the selection and whether it follows.
pub proof fn scrolling_changes_the_selection_only(a: AppV, key: Key, i: int)
    requires
        scrolls(a, i),
        !key.ctrl,
        key.code == Code::Down || key.code == Code::Up || key.code == Code::PageDown || key.code
            == Code::PageUp || key.code == Code::Home || key.code == Code::End,
    ensures
        pressed(a, key).app == (AppV {
            selected: pressed(a, key).app.selected,
            follow: pressed(a, key).app.follow,
            ..a
        }),
        !pressed(a, key).toggles,
        !pressed(a, key).typed,
{
}

/// How the reader changes between scrolling and typing, and how it is left.
pub proof fn modes_change_by_their_keys(a: AppV, key: Key)
    requires
        a.asked is None,
    ensures
        a.mode == Mode::Scroll && !key.ctrl && key.code == Code::Char('i') ==> pressed(a, key).app
            == (AppV {
            mode: if a.repl_mode {
                Mode::Input
            } else {
                Mode::Scroll
            },
            ..a
        }),
        a.mode == Mode::Input && key.code == Code::Esc ==> pressed(a, key).app == (AppV {
            mode: Mode::Scroll,
            ..a
        }),
        a.mode == Mode::Scroll && key.code == Code::Char('q') ==> pressed(a, key).app == (AppV {
            should_quit: true,
            ..a
        }),
        key.ctrl && key.code == Code::Char('c') ==> pressed(a, key).app == (AppV {
            should_quit: true,
            ..a
        }),
        a.mode == Mode::Input && key.code == Code::Char('q') && !key.ctrl ==> pressed(a, key).app
            == a,
{
}

/// What is typed goes to the prompt while nothing runs.
pub proof fn text_goes_to_the_prompt(a: AppV, key: Key, c: char)
    requires
        a.asked is None,
        a.mode == Mode::Input,
        a.run_state == RunState::Idle,
        !key.ctrl,
        key.code == Code::Char(c),
    ensures
        pressed(a, key).typed,
        !pressed(a, key).toggles,
        pressed(a, key).app == a,
{
}

/// Enter folds and unfolds while scrolling.
pub proof fn enter_folds(a: AppV, key: Key)
    requires
        a.asked is None,
        a.mode == Mode::Scroll,
        key.code == Code::Enter,
    ensures
        pressed(a, key).toggles,
        !pressed(a, key).typed,
        pressed(a, key).app == a,
{
}

/// Folding turns over the results of the selected entry and leaves all else as it is.
pub proof fn selected_entry_is_folded(
    before: Seq<ConversationEntry>,
    selected: Option<int>,
    after: Seq<ConversationEntry>,
    i: int,
    k: int,
)
    requires
        folded(before, selected, after),
        0 <= i < before.len(),
        0 <= k < before[i].blocks@.len(),
    ensures
        after.len() == before.len(),
        selected != Some(i) ==> after[i] == before[i],
        selected == Some(i) ==> {
            &&& after[i].blocks@.len() == before[i].blocks@.len()
            &&& after[i].kind == before[i].kind
            &&& match before[i].blocks@[k]@ {
                BlockV::ToolResult { content, is_error, collapsed } => after[i].blocks@[k]@ == (
                BlockV::ToolResult { content, is_error, collapsed: !collapsed }),
                other => after[i].blocks@[k]@ == other,
            }
        },
{
    let x = after[i];
    if selected == Some(i) {
        let now = blocks_view(after[i].blocks@);
        let then = blocks_view(before[i].blocks@);
        assert(now == crate::app::all_toggled(then));
        assert(now.len() == then.len());
        assert(now[k] == after[i].blocks@[k]@);
        assert(then[k] == before[i].blocks@[k]@);
    }
}

/// A question is answered by `y` and `n`, and by nothing else.
pub proof fn question_is_answered_by_two_keys(a: AppV, key: Key)
    requires
        a.asked is Some,
    ensures
        key.code == Code::Char('y') ==> pressed(a, key).app == (AppV {
            asked: None,
            decision: Some(ApprovalDecision::Allow),
            ..a
        }),
        key.code == Code::Char('n') ==> pressed(a, key).app == (AppV {
            asked: None,
            decision: Some(ApprovalDecision::Deny),
            ..a
        }),
        key.code != Code::Char('y') && key.code != Code::Char('n') ==> pressed(a, key).app == a,
{
}

} // verus!
