//! A text that is edited: the cursor, the keys that move it and change the text, and how the text
//! is wrapped into the lines of a screen. Places in the text are counted in characters, apart from
//! those that `wrap_ranges` hands out, which are counted in bytes.

use vstd::prelude::*;
use vstd::utf8::encode_utf8;

use crate::chars::{
    after_last, ascii_control, cat, cut, first_from, first_hit, found_at, is_ascii_control,
    last_up_to, lines, split_lines, stands_at, texts, to_chars, to_text, trim_end, Pick,
};
use crate::keys::{Code, Key, Kind};

verus! {

// ---------------------------------------------------------------------------
// What comes from outside

/// The boundary between characters as a reader sees them that comes before a place in a text.
pub uninterp spec fn previous_boundary(text: Seq<char>, at: nat) -> nat;

/// The boundary between characters as a reader sees them that comes behind a place in a text.
pub uninterp spec fn next_boundary(text: Seq<char>, at: nat) -> nat;

/// The characters of a text as a reader sees them.
pub uninterp spec fn clusters(text: Seq<char>) -> Seq<Seq<char>>;

/// How many columns a text takes on a screen.
pub uninterp spec fn display_width(text: Seq<char>) -> nat;

/// How the words of a line are spread over the lines that it is wrapped into.
#[derive(Clone, Copy, Debug, PartialEq, Eq, Structural)]
pub enum Fit {
    /// Each line takes as many words as it can.
    First,
    /// The lines are filled as evenly as they can be.
    Best,
}

/// The lines that a line without line feeds is wrapped into for a screen of the given width.
pub uninterp spec fn wrapped(line: Seq<char>, width: nat, fit: Fit) -> Seq<Seq<char>>;

/// `unicode_segmentation::GraphemeCursor::prev_boundary`, in the whole text and without extended
/// clusters: from behind `before`, which is not empty, there is always a boundary further to the
/// front. Hands over the text up to it.
#[verifier::external_body]
fn text_to_previous(text: &str, before: &str) -> (out: Option<String>)
    requires
        before@.len() > 0,
        stands_at(text@, before@, 0),
    ensures
        out is Some,
        out->Some_0@.len() == previous_boundary(text@, before@.len()),
        out->Some_0@.len() < before@.len(),
        out->Some_0@ == text@.take(out->Some_0@.len() as int),
{
    let mut cursor = unicode_segmentation::GraphemeCursor::new(before.len(), text.len(), false);
    match cursor.prev_boundary(text, 0) {
        Ok(Some(at)) => Some(text[..at].to_string()),
        _ => None,
    }
}

/// `unicode_segmentation::GraphemeCursor::next_boundary`, in the whole text and without extended
/// clusters: from behind `before`, which is not all of the text, there is always a boundary
/// further to the end. Hands over the text up to it.
#[verifier::external_body]
fn text_to_next(text: &str, before: &str) -> (out: Option<String>)
    requires
        before@.len() < text@.len(),
        stands_at(text@, before@, 0),
    ensures
        out is Some,
        out->Some_0@.len() == next_boundary(text@, before@.len()),
        before@.len() < out->Some_0@.len() <= text@.len(),
        out->Some_0@ == text@.take(out->Some_0@.len() as int),
{
    let mut cursor = unicode_segmentation::GraphemeCursor::new(before.len(), text.len(), false);
    match cursor.next_boundary(text, 0) {
        Ok(Some(at)) => Some(text[..at].to_string()),
        _ => None,
    }
}

/// All parts one behind the other.
pub open spec fn flat(parts: Seq<Seq<char>>) -> Seq<char>
    decreases parts.len(),
{
    if parts.len() == 0 {
        Seq::empty()
    } else {
        parts[0] + flat(parts.skip(1))
    }
}

/// `unicode_segmentation::UnicodeSegmentation::grapheme_indices`, with extended clusters: the
/// clusters make up the text.
#[verifier::external_body]
fn grapheme_clusters(text: &str) -> (out: Vec<String>)
    ensures
        texts(out@) == clusters(text@),
        flat(texts(out@)) == text@,
{
    unicode_segmentation::UnicodeSegmentation::grapheme_indices(text, true).map(
        |(_, cluster)| cluster.to_string(),
    ).collect()
}

/// `unicode_width::UnicodeWidthStr::width`, which depends on the text alone.
#[verifier::external_body]
pub(crate) fn width_of(text: &str) -> (out: usize)
    ensures
        out == display_width(text@),
{
    unicode_width::UnicodeWidthStr::width(text)
}

/// Where a piece of a line begins that stands behind `at`, with nothing but blanks before it.
pub open spec fn begin_of(line: Seq<char>, piece: Seq<char>, at: int) -> int
    decreases line.len() - at,
{
    if stands_at(line, piece, at) {
        at
    } else if 0 <= at < line.len() && line[at] == ' ' {
        begin_of(line, piece, at + 1)
    } else {
        at
    }
}

/// The pieces stand in the line one behind the other, with nothing but blanks between them.
pub open spec fn laid_out(line: Seq<char>, pieces: Seq<Seq<char>>, at: int) -> bool
    decreases pieces.len(),
{
    if pieces.len() == 0 {
        true
    } else {
        let b = begin_of(line, pieces[0], at);
        stands_at(line, pieces[0], b) && laid_out(line, pieces.skip(1), b + pieces[0].len())
    }
}

/// `textwrap::wrap` by one of its two algorithms, without indentation, on a text without line
/// feeds, at which it would cut: the pieces are parts of the line in their order. Of what stands
/// between them only blanks are left out, those behind the last word of a piece, and no piece
/// behind such blanks begins with a blank.
#[verifier::external_body]
pub(crate) fn wrap_line(line: &str, width: usize, fit: Fit) -> (out: Vec<String>)
    requires
        !line@.contains('\n'),
    ensures
        texts(out@) == wrapped(line@, width as nat, fit),
        laid_out(line@, texts(out@), 0),
{
    let algorithm = match fit {
        Fit::First => textwrap::WrapAlgorithm::FirstFit,
        Fit::Best => textwrap::WrapAlgorithm::new_optimal_fit(),
    };
    let options = textwrap::Options::new(width).wrap_algorithm(algorithm);
    textwrap::wrap(line, &options).into_iter().map(|piece| piece.into_owned()).collect()
}

// ---------------------------------------------------------------------------
// Wrapping

/// A part of the text.
#[derive(Clone, Copy, Debug, PartialEq, Eq, Structural)]
pub struct TextRange {
    pub start: usize,
    pub end: usize,
}

pub open spec fn ranges_view(v: Seq<TextRange>) -> Seq<(int, int)> {
    Seq::new(v.len(), |i: int| (v[i].start as int, v[i].end as int))
}

/// The places of the pieces of a line that begins at `base`.
pub open spec fn places(line: Seq<char>, pieces: Seq<Seq<char>>, at: int, base: int) -> Seq<
    (int, int),
>
    decreases pieces.len(),
{
    if pieces.len() == 0 {
        Seq::empty()
    } else {
        let b = begin_of(line, pieces[0], at);
        let e = b + pieces[0].len();
        seq![(base + b, base + e)] + places(line, pieces.skip(1), e, base)
    }
}

/// The lines of the screen that the text takes from `from` on, where a line of it begins.
pub open spec fn ranges_from(text: Seq<char>, from: int, width: nat) -> Seq<(int, int)>
    decreases text.len() - from,
    via ranges_decreases
{
    if 0 <= from <= text.len() {
        let n = from + first_hit(text.skip(from), Pick::Is('\n'));
        let line = text.subrange(from, n);
        let own = if line.len() == 0 {
            seq![(from, from)]
        } else {
            places(line, wrapped(line, width, Fit::First), 0, from)
        };
        if n < text.len() {
            own + ranges_from(text, n + 1, width)
        } else {
            own
        }
    } else {
        Seq::empty()
    }
}

#[via_fn]
proof fn ranges_decreases(text: Seq<char>, from: int, width: nat) {
    if 0 <= from <= text.len() {
        crate::chars::lemma_first_hit_bounds(text.skip(from), Pick::Is('\n'));
    }
}

/// The lines of a screen of the given width that the text takes: at least one.
pub open spec fn ranges(text: Seq<char>, width: nat) -> Seq<(int, int)> {
    let all = ranges_from(text, 0, width);
    if text.len() == 0 || all.len() == 0 {
        seq![(0int, 0int)]
    } else {
        all
    }
}

/// The ranges are parts of a text of the given length.
pub open spec fn in_text(lines: Seq<(int, int)>, len: int) -> bool {
    forall|i: int|
        0 <= i < lines.len() ==> 0 <= (#[trigger] lines[i]).0 <= lines[i].1 <= len
}

/// Where the pieces of a line stand in a text that has the line at `base`.
pub fn place_pieces(line: &Vec<char>, pieces: &Vec<String>, base: usize) -> (out: Vec<TextRange>)
    requires
        laid_out(line@, texts(pieces@), 0),
        base + line@.len() <= usize::MAX,
    ensures
        ranges_view(out@) == places(line@, texts(pieces@), 0, base as int),
        in_text(ranges_view(out@), base + line@.len()),
{
    let ghost all = texts(pieces@);
    let mut out: Vec<TextRange> = Vec::new();
    let mut i: usize = 0;
    let mut at: usize = 0;
    proof {
        assert(all.skip(0) =~= all);
        assert(places(line@, all, 0, base as int) =~= ranges_view(out@) + places(
            line@,
            all.skip(0),
            0,
            base as int,
        ));
    }
    while i < pieces.len()
        invariant
            i <= pieces.len(),
            at <= line.len(),
            all == texts(pieces@),
            base + line@.len() <= usize::MAX,
            laid_out(line@, all.skip(i as int), at as int),
            places(line@, all, 0, base as int) == ranges_view(out@) + places(
                line@,
                all.skip(i as int),
                at as int,
                base as int,
            ),
            in_text(ranges_view(out@), base + line@.len()),
        decreases pieces.len() - i,
    {
        let piece = to_chars(pieces[i].as_str());
        let ghost rest = all.skip(i as int);
        proof {
            assert(rest[0] == piece@);
            assert(rest.skip(1) =~= all.skip(i + 1));
        }
        let mut b: usize = at;
        while !found_at(line, &piece, b)
            invariant
                at <= b <= line.len(),
                begin_of(line@, piece@, at as int) == begin_of(line@, piece@, b as int),
                stands_at(line@, piece@, begin_of(line@, piece@, at as int)),
            decreases line.len() - b,
        {
            b += 1;
        }
        let e: usize = b + piece.len();
        let range = TextRange { start: base + b, end: base + e };
        let ghost had = ranges_view(out@);
        out.push(range);
        proof {
            let span = (base + b, base + e);
            assert(ranges_view(out@) =~= had.push(span));
            let later = places(line@, all.skip(i + 1), e as int, base as int);
            assert(had + (seq![span] + later) =~= had.push(span) + later);
        }
        at = e;
        i += 1;
    }
    proof {
        assert(all.skip(i as int) =~= Seq::<Seq<char>>::empty());
        assert(ranges_view(out@) + Seq::<(int, int)>::empty() =~= ranges_view(out@));
    }
    out
}

/// Wraps a text into the lines of a screen of the given width, with places counted in characters.
pub fn wrap_places(text: &str, width: usize) -> (out: Vec<TextRange>)
    ensures
        ranges_view(out@) == ranges(text@, width as nat),
        in_text(ranges_view(out@), text@.len() as int),
        out@.len() > 0,
{
    let v = to_chars(text);
    let ghost len = v@.len() as int;
    let mut out: Vec<TextRange> = Vec::new();
    let mut from: usize = 0;
    if v.len() == 0 {
        out.push(TextRange { start: 0, end: 0 });
        assert(ranges_view(out@) =~= seq![(0int, 0int)]);
        return out;
    }
    proof {
        assert(ranges_view(out@) =~= Seq::<(int, int)>::empty());
        assert(ranges_view(out@) + ranges_from(v@, 0, width as nat) =~= ranges_from(
            v@,
            0,
            width as nat,
        ));
    }
    loop
        invariant_except_break
            from <= v.len(),
            len == v@.len(),
            ranges_from(v@, 0, width as nat) == ranges_view(out@) + ranges_from(
                v@,
                from as int,
                width as nat,
            ),
            in_text(ranges_view(out@), len),
        ensures
            ranges_from(v@, 0, width as nat) == ranges_view(out@),
            in_text(ranges_view(out@), len),
        decreases v.len() - from,
    {
        let n = first_from(&v, from, Pick::Is('\n'));
        let line = cut(&v, from, n);
        let ghost had = ranges_view(out@);
        let ghost own = if line@.len() == 0 {
            seq![(from as int, from as int)]
        } else {
            places(line@, wrapped(line@, width as nat, Fit::First), 0, from as int)
        };
        if line.len() == 0 {
            out.push(TextRange { start: from, end: from });
            assert(ranges_view(out@) =~= had + own);
        } else {
            let pieces = wrap_line(to_text(&line).as_str(), width, Fit::First);
            let mut placed = place_pieces(&line, &pieces, from);
            let ghost now = ranges_view(placed@);
            out.append(&mut placed);
            assert(ranges_view(out@) =~= had + now);
        }
        if n == v.len() {
            break;
        }
        assert(had + (own + ranges_from(v@, n + 1, width as nat)) =~= (had + own) + ranges_from(
            v@,
            n + 1,
            width as nat,
        ));
        from = n + 1;
    }
    if out.len() == 0 {
        out.push(TextRange { start: 0, end: 0 });
        assert(ranges_view(out@) =~= seq![(0int, 0int)]);
    }
    out
}

/// How many bytes the first characters of a text take in UTF-8.
pub open spec fn byte_place(text: Seq<char>, n: int) -> int {
    encode_utf8(text.take(n)).len() as int
}

pub open spec fn byte_places(text: Seq<char>, lines: Seq<(int, int)>) -> Seq<(int, int)> {
    Seq::new(
        lines.len(),
        |i: int| (byte_place(text, lines[i].0), byte_place(text, lines[i].1)),
    )
}

fn bytes_before(v: &Vec<char>, n: usize) -> (out: usize)
    requires
        n <= v@.len(),
    ensures
        out == byte_place(v@, n as int),
{
    let head = to_text(&cut(v, 0, n));
    assert(head@ =~= v@.take(n as int));
    head.as_str().as_bytes().len()
}

/// Wraps a text into the lines of a screen of the given width, with places counted in bytes.
pub fn wrap_ranges(text: &str, width: usize) -> (out: Vec<TextRange>)
    ensures
        ranges_view(out@) == byte_places(text@, ranges(text@, width as nat)),
        out@.len() > 0,
{
    let v = to_chars(text);
    let lines = wrap_places(text, width);
    let ghost all = ranges(text@, width as nat);
    let mut out: Vec<TextRange> = Vec::new();
    assert(ranges_view(out@) =~= byte_places(v@, all).take(0));
    for i in 0..lines.len()
        invariant
            all == ranges_view(lines@),
            in_text(all, v@.len() as int),
            ranges_view(out@) == byte_places(v@, all).take(i as int),
    {
        let ghost line = all[i as int];
        assert(line == (lines@[i as int].start as int, lines@[i as int].end as int));
        let start = bytes_before(&v, lines[i].start);
        let end = bytes_before(&v, lines[i].end);
        let ghost had = ranges_view(out@);
        out.push(TextRange { start, end });
        proof {
            let range = (byte_place(v@, line.0), byte_place(v@, line.1));
            assert(ranges_view(out@) =~= had.push(range));
            assert(byte_places(v@, all).take(i + 1) =~= byte_places(v@, all).take(i as int).push(
                range,
            ));
        }
    }
    assert(byte_places(v@, all).take(all.len() as int) =~= byte_places(v@, all));
    out
}

/// How many of the first lines begin no further than a place.
pub open spec fn lines_up_to(lines: Seq<(int, int)>, pos: int) -> nat
    decreases lines.len(),
{
    if lines.len() == 0 || lines[0].0 > pos {
        0
    } else {
        1 + lines_up_to(lines.skip(1), pos)
    }
}

/// The line that holds a place: the last one that begins no further.
pub open spec fn line_of(lines: Seq<(int, int)>, pos: int) -> Option<int> {
    let n = lines_up_to(lines, pos);
    if n == 0 {
        None
    } else {
        Some(n - 1)
    }
}

proof fn lemma_lines_up_to(lines: Seq<(int, int)>, pos: int)
    ensures
        lines_up_to(lines, pos) <= lines.len(),
    decreases lines.len(),
{
    if lines.len() > 0 && lines[0].0 <= pos {
        lemma_lines_up_to(lines.skip(1), pos);
    }
}

pub fn wrapped_line_index(lines: &Vec<TextRange>, pos: usize) -> (out: Option<usize>)
    ensures
        match out {
            Some(i) => line_of(ranges_view(lines@), pos as int) == Some(i as int) && i
                < lines@.len() && lines@[i as int].start <= pos,
            None => line_of(ranges_view(lines@), pos as int) is None,
        },
{
    let ghost vs = ranges_view(lines@);
    let mut i: usize = 0;
    assert(vs.skip(0) =~= vs);
    while i < lines.len() && lines[i].start <= pos
        invariant
            i <= lines.len(),
            vs == ranges_view(lines@),
            lines_up_to(vs, pos as int) == i + lines_up_to(vs.skip(i as int), pos as int),
            i > 0 ==> lines@[i - 1].start <= pos,
        decreases lines.len() - i,
    {
        assert(vs.skip(i as int)[0] == vs[i as int]);
        assert(vs.skip(i as int).skip(1) =~= vs.skip(i + 1));
        i += 1;
    }
    proof {
        if i < lines.len() {
            assert(vs.skip(i as int)[0] == vs[i as int]);
        }
        assert(lines_up_to(vs.skip(i as int), pos as int) == 0);
    }
    if i == 0 {
        None
    } else {
        Some(i - 1)
    }
}

// ---------------------------------------------------------------------------
// The text and its cursor

/// The lines that the text was last wrapped into.
#[derive(Debug)]
pub struct WrapCache {
    pub width: u16,
    pub lines: Vec<TextRange>,
}

#[derive(Debug)]
pub struct TextArea {
    pub text: String,
    pub cursor_pos: usize,
    pub wrap_cache: Option<WrapCache>,
    /// The column that the cursor keeps to while it moves up and down.
    pub preferred_col: Option<usize>,
    /// What was cut out last.
    pub kill_buffer: String,
}

/// The first visible line of the screen.
#[derive(Clone, Copy, Debug, Default)]
pub struct TextAreaState {
    pub scroll: u16,
}

pub struct TextAreaV {
    pub text: Seq<char>,
    pub cursor: int,
    pub cache: Option<(u16, Seq<(int, int)>)>,
    pub preferred: Option<int>,
    pub kill: Seq<char>,
}

impl View for TextArea {
    type V = TextAreaV;

    open spec fn view(&self) -> TextAreaV {
        TextAreaV {
            text: self.text@,
            cursor: self.cursor_pos as int,
            cache: match self.wrap_cache {
                Some(c) => Some((c.width, ranges_view(c.lines@))),
                None => None,
            },
            preferred: match self.preferred_col {
                Some(c) => Some(c as int),
                None => None,
            },
            kill: self.kill_buffer@,
        }
    }
}

/// The cursor stands in the text, and so do the lines that it was wrapped into.
pub open spec fn wf(t: TextAreaV) -> bool {
    &&& 0 <= t.cursor <= t.text.len()
    &&& t.cache matches Some((_, lines)) ==> in_text(lines, t.text.len() as int)
}

/// The lines that the text was wrapped into are those that it would be wrapped into now.
pub open spec fn cache_is_true(t: TextAreaV) -> bool {
    t.cache matches Some((width, lines)) ==> lines == ranges(t.text, width as nat)
}

/// Another text, with the cursor at the given place.
pub open spec fn edited(t: TextAreaV, text: Seq<char>, cursor: int) -> TextAreaV {
    TextAreaV { text, cursor, cache: None, preferred: None, ..t }
}

pub open spec fn inserted(t: TextAreaV, s: Seq<char>) -> TextAreaV {
    edited(t, t.text.take(t.cursor) + s + t.text.skip(t.cursor), t.cursor + s.len())
}

pub open spec fn least(a: int, b: int) -> int {
    if a < b {
        a
    } else {
        b
    }
}

/// Takes out a part of the text. The cursor stays at the character that it stood at, or comes to
/// where the part was.
pub open spec fn deleted(t: TextAreaV, from: int, to: int) -> TextAreaV {
    if from >= to {
        t
    } else {
        let a = least(from, t.text.len() as int);
        let b = least(to, t.text.len() as int);
        edited(
            t,
            t.text.take(a) + t.text.skip(b),
            if t.cursor <= a {
                t.cursor
            } else if t.cursor >= b {
                t.cursor - (b - a)
            } else {
                a
            },
        )
    }
}

pub open spec fn before_cursor(t: TextAreaV) -> int {
    if t.cursor == 0 {
        0
    } else {
        previous_boundary(t.text, t.cursor as nat) as int
    }
}

pub open spec fn behind_cursor(t: TextAreaV) -> int {
    if t.cursor >= t.text.len() {
        t.text.len() as int
    } else {
        next_boundary(t.text, t.cursor as nat) as int
    }
}

pub open spec fn line_begin(t: TextAreaV) -> int {
    after_last(t.text.take(t.cursor), Pick::Is('\n')) as int
}

pub open spec fn line_end(t: TextAreaV) -> int {
    t.cursor + first_hit(t.text.skip(t.cursor), Pick::Is('\n'))
}

/// Where the word before the cursor begins.
pub open spec fn word_begin(t: TextAreaV) -> int {
    after_last(trim_end(t.text.take(t.cursor)), Pick::Space) as int
}

/// Where the word behind the cursor ends.
pub open spec fn word_end(t: TextAreaV) -> int {
    let suffix = t.text.skip(t.cursor);
    let skip = first_hit(suffix, Pick::Solid) as int;
    t.cursor + skip + first_hit(suffix.skip(skip), Pick::Space)
}

/// Cuts out a part of the text.
pub open spec fn killed(t: TextAreaV, from: int, to: int) -> TextAreaV {
    deleted(TextAreaV { kill: t.text.subrange(from, to), ..t }, from, to)
}

pub open spec fn killed_to_end(t: TextAreaV) -> TextAreaV {
    let end = line_end(t);
    if t.cursor < end {
        killed(t, t.cursor, end)
    } else if end < t.text.len() {
        killed(t, t.cursor, t.cursor + 1)
    } else {
        t
    }
}

pub open spec fn killed_to_begin(t: TextAreaV) -> TextAreaV {
    if line_begin(t) < t.cursor {
        killed(t, line_begin(t), t.cursor)
    } else {
        t
    }
}

pub open spec fn killed_word_behind(t: TextAreaV) -> TextAreaV {
    if word_end(t) > t.cursor {
        killed(t, t.cursor, word_end(t))
    } else {
        t
    }
}

pub open spec fn yanked(t: TextAreaV) -> TextAreaV {
    if t.kill.len() == 0 {
        t
    } else {
        inserted(t, t.kill)
    }
}

pub open spec fn moved_to(t: TextAreaV, cursor: int) -> TextAreaV {
    TextAreaV { cursor, preferred: None, ..t }
}

/// How long a cluster is and how wide it is on a screen.
pub open spec fn sizes(clusters: Seq<Seq<char>>) -> Seq<(nat, nat)> {
    Seq::new(clusters.len(), |i: int| (clusters[i].len(), display_width(clusters[i])))
}

/// How many characters of a line stand before a column of the screen, given the lengths and the
/// widths of its clusters.
pub open spec fn before_column(sizes: Seq<(nat, nat)>, column: int) -> nat
    decreases sizes.len(),
{
    if sizes.len() == 0 || sizes[0].1 > column {
        0
    } else {
        sizes[0].0 + before_column(sizes.skip(1), column - sizes[0].1)
    }
}

/// All of the clusters' lengths.
pub open spec fn total_length(sizes: Seq<(nat, nat)>) -> nat
    decreases sizes.len(),
{
    if sizes.len() == 0 {
        0
    } else {
        sizes[0].0 + total_length(sizes.skip(1))
    }
}

pub open spec fn sizes_view(sizes: Seq<(usize, usize)>) -> Seq<(nat, nat)> {
    Seq::new(sizes.len(), |i: int| (sizes[i].0 as nat, sizes[i].1 as nat))
}

/// How many characters of a line stand before a column, given the lengths and the widths of its
/// clusters.
pub fn length_before(sizes: &Vec<(usize, usize)>, column: usize) -> (out: usize)
    requires
        total_length(sizes_view(sizes@)) <= usize::MAX,
    ensures
        out == before_column(sizes_view(sizes@), column as int),
        out <= total_length(sizes_view(sizes@)),
{
    let ghost all = sizes_view(sizes@);
    let mut i: usize = 0;
    let mut at: usize = 0;
    let mut left: usize = column;
    assert(all.skip(0) =~= all);
    while i < sizes.len() && sizes[i].1 <= left
        invariant
            i <= sizes.len(),
            all == sizes_view(sizes@),
            total_length(all) <= usize::MAX,
            at + total_length(all.skip(i as int)) == total_length(all),
            before_column(all, column as int) == at + before_column(all.skip(i as int), left as int),
        decreases sizes.len() - i,
    {
        let ghost rest = all.skip(i as int);
        assert(rest[0] == (sizes@[i as int].0 as nat, sizes@[i as int].1 as nat));
        assert(rest.skip(1) =~= all.skip(i + 1));
        at += sizes[i].0;
        left -= sizes[i].1;
        i += 1;
    }
    proof {
        let rest = all.skip(i as int);
        if i < sizes.len() {
            assert(rest[0] == (sizes@[i as int].0 as nat, sizes@[i as int].1 as nat));
        }
    }
    at
}

proof fn lemma_sizes_add_up(clusters: Seq<Seq<char>>)
    ensures
        total_length(sizes(clusters)) == flat(clusters).len(),
    decreases clusters.len(),
{
    if clusters.len() > 0 {
        lemma_sizes_add_up(clusters.skip(1));
        assert(sizes(clusters).skip(1) =~= sizes(clusters.skip(1)));
    }
}

/// The column that the cursor keeps to.
pub open spec fn column_of(t: TextAreaV, line: (int, int)) -> int {
    match t.preferred {
        Some(column) => column,
        None => display_width(t.text.subrange(line.0, t.cursor)) as int,
    }
}

/// The cursor moves to another line of the screen, in the column that it keeps to.
pub open spec fn moved_to_line(t: TextAreaV, line: (int, int), column: int) -> TextAreaV {
    let end = least(line.1, t.text.len() as int);
    TextAreaV {
        cursor: line.0 + before_column(sizes(clusters(t.text.subrange(line.0, end))), column),
        preferred: Some(column),
        ..t
    }
}

/// One line of the screen up, or to the start of the text where there is none.
pub open spec fn moved_up(t: TextAreaV) -> TextAreaV {
    match t.cache {
        None => moved_to(t, 0),
        Some((_, lines)) => match line_of(lines, t.cursor) {
            Some(i) if i > 0 => moved_to_line(t, lines[i - 1], column_of(t, lines[i])),
            _ => moved_to(t, 0),
        },
    }
}

/// One line of the screen down, or to the end of the text where there is none.
pub open spec fn moved_down(t: TextAreaV) -> TextAreaV {
    let len = t.text.len() as int;
    match t.cache {
        None => moved_to(t, len),
        Some((_, lines)) => match line_of(lines, t.cursor) {
            Some(i) if i + 1 < lines.len() => moved_to_line(
                t,
                lines[i + 1],
                column_of(t, lines[i]),
            ),
            _ => moved_to(t, len),
        },
    }
}

/// What a key does to the text.
pub open spec fn keyed(t: TextAreaV, key: Key) -> TextAreaV {
    if key.kind == Kind::Release {
        t
    } else {
        let ctrl = key.ctrl;
        let word = key.ctrl || key.alt;
        match key.code {
            Code::Backspace => if word {
                killed(t, word_begin(t), t.cursor)
            } else {
                deleted(t, before_cursor(t), t.cursor)
            },
            Code::Delete => if word {
                killed_word_behind(t)
            } else {
                deleted(t, t.cursor, behind_cursor(t))
            },
            Code::Left => moved_to(
                t,
                if word {
                    word_begin(t)
                } else {
                    before_cursor(t)
                },
            ),
            Code::Right => moved_to(
                t,
                if word {
                    word_end(t)
                } else {
                    behind_cursor(t)
                },
            ),
            Code::Up => moved_up(t),
            Code::Down => moved_down(t),
            Code::Home => moved_to(t, line_begin(t)),
            Code::End => moved_to(t, line_end(t)),
            Code::Char(c) => if ctrl {
                if c == 'a' {
                    moved_to(t, line_begin(t))
                } else if c == 'e' {
                    moved_to(t, line_end(t))
                } else if c == 'k' {
                    killed_to_end(t)
                } else if c == 'u' {
                    killed_to_begin(t)
                } else if c == 'y' {
                    yanked(t)
                } else if c == 'h' {
                    deleted(t, before_cursor(t), t.cursor)
                } else if c == 'd' {
                    deleted(t, t.cursor, behind_cursor(t))
                } else if c == 'w' {
                    killed(t, word_begin(t), t.cursor)
                } else if c == 'b' {
                    moved_to(t, before_cursor(t))
                } else if c == 'f' {
                    moved_to(t, behind_cursor(t))
                } else {
                    alt_keyed(t, key, c)
                }
            } else {
                alt_keyed(t, key, c)
            },
            _ => t,
        }
    }
}

/// A character that control has no meaning for.
pub open spec fn alt_keyed(t: TextAreaV, key: Key, c: char) -> TextAreaV {
    if key.alt {
        if c == 'b' {
            moved_to(t, word_begin(t))
        } else if c == 'f' {
            moved_to(t, word_end(t))
        } else if c == 'd' {
            killed_word_behind(t)
        } else {
            t
        }
    } else if !key.ctrl && !is_ascii_control(c) {
        inserted(t, seq![c])
    } else {
        t
    }
}

impl TextArea {
    pub fn new() -> (out: Self)
        ensures
            out@ == (TextAreaV {
                text: Seq::empty(),
                cursor: 0,
                cache: None,
                preferred: None,
                kill: Seq::empty(),
            }),
            wf(out@),
    {
        TextArea {
            text: String::new(),
            cursor_pos: 0,
            wrap_cache: None,
            preferred_col: None,
            kill_buffer: String::new(),
        }
    }

    pub fn text(&self) -> (out: &str)
        ensures
            out@ == self@.text,
    {
        self.text.as_str()
    }

    pub fn is_empty(&self) -> (out: bool)
        ensures
            out == (self@.text.len() == 0),
    {
        self.text.as_str().is_empty()
    }

    /// The lines of the text; an empty text is one empty line.
    pub fn lines(&self) -> (out: Vec<String>)
        ensures
            texts(out@) == (if self@.text.len() == 0 {
                seq![Seq::<char>::empty()]
            } else {
                lines(self@.text)
            }),
    {
        if self.text.as_str().is_empty() {
            let mut out: Vec<String> = Vec::new();
            out.push(String::new());
            assert(texts(out@) =~= seq![Seq::<char>::empty()]);
            out
        } else {
            split_lines(self.text.as_str())
        }
    }

    /// Empties the text. What was cut out stays.
    pub fn clear(&mut self)
        ensures
            final(self)@ == edited(old(self)@, Seq::empty(), 0),
            wf(final(self)@),
    {
        self.text = String::new();
        self.cursor_pos = 0;
        self.invalidate();
    }

    fn invalidate(&mut self)
        ensures
            final(self)@ == (TextAreaV { cache: None, preferred: None, ..old(self)@ }),
            final(self).text == old(self).text,
    {
        self.wrap_cache = None;
        self.preferred_col = None;
    }

    pub fn insert_str(&mut self, s: &str)
        requires
            wf(old(self)@),
            old(self)@.cursor + s@.len() <= usize::MAX,
        ensures
            final(self)@ == inserted(old(self)@, s@),
            wf(final(self)@),
    {
        let v = to_chars(self.text.as_str());
        let front = cut(&v, 0, self.cursor_pos);
        let back = cut(&v, self.cursor_pos, v.len());
        let mut text = to_text(&front);
        text.append(s);
        text.append(to_text(&back).as_str());
        proof {
            assert(front@ =~= v@.take(self.cursor_pos as int));
            assert(back@ =~= v@.skip(self.cursor_pos as int));
        }
        let n = to_chars(s).len();
        self.text = text;
        self.cursor_pos = self.cursor_pos + n;
        self.invalidate();
    }

    pub fn delete_range(&mut self, from: usize, to: usize)
        requires
            wf(old(self)@),
        ensures
            final(self)@ == deleted(old(self)@, from as int, to as int),
            wf(final(self)@),
    {
        if from >= to {
            return;
        }
        let v = to_chars(self.text.as_str());
        let a: usize = if from < v.len() {
            from
        } else {
            v.len()
        };
        let b: usize = if to < v.len() {
            to
        } else {
            v.len()
        };
        let front = cut(&v, 0, a);
        let back = cut(&v, b, v.len());
        let text = cat(to_text(&front).as_str(), to_text(&back).as_str());
        proof {
            assert(front@ =~= v@.take(a as int));
            assert(back@ =~= v@.skip(b as int));
        }
        self.text = text;
        if self.cursor_pos > a {
            self.cursor_pos = if self.cursor_pos >= b {
                self.cursor_pos - (b - a)
            } else {
                a
            };
        }
        self.invalidate();
    }

    fn prefix(&self) -> (out: String)
        requires
            wf(self@),
        ensures
            out@ == self@.text.take(self@.cursor),
            stands_at(self@.text, out@, 0),
    {
        let v = to_chars(self.text.as_str());
        let front = cut(&v, 0, self.cursor_pos);
        assert(front@ =~= v@.take(self.cursor_pos as int));
        assert(v@.subrange(0, front@.len() as int) =~= front@);
        to_text(&front)
    }

    fn prev_grapheme(&self) -> (out: usize)
        requires
            wf(self@),
        ensures
            out == before_cursor(self@),
            out <= self@.cursor,
    {
        if self.cursor_pos == 0 {
            return 0;
        }
        match text_to_previous(self.text.as_str(), self.prefix().as_str()) {
            Some(front) => to_chars(front.as_str()).len(),
            None => self.cursor_pos - 1,
        }
    }

    fn next_grapheme(&self) -> (out: usize)
        requires
            wf(self@),
        ensures
            out == behind_cursor(self@),
            self@.cursor <= out <= self@.text.len(),
    {
        let len = to_chars(self.text.as_str()).len();
        if self.cursor_pos >= len {
            return len;
        }
        match text_to_next(self.text.as_str(), self.prefix().as_str()) {
            Some(front) => to_chars(front.as_str()).len(),
            None => self.cursor_pos + 1,
        }
    }

    fn beginning_of_current_line(&self) -> (out: usize)
        requires
            wf(self@),
        ensures
            out == line_begin(self@),
            out <= self@.cursor,
    {
        let v = to_chars(self.text.as_str());
        last_up_to(&v, self.cursor_pos, Pick::Is('\n'))
    }

    fn end_of_current_line(&self) -> (out: usize)
        requires
            wf(self@),
        ensures
            out == line_end(self@),
            self@.cursor <= out <= self@.text.len(),
    {
        let v = to_chars(self.text.as_str());
        first_from(&v, self.cursor_pos, Pick::Is('\n'))
    }

    fn beginning_of_previous_word(&self) -> (out: usize)
        requires
            wf(self@),
        ensures
            out == word_begin(self@),
            out <= self@.cursor,
    {
        let v = to_chars(self.text.as_str());
        let end = last_up_to(&v, self.cursor_pos, Pick::Solid);
        assert(v@.take(self.cursor_pos as int).take(end as int) =~= v@.take(end as int));
        last_up_to(&v, end, Pick::Space)
    }

    fn end_of_next_word(&self) -> (out: usize)
        requires
            wf(self@),
        ensures
            out == word_end(self@),
            self@.cursor <= out <= self@.text.len(),
    {
        let v = to_chars(self.text.as_str());
        let solid = first_from(&v, self.cursor_pos, Pick::Solid);
        let end = first_from(&v, solid, Pick::Space);
        proof {
            let suffix = v@.skip(self.cursor_pos as int);
            assert(suffix.skip(solid - self.cursor_pos) =~= v@.skip(solid as int));
        }
        end
    }

    fn kill(&mut self, from: usize, to: usize)
        requires
            wf(old(self)@),
            from <= to <= old(self)@.text.len(),
        ensures
            final(self)@ == killed(old(self)@, from as int, to as int),
            wf(final(self)@),
    {
        let v = to_chars(self.text.as_str());
        self.kill_buffer = to_text(&cut(&v, from, to));
        self.delete_range(from, to);
    }

    pub fn delete_backward(&mut self)
        requires
            wf(old(self)@),
        ensures
            final(self)@ == deleted(old(self)@, before_cursor(old(self)@), old(self)@.cursor),
            wf(final(self)@),
    {
        let prev = self.prev_grapheme();
        self.delete_range(prev, self.cursor_pos);
    }

    pub fn delete_forward(&mut self)
        requires
            wf(old(self)@),
        ensures
            final(self)@ == deleted(old(self)@, old(self)@.cursor, behind_cursor(old(self)@)),
            wf(final(self)@),
    {
        let next = self.next_grapheme();
        self.delete_range(self.cursor_pos, next);
    }

    pub fn delete_backward_word(&mut self)
        requires
            wf(old(self)@),
        ensures
            final(self)@ == killed(old(self)@, word_begin(old(self)@), old(self)@.cursor),
            wf(final(self)@),
    {
        let from = self.beginning_of_previous_word();
        self.kill(from, self.cursor_pos);
    }

    pub fn delete_forward_word(&mut self)
        requires
            wf(old(self)@),
        ensures
            final(self)@ == killed_word_behind(old(self)@),
            wf(final(self)@),
    {
        let to = self.end_of_next_word();
        if to > self.cursor_pos {
            self.kill(self.cursor_pos, to);
        }
    }

    pub fn kill_to_end_of_line(&mut self)
        requires
            wf(old(self)@),
        ensures
            final(self)@ == killed_to_end(old(self)@),
            wf(final(self)@),
    {
        let end = self.end_of_current_line();
        if self.cursor_pos == end {
            let len = to_chars(self.text.as_str()).len();
            if end < len {
                self.kill(self.cursor_pos, self.cursor_pos + 1);
            }
        } else {
            self.kill(self.cursor_pos, end);
        }
    }

    pub fn kill_to_beginning_of_line(&mut self)
        requires
            wf(old(self)@),
        ensures
            final(self)@ == killed_to_begin(old(self)@),
            wf(final(self)@),
    {
        let begin = self.beginning_of_current_line();
        if begin < self.cursor_pos {
            self.kill(begin, self.cursor_pos);
        }
    }

    /// Puts in what was cut out last.
    pub fn yank(&mut self)
        requires
            wf(old(self)@),
            old(self)@.cursor + old(self)@.kill.len() <= usize::MAX,
        ensures
            final(self)@ == yanked(old(self)@),
            wf(final(self)@),
    {
        if !self.kill_buffer.as_str().is_empty() {
            let text = self.kill_buffer.clone();
            self.insert_str(text.as_str());
        }
    }

    pub fn move_left(&mut self)
        requires
            wf(old(self)@),
        ensures
            final(self)@ == moved_to(old(self)@, before_cursor(old(self)@)),
            wf(final(self)@),
    {
        self.cursor_pos = self.prev_grapheme();
        self.preferred_col = None;
    }

    pub fn move_right(&mut self)
        requires
            wf(old(self)@),
        ensures
            final(self)@ == moved_to(old(self)@, behind_cursor(old(self)@)),
            wf(final(self)@),
    {
        self.cursor_pos = self.next_grapheme();
        self.preferred_col = None;
    }

    pub fn move_to_beginning_of_line(&mut self)
        requires
            wf(old(self)@),
        ensures
            final(self)@ == moved_to(old(self)@, line_begin(old(self)@)),
            wf(final(self)@),
    {
        self.cursor_pos = self.beginning_of_current_line();
        self.preferred_col = None;
    }

    pub fn move_to_end_of_line(&mut self)
        requires
            wf(old(self)@),
        ensures
            final(self)@ == moved_to(old(self)@, line_end(old(self)@)),
            wf(final(self)@),
    {
        self.cursor_pos = self.end_of_current_line();
        self.preferred_col = None;
    }

    pub fn move_word_left(&mut self)
        requires
            wf(old(self)@),
        ensures
            final(self)@ == moved_to(old(self)@, word_begin(old(self)@)),
            wf(final(self)@),
    {
        self.cursor_pos = self.beginning_of_previous_word();
        self.preferred_col = None;
    }

    pub fn move_word_right(&mut self)
        requires
            wf(old(self)@),
        ensures
            final(self)@ == moved_to(old(self)@, word_end(old(self)@)),
            wf(final(self)@),
    {
        self.cursor_pos = self.end_of_next_word();
        self.preferred_col = None;
    }

    fn width_before_cursor(&self, start: usize) -> (out: usize)
        requires
            wf(self@),
            start <= self@.cursor,
        ensures
            out == display_width(self@.text.subrange(start as int, self@.cursor)),
    {
        let v = to_chars(self.text.as_str());
        width_of(to_text(&cut(&v, start, self.cursor_pos)).as_str())
    }

    fn move_to_display_col(&mut self, start: usize, end: usize, column: usize)
        requires
            wf(old(self)@),
            start <= end <= old(self)@.text.len(),
        ensures
            final(self)@ == (TextAreaV {
                cursor: start + before_column(
                    sizes(clusters(old(self)@.text.subrange(start as int, end as int))),
                    column as int,
                ),
                ..old(self)@
            }),
            wf(final(self)@),
    {
        let v = to_chars(self.text.as_str());
        let line = cut(&v, start, end);
        let parts = grapheme_clusters(to_text(&line).as_str());
        let ghost all = texts(parts@);
        let mut measured: Vec<(usize, usize)> = Vec::new();
        for i in 0..parts.len()
            invariant
                all == texts(parts@),
                sizes_view(measured@) == sizes(all).take(i as int),
        {
            let n = to_chars(parts[i].as_str()).len();
            let w = width_of(parts[i].as_str());
            let ghost had = sizes_view(measured@);
            measured.push((n, w));
            proof {
                let size = (parts@[i as int]@.len(), display_width(parts@[i as int]@));
                assert(sizes_view(measured@) =~= had.push(size));
                assert(sizes(all).take(i + 1) =~= sizes(all).take(i as int).push(size));
            }
        }
        assert(sizes(all).take(parts@.len() as int) =~= sizes(all));
        proof {
            lemma_sizes_add_up(all);
        }
        let at = length_before(&measured, column);
        self.cursor_pos = start + at;
    }

    /// The line of the screen that the cursor is on, the one that it would move to, and the column
    /// that it keeps to; the second is missing where there is no such line.
    fn vertical(&self, down: bool) -> (out: Option<(TextRange, usize)>)
        requires
            wf(self@),
        ensures
            match self@.cache {
                None => out is None,
                Some((_, lines)) => match line_of(lines, self@.cursor) {
                    None => out is None,
                    Some(i) => {
                        let j = if down {
                            i + 1
                        } else {
                            i - 1
                        };
                        if 0 <= j < lines.len() {
                            out matches Some((range, column)) && (range.start as int, range.end as int)
                                == lines[j] && column == column_of(self@, lines[i]) && range.start
                                <= range.end <= self@.text.len()
                        } else {
                            out is None
                        }
                    },
                },
            },
    {
        match &self.wrap_cache {
            None => None,
            Some(cache) => {
                let ghost vs = ranges_view(cache.lines@);
                let i = match wrapped_line_index(&cache.lines, self.cursor_pos) {
                    Some(i) => i,
                    None => {
                        return None;
                    },
                };
                assert(vs[i as int] == (
                    cache.lines@[i as int].start as int,
                    cache.lines@[i as int].end as int,
                ));
                let column: usize = match self.preferred_col {
                    Some(column) => column,
                    None => self.width_before_cursor(cache.lines[i].start),
                };
                if down {
                    if i < cache.lines.len() - 1 {
                        assert(vs[i + 1].0 <= vs[i + 1].1);
                        Some((cache.lines[i + 1], column))
                    } else {
                        None
                    }
                } else if i > 0 {
                    assert(vs[i - 1].0 <= vs[i - 1].1);
                    Some((cache.lines[i - 1], column))
                } else {
                    None
                }
            },
        }
    }

    pub fn move_up(&mut self)
        requires
            wf(old(self)@),
        ensures
            final(self)@ == moved_up(old(self)@),
            wf(final(self)@),
    {
        proof {
            if let Some((_, lines)) = self@.cache {
                lemma_lines_up_to(lines, self@.cursor);
            }
        }
        match self.vertical(false) {
            Some((range, column)) => {
                if self.preferred_col.is_none() {
                    self.preferred_col = Some(column);
                }
                self.move_to_display_col(range.start, range.end, column);
            },
            None => {
                self.cursor_pos = 0;
                self.preferred_col = None;
            },
        }
    }

    pub fn move_down(&mut self)
        requires
            wf(old(self)@),
        ensures
            final(self)@ == moved_down(old(self)@),
            wf(final(self)@),
    {
        proof {
            if let Some((_, lines)) = self@.cache {
                lemma_lines_up_to(lines, self@.cursor);
            }
        }
        match self.vertical(true) {
            Some((range, column)) => {
                if self.preferred_col.is_none() {
                    self.preferred_col = Some(column);
                }
                self.move_to_display_col(range.start, range.end, column);
            },
            None => {
                let len = to_chars(self.text.as_str()).len();
                self.cursor_pos = len;
                self.preferred_col = None;
            },
        }
    }

    /// Whether the text with what was cut out put in once more can be held.
    pub fn has_room(&self) -> (out: bool)
        ensures
            out == (self@.cursor < usize::MAX && self@.cursor + self@.kill.len() <= usize::MAX),
    {
        let n = to_chars(self.kill_buffer.as_str()).len();
        self.cursor_pos < usize::MAX && n <= usize::MAX - self.cursor_pos
    }

    /// Takes a key that goes down or is held.
    pub fn input(&mut self, key: Key)
        requires
            wf(old(self)@),
            old(self)@.cursor < usize::MAX,
            old(self)@.cursor + old(self)@.kill.len() <= usize::MAX,
        ensures
            final(self)@ == keyed(old(self)@, key),
            wf(final(self)@),
    {
        match key.kind {
            Kind::Release => {
                return;
            },
            _ => {},
        }
        let word = key.ctrl || key.alt;
        match key.code {
            Code::Backspace => {
                if word {
                    self.delete_backward_word()
                } else {
                    self.delete_backward()
                }
            },
            Code::Delete => {
                if word {
                    self.delete_forward_word()
                } else {
                    self.delete_forward()
                }
            },
            Code::Left => {
                if word {
                    self.move_word_left()
                } else {
                    self.move_left()
                }
            },
            Code::Right => {
                if word {
                    self.move_word_right()
                } else {
                    self.move_right()
                }
            },
            Code::Up => self.move_up(),
            Code::Down => self.move_down(),
            Code::Home => self.move_to_beginning_of_line(),
            Code::End => self.move_to_end_of_line(),
            Code::Char(c) => self.input_char(key, c),
            _ => {},
        }
    }

    fn input_char(&mut self, key: Key, c: char)
        requires
            wf(old(self)@),
            old(self)@.cursor < usize::MAX,
            old(self)@.cursor + old(self)@.kill.len() <= usize::MAX,
            key.kind != Kind::Release,
            key.code == Code::Char(c),
        ensures
            final(self)@ == keyed(old(self)@, key),
            wf(final(self)@),
    {
        if key.ctrl {
            match c {
                'a' => {
                    self.move_to_beginning_of_line();
                    return;
                },
                'e' => {
                    self.move_to_end_of_line();
                    return;
                },
                'k' => {
                    self.kill_to_end_of_line();
                    return;
                },
                'u' => {
                    self.kill_to_beginning_of_line();
                    return;
                },
                'y' => {
                    self.yank();
                    return;
                },
                'h' => {
                    self.delete_backward();
                    return;
                },
                'd' => {
                    self.delete_forward();
                    return;
                },
                'w' => {
                    self.delete_backward_word();
                    return;
                },
                'b' => {
                    self.move_left();
                    return;
                },
                'f' => {
                    self.move_right();
                    return;
                },
                _ => {},
            }
        }
        if key.alt {
            match c {
                'b' => self.move_word_left(),
                'f' => self.move_word_right(),
                'd' => self.delete_forward_word(),
                _ => {},
            }
        } else if !key.ctrl && !ascii_control(c) {
            let mut s = String::new();
            s.push(c);
            assert(s@ =~= seq![c]);
            self.insert_str(s.as_str());
        }
    }
}

// ---------------------------------------------------------------------------
// On the screen

/// The last sixteen bits of a number, which is what a count of rows or columns is held in.
pub open spec fn low(n: int) -> int {
    n % 65536
}

fn low_bits(n: usize) -> (out: u16)
    ensures
        out == low(n as int),
{
    (n % 65536) as u16
}

/// The lines of the screen that the text takes: as it was last wrapped, where that was for the
/// same width.
pub open spec fn lines_at(t: TextAreaV, width: u16) -> Seq<(int, int)> {
    match t.cache {
        Some((w, lines)) if w == width => lines,
        _ => ranges(t.text, width as nat),
    }
}

pub open spec fn wrapped_at(t: TextAreaV, width: u16) -> TextAreaV {
    TextAreaV { cache: Some((width, lines_at(t, width))), ..t }
}

/// The first visible line: moved no further than is needed for the cursor to be visible.
pub open spec fn scroll_for(lines: Seq<(int, int)>, cursor: int, height: u16, scroll: u16) -> int {
    let total = low(lines.len() as int);
    if height >= total {
        0
    } else {
        let line = match line_of(lines, cursor) {
            Some(i) => low(i),
            None => 0,
        };
        let from = least(scroll as int, total - height);
        if line < from {
            line
        } else if line >= from + height {
            line + 1 - height
        } else {
            from
        }
    }
}

/// The column and the row of the cursor, from the first visible line; none where it is not
/// visible.
pub open spec fn cursor_at(t: TextAreaV, lines: Seq<(int, int)>, height: u16, scroll: int) -> Option<
    (int, int),
> {
    match line_of(lines, t.cursor) {
        Some(i) => {
            let column = low(display_width(t.text.subrange(lines[i].0, t.cursor)) as int);
            let row = if i < scroll {
                0
            } else {
                low(i - scroll)
            };
            if row >= height {
                None
            } else {
                Some((column, row))
            }
        },
        None => None,
    }
}

/// What is drawn of the text.
#[derive(Debug)]
pub struct Drawn {
    /// The visible lines, from the top.
    pub rows: Vec<String>,
    /// The column and the row of the cursor, where they are within the screen.
    pub cursor: Option<(u16, u16)>,
}

/// The lines that are visible from the first visible one on.
pub open spec fn seen(lines: Seq<(int, int)>, scroll: int, height: int) -> Seq<(int, int)> {
    if scroll >= lines.len() {
        Seq::empty()
    } else {
        lines.subrange(scroll, least(scroll + height, lines.len() as int))
    }
}

pub open spec fn drawn_rows(t: TextAreaV, lines: Seq<(int, int)>) -> Seq<Seq<char>> {
    Seq::new(lines.len(), |i: int| t.text.subrange(lines[i].0, lines[i].1))
}

/// The cell of the cursor, where its line is visible and its column within the screen.
pub open spec fn drawn_cursor(
    t: TextAreaV,
    lines: Seq<(int, int)>,
    width: u16,
    height: u16,
    scroll: int,
) -> Option<(int, int)> {
    match line_of(lines, t.cursor) {
        Some(i) => {
            let column = low(display_width(t.text.subrange(lines[i].0, t.cursor)) as int);
            if scroll <= i < scroll + height && i < lines.len() && column < width {
                Some((column, i - scroll))
            } else {
                None
            }
        },
        None => None,
    }
}

fn copy_ranges(v: &Vec<TextRange>) -> (out: Vec<TextRange>)
    ensures
        out@ == v@,
{
    let mut out: Vec<TextRange> = Vec::new();
    let mut i: usize = 0;
    while i < v.len()
        invariant
            i <= v.len(),
            out@ == v@.take(i as int),
        decreases v.len() - i,
    {
        out.push(v[i]);
        i += 1;
    }
    out
}

fn effective_scroll(lines: &Vec<TextRange>, cursor: usize, height: u16, scroll: u16) -> (out: u16)
    requires
        height > 0,
    ensures
        out == scroll_for(ranges_view(lines@), cursor as int, height, scroll),
{
    let total = low_bits(lines.len());
    if height >= total {
        return 0;
    }
    let line = match wrapped_line_index(lines, cursor) {
        Some(i) => low_bits(i),
        None => 0,
    };
    let most: u16 = total - height;
    let from: u16 = if scroll < most {
        scroll
    } else {
        most
    };
    if line < from {
        line
    } else if line >= from + height {
        line - (height - 1)
    } else {
        from
    }
}

impl TextArea {
    /// The lines of a screen of the given width that the text takes.
    pub fn wrapped_lines(&mut self, width: u16) -> (out: Vec<TextRange>)
        requires
            wf(old(self)@),
        ensures
            ranges_view(out@) == lines_at(old(self)@, width),
            in_text(ranges_view(out@), old(self)@.text.len() as int),
            final(self)@ == wrapped_at(old(self)@, width),
            wf(final(self)@),
    {
        if let Some(cache) = &self.wrap_cache {
            if cache.width == width {
                return copy_ranges(&cache.lines);
            }
        }
        let lines = wrap_places(self.text.as_str(), width as usize);
        self.wrap_cache = Some(WrapCache { width, lines: copy_ranges(&lines) });
        lines
    }

    /// How many rows the text takes on a screen of the given width.
    pub fn desired_height(&mut self, width: u16) -> (out: u16)
        requires
            wf(old(self)@),
        ensures
            width == 0 ==> out == 1 && final(self)@ == old(self)@,
            width > 0 ==> {
                let n = lines_at(old(self)@, width).len() as int;
                &&& out == low(if n < 1 {
                    1
                } else {
                    n
                })
                &&& final(self)@ == wrapped_at(old(self)@, width)
            },
            wf(final(self)@),
    {
        if width == 0 {
            return 1;
        }
        let n = self.wrapped_lines(width).len();
        low_bits(
            if n < 1 {
                1
            } else {
                n
            },
        )
    }

    /// Where the cursor stands on a screen of the given size, from its upper left corner.
    pub fn cursor_pos_on_screen(&mut self, width: u16, height: u16, state: &TextAreaState) -> (out:
        Option<(u16, u16)>)
        requires
            wf(old(self)@),
        ensures
            width == 0 || height == 0 ==> out is None && final(self)@ == old(self)@,
            width > 0 && height > 0 ==> {
                let lines = lines_at(old(self)@, width);
                let scroll = scroll_for(lines, old(self)@.cursor, height, state.scroll);
                let place = cursor_at(old(self)@, lines, height, scroll);
                &&& final(self)@ == wrapped_at(old(self)@, width)
                &&& match out {
                    Some((column, row)) => place == Some((column as int, row as int)),
                    None => place is None,
                }
            },
            wf(final(self)@),
    {
        if width == 0 || height == 0 {
            return None;
        }
        let lines = self.wrapped_lines(width);
        let ghost vs = ranges_view(lines@);
        let scroll = effective_scroll(&lines, self.cursor_pos, height, state.scroll);
        let i = match wrapped_line_index(&lines, self.cursor_pos) {
            Some(i) => i,
            None => {
                return None;
            },
        };
        assert(vs[i as int].0 == lines@[i as int].start);
        let column = low_bits(self.width_before_cursor(lines[i].start));
        let row: u16 = if i < scroll as usize {
            0
        } else {
            low_bits(i - scroll as usize)
        };
        if row >= height {
            None
        } else {
            Some((column, row))
        }
    }

    /// What is drawn of the text on a screen of the given size; nothing where it has no room. The
    /// first visible line is moved so that the cursor is visible.
    pub fn render(&mut self, width: u16, height: u16, state: &mut TextAreaState) -> (out: Option<
        Drawn,
    >)
        requires
            wf(old(self)@),
        ensures
            width == 0 || height == 0 ==> {
                &&& out is None
                &&& final(self)@ == old(self)@
                &&& final(state).scroll == old(state).scroll
            },
            width > 0 && height > 0 ==> {
                let t = old(self)@;
                let lines = lines_at(t, width);
                let scroll = scroll_for(lines, t.cursor, height, old(state).scroll);
                &&& final(self)@ == wrapped_at(t, width)
                &&& final(state).scroll == scroll
                &&& out matches Some(drawn) && {
                    &&& texts(drawn.rows@) == drawn_rows(t, seen(lines, scroll, height as int))
                    &&& match drawn.cursor {
                        Some((column, row)) => drawn_cursor(t, lines, width, height, scroll)
                            == Some((column as int, row as int)),
                        None => drawn_cursor(t, lines, width, height, scroll) is None,
                    }
                }
            },
            wf(final(self)@),
    {
        if width == 0 || height == 0 {
            return None;
        }
        let lines = self.wrapped_lines(width);
        let ghost vs = ranges_view(lines@);
        let scroll = effective_scroll(&lines, self.cursor_pos, height, state.scroll);
        state.scroll = scroll;
        let v = to_chars(self.text.as_str());
        let ghost t = self@;
        let ghost want = drawn_rows(t, seen(vs, scroll as int, height as int));
        let mut rows: Vec<String> = Vec::new();
        let mut i: usize = scroll as usize;
        assert(texts(rows@) =~= want.take(0));
        while i < lines.len() && rows.len() < height as usize
            invariant
                scroll <= i,
                i <= lines.len() || i == scroll,
                i - scroll == rows@.len(),
                rows@.len() <= height,
                rows@.len() <= want.len(),
                vs == ranges_view(lines@),
                v@ == t.text,
                in_text(vs, v@.len() as int),
                want == drawn_rows(t, seen(vs, scroll as int, height as int)),
                texts(rows@) == want.take(rows@.len() as int),
            decreases lines.len() - i,
        {
            let ghost k = rows@.len() as int;
            proof {
                assert(vs[i as int].0 <= vs[i as int].1 <= v@.len());
                assert(seen(vs, scroll as int, height as int)[k] == vs[i as int]);
            }
            let row = to_text(&cut(&v, lines[i].start, lines[i].end));
            proof {
                crate::chars::lemma_texts_push(rows@, row);
                assert(want[k] == row@);
                assert(want.take(k + 1) =~= want.take(k).push(row@));
            }
            rows.push(row);
            i += 1;
        }
        assert(want.take(rows@.len() as int) =~= want);
        let mut cursor: Option<(u16, u16)> = None;
        if let Some(line) = wrapped_line_index(&lines, self.cursor_pos) {
            assert(vs[line as int].0 == lines@[line as int].start);
            if line >= scroll as usize && line - (scroll as usize) < height as usize {
                let column = low_bits(self.width_before_cursor(lines[line].start));
                if column < width {
                    cursor = Some((column, (line - scroll as usize) as u16));
                }
            }
        }
        Some(Drawn { rows, cursor })
    }
}

// ---------------------------------------------------------------------------
// What holds of the text

/// What the text was wrapped into stays true whatever keys come.
pub proof fn wrapping_stays_true(t: TextAreaV, key: Key, width: u16)
    requires
        cache_is_true(t),
    ensures
        cache_is_true(keyed(t, key)),
        cache_is_true(wrapped_at(t, width)),
        lines_at(t, width) == ranges(t.text, width as nat),
{
}

/// What was cut out comes back where it was when it is put in again.
pub proof fn yank_undoes_kill(t: TextAreaV, from: int, to: int)
    requires
        0 <= from < to <= t.text.len(),
        t.cursor == from || t.cursor == to,
    ensures
        yanked(killed(t, from, to)).text == t.text,
        yanked(killed(t, from, to)).cursor == to,
        killed(t, from, to).kill == t.text.subrange(from, to),
{
    let k = killed(t, from, to);
    assert(k.text.take(from) =~= t.text.take(from));
    assert(k.text.skip(from) =~= t.text.skip(to));
    assert(yanked(k).text =~= t.text);
}

/// Cutting to the end of the line and putting it in again restores the text, with the cursor behind
/// what was cut out.
pub proof fn kill_to_end_and_yank_restore(t: TextAreaV)
    requires
        wf(t),
        killed_to_end(t) != t,
    ensures
        ({
            let to = if t.cursor < line_end(t) {
                line_end(t)
            } else {
                t.cursor + 1
            };
            &&& killed_to_end(t).kill == t.text.subrange(t.cursor, to)
            &&& yanked(killed_to_end(t)).text == t.text
            &&& yanked(killed_to_end(t)).cursor == to
            &&& yanked(killed_to_end(t)).kill == t.text.subrange(t.cursor, to)
        }),
{
    crate::chars::lemma_first_hit_bounds(t.text.skip(t.cursor), Pick::Is('\n'));
    if t.cursor < line_end(t) {
        yank_undoes_kill(t, t.cursor, line_end(t));
    } else {
        yank_undoes_kill(t, t.cursor, t.cursor + 1);
    }
}

/// Taking out what was put in restores the text and the cursor.
pub proof fn deleting_undoes_inserting(t: TextAreaV, s: Seq<char>)
    requires
        wf(t),
    ensures
        deleted(inserted(t, s), t.cursor, t.cursor + s.len()).text == t.text,
        deleted(inserted(t, s), t.cursor, t.cursor + s.len()).cursor == t.cursor,
{
    let d = inserted(t, s);
    assert(d.text.take(t.cursor) =~= t.text.take(t.cursor));
    assert(d.text.skip(t.cursor + s.len()) =~= t.text.skip(t.cursor));
    assert(t.text.take(t.cursor) + t.text.skip(t.cursor) =~= t.text);
    if s.len() == 0 {
        assert(d.text =~= t.text);
    }
}

/// Keys that move the cursor leave the text alone.
pub proof fn moving_leaves_the_text_alone(t: TextAreaV, key: Key)
    requires
        key.code == Code::Left || key.code == Code::Right || key.code == Code::Up || key.code
            == Code::Down || key.code == Code::Home || key.code == Code::End,
    ensures
        keyed(t, key).text == t.text,
        keyed(t, key).kill == t.kill,
        keyed(t, key).cache == t.cache,
{
}

/// The line of the cursor is visible from the first visible line that is chosen for it.
pub proof fn cursor_line_is_visible(
    lines: Seq<(int, int)>,
    cursor: int,
    height: u16,
    scroll: u16,
)
    requires
        height > 0,
        lines.len() <= u16::MAX,
        line_of(lines, cursor) is Some,
    ensures
        ({
            let from = scroll_for(lines, cursor, height, scroll);
            let line = line_of(lines, cursor)->Some_0;
            0 <= from <= line < from + height
        }),
{
    lemma_lines_up_to(lines, cursor);
}

} // verus!
