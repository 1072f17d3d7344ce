//! What holds of texts, paths and slugs, read off the parts that they are put together from.

use vstd::prelude::*;

use crate::chars::{
    collapse, contains, decimal, first_hit, is_space, join, lemma_after_last, lemma_first_hit,
    lemma_first_hit_bounds, lines, split, stands_at, starts_with, strip_cr, trim, trim_end, words,
    Pick,
};
use crate::config::lock_of;
use crate::paths::{
    below, component, components, components_from, counts, is_absolute, joined, lemma_name_end,
    name_end, stem_len, with_new_extension,
};
use crate::tmux::{is_slug, is_slug_char, is_slug_part};

verus! {

// ---------------------------------------------------------------------------
// Words and lines

/// White space only.
pub open spec fn is_gap(s: Seq<char>) -> bool {
    forall|i: int| 0 <= i < s.len() ==> is_space(#[trigger] s[i])
}

/// A word: something, and no white space in it.
pub open spec fn is_word(s: Seq<char>) -> bool {
    s.len() > 0 && forall|i: int| 0 <= i < s.len() ==> !is_space(#[trigger] s[i])
}

/// White space holds no words; otherwise the first word is followed by those of the rest.
pub proof fn words_are_found(gap: Seq<char>, word: Seq<char>, rest: Seq<char>)
    requires
        is_gap(gap),
        is_word(word),
        rest.len() == 0 || is_space(rest[0]),
    ensures
        words(gap) == Seq::<Seq<char>>::empty(),
        words(gap + word + rest) == seq![word] + words(rest),
{
    lemma_first_hit(gap, Pick::Solid, gap.len() as int);
    let s = gap + word + rest;
    let a = gap.len() as int;
    assert forall|j: int| 0 <= j < a implies is_space(s[j]) by {
        assert(s[j] == gap[j]);
    }
    assert(s[a] == word[0]);
    lemma_first_hit(s, Pick::Solid, a);
    let tail = s.skip(a);
    let n = word.len() as int;
    assert forall|j: int| 0 <= j < n implies !is_space(tail[j]) by {
        assert(tail[j] == word[j]);
    }
    if rest.len() > 0 {
        assert(tail[n] == rest[0]);
    }
    lemma_first_hit(tail, Pick::Space, n);
    assert(tail.take(n) =~= word);
    assert(tail.skip(n) =~= rest);
}

/// On one line there is one blank between each word and the next, whatever stood between them, and
/// none at the ends.
pub proof fn one_blank_between_words(
    gap: Seq<char>,
    word: Seq<char>,
    rest: Seq<char>,
)
    requires
        is_gap(gap),
        is_word(word),
        rest.len() == 0 || is_space(rest[0]),
    ensures
        collapse(gap) == Seq::<char>::empty(),
        words(rest).len() == 0 ==> collapse(gap + word + rest) == word,
        words(rest).len() > 0 ==> collapse(gap + word + rest) == word + seq![' '] + collapse(rest),
{
    words_are_found(gap, word, rest);
    let ws = words(rest);
    if ws.len() == 0 {
        assert(seq![word] + ws =~= seq![word]);
    } else {
        lemma_join_first(word, ws, seq![' ']);
    }
}

proof fn lemma_join_first(part: Seq<char>, parts: Seq<Seq<char>>, sep: Seq<char>)
    requires
        parts.len() > 0,
    ensures
        join(seq![part] + parts, sep) == part + sep + join(parts, sep),
    decreases parts.len(),
{
    let all = seq![part] + parts;
    assert(all.last() == parts.last());
    assert(all.drop_last() =~= seq![part] + parts.drop_last());
    assert(all.len() > 1);
    if parts.len() == 1 {
        assert(all.drop_last() =~= seq![part]);
        assert(join(all.drop_last(), sep) == part);
        assert(join(parts, sep) == parts.last());
    } else {
        lemma_join_first(part, parts.drop_last(), sep);
        assert(part + sep + join(parts.drop_last(), sep) + sep + parts.last() =~= part + sep + (join(
            parts.drop_last(),
            sep,
        ) + sep + parts.last()));
    }
}

/// White space at the ends is taken off, and nothing else.
pub proof fn ends_are_trimmed(left: Seq<char>, middle: Seq<char>, right: Seq<char>)
    requires
        is_gap(left),
        is_gap(right),
        middle.len() > 0,
        !is_space(middle[0]),
        !is_space(middle.last()),
    ensures
        trim(left + middle + right) == middle,
        trim_end(left + middle + right) == left + middle,
        trim(left).len() == 0,
{
    let s = left + middle + right;
    let n = (left.len() + middle.len()) as int;
    assert forall|j: int| n <= j < s.len() implies is_space(s[j]) by {
        assert(s[j] == right[j - n]);
    }
    assert(s[n - 1] == middle.last());
    lemma_after_last(s, Pick::Solid, n);
    let t = s.take(n);
    assert(t =~= left + middle);
    assert forall|j: int| 0 <= j < left.len() implies is_space(t[j]) by {
        assert(t[j] == left[j]);
    }
    assert(t[left.len() as int] == middle[0]);
    lemma_first_hit(t, Pick::Solid, left.len() as int);
    assert(t.skip(left.len() as int) =~= middle);
    lemma_after_last(left, Pick::Solid, 0);
    assert(left.take(0) =~= Seq::<char>::empty());
}

/// Each line ends at a line feed, without a carriage return before it; what stands behind the last
/// line feed is a line where it is anything.
pub proof fn lines_end_at_line_feeds(line: Seq<char>, rest: Seq<char>)
    requires
        forall|i: int| 0 <= i < line.len() ==> #[trigger] line[i] != '\n',
    ensures
        line.len() == 0 || line.last() != '\r' ==> lines(line + seq!['\n'] + rest) == seq![line]
            + lines(rest),
        lines(line + seq!['\r', '\n'] + rest) == seq![line] + lines(rest),
        line.len() > 0 ==> lines(line) == seq![line],
        lines(Seq::empty()) == Seq::<Seq<char>>::empty(),
{
    let n = line.len() as int;
    let s = line + seq!['\n'] + rest;
    assert forall|j: int| 0 <= j < n implies s[j] != '\n' by {
        assert(s[j] == line[j]);
    }
    assert(s[n] == '\n');
    lemma_first_hit(s, Pick::Is('\n'), n);
    assert(s.take(n) =~= line);
    assert(s.skip(n + 1) =~= rest);
    let t = line + seq!['\r', '\n'] + rest;
    assert forall|j: int| 0 <= j < n + 1 implies t[j] != '\n' by {
        if j < n {
            assert(t[j] == line[j]);
        } else {
            assert(t[j] == '\r');
        }
    }
    assert(t[n + 1] == '\n');
    lemma_first_hit(t, Pick::Is('\n'), n + 1);
    assert(t.take(n + 1) =~= line.push('\r'));
    assert(strip_cr(line.push('\r')) =~= line);
    assert(t.skip(n + 2) =~= rest);
    if n > 0 {
        lemma_first_hit(line, Pick::Is('\n'), n);
    }
}

/// A text falls into parts at each separator, and joining them puts it together again.
pub proof fn parts_are_split_at_separators(part: Seq<char>, c: char, rest: Seq<char>)
    requires
        forall|i: int| 0 <= i < part.len() ==> #[trigger] part[i] != c,
    ensures
        split(part + seq![c] + rest, c) == seq![part] + split(rest, c),
        split(part, c) == seq![part],
{
    let n = part.len() as int;
    let s = part + seq![c] + rest;
    assert forall|j: int| 0 <= j < n implies s[j] != c by {
        assert(s[j] == part[j]);
    }
    assert(s[n] == c);
    lemma_first_hit(s, Pick::Is(c), n);
    assert(s.take(n) =~= part);
    assert(s.skip(n + 1) =~= rest);
    lemma_first_hit(part, Pick::Is(c), n);
}

/// Joining what was split gives the text back.
pub proof fn joining_undoes_splitting(s: Seq<char>, c: char)
    ensures
        split(s, c).len() > 0,
        join(split(s, c), seq![c]) == s,
    decreases s.len(),
{
    lemma_first_hit_bounds(s, Pick::Is(c));
    let n = first_hit(s, Pick::Is(c)) as int;
    if n < s.len() {
        let rest = s.skip(n + 1);
        joining_undoes_splitting(rest, c);
        lemma_join_first(s.take(n), split(rest, c), seq![c]);
        assert(s.take(n) + seq![c] + rest =~= s);
    }
}

/// What is put together from parts holds each of them, and begins with the first.
pub proof fn wholes_hold_their_parts(left: Seq<char>, part: Seq<char>, right: Seq<char>)
    ensures
        contains(left + part + right, part),
        starts_with(left + part + right, left),
        starts_with(part + right, part),
{
    let whole = left + part + right;
    let n = left.len() as int;
    assert(whole.subrange(n, n + part.len()) =~= part);
    assert(stands_at(whole, part, n));
    assert(whole.subrange(0, n) =~= left);
    assert((part + right).subrange(0, part.len() as int) =~= part);
}

/// What a text holds stands somewhere in it.
pub proof fn held_parts_stand_somewhere(whole: Seq<char>, part: Seq<char>)
    requires
        contains(whole, part),
    ensures
        exists|left: Seq<char>, right: Seq<char>| #[trigger] (left + part + right) == whole,
{
    let i = choose|i: int| stands_at(whole, part, i);
    let left = whole.take(i);
    let right = whole.skip(i + part.len());
    assert(left + part + right =~= whole) by {
        assert forall|k: int| i <= k < i + part.len() implies whole[k] == part[k - i] by {
            assert(whole.subrange(i, i + part.len())[k - i] == whole[k]);
        }
    }
}

/// A number is written digit by digit, the last digit last.
pub proof fn numbers_are_written_in_digits(n: nat, d: nat)
    requires
        d < 10,
    ensures
        decimal(d) == seq![('0' as int + d) as char],
        n > 0 ==> decimal(10 * n + d) == decimal(n) + seq![('0' as int + d) as char],
{
    if n > 0 {
        let m = 10 * n + d;
        assert(m / 10 == n);
        assert(m % 10 == d);
        assert(decimal(m) =~= decimal(n) + seq![('0' as int + d) as char]);
    }
}

// ---------------------------------------------------------------------------
// Slugs

/// A slug is made of parts with one underscore between each and the next, none of them empty, each
/// of small letters and digits.
pub proof fn slugs_are_made_of_parts(part: Seq<char>, rest: Seq<char>)
    requires
        forall|i: int| 0 <= i < part.len() ==> #[trigger] part[i] != '_',
    ensures
        is_slug(part) <==> part.len() > 0 && forall|i: int|
            0 <= i < part.len() ==> ('a' <= #[trigger] part[i] <= 'z' || '0' <= part[i] <= '9'),
        is_slug(part + seq!['_'] + rest) <==> is_slug(part) && is_slug(rest),
{
    parts_are_split_at_separators(part, '_', rest);
    joining_undoes_splitting(rest, '_');
    let own = split(part, '_');
    assert(own =~= seq![part]);
    assert(is_slug(part) == is_slug_part(part)) by {
        if is_slug(part) {
            assert(is_slug_part(own[0]));
        }
    }
    assert(is_slug_part(part) <==> part.len() > 0 && forall|i: int|
        0 <= i < part.len() ==> ('a' <= #[trigger] part[i] <= 'z' || '0' <= part[i] <= '9')) by {
        if is_slug_part(part) {
            assert forall|i: int| 0 <= i < part.len() implies ('a' <= #[trigger] part[i] <= 'z'
                || '0' <= part[i] <= '9') by {
                assert(is_slug_char(part[i]));
            }
        }
    }
    let whole = part + seq!['_'] + rest;
    let all = split(whole, '_');
    let tail = split(rest, '_');
    assert(all =~= seq![part] + tail);
    if is_slug(whole) {
        assert(is_slug_part(all[0]));
        assert forall|i: int| 0 <= i < tail.len() implies is_slug_part(#[trigger] tail[i]) by {
            assert(is_slug_part(all[i + 1]));
        }
        if rest.len() == 0 {
            lemma_first_hit(rest, Pick::Is('_'), 0);
            assert(tail[0] == rest);
        }
    }
    if is_slug(part) && is_slug(rest) {
        assert forall|i: int| 0 <= i < all.len() implies is_slug_part(#[trigger] all[i]) by {
            if i > 0 {
                assert(all[i] == tail[i - 1]);
            }
        }
    }
}

// ---------------------------------------------------------------------------
// Paths

/// A path below another has one stroke between the two; an absolute path stands for itself.
pub proof fn paths_are_joined_by_one_stroke(base: Seq<char>, child: Seq<char>)
    requires
        child.len() > 0,
    ensures
        child[0] != '/' && base.len() > 0 && base.last() != '/' ==> joined(base, child) == base
            + seq!['/'] + child,
        child[0] != '/' && base.len() > 0 && base.last() == '/' ==> joined(base, child) == base
            + child,
        child[0] != '/' && base.len() == 0 ==> joined(base, child) == child,
        child[0] == '/' ==> joined(base, child) == child,
{
    if base.len() == 0 {
        assert(base + child =~= child);
    }
}

/// A name in a directory: one step, not to the directory itself.
pub open spec fn is_name(name: Seq<char>) -> bool {
    &&& name.len() > 0
    &&& name != seq!['.']
    &&& forall|i: int| 0 <= i < name.len() ==> #[trigger] name[i] != '/'
}

proof fn lemma_same_name_end(p: Seq<char>, base: Seq<char>, i: int)
    requires
        0 <= i <= base.len() < p.len(),
        p.take(base.len() as int) == base,
        p[base.len() as int] == '/',
    ensures
        name_end(p, i) == name_end(base, i),
    decreases base.len() - i,
{
    if i < base.len() {
        assert(p.take(base.len() as int)[i] == p[i]);
        if p[i] != '/' {
            lemma_same_name_end(p, base, i + 1);
        }
    }
}

proof fn lemma_name_to_end(p: Seq<char>, i: int)
    requires
        0 <= i <= p.len(),
        forall|j: int| i <= j < p.len() ==> p[j] != '/',
    ensures
        name_end(p, i) == p.len(),
    decreases p.len() - i,
{
    if i < p.len() {
        lemma_name_to_end(p, i + 1);
    }
}

proof fn lemma_child(p: Seq<char>, base: Seq<char>, name: Seq<char>, i: int)
    requires
        p == base + seq!['/'] + name,
        is_name(name),
        0 <= i <= base.len(),
    ensures
        components_from(p, i) == components_from(base, i) + seq![
            ((base.len() + 1) as int, p.len() as int),
        ],
    decreases base.len() - i,
{
    let n = base.len() as int;
    assert(p.take(n) =~= base);
    assert(p[n] == '/');
    lemma_same_name_end(p, base, i);
    lemma_name_end(base, i);
    let e = name_end(base, i);
    let last = seq![((n + 1) as int, p.len() as int)];
    assert forall|j: int| n + 1 <= j < p.len() implies p[j] != '/' by {
        assert(p[j] == name[j - n - 1]);
    }
    lemma_name_to_end(p, n + 1);
    assert(p.subrange(n + 1, p.len() as int) =~= name);
    assert(counts(p, n + 1, p.len() as int)) by {
        if p.len() == n + 2 && p[n + 1] == '.' {
            assert(name =~= seq!['.']);
        }
    }
    assert(components_from(p, n + 1) =~= last);
    if i < e {
        assert(p.take(n)[i] == base[i]);
    }
    assert(counts(p, i, e) == counts(base, i, e));
    if e < n {
        lemma_child(p, base, name, e + 1);
        if counts(base, i, e) {
            assert(components_from(p, i) =~= seq![(i, e)] + (components_from(base, e + 1) + last));
            assert(components_from(base, i) =~= seq![(i, e)] + components_from(base, e + 1));
            assert(components_from(p, i) =~= components_from(base, i) + last);
        }
    } else {
        assert(e == n);
        if counts(base, i, e) {
            assert(components_from(base, i) =~= seq![(i, e)]);
            assert(components_from(p, i) =~= seq![(i, e)] + last);
        } else {
            assert(components_from(base, i) =~= Seq::empty());
            assert(components_from(p, i) =~= last);
        }
    }
}

proof fn lemma_bounds(p: Seq<char>, i: int)
    requires
        0 <= i <= p.len(),
    ensures
        forall|k: int|
            0 <= k < components_from(p, i).len() ==> {
                let c = #[trigger] components_from(p, i)[k];
                0 <= c.0 < c.1 <= p.len()
            },
    decreases p.len() - i,
{
    lemma_name_end(p, i);
    let e = name_end(p, i);
    let rest = if e < p.len() {
        components_from(p, e + 1)
    } else {
        Seq::empty()
    };
    if e < p.len() {
        lemma_bounds(p, e + 1);
    }
    let all = components_from(p, i);
    assert forall|k: int| 0 <= k < all.len() implies {
        let c = #[trigger] all[k];
        0 <= c.0 < c.1 <= p.len()
    } by {
        if counts(p, i, e) {
            assert(all == seq![(i, e)] + rest);
            if k > 0 {
                assert(all[k] == rest[k - 1]);
            }
        } else {
            assert(all == rest);
        }
    }
}

/// The name of something in a directory is what is left of its path without that of the directory;
/// so the directory of a window gives its slug back.
pub proof fn name_is_found_below(base: Seq<char>, name: Seq<char>)
    requires
        base.len() > 0,
        is_name(name),
    ensures
        below(base + seq!['/'] + name, base) == Some(name),
{
    let p = base + seq!['/'] + name;
    let n = base.len() as int;
    lemma_child(p, base, name, 0);
    lemma_bounds(base, 0);
    let cs = components(base);
    assert(is_absolute(p) == is_absolute(base)) by {
        assert(p[0] == base[0]);
    }
    assert forall|i: int| 0 <= i < cs.len() implies #[trigger] component(p, i) == component(
        base,
        i,
    ) by {
        assert(components(p)[i] == cs[i]);
        let (a, b) = cs[i];
        assert(0 <= a < b <= n);
        assert(p.subrange(a, b) =~= base.subrange(a, b));
    }
    assert(p.subrange(n + 1, p.len() as int) =~= name);
}

/// The lock of a file stands beside it, under its name with another extension.
pub proof fn extension_is_replaced(
    dir: Seq<char>,
    stem: Seq<char>,
    extension: Seq<char>,
    other: Seq<char>,
)
    requires
        stem.len() > 0,
        extension.len() > 0,
        forall|i: int| 0 <= i < stem.len() ==> #[trigger] stem[i] != '/',
        forall|i: int|
            0 <= i < extension.len() ==> #[trigger] extension[i] != '/' && extension[i] != '.',
    ensures
        with_new_extension(dir + seq!['/'] + (stem + seq!['.'] + extension), other) == dir
            + seq!['/'] + stem + seq!['.'] + other,
        lock_of(dir + seq!['/'] + (stem + seq!['.'] + extension)) == dir + seq!['/'] + stem
            + seq!['.'] + "json.lock"@,
{
    let name = stem + seq!['.'] + extension;
    let p = dir + seq!['/'] + name;
    let n = dir.len() as int;
    assert(is_name(name)) by {
        assert(name.len() > 1);
        assert forall|i: int| 0 <= i < name.len() implies #[trigger] name[i] != '/' by {
            if i < stem.len() {
                assert(name[i] == stem[i]);
            } else if i > stem.len() {
                assert(name[i] == extension[i - stem.len() - 1]);
            }
        }
    }
    lemma_child(p, dir, name, 0);
    let cs = components(p);
    assert(cs.last() == ((n + 1) as int, p.len() as int));
    assert(p.subrange(n + 1, p.len() as int) =~= name);
    reveal_strlit("..");
    reveal_strlit(".");
    assert(name.last() == extension.last());
    assert(extension[extension.len() - 1] != '.');
    assert(".."@.last() == '.');
    assert(name != ".."@);
    assert(name != "."@);
    let at = (stem.len() + 1) as int;
    assert forall|j: int| at <= j < name.len() implies name[j] != '.' by {
        assert(name[j] == extension[j - at]);
    }
    assert(name[at - 1] == '.');
    lemma_after_last(name, Pick::Is('.'), at);
    assert(stem_len(name) == stem.len());
    assert(p.take(n + 1 + stem.len()) =~= dir + seq!['/'] + stem);
}

} // verus!
