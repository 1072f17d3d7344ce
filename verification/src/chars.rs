//! Text as sequences of characters: the searches, splits and joins that the other modules
//! are specified with, each beside the executable function that computes it.

use vstd::prelude::*;

verus! {

/// `String::push` appends one character.
pub assume_specification[ String::push ](s: &mut String, c: char)
    ensures
        final(s)@ == old(s)@.push(c),
;

/// The characters of a string, in order.
pub fn to_chars(s: &str) -> (out: Vec<char>)
    ensures
        out@ == s@,
{
    let mut out: Vec<char> = Vec::new();
    for c in it: s.chars()
        invariant
            it.seq() == s@,
            out@ == it.seq().take(it.index() as int),
    {
        out.push(c);
    }
    out
}

/// The string made of the given characters.
pub fn to_text(chars: &Vec<char>) -> (out: String)
    ensures
        out@ == chars@,
{
    let mut out = String::new();
    let mut i: usize = 0;
    while i < chars.len()
        invariant
            i <= chars.len(),
            out@ == chars@.take(i as int),
        decreases chars.len() - i,
    {
        out.push(chars[i]);
        i += 1;
    }
    out
}

// ---------------------------------------------------------------------------
// Characters

/// The characters with the Unicode property White_Space.
pub open spec fn is_space(c: char) -> bool {
    let n = c as u32;
    ||| 0x09 <= n <= 0x0d
    ||| n == 0x20
    ||| n == 0x85
    ||| n == 0xa0
    ||| n == 0x1680
    ||| 0x2000 <= n <= 0x200a
    ||| n == 0x2028
    ||| n == 0x2029
    ||| n == 0x202f
    ||| n == 0x205f
    ||| n == 0x3000
}

pub fn space(c: char) -> (b: bool)
    ensures
        b == is_space(c),
{
    let n: u32 = c as u32;
    (0x09 <= n && n <= 0x0d) || n == 0x20 || n == 0x85 || n == 0xa0 || n == 0x1680 || (0x2000 <= n
        && n <= 0x200a) || n == 0x2028 || n == 0x2029 || n == 0x202f || n == 0x205f || n == 0x3000
}

/// The control characters: the Unicode general category Cc.
pub open spec fn is_control(c: char) -> bool {
    c as u32 <= 0x1f || 0x7f <= c as u32 <= 0x9f
}

pub fn control(c: char) -> (b: bool)
    ensures
        b == is_control(c),
{
    let n: u32 = c as u32;
    n <= 0x1f || (0x7f <= n && n <= 0x9f)
}

/// The control characters among the ASCII characters.
pub open spec fn is_ascii_control(c: char) -> bool {
    c as u32 <= 0x1f || c as u32 == 0x7f
}

pub fn ascii_control(c: char) -> (b: bool)
    ensures
        b == is_ascii_control(c),
{
    let n: u32 = c as u32;
    n <= 0x1f || n == 0x7f
}

/// A class of characters to search for.
#[derive(Clone, Copy)]
pub enum Pick {
    /// White space.
    Space,
    /// Anything but white space.
    Solid,
    /// One given character.
    Is(char),
    /// Anything but one given character.
    Not(char),
}

pub open spec fn picks(p: Pick, c: char) -> bool {
    match p {
        Pick::Space => is_space(c),
        Pick::Solid => !is_space(c),
        Pick::Is(x) => c == x,
        Pick::Not(x) => c != x,
    }
}

pub fn picked(p: Pick, c: char) -> (b: bool)
    ensures
        b == picks(p, c),
{
    match p {
        Pick::Space => space(c),
        Pick::Solid => !space(c),
        Pick::Is(x) => c == x,
        Pick::Not(x) => c != x,
    }
}

// ---------------------------------------------------------------------------
// Searching

/// How many characters stand before the first one of the class; all of them where there is none.
pub open spec fn first_hit(s: Seq<char>, p: Pick) -> nat
    decreases s.len(),
{
    if s.len() == 0 || picks(p, s[0]) {
        0
    } else {
        1 + first_hit(s.skip(1), p)
    }
}

/// How many characters stand up to and with the last one of the class; none where there is none.
pub open spec fn after_last(s: Seq<char>, p: Pick) -> nat
    decreases s.len(),
{
    if s.len() == 0 {
        0
    } else if picks(p, s.last()) {
        s.len()
    } else {
        after_last(s.drop_last(), p)
    }
}

pub proof fn lemma_first_hit(s: Seq<char>, p: Pick, i: int)
    requires
        0 <= i <= s.len(),
        forall|j: int| 0 <= j < i ==> !picks(p, s[j]),
        i < s.len() ==> picks(p, s[i]),
    ensures
        first_hit(s, p) == i,
    decreases s.len(),
{
    if s.len() > 0 && !picks(p, s[0]) {
        lemma_first_hit(s.skip(1), p, i - 1);
    }
}

pub proof fn lemma_first_hit_bounds(s: Seq<char>, p: Pick)
    ensures
        first_hit(s, p) <= s.len(),
        first_hit(s, p) < s.len() ==> picks(p, s[first_hit(s, p) as int]),
        forall|j: int| 0 <= j < first_hit(s, p) ==> !picks(p, s[j]),
    decreases s.len(),
{
    if s.len() > 0 && !picks(p, s[0]) {
        let t = s.skip(1);
        lemma_first_hit_bounds(t, p);
        assert forall|j: int| 0 <= j < first_hit(s, p) implies !picks(p, s[j]) by {
            if j > 0 {
                assert(s[j] == t[j - 1]);
            }
        }
    }
}

pub proof fn lemma_after_last(s: Seq<char>, p: Pick, i: int)
    requires
        0 <= i <= s.len(),
        forall|j: int| i <= j < s.len() ==> !picks(p, s[j]),
        i > 0 ==> picks(p, s[i - 1]),
    ensures
        after_last(s, p) == i,
    decreases s.len(),
{
    if i < s.len() {
        lemma_after_last(s.drop_last(), p, i);
    }
}

pub proof fn lemma_after_last_bounds(s: Seq<char>, p: Pick)
    ensures
        after_last(s, p) <= s.len(),
        after_last(s, p) > 0 ==> picks(p, s[after_last(s, p) - 1]),
        forall|j: int| after_last(s, p) <= j < s.len() ==> !picks(p, s[j]),
    decreases s.len(),
{
    if s.len() > 0 && !picks(p, s.last()) {
        let t = s.drop_last();
        lemma_after_last_bounds(t, p);
        assert forall|j: int| after_last(s, p) <= j < s.len() implies !picks(p, s[j]) by {
            if j < t.len() {
                assert(s[j] == t[j]);
            }
        }
    }
}

/// Searches `s` from position `from` on.
pub fn first_from(s: &Vec<char>, from: usize, p: Pick) -> (n: usize)
    requires
        from <= s.len(),
    ensures
        from <= n <= s.len(),
        n - from == first_hit(s@.skip(from as int), p),
        n < s.len() ==> picks(p, s@[n as int]),
        forall|j: int| from <= j < n ==> !picks(p, s@[j]),
{
    let mut i: usize = from;
    while i < s.len() && !picked(p, s[i])
        invariant
            from <= i <= s.len(),
            forall|j: int| from <= j < i ==> !picks(p, s@[j]),
        decreases s.len() - i,
    {
        i += 1;
    }
    proof {
        lemma_first_hit(s@.skip(from as int), p, i - from);
    }
    i
}

/// Searches the first `to` characters of `s` from their end.
pub fn last_up_to(s: &Vec<char>, to: usize, p: Pick) -> (n: usize)
    requires
        to <= s.len(),
    ensures
        n <= to,
        n == after_last(s@.take(to as int), p),
{
    let mut i: usize = to;
    while i > 0 && !picked(p, s[i - 1])
        invariant
            i <= to <= s.len(),
            forall|j: int| i <= j < to ==> !picks(p, s@[j]),
        decreases i,
    {
        i -= 1;
    }
    proof {
        lemma_after_last(s@.take(to as int), p, i as int);
    }
    i
}

/// `t` stands in `s` at position `i`.
pub open spec fn stands_at(s: Seq<char>, t: Seq<char>, i: int) -> bool {
    0 <= i && i + t.len() <= s.len() && s.subrange(i, i + t.len()) == t
}

pub open spec fn starts_with(s: Seq<char>, t: Seq<char>) -> bool {
    stands_at(s, t, 0)
}

pub open spec fn contains(s: Seq<char>, t: Seq<char>) -> bool {
    exists|i: int| stands_at(s, t, i)
}

pub fn found_at(s: &Vec<char>, t: &Vec<char>, i: usize) -> (b: bool)
    requires
        i <= s.len(),
    ensures
        b == stands_at(s@, t@, i as int),
{
    if t.len() > s.len() - i {
        return false;
    }
    let mut k: usize = 0;
    while k < t.len()
        invariant
            i + t.len() <= s.len(),
            k <= t.len(),
            forall|j: int| 0 <= j < k ==> s@[i + j] == t@[j],
        decreases t.len() - k,
    {
        if s[i + k] != t[k] {
            assert(s@.subrange(i as int, i + t@.len())[k as int] != t@[k as int]);
            return false;
        }
        k += 1;
    }
    assert(s@.subrange(i as int, i + t@.len()) =~= t@);
    true
}

pub fn text_starts_with(s: &str, t: &str) -> (b: bool)
    ensures
        b == starts_with(s@, t@),
{
    found_at(&to_chars(s), &to_chars(t), 0)
}

pub fn text_contains(s: &str, t: &str) -> (b: bool)
    ensures
        b == contains(s@, t@),
{
    let sv = to_chars(s);
    let tv = to_chars(t);
    let mut i: usize = 0;
    loop
        invariant
            sv@ == s@,
            tv@ == t@,
            i <= sv.len(),
            forall|j: int| 0 <= j < i ==> !stands_at(s@, t@, j),
        decreases sv.len() - i,
    {
        if found_at(&sv, &tv, i) {
            return true;
        }
        if i == sv.len() {
            return false;
        }
        i += 1;
    }
}

/// Whether two strings hold the same characters.
pub fn same(a: &str, b: &str) -> (r: bool)
    ensures
        r == (a@ == b@),
{
    let av = to_chars(a);
    let bv = to_chars(b);
    if av.len() != bv.len() {
        return false;
    }
    let r = found_at(&av, &bv, 0);
    assert(av@.subrange(0, av@.len() as int) =~= av@);
    r
}

pub open spec fn or_empty(s: Option<Seq<char>>) -> Seq<char> {
    match s {
        Some(s) => s,
        None => Seq::empty(),
    }
}

pub open spec fn opt_text(o: Option<String>) -> Option<Seq<char>> {
    match o {
        Some(s) => Some(s@),
        None => None,
    }
}

pub open spec fn opt_str(o: Option<&str>) -> Option<Seq<char>> {
    match o {
        Some(s) => Some(s@),
        None => None,
    }
}

pub fn same_opt(a: &Option<String>, b: &Option<String>) -> (r: bool)
    ensures
        r == (opt_text(*a) == opt_text(*b)),
{
    match (a, b) {
        (Some(x), Some(y)) => same(x.as_str(), y.as_str()),
        (None, None) => true,
        _ => false,
    }
}

/// The order of strings: that of the first characters in which they differ, the shorter first
/// where there is no such character.
pub open spec fn precedes(a: Seq<char>, b: Seq<char>) -> bool
    decreases a.len(),
{
    if b.len() == 0 {
        false
    } else if a.len() == 0 {
        true
    } else if a[0] != b[0] {
        a[0] < b[0]
    } else {
        precedes(a.skip(1), b.skip(1))
    }
}

pub proof fn lemma_precedes_from(a: Seq<char>, b: Seq<char>, i: int)
    requires
        0 <= i <= a.len(),
        i <= b.len(),
        forall|j: int| 0 <= j < i ==> a[j] == b[j],
    ensures
        precedes(a, b) == precedes(a.skip(i), b.skip(i)),
    decreases i,
{
    if i > 0 {
        lemma_precedes_from(a.skip(1), b.skip(1), i - 1);
        assert(a.skip(1).skip(i - 1) =~= a.skip(i));
        assert(b.skip(1).skip(i - 1) =~= b.skip(i));
    } else {
        assert(a.skip(0) =~= a);
        assert(b.skip(0) =~= b);
    }
}

pub fn text_precedes(a: &str, b: &str) -> (r: bool)
    ensures
        r == precedes(a@, b@),
{
    let av = to_chars(a);
    let bv = to_chars(b);
    let mut i: usize = 0;
    while i < av.len() && i < bv.len() && av[i] == bv[i]
        invariant
            i <= av.len(),
            i <= bv.len(),
            forall|j: int| 0 <= j < i ==> av@[j] == bv@[j],
        decreases av.len() - i,
    {
        i += 1;
    }
    proof {
        lemma_precedes_from(av@, bv@, i as int);
    }
    i < bv.len() && (i == av.len() || av[i] < bv[i])
}

/// No string precedes itself, two different strings are ordered one way, and the order is
/// transitive.
pub proof fn lemma_precedes_total(a: Seq<char>, b: Seq<char>)
    ensures
        !(precedes(a, b) && precedes(b, a)),
        precedes(a, b) || precedes(b, a) || a == b,
    decreases a.len(),
{
    if a.len() > 0 && b.len() > 0 && a[0] == b[0] {
        lemma_precedes_total(a.skip(1), b.skip(1));
        if a.skip(1) == b.skip(1) {
            assert(a =~= seq![a[0]] + a.skip(1));
            assert(b =~= seq![b[0]] + b.skip(1));
        }
    } else if a.len() == 0 && b.len() == 0 {
        assert(a =~= b);
    }
}

pub proof fn lemma_precedes_transitive(a: Seq<char>, b: Seq<char>, c: Seq<char>)
    requires
        precedes(a, b),
        precedes(b, c),
    ensures
        precedes(a, c),
    decreases a.len(),
{
    if a.len() > 0 && a[0] == b[0] && b[0] == c[0] {
        lemma_precedes_transitive(a.skip(1), b.skip(1), c.skip(1));
    }
}

// ---------------------------------------------------------------------------
// Cutting

/// The text without white space at its end.
pub open spec fn trim_end(s: Seq<char>) -> Seq<char> {
    s.take(after_last(s, Pick::Solid) as int)
}

/// The text without white space at its start and its end.
pub open spec fn trim(s: Seq<char>) -> Seq<char> {
    let t = trim_end(s);
    t.skip(first_hit(t, Pick::Solid) as int)
}

/// The characters of `s` from `a` up to `b`.
pub fn cut(s: &Vec<char>, a: usize, b: usize) -> (out: Vec<char>)
    requires
        a <= b <= s.len(),
    ensures
        out@ == s@.subrange(a as int, b as int),
{
    let mut out: Vec<char> = Vec::new();
    let mut i: usize = a;
    while i < b
        invariant
            a <= i <= b <= s.len(),
            out@ == s@.subrange(a as int, i as int),
        decreases b - i,
    {
        out.push(s[i]);
        i += 1;
    }
    out
}

pub fn text_trim_end(s: &str) -> (out: String)
    ensures
        out@ == trim_end(s@),
{
    let v = to_chars(s);
    let n = last_up_to(&v, v.len(), Pick::Solid);
    assert(v@.take(v@.len() as int) =~= v@);
    to_text(&cut(&v, 0, n))
}

pub fn text_trim(s: &str) -> (out: String)
    ensures
        out@ == trim(s@),
{
    let v = to_chars(s);
    let n = last_up_to(&v, v.len(), Pick::Solid);
    assert(v@.take(v@.len() as int) =~= v@);
    let t = cut(&v, 0, n);
    let a = first_from(&t, 0, Pick::Solid);
    assert(t@.skip(0) =~= t@);
    let out = cut(&t, a, t.len());
    assert(out@ =~= trim(s@));
    to_text(&out)
}

/// The strings of a list as sequences of characters.
pub open spec fn texts(v: Seq<String>) -> Seq<Seq<char>> {
    Seq::new(v.len(), |i: int| v[i]@)
}

pub proof fn lemma_texts_push(v: Seq<String>, s: String)
    ensures
        texts(v.push(s)) == texts(v).push(s@),
{
    assert(texts(v.push(s)) =~= texts(v).push(s@));
}

/// The maximal runs of characters that are not white space.
pub open spec fn words(s: Seq<char>) -> Seq<Seq<char>>
    decreases s.len(),
    via words_decreases
{
    let a = first_hit(s, Pick::Solid) as int;
    if a >= s.len() {
        Seq::empty()
    } else {
        let rest = s.skip(a);
        let n = first_hit(rest, Pick::Space) as int;
        seq![rest.take(n)] + words(rest.skip(n))
    }
}

#[via_fn]
proof fn words_decreases(s: Seq<char>) {
    lemma_first_hit_bounds(s, Pick::Solid);
    let a = first_hit(s, Pick::Solid) as int;
    if a < s.len() {
        let rest = s.skip(a);
        lemma_first_hit_bounds(rest, Pick::Space);
        assert(rest[0] == s[a]);
        assert(first_hit(rest, Pick::Space) >= 1);
    }
}

pub fn split_words(s: &str) -> (out: Vec<String>)
    ensures
        texts(out@) == words(s@),
{
    let v = to_chars(s);
    let mut out: Vec<String> = Vec::new();
    let mut i: usize = 0;
    assert(v@.skip(0) =~= v@);
    assert(texts(out@) =~= Seq::<Seq<char>>::empty());
    assert(texts(out@) + words(v@) =~= words(v@));
    loop
        invariant
            i <= v.len(),
            words(v@) == texts(out@) + words(v@.skip(i as int)),
        ensures
            words(v@) == texts(out@),
        decreases v.len() - i,
    {
        let a = first_from(&v, i, Pick::Solid);
        if a == v.len() {
            assert(words(v@.skip(i as int)) =~= Seq::<Seq<char>>::empty());
            assert(texts(out@) + Seq::<Seq<char>>::empty() =~= texts(out@));
            break;
        }
        let b = first_from(&v, a, Pick::Space);
        proof {
            let rest = v@.skip(i as int).skip(a - i);
            assert(rest =~= v@.skip(a as int));
            assert(rest[0] == v@[a as int]);
            assert(rest.take(b - a) =~= v@.subrange(a as int, b as int));
            assert(rest.skip(b - a) =~= v@.skip(b as int));
            assert(b > a);
        }
        let word = to_text(&cut(&v, a, b));
        proof {
            lemma_texts_push(out@, word);
            assert(texts(out@) + (seq![word@] + words(v@.skip(b as int))) =~= texts(out@).push(word@)
                + words(v@.skip(b as int)));
        }
        out.push(word);
        i = b;
    }
    out
}

/// A line without the carriage return that ends it.
pub open spec fn strip_cr(s: Seq<char>) -> Seq<char> {
    if s.len() > 0 && s.last() == '\r' {
        s.drop_last()
    } else {
        s
    }
}

/// The lines of a text: each ends in a line feed, or in a carriage return and a line feed, which
/// are not part of it. Text behind the last line feed is a line too, as it stands.
pub open spec fn lines(s: Seq<char>) -> Seq<Seq<char>>
    decreases s.len(),
    via lines_decreases
{
    if s.len() == 0 {
        Seq::empty()
    } else {
        let n = first_hit(s, Pick::Is('\n')) as int;
        if n >= s.len() {
            seq![s]
        } else {
            seq![strip_cr(s.take(n))] + lines(s.skip(n + 1))
        }
    }
}

#[via_fn]
proof fn lines_decreases(s: Seq<char>) {
    lemma_first_hit_bounds(s, Pick::Is('\n'));
}

/// No line of a text holds a line feed.
pub proof fn lemma_lines_are_single(s: Seq<char>, i: int)
    requires
        0 <= i < lines(s).len(),
    ensures
        !lines(s)[i].contains('\n'),
    decreases s.len(),
{
    let p = Pick::Is('\n');
    let n = first_hit(s, p) as int;
    lemma_first_hit_bounds(s, p);
    if i == 0 {
        assert forall|j: int| 0 <= j < lines(s)[0].len() implies lines(s)[0][j] != '\n' by {
            assert(!picks(p, s[j]));
        }
    } else {
        lemma_lines_are_single(s.skip(n + 1), i - 1);
    }
}

pub fn split_lines(s: &str) -> (out: Vec<String>)
    ensures
        texts(out@) == lines(s@),
{
    let v = to_chars(s);
    let mut out: Vec<String> = Vec::new();
    let mut i: usize = 0;
    assert(v@.skip(0) =~= v@);
    assert(texts(out@) =~= Seq::<Seq<char>>::empty());
    assert(texts(out@) + lines(v@) =~= lines(v@));
    while i < v.len()
        invariant
            i <= v.len(),
            lines(v@) == texts(out@) + lines(v@.skip(i as int)),
        decreases v.len() - i,
    {
        let n = first_from(&v, i, Pick::Is('\n'));
        let ghost rest = v@.skip(i as int);
        if n == v.len() {
            let line = to_text(&cut(&v, i, n));
            proof {
                assert(rest =~= line@);
                lemma_texts_push(out@, line);
                assert(texts(out@) + seq![line@] =~= texts(out@).push(line@));
                assert(v@.skip(n as int) =~= Seq::<char>::empty());
                assert(texts(out@).push(line@) + Seq::<Seq<char>>::empty() =~= texts(out@).push(
                    line@,
                ));
            }
            out.push(line);
            i = n;
        } else {
            assert(rest.take(n - i) =~= v@.subrange(i as int, n as int));
            assert(rest.skip(n - i + 1) =~= v@.skip(n + 1));
            let end: usize = if n > i && v[n - 1] == '\r' {
                n - 1
            } else {
                n
            };
            let line = to_text(&cut(&v, i, end));
            proof {
                assert(line@ =~= strip_cr(rest.take(n - i)));
                lemma_texts_push(out@, line);
                assert(texts(out@) + (seq![line@] + lines(v@.skip(n + 1))) =~= texts(out@).push(
                    line@,
                ) + lines(v@.skip(n + 1)));
            }
            out.push(line);
            i = n + 1;
        }
    }
    assert(v@.skip(i as int) =~= Seq::<char>::empty());
    assert(texts(out@) + Seq::<Seq<char>>::empty() =~= texts(out@));
    out
}

/// The pieces of a text between the occurrences of a character.
pub open spec fn split(s: Seq<char>, c: char) -> Seq<Seq<char>>
    decreases s.len(),
{
    let n = first_hit(s, Pick::Is(c)) as int;
    if 0 <= n < s.len() {
        seq![s.take(n)] + split(s.skip(n + 1), c)
    } else {
        seq![s]
    }
}

pub fn split_at_each(s: &str, c: char) -> (out: Vec<String>)
    ensures
        texts(out@) == split(s@, c),
{
    let v = to_chars(s);
    let mut out: Vec<String> = Vec::new();
    let mut i: usize = 0;
    assert(v@.skip(0) =~= v@);
    assert(texts(out@) =~= Seq::<Seq<char>>::empty());
    assert(texts(out@) + split(v@, c) =~= split(v@, c));
    loop
        invariant_except_break
            i <= v.len(),
            split(v@, c) == texts(out@) + split(v@.skip(i as int), c),
        ensures
            split(v@, c) == texts(out@),
        decreases v.len() - i,
    {
        let n = first_from(&v, i, Pick::Is(c));
        let piece = to_text(&cut(&v, i, n));
        let ghost rest = v@.skip(i as int);
        proof {
            assert(rest.take(n - i) =~= piece@);
            lemma_texts_push(out@, piece);
        }
        if n == v.len() {
            proof {
                assert(rest =~= piece@);
                assert(texts(out@) + seq![piece@] =~= texts(out@).push(piece@));
            }
            out.push(piece);
            break;
        }
        proof {
            assert(rest.skip(n - i + 1) =~= v@.skip(n + 1));
            assert(texts(out@) + (seq![piece@] + split(v@.skip(n + 1), c)) =~= texts(out@).push(
                piece@,
            ) + split(v@.skip(n + 1), c));
        }
        out.push(piece);
        i = n + 1;
    }
    out
}

// ---------------------------------------------------------------------------
// Putting together

/// The parts with the separator between them.
pub open spec fn join(parts: Seq<Seq<char>>, sep: Seq<char>) -> Seq<char>
    decreases parts.len(),
{
    if parts.len() == 0 {
        Seq::empty()
    } else if parts.len() == 1 {
        parts[0]
    } else {
        join(parts.drop_last(), sep) + sep + parts.last()
    }
}

pub fn join_all(parts: &Vec<String>, sep: &str) -> (out: String)
    ensures
        out@ == join(texts(parts@), sep@),
{
    let mut out = String::new();
    let mut i: usize = 0;
    while i < parts.len()
        invariant
            i <= parts.len(),
            out@ == join(texts(parts@).take(i as int), sep@),
        decreases parts.len() - i,
    {
        assert(texts(parts@).take(i + 1).drop_last() =~= texts(parts@).take(i as int));
        if i > 0 {
            out.append(sep);
        }
        out.append(parts[i].as_str());
        assert(i == 0 ==> out@ =~= parts@[0]@);
        i += 1;
    }
    assert(texts(parts@).take(i as int) =~= texts(parts@));
    out
}

pub fn cat(a: &str, b: &str) -> (out: String)
    ensures
        out@ == a@ + b@,
{
    let mut out = a.to_owned();
    out.append(b);
    out
}

/// The text with every run of white space turned into one blank, none at its ends.
pub open spec fn collapse(s: Seq<char>) -> Seq<char> {
    join(words(s), seq![' '])
}

pub fn collapse_text(s: &str) -> (out: String)
    ensures
        out@ == collapse(s@),
{
    let sep = " ";
    proof {
        reveal_strlit(" ");
        assert(sep@ =~= seq![' ']);
    }
    join_all(&split_words(s), sep)
}

/// The first `n` characters, or all of them where there are fewer.
pub open spec fn at_most(s: Seq<char>, n: nat) -> Seq<char> {
    if s.len() <= n {
        s
    } else {
        s.take(n as int)
    }
}

pub fn text_at_most(s: &str, n: usize) -> (out: String)
    ensures
        out@ == at_most(s@, n as nat),
{
    let v = to_chars(s);
    if v.len() <= n {
        to_text(&v)
    } else {
        let out = cut(&v, 0, n);
        assert(out@ =~= v@.take(n as int));
        to_text(&out)
    }
}

/// `n` blanks.
pub open spec fn blanks(n: nat) -> Seq<char> {
    Seq::new(n, |i: int| ' ')
}

pub fn blank_text(n: usize) -> (out: String)
    ensures
        out@ == blanks(n as nat),
{
    let mut out = String::new();
    let mut i: usize = 0;
    while i < n
        invariant
            i <= n,
            out@ == blanks(i as nat),
        decreases n - i,
    {
        out.push(' ');
        assert(out@ =~= blanks((i + 1) as nat));
        i += 1;
    }
    out
}

/// The text, with blanks behind it where it is shorter than `width` characters.
pub open spec fn padded(s: Seq<char>, width: nat) -> Seq<char> {
    if s.len() >= width {
        s
    } else {
        s + blanks((width - s.len()) as nat)
    }
}

pub fn pad_text(s: &str, width: usize) -> (out: String)
    ensures
        out@ == padded(s@, width as nat),
{
    let n = to_chars(s).len();
    if n >= width {
        s.to_owned()
    } else {
        cat(s, blank_text(width - n).as_str())
    }
}

pub open spec fn digit(d: nat) -> char {
    (48 + d) as char
}

/// A number in decimal digits.
pub open spec fn decimal(n: nat) -> Seq<char>
    decreases n,
{
    if n < 10 {
        seq![digit(n)]
    } else {
        decimal(n / 10).push(digit(n % 10))
    }
}

pub fn decimal_text(n: u64) -> (out: String)
    ensures
        out@ == decimal(n as nat),
{
    wide_text(n as u128)
}

pub fn wide_text(n: u128) -> (out: String)
    ensures
        out@ == decimal(n as nat),
    decreases n,
{
    let d: u8 = (n % 10) as u8;
    let c: char = (48u8 + d) as char;
    if n < 10 {
        let mut out = String::new();
        out.push(c);
        assert(out@ =~= decimal(n as nat));
        out
    } else {
        let mut out = wide_text(n / 10);
        out.push(c);
        out
    }
}

/// A copy of a string that may be missing.
pub fn opt_copy(s: &Option<String>) -> (out: Option<String>)
    ensures
        out == *s,
{
    match s {
        Some(t) => Some(t.clone()),
        None => None,
    }
}

} // verus!
