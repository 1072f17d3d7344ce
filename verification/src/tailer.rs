//! Reading a file of lines that grows while it is read.

use vstd::prelude::*;

use crate::chars::{
    cat, cut, first_from, first_hit, lemma_first_hit, lemma_first_hit_bounds, picks, split,
    text_trim, to_chars, to_text, trim, Pick,
};
use crate::json::{items_view, lemma_items_push, parsed, Json, JsonV};

verus! {

/// The values on a number of lines: each line is trimmed, and counts where it is JSON.
pub open spec fn values(lines: Seq<Seq<char>>) -> Seq<JsonV>
    decreases lines.len(),
{
    if lines.len() == 0 {
        Seq::empty()
    } else {
        let rest = values(lines.skip(1));
        let line = trim(lines[0]);
        match parsed(line) {
            Some(v) if line.len() > 0 => seq![v] + rest,
            _ => rest,
        }
    }
}

/// The lines of a text that are complete.
pub open spec fn complete(s: Seq<char>) -> Seq<Seq<char>> {
    split(s, '\n').drop_last()
}

/// What stands behind the last line end.
pub open spec fn partial(s: Seq<char>) -> Seq<char> {
    split(s, '\n').last()
}

/// What was read of a line that is not complete.
#[derive(Debug)]
pub struct Tailer {
    pub buf: String,
}

impl Tailer {
    pub fn new() -> (out: Self)
        ensures
            out.buf@ == Seq::<char>::empty(),
    {
        Tailer { buf: String::new() }
    }

    /// Whether a file of the given size holds anything behind the place up to which it was read.
    pub fn has_more(size: u64, pos: u64) -> (out: bool)
        ensures
            out == (size > pos),
    {
        size > pos
    }

    /// Takes what was read behind the last place. Returns the values on the lines that are now
    /// complete.
    pub fn feed(&mut self, chunk: &str) -> (out: Vec<Json>)
        ensures
            items_view(out@) == values(complete(old(self).buf@ + chunk@)),
            final(self).buf@ == partial(old(self).buf@ + chunk@),
    {
        let text = cat(self.buf.as_str(), chunk);
        let v = to_chars(text.as_str());
        let mut out: Vec<Json> = Vec::new();
        let mut i: usize = 0;
        proof {
            lemma_split(v@);
            assert(v@.skip(0) =~= v@);
            assert(items_view(out@) + values(complete(v@)) =~= values(complete(v@)));
        }
        loop
            invariant_except_break
                i <= v.len(),
                values(complete(v@)) == items_view(out@) + values(complete(v@.skip(i as int))),
                partial(v@) == partial(v@.skip(i as int)),
            ensures
                i <= v.len(),
                values(complete(v@)) == items_view(out@),
                partial(v@) == v@.skip(i as int),
            decreases v.len() - i,
        {
            let ghost rest = v@.skip(i as int);
            let n = first_from(&v, i, Pick::Is('\n'));
            if n == v.len() {
                proof {
                    assert(split(rest, '\n') == seq![rest]);
                    assert(complete(rest) =~= Seq::<Seq<char>>::empty());
                    assert(items_view(out@) + Seq::<JsonV>::empty() =~= items_view(out@));
                }
                break;
            }
            proof {
                let after = rest.skip(n - i + 1);
                assert(after =~= v@.skip(n + 1));
                lemma_split(after);
                assert(split(rest, '\n') == seq![rest.take(n - i)] + split(after, '\n'));
                assert(complete(rest) =~= seq![rest.take(n - i)] + complete(after));
                assert(complete(rest).skip(1) =~= complete(after));
                assert(partial(rest) == partial(after));
                assert(rest.take(n - i) =~= v@.subrange(i as int, n as int));
            }
            let line = text_trim(to_text(&cut(&v, i, n)).as_str());
            let ghost had = items_view(out@);
            let ghost later = values(complete(v@.skip(n + 1)));
            if !line.as_str().is_empty() {
                if let Some(value) = Json::parse(line.as_str()) {
                    proof {
                        lemma_items_push(out@, value);
                        assert(had + (seq![value@] + later) =~= had.push(value@) + later);
                    }
                    out.push(value);
                }
            }
            i = n + 1;
        }
        let rest = cut(&v, i, v.len());
        assert(rest@ =~= v@.skip(i as int));
        self.buf = to_text(&rest);
        out
    }
}

proof fn lemma_split(s: Seq<char>)
    ensures
        split(s, '\n').len() > 0,
    decreases s.len(),
{
    lemma_first_hit_bounds(s, Pick::Is('\n'));
    let n = first_hit(s, Pick::Is('\n')) as int;
    if n < s.len() {
        lemma_split(s.skip(n + 1));
    }
}

proof fn lemma_split_more(s: Seq<char>, more: Seq<char>)
    ensures
        complete(s + more) == complete(s) + complete(partial(s) + more),
        partial(s + more) == partial(partial(s) + more),
    decreases s.len(),
{
    let n = first_hit(s, Pick::Is('\n')) as int;
    lemma_first_hit_bounds(s, Pick::Is('\n'));
    lemma_split(s);
    if n < s.len() {
        let all = s + more;
        let after = s.skip(n + 1);
        assert forall|j: int| 0 <= j < n implies !picks(Pick::Is('\n'), #[trigger] all[j]) by {
            assert(all[j] == s[j]);
        }
        lemma_first_hit(all, Pick::Is('\n'), n);
        assert(all.skip(n + 1) =~= after + more);
        assert(all.take(n) =~= s.take(n));
        lemma_split_more(after, more);
        lemma_split(after);
        lemma_split(after + more);
        assert(split(s, '\n') == seq![s.take(n)] + split(after, '\n'));
        assert(split(all, '\n') == seq![s.take(n)] + split(after + more, '\n'));
        assert(partial(s) == partial(after));
        assert(partial(all) == partial(after + more));
        assert(complete(s) =~= seq![s.take(n)] + complete(after));
        assert(complete(all) =~= seq![s.take(n)] + complete(after + more));
        assert(complete(all) =~= complete(s) + complete(partial(s) + more));
    } else {
        assert(split(s, '\n') == seq![s]);
        assert(complete(s) =~= Seq::<Seq<char>>::empty());
        assert(complete(s) + complete(s + more) =~= complete(s + more));
    }
}

proof fn lemma_values_add(a: Seq<Seq<char>>, b: Seq<Seq<char>>)
    ensures
        values(a + b) == values(a) + values(b),
    decreases a.len(),
{
    if a.len() > 0 {
        lemma_values_add(a.skip(1), b);
        assert((a + b).skip(1) =~= a.skip(1) + b);
        let line = trim(a[0]);
        if let Some(v) = parsed(line) {
            assert(seq![v] + (values(a.skip(1)) + values(b)) =~= (seq![v] + values(a.skip(1)))
                + values(b));
        }
    } else {
        assert(a + b =~= b);
        assert(values(a) + values(b) =~= values(b));
    }
}

/// It does not matter in which pieces a file is read: two pieces bring the values that one piece
/// made of both brings, and leave the same part of a line.
pub proof fn pieces_do_not_matter(buf: Seq<char>, first: Seq<char>, second: Seq<char>)
    ensures
        values(complete(buf + first)) + values(complete(partial(buf + first) + second)) == values(
            complete(buf + (first + second)),
        ),
        partial(partial(buf + first) + second) == partial(buf + (first + second)),
{
    assert((buf + first) + second =~= buf + (first + second));
    lemma_split_more(buf + first, second);
    lemma_values_add(complete(buf + first), complete(partial(buf + first) + second));
}

} // verus!
