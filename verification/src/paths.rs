//! File paths as texts.

use vstd::prelude::*;

use crate::chars::{after_last, cat, cut, last_up_to, same, to_chars, to_text, Pick};

verus! {

/// A path below another one. An absolute path stands for itself.
pub open spec fn joined(base: Seq<char>, child: Seq<char>) -> Seq<char> {
    if child.len() > 0 && child[0] == '/' {
        child
    } else if base.len() == 0 || base.last() == '/' {
        base + child
    } else {
        base + seq!['/'] + child
    }
}

pub fn join_path(base: &str, child: &str) -> (out: String)
    ensures
        out@ == joined(base@, child@),
{
    let b = to_chars(base);
    let c = to_chars(child);
    if c.len() > 0 && c[0] == '/' {
        child.to_owned()
    } else if b.len() == 0 || b[b.len() - 1] == '/' {
        cat(base, child)
    } else {
        let mut out = base.to_owned();
        out.push('/');
        out.append(child);
        assert(out@ =~= joined(base@, child@));
        out
    }
}

// ---------------------------------------------------------------------------
// Components

/// The end of the name that starts at `i`: the next slash, or the end of the path.
pub open spec fn name_end(p: Seq<char>, i: int) -> int
    decreases p.len() - i,
{
    if 0 <= i < p.len() && p[i] != '/' {
        name_end(p, i + 1)
    } else {
        i
    }
}

pub proof fn lemma_name_end(p: Seq<char>, i: int)
    requires
        0 <= i <= p.len(),
    ensures
        i <= name_end(p, i) <= p.len(),
        name_end(p, i) < p.len() ==> p[name_end(p, i)] == '/',
    decreases p.len() - i,
{
    if i < p.len() && p[i] != '/' {
        lemma_name_end(p, i + 1);
    }
}

/// What stands between two slashes counts as a component where it is not empty and no single dot;
/// a dot that the path begins with counts.
pub open spec fn counts(p: Seq<char>, a: int, b: int) -> bool {
    a < b && !(b == a + 1 && p[a] == '.' && a > 0)
}

/// Where the components of a path begin and end, from position `i` on.
pub open spec fn components_from(p: Seq<char>, i: int) -> Seq<(int, int)>
    decreases p.len() - i,
    via components_decreases
{
    if 0 <= i <= p.len() {
        let e = name_end(p, i);
        let rest = if e < p.len() {
            components_from(p, e + 1)
        } else {
            Seq::empty()
        };
        if counts(p, i, e) {
            seq![(i, e)] + rest
        } else {
            rest
        }
    } else {
        Seq::empty()
    }
}

#[via_fn]
proof fn components_decreases(p: Seq<char>, i: int) {
    if 0 <= i <= p.len() {
        lemma_name_end(p, i);
    }
}

pub open spec fn components(p: Seq<char>) -> Seq<(int, int)> {
    components_from(p, 0)
}

pub open spec fn is_absolute(p: Seq<char>) -> bool {
    p.len() > 0 && p[0] == '/'
}

/// The text of a component.
pub open spec fn component(p: Seq<char>, i: int) -> Seq<char> {
    p.subrange(components(p)[i].0, components(p)[i].1)
}

/// The components of `base` are the first ones of `p`.
pub open spec fn begins_with(p: Seq<char>, base: Seq<char>) -> bool {
    &&& is_absolute(p) == is_absolute(base)
    &&& components(base).len() <= components(p).len()
    &&& forall|i: int|
        0 <= i < components(base).len() ==> #[trigger] component(p, i) == component(base, i)
}

/// The path below `base`: from the first component behind those of `base` to the end of the last.
pub open spec fn below(p: Seq<char>, base: Seq<char>) -> Option<Seq<char>> {
    if begins_with(p, base) {
        let n = components(base).len() as int;
        let cs = components(p);
        if n == cs.len() {
            Some(Seq::empty())
        } else {
            Some(p.subrange(cs[n].0, cs.last().1))
        }
    } else {
        None
    }
}

pub open spec fn spans(v: Seq<(usize, usize)>) -> Seq<(int, int)> {
    Seq::new(v.len(), |i: int| (v[i].0 as int, v[i].1 as int))
}

proof fn lemma_component_bounds(p: Seq<char>, i: int)
    requires
        0 <= i <= p.len(),
    ensures
        forall|k: int|
            0 <= k < components_from(p, i).len() ==> {
                let c = #[trigger] components_from(p, i)[k];
                i <= c.0 < c.1 <= p.len()
            },
        forall|k: int, l: int|
            0 <= k < l < components_from(p, i).len() ==> (#[trigger] components_from(p, i)[k]).1 < (
            #[trigger] components_from(p, i)[l]).0,
    decreases p.len() - i,
{
    lemma_name_end(p, i);
    let e = name_end(p, i);
    if e < p.len() {
        lemma_component_bounds(p, e + 1);
        let rest = components_from(p, e + 1);
        let all = components_from(p, i);
        if counts(p, i, e) {
            assert forall|k: int| 0 <= k < all.len() implies {
                let c = #[trigger] all[k];
                i <= c.0 < c.1 <= p.len()
            } by {
                if k > 0 {
                    assert(all[k] == rest[k - 1]);
                }
            }
            assert forall|k: int, l: int| 0 <= k < l < all.len() implies (#[trigger] all[k]).1 < (
            #[trigger] all[l]).0 by {
                assert(all[l] == rest[l - 1]);
                if k > 0 {
                    assert(all[k] == rest[k - 1]);
                }
            }
        }
    }
}

fn find_components(p: &Vec<char>) -> (out: Vec<(usize, usize)>)
    ensures
        spans(out@) == components(p@),
{
    let mut out: Vec<(usize, usize)> = Vec::new();
    let mut i: usize = 0;
    assert(spans(out@) + components(p@) =~= components(p@));
    loop
        invariant_except_break
            i <= p.len(),
            components(p@) == spans(out@) + components_from(p@, i as int),
        ensures
            spans(out@) == components(p@),
        decreases p.len() - i,
    {
        let mut e: usize = i;
        while e < p.len() && p[e] != '/'
            invariant
                i <= e <= p.len(),
                name_end(p@, i as int) == name_end(p@, e as int),
            decreases p.len() - e,
        {
            e += 1;
        }
        let ghost before = spans(out@);
        if i < e && !(e == i + 1 && p[i] == '.' && i > 0) {
            out.push((i, e));
            assert(spans(out@) =~= before.push((i as int, e as int)));
            if e < p.len() {
                assert(before + (seq![(i as int, e as int)] + components_from(p@, e + 1))
                    =~= spans(out@) + components_from(p@, e + 1));
            } else {
                assert(before + (seq![(i as int, e as int)] + Seq::<(int, int)>::empty())
                    =~= spans(out@));
            }
        } else if e == p.len() {
            assert(before + Seq::<(int, int)>::empty() =~= before);
        }
        if e == p.len() {
            break;
        }
        i = e + 1;
    }
    out
}

fn same_part(p: &Vec<char>, a: (usize, usize), q: &Vec<char>, b: (usize, usize)) -> (out: bool)
    requires
        a.0 <= a.1 <= p.len(),
        b.0 <= b.1 <= q.len(),
    ensures
        out == (p@.subrange(a.0 as int, a.1 as int) == q@.subrange(b.0 as int, b.1 as int)),
{
    if a.1 - a.0 != b.1 - b.0 {
        assert(p@.subrange(a.0 as int, a.1 as int).len() != q@.subrange(
            b.0 as int,
            b.1 as int,
        ).len());
        return false;
    }
    let r = crate::chars::found_at(&cut(p, a.0, a.1), &cut(q, b.0, b.1), 0);
    proof {
        let x = p@.subrange(a.0 as int, a.1 as int);
        assert(x.subrange(0, x.len() as int) =~= x);
    }
    r
}

/// The path below `base`; none where the path does not begin with it.
pub fn strip_base(path: &str, base: &str) -> (out: Option<String>)
    ensures
        crate::chars::opt_text(out) == below(path@, base@),
{
    let p = to_chars(path);
    let q = to_chars(base);
    let cp = find_components(&p);
    let cq = find_components(&q);
    proof {
        lemma_component_bounds(p@, 0);
        lemma_component_bounds(q@, 0);
        assert forall|k: int| 0 <= k < cp@.len() implies (#[trigger] cp@[k]).0 < cp@[k].1
            <= p@.len() && components(p@)[k] == (cp@[k].0 as int, cp@[k].1 as int) by {
            assert(spans(cp@)[k] == components(p@)[k]);
        }
        assert forall|k: int| 0 <= k < cq@.len() implies (#[trigger] cq@[k]).0 < cq@[k].1
            <= q@.len() && components(q@)[k] == (cq@[k].0 as int, cq@[k].1 as int) by {
            assert(spans(cq@)[k] == components(q@)[k]);
        }
        assert(spans(cp@).len() == cp@.len());
        assert(spans(cq@).len() == cq@.len());
    }
    let p_abs = p.len() > 0 && p[0] == '/';
    let q_abs = q.len() > 0 && q[0] == '/';
    if p_abs != q_abs || cq.len() > cp.len() {
        return None;
    }
    let mut i: usize = 0;
    while i < cq.len()
        invariant
            i <= cq.len() <= cp.len(),
            components(p@).len() == cp@.len(),
            components(q@).len() == cq@.len(),
            p@ == path@,
            q@ == base@,
            forall|k: int|
                0 <= k < cp@.len() ==> (#[trigger] cp@[k]).0 < cp@[k].1 <= p@.len() && components(
                    p@,
                )[k] == (cp@[k].0 as int, cp@[k].1 as int),
            forall|k: int|
                0 <= k < cq@.len() ==> (#[trigger] cq@[k]).0 < cq@[k].1 <= q@.len() && components(
                    q@,
                )[k] == (cq@[k].0 as int, cq@[k].1 as int),
            forall|k: int| 0 <= k < i ==> #[trigger] component(p@, k) == component(q@, k),
        decreases cq.len() - i,
    {
        if !same_part(&p, cp[i], &q, cq[i]) {
            assert(component(p@, i as int) != component(q@, i as int));
            return None;
        }
        i += 1;
    }
    if cq.len() == cp.len() {
        Some(String::new())
    } else {
        let a = cp[cq.len()].0;
        let b = cp[cp.len() - 1].1;
        proof {
            assert(components(p@).last() == components(p@)[cp@.len() - 1]);
            if cq@.len() < cp@.len() - 1 {
                assert(components(p@)[cq@.len() as int].1 < components(p@)[cp@.len() - 1].0);
            }
        }
        Some(to_text(&cut(&p, a, b)))
    }
}

// ---------------------------------------------------------------------------
// Extensions

/// The place of the last dot in a name, where it is not the first character: what stands before it
/// is the stem. Without such a dot the whole name is.
pub open spec fn stem_len(name: Seq<char>) -> nat {
    let after = after_last(name, Pick::Is('.'));
    if after <= 1 {
        name.len()
    } else {
        (after - 1) as nat
    }
}

/// The path with another extension. Where it names no file it stays as it is.
pub open spec fn with_new_extension(p: Seq<char>, extension: Seq<char>) -> Seq<char> {
    let cs = components(p);
    if cs.len() == 0 {
        p
    } else {
        let (a, b) = cs.last();
        let name = p.subrange(a, b);
        if name == ".."@ || name == "."@ {
            p
        } else {
            p.take(a + stem_len(name)) + seq!['.'] + extension
        }
    }
}

pub fn with_extension(path: &str, extension: &str) -> (out: String)
    ensures
        out@ == with_new_extension(path@, extension@),
{
    let p = to_chars(path);
    let cs = find_components(&p);
    assert(spans(cs@).len() == cs@.len());
    if cs.len() == 0 {
        return path.to_owned();
    }
    let (a, b) = cs[cs.len() - 1];
    proof {
        lemma_component_bounds(p@, 0);
        assert(spans(cs@)[cs@.len() - 1] == components(p@).last());
        assert(components_from(p@, 0)[cs@.len() - 1] == (a as int, b as int));
    }
    let name = cut(&p, a, b);
    let text = to_text(&name);
    if same(text.as_str(), "..") || same(text.as_str(), ".") {
        return path.to_owned();
    }
    let after = last_up_to(&name, name.len(), Pick::Is('.'));
    assert(name@.take(name@.len() as int) =~= name@);
    let stem: usize = if after <= 1 {
        name.len()
    } else {
        after - 1
    };
    let mut out = to_text(&cut(&p, 0, a + stem));
    out.push('.');
    out.append(extension);
    assert(out@ =~= with_new_extension(path@, extension@));
    out
}

} // verus!
