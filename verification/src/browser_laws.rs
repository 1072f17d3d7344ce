//! What holds of the list and the keys pressed in it, read off the windows that are selected.

use vstd::arithmetic::div_mod::{lemma_mod_self_0, lemma_small_mod};
use vstd::prelude::*;

use crate::browser::{
    generation_of, key_taken, latest, lookup_taken, reloaded, resized, status_taken, summary_done,
    BrowserV, EffectV,
};
use crate::chars::{contains, is_control};
use crate::keys::{Code, Key, Kind};
use crate::view::{
    distinct_matches, distinct_slugs, fits, found, found_in, has_slug, lemma_place_among, lowercase,
    lowered, reconciled, rows_of, selected_at, selection_is_found_again, slug_at, visible_from,
    ViewV,
};
use crate::window::{
    description, place_of_thread, sorting_orders_and_keeps, StatusV, SummaryPayload, WindowV,
};
use crate::window_laws::{
    each_waiting_turn_is_asked_for_once, found_turn_is_taken, is_first_of, lemma_place_of_thread,
    waits,
};

verus! {

// ---------------------------------------------------------------------------
// What is listed

/// The window holds what is looked for, in its slug or in what is shown of it, whatever the case.
pub open spec fn holds(w: WindowV, query: Option<Seq<char>>) -> bool {
    match query {
        None => true,
        Some(q) => contains(lowercase(w.slug), lowercase(q)) || contains(
            lowercase(description(w)),
            lowercase(q),
        ),
    }
}

proof fn lemma_found(windows: Seq<WindowV>, query: Option<Seq<char>>, n: nat)
    requires
        n <= windows.len() <= usize::MAX,
    ensures
        ({
            let list = found_in(windows, lowered(query), n);
            &&& forall|k: int|
                0 <= k < list.len() ==> 0 <= (#[trigger] list[k]) < n && holds(
                    windows[list[k] as int],
                    query,
                )
            &&& forall|k: int, m: int|
                0 <= k < m < list.len() ==> (#[trigger] list[k]) < (#[trigger] list[m])
            &&& forall|i: int|
                0 <= i < n && holds(#[trigger] windows[i], query) ==> list.contains(i as usize)
        }),
    decreases n,
{
    if n > 0 {
        lemma_found(windows, query, (n - 1) as nat);
        let before = found_in(windows, lowered(query), (n - 1) as nat);
        let list = found_in(windows, lowered(query), n);
        assert forall|i: int| 0 <= i < n && holds(#[trigger] windows[i], query) implies list.contains(
            i as usize,
        ) by {
            if i < n - 1 {
                assert(before.contains(i as usize));
                let k = choose|k: int| 0 <= k < before.len() && before[k] == i as usize;
                assert(list[k] == i as usize);
            } else {
                assert(list.last() == i as usize);
                assert(list[list.len() - 1] == i as usize);
            }
        }
    }
}

/// Listed are the windows that hold what is looked for, all of them, in their order; all windows
/// where nothing is.
pub proof fn list_is_what_was_looked_for(windows: Seq<WindowV>, query: Option<Seq<char>>)
    requires
        windows.len() <= usize::MAX,
    ensures
        ({
            let list = found(windows, query);
            &&& forall|i: int|
                0 <= i < windows.len() ==> (list.contains(i as usize) <==> holds(
                    #[trigger] windows[i],
                    query,
                ))
            &&& forall|k: int| 0 <= k < list.len() ==> (#[trigger] list[k]) < windows.len()
            &&& forall|k: int, m: int|
                0 <= k < m < list.len() ==> (#[trigger] list[k]) < (#[trigger] list[m])
        }),
{
    lemma_found(windows, query, windows.len());
    let list = found(windows, query);
    assert forall|i: int| 0 <= i < windows.len() implies (list.contains(i as usize) <==> holds(
        #[trigger] windows[i],
        query,
    )) by {
        if list.contains(i as usize) {
            let k = choose|k: int| 0 <= k < list.len() && list[k] == i as usize;
            assert(holds(windows[list[k] as int], query));
        }
    }
}

/// The list shows the windows that it should, and one of them is selected: the one at `p`.
pub open spec fn selects(b: BrowserV, p: int) -> bool {
    &&& b.windows.len() <= usize::MAX
    &&& distinct_slugs(b.windows)
    &&& b.view.matches == found(b.windows, b.view.query)
    &&& 0 <= p < b.view.matches.len()
    &&& b.view.selected_slug == Some(slug_at(b.view, b.windows, p))
}

proof fn lemma_selects(b: BrowserV, p: int)
    requires
        selects(b, p),
    ensures
        fits(b.view, b.windows),
        distinct_matches(b.view),
        selected_at(b.view, b.windows) == Some(p),
        forall|i: int|
            0 <= i < b.view.matches.len() ==> has_slug(
                b.windows,
                #[trigger] slug_at(b.view, b.windows, i),
            ),
{
    list_is_what_was_looked_for(b.windows, b.view.query);
    selection_is_found_again(b.view, b.windows, p);
    assert forall|i: int| 0 <= i < b.view.matches.len() implies has_slug(
        b.windows,
        #[trigger] slug_at(b.view, b.windows, i),
    ) by {
        assert(b.view.matches[i] < b.windows.len());
        assert(b.windows[b.view.matches[i] as int].slug == slug_at(b.view, b.windows, i));
    }
}

/// A list that is gone over keeps what is selected in it.
proof fn lemma_reconciled(b: BrowserV, v: ViewV, p: int, page: int)
    requires
        selects(BrowserV { view: v, ..b }, p),
    ensures
        ({
            let after = reconciled(v, b.windows, page);
            &&& after.query == v.query
            &&& after.matches == v.matches
            &&& after.selected_slug == v.selected_slug
            &&& selects(BrowserV { view: after, ..b }, p)
            &&& selected_at(after, b.windows) == Some(p)
        }),
{
    lemma_selects(BrowserV { view: v, ..b }, p);
    let after = reconciled(v, b.windows, page);
    assert(slug_at(after, b.windows, p) == slug_at(v, b.windows, p));
    lemma_selects(BrowserV { view: after, ..b }, p);
}

pub open spec fn is_pressed(key: Key, code: Code) -> bool {
    key.kind == Kind::Press && key.code == code
}

/// The key moves on by one.
pub open spec fn is_forward(b: BrowserV, key: Key) -> bool {
    is_pressed(key, Code::Down) || (b.view.query is None && is_pressed(key, Code::Char('j')))
}

/// The key moves back by one.
pub open spec fn is_backward(b: BrowserV, key: Key) -> bool {
    is_pressed(key, Code::Up) || (b.view.query is None && is_pressed(key, Code::Char('k')))
}

proof fn lemma_cycle(p: int, n: int)
    requires
        0 <= p < n,
    ensures
        (p + 1) % n == if p + 1 == n {
            0
        } else {
            p + 1
        },
        (p + n - 1) % n == if p == 0 {
            n - 1
        } else {
            p - 1
        },
{
    if p + 1 == n {
        lemma_mod_self_0(n);
    } else {
        lemma_small_mod((p + 1) as nat, n as nat);
    }
    if p == 0 {
        lemma_small_mod((n - 1) as nat, n as nat);
    } else {
        lemma_small_mod((p - 1) as nat, n as nat);
        vstd::arithmetic::div_mod::lemma_mod_add_multiples_vanish(p - 1, n);
        assert(p + n - 1 == n + (p - 1));
    }
}

/// The selection moves around the list: from the match at `p` on to the one behind it, or back to
/// the one before it, and from either end to the other, whether or not something is looked for. The
/// list itself, and what is looked for, stay as they are.
pub proof fn arrows_move_around_the_list(b: BrowserV, key: Key, height: u16, p: int)
    requires
        selects(b, p),
        is_forward(b, key) || is_backward(b, key),
    ensures
        ({
            let after = key_taken(b, key, height).0;
            let n = b.view.matches.len() as int;
            let q = if is_forward(b, key) {
                (p + 1) % n
            } else {
                (p + n - 1) % n
            };
            &&& selects(after, q)
            &&& selected_at(after.view, after.windows) == Some(q)
            &&& after.view.matches == b.view.matches
            &&& after.view.query == b.view.query
            &&& after.windows == b.windows
        }),
{
    lemma_selects(b, p);
    let n = b.view.matches.len() as int;
    lemma_cycle(p, n);
    let q = if is_forward(b, key) {
        (p + 1) % n
    } else {
        (p + n - 1) % n
    };
    let v = ViewV { selected_slug: Some(slug_at(b.view, b.windows, q)), ..b.view };
    assert(slug_at(v, b.windows, q) == slug_at(b.view, b.windows, q));
    assert(v == crate::view::stepped(b.view, b.windows, is_forward(b, key)));
    lemma_selects(BrowserV { view: v, ..b }, q);
    lemma_reconciled(b, v, q, rows_of(height));
    let after = key_taken(b, key, height).0;
    if b.view.query is None {
        assert(slug_at(after.view, b.windows, q) == slug_at(b.view, b.windows, q));
        lemma_selects(after, q);
    }
}

/// A key and the one against it undo each other, in either mode.
pub proof fn arrows_undo_each_other(b: BrowserV, down: Key, up: Key, height: u16, p: int)
    requires
        selects(b, p),
        is_pressed(down, Code::Down),
        is_pressed(up, Code::Up),
    ensures
        ({
            let there = key_taken(b, down, height).0;
            let back = key_taken(there, up, height).0;
            &&& selected_at(back.view, back.windows) == Some(p)
            &&& back.view.selected_slug == b.view.selected_slug
        }),
{
    let n = b.view.matches.len() as int;
    arrows_move_around_the_list(b, down, height, p);
    lemma_cycle(p, n);
    let q = (p + 1) % n;
    let there = key_taken(b, down, height).0;
    arrows_move_around_the_list(there, up, height, q);
    lemma_cycle(q, n);
    let back = key_taken(there, up, height).0;
    assert(slug_at(back.view, back.windows, p) == slug_at(b.view, b.windows, p));
}

/// What was moved to is shown, where it is not what was selected before.
pub proof fn movement_is_shown(b: BrowserV, key: Key, height: u16, p: int)
    requires
        selects(b, p),
        is_forward(b, key) || is_backward(b, key),
        b.view.matches.len() > 1,
    ensures
        ({
            let (after, effects) = key_taken(b, key, height);
            &&& effects.contains(EffectV::Redraw)
            &&& effects.contains(EffectV::Show(after.view.selected_slug->Some_0))
            &&& effects.len() == 2
            &&& after.view.selected_slug != b.view.selected_slug
        }),
{
    lemma_selects(b, p);
    arrows_move_around_the_list(b, key, height, p);
    let n = b.view.matches.len() as int;
    lemma_cycle(p, n);
    let q = if is_forward(b, key) {
        (p + 1) % n
    } else {
        (p + n - 1) % n
    };
    let (after, effects) = key_taken(b, key, height);
    lemma_other_slug(b, p, q);
    assert(slug_at(after.view, after.windows, q) == slug_at(b.view, b.windows, q));
    if b.view.query is Some {
        assert(effects[0] == EffectV::Redraw);
        assert(effects[1] == EffectV::Show(after.view.selected_slug->Some_0));
    } else {
        assert(effects[1] == EffectV::Redraw);
        assert(effects[0] == EffectV::Show(after.view.selected_slug->Some_0));
    }
}

proof fn lemma_other_slug(b: BrowserV, p: int, q: int)
    requires
        selects(b, p),
        0 <= q < b.view.matches.len(),
        p != q,
    ensures
        slug_at(b.view, b.windows, p) != slug_at(b.view, b.windows, q),
{
    lemma_selects(b, p);
    let x = b.view.matches[p] as int;
    let y = b.view.matches[q] as int;
    if p < q {
        assert(b.view.matches[p] != b.view.matches[q]);
    } else {
        assert(b.view.matches[q] != b.view.matches[p]);
    }
    if x < y {
        assert(b.windows[x].slug != b.windows[y].slug);
    } else {
        assert(b.windows[y].slug != b.windows[x].slug);
    }
}

/// The key goes to the top.
pub open spec fn is_home(b: BrowserV, key: Key) -> bool {
    is_pressed(key, Code::Home) || (b.view.query is None && is_pressed(key, Code::Char('g')))
}

/// The key goes to the end.
pub open spec fn is_end(b: BrowserV, key: Key) -> bool {
    is_pressed(key, Code::End) || (b.view.query is None && is_pressed(key, Code::Char('G')))
}

/// The first match is selected at the top of the list, the last one at its end.
pub proof fn ends_of_the_list_are_reached(b: BrowserV, key: Key, height: u16, p: int)
    requires
        selects(b, p),
        is_home(b, key) || is_end(b, key),
    ensures
        ({
            let (after, effects) = key_taken(b, key, height);
            let q = if is_home(b, key) {
                0
            } else {
                b.view.matches.len() - 1
            };
            &&& selects(after, q)
            &&& selected_at(after.view, after.windows) == Some(q)
            &&& after.view.matches == b.view.matches
            &&& after.view.query == b.view.query
            &&& effects.len() > 0
            &&& effects[0] == EffectV::Redraw
        }),
{
    lemma_selects(b, p);
    let q = if is_home(b, key) {
        0
    } else {
        b.view.matches.len() - 1
    };
    let v = ViewV { selected_slug: Some(slug_at(b.view, b.windows, q)), ..b.view };
    assert(slug_at(v, b.windows, q) == slug_at(b.view, b.windows, q));
    lemma_reconciled(b, v, q, rows_of(height));
    let after = key_taken(b, key, height).0;
    assert(slug_at(after.view, b.windows, q) == slug_at(b.view, b.windows, q));
    lemma_selects(after, q);
}

// ---------------------------------------------------------------------------
// Looking for something

/// What the list holds when something else is looked for: the windows that hold it, with the
/// selected one kept where it is still listed, and otherwise the first of the list.
pub open spec fn looks_for(b: BrowserV, after: BrowserV, query: Option<Seq<char>>) -> bool {
    &&& after.view.query == query
    &&& after.view.matches == found(b.windows, query)
    &&& after.windows == b.windows
    &&& after.view.matches.len() > 0 ==> after.view.selected_slug is Some && exists|i: int|
        0 <= i < after.view.matches.len() && #[trigger] slug_at(after.view, b.windows, i)
            == after.view.selected_slug->Some_0
    &&& (exists|i: int|
        0 <= i < after.view.matches.len() && Some(#[trigger] slug_at(after.view, b.windows, i))
            == b.view.selected_slug) ==> after.view.selected_slug == b.view.selected_slug
    &&& after.view.matches.len() > 0 && !(exists|i: int|
        0 <= i < after.view.matches.len() && Some(#[trigger] slug_at(after.view, b.windows, i))
            == b.view.selected_slug) ==> after.view.selected_slug == Some(
        slug_at(after.view, b.windows, 0),
    )
    &&& after.view.matches.len() == 0 ==> after.view.selected_slug == match b.view.selected_slug {
        Some(slug) => if has_slug(b.windows, slug) {
            Some(slug)
        } else {
            None
        },
        None => None,
    }
}

proof fn lemma_looks_for(b: BrowserV, query: Option<Seq<char>>, page: int)
    requires
        b.windows.len() <= usize::MAX,
    ensures
        looks_for(
            b,
            BrowserV { view: reconciled(ViewV { query, ..b.view }, b.windows, page), ..b },
            query,
        ),
{
    let v = ViewV { query, ..b.view };
    list_is_what_was_looked_for(b.windows, query);
    let listed = ViewV { matches: found(b.windows, query), ..v };
    let kept = ViewV {
        selected_slug: match v.selected_slug {
            Some(slug) if has_slug(b.windows, slug) => Some(slug),
            _ => None,
        },
        ..listed
    };
    let after = BrowserV { view: reconciled(v, b.windows, page), ..b };
    let n = kept.matches.len();
    assert(after.view.matches == kept.matches);
    assert forall|i: int| 0 <= i < n implies #[trigger] slug_at(after.view, b.windows, i) == slug_at(
        kept,
        b.windows,
        i,
    ) && has_slug(b.windows, slug_at(kept, b.windows, i)) by {
        assert(kept.matches[i] < b.windows.len());
        assert(b.windows[kept.matches[i] as int].slug == slug_at(kept, b.windows, i));
    }
    if kept.selected_slug is Some {
        lemma_place_among(kept, b.windows, kept.selected_slug->Some_0, n);
        if selected_at(kept, b.windows) is Some {
            let i = selected_at(kept, b.windows)->Some_0;
            assert(slug_at(after.view, b.windows, i) == slug_at(kept, b.windows, i));
        }
    }
    if n > 0 {
        assert(slug_at(after.view, b.windows, 0) == slug_at(kept, b.windows, 0));
    }
    if exists|i: int|
        0 <= i < after.view.matches.len() && Some(#[trigger] slug_at(after.view, b.windows, i))
            == b.view.selected_slug {
        let i = choose|i: int|
            0 <= i < after.view.matches.len() && Some(#[trigger] slug_at(after.view, b.windows, i))
                == b.view.selected_slug;
        assert(has_slug(b.windows, b.view.selected_slug->Some_0));
        assert(kept.selected_slug == b.view.selected_slug);
        assert(slug_at(kept, b.windows, i) == kept.selected_slug->Some_0);
    }
}

/// A slash begins to look for something, with nothing said yet.
pub proof fn slash_begins_to_look(b: BrowserV, key: Key, height: u16)
    requires
        b.windows.len() <= usize::MAX,
        b.view.query is None,
        is_pressed(key, Code::Char('/')),
        key.plain(),
    ensures
        looks_for(b, key_taken(b, key, height).0, Some(Seq::empty())),
{
    lemma_looks_for(b, Some(Seq::empty()), rows_of(height));
}

/// What is typed is put behind what is looked for.
pub proof fn typing_adds_a_character(b: BrowserV, key: Key, height: u16, query: Seq<char>, c: char)
    requires
        b.windows.len() <= usize::MAX,
        b.view.query == Some(query),
        is_pressed(key, Code::Char(c)),
        key.plain(),
        !is_control(c),
    ensures
        looks_for(b, key_taken(b, key, height).0, Some(query + seq![c])),
{
    lemma_looks_for(b, Some(query.push(c)), rows_of(height));
    assert(query.push(c) =~= query + seq![c]);
}

/// Backspace takes the last character away, where there is one.
pub proof fn backspace_takes_a_character(
    b: BrowserV,
    key: Key,
    height: u16,
    query: Seq<char>,
    c: char,
)
    requires
        b.windows.len() <= usize::MAX,
        is_pressed(key, Code::Backspace),
    ensures
        b.view.query == Some(query + seq![c]) ==> looks_for(
            b,
            key_taken(b, key, height).0,
            Some(query),
        ),
        b.view.query == Some(Seq::<char>::empty()) ==> looks_for(
            b,
            key_taken(b, key, height).0,
            Some(Seq::empty()),
        ),
{
    assert((query + seq![c]).drop_last() =~= query);
    lemma_looks_for(b, Some(query), rows_of(height));
    lemma_looks_for(b, Some(Seq::empty()), rows_of(height));
}

/// Escape ends the looking, and all windows are listed again.
pub proof fn escape_lists_all(b: BrowserV, key: Key, height: u16)
    requires
        b.windows.len() <= usize::MAX,
        b.view.query is Some,
        is_pressed(key, Code::Esc),
    ensures
        looks_for(b, key_taken(b, key, height).0, None),
        !key_taken(b, key, height).1.contains(EffectV::Quit),
{
    lemma_looks_for(b, None, rows_of(height));
}

/// Enter opens the window that is selected and goes into it; what was looked for is done with.
pub proof fn enter_goes_into_the_window(b: BrowserV, key: Key, height: u16, p: int)
    requires
        selects(b, p),
        is_pressed(key, Code::Enter),
    ensures
        ({
            let (after, effects) = key_taken(b, key, height);
            let n = effects.len() as int;
            &&& n >= 2
            &&& effects[n - 2] == EffectV::Show(slug_at(b.view, b.windows, p))
            &&& effects[n - 1] == EffectV::Focus
            &&& after.view.query is None
            &&& after.view.selected_slug == b.view.selected_slug
        }),
{
    lemma_selects(b, p);
    if b.view.query is Some {
        lemma_looks_for(b, None, rows_of(height));
        list_is_what_was_looked_for(b.windows, None);
        let after = key_taken(b, key, height).0;
        let i = b.view.matches[p] as int;
        assert(holds(b.windows[i], None));
        assert(found(b.windows, None).contains(i as usize));
        let k = choose|k: int|
            0 <= k < after.view.matches.len() && after.view.matches[k] == i as usize;
        assert(Some(slug_at(after.view, b.windows, k)) == b.view.selected_slug);
    }
}

/// Control and `c` quit, whatever is going on; escape and `q` quit where nothing is looked for, and
/// nothing else does.
pub proof fn quitting_needs_its_keys(b: BrowserV, key: Key, height: u16)
    requires
        key.kind == Kind::Press,
    ensures
        key.ctrl && (key.code == Code::Char('c') || key.code == Code::Char('C')) ==> key_taken(
            b,
            key,
            height,
        ) == (b, seq![EffectV::Quit]),
        b.view.query is None && (key.code == Code::Esc || key.code == Code::Char('q')) ==> key_taken(
            b,
            key,
            height,
        ) == (b, seq![EffectV::Quit]),
        key_taken(b, key, height).1.contains(EffectV::Quit) ==> (key.ctrl && (key.code
            == Code::Char('c') || key.code == Code::Char('C'))) || (b.view.query is None && (
        key.code == Code::Esc || key.code == Code::Char('q'))),
{
}

/// A key that is let go or held, and one that means nothing, changes nothing.
pub proof fn other_keys_do_nothing(b: BrowserV, key: Key, height: u16)
    ensures
        key.kind != Kind::Press ==> key_taken(b, key, height) == (b, Seq::<EffectV>::empty()),
        is_pressed(key, Code::Left) ==> key_taken(b, key, height) == (b, Seq::<EffectV>::empty()),
{
}

/// The window that is selected and listed.
pub open spec fn listed(b: BrowserV) -> Option<Seq<char>> {
    match b.view.selected_slug {
        Some(slug) => if exists|i: int|
            0 <= i < b.view.matches.len() && #[trigger] slug_at(b.view, b.windows, i) == slug {
            Some(slug)
        } else {
            None
        },
        None => None,
    }
}

proof fn lemma_listed(b: BrowserV)
    ensures
        crate::view::effective(b.view, b.windows) == listed(b),
{
    if b.view.selected_slug is Some {
        let slug = b.view.selected_slug->Some_0;
        lemma_place_among(b.view, b.windows, slug, b.view.matches.len());
        if selected_at(b.view, b.windows) is Some {
            let i = selected_at(b.view, b.windows)->Some_0;
            assert(slug_at(b.view, b.windows, i) == slug);
        }
    }
}

/// The list is drawn, and where another window is selected than before that one is shown.
pub open spec fn draws(before: BrowserV, after: BrowserV, effects: Seq<EffectV>) -> bool {
    effects == if listed(after) != listed(before) && listed(after) is Some {
        seq![EffectV::Redraw, EffectV::Show(listed(after)->Some_0)]
    } else {
        seq![EffectV::Redraw]
    }
}

/// Every key that changes what is looked for draws the list, and shows what is selected now where
/// that is another window.
pub proof fn looking_shows_what_is_selected(b: BrowserV, key: Key, height: u16, c: char)
    requires
        key.kind == Kind::Press,
        (b.view.query is None && key.code == Code::Char('/') && key.plain()) || (b.view.query
            is Some && (key.code == Code::Esc || key.code == Code::Backspace || (key.code
            == Code::Char(c) && key.plain() && !is_control(c)))),
    ensures
        draws(b, key_taken(b, key, height).0, key_taken(b, key, height).1),
{
    lemma_listed(b);
    lemma_listed(key_taken(b, key, height).0);
}

/// Where nothing is found, Enter opens the window that was selected before, if there is one.
pub proof fn enter_opens_what_was_selected(b: BrowserV, key: Key, height: u16, slug: Seq<char>)
    requires
        b.view.query is Some,
        b.view.matches.len() == 0,
        b.view.selected_slug == Some(slug),
        is_pressed(key, Code::Enter),
    ensures
        has_slug(b.windows, slug) ==> key_taken(b, key, height).1 == seq![
            EffectV::Redraw,
            EffectV::Show(slug),
            EffectV::Focus,
        ],
        !has_slug(b.windows, slug) ==> key_taken(b, key, height).1 == seq![EffectV::Redraw],
        key_taken(b, key, height).0.view.query is None,
{
}

/// Whatever comes from outside and changes the list draws it, and shows what is selected now where
/// that is another window.
pub proof fn changes_are_drawn(
    b: BrowserV,
    thread_id: Seq<char>,
    status: StatusV,
    turn_id: Seq<char>,
    summary: Result<SummaryPayload, String>,
    height: u16,
    at: int,
)
    requires
        is_first_of(b.windows, thread_id, at),
    ensures
        ({
            let (after, effects) = status_taken(b, thread_id, status, height);
            if b.windows[at].status != StatusV::Idle && status == StatusV::Idle {
                draws(b, after, effects.drop_last())
            } else {
                draws(b, after, effects)
            }
        }),
        ({
            let (after, effects) = summary_done(b, thread_id, turn_id, summary, height);
            effects.len() > 0 ==> draws(b, after, effects.skip(1))
        }),
{
    lemma_place_of_thread(b.windows, thread_id, at);
    let (after, effects) = status_taken(b, thread_id, status, height);
    lemma_listed(b);
    lemma_listed(after);
    if b.windows[at].status != StatusV::Idle && status == StatusV::Idle {
        let plain = BrowserV { request_id: b.request_id, ..after };
        lemma_listed(plain);
        assert(listed(plain) == listed(after));
        let drawn = if listed(after) != listed(b) && listed(after) is Some {
            seq![EffectV::Redraw, EffectV::Show(listed(after)->Some_0)]
        } else {
            seq![EffectV::Redraw]
        };
        assert(effects.drop_last() =~= drawn);
    }
    let (done, told) = summary_done(b, thread_id, turn_id, summary, height);
    lemma_listed(done);
    if told.len() > 0 {
        let drawn = if listed(done) != listed(b) && listed(done) is Some {
            seq![EffectV::Redraw, EffectV::Show(listed(done)->Some_0)]
        } else {
            seq![EffectV::Redraw]
        };
        assert(told.skip(1) =~= drawn);
    }
}

// ---------------------------------------------------------------------------
// What the list shows

/// A list is not moved while what is selected is visible in it and it is filled.
pub proof fn visible_selection_moves_nothing(selected: int, offset: int, page: int, count: int)
    requires
        0 <= selected < count <= usize::MAX,
        0 < page,
        0 <= offset <= selected < offset + page,
        offset + page <= count,
    ensures
        visible_from(Some(selected), offset, page, count) == offset,
{
}

/// A selection above what is visible becomes the first row, one below it the last.
pub proof fn list_moves_no_more_than_it_must(selected: int, offset: int, page: int, count: int)
    requires
        0 <= selected < count <= usize::MAX,
        0 < page,
        0 <= offset,
        offset + page <= count,
    ensures
        selected < offset ==> visible_from(Some(selected), offset, page, count) == selected,
        selected >= offset + page ==> visible_from(Some(selected), offset, page, count) == selected
            - page + 1,
{
}

/// Two rows are not for windows.
pub proof fn two_rows_are_kept_free(height: u16)
    ensures
        height >= 2 ==> rows_of(height) + 2 == height,
        height < 2 ==> rows_of(height) == 0,
{
}

/// Another height changes which rows are visible and nothing else.
pub proof fn resizing_moves_rows_only(b: BrowserV, height: u16)
    ensures
        ({
            let (after, effects) = resized(b, height);
            &&& after == (BrowserV {
                view: ViewV { offset: after.view.offset, ..b.view },
                ..b
            })
            &&& effects == seq![EffectV::Redraw]
        }),
{
}

// ---------------------------------------------------------------------------
// What the server tells

/// How a thread stands is shown by its window; one that becomes active comes first, and otherwise
/// no window changes its place. Nothing else about any window changes.
pub proof fn status_is_shown(
    b: BrowserV,
    thread_id: Seq<char>,
    status: StatusV,
    height: u16,
    at: int,
)
    requires
        is_first_of(b.windows, thread_id, at),
        b.windows[at].status is Active || !(status is Active),
    ensures
        ({
            let after = status_taken(b, thread_id, status, height).0;
            &&& after.windows == b.windows.update(at, WindowV { status, ..b.windows[at] })
            &&& after.held == b.held
            &&& after.attempted == b.attempted
        }),
{
    lemma_place_of_thread(b.windows, thread_id, at);
}

/// The latest turn of a thread is asked for when it becomes idle, and then only: by the next
/// number, and with how often its status has changed by now.
pub proof fn idle_thread_is_looked_up(
    b: BrowserV,
    thread_id: Seq<char>,
    status: StatusV,
    height: u16,
    at: int,
)
    requires
        is_first_of(b.windows, thread_id, at),
        generation_of(b.generations, thread_id) < u64::MAX,
    ensures
        ({
            let (after, effects) = status_taken(b, thread_id, status, height);
            let generation = (generation_of(b.generations, thread_id) + 1) as u64;
            &&& after.generations.contains_key(thread_id)
            &&& after.generations[thread_id] == generation
            &&& forall|other: Seq<char>|
                other != thread_id ==> generation_of(after.generations, other) == generation_of(
                    b.generations,
                    other,
                )
            &&& if b.windows[at].status != StatusV::Idle && status == StatusV::Idle {
                &&& after.request_id == b.request_id + 1
                &&& effects.last() == (EffectV::Lookup {
                    thread_id,
                    generation,
                    request_id: b.request_id,
                })
            } else {
                &&& after.request_id == b.request_id
                &&& forall|k: int| 0 <= k < effects.len() ==> !(#[trigger] effects[k] is Lookup)
            }
        }),
{
    lemma_place_of_thread(b.windows, thread_id, at);
}

/// A thread that is not listed is passed over.
pub proof fn unknown_thread_is_passed_over(
    b: BrowserV,
    thread_id: Seq<char>,
    status: StatusV,
    height: u16,
)
    requires
        forall|i: int|
            0 <= i < b.windows.len() ==> (#[trigger] b.windows[i]).thread_id != thread_id,
    ensures
        status_taken(b, thread_id, status, height) == (b, Seq::<EffectV>::empty()),
{
    lemma_nowhere(b.windows, thread_id);
}

proof fn lemma_nowhere(windows: Seq<WindowV>, thread_id: Seq<char>)
    requires
        forall|i: int| 0 <= i < windows.len() ==> (#[trigger] windows[i]).thread_id != thread_id,
    ensures
        place_of_thread(windows, thread_id) == windows.len(),
    decreases windows.len(),
{
    if windows.len() > 0 {
        assert(windows[0].thread_id != thread_id);
        let rest = windows.skip(1);
        assert forall|i: int| 0 <= i < rest.len() implies (#[trigger] rest[i]).thread_id
            != thread_id by {
            assert(rest[i] == windows[i + 1]);
        }
        lemma_nowhere(rest, thread_id);
    }
}

/// The window that becomes active is taken for more recent than every other, by one; the others
/// stay as recent as they were.
pub proof fn active_window_is_most_recent(
    b: BrowserV,
    thread_id: Seq<char>,
    status: StatusV,
    height: u16,
    at: int,
)
    requires
        is_first_of(b.windows, thread_id, at),
        !(b.windows[at].status is Active),
        status is Active,
    ensures
        ({
            let after = status_taken(b, thread_id, status, height).0;
            let top = latest(b.windows)->Some_0;
            let raised = b.windows.update(
                at,
                WindowV { status, recency_at: top + 1, ..b.windows[at] },
            );
            &&& after.windows.to_multiset() == raised.to_multiset()
            &&& after.windows.len() == b.windows.len()
            &&& forall|i: int| 0 <= i < b.windows.len() ==> (#[trigger] b.windows[i]).recency_at
                <= top
            &&& exists|i: int| 0 <= i < b.windows.len() && (#[trigger] b.windows[i]).recency_at
                == top
        }),
{
    lemma_place_of_thread(b.windows, thread_id, at);
    let now = b.windows.update(at, WindowV { status, ..b.windows[at] });
    lemma_same_latest(now, b.windows);
    lemma_top(b.windows);
    let top = latest(b.windows)->Some_0;
    let raised = now.update(at, WindowV { recency_at: top + 1, ..now[at] });
    assert(raised =~= b.windows.update(
        at,
        WindowV { status, recency_at: top + 1, ..b.windows[at] },
    ));
    sorting_orders_and_keeps(raised);
}

proof fn lemma_same_latest(a: Seq<WindowV>, b: Seq<WindowV>)
    requires
        a.len() == b.len(),
        forall|i: int| 0 <= i < a.len() ==> (#[trigger] a[i]).recency_at == b[i].recency_at,
    ensures
        latest(a) == latest(b),
    decreases a.len(),
{
    if a.len() > 0 {
        let x = a.drop_last();
        let y = b.drop_last();
        assert forall|i: int| 0 <= i < x.len() implies (#[trigger] x[i]).recency_at
            == y[i].recency_at by {
            assert(a[i].recency_at == b[i].recency_at);
        }
        lemma_same_latest(x, y);
        assert(a[a.len() - 1].recency_at == b[a.len() - 1].recency_at);
    }
}

proof fn lemma_top(windows: Seq<WindowV>)
    requires
        windows.len() > 0,
    ensures
        latest(windows) is Some,
        forall|i: int|
            0 <= i < windows.len() ==> (#[trigger] windows[i]).recency_at <= latest(
                windows,
            )->Some_0,
        exists|i: int|
            0 <= i < windows.len() && (#[trigger] windows[i]).recency_at == latest(
                windows,
            )->Some_0,
    decreases windows.len(),
{
    let init = windows.drop_last();
    if init.len() > 0 {
        lemma_top(init);
        let i = choose|i: int|
            0 <= i < init.len() && (#[trigger] init[i]).recency_at == latest(init)->Some_0;
        assert(windows[i] == init[i]);
        assert forall|k: int| 0 <= k < windows.len() implies (#[trigger] windows[k]).recency_at
            <= latest(windows)->Some_0 by {
            if k < init.len() {
                assert(init[k] == windows[k]);
            }
        }
    }
    assert(windows[windows.len() - 1] == windows.last());
}

/// A new list takes the place of the old one, and what was asked about threads before does not
/// count any more.
pub proof fn reloading_replaces_the_list(
    b: BrowserV,
    next: Seq<WindowV>,
    height: u16,
    thread_id: Seq<char>,
)
    ensures
        reloaded(b, next, height).0.windows == next,
        reloaded(b, next, height).0.held == b.held,
        next != b.windows ==> reloaded(b, next, height).1.contains(EffectV::Redraw),
        b.generations.contains_key(thread_id) && b.generations[thread_id] < u64::MAX
            ==> generation_of(reloaded(b, next, height).0.generations, thread_id)
            == b.generations[thread_id] + 1,
{
    if next != b.windows {
        assert(reloaded(b, next, height).1[0] == EffectV::Redraw);
    }
}

/// What is asked for when the list has changed: the summaries of the turns that wait for one and
/// were not asked for before.
pub proof fn reloading_asks_for_summaries(
    b: BrowserV,
    next: Seq<WindowV>,
    height: u16,
    key: (Seq<char>, Seq<char>),
)
    ensures
        reloaded(b, next, height).1.contains(EffectV::Summarize(key.0, key.1)) <==> !(
        b.attempted.contains(key)) && exists|i: int|
            0 <= i < next.len() && waits(#[trigger] next[i], key),
        reloaded(b, next, height).0.attempted.contains(key) <==> b.attempted.contains(key) || exists|
            i: int,
        |
            0 <= i < next.len() && waits(#[trigger] next[i], key),
{
    each_waiting_turn_is_asked_for_once(next, b.attempted);
    let (after, effects) = reloaded(b, next, height);
    let (attempted, jobs) = crate::window::all_scheduled(next, b.attempted, Seq::empty());
    let all = crate::browser::summarize_all(jobs);
    let head = effects.take(effects.len() - all.len());
    assert(effects =~= head + all);
    let wanted = EffectV::Summarize(key.0, key.1);
    if effects.contains(wanted) {
        let k = choose|k: int| 0 <= k < effects.len() && effects[k] == wanted;
        if k < head.len() {
            assert(!(head[k] is Summarize));
        }
        assert(jobs[k - head.len()] == key);
        assert(jobs.contains(key));
    }
    if jobs.contains(key) {
        let k = choose|k: int| 0 <= k < jobs.len() && jobs[k] == key;
        assert(effects[head.len() + k] == wanted);
    }
}

/// What is found out about a thread in time is shown; its turn is summarized where it waits for that
/// and was not asked for before.
pub proof fn lookup_is_shown(
    b: BrowserV,
    thread_id: Seq<char>,
    generation: u64,
    turn: Option<Seq<char>>,
    height: u16,
    at: int,
)
    requires
        is_first_of(b.windows, thread_id, at),
        b.windows[at].status == StatusV::Idle,
        b.generations.contains_key(thread_id),
        b.generations[thread_id] == generation,
    ensures
        ({
            let (after, effects) = lookup_taken(b, thread_id, generation, Some(turn), height);
            &&& after.windows[at].completed_turn_id == turn
            &&& forall|i: int|
                0 <= i < b.windows.len() && i != at ==> after.windows[i] == b.windows[i]
            &&& effects.len() > 0
            &&& effects[0] == EffectV::Redraw
            &&& turn matches Some(id) ==> b.windows[at].completed_turn_id != turn
                && !b.attempted.contains((thread_id, id)) ==> effects.last()
                == EffectV::Summarize(thread_id, id) && after.attempted.contains((thread_id, id))
        }),
{
    found_turn_is_taken(b.windows, b.generations, thread_id, generation, turn, at);
    let (after, effects) = lookup_taken(b, thread_id, generation, Some(turn), height);
    if turn is Some && b.windows[at].completed_turn_id != turn && !b.attempted.contains(
        (thread_id, turn->Some_0),
    ) {
        let w = after.windows[at];
        let (attempted, jobs) = crate::window::scheduled(w, b.attempted, Seq::empty());
        assert(jobs =~= seq![(thread_id, turn->Some_0)]);
        let all = crate::browser::summarize_all(jobs);
        assert(all.len() == 1);
        assert(effects.last() == all[0]);
    }
}

/// A summary that comes in time is saved, and drawn.
pub proof fn summary_is_saved(
    b: BrowserV,
    thread_id: Seq<char>,
    turn_id: Seq<char>,
    summary: Result<SummaryPayload, String>,
    height: u16,
)
    ensures
        ({
            let (after, effects) = summary_done(b, thread_id, turn_id, summary, height);
            let (windows, held, taken) = crate::window::summary_taken(
                b.windows,
                b.held,
                thread_id,
                turn_id,
                summary,
            );
            &&& taken ==> after.windows == windows && after.held == held && effects[0]
                == EffectV::SaveCache && effects[1] == EffectV::Redraw
            &&& !taken ==> after == b && effects.len() == 0
        }),
{
}

} // verus!
