//! Which of the windows are listed, which one is selected, and which part of the list is visible.

use vstd::prelude::*;

use crate::chars::{contains, opt_str, opt_text, same, stands_at, text_contains};
use crate::window::{description, displayed_description, windows_view, Window, WindowV};

verus! {

// ---------------------------------------------------------------------------
// Finding

/// The lower case of a text, as `str::to_lowercase` gives it.
pub uninterp spec fn lowercase(s: Seq<char>) -> Seq<char>;

/// All characters are in ASCII.
pub open spec fn is_ascii_text(s: Seq<char>) -> bool {
    forall|i: int| 0 <= i < s.len() ==> #[trigger] s[i] <= '\u{7f}'
}

pub open spec fn lower_letter(c: char) -> char {
    if 'A' <= c <= 'Z' {
        (c as int + 32) as char
    } else {
        c
    }
}

/// The letters from A to Z in lower case, the rest as it stands.
pub open spec fn lower_letters(s: Seq<char>) -> Seq<char> {
    s.map_values(|c: char| lower_letter(c))
}

/// `str::to_lowercase`: the lower case of the text by the rules of Unicode, which depend on the
/// text alone. In a text in ASCII the letters from A to Z become those from a to z, and nothing
/// else changes.
#[verifier::external_body]
fn to_lowercase(s: &str) -> (out: String)
    ensures
        out@ == lowercase(s@),
        is_ascii_text(s@) ==> out@ == lower_letters(s@),
{
    s.to_lowercase()
}

/// A text that is looked for is a part of a slug or of a description.
pub open spec fn is_part(slug: Seq<char>, description: Seq<char>, query: Seq<char>) -> bool {
    contains(slug, query) || contains(description, query)
}

/// Whether a text that is looked for is a part of a slug or of a description, all of them in lower
/// case already.
pub fn is_part_of(slug: &str, description: &str, query: &str) -> (out: bool)
    ensures
        out == is_part(slug@, description@, query@),
{
    text_contains(slug, query) || text_contains(description, query)
}

/// A window is found by a part of its slug or of what is shown of it, in upper or lower case. The
/// query is in lower case already.
pub open spec fn is_found(w: WindowV, low: Option<Seq<char>>) -> bool {
    match low {
        None => true,
        Some(q) => is_part(lowercase(w.slug), lowercase(description(w)), q),
    }
}

/// The slug and what is shown of a window are in ASCII.
pub open spec fn in_ascii(w: WindowV) -> bool {
    is_ascii_text(w.slug) && is_ascii_text(description(w))
}

/// The places of the windows that are found by a query in lower case, among the first `n`.
pub open spec fn found_in(windows: Seq<WindowV>, low: Option<Seq<char>>, n: nat) -> Seq<usize>
    decreases n,
{
    if n == 0 {
        Seq::empty()
    } else {
        let before = found_in(windows, low, (n - 1) as nat);
        if is_found(windows[n - 1], low) {
            before.push((n - 1) as usize)
        } else {
            before
        }
    }
}

/// The places of the windows that are found by a query in lower case.
pub open spec fn found_by(windows: Seq<WindowV>, low: Option<Seq<char>>) -> Seq<usize> {
    found_in(windows, low, windows.len())
}

pub open spec fn lowered(query: Option<Seq<char>>) -> Option<Seq<char>> {
    match query {
        Some(q) => Some(lowercase(q)),
        None => None,
    }
}

/// The places of the windows that are found.
pub open spec fn found(windows: Seq<WindowV>, query: Option<Seq<char>>) -> Seq<usize> {
    found_by(windows, lowered(query))
}

proof fn lemma_found_in(windows: Seq<WindowV>, low: Option<Seq<char>>, n: nat)
    requires
        n <= windows.len() <= usize::MAX,
    ensures
        forall|i: int|
            0 <= i < found_in(windows, low, n).len() ==> #[trigger] found_in(windows, low, n)[i]
                < n,
        found_in(windows, low, n).len() <= n,
    decreases n,
{
    if n > 0 {
        lemma_found_in(windows, low, (n - 1) as nat);
    }
}

pub fn matching_indices(windows: &Vec<Window>, query: Option<&str>) -> (out: Vec<usize>)
    ensures
        out@ == found(windows_view(windows@), opt_str(query)),
        query matches Some(q) ==> is_ascii_text(q@) ==> out@ == found_by(
            windows_view(windows@),
            Some(lower_letters(q@)),
        ),
        query is Some ==> forall|i: int, low: Seq<char>|
            0 <= i < windows@.len() && in_ascii(windows@[i]@) ==> #[trigger] is_found(
                windows_view(windows@)[i],
                Some(low),
            ) == is_part(
                lower_letters(windows@[i].slug@),
                lower_letters(description(windows@[i]@)),
                low,
            ),
        forall|i: int| 0 <= i < out@.len() ==> #[trigger] out@[i] < windows@.len(),
{
    let ghost vs = windows_view(windows@);
    let low = match query {
        Some(q) => Some(to_lowercase(q)),
        None => None,
    };
    let mut out: Vec<usize> = Vec::new();
    let mut i: usize = 0;
    while i < windows.len()
        invariant
            i <= windows.len(),
            vs == windows_view(windows@),
            opt_text(low) == lowered(opt_str(query)),
            out@ == found_in(vs, lowered(opt_str(query)), i as nat),
            query is Some ==> forall|k: int|
                0 <= k < i && in_ascii(#[trigger] vs[k]) ==> lowercase(vs[k].slug)
                    == lower_letters(vs[k].slug) && lowercase(description(vs[k]))
                    == lower_letters(description(vs[k])),
        decreases windows.len() - i,
    {
        assert(vs[i as int] == windows@[i as int]@);
        let hit = match &low {
            Some(q) => is_part_of(
                to_lowercase(windows[i].slug.as_str()).as_str(),
                to_lowercase(displayed_description(&windows[i]).as_str()).as_str(),
                q.as_str(),
            ),
            None => true,
        };
        if hit {
            out.push(i);
        }
        i += 1;
    }
    proof {
        lemma_found_in(vs, lowered(opt_str(query)), vs.len());
    }
    out
}

proof fn lemma_longer_part(s: Seq<char>, query: Seq<char>, more: Seq<char>)
    ensures
        contains(s, query + more) ==> contains(s, query),
        contains(s, Seq::empty()),
{
    assert(stands_at(s, Seq::empty(), 0)) by {
        assert(s.subrange(0, 0) =~= Seq::<char>::empty());
    }
    if contains(s, query + more) {
        let i = choose|i: int| stands_at(s, query + more, i);
        let whole = s.subrange(i, i + (query + more).len());
        assert(s.subrange(i, i + query.len()) =~= whole.take(query.len() as int));
        assert((query + more).take(query.len() as int) =~= query);
        assert(stands_at(s, query, i));
    }
}

proof fn lemma_narrowed(windows: Seq<WindowV>, low: Seq<char>, more: Seq<char>, n: nat)
    requires
        n <= windows.len() <= usize::MAX,
    ensures
        found_in(windows, Some(low + more), n) == found_in(windows, Some(low), n).filter(
            |i: usize| is_found(windows[i as int], Some(low + more)),
        ),
    decreases n,
{
    reveal(Seq::filter);
    if n > 0 {
        let w = windows[n - 1];
        lemma_narrowed(windows, low, more, (n - 1) as nat);
        lemma_longer_part(lowercase(w.slug), low, more);
        lemma_longer_part(lowercase(description(w)), low, more);
        let before = found_in(windows, Some(low), (n - 1) as nat);
        assert(before.push((n - 1) as usize).drop_last() =~= before);
    }
}

/// Typing more only narrows the list: of the windows that were found those stay, in their order,
/// that the longer query finds. The queries are in lower case.
pub proof fn longer_query_narrows(windows: Seq<WindowV>, low: Seq<char>, more: Seq<char>)
    requires
        windows.len() <= usize::MAX,
    ensures
        found_by(windows, Some(low + more)) == found_by(windows, Some(low)).filter(
            |i: usize| is_found(windows[i as int], Some(low + more)),
        ),
        forall|i: usize| #[trigger]
            found_by(windows, Some(low + more)).contains(i) ==> found_by(
                windows,
                Some(low),
            ).contains(i),
{
    lemma_narrowed(windows, low, more, windows.len());
    let longer = |i: usize| is_found(windows[i as int], Some(low + more));
    assert forall|i: usize| #[trigger]
        found_by(windows, Some(low + more)).contains(i) implies found_by(
        windows,
        Some(low),
    ).contains(i) by {
        found_by(windows, Some(low)).lemma_filter_contains_rev(longer, i);
    }
}

proof fn lemma_all_found(windows: Seq<WindowV>, n: nat)
    ensures
        found_in(windows, Some(Seq::empty()), n) == found_in(windows, None, n),
    decreases n,
{
    if n > 0 {
        lemma_all_found(windows, (n - 1) as nat);
        lemma_longer_part(lowercase(windows[n - 1].slug), Seq::empty(), Seq::empty());
    }
}

/// An empty query finds all windows, as none does.
pub proof fn empty_query_finds_all(windows: Seq<WindowV>)
    ensures
        found_by(windows, Some(Seq::empty())) == found_by(windows, None),
        found_by(windows, Some(lower_letters(Seq::empty()))) == found_by(windows, None),
{
    lemma_all_found(windows, windows.len());
    assert(lower_letters(Seq::empty()) =~= Seq::<char>::empty());
}

/// Typing more in ASCII only narrows the list.
pub proof fn typing_narrows(windows: Seq<WindowV>, query: Seq<char>, more: Seq<char>)
    requires
        windows.len() <= usize::MAX,
        is_ascii_text(query),
        is_ascii_text(more),
    ensures
        is_ascii_text(query + more),
        found_by(windows, Some(lower_letters(query + more))) == found_by(
            windows,
            Some(lower_letters(query)),
        ).filter(|i: usize| is_found(windows[i as int], Some(lower_letters(query + more)))),
{
    assert(lower_letters(query + more) =~= lower_letters(query) + lower_letters(more));
    longer_query_narrows(windows, lower_letters(query), lower_letters(more));
}

/// Two queries in ASCII that differ in upper and lower case alone find the same windows.
pub proof fn case_does_not_matter(windows: Seq<WindowV>, query: Seq<char>, other: Seq<char>)
    requires
        is_ascii_text(query),
        is_ascii_text(other),
        query.len() == other.len(),
        forall|i: int|
            0 <= i < query.len() ==> lower_letter(#[trigger] query[i]) == lower_letter(other[i]),
    ensures
        found_by(windows, Some(lower_letters(query))) == found_by(
            windows,
            Some(lower_letters(other)),
        ),
{
    assert(lower_letters(query) =~= lower_letters(other));
}

// ---------------------------------------------------------------------------
// What is visible

/// How many rows of the list a screen of the given height shows.
pub open spec fn rows_of(height: u16) -> int {
    if height < 2 {
        0
    } else {
        height - 2
    }
}

pub fn visible_rows(height: u16) -> (out: usize)
    ensures
        out == rows_of(height),
{
    if height < 2 {
        0
    } else {
        (height - 2) as usize
    }
}

pub open spec fn smaller(a: int, b: int) -> int {
    if a < b {
        a
    } else {
        b
    }
}

/// A number of rows, or the greatest one that can be held.
pub open spec fn capped(n: int) -> int {
    smaller(n, usize::MAX as int)
}

/// The first visible row, moved no further than is needed for the selected row to be visible.
pub open spec fn moved(selected: int, offset: int, page: int) -> int {
    if selected < offset {
        selected
    } else if selected >= capped(offset + page) {
        if capped(selected + 1) < page {
            0
        } else {
            capped(selected + 1) - page
        }
    } else {
        offset
    }
}

fn capped_sum(a: usize, b: usize) -> (out: usize)
    ensures
        out == capped(a + b),
{
    if b <= usize::MAX - a {
        a + b
    } else {
        usize::MAX
    }
}

pub fn keep_visible(selected: usize, offset: usize, page: usize) -> (out: usize)
    ensures
        out == moved(selected as int, offset as int, page as int),
{
    if selected < offset {
        selected
    } else if selected >= capped_sum(offset, page) {
        let after = capped_sum(selected, 1);
        if after < page {
            0
        } else {
            after - page
        }
    } else {
        offset
    }
}

/// The first visible row of a list of matches: the list ends at the bottom of the screen where it
/// is longer than the screen, and the selected match is visible.
pub open spec fn visible_from(selected: Option<int>, offset: int, page: int, count: int) -> int {
    if count == 0 || page == 0 {
        0
    } else {
        let last = if count < page {
            0
        } else {
            count - page
        };
        let offset = smaller(offset, last);
        match selected {
            Some(selected) => smaller(moved(selected, offset, page), last),
            None => offset,
        }
    }
}

pub fn keep_match_visible(
    selected: Option<usize>,
    offset: usize,
    page: usize,
    match_count: usize,
) -> (out: usize)
    ensures
        out == visible_from(
            match selected {
                Some(s) => Some(s as int),
                None => None,
            },
            offset as int,
            page as int,
            match_count as int,
        ),
{
    if match_count == 0 || page == 0 {
        return 0;
    }
    let max_offset: usize = if match_count < page {
        0
    } else {
        match_count - page
    };
    let offset: usize = if offset < max_offset {
        offset
    } else {
        max_offset
    };
    match selected {
        Some(selected) => {
            let kept = keep_visible(selected, offset, page);
            if kept < max_offset {
                kept
            } else {
                max_offset
            }
        },
        None => offset,
    }
}

/// The selected match is visible wherever the list stood before.
pub proof fn selected_match_is_visible(selected: int, offset: int, page: int, count: int)
    requires
        0 <= selected < count <= usize::MAX,
        0 <= offset,
        0 < page,
    ensures
        ({
            let from = visible_from(Some(selected), offset, page, count);
            &&& 0 <= from <= selected < from + page
            &&& count <= page ==> from == 0
            &&& count > page ==> from + page <= count
        }),
{
}

/// Once the selected match is visible the list does not move.
pub proof fn visible_list_stays(selected: Option<int>, offset: int, page: int, count: int)
    requires
        0 <= offset,
        0 <= page,
        selected matches Some(s) ==> 0 <= s < count,
        0 <= count <= usize::MAX,
    ensures
        ({
            let from = visible_from(selected, offset, page, count);
            visible_from(selected, from, page, count) == from
        }),
{
}

// ---------------------------------------------------------------------------
// The view

#[derive(Debug)]
pub struct ViewState {
    /// What is looked for; none while nothing is.
    pub query: Option<String>,
    pub selected_slug: Option<String>,
    /// The places of the windows that are listed.
    pub matches: Vec<usize>,
    /// The first visible row.
    pub offset: usize,
}

pub struct ViewV {
    pub query: Option<Seq<char>>,
    pub selected_slug: Option<Seq<char>>,
    pub matches: Seq<usize>,
    pub offset: int,
}

impl View for ViewState {
    type V = ViewV;

    open spec fn view(&self) -> ViewV {
        ViewV {
            query: opt_text(self.query),
            selected_slug: opt_text(self.selected_slug),
            matches: self.matches@,
            offset: self.offset as int,
        }
    }
}

/// The matches are places of windows.
pub open spec fn fits(v: ViewV, windows: Seq<WindowV>) -> bool {
    forall|i: int| 0 <= i < v.matches.len() ==> (#[trigger] v.matches[i]) < windows.len()
}

/// The slug of a match.
pub open spec fn slug_at(v: ViewV, windows: Seq<WindowV>, i: int) -> Seq<char> {
    windows[v.matches[i] as int].slug
}

/// The place among the first `n` matches of the first one with the slug.
pub open spec fn place_among(v: ViewV, windows: Seq<WindowV>, slug: Seq<char>, n: nat) -> Option<int>
    decreases n,
{
    if n == 0 {
        None
    } else {
        match place_among(v, windows, slug, (n - 1) as nat) {
            Some(i) => Some(i),
            None => if slug_at(v, windows, n - 1) == slug {
                Some(n - 1)
            } else {
                None
            },
        }
    }
}

/// The place of the selected window among the matches.
pub open spec fn selected_at(v: ViewV, windows: Seq<WindowV>) -> Option<int> {
    match v.selected_slug {
        Some(slug) => place_among(v, windows, slug, v.matches.len()),
        None => None,
    }
}

pub proof fn lemma_place_among(v: ViewV, windows: Seq<WindowV>, slug: Seq<char>, n: nat)
    ensures
        place_among(v, windows, slug, n) matches Some(i) ==> 0 <= i < n && slug_at(v, windows, i)
            == slug,
        place_among(v, windows, slug, n) is None ==> forall|j: int|
            0 <= j < n ==> slug_at(v, windows, j) != slug,
    decreases n,
{
    if n > 0 {
        lemma_place_among(v, windows, slug, (n - 1) as nat);
    }
}

/// The slug that is selected and listed.
pub open spec fn effective(v: ViewV, windows: Seq<WindowV>) -> Option<Seq<char>> {
    match selected_at(v, windows) {
        Some(i) => Some(slug_at(v, windows, i)),
        None => None,
    }
}

pub open spec fn has_slug(windows: Seq<WindowV>, slug: Seq<char>) -> bool {
    exists|i: int| 0 <= i < windows.len() && (#[trigger] windows[i]).slug == slug
}

/// Brings the selected match into the visible part.
pub open spec fn shown(v: ViewV, windows: Seq<WindowV>, page: int) -> ViewV {
    ViewV {
        offset: visible_from(selected_at(v, windows), v.offset, page, v.matches.len() as int),
        ..v
    }
}

/// Lists the windows anew. A selection stays while its window is there, listed or not; where it is
/// not listed and others are, the first of them is selected.
pub open spec fn reconciled(v: ViewV, windows: Seq<WindowV>, page: int) -> ViewV {
    let listed = ViewV { matches: found(windows, v.query), ..v };
    let kept = ViewV {
        selected_slug: match v.selected_slug {
            Some(slug) if has_slug(windows, slug) => Some(slug),
            _ => None,
        },
        ..listed
    };
    let selected = if kept.matches.len() > 0 && selected_at(kept, windows) is None {
        ViewV { selected_slug: Some(slug_at(kept, windows, 0)), ..kept }
    } else {
        kept
    };
    shown(selected, windows, page)
}

/// Moves the selection to the next match or the one before, from one end of the list to the other.
pub open spec fn stepped(v: ViewV, windows: Seq<WindowV>, forward: bool) -> ViewV {
    let n = v.matches.len() as int;
    if n == 0 {
        v
    } else {
        let next = match (forward, selected_at(v, windows)) {
            (true, Some(i)) => if i + 1 == n {
                0
            } else {
                i + 1
            },
            (true, None) => 0,
            (false, Some(i)) => if i == 0 {
                n - 1
            } else {
                i - 1
            },
            (false, None) => n - 1,
        };
        ViewV { selected_slug: Some(slug_at(v, windows, next)), ..v }
    }
}

pub open spec fn at_first(v: ViewV, windows: Seq<WindowV>) -> ViewV {
    if v.matches.len() == 0 {
        v
    } else {
        ViewV { selected_slug: Some(slug_at(v, windows, 0)), ..v }
    }
}

pub open spec fn at_last(v: ViewV, windows: Seq<WindowV>) -> ViewV {
    if v.matches.len() == 0 {
        v
    } else {
        ViewV { selected_slug: Some(slug_at(v, windows, v.matches.len() - 1)), ..v }
    }
}

pub(crate) fn find_slug(windows: &Vec<Window>, slug: &str) -> (out: bool)
    ensures
        out == has_slug(windows_view(windows@), slug@),
{
    let ghost vs = windows_view(windows@);
    let mut i: usize = 0;
    while i < windows.len()
        invariant
            i <= windows.len(),
            vs == windows_view(windows@),
            forall|j: int| 0 <= j < i ==> (#[trigger] vs[j]).slug != slug@,
        decreases windows.len() - i,
    {
        assert(vs[i as int] == windows@[i as int]@);
        if same(windows[i].slug.as_str(), slug) {
            return true;
        }
        i += 1;
    }
    false
}

impl ViewState {
    /// All windows are listed, and the first one is selected.
    pub fn new(windows: &Vec<Window>) -> (out: Self)
        ensures
            out@ == (ViewV {
                query: None,
                selected_slug: if windows@.len() > 0 {
                    Some(windows@[0].slug@)
                } else {
                    None
                },
                matches: found(windows_view(windows@), None),
                offset: 0,
            }),
            fits(out@, windows_view(windows@)),
    {
        let selected_slug = if windows.len() > 0 {
            Some(windows[0].slug.clone())
        } else {
            None
        };
        ViewState { query: None, selected_slug, matches: matching_indices(windows, None), offset: 0 }
    }

    pub fn selected_match_position(&self, windows: &Vec<Window>) -> (out: Option<usize>)
        requires
            fits(self@, windows_view(windows@)),
        ensures
            match out {
                Some(i) => selected_at(self@, windows_view(windows@)) == Some(i as int) && i
                    < self.matches@.len(),
                None => selected_at(self@, windows_view(windows@)) is None,
            },
    {
        let slug = match &self.selected_slug {
            Some(slug) => slug,
            None => {
                return None;
            },
        };
        let ghost vs = windows_view(windows@);
        let mut i: usize = 0;
        while i < self.matches.len()
            invariant
                i <= self.matches.len(),
                vs == windows_view(windows@),
                fits(self@, vs),
                place_among(self@, vs, slug@, i as nat) is None,
                self@.selected_slug == Some(slug@),
            decreases self.matches.len() - i,
        {
            assert(self@.matches[i as int] < vs.len());
            assert(vs[self@.matches[i as int] as int] == windows@[self.matches@[i as int] as int]@);
            if same(windows[self.matches[i]].slug.as_str(), slug.as_str()) {
                proof {
                    lemma_place_stays(self@, vs, slug@, (i + 1) as nat, self@.matches.len());
                }
                return Some(i);
            }
            i += 1;
        }
        None
    }

    /// The slug that is selected and listed.
    pub fn effective_slug<'a>(&self, windows: &'a Vec<Window>) -> (out: Option<&'a str>)
        requires
            fits(self@, windows_view(windows@)),
        ensures
            opt_str(out) == effective(self@, windows_view(windows@)),
    {
        match self.selected_match_position(windows) {
            Some(i) => {
                assert(self@.matches[i as int] < windows@.len());
                Some(windows[self.matches[i]].slug.as_str())
            },
            None => None,
        }
    }

    pub fn effective_slug_owned(&self, windows: &Vec<Window>) -> (out: Option<String>)
        requires
            fits(self@, windows_view(windows@)),
        ensures
            opt_text(out) == effective(self@, windows_view(windows@)),
    {
        match self.effective_slug(windows) {
            Some(slug) => Some(slug.to_owned()),
            None => None,
        }
    }

    /// Lists the windows anew.
    pub fn reconcile(&mut self, windows: &Vec<Window>, page: usize)
        ensures
            final(self)@ == reconciled(old(self)@, windows_view(windows@), page as int),
            fits(final(self)@, windows_view(windows@)),
    {
        let query = match &self.query {
            Some(q) => Some(q.as_str()),
            None => None,
        };
        self.matches = matching_indices(windows, query);
        let gone = match &self.selected_slug {
            Some(slug) => !find_slug(windows, slug.as_str()),
            None => false,
        };
        if gone {
            self.selected_slug = None;
        }
        if self.matches.len() > 0 && self.selected_match_position(windows).is_none() {
            assert(self@.matches[0] < windows@.len());
            self.selected_slug = Some(windows[self.matches[0]].slug.clone());
        }
        self.ensure_visible(windows, page);
    }

    /// Brings the selected match into the visible part.
    pub fn ensure_visible(&mut self, windows: &Vec<Window>, page: usize)
        requires
            fits(old(self)@, windows_view(windows@)),
        ensures
            final(self)@ == shown(old(self)@, windows_view(windows@), page as int),
            fits(final(self)@, windows_view(windows@)),
    {
        let selected = self.selected_match_position(windows);
        self.offset = keep_match_visible(selected, self.offset, page, self.matches.len());
    }

    /// Moves the selection to the next match or the one before.
    pub fn select_relative(&mut self, windows: &Vec<Window>, forward: bool)
        requires
            fits(old(self)@, windows_view(windows@)),
        ensures
            final(self)@ == stepped(old(self)@, windows_view(windows@), forward),
            fits(final(self)@, windows_view(windows@)),
    {
        let n = self.matches.len();
        if n == 0 {
            return;
        }
        let next: usize = match (forward, self.selected_match_position(windows)) {
            (true, Some(i)) => if i + 1 == n {
                0
            } else {
                i + 1
            },
            (true, None) => 0,
            (false, Some(i)) => if i == 0 {
                n - 1
            } else {
                i - 1
            },
            (false, None) => n - 1,
        };
        assert(self@.matches[next as int] < windows@.len());
        self.selected_slug = Some(windows[self.matches[next]].slug.clone());
    }

    pub fn select_first(&mut self, windows: &Vec<Window>)
        requires
            fits(old(self)@, windows_view(windows@)),
        ensures
            final(self)@ == at_first(old(self)@, windows_view(windows@)),
            fits(final(self)@, windows_view(windows@)),
    {
        if self.matches.len() > 0 {
            assert(self@.matches[0] < windows@.len());
            self.selected_slug = Some(windows[self.matches[0]].slug.clone());
        }
    }

    pub fn select_last(&mut self, windows: &Vec<Window>)
        requires
            fits(old(self)@, windows_view(windows@)),
        ensures
            final(self)@ == at_last(old(self)@, windows_view(windows@)),
            fits(final(self)@, windows_view(windows@)),
    {
        let n = self.matches.len();
        if n > 0 {
            assert(self@.matches[n - 1] < windows@.len());
            self.selected_slug = Some(windows[self.matches[n - 1]].slug.clone());
        }
    }
}

proof fn lemma_place_stays(v: ViewV, windows: Seq<WindowV>, slug: Seq<char>, n: nat, m: nat)
    requires
        n <= m,
        place_among(v, windows, slug, n) is Some,
    ensures
        place_among(v, windows, slug, m) == place_among(v, windows, slug, n),
    decreases m,
{
    if n < m {
        lemma_place_stays(v, windows, slug, n, (m - 1) as nat);
    }
}

// ---------------------------------------------------------------------------
// What holds of the view

/// No two windows have one slug.
pub open spec fn distinct_slugs(windows: Seq<WindowV>) -> bool {
    forall|i: int, j: int|
        0 <= i < j < windows.len() ==> (#[trigger] windows[i]).slug != (#[trigger] windows[j]).slug
}

/// No window is listed twice.
pub open spec fn distinct_matches(v: ViewV) -> bool {
    forall|i: int, j: int|
        0 <= i < j < v.matches.len() ==> (#[trigger] v.matches[i]) != (#[trigger] v.matches[j])
}

/// Among windows with slugs of their own the selected match is the one that was selected.
pub proof fn selection_is_found_again(v: ViewV, windows: Seq<WindowV>, i: int)
    requires
        fits(v, windows),
        distinct_slugs(windows),
        distinct_matches(v),
        0 <= i < v.matches.len(),
        v.selected_slug == Some(slug_at(v, windows, i)),
    ensures
        selected_at(v, windows) == Some(i),
{
    let slug = slug_at(v, windows, i);
    lemma_place_among(v, windows, slug, v.matches.len());
    match selected_at(v, windows) {
        Some(j) => {
            if j != i {
                let a = v.matches[i] as int;
                let b = v.matches[j] as int;
                assert(v.matches[i] != v.matches[j]) by {
                    if i < j {
                    } else {
                        assert(v.matches[j] != v.matches[i]);
                    }
                }
                assert(windows[a].slug != windows[b].slug) by {
                    if a < b {
                    } else {
                        assert(windows[b].slug != windows[a].slug);
                    }
                }
            }
        },
        None => {
            assert(slug_at(v, windows, i) != slug);
        },
    }
}

/// The selection wraps at both ends: behind the last match comes the first, and before the first
/// the last.
pub proof fn selection_wraps_at_both_ends(v: ViewV, windows: Seq<WindowV>)
    requires
        v.matches.len() > 0,
    ensures
        selected_at(v, windows) == Some(v.matches.len() - 1) ==> stepped(v, windows, true)
            == at_first(v, windows),
        selected_at(v, windows) == Some(0int) ==> stepped(v, windows, false) == at_last(v, windows),
{
}

/// A step forward and a step back come to where they began.
pub proof fn steps_undo_each_other(v: ViewV, windows: Seq<WindowV>, forward: bool)
    requires
        fits(v, windows),
        distinct_slugs(windows),
        distinct_matches(v),
        selected_at(v, windows) is Some,
    ensures
        stepped(stepped(v, windows, forward), windows, !forward) == v,
{
    let n = v.matches.len() as int;
    let i = selected_at(v, windows)->Some_0;
    lemma_place_among(v, windows, v.selected_slug->Some_0, v.matches.len());
    let next = if forward {
        if i + 1 == n {
            0
        } else {
            i + 1
        }
    } else {
        if i == 0 {
            n - 1
        } else {
            i - 1
        }
    };
    let w = stepped(v, windows, forward);
    assert(slug_at(w, windows, next) == slug_at(v, windows, next));
    selection_is_found_again(w, windows, next);
}

/// Listing anew what is listed already changes nothing.
pub proof fn reconciling_again_changes_nothing(v: ViewV, windows: Seq<WindowV>, page: int)
    requires
        windows.len() <= usize::MAX,
        0 <= v.offset,
        0 <= page,
    ensures
        ({
            let once = reconciled(v, windows, page);
            reconciled(once, windows, page) == once
        }),
{
    let once = reconciled(v, windows, page);
    lemma_found_in(windows, lowered(v.query), windows.len());
    let listed = ViewV { matches: found(windows, v.query), ..v };
    let kept = ViewV {
        selected_slug: match v.selected_slug {
            Some(slug) if has_slug(windows, slug) => Some(slug),
            _ => None,
        },
        ..listed
    };
    let selected = if kept.matches.len() > 0 && selected_at(kept, windows) is None {
        ViewV { selected_slug: Some(slug_at(kept, windows, 0)), ..kept }
    } else {
        kept
    };
    if selected.selected_slug is Some {
        let slug = selected.selected_slug->Some_0;
        lemma_place_among(selected, windows, slug, selected.matches.len());
        if kept.matches.len() > 0 && selected_at(kept, windows) is None {
            assert(windows[kept.matches[0] as int].slug == slug);
            assert(has_slug(windows, slug));
            assert(slug_at(selected, windows, 0) == slug);
        }
        assert(has_slug(windows, slug));
        lemma_same_places(selected, once, windows, slug, selected.matches.len());
    }
    assert(selected_at(selected, windows) == selected_at(once, windows));
    if selected_at(selected, windows) is Some {
        let slug = selected.selected_slug->Some_0;
        lemma_place_among(selected, windows, slug, selected.matches.len());
    }
    visible_list_stays(
        selected_at(selected, windows),
        v.offset,
        page,
        selected.matches.len() as int,
    );
    let listed2 = ViewV { matches: found(windows, once.query), ..once };
    assert(listed2 == once);
}

proof fn lemma_same_places(a: ViewV, b: ViewV, windows: Seq<WindowV>, slug: Seq<char>, n: nat)
    requires
        a.matches == b.matches,
    ensures
        place_among(a, windows, slug, n) == place_among(b, windows, slug, n),
    decreases n,
{
    if n > 0 {
        lemma_same_places(a, b, windows, slug, (n - 1) as nat);
    }
}

/// A selection that finds no match stays, and is found again when what is looked for allows it.
pub proof fn selection_survives_an_empty_list(v: ViewV, windows: Seq<WindowV>, page: int)
    requires
        v.selected_slug is Some,
        has_slug(windows, v.selected_slug->Some_0),
        found(windows, v.query).len() == 0,
    ensures
        reconciled(v, windows, page).selected_slug == v.selected_slug,
        effective(reconciled(v, windows, page), windows) is None,
{
}

} // verus!
