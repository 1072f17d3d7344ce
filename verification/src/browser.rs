//! The list of windows as it runs: what it does on each key, and on each thing that the server
//! tells.

use vstd::prelude::*;

use crate::chars::{control, cut, is_control, opt_copy, opt_text, same, same_opt, to_chars, to_text};
use crate::keys::{Code, Key, Kind};
use crate::strmap::{can_grow, raised_number, PairSet, StringMap};
use crate::view::{
    at_first, at_last, effective, find_slug, fits, has_slug, reconciled, rows_of, shown, stepped,
    visible_rows, ViewState, ViewV,
};
use crate::window::{
    all_scheduled, apply_completed_turn_result, apply_summary_result, find_thread, found_turn,
    is_active, is_idle, jobs_view, next_request_id, place_of_thread, same_windows,
    schedule_summaries, schedule_summary, scheduled, sort_windows, sorted, sorting_orders_and_keeps,
    summary_taken, turn_found, windows_view, CompletedTurnResult, EntryV, StatusV, SummaryCache,
    SummaryJob, SummaryPayload, SummaryResult, ThreadStatus, Window, WindowV,
};

verus! {

// ---------------------------------------------------------------------------
// What the list does

#[derive(Debug)]
pub enum Effect {
    /// Draw the list as it is.
    Redraw,
    /// Bring the client of a window into the viewport.
    Show(String),
    /// Move the focus into the viewport.
    Focus,
    Quit,
    /// Ask for the latest turns of a thread.
    Lookup { thread_id: String, generation: u64, request_id: i64 },
    /// Ask for a summary.
    Summarize(SummaryJob),
    SaveCache,
}

pub enum EffectV {
    Redraw,
    Show(Seq<char>),
    Focus,
    Quit,
    Lookup { thread_id: Seq<char>, generation: u64, request_id: int },
    Summarize(Seq<char>, Seq<char>),
    SaveCache,
}

impl View for Effect {
    type V = EffectV;

    open spec fn view(&self) -> EffectV {
        match self {
            Effect::Redraw => EffectV::Redraw,
            Effect::Show(slug) => EffectV::Show(slug@),
            Effect::Focus => EffectV::Focus,
            Effect::Quit => EffectV::Quit,
            Effect::Lookup { thread_id, generation, request_id } => EffectV::Lookup {
                thread_id: thread_id@,
                generation: *generation,
                request_id: *request_id as int,
            },
            Effect::Summarize(job) => EffectV::Summarize(job.thread_id@, job.turn_id@),
            Effect::SaveCache => EffectV::SaveCache,
        }
    }
}

pub open spec fn effects_view(effects: Seq<Effect>) -> Seq<EffectV> {
    Seq::new(effects.len(), |i: int| effects[i]@)
}

fn none() -> (out: Vec<Effect>)
    ensures
        effects_view(out@) == Seq::<EffectV>::empty(),
{
    let out: Vec<Effect> = Vec::new();
    assert(effects_view(out@) =~= Seq::<EffectV>::empty());
    out
}

fn add_effect(effects: &mut Vec<Effect>, effect: Effect)
    ensures
        effects_view(final(effects)@) == effects_view(old(effects)@).push(effect@),
{
    assert(effects_view(effects@.push(effect)) =~= effects_view(effects@).push(effect@));
    effects.push(effect);
}

// ---------------------------------------------------------------------------
// State

#[derive(Debug)]
pub struct Browser {
    pub windows: Vec<Window>,
    pub view: ViewState,
    pub cache: SummaryCache,
    /// How often the status of each thread has changed.
    pub generations: StringMap<u64>,
    /// The turns for which a summary was asked for.
    pub attempted: PairSet,
    pub request_id: i64,
}

#[verifier::ext_equal]
pub struct BrowserV {
    pub windows: Seq<WindowV>,
    pub view: ViewV,
    pub held: Map<Seq<char>, EntryV>,
    pub version: u32,
    pub generations: Map<Seq<char>, u64>,
    pub attempted: Set<(Seq<char>, Seq<char>)>,
    pub request_id: int,
}

impl View for Browser {
    type V = BrowserV;

    open spec fn view(&self) -> BrowserV {
        BrowserV {
            windows: windows_view(self.windows@),
            view: self.view@,
            held: self.cache.held(),
            version: self.cache.version,
            generations: self.generations@,
            attempted: self.attempted@,
            request_id: self.request_id as int,
        }
    }
}

/// What is listed are windows.
pub open spec fn ready(b: BrowserV) -> bool {
    fits(b.view, b.windows)
}

/// Lists the windows anew and draws them. Where another window is now the one that is selected and
/// listed, its client is shown.
pub open spec fn presented(b: BrowserV, height: u16, previous: Option<Seq<char>>) -> (
    BrowserV,
    Seq<EffectV>,
) {
    let after = BrowserV { view: reconciled(b.view, b.windows, rows_of(height)), ..b };
    let now = effective(after.view, b.windows);
    (
        after,
        if now != previous && now is Some {
            seq![EffectV::Redraw, EffectV::Show(now->Some_0)]
        } else {
            seq![EffectV::Redraw]
        },
    )
}

/// The view is changed, and what is listed is then presented.
pub open spec fn changed(b: BrowserV, view: ViewV, height: u16) -> (BrowserV, Seq<EffectV>) {
    presented(BrowserV { view, ..b }, height, effective(b.view, b.windows))
}

pub open spec fn without_last(s: Seq<char>) -> Seq<char> {
    if s.len() == 0 {
        s
    } else {
        s.drop_last()
    }
}

/// A key while something is looked for.
pub open spec fn finding_key(b: BrowserV, key: Key, height: u16) -> (BrowserV, Seq<EffectV>) {
    let v = b.view;
    let query = v.query->Some_0;
    match key.code {
        Code::Esc => changed(b, ViewV { query: None, ..v }, height),
        Code::Backspace => changed(b, ViewV { query: Some(without_last(query)), ..v }, height),
        Code::Down => changed(b, stepped(v, b.windows, true), height),
        Code::Up => changed(b, stepped(v, b.windows, false), height),
        Code::Home => changed(b, at_first(v, b.windows), height),
        Code::End => changed(b, at_last(v, b.windows), height),
        Code::Enter => {
            let target = if v.matches.len() == 0 {
                match v.selected_slug {
                    Some(slug) if has_slug(b.windows, slug) => Some(slug),
                    _ => None,
                }
            } else {
                effective(v, b.windows)
            };
            (
                BrowserV {
                    view: reconciled(ViewV { query: None, ..v }, b.windows, rows_of(height)),
                    ..b
                },
                match target {
                    Some(slug) => seq![EffectV::Redraw, EffectV::Show(slug), EffectV::Focus],
                    None => seq![EffectV::Redraw],
                },
            )
        },
        Code::Char(c) => if key.plain() && !is_control(c) {
            changed(b, ViewV { query: Some(query.push(c)), ..v }, height)
        } else {
            (b, Seq::empty())
        },
        _ => (b, Seq::empty()),
    }
}

/// The selection moves, and the client of the window that is then selected is shown.
pub open spec fn browsed(b: BrowserV, height: u16, forward: bool) -> (BrowserV, Seq<EffectV>) {
    let next = stepped(b.view, b.windows, forward);
    if next.selected_slug != b.view.selected_slug && next.selected_slug is Some {
        (
            BrowserV { view: shown(next, b.windows, rows_of(height)), ..b },
            seq![EffectV::Show(next.selected_slug->Some_0), EffectV::Redraw],
        )
    } else {
        (BrowserV { view: next, ..b }, Seq::empty())
    }
}

/// A key while nothing is looked for.
pub open spec fn browsing_key(b: BrowserV, key: Key, height: u16) -> (BrowserV, Seq<EffectV>) {
    let v = b.view;
    let code = key.code;
    if code == Code::Esc || code == Code::Char('q') {
        (b, seq![EffectV::Quit])
    } else if code == Code::Char('/') && key.plain() {
        changed(b, ViewV { query: Some(Seq::empty()), ..v }, height)
    } else if code == Code::Down || code == Code::Char('j') {
        browsed(b, height, true)
    } else if code == Code::Up || code == Code::Char('k') {
        browsed(b, height, false)
    } else if code == Code::Home || code == Code::Char('g') {
        if v.matches.len() > 0 {
            (
                BrowserV { view: ViewV { offset: 0, ..at_first(v, b.windows) }, ..b },
                seq![EffectV::Redraw],
            )
        } else {
            (b, Seq::empty())
        }
    } else if code == Code::End || code == Code::Char('G') {
        if v.matches.len() > 0 {
            (
                BrowserV { view: shown(at_last(v, b.windows), b.windows, rows_of(height)), ..b },
                seq![EffectV::Redraw],
            )
        } else {
            (b, Seq::empty())
        }
    } else if code == Code::Enter {
        match effective(v, b.windows) {
            Some(slug) => (b, seq![EffectV::Show(slug), EffectV::Focus]),
            None => (b, Seq::empty()),
        }
    } else {
        (b, Seq::empty())
    }
}

pub open spec fn is_interrupt(key: Key) -> bool {
    key.ctrl && (key.code == Code::Char('c') || key.code == Code::Char('C'))
}

/// A key. Only one that goes down counts.
pub open spec fn key_taken(b: BrowserV, key: Key, height: u16) -> (BrowserV, Seq<EffectV>) {
    if key.kind != Kind::Press {
        (b, Seq::empty())
    } else if is_interrupt(key) {
        (b, seq![EffectV::Quit])
    } else if b.view.query is Some {
        finding_key(b, key, height)
    } else {
        browsing_key(b, key, height)
    }
}

pub open spec fn resized(b: BrowserV, height: u16) -> (BrowserV, Seq<EffectV>) {
    (
        BrowserV { view: shown(b.view, b.windows, rows_of(height)), ..b },
        seq![EffectV::Redraw],
    )
}

// ---------------------------------------------------------------------------
// What the server tells

/// The greatest of the windows' times; none where there are no windows.
pub open spec fn latest(windows: Seq<WindowV>) -> Option<int>
    decreases windows.len(),
{
    if windows.len() == 0 {
        None
    } else {
        match latest(windows.drop_last()) {
            Some(at) if at > windows.last().recency_at => Some(at),
            _ => Some(windows.last().recency_at),
        }
    }
}

pub open spec fn generation_of(generations: Map<Seq<char>, u64>, thread_id: Seq<char>) -> u64 {
    if generations.contains_key(thread_id) {
        generations[thread_id]
    } else {
        0
    }
}

/// The windows after the status of one of them has changed. A window that becomes active becomes
/// the most recent one.
pub open spec fn restated(windows: Seq<WindowV>, at: int, status: StatusV) -> Seq<WindowV> {
    let now = windows.update(at, WindowV { status, ..windows[at] });
    if !(windows[at].status is Active) && status is Active {
        let top = latest(now)->Some_0;
        sorted(now.update(at, WindowV { recency_at: top + 1, ..now[at] }))
    } else {
        now
    }
}

/// The status of a thread has changed. When a thread becomes idle its latest turn is looked up.
pub open spec fn status_taken(b: BrowserV, thread_id: Seq<char>, status: StatusV, height: u16) -> (
    BrowserV,
    Seq<EffectV>,
) {
    let at = place_of_thread(b.windows, thread_id) as int;
    if at >= b.windows.len() {
        (b, Seq::empty())
    } else {
        let generation = (generation_of(b.generations, thread_id) + 1) as u64;
        let idle = b.windows[at].status != StatusV::Idle && status == StatusV::Idle;
        let (after, effects) = presented(
            BrowserV {
                windows: restated(b.windows, at, status),
                generations: b.generations.insert(thread_id, generation),
                ..b
            },
            height,
            effective(b.view, b.windows),
        );
        if idle {
            (
                BrowserV { request_id: b.request_id + 1, ..after },
                effects.push(EffectV::Lookup { thread_id, generation, request_id: b.request_id }),
            )
        } else {
            (after, effects)
        }
    }
}

/// The numbers that a change of status raises can be raised once more.
pub open spec fn status_fits(b: BrowserV, thread_id: Seq<char>, status: StatusV) -> bool {
    let at = place_of_thread(b.windows, thread_id) as int;
    at < b.windows.len() ==> {
        &&& generation_of(b.generations, thread_id) < u64::MAX
        &&& !(b.windows[at].status is Active) && status is Active ==> forall|i: int|
            0 <= i < b.windows.len() ==> (#[trigger] b.windows[i]).recency_at < i64::MAX
        &&& b.windows[at].status != StatusV::Idle && status == StatusV::Idle ==> b.request_id
            < i64::MAX
    }
}

pub open spec fn summarize_all(jobs: Seq<(Seq<char>, Seq<char>)>) -> Seq<EffectV> {
    Seq::new(jobs.len(), |i: int| EffectV::Summarize(jobs[i].0, jobs[i].1))
}

/// The windows were loaded anew. What is on its way about their turns is out of date; summaries
/// are asked for where they are due.
pub open spec fn reloaded(b: BrowserV, next: Seq<WindowV>, height: u16) -> (
    BrowserV,
    Seq<EffectV>,
) {
    let raised = BrowserV {
        generations: b.generations.map_values(|n: u64| raised_number(n)),
        ..b
    };
    let (shown, effects) = if next == b.windows {
        (raised, Seq::<EffectV>::empty())
    } else {
        presented(
            BrowserV { windows: next, ..raised },
            height,
            effective(b.view, b.windows),
        )
    };
    let (attempted, jobs) = all_scheduled(shown.windows, shown.attempted, Seq::empty());
    (BrowserV { attempted, ..shown }, effects + summarize_all(jobs))
}

/// A thread's latest turn was looked up.
pub open spec fn lookup_taken(
    b: BrowserV,
    thread_id: Seq<char>,
    generation: u64,
    found: Option<Option<Seq<char>>>,
    height: u16,
) -> (BrowserV, Seq<EffectV>) {
    let (windows, place) = turn_found(b.windows, b.generations, thread_id, generation, found);
    match place {
        None => (b, Seq::empty()),
        Some(at) => {
            let (after, effects) = presented(
                BrowserV { windows, ..b },
                height,
                effective(b.view, b.windows),
            );
            let (attempted, jobs) = scheduled(windows[at], b.attempted, Seq::empty());
            (BrowserV { attempted, ..after }, effects + summarize_all(jobs))
        },
    }
}

/// A summary has come, or failed.
pub open spec fn summary_done(
    b: BrowserV,
    thread_id: Seq<char>,
    turn_id: Seq<char>,
    summary: Result<SummaryPayload, String>,
    height: u16,
) -> (BrowserV, Seq<EffectV>) {
    let (windows, held, taken) = summary_taken(b.windows, b.held, thread_id, turn_id, summary);
    if taken {
        let (after, effects) = presented(
            BrowserV { windows, held, ..b },
            height,
            effective(b.view, b.windows),
        );
        (after, seq![EffectV::SaveCache] + effects)
    } else {
        (b, Seq::empty())
    }
}

fn drop_last_char(s: &str) -> (out: String)
    ensures
        out@ == without_last(s@),
{
    let v = to_chars(s);
    if v.len() == 0 {
        s.to_owned()
    } else {
        let rest = cut(&v, 0, v.len() - 1);
        assert(rest@ =~= v@.drop_last());
        to_text(&rest)
    }
}

fn summarize_effects(effects: &mut Vec<Effect>, jobs: Vec<SummaryJob>)
    ensures
        effects_view(final(effects)@) == effects_view(old(effects)@) + summarize_all(
            jobs_view(jobs@),
        ),
{
    let ghost all = jobs@;
    let ghost before = effects_view(effects@);
    assert(before + summarize_all(jobs_view(all)).take(0) =~= before);
    for job in it: jobs
        invariant
            it.seq() == all,
            effects_view(effects@) == before + summarize_all(jobs_view(all)).take(
                it.index() as int,
            ),
    {
        let ghost k = it.index() as int;
        let ghost whole = summarize_all(jobs_view(all));
        assert(whole[k] == EffectV::Summarize(job.thread_id@, job.turn_id@));
        assert(before + whole.take(k + 1) =~= (before + whole.take(k)).push(whole[k]));
        add_effect(effects, Effect::Summarize(job));
    }
    let ghost whole = summarize_all(jobs_view(all));
    assert(whole.take(all.len() as int) =~= whole);
}

proof fn lemma_latest(windows: Seq<WindowV>)
    ensures
        windows.len() > 0 ==> latest(windows) is Some,
        latest(windows) matches Some(at) ==> exists|i: int|
            0 <= i < windows.len() && (#[trigger] windows[i]).recency_at == at,
        latest(windows) matches Some(at) ==> forall|i: int|
            0 <= i < windows.len() ==> (#[trigger] windows[i]).recency_at <= at,
    decreases windows.len(),
{
    if windows.len() > 0 {
        let init = windows.drop_last();
        lemma_latest(init);
        if latest(windows) == Some(windows.last().recency_at) {
            assert(windows[windows.len() - 1].recency_at == latest(windows)->Some_0);
        } else {
            let i = choose|i: int|
                0 <= i < init.len() && (#[trigger] init[i]).recency_at == latest(init)->Some_0;
            assert(windows[i].recency_at == latest(windows)->Some_0);
        }
        assert forall|i: int| 0 <= i < windows.len() implies (#[trigger] windows[i]).recency_at
            <= latest(windows)->Some_0 by {
            if i < init.len() {
                assert(windows[i] == init[i]);
            }
        }
    }
}

fn find_latest(windows: &Vec<Window>) -> (out: i64)
    requires
        windows@.len() > 0,
    ensures
        latest(windows_view(windows@)) == Some(out as int),
{
    let ghost vs = windows_view(windows@);
    let mut top: i64 = windows[0].recency_at;
    let mut i: usize = 1;
    proof {
        assert(vs.take(1).drop_last() =~= Seq::<WindowV>::empty());
        assert(latest(vs.take(1).drop_last()) is None);
        assert(vs.take(1).last() == windows@[0]@);
    }
    while i < windows.len()
        invariant
            1 <= i <= windows.len(),
            vs == windows_view(windows@),
            latest(vs.take(i as int)) == Some(top as int),
        decreases windows.len() - i,
    {
        assert(vs.take(i + 1).drop_last() =~= vs.take(i as int));
        assert(vs.take(i + 1).last() == windows@[i as int]@);
        if windows[i].recency_at >= top {
            top = windows[i].recency_at;
        }
        i += 1;
    }
    assert(vs.take(i as int) =~= vs);
    top
}

impl Browser {
    pub fn new(windows: Vec<Window>, cache: SummaryCache, request_id: i64) -> (out: Self)
        ensures
            ready(out@),
            out@.windows == windows_view(windows@),
            out@.held == cache.held(),
            out@.version == cache.version,
            out@.view.query is None,
            out@.view.offset == 0,
            out@.view.matches == crate::view::found(windows_view(windows@), None),
            out@.view.selected_slug == (if windows@.len() > 0 {
                Some(windows@[0].slug@)
            } else {
                None
            }),
            out@.generations == Map::<Seq<char>, u64>::empty(),
            out@.attempted == Set::<(Seq<char>, Seq<char>)>::empty(),
            out@.request_id == request_id,
    {
        let view = ViewState::new(&windows);
        Browser {
            windows,
            view,
            cache,
            generations: StringMap::new(),
            attempted: PairSet::new(),
            request_id,
        }
    }

    fn present(&mut self, height: u16, previous: Option<String>) -> (effects: Vec<Effect>)
        ensures
            (final(self)@, effects_view(effects@)) == presented(
                old(self)@,
                height,
                opt_text(previous),
            ),
            ready(final(self)@),
            final(self).cache == old(self).cache,
    {
        let mut effects = none();
        self.view.reconcile(&self.windows, visible_rows(height));
        add_effect(&mut effects, Effect::Redraw);
        let now = self.view.effective_slug_owned(&self.windows);
        if !same_opt(&now, &previous) {
            if let Some(slug) = now {
                add_effect(&mut effects, Effect::Show(slug));
            }
        }
        effects
    }

    fn on_find_key(&mut self, key: Key, height: u16) -> (effects: Vec<Effect>)
        requires
            ready(old(self)@),
            old(self)@.view.query is Some,
        ensures
            (final(self)@, effects_view(effects@)) == finding_key(old(self)@, key, height),
            ready(final(self)@),
    {
        let previous = self.view.effective_slug_owned(&self.windows);
        match key.code {
            Code::Esc => {
                self.view.query = None;
                self.present(height, previous)
            },
            Code::Backspace => {
                if let Some(query) = &self.view.query {
                    self.view.query = Some(drop_last_char(query.as_str()));
                }
                self.present(height, previous)
            },
            Code::Down => {
                self.view.select_relative(&self.windows, true);
                self.present(height, previous)
            },
            Code::Up => {
                self.view.select_relative(&self.windows, false);
                self.present(height, previous)
            },
            Code::Home => {
                self.view.select_first(&self.windows);
                self.present(height, previous)
            },
            Code::End => {
                self.view.select_last(&self.windows);
                self.present(height, previous)
            },
            Code::Enter => {
                let target = if self.view.matches.len() == 0 {
                    match &self.view.selected_slug {
                        Some(slug) => if find_slug(&self.windows, slug.as_str()) {
                            Some(slug.clone())
                        } else {
                            None
                        },
                        None => None,
                    }
                } else {
                    previous
                };
                self.view.query = None;
                self.view.reconcile(&self.windows, visible_rows(height));
                let mut effects = none();
                add_effect(&mut effects, Effect::Redraw);
                if let Some(slug) = target {
                    add_effect(&mut effects, Effect::Show(slug));
                    add_effect(&mut effects, Effect::Focus);
                }
                effects
            },
            Code::Char(c) => {
                if key.is_plain() && !control(c) {
                    if let Some(query) = &self.view.query {
                        let mut more = query.clone();
                        more.push(c);
                        self.view.query = Some(more);
                    }
                    self.present(height, previous)
                } else {
                    none()
                }
            },
            _ => none(),
        }
    }

    fn browse_move(&mut self, height: u16, forward: bool) -> (effects: Vec<Effect>)
        requires
            ready(old(self)@),
        ensures
            (final(self)@, effects_view(effects@)) == browsed(old(self)@, height, forward),
            ready(final(self)@),
    {
        let mut effects = none();
        let previous = opt_copy(&self.view.selected_slug);
        self.view.select_relative(&self.windows, forward);
        if !same_opt(&self.view.selected_slug, &previous) {
            let selected = opt_copy(&self.view.selected_slug);
            if let Some(slug) = selected {
                add_effect(&mut effects, Effect::Show(slug));
                self.view.ensure_visible(&self.windows, visible_rows(height));
                add_effect(&mut effects, Effect::Redraw);
            }
        }
        effects
    }

    fn on_browse_key(&mut self, key: Key, height: u16) -> (effects: Vec<Effect>)
        requires
            ready(old(self)@),
        ensures
            (final(self)@, effects_view(effects@)) == browsing_key(old(self)@, key, height),
            ready(final(self)@),
    {
        let mut effects = none();
        match key.code {
            Code::Esc | Code::Char('q') => {
                add_effect(&mut effects, Effect::Quit);
            },
            Code::Char('/') => {
                if key.is_plain() {
                    let previous = self.view.effective_slug_owned(&self.windows);
                    self.view.query = Some(String::new());
                    effects = self.present(height, previous);
                }
            },
            Code::Down | Code::Char('j') => {
                effects = self.browse_move(height, true);
            },
            Code::Up | Code::Char('k') => {
                effects = self.browse_move(height, false);
            },
            Code::Home | Code::Char('g') => {
                if self.view.matches.len() > 0 {
                    self.view.select_first(&self.windows);
                    self.view.offset = 0;
                    add_effect(&mut effects, Effect::Redraw);
                }
            },
            Code::End | Code::Char('G') => {
                if self.view.matches.len() > 0 {
                    self.view.select_last(&self.windows);
                    self.view.ensure_visible(&self.windows, visible_rows(height));
                    add_effect(&mut effects, Effect::Redraw);
                }
            },
            Code::Enter => {
                if let Some(slug) = self.view.effective_slug_owned(&self.windows) {
                    add_effect(&mut effects, Effect::Show(slug));
                    add_effect(&mut effects, Effect::Focus);
                }
            },
            _ => {},
        }
        effects
    }

    /// Takes a key, on a screen of the given height.
    pub fn on_key(&mut self, key: Key, height: u16) -> (effects: Vec<Effect>)
        requires
            ready(old(self)@),
        ensures
            (final(self)@, effects_view(effects@)) == key_taken(old(self)@, key, height),
            ready(final(self)@),
    {
        if key.kind != Kind::Press {
            return none();
        }
        let interrupt = match key.code {
            Code::Char('c') | Code::Char('C') => key.ctrl,
            _ => false,
        };
        if interrupt {
            let mut effects = none();
            add_effect(&mut effects, Effect::Quit);
            return effects;
        }
        if self.view.query.is_some() {
            self.on_find_key(key, height)
        } else {
            self.on_browse_key(key, height)
        }
    }

    /// The screen has another height.
    pub fn on_resize(&mut self, height: u16) -> (effects: Vec<Effect>)
        requires
            ready(old(self)@),
        ensures
            (final(self)@, effects_view(effects@)) == resized(old(self)@, height),
            ready(final(self)@),
    {
        let mut effects = none();
        self.view.ensure_visible(&self.windows, visible_rows(height));
        add_effect(&mut effects, Effect::Redraw);
        effects
    }

    fn can_be_topped(&self) -> (out: bool)
        ensures
            out == forall|i: int|
                0 <= i < self@.windows.len() ==> (#[trigger] self@.windows[i]).recency_at
                    < i64::MAX,
    {
        let mut i: usize = 0;
        let ghost vs = self@.windows;
        while i < self.windows.len()
            invariant
                i <= self.windows.len(),
                vs == self@.windows,
                forall|j: int| 0 <= j < i ==> (#[trigger] vs[j]).recency_at < i64::MAX,
            decreases self.windows.len() - i,
        {
            assert(vs[i as int] == self.windows@[i as int]@);
            if self.windows[i].recency_at == i64::MAX {
                return false;
            }
            i += 1;
        }
        true
    }

    /// Whether the numbers that a change of status raises can be raised once more.
    pub fn can_take_status(&self, thread_id: &str, status: &ThreadStatus) -> (out: bool)
        ensures
            out == status_fits(self@, thread_id@, status@),
    {
        let at = match find_thread(&self.windows, thread_id) {
            Some(at) => at,
            None => {
                return true;
            },
        };
        assert(self@.windows[at as int] == self.windows@[at as int]@);
        let counted = match self.generations.get(thread_id) {
            Some(n) => *n < u64::MAX,
            None => true,
        };
        let topped = is_active(&self.windows[at].status) || !is_active(status)
            || self.can_be_topped();
        let asked = is_idle(&self.windows[at].status) || !is_idle(status) || self.request_id
            < i64::MAX;
        counted && topped && asked
    }

    /// Whether the numbers that loading anew raises can be raised once more.
    pub fn can_reload(&self) -> (out: bool)
        ensures
            out == can_grow(self@.generations),
    {
        self.generations.has_room()
    }

    fn restate(&mut self, at: usize, status: ThreadStatus)
        requires
            at < old(self).windows@.len(),
            !(old(self)@.windows[at as int].status is Active) && status@ is Active ==> forall|
                i: int,
            |
                0 <= i < old(self)@.windows.len() ==> (#[trigger] old(
                    self,
                )@.windows[i]).recency_at < i64::MAX,
        ensures
            final(self)@ == (BrowserV {
                windows: restated(old(self)@.windows, at as int, status@),
                ..old(self)@
            }),
    {
        let ghost before = self@.windows;
        let became_active = !is_active(&self.windows[at].status) && is_active(&status);
        let mut window = self.windows.remove(at);
        window.status = status;
        self.windows.insert(at, window);
        let ghost now = before.update(at as int, window@);
        assert(windows_view(self.windows@) =~= now);
        if became_active {
            let top = find_latest(&self.windows);
            proof {
                lemma_latest(now);
                let i = choose|i: int| 0 <= i < now.len() && (#[trigger] now[i]).recency_at == top;
                assert(now[i].recency_at == before[i].recency_at);
                assert(before[i].recency_at < i64::MAX);
            }
            let mut window = self.windows.remove(at);
            window.recency_at = top + 1;
            self.windows.insert(at, window);
            assert(windows_view(self.windows@) =~= now.update(at as int, window@));
            sort_windows(&mut self.windows);
        }
    }

    /// The status of a thread has changed.
    pub fn on_status(&mut self, thread_id: &str, status: ThreadStatus, height: u16) -> (effects: Vec<
        Effect,
    >)
        requires
            ready(old(self)@),
            status_fits(old(self)@, thread_id@, status@),
        ensures
            (final(self)@, effects_view(effects@)) == status_taken(
                old(self)@,
                thread_id@,
                status@,
                height,
            ),
            ready(final(self)@),
    {
        let at = match find_thread(&self.windows, thread_id) {
            Some(at) => at,
            None => {
                return none();
            },
        };
        assert(self@.windows[at as int] == self.windows@[at as int]@);
        let previous = self.view.effective_slug_owned(&self.windows);
        let became_idle = !is_idle(&self.windows[at].status) && is_idle(&status);
        let generation: u64 = match self.generations.get(thread_id) {
            Some(n) => {
                assert(self@.generations.contains_key(thread_id@));
                *n + 1
            },
            None => 1,
        };
        self.generations.insert(thread_id.to_owned(), generation);
        self.restate(at, status);
        let mut effects = self.present(height, previous);
        if became_idle {
            let request_id = next_request_id(&mut self.request_id);
            add_effect(
                &mut effects,
                Effect::Lookup { thread_id: thread_id.to_owned(), generation, request_id },
            );
        }
        effects
    }

    /// Whether a thread that was started is one whose window may have to be loaded.
    pub fn may_load(&self, thread_id: &str, ephemeral: bool) -> (out: bool)
        ensures
            out == (!ephemeral && place_of_thread(self@.windows, thread_id@)
                == self@.windows.len()),
    {
        !ephemeral && find_thread(&self.windows, thread_id).is_none()
    }

    /// The windows were loaded anew.
    pub fn on_reload(&mut self, next: Vec<Window>, height: u16) -> (effects: Vec<Effect>)
        requires
            ready(old(self)@),
            can_grow(old(self)@.generations),
        ensures
            (final(self)@, effects_view(effects@)) == reloaded(
                old(self)@,
                windows_view(next@),
                height,
            ),
            ready(final(self)@),
    {
        let previous = self.view.effective_slug_owned(&self.windows);
        self.generations.raise_all();
        let mut effects = if same_windows(&next, &self.windows) {
            none()
        } else {
            self.windows = next;
            self.present(height, previous)
        };
        let mut jobs: Vec<SummaryJob> = Vec::new();
        assert(jobs_view(jobs@) =~= Seq::<(Seq<char>, Seq<char>)>::empty());
        schedule_summaries(&self.windows, &mut self.attempted, &mut jobs);
        summarize_effects(&mut effects, jobs);
        effects
    }

    /// A thread's latest turn was looked up.
    pub fn on_lookup(&mut self, result: CompletedTurnResult, height: u16) -> (effects: Vec<Effect>)
        requires
            ready(old(self)@),
        ensures
            (final(self)@, effects_view(effects@)) == lookup_taken(
                old(self)@,
                result.thread_id@,
                result.generation,
                found_turn(result.completed_turn_id),
                height,
            ),
            ready(final(self)@),
    {
        let previous = self.view.effective_slug_owned(&self.windows);
        match apply_completed_turn_result(&mut self.windows, &self.generations, result) {
            Some(at) => {
                let mut effects = self.present(height, previous);
                let mut jobs: Vec<SummaryJob> = Vec::new();
                assert(jobs_view(jobs@) =~= Seq::<(Seq<char>, Seq<char>)>::empty());
                assert(self@.windows[at as int] == self.windows@[at as int]@);
                schedule_summary(&self.windows[at], &mut self.attempted, &mut jobs);
                summarize_effects(&mut effects, jobs);
                effects
            },
            None => none(),
        }
    }

    /// A summary has come, or failed.
    pub fn on_summary(&mut self, result: SummaryResult, height: u16) -> (effects: Vec<Effect>)
        requires
            ready(old(self)@),
        ensures
            (final(self)@, effects_view(effects@)) == summary_done(
                old(self)@,
                result.job.thread_id@,
                result.job.turn_id@,
                result.summary,
                height,
            ),
            ready(final(self)@),
    {
        let previous = self.view.effective_slug_owned(&self.windows);
        if apply_summary_result(&mut self.windows, &mut self.cache, result) {
            let mut effects = none();
            add_effect(&mut effects, Effect::SaveCache);
            let mut more = self.present(height, previous);
            assert(effects_view(effects@ + more@) =~= effects_view(effects@) + effects_view(more@));
            effects.append(&mut more);
            effects
        } else {
            none()
        }
    }

    /// Asks for the summaries that are due.
    pub fn schedule(&mut self) -> (effects: Vec<Effect>)
        requires
            ready(old(self)@),
        ensures
            ({
                let (attempted, jobs) = all_scheduled(
                    old(self)@.windows,
                    old(self)@.attempted,
                    Seq::empty(),
                );
                &&& final(self)@ == (BrowserV { attempted, ..old(self)@ })
                &&& effects_view(effects@) == summarize_all(jobs)
            }),
            ready(final(self)@),
    {
        let mut effects = none();
        let mut jobs: Vec<SummaryJob> = Vec::new();
        assert(jobs_view(jobs@) =~= Seq::<(Seq<char>, Seq<char>)>::empty());
        schedule_summaries(&self.windows, &mut self.attempted, &mut jobs);
        let ghost done = jobs_view(jobs@);
        summarize_effects(&mut effects, jobs);
        assert(Seq::<EffectV>::empty() + summarize_all(done) =~= summarize_all(done));
        effects
    }
}

/// Whether a thread is the one of a window.
pub fn is_primary(sessions: &Vec<(String, String)>, thread_id: &str) -> (out: bool)
    ensures
        out == exists|i: int|
            0 <= i < sessions@.len() && (#[trigger] sessions@[i]).1@ == thread_id@,
{
    let mut i: usize = 0;
    while i < sessions.len()
        invariant
            i <= sessions.len(),
            forall|j: int| 0 <= j < i ==> (#[trigger] sessions@[j]).1@ != thread_id@,
        decreases sessions.len() - i,
    {
        if same(sessions[i].1.as_str(), thread_id) {
            return true;
        }
        i += 1;
    }
    false
}

// ---------------------------------------------------------------------------
// What holds of the list

/// A key never changes the windows, what is kept of them, or what is asked of the server.
pub proof fn keys_leave_the_windows_alone(b: BrowserV, key: Key, height: u16)
    ensures
        ({
            let after = key_taken(b, key, height).0;
            &&& after.windows == b.windows
            &&& after.held == b.held
            &&& after.version == b.version
            &&& after.generations == b.generations
            &&& after.attempted == b.attempted
            &&& after.request_id == b.request_id
        }),
{
}

/// Control-C ends the list whatever it shows; `q` and Escape end it while nothing is looked for.
pub proof fn keys_that_quit(b: BrowserV, key: Key, height: u16)
    requires
        key.kind == Kind::Press,
    ensures
        is_interrupt(key) ==> key_taken(b, key, height).1 == seq![EffectV::Quit],
        b.view.query is None && (key.code == Code::Esc || key.code == Code::Char('q'))
            ==> key_taken(b, key, height).1 == seq![EffectV::Quit],
{
}

/// Escape while something is looked for clears it, and all windows are listed again.
pub proof fn escape_clears_the_find(b: BrowserV, key: Key, height: u16)
    requires
        key.kind == Kind::Press,
        key.code == Code::Esc,
        b.view.query is Some,
    ensures
        ({
            let (after, effects) = key_taken(b, key, height);
            &&& after.view.query is None
            &&& after.view.matches == crate::view::found(b.windows, None)
            &&& effects[0] == EffectV::Redraw
        }),
{
}

/// A movement shows the window that is then selected before it is drawn, and only where the
/// selection has changed.
pub proof fn movement_shows_the_selection(b: BrowserV, height: u16, forward: bool)
    ensures
        ({
            let (after, effects) = browsed(b, height, forward);
            if after.view.selected_slug != b.view.selected_slug {
                &&& after.view.selected_slug is Some
                &&& effects == seq![
                    EffectV::Show(after.view.selected_slug->Some_0),
                    EffectV::Redraw,
                ]
            } else {
                effects.len() == 0
            }
        }),
{
}

/// Enter shows the window that is selected and listed, and moves the focus to its client. A find is
/// over then.
pub proof fn enter_opens_the_selection(b: BrowserV, key: Key, height: u16)
    requires
        key.kind == Kind::Press,
        key.code == Code::Enter,
        effective(b.view, b.windows) is Some,
    ensures
        ({
            let (after, effects) = key_taken(b, key, height);
            &&& effects.len() >= 2
            &&& effects[effects.len() - 2] == EffectV::Show(
                effective(b.view, b.windows)->Some_0,
            )
            &&& effects.last() == EffectV::Focus
            &&& after.view.query is None
        }),
{
}

/// When the status of a thread changes, what is on its way about its turns is out of date.
pub proof fn status_makes_lookups_stale(
    b: BrowserV,
    thread_id: Seq<char>,
    status: StatusV,
    height: u16,
    generation: u64,
    found: Option<Option<Seq<char>>>,
)
    requires
        generation_of(b.generations, thread_id) < u64::MAX,
        place_of_thread(b.windows, thread_id) < b.windows.len(),
        generation <= generation_of(b.generations, thread_id),
    ensures
        ({
            let after = status_taken(b, thread_id, status, height).0;
            lookup_taken(after, thread_id, generation, found, height) == (
                after,
                Seq::<EffectV>::empty(),
            )
        }),
{
}

/// A window that becomes active stands at the top of the list.
pub proof fn active_window_comes_first(windows: Seq<WindowV>, at: int, status: StatusV)
    requires
        0 <= at < windows.len(),
        !(windows[at].status is Active),
        status is Active,
    ensures
        restated(windows, at, status).len() == windows.len(),
        restated(windows, at, status)[0].thread_id == windows[at].thread_id,
        restated(windows, at, status)[0].status == status,
{
    let now = windows.update(at, WindowV { status, ..windows[at] });
    lemma_latest(now);
    let top = latest(now)->Some_0;
    let w = WindowV { recency_at: top + 1, ..now[at] };
    let raised = now.update(at, w);
    sorting_orders_and_keeps(raised);
    let s = sorted(raised);
    raised.to_multiset_ensures();
    s.to_multiset_ensures();
    assert(raised[at] == w);
    assert(raised.contains(w));
    assert(raised.to_multiset().count(w) > 0);
    assert(s.contains(w));
    let i = choose|i: int| 0 <= i < s.len() && s[i] == w;
    assert(s.contains(s[0]));
    assert(s.to_multiset().count(s[0]) > 0);
    assert(raised.contains(s[0]));
    let j = choose|j: int| 0 <= j < raised.len() && raised[j] == s[0];
    if j != at {
        assert(raised[j] == now[j]);
        assert(now[j].recency_at <= top);
        if i > 0 {
            assert(!crate::window::comes_before(s[i], s[0]));
        }
    }
}

} // verus!
