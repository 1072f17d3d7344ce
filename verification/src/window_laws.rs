//! What holds of the list of windows as a whole, read off the threads that it is made from.

use vstd::prelude::*;

use crate::chars::{collapse, lemma_precedes_from, precedes};
use crate::json::{JsonV, NumV};
use crate::loading::{
    every_session_gets_its_window, load_request, loaded_up_to, read_request, windows_up_to,
    LoadCallV,
};
use crate::window::{
    all_scheduled, cache_path_of, comes_before, description, first_completed, last_message,
    normalized, place_of_thread, place_of_turn, recent_turns_request, scheduled, schema, sorted,
    sorting_orders_and_keeps, state_root_of, summary_property, summary_taken, turn_found, window_of,
    EntryV, StatusV, SummaryPayload, Thread, Turn, TurnItem, TurnStatus, WindowV,
};

verus! {

// ---------------------------------------------------------------------------
// How recent a window is

/// When a thread says how recent it is, that counts, whenever it was updated; otherwise the time of
/// its last update does.
pub proof fn given_recency_counts(
    slug: Seq<char>,
    thread_id: Seq<char>,
    thread: Thread,
    turn: Option<Seq<char>>,
    held: Map<Seq<char>, EntryV>,
)
    ensures
        thread.recency_at matches Some(at) ==> window_of(
            slug,
            thread_id,
            thread,
            turn,
            held,
        ).recency_at == at,
        thread.recency_at is None ==> window_of(slug, thread_id, thread, turn, held).recency_at
            == thread.updated_at,
{
}

/// Two threads that differ in the time of their last update alone, and say how recent they are.
pub open spec fn updated_apart(a: Thread, b: Thread) -> bool {
    &&& a.recency_at is Some
    &&& a.recency_at == b.recency_at
    &&& a.preview@ == b.preview@
    &&& a.status@ == b.status@
}

/// An update alone changes nothing about the window of a thread that says how recent it is.
pub proof fn updates_do_not_show(
    slug: Seq<char>,
    thread_id: Seq<char>,
    a: Thread,
    b: Thread,
    turn: Option<Seq<char>>,
    held: Map<Seq<char>, EntryV>,
)
    requires
        updated_apart(a, b),
    ensures
        window_of(slug, thread_id, a, turn, held) == window_of(slug, thread_id, b, turn, held),
{
}

/// The list that comes of the sessions, their threads and the latest turns of these.
pub open spec fn list_of(
    sessions: Seq<(Seq<char>, Seq<char>)>,
    request_id: int,
    threads: Seq<Thread>,
    turns: Seq<Option<Seq<char>>>,
    held: Map<Seq<char>, EntryV>,
) -> Seq<WindowV> {
    loaded_up_to(sessions, request_id, threads, turns, held, sessions.len()).1->Loaded_0
}

/// Updates alone do not reorder the list.
pub proof fn updates_do_not_reorder(
    sessions: Seq<(Seq<char>, Seq<char>)>,
    request_id: int,
    threads: Seq<Thread>,
    others: Seq<Thread>,
    turns: Seq<Option<Seq<char>>>,
    held: Map<Seq<char>, EntryV>,
)
    requires
        threads.len() == sessions.len(),
        others.len() == sessions.len(),
        forall|i: int|
            0 <= i < sessions.len() ==> updated_apart(#[trigger] threads[i], #[trigger] others[i]),
    ensures
        list_of(sessions, request_id, threads, turns, held) == list_of(
            sessions,
            request_id,
            others,
            turns,
            held,
        ),
{
    every_session_gets_its_window(sessions, request_id, threads, turns, held);
    every_session_gets_its_window(sessions, request_id, others, turns, held);
    let n = sessions.len();
    assert forall|i: int| 0 <= i < n implies windows_up_to(sessions, threads, turns, held, n)[i]
        == windows_up_to(sessions, others, turns, held, n)[i] by {
        assert(updated_apart(threads[i], others[i]));
        updates_do_not_show(
            sessions[i].0,
            sessions[i].1,
            threads[i],
            others[i],
            turns[i],
            held,
        );
    }
    assert(windows_up_to(sessions, threads, turns, held, n) =~= windows_up_to(
        sessions,
        others,
        turns,
        held,
        n,
    ));
}

/// The window shows the session: its slug and thread, how the thread began and stands, its latest
/// turn, and how recent the thread is.
pub open spec fn shows(
    w: WindowV,
    session: (Seq<char>, Seq<char>),
    thread: Thread,
    turn: Option<Seq<char>>,
) -> bool {
    &&& w.slug == session.0
    &&& w.thread_id == session.1
    &&& w.preview == thread.preview@
    &&& w.status == thread.status@
    &&& w.completed_turn_id == turn
    &&& w.recency_at == match thread.recency_at {
        Some(at) => at,
        None => thread.updated_at,
    }
}

/// Every session is shown once by the list, the most recent first, and of equally recent ones the
/// one whose slug comes first.
pub proof fn list_shows_the_sessions_in_order(
    sessions: Seq<(Seq<char>, Seq<char>)>,
    request_id: int,
    threads: Seq<Thread>,
    turns: Seq<Option<Seq<char>>>,
    held: Map<Seq<char>, EntryV>,
)
    requires
        threads.len() == sessions.len(),
        turns.len() == sessions.len(),
    ensures
        ({
            let list = list_of(sessions, request_id, threads, turns, held);
            &&& list.len() == sessions.len()
            &&& forall|i: int|
                0 <= i < sessions.len() ==> exists|j: int|
                    0 <= j < list.len() && shows(
                        #[trigger] list[j],
                        #[trigger] sessions[i],
                        threads[i],
                        turns[i],
                    )
            &&& forall|i: int, j: int|
                0 <= i < j < list.len() ==> (#[trigger] list[i]).recency_at >= (
                #[trigger] list[j]).recency_at
            &&& forall|i: int, j: int|
                0 <= i < j < list.len() && list[i].recency_at == list[j].recency_at ==> !precedes(
                    (#[trigger] list[j]).slug,
                    (#[trigger] list[i]).slug,
                )
        }),
{
    every_session_gets_its_window(sessions, request_id, threads, turns, held);
    let all = windows_up_to(sessions, threads, turns, held, sessions.len());
    let list = list_of(sessions, request_id, threads, turns, held);
    sorting_orders_and_keeps(all);
    assert(list == sorted(all));
    assert forall|i: int| 0 <= i < sessions.len() implies exists|j: int|
        0 <= j < list.len() && shows(
            #[trigger] list[j],
            #[trigger] sessions[i],
            threads[i],
            turns[i],
        ) by {
        let w = all[i];
        all.to_multiset_ensures();
        list.to_multiset_ensures();
        assert(all.contains(w));
        assert(list.to_multiset().count(w) > 0);
        assert(list.contains(w));
        let j = choose|j: int| 0 <= j < list.len() && list[j] == w;
        assert(shows(list[j], sessions[i], threads[i], turns[i]));
    }
    assert forall|i: int, j: int| 0 <= i < j < list.len() implies (#[trigger] list[i]).recency_at
        >= (#[trigger] list[j]).recency_at by {
        assert(!comes_before(list[j], list[i]));
    }
    assert forall|i: int, j: int|
        0 <= i < j < list.len() && list[i].recency_at == list[j].recency_at implies !precedes(
        (#[trigger] list[j]).slug,
        (#[trigger] list[i]).slug,
    ) by {
        assert(!comes_before(list[j], list[i]));
    }
}

/// Text comes before text by the first characters in which they differ, and before all that goes on
/// behind it.
pub proof fn texts_are_ordered_by_first_difference(
    common: Seq<char>,
    x: char,
    y: char,
    more: Seq<char>,
    other: Seq<char>,
)
    ensures
        x < y ==> precedes(common + seq![x] + more, common + seq![y] + other),
        x < y ==> !precedes(common + seq![y] + other, common + seq![x] + more),
        precedes(common, common + seq![x] + more),
        !precedes(common + seq![x] + more, common),
        !precedes(common, common),
{
    let n = common.len() as int;
    let a = common + seq![x] + more;
    let b = common + seq![y] + other;
    lemma_precedes_from(a, b, n);
    lemma_precedes_from(b, a, n);
    lemma_precedes_from(common, a, n);
    lemma_precedes_from(a, common, n);
    lemma_precedes_from(common, common, n);
    assert(a.skip(n)[0] == x);
    assert(b.skip(n)[0] == y);
}

// ---------------------------------------------------------------------------
// What is held of a thread

/// A window has the summary that is held of its thread, where that is one of its latest turn.
pub proof fn only_the_latest_turn_is_classified(
    slug: Seq<char>,
    thread_id: Seq<char>,
    thread: Thread,
    turn: Option<Seq<char>>,
    held: Map<Seq<char>, EntryV>,
)
    ensures
        ({
            let w = window_of(slug, thread_id, thread, turn, held);
            &&& w.classification matches Some(entry) ==> held.contains_key(thread_id)
                && held[thread_id] == entry && turn == Some(entry.turn_id)
            &&& held.contains_key(thread_id) && turn == Some(held[thread_id].turn_id)
                ==> w.classification == Some(held[thread_id]) && description(w)
                == held[thread_id].summary
            &&& w.classification is None ==> description(w) == collapse(thread.preview@)
        }),
{
}

/// The latest completed turn is the first one in the list that is completed.
pub proof fn latest_completed_turn_comes_first(turns: Seq<Turn>, at: int)
    requires
        0 <= at < turns.len(),
        turns[at].status == TurnStatus::Completed,
        forall|i: int| 0 <= i < at ==> (#[trigger] turns[i]).status != TurnStatus::Completed,
    ensures
        first_completed(turns) == Some(turns[at].id@),
    decreases at,
{
    if at > 0 {
        assert(turns[0].status != TurnStatus::Completed);
        let rest = turns.skip(1);
        assert(rest[at - 1] == turns[at]);
        assert forall|i: int| 0 <= i < at - 1 implies (#[trigger] rest[i]).status
            != TurnStatus::Completed by {
            assert(rest[i] == turns[i + 1]);
        }
        latest_completed_turn_comes_first(rest, at - 1);
    }
}

/// Where no turn is completed there is none.
pub proof fn no_completed_turn(turns: Seq<Turn>)
    requires
        forall|i: int|
            0 <= i < turns.len() ==> (#[trigger] turns[i]).status != TurnStatus::Completed,
    ensures
        first_completed(turns) is None,
    decreases turns.len(),
{
    if turns.len() > 0 {
        assert(turns[0].status != TurnStatus::Completed);
        let rest = turns.skip(1);
        assert forall|i: int| 0 <= i < rest.len() implies (#[trigger] rest[i]).status
            != TurnStatus::Completed by {
            assert(rest[i] == turns[i + 1]);
        }
        no_completed_turn(rest);
    }
}

/// The window is the first one that shows the thread.
pub open spec fn is_first_of(windows: Seq<WindowV>, thread_id: Seq<char>, at: int) -> bool {
    &&& 0 <= at < windows.len()
    &&& windows[at].thread_id == thread_id
    &&& forall|i: int| 0 <= i < at ==> (#[trigger] windows[i]).thread_id != thread_id
}

pub proof fn lemma_place_of_thread(windows: Seq<WindowV>, thread_id: Seq<char>, at: int)
    requires
        is_first_of(windows, thread_id, at),
    ensures
        place_of_thread(windows, thread_id) == at,
    decreases at,
{
    if at > 0 {
        assert(windows[0].thread_id != thread_id);
        let rest = windows.skip(1);
        assert(rest[at - 1] == windows[at]);
        assert forall|i: int| 0 <= i < at - 1 implies (#[trigger] rest[i]).thread_id
            != thread_id by {
            assert(rest[i] == windows[i + 1]);
        }
        lemma_place_of_thread(rest, thread_id, at - 1);
    }
}

/// What is found out about the turns of an idle thread, and is up to date, changes the window of
/// the thread and no other: it has the turn that was found, and loses its summary where that is a
/// new one.
pub proof fn found_turn_is_taken(
    windows: Seq<WindowV>,
    generations: Map<Seq<char>, u64>,
    thread_id: Seq<char>,
    generation: u64,
    turn: Option<Seq<char>>,
    at: int,
)
    requires
        is_first_of(windows, thread_id, at),
        windows[at].status == StatusV::Idle,
        generations.contains_key(thread_id),
        generations[thread_id] == generation,
    ensures
        ({
            let (after, place) = turn_found(
                windows,
                generations,
                thread_id,
                generation,
                Some(turn),
            );
            &&& place == Some(at)
            &&& after.len() == windows.len()
            &&& after[at].completed_turn_id == turn
            &&& after[at].classification == if windows[at].completed_turn_id == turn {
                windows[at].classification
            } else {
                None
            }
            &&& after[at].slug == windows[at].slug
            &&& after[at].thread_id == thread_id
            &&& after[at].preview == windows[at].preview
            &&& after[at].status == windows[at].status
            &&& after[at].recency_at == windows[at].recency_at
            &&& forall|i: int| 0 <= i < windows.len() && i != at ==> after[i] == windows[i]
        }),
{
    lemma_place_of_thread(windows, thread_id, at);
}

/// What is found out about a thread that is not idle, or could not be found out, changes nothing.
pub proof fn turn_of_a_busy_thread_is_not_taken(
    windows: Seq<WindowV>,
    generations: Map<Seq<char>, u64>,
    thread_id: Seq<char>,
    generation: u64,
    found: Option<Option<Seq<char>>>,
    at: int,
)
    requires
        is_first_of(windows, thread_id, at),
        windows[at].status != StatusV::Idle || found is None,
    ensures
        turn_found(windows, generations, thread_id, generation, found) == (windows, None::<int>),
{
    lemma_place_of_thread(windows, thread_id, at);
}

// ---------------------------------------------------------------------------
// Which turns are summarized

/// A summary is asked for where a window is idle, its latest turn has none, and none was asked for
/// before; it is asked for that turn of that thread.
pub proof fn summary_is_asked_for(
    w: WindowV,
    turn: Seq<char>,
    attempted: Set<(Seq<char>, Seq<char>)>,
    jobs: Seq<(Seq<char>, Seq<char>)>,
)
    requires
        w.status == StatusV::Idle,
        w.completed_turn_id == Some(turn),
        w.classification matches Some(entry) ==> entry.turn_id != turn,
        !attempted.contains((w.thread_id, turn)),
    ensures
        scheduled(w, attempted, jobs) == (
            attempted.insert((w.thread_id, turn)),
            jobs.push((w.thread_id, turn)),
        ),
{
}

/// No summary is asked for where a window is not idle, has no completed turn, or has the summary of
/// its latest turn.
pub proof fn summary_is_not_asked_for(
    w: WindowV,
    attempted: Set<(Seq<char>, Seq<char>)>,
    jobs: Seq<(Seq<char>, Seq<char>)>,
)
    requires
        w.status != StatusV::Idle || w.completed_turn_id is None || (w.classification is Some
            && Some(w.classification->Some_0.turn_id) == w.completed_turn_id),
    ensures
        scheduled(w, attempted, jobs) == (attempted, jobs),
{
}

/// The turn of the window waits for its summary.
pub open spec fn waits(w: WindowV, key: (Seq<char>, Seq<char>)) -> bool {
    &&& w.status == StatusV::Idle
    &&& w.thread_id == key.0
    &&& w.completed_turn_id == Some(key.1)
    &&& w.classification matches Some(entry) ==> entry.turn_id != key.1
}

/// Over the whole list, the summaries asked for are those of the turns that wait for one and were
/// not asked for before, each once; what was asked for is remembered.
pub proof fn each_waiting_turn_is_asked_for_once(
    windows: Seq<WindowV>,
    attempted: Set<(Seq<char>, Seq<char>)>,
)
    ensures
        ({
            let (after, jobs) = all_scheduled(windows, attempted, Seq::empty());
            &&& forall|key: (Seq<char>, Seq<char>)| #[trigger]
                jobs.contains(key) <==> !attempted.contains(key) && exists|i: int|
                    0 <= i < windows.len() && waits(#[trigger] windows[i], key)
            &&& forall|key: (Seq<char>, Seq<char>)| #[trigger]
                after.contains(key) <==> attempted.contains(key) || jobs.contains(key)
            &&& jobs.no_duplicates()
        }),
    decreases windows.len(),
{
    let (after, jobs) = all_scheduled(windows, attempted, Seq::empty());
    if windows.len() > 0 {
        let init = windows.drop_last();
        let w = windows.last();
        each_waiting_turn_is_asked_for_once(init, attempted);
        let (a, j) = all_scheduled(init, attempted, Seq::empty());
        assert forall|key: (Seq<char>, Seq<char>)| #[trigger]
            jobs.contains(key) <==> !attempted.contains(key) && exists|i: int|
                0 <= i < windows.len() && waits(#[trigger] windows[i], key) by {
            if jobs.contains(key) {
                let k = choose|k: int| 0 <= k < jobs.len() && jobs[k] == key;
                if k < j.len() {
                    assert(j[k] == key);
                    assert(j.contains(key));
                    let i = choose|i: int| 0 <= i < init.len() && waits(#[trigger] init[i], key);
                    assert(waits(windows[i], key));
                } else {
                    assert(waits(windows[windows.len() - 1], key));
                    assert(!a.contains(key));
                }
            }
            if !attempted.contains(key) && exists|i: int|
                0 <= i < windows.len() && waits(#[trigger] windows[i], key) {
                let i = choose|i: int| 0 <= i < windows.len() && waits(#[trigger] windows[i], key);
                if i < init.len() {
                    assert(waits(init[i], key));
                    assert(j.contains(key));
                    let k = choose|k: int| 0 <= k < j.len() && j[k] == key;
                    assert(jobs[k] == key);
                } else if a.contains(key) {
                    assert(j.contains(key));
                    let k = choose|k: int| 0 <= k < j.len() && j[k] == key;
                    assert(jobs[k] == key);
                } else {
                    assert(jobs.last() == key);
                    assert(jobs[jobs.len() - 1] == key);
                }
            }
        }
        assert forall|key: (Seq<char>, Seq<char>)| #[trigger]
            after.contains(key) <==> attempted.contains(key) || jobs.contains(key) by {
            if j.contains(key) {
                let k = choose|k: int| 0 <= k < j.len() && j[k] == key;
                assert(jobs[k] == key);
            }
            if jobs.contains(key) {
                let k = choose|k: int| 0 <= k < jobs.len() && jobs[k] == key;
                if k < j.len() {
                    assert(j[k] == key);
                    assert(j.contains(key));
                }
            }
            if jobs.len() > j.len() {
                assert(jobs[jobs.len() - 1] == jobs.last());
            }
        }
        assert(jobs.no_duplicates()) by {
            if jobs.len() > j.len() {
                assert(!a.contains(jobs.last()));
                assert(!j.contains(jobs.last()));
                assert forall|x: int, y: int| 0 <= x < jobs.len() && 0 <= y < jobs.len() && x
                    != y implies jobs[x] != jobs[y] by {
                    if x < j.len() {
                        assert(jobs[x] == j[x]);
                        assert(j.contains(j[x]));
                    }
                    if y < j.len() {
                        assert(jobs[y] == j[y]);
                        assert(j.contains(j[y]));
                    }
                }
            }
        }
    }
}

/// The window is the first one that shows the turn of the thread.
pub open spec fn is_first_with(
    windows: Seq<WindowV>,
    thread_id: Seq<char>,
    turn_id: Seq<char>,
    at: int,
) -> bool {
    &&& 0 <= at < windows.len()
    &&& windows[at].thread_id == thread_id
    &&& windows[at].completed_turn_id == Some(turn_id)
    &&& forall|i: int|
        0 <= i < at ==> (#[trigger] windows[i]).thread_id != thread_id
            || windows[i].completed_turn_id != Some(turn_id)
}

proof fn lemma_place_of_turn(
    windows: Seq<WindowV>,
    thread_id: Seq<char>,
    turn_id: Seq<char>,
    at: int,
)
    requires
        is_first_with(windows, thread_id, turn_id, at),
    ensures
        place_of_turn(windows, thread_id, turn_id) == at,
    decreases at,
{
    if at > 0 {
        assert(windows[0].thread_id != thread_id || windows[0].completed_turn_id != Some(turn_id));
        let rest = windows.skip(1);
        assert(rest[at - 1] == windows[at]);
        assert forall|i: int| 0 <= i < at - 1 implies (#[trigger] rest[i]).thread_id != thread_id
            || rest[i].completed_turn_id != Some(turn_id) by {
            assert(rest[i] == windows[i + 1]);
        }
        lemma_place_of_turn(rest, thread_id, turn_id, at - 1);
    }
}

/// A summary that comes for the latest turn of a thread is shown by its window and held for the
/// thread, with whether somebody has to attend to it; nothing else changes.
pub proof fn summary_is_taken(
    windows: Seq<WindowV>,
    held: Map<Seq<char>, EntryV>,
    thread_id: Seq<char>,
    turn_id: Seq<char>,
    payload: SummaryPayload,
    at: int,
)
    requires
        is_first_with(windows, thread_id, turn_id, at),
    ensures
        ({
            let (after, cached, taken) = summary_taken(
                windows,
                held,
                thread_id,
                turn_id,
                Ok(payload),
            );
            let entry = EntryV {
                turn_id,
                summary: payload.summary@,
                attention: payload.attention,
            };
            &&& taken
            &&& after.len() == windows.len()
            &&& after[at] == (WindowV { classification: Some(entry), ..windows[at] })
            &&& forall|i: int| 0 <= i < windows.len() && i != at ==> after[i] == windows[i]
            &&& cached.contains_key(thread_id)
            &&& cached[thread_id] == entry
            &&& forall|other: Seq<char>|
                other != thread_id ==> cached.contains_key(other) == held.contains_key(other) && (
                held.contains_key(other) ==> cached[other] == held[other])
        }),
{
    lemma_place_of_turn(windows, thread_id, turn_id, at);
}

/// Where a summary failed, what was there is gone, from the window and from what is held.
pub proof fn failed_summary_takes_out(
    windows: Seq<WindowV>,
    held: Map<Seq<char>, EntryV>,
    thread_id: Seq<char>,
    turn_id: Seq<char>,
    reason: String,
    at: int,
)
    requires
        is_first_with(windows, thread_id, turn_id, at),
    ensures
        ({
            let (after, cached, taken) = summary_taken(
                windows,
                held,
                thread_id,
                turn_id,
                Err(reason),
            );
            &&& taken
            &&& after[at] == (WindowV { classification: None, ..windows[at] })
            &&& forall|i: int| 0 <= i < windows.len() && i != at ==> after[i] == windows[i]
            &&& !cached.contains_key(thread_id)
            &&& forall|other: Seq<char>|
                other != thread_id ==> cached.contains_key(other) == held.contains_key(other) && (
                held.contains_key(other) ==> cached[other] == held[other])
        }),
{
    lemma_place_of_turn(windows, thread_id, turn_id, at);
}

/// The text of a summary is that of the last message, whatever stands around it.
pub proof fn last_message_is_the_summary(items: Seq<TurnItem>, at: int)
    requires
        0 <= at < items.len(),
        items[at] is AgentMessage,
        forall|i: int| at < i < items.len() ==> (#[trigger] items[i]) is Other,
    ensures
        last_message(items) == Some(items[at]->text@),
    decreases items.len(),
{
    if at < items.len() - 1 {
        assert(items[items.len() - 1] is Other);
        let init = items.drop_last();
        assert forall|i: int| at < i < init.len() implies (#[trigger] init[i]) is Other by {
            assert(init[i] == items[i]);
        }
        last_message_is_the_summary(init, at);
    }
}

/// A summary is kept on one line and whole, up to forty characters.
pub proof fn short_summary_is_kept_whole(value: Seq<char>)
    ensures
        normalized(value).len() <= 40,
        collapse(value).len() <= 40 ==> normalized(value) == collapse(value),
        collapse(value).len() > 40 ==> normalized(value) == collapse(value).take(40),
{
}

// ---------------------------------------------------------------------------
// What is asked of the server

/// The latest turns of a thread are asked for, the latest first, four of them and without their
/// items.
pub proof fn latest_turns_are_asked_for(thread_id: Seq<char>)
    ensures
        recent_turns_request(thread_id).get("threadId"@) == Some(JsonV::Str(thread_id)),
        recent_turns_request(thread_id).get("limit"@) == Some(JsonV::Num(NumV::Int(4))),
        recent_turns_request(thread_id).get("sortDirection"@) == Some(JsonV::Str("desc"@)),
        recent_turns_request(thread_id).get("itemsView"@) == Some(JsonV::Str("notLoaded"@)),
{
    reveal_strlit("threadId");
    reveal_strlit("limit");
    reveal_strlit("sortDirection");
    reveal_strlit("itemsView");
    assert("threadId"@.len() == 8);
    assert("limit"@.len() == 5);
    assert("sortDirection"@.len() == 13);
    assert("itemsView"@.len() == 9);
}

/// A thread is read without its turns.
pub proof fn thread_is_read_without_turns(thread_id: Seq<char>)
    ensures
        read_request(thread_id).get("threadId"@) == Some(JsonV::Str(thread_id)),
        read_request(thread_id).get("includeTurns"@) == Some(JsonV::Bool(false)),
{
    reveal_strlit("threadId");
    reveal_strlit("includeTurns");
    assert("threadId"@.len() == 8);
    assert("includeTurns"@.len() == 12);
}

/// Each step of the loading asks for the thread of its session, and for nothing but the thread or
/// its turns.
pub proof fn loading_asks_for_the_thread(
    slug: Seq<char>,
    thread_id: Seq<char>,
    request_id: int,
)
    ensures
        load_request(LoadCallV::Read { slug, thread_id, request_id }) matches Some((method, params))
            && method == "thread/read"@ && params.get("threadId"@) == Some(JsonV::Str(thread_id)),
        load_request(LoadCallV::Turns { slug, thread_id, request_id }) matches Some((method, params))
            && method == "thread/turns/list"@ && params.get("threadId"@) == Some(
            JsonV::Str(thread_id),
        ),
{
    latest_turns_are_asked_for(thread_id);
    thread_is_read_without_turns(thread_id);
}

/// A summary is asked for in a form with a text of at most forty characters and a flag, both of
/// which have to be there, and nothing else.
pub proof fn summary_has_a_form()
    ensures
        schema().get("type"@) == Some(JsonV::Str("object"@)),
        schema().within("properties"@, "summary"@) == Some(summary_property()),
        summary_property().get("type"@) == Some(JsonV::Str("string"@)),
        summary_property().get("maxLength"@) == Some(JsonV::Num(NumV::Int(40))),
        schema().within("properties"@, "attention"@) matches Some(flag) && flag.get("type"@) == Some(
            JsonV::Str("boolean"@),
        ),
        schema().get("required"@) == Some(
            JsonV::Arr(seq![JsonV::Str("summary"@), JsonV::Str("attention"@)]),
        ),
        schema().get("additionalProperties"@) == Some(JsonV::Bool(false)),
{
    reveal_strlit("type");
    reveal_strlit("properties");
    reveal_strlit("summary");
    reveal_strlit("attention");
    reveal_strlit("required");
    reveal_strlit("additionalProperties");
    reveal_strlit("maxLength");
    assert("type"@.len() == 4);
    assert("properties"@.len() == 10);
    assert("summary"@.len() == 7);
    assert("attention"@.len() == 9);
    assert("required"@.len() == 8);
    assert("additionalProperties"@.len() == 20);
    assert("maxLength"@.len() == 9);
    assert("attention"@[0] == 'a');
    assert("maxLength"@[0] == 'm');
}

// ---------------------------------------------------------------------------
// Where things are kept

/// The state directory is the one that is set; without one it is below the user's state directory,
/// and without that below the home directory.
pub proof fn state_directory_is_found(
    set: Seq<char>,
    state: Option<Seq<char>>,
    home: Option<Seq<char>>,
    base: Seq<char>,
)
    requires
        base.len() > 0,
        base.last() != '/',
    ensures
        state_root_of(Some(set), state, home) == Some(set),
        state_root_of(None, Some(base), home) == Some(base + "/muster"@),
        state_root_of(None, None, Some(base)) == Some(base + "/.local/state/muster"@),
        cache_path_of(Some(base), home) == Some(base + "/puzzle/thread-summaries.json"@),
        cache_path_of(None, Some(base)) == Some(
            base + "/.local/state/puzzle/thread-summaries.json"@,
        ),
{
    reveal_strlit("muster");
    reveal_strlit("/muster");
    reveal_strlit(".local/state/muster");
    reveal_strlit("/.local/state/muster");
    reveal_strlit("puzzle/thread-summaries.json");
    reveal_strlit("/puzzle/thread-summaries.json");
    reveal_strlit(".local/state/puzzle/thread-summaries.json");
    reveal_strlit("/.local/state/puzzle/thread-summaries.json");
    assert(base + seq!['/'] + "muster"@ =~= base + "/muster"@);
    assert(base + seq!['/'] + ".local/state/muster"@ =~= base + "/.local/state/muster"@);
    assert(base + seq!['/'] + "puzzle/thread-summaries.json"@ =~= base
        + "/puzzle/thread-summaries.json"@);
    assert(base + seq!['/'] + ".local/state/puzzle/thread-summaries.json"@ =~= base
        + "/.local/state/puzzle/thread-summaries.json"@);
}

} // verus!
