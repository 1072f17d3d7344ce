//! What holds of the viewport as a whole, read off the commands that tmux is given.

use vstd::prelude::*;

use crate::chars::{first_hit, lemma_first_hit, lemma_first_hit_bounds, lines, Pick};
use crate::tmux::{
    is_slug, pane_for, setup_goes_on, show_begun, show_goes_on, tagged, AnswerV, AskV, SetupStageV,
    SetupStepV, SetupV, ShowV, StageV, TeleporterV,
};

verus! {

/// A window that is being shown, and what is asked of tmux for it.
pub struct Step {
    pub t: TeleporterV,
    pub s: ShowV,
    pub ask: AskV,
}

pub open spec fn first(t: TeleporterV, slug: Seq<char>, name: Seq<char>) -> Step {
    let (s, ask) = show_begun(t, slug, name);
    Step { t, s, ask }
}

/// What is asked when tmux has answered.
pub open spec fn next(step: Step, answer: AnswerV) -> Step {
    let (t, s, ask) = show_goes_on(step.t, step.s, answer);
    Step { t, s, ask }
}

/// What the command prints is wanted.
pub open spec fn prints(ask: AskV, args: Seq<Seq<char>>) -> bool {
    ask matches AskV::Output(given, _) && given == args
}

/// What is said where the command fails.
pub open spec fn excuse(ask: AskV) -> Seq<char> {
    match ask {
        AskV::Output(_, context) => context,
        AskV::Status(_, context) => context,
        _ => Seq::empty(),
    }
}

/// The command has to succeed.
pub open spec fn runs(ask: AskV, args: Seq<Seq<char>>) -> bool {
    ask matches AskV::Status(given, _) && given == args
}

/// The command tells by its success.
pub open spec fn tests(ask: AskV, args: Seq<Seq<char>>) -> bool {
    ask matches AskV::Success(given) && given == args
}

/// The command may fail.
pub open spec fn tries(ask: AskV, args: Seq<Seq<char>>) -> bool {
    ask matches AskV::Try(given) && given == args
}

/// The client of the window is being looked for among all panes.
pub open spec fn looks_for_client(step: Step, slug: Seq<char>, name: Seq<char>) -> bool {
    &&& prints(step.ask, seq!["list-panes"@, "-a"@, "-F"@, "#{pane_id}\t#{@puzzle-slug}"@])
    &&& step.s == (ShowV { slug, name, stage: StageV::FindPane })
}

/// The pane is none of those listed.
pub open spec fn is_gone(panes: Seq<char>, pane: Seq<char>) -> bool {
    forall|i: int| 0 <= i < lines(panes).len() ==> #[trigger] lines(panes)[i] != pane
}

// ---------------------------------------------------------------------------
// The viewport

/// A viewport that is not among the panes of the window is replaced: a pane is made beside the
/// list, it is recorded as the viewport of the window, and from then on it is the viewport.
pub proof fn lost_viewport_is_replaced(
    t: TeleporterV,
    slug: Seq<char>,
    name: Seq<char>,
    panes: Seq<char>,
    pane: Seq<char>,
)
    requires
        t.viewport_pane.len() > 0,
        is_gone(panes, t.viewport_pane),
    ensures
        ({
            let asked = first(t, slug, name);
            let made = next(asked, AnswerV::Text(panes));
            let recorded = next(made, AnswerV::Text(pane));
            let after = next(recorded, AnswerV::Done);
            &&& prints(asked.ask, seq!["list-panes"@, "-t"@, t.window_id, "-F"@, "#{pane_id}"@])
            &&& prints(
                made.ask,
                seq![
                    "split-window"@,
                    "-hdP"@,
                    "-p"@,
                    "65"@,
                    "-F"@,
                    "#{pane_id}"@,
                    "-t"@,
                    t.puzzle_pane,
                ],
            )
            &&& runs(
                recorded.ask,
                seq!["set-option"@, "-w"@, "-t"@, t.window_id, "@puzzle-viewport-pane"@, pane],
            )
            &&& excuse(asked.ask) == ""@
            &&& excuse(made.ask) == "create Puzzle viewport pane"@
            &&& excuse(recorded.ask) == "record Puzzle viewport pane"@
            &&& after.t.viewport_pane == pane
            &&& after.t.puzzle_pane == t.puzzle_pane
            &&& after.t.window_id == t.window_id
            &&& looks_for_client(after, slug, name)
        }),
{
}

/// Where there never was a viewport, one is made at once in the same way.
pub proof fn first_viewport_is_made(
    t: TeleporterV,
    slug: Seq<char>,
    name: Seq<char>,
    pane: Seq<char>,
)
    requires
        t.viewport_pane.len() == 0,
    ensures
        ({
            let made = first(t, slug, name);
            let recorded = next(made, AnswerV::Text(pane));
            let after = next(recorded, AnswerV::Done);
            &&& prints(
                made.ask,
                seq![
                    "split-window"@,
                    "-hdP"@,
                    "-p"@,
                    "65"@,
                    "-F"@,
                    "#{pane_id}"@,
                    "-t"@,
                    t.puzzle_pane,
                ],
            )
            &&& runs(
                recorded.ask,
                seq!["set-option"@, "-w"@, "-t"@, t.window_id, "@puzzle-viewport-pane"@, pane],
            )
            &&& after.t == (TeleporterV { viewport_pane: pane, ..t })
            &&& looks_for_client(after, slug, name)
        }),
{
}

/// A viewport that is still there stays.
pub proof fn viewport_that_is_there_stays(
    t: TeleporterV,
    slug: Seq<char>,
    name: Seq<char>,
    panes: Seq<char>,
)
    requires
        t.viewport_pane.len() > 0,
        !is_gone(panes, t.viewport_pane),
    ensures
        ({
            let after = next(first(t, slug, name), AnswerV::Text(panes));
            &&& after.t == t
            &&& looks_for_client(after, slug, name)
        }),
{
}

/// The line of a list names the pane as the one with the client of the window.
pub open spec fn names(line: Seq<char>, pane: Seq<char>, slug: Seq<char>) -> bool {
    &&& line == pane + seq!['\t'] + slug
    &&& forall|i: int| 0 <= i < pane.len() ==> #[trigger] pane[i] != '\t'
}

/// The pane is the first one in the list that is tagged with the slug.
pub open spec fn holds_client(panes: Seq<char>, pane: Seq<char>, slug: Seq<char>) -> bool {
    exists|i: int|
        #![trigger lines(panes)[i]]
        0 <= i < lines(panes).len() && names(lines(panes)[i], pane, slug) && forall|j: int|
            0 <= j < i ==> !ends_with(#[trigger] lines(panes)[j], seq!['\t'] + slug)
}

pub open spec fn ends_with(line: Seq<char>, end: Seq<char>) -> bool {
    end.len() <= line.len() && line.skip(line.len() - end.len()) == end
}

/// No pane in the list is tagged with the slug.
pub open spec fn no_client(panes: Seq<char>, slug: Seq<char>) -> bool {
    forall|i: int|
        0 <= i < lines(panes).len() ==> !ends_with(#[trigger] lines(panes)[i], seq!['\t'] + slug)
}

proof fn lemma_named(line: Seq<char>, pane: Seq<char>, slug: Seq<char>)
    requires
        names(line, pane, slug),
    ensures
        pane_for(line, slug) == Some(pane),
{
    let n = pane.len() as int;
    assert forall|j: int| 0 <= j < n implies line[j] != '\t' by {
        assert(line[j] == pane[j]);
    }
    assert(line[n] == '\t');
    lemma_first_hit(line, Pick::Is('\t'), n);
    assert(line.skip(n + 1) =~= slug);
    assert(line.take(n) =~= pane);
}

proof fn lemma_unnamed(line: Seq<char>, slug: Seq<char>)
    requires
        !ends_with(line, seq!['\t'] + slug),
    ensures
        pane_for(line, slug) is None,
{
    let n = first_hit(line, Pick::Is('\t')) as int;
    lemma_first_hit_bounds(line, Pick::Is('\t'));
    if n < line.len() && line.skip(n + 1) == slug {
        assert(line =~= line.take(n) + (seq!['\t'] + slug)) by {
            assert forall|k: int| n < k < line.len() implies line[k] == slug[k - n - 1] by {
                assert(line.skip(n + 1)[k - n - 1] == line[k]);
            }
        }
        assert(line.skip(n) =~= seq!['\t'] + slug);
    }
}

proof fn lemma_tagged(all: Seq<Seq<char>>, pane: Seq<char>, slug: Seq<char>, i: int)
    requires
        0 <= i < all.len(),
        names(all[i], pane, slug),
        forall|j: int| 0 <= j < i ==> !ends_with(#[trigger] all[j], seq!['\t'] + slug),
    ensures
        tagged(all, slug) == Some(pane),
    decreases i,
{
    if i == 0 {
        lemma_named(all[0], pane, slug);
    } else {
        lemma_unnamed(all[0], slug);
        let rest = all.skip(1);
        assert(rest[i - 1] == all[i]);
        assert forall|j: int| 0 <= j < i - 1 implies !ends_with(
            #[trigger] rest[j],
            seq!['\t'] + slug,
        ) by {
            assert(rest[j] == all[j + 1]);
        }
        lemma_tagged(rest, pane, slug, i - 1);
    }
}

proof fn lemma_untagged(all: Seq<Seq<char>>, slug: Seq<char>)
    requires
        forall|j: int| 0 <= j < all.len() ==> !ends_with(#[trigger] all[j], seq!['\t'] + slug),
    ensures
        tagged(all, slug) is None,
    decreases all.len(),
{
    if all.len() > 0 {
        lemma_unnamed(all[0], slug);
        let rest = all.skip(1);
        assert forall|j: int| 0 <= j < rest.len() implies !ends_with(
            #[trigger] rest[j],
            seq!['\t'] + slug,
        ) by {
            assert(rest[j] == all[j + 1]);
        }
        lemma_untagged(rest, slug);
    }
}

/// A client that some pane holds changes places with the viewport; its pane is recorded as the
/// viewport and is the viewport from then on.
pub proof fn client_is_brought_in(
    step: Step,
    slug: Seq<char>,
    name: Seq<char>,
    panes: Seq<char>,
    pane: Seq<char>,
)
    requires
        looks_for_client(step, slug, name),
        holds_client(panes, pane, slug),
        pane != step.t.viewport_pane,
    ensures
        ({
            let swapped = next(step, AnswerV::Text(panes));
            let recorded = next(swapped, AnswerV::Done);
            let after = next(recorded, AnswerV::Done);
            &&& runs(
                swapped.ask,
                seq!["swap-pane"@, "-d"@, "-s"@, pane, "-t"@, step.t.viewport_pane],
            )
            &&& swapped.t == step.t
            &&& excuse(swapped.ask) == "swap Codex client into Puzzle viewport"@
            &&& excuse(recorded.ask) == "record current Puzzle viewport pane"@
            &&& runs(
                recorded.ask,
                seq!["set-option"@, "-w"@, "-t"@, step.t.window_id, "@puzzle-viewport-pane"@, pane],
            )
            &&& after.ask is Done
            &&& after.t == (TeleporterV { viewport_pane: pane, ..step.t })
        }),
{
    let i = choose|i: int|
        #![trigger lines(panes)[i]]
        0 <= i < lines(panes).len() && names(lines(panes)[i], pane, slug) && forall|j: int|
            0 <= j < i ==> !ends_with(#[trigger] lines(panes)[j], seq!['\t'] + slug);
    lemma_tagged(lines(panes), pane, slug, i);
}

/// A client that is in the viewport already stays there, and nothing more is asked.
pub proof fn client_in_view_stays(
    step: Step,
    slug: Seq<char>,
    name: Seq<char>,
    panes: Seq<char>,
)
    requires
        looks_for_client(step, slug, name),
        holds_client(panes, step.t.viewport_pane, slug),
    ensures
        next(step, AnswerV::Text(panes)).ask is Done,
        next(step, AnswerV::Text(panes)).t == step.t,
{
    let pane = step.t.viewport_pane;
    let i = choose|i: int|
        #![trigger lines(panes)[i]]
        0 <= i < lines(panes).len() && names(lines(panes)[i], pane, slug) && forall|j: int|
            0 <= j < i ==> !ends_with(#[trigger] lines(panes)[j], seq!['\t'] + slug);
    lemma_tagged(lines(panes), pane, slug, i);
}

/// When the viewport was lost, the client comes into the new one: the pane that was made is the
/// target of the swap, not the one that is gone.
pub proof fn swap_goes_into_the_new_viewport(
    t: TeleporterV,
    slug: Seq<char>,
    name: Seq<char>,
    panes: Seq<char>,
    made: Seq<char>,
    all: Seq<char>,
    pane: Seq<char>,
)
    requires
        t.viewport_pane.len() > 0,
        is_gone(panes, t.viewport_pane),
        holds_client(all, pane, slug),
        pane != made,
    ensures
        ({
            let recorded = next(
                next(first(t, slug, name), AnswerV::Text(panes)),
                AnswerV::Text(made),
            );
            let swapped = next(next(recorded, AnswerV::Done), AnswerV::Text(all));
            &&& runs(swapped.ask, seq!["swap-pane"@, "-d"@, "-s"@, pane, "-t"@, made])
            &&& swapped.t.viewport_pane == made
        }),
{
    lost_viewport_is_replaced(t, slug, name, panes, made);
    let recorded = next(next(first(t, slug, name), AnswerV::Text(panes)), AnswerV::Text(made));
    client_is_brought_in(next(recorded, AnswerV::Done), slug, name, all, pane);
}

/// The command that tmux is given.
pub open spec fn command(ask: AskV) -> Seq<Seq<char>> {
    match ask {
        AskV::Output(args, _) => args,
        AskV::Status(args, _) => args,
        AskV::Success(args) => args,
        AskV::Try(args) => args,
        _ => Seq::empty(),
    }
}

proof fn lemma_commands()
    ensures
        "list-panes"@ != "split-window"@,
        "list-panes"@ != "set-option"@,
        "list-panes"@ != "has-session"@,
        "list-panes"@ != "new-session"@,
        "list-panes"@ != "run-shell"@,
        "list-panes"@ != "rename-window"@,
        "list-panes"@ != "swap-pane"@,
        "split-window"@ != "set-option"@,
        "split-window"@ != "has-session"@,
        "split-window"@ != "new-session"@,
        "split-window"@ != "run-shell"@,
        "split-window"@ != "rename-window"@,
        "split-window"@ != "swap-pane"@,
        "set-option"@ != "has-session"@,
        "set-option"@ != "new-session"@,
        "set-option"@ != "run-shell"@,
        "set-option"@ != "rename-window"@,
        "set-option"@ != "swap-pane"@,
        "has-session"@ != "new-session"@,
        "has-session"@ != "run-shell"@,
        "has-session"@ != "rename-window"@,
        "has-session"@ != "swap-pane"@,
        "new-session"@ != "run-shell"@,
        "new-session"@ != "rename-window"@,
        "new-session"@ != "swap-pane"@,
        "run-shell"@ != "rename-window"@,
        "run-shell"@ != "swap-pane"@,
        "rename-window"@ != "swap-pane"@,
{
    reveal_strlit("list-panes");
    reveal_strlit("split-window");
    reveal_strlit("set-option");
    reveal_strlit("has-session");
    reveal_strlit("new-session");
    reveal_strlit("run-shell");
    reveal_strlit("rename-window");
    reveal_strlit("swap-pane");
    assert("list-panes"@.len() == 10);
    assert("split-window"@.len() == 12);
    assert("set-option"@.len() == 10);
    assert("has-session"@.len() == 11);
    assert("new-session"@.len() == 11);
    assert("run-shell"@.len() == 9);
    assert("rename-window"@.len() == 13);
    assert("swap-pane"@.len() == 9);
    assert("has-session"@[0] == 'h');
    assert("list-panes"@[0] == 'l');
    assert("new-session"@[0] == 'n');
    assert("run-shell"@[0] == 'r');
    assert("set-option"@[0] == 's');
    assert("swap-pane"@[0] == 's');
}

/// Whatever is being done, panes change places with the viewport and no other, and the viewport is
/// the one that was last recorded.
pub proof fn swaps_go_into_the_viewport(step: Step, answer: AnswerV)
    ensures
        ({
            let after = next(step, answer);
            let args = command(after.ask);
            &&& args.len() > 0 && args[0] == "swap-pane"@ ==> args.len() == 6 && args[4] == "-t"@
                && args[5] == after.t.viewport_pane && after.t == step.t
            &&& after.t.puzzle_pane == step.t.puzzle_pane
            &&& after.t.window_id == step.t.window_id
        }),
{
    lemma_commands();
}

// ---------------------------------------------------------------------------
// A client that has to be started

/// What starts the client of a window, in a tmux window of the given name.
pub open spec fn starts_client(ask: AskV, slug: Seq<char>, name: Seq<char>) -> bool {
    runs(
        ask,
        seq![
            "run-shell"@,
            "-b"@,
            "tmux new-window -ad -t "@ + "puzzle-parking"@ + ":reserve -n "@ + name
                + " 'exec muster codex tui --slug "@ + slug + "'"@,
        ],
    )
}

/// Where no pane holds the client, it is started in the session for clients that are not shown,
/// which is made first where it is not there.
pub proof fn client_is_started(
    step: Step,
    slug: Seq<char>,
    name: Seq<char>,
    panes: Seq<char>,
)
    requires
        looks_for_client(step, slug, name),
        no_client(panes, slug),
        is_slug(slug),
    ensures
        ({
            let asked = next(step, AnswerV::Text(panes));
            let there = next(asked, AnswerV::Succeeded(true));
            let missing = next(asked, AnswerV::Succeeded(false));
            &&& tests(asked.ask, seq!["has-session"@, "-t"@, "puzzle-parking"@])
            &&& asked.t == step.t
            &&& starts_client(there.ask, slug, name)
            &&& runs(
                missing.ask,
                seq!["new-session"@, "-d"@, "-s"@, "puzzle-parking"@, "-n"@, "reserve"@],
            )
            &&& starts_client(next(missing, AnswerV::Done).ask, slug, name)
            &&& next(missing, AnswerV::Done) == there
            &&& there.t == step.t
            &&& there.s == (ShowV { slug, name, stage: StageV::StartClient })
        }),
{
    lemma_untagged(lines(panes), slug);
}

/// A window whose slug is none is not shown: nothing is run with it.
pub proof fn bad_slug_is_refused(
    step: Step,
    slug: Seq<char>,
    name: Seq<char>,
    panes: Seq<char>,
)
    requires
        looks_for_client(step, slug, name),
        no_client(panes, slug),
        !is_slug(slug),
    ensures
        next(step, AnswerV::Text(panes)).ask == AskV::Fail("invalid window slug: "@ + slug),
        next(step, AnswerV::Text(panes)).t == step.t,
{
    lemma_untagged(lines(panes), slug);
}

/// What is asked after the new client's pane was looked for in vain the given number of times, with a
/// pause behind each.
pub open spec fn waited(step: Step, times: nat) -> Step
    decreases times,
{
    if times == 0 {
        next(step, AnswerV::Done)
    } else {
        next(next(waited(step, (times - 1) as nat), AnswerV::Nothing), AnswerV::Done)
    }
}

/// The pane of a new client is looked for forty times, with pauses, in the tmux window that was
/// made for it; if there is none by then the window cannot be shown.
pub proof fn client_is_waited_for(step: Step, slug: Seq<char>, name: Seq<char>, times: nat)
    requires
        step.s == (ShowV { slug, name, stage: StageV::StartClient }),
        times <= 40,
    ensures
        ({
            let looked = waited(step, times);
            &&& looked.t == step.t
            &&& looked.s.slug == slug
            &&& looked.s.name == name
            &&& times < 40 ==> looked.s.stage == StageV::Poll((40 - times) as u8) && tries(
                looked.ask,
                seq!["list-panes"@, "-t"@, "puzzle-parking"@ + ":"@ + name, "-F"@, "#{pane_id}"@],
            ) && next(looked, AnswerV::Nothing).ask is Pause && next(
                looked,
                AnswerV::Text(Seq::empty()),
            ) == next(looked, AnswerV::Nothing)
            &&& times == 40 ==> looked.ask == AskV::Fail(
                "tmux did not create a client pane for "@ + slug,
            )
        }),
    decreases times,
{
    if times > 0 {
        client_is_waited_for(step, slug, name, (times - 1) as nat);
    }
}

/// When the new client's pane is there, it is tagged with the slug, its tmux window is named after
/// the slug, and it is brought into the viewport.
pub proof fn new_client_is_tagged_and_brought_in(
    step: Step,
    slug: Seq<char>,
    name: Seq<char>,
    left: u8,
    pane: Seq<char>,
)
    requires
        step.s == (ShowV { slug, name, stage: StageV::Poll(left) }),
        pane.len() > 0,
        pane != step.t.viewport_pane,
    ensures
        ({
            let tag = next(step, AnswerV::Text(pane));
            let named = next(tag, AnswerV::Done);
            let swapped = next(named, AnswerV::Done);
            let recorded = next(swapped, AnswerV::Done);
            let after = next(recorded, AnswerV::Done);
            &&& runs(tag.ask, seq!["set-option"@, "-p"@, "-t"@, pane, "@puzzle-slug"@, slug])
            &&& runs(named.ask, seq!["rename-window"@, "-t"@, pane, slug])
            &&& runs(
                swapped.ask,
                seq!["swap-pane"@, "-d"@, "-s"@, pane, "-t"@, step.t.viewport_pane],
            )
            &&& runs(
                recorded.ask,
                seq!["set-option"@, "-w"@, "-t"@, step.t.window_id, "@puzzle-viewport-pane"@, pane],
            )
            &&& after.ask is Done
            &&& after.t == (TeleporterV { viewport_pane: pane, ..step.t })
        }),
{
}

/// The focus goes into the viewport.
pub proof fn focus_goes_into_the_pane(pane: Seq<char>)
    ensures
        crate::tmux::select_pane(pane) == seq!["select-pane"@, "-t"@, pane],
{
}

// ---------------------------------------------------------------------------
// The start

/// The search asks which pane is recorded for the window; where none is, or the one that is has
/// gone, a pane is made beside the list and recorded, and it is the viewport.
pub proof fn start_makes_a_viewport(
    puzzle_pane: Seq<char>,
    window_id: Seq<char>,
    recorded: Seq<char>,
    panes: Seq<char>,
    made: Seq<char>,
)
    requires
        recorded.len() > 0 ==> is_gone(panes, recorded),
    ensures
        ({
            let begun = SetupV { puzzle_pane, stage: SetupStageV::FindWindow };
            let (asked, option) = setup_goes_on(begun, AnswerV::Text(window_id));
            let (checked, listed) = setup_goes_on(asked, AnswerV::Text(recorded));
            let (making, split) = if recorded.len() == 0 {
                (checked, listed)
            } else {
                setup_goes_on(checked, AnswerV::Text(panes))
            };
            let (recording, set) = setup_goes_on(making, AnswerV::Text(made));
            let (_, found) = setup_goes_on(recording, AnswerV::Done);
            &&& option matches SetupStepV::Ask(ask) && prints(
                ask,
                seq!["show-option"@, "-wqv"@, "-t"@, window_id, "@puzzle-viewport-pane"@],
            )
            &&& recorded.len() > 0 ==> (listed matches SetupStepV::Ask(ask) && prints(
                ask,
                seq!["list-panes"@, "-t"@, window_id, "-F"@, "#{pane_id}"@],
            ))
            &&& split matches SetupStepV::Ask(ask) && prints(
                ask,
                seq![
                    "split-window"@,
                    "-hdP"@,
                    "-p"@,
                    "65"@,
                    "-F"@,
                    "#{pane_id}"@,
                    "-t"@,
                    puzzle_pane,
                ],
            )
            &&& set matches SetupStepV::Ask(ask) && runs(
                ask,
                seq!["set-option"@, "-w"@, "-t"@, window_id, "@puzzle-viewport-pane"@, made],
            )
            &&& found == SetupStepV::Ready(
                TeleporterV { puzzle_pane, window_id, viewport_pane: made },
            )
        }),
{
}

/// A pane that is recorded and still there is the viewport at once.
pub proof fn start_keeps_the_viewport(
    puzzle_pane: Seq<char>,
    window_id: Seq<char>,
    recorded: Seq<char>,
    panes: Seq<char>,
)
    requires
        recorded.len() > 0,
        !is_gone(panes, recorded),
    ensures
        ({
            let begun = SetupV { puzzle_pane, stage: SetupStageV::FindWindow };
            let asked = setup_goes_on(begun, AnswerV::Text(window_id)).0;
            let checked = setup_goes_on(asked, AnswerV::Text(recorded)).0;
            setup_goes_on(checked, AnswerV::Text(panes)).1 == SetupStepV::Ready(
                TeleporterV { puzzle_pane, window_id, viewport_pane: recorded },
            )
        }),
{
}

} // verus!
