//! The reader of a conversation: moving through its entries, the prompt, and questions for
//! approval.

use vstd::prelude::*;

use crate::chars::{join, join_all, opt_text, text_trim, texts, trim};
use crate::keys::{Code, Key};
use crate::model::{blocks_view, BlockV, ContentBlock, ConversationEntry};

verus! {

#[derive(Clone, Copy, Debug, PartialEq, Eq, Structural)]
pub enum Mode {
    Scroll,
    Input,
}

#[derive(Clone, Copy, Debug, PartialEq, Eq, Structural)]
pub enum RunState {
    Idle,
    Running,
}

/// A question for approval that waits for an answer.
#[derive(Debug)]
pub struct PendingApproval {
    pub tool_name: String,
    pub input_summary: String,
}

#[derive(Clone, Copy, Debug, PartialEq, Eq, Structural)]
pub enum ApprovalDecision {
    Allow,
    Deny,
}

#[derive(Debug)]
pub struct App {
    pub entries: Vec<ConversationEntry>,
    /// The entry that is selected.
    pub selected: Option<usize>,
    /// Whether the last entry is selected as entries come.
    pub follow: bool,
    pub should_quit: bool,
    pub mode: Mode,
    pub run_state: RunState,
    pub repl_mode: bool,
    /// Where the next prompt runs, where it is not here.
    pub target_label: Option<String>,
    pub pending_approval: Option<PendingApproval>,
    pub approval_decision: Option<ApprovalDecision>,
}

/// The reader, apart from what its entries hold.
pub struct AppV {
    pub count: nat,
    pub selected: Option<int>,
    pub follow: bool,
    pub should_quit: bool,
    pub mode: Mode,
    pub run_state: RunState,
    pub repl_mode: bool,
    pub label: Option<Seq<char>>,
    /// The tool and its input that a question is about.
    pub asked: Option<(Seq<char>, Seq<char>)>,
    pub decision: Option<ApprovalDecision>,
}

impl View for App {
    type V = AppV;

    open spec fn view(&self) -> AppV {
        AppV {
            count: self.entries@.len(),
            selected: match self.selected {
                Some(i) => Some(i as int),
                None => None,
            },
            follow: self.follow,
            should_quit: self.should_quit,
            mode: self.mode,
            run_state: self.run_state,
            repl_mode: self.repl_mode,
            label: opt_text(self.target_label),
            asked: match self.pending_approval {
                Some(question) => Some((question.tool_name@, question.input_summary@)),
                None => None,
            },
            decision: self.approval_decision,
        }
    }
}

pub open spec fn last_entry(count: nat) -> int {
    if count == 0 {
        0
    } else {
        count - 1
    }
}

pub open spec fn current(a: AppV) -> int {
    match a.selected {
        Some(i) => i,
        None => 0,
    }
}

/// Moves the selection down, no further than the last entry.
pub open spec fn scrolled_down(a: AppV, n: int) -> AppV {
    let next = if current(a) + n < last_entry(a.count) {
        current(a) + n
    } else {
        last_entry(a.count)
    };
    AppV { selected: Some(next), ..a }
}

/// Moves the selection up, no further than the first entry.
pub open spec fn scrolled_up(a: AppV, n: int) -> AppV {
    let next = if current(a) < n {
        0
    } else {
        current(a) - n
    };
    AppV { selected: Some(next), ..a }
}

pub open spec fn at_bottom(a: AppV) -> AppV {
    if a.count == 0 {
        a
    } else {
        AppV { selected: Some(last_entry(a.count)), ..a }
    }
}

/// One more entry is there, and is selected while entries are followed.
pub open spec fn added(a: AppV) -> AppV {
    let more = AppV { count: a.count + 1, ..a };
    if a.follow {
        at_bottom(more)
    } else {
        more
    }
}

/// A tool's result is unfolded, or folded again; other blocks stay as they are.
pub open spec fn toggled(block: BlockV) -> BlockV {
    match block {
        BlockV::ToolResult { content, is_error, collapsed } => BlockV::ToolResult {
            content,
            is_error,
            collapsed: !collapsed,
        },
        other => other,
    }
}

pub open spec fn all_toggled(blocks: Seq<BlockV>) -> Seq<BlockV> {
    Seq::new(blocks.len(), |i: int| toggled(blocks[i]))
}

/// What a key does.
pub struct KeyedV {
    pub app: AppV,
    /// The tool results of the selected entry are folded or unfolded.
    pub toggles: bool,
    /// The key goes to the text of the prompt.
    pub typed: bool,
}

pub open spec fn does(app: AppV) -> KeyedV {
    KeyedV { app, toggles: false, typed: false }
}

pub open spec fn is_ctrl_c(key: Key) -> bool {
    key.code == Code::Char('c') && key.ctrl
}

/// While a question waits only its answer counts.
pub open spec fn answered(a: AppV, key: Key) -> KeyedV {
    if key.code == Code::Char('y') {
        does(AppV { asked: None, decision: Some(ApprovalDecision::Allow), ..a })
    } else if key.code == Code::Char('n') {
        does(AppV { asked: None, decision: Some(ApprovalDecision::Deny), ..a })
    } else {
        does(a)
    }
}

pub open spec fn input_key(a: AppV, key: Key) -> KeyedV {
    if key.code == Code::Esc {
        does(AppV { mode: Mode::Scroll, ..a })
    } else if is_ctrl_c(key) {
        does(AppV { should_quit: true, ..a })
    } else {
        KeyedV { app: a, toggles: false, typed: a.run_state != RunState::Running }
    }
}

pub open spec fn scroll_key(a: AppV, key: Key) -> KeyedV {
    let code = key.code;
    if code == Code::Char('q') || is_ctrl_c(key) {
        does(AppV { should_quit: true, ..a })
    } else if code == Code::Char('i') && a.repl_mode {
        does(AppV { mode: Mode::Input, ..a })
    } else if code == Code::Enter {
        KeyedV { app: a, toggles: true, typed: false }
    } else if code == Code::Char('j') || code == Code::Down {
        does(AppV { follow: false, ..scrolled_down(a, 1) })
    } else if code == Code::Char('k') || code == Code::Up {
        does(AppV { follow: false, ..scrolled_up(a, 1) })
    } else if code == Code::PageDown {
        does(AppV { follow: false, ..scrolled_down(a, 20) })
    } else if code == Code::PageUp {
        does(AppV { follow: false, ..scrolled_up(a, 20) })
    } else if code == Code::Char('G') || code == Code::End {
        does(AppV { follow: true, ..at_bottom(a) })
    } else if code == Code::Char('g') || code == Code::Home {
        does(AppV { follow: false, selected: Some(0), ..a })
    } else {
        does(a)
    }
}

pub open spec fn keyed(a: AppV, key: Key) -> KeyedV {
    if a.asked is Some {
        answered(a, key)
    } else {
        match a.mode {
            Mode::Input => input_key(a, key),
            Mode::Scroll => scroll_key(a, key),
        }
    }
}

/// The entries after the tool results of the selected one were folded or unfolded.
pub open spec fn folded(
    before: Seq<ConversationEntry>,
    selected: Option<int>,
    after: Seq<ConversationEntry>,
) -> bool {
    &&& after.len() == before.len()
    &&& forall|i: int|
        #![trigger after[i]]
        0 <= i < before.len() ==> if selected == Some(i) {
            &&& blocks_view(after[i].blocks@) == all_toggled(blocks_view(before[i].blocks@))
            &&& after[i].kind == before[i].kind
            &&& after[i].uuid == before[i].uuid
            &&& after[i].seq == before[i].seq
            &&& after[i].timestamp == before[i].timestamp
            &&& after[i].input_tokens == before[i].input_tokens
            &&& after[i].output_tokens == before[i].output_tokens
        } else {
            after[i] == before[i]
        }
}

fn toggle_block(block: ContentBlock) -> (out: ContentBlock)
    ensures
        out@ == toggled(block@),
{
    match block {
        ContentBlock::ToolResult { content, is_error, collapsed } => ContentBlock::ToolResult {
            content,
            is_error,
            collapsed: !collapsed,
        },
        other => other,
    }
}

impl App {
    pub fn new(repl_mode: bool) -> (out: Self)
        ensures
            out@ == (AppV {
                count: 0,
                selected: Some(0),
                follow: true,
                should_quit: false,
                mode: if repl_mode {
                    Mode::Input
                } else {
                    Mode::Scroll
                },
                run_state: RunState::Idle,
                repl_mode,
                label: None,
                asked: None,
                decision: None,
            }),
    {
        App {
            entries: Vec::new(),
            selected: Some(0),
            follow: true,
            should_quit: false,
            mode: if repl_mode {
                Mode::Input
            } else {
                Mode::Scroll
            },
            run_state: RunState::Idle,
            repl_mode,
            target_label: None,
            pending_approval: None,
            approval_decision: None,
        }
    }

    /// Adds an entry, and selects it while entries are followed.
    pub fn push_entry(&mut self, entry: ConversationEntry)
        ensures
            final(self).entries@ == old(self).entries@.push(entry),
            final(self)@ == added(old(self)@),
    {
        self.entries.push(entry);
        if self.follow {
            self.scroll_to_bottom();
        }
    }

    /// The text of the prompt, where it is not blank. The prompt is then to be emptied.
    pub fn submit_input(&self, lines: &Vec<String>) -> (out: Option<String>)
        ensures
            match out {
                Some(content) => content@ == join(texts(lines@), "\n"@) && trim(content@).len() > 0,
                None => trim(join(texts(lines@), "\n"@)).len() == 0,
            },
    {
        let content = join_all(lines, "\n");
        if text_trim(content.as_str()).as_str().is_empty() {
            None
        } else {
            Some(content)
        }
    }

    /// Takes a key. Returns whether it goes to the text of the prompt.
    pub fn handle_key(&mut self, key: Key) -> (typed: bool)
        ensures
            ({
                let k = keyed(old(self)@, key);
                &&& final(self)@ == k.app
                &&& typed == k.typed
                &&& k.toggles ==> folded(
                    old(self).entries@,
                    old(self)@.selected,
                    final(self).entries@,
                )
                &&& !k.toggles ==> final(self).entries == old(self).entries
            }),
    {
        if self.pending_approval.is_some() {
            match key.code {
                Code::Char('y') => {
                    self.pending_approval = None;
                    self.approval_decision = Some(ApprovalDecision::Allow);
                },
                Code::Char('n') => {
                    self.pending_approval = None;
                    self.approval_decision = Some(ApprovalDecision::Deny);
                },
                _ => {},
            }
            return false;
        }
        match self.mode {
            Mode::Input => self.handle_input_key(key),
            Mode::Scroll => {
                self.handle_scroll_key(key);
                false
            },
        }
    }

    fn handle_input_key(&mut self, key: Key) -> (typed: bool)
        ensures
            final(self)@ == input_key(old(self)@, key).app,
            typed == input_key(old(self)@, key).typed,
            final(self).entries == old(self).entries,
    {
        match key.code {
            Code::Esc => {
                self.mode = Mode::Scroll;
                false
            },
            Code::Char('c') => {
                if key.ctrl {
                    self.should_quit = true;
                    false
                } else {
                    self.run_state != RunState::Running
                }
            },
            _ => self.run_state != RunState::Running,
        }
    }

    fn handle_scroll_key(&mut self, key: Key)
        ensures
            ({
                let k = scroll_key(old(self)@, key);
                &&& final(self)@ == k.app
                &&& k.toggles ==> folded(
                    old(self).entries@,
                    old(self)@.selected,
                    final(self).entries@,
                )
                &&& !k.toggles ==> final(self).entries == old(self).entries
            }),
    {
        match key.code {
            Code::Char('q') => {
                self.should_quit = true;
            },
            Code::Char('c') => {
                if key.ctrl {
                    self.should_quit = true;
                }
            },
            Code::Char('i') => {
                if self.repl_mode {
                    self.mode = Mode::Input;
                }
            },
            Code::Enter => {
                self.toggle_tool_results();
            },
            Code::Char('j') | Code::Down => {
                self.scroll_down(1);
                self.follow = false;
            },
            Code::Char('k') | Code::Up => {
                self.scroll_up(1);
                self.follow = false;
            },
            Code::PageDown => {
                self.scroll_down(20);
                self.follow = false;
            },
            Code::PageUp => {
                self.scroll_up(20);
                self.follow = false;
            },
            Code::Char('G') | Code::End => {
                self.scroll_to_bottom();
                self.follow = true;
            },
            Code::Char('g') | Code::Home => {
                self.selected = Some(0);
                self.follow = false;
            },
            _ => {},
        }
    }

    fn toggle_tool_results(&mut self)
        ensures
            final(self)@ == old(self)@,
            folded(old(self).entries@, old(self)@.selected, final(self).entries@),
    {
        let i = match self.selected {
            Some(i) => i,
            None => {
                return;
            },
        };
        if i >= self.entries.len() {
            return;
        }
        let ghost before = self.entries@;
        let mut entry = self.entries.remove(i);
        let mut blocks: Vec<ContentBlock> = Vec::new();
        std::mem::swap(&mut blocks, &mut entry.blocks);
        let ghost all = blocks@;
        let ghost vs = blocks_view(all);
        let mut out: Vec<ContentBlock> = Vec::new();
        assert(blocks_view(out@) =~= all_toggled(vs).take(0));
        for block in it: blocks
            invariant
                it.seq() == all,
                vs == blocks_view(all),
                blocks_view(out@) == all_toggled(vs).take(it.index() as int),
        {
            let ghost k = it.index() as int;
            let done = toggle_block(block);
            let ghost had = out@;
            out.push(done);
            proof {
                assert(vs[k] == block@);
                assert(blocks_view(out@) =~= blocks_view(had).push(done@));
                assert(all_toggled(vs).take(k + 1) =~= all_toggled(vs).take(k).push(
                    toggled(vs[k]),
                ));
            }
        }
        assert(all_toggled(vs).take(all.len() as int) =~= all_toggled(vs));
        entry.blocks = out;
        self.entries.insert(i, entry);
        assert(self.entries@ =~= before.update(i as int, entry));
    }

    fn scroll_down(&mut self, n: usize)
        ensures
            final(self)@ == scrolled_down(old(self)@, n as int),
            final(self).entries == old(self).entries,
    {
        let current: usize = match self.selected {
            Some(i) => i,
            None => 0,
        };
        let max: usize = if self.entries.len() == 0 {
            0
        } else {
            self.entries.len() - 1
        };
        let next: usize = if current < max && n < max - current {
            current + n
        } else {
            max
        };
        self.selected = Some(next);
    }

    fn scroll_up(&mut self, n: usize)
        ensures
            final(self)@ == scrolled_up(old(self)@, n as int),
            final(self).entries == old(self).entries,
    {
        let current: usize = match self.selected {
            Some(i) => i,
            None => 0,
        };
        let next: usize = if current < n {
            0
        } else {
            current - n
        };
        self.selected = Some(next);
    }

    fn scroll_to_bottom(&mut self)
        ensures
            final(self)@ == at_bottom(old(self)@),
            final(self).entries == old(self).entries,
    {
        if self.entries.len() > 0 {
            self.selected = Some(self.entries.len() - 1);
        }
    }
}

// ---------------------------------------------------------------------------
// What holds of the reader

/// The selection is an entry, or the first place while there are none.
pub open spec fn in_range(a: AppV) -> bool {
    a.selected matches Some(i) ==> 0 <= i <= last_entry(a.count)
}

/// No key moves the selection out of the entries.
pub proof fn selection_stays_in_range(a: AppV, key: Key)
    requires
        in_range(a),
    ensures
        in_range(keyed(a, key).app),
{
}

/// While a question for approval waits, no key does anything but answer it, and the question stays
/// as it is until then.
pub proof fn question_takes_all_keys(a: AppV, key: Key)
    requires
        a.asked is Some,
    ensures
        ({
            let k = keyed(a, key);
            &&& !k.typed
            &&& !k.toggles
            &&& k.app == (AppV { asked: k.app.asked, decision: k.app.decision, ..a })
            &&& if key.code == Code::Char('y') || key.code == Code::Char('n') {
                k.app.asked is None && k.app.decision is Some
            } else {
                k.app == a
            }
        }),
{
}

/// Folding what was unfolded restores it.
pub proof fn toggling_twice_restores(blocks: Seq<BlockV>)
    ensures
        all_toggled(all_toggled(blocks)) == blocks,
{
    assert(all_toggled(all_toggled(blocks)) =~= blocks);
}

/// While the other side runs nothing is typed into the prompt.
pub proof fn running_takes_no_text(a: AppV, key: Key)
    requires
        a.run_state == RunState::Running,
    ensures
        !keyed(a, key).typed,
{
}

/// While entries are followed the selection is on the last one as they come, and otherwise it stays
/// where it is.
pub proof fn new_entries_are_followed(a: AppV)
    ensures
        a.follow ==> added(a).selected == Some(a.count as int),
        !a.follow ==> added(a).selected == a.selected,
        added(a).follow == a.follow,
{
}

/// Whoever scrolls does not follow any more, up to the key that goes to the end.
pub proof fn scrolling_stops_following(a: AppV, key: Key)
    requires
        a.asked is None,
        a.mode == Mode::Scroll,
    ensures
        ({
            let moves = key.code == Code::Char('j') || key.code == Code::Down || key.code
                == Code::Char('k') || key.code == Code::Up || key.code == Code::PageDown
                || key.code == Code::PageUp || key.code == Code::Char('g') || key.code == Code::Home;
            let ends = key.code == Code::Char('G') || key.code == Code::End;
            &&& moves ==> !keyed(a, key).app.follow
            &&& ends ==> keyed(a, key).app.follow
            &&& !moves && !ends ==> keyed(a, key).app.follow == a.follow
        }),
{
}

} // verus!
