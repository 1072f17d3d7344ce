//! The record of a conversation across spurts. Each spurt replays the conversation; what is new
//! begins at a boundary, the first answer of the spurt, and only that is added.

use vstd::prelude::*;

use crate::chars::{
    lemma_after_last, lemma_first_hit, lines, opt_text, same, split_lines, strip_cr, text_trim,
    texts, trim, Pick,
};
use crate::json::{
    compact_text, items_view, lemma_items_push, lemma_items_view, one_line, parsed, plain, Json,
    JsonV,
};

verus! {

#[derive(Debug)]
pub struct Transcript {
    pub entries: Vec<Json>,
    pub boundary_uuid: Option<String>,
    pub boundary_found: bool,
    pub buffer: Vec<Json>,
    pub path: String,
}

#[verifier::ext_equal]
pub struct TranscriptV {
    pub entries: Seq<JsonV>,
    pub boundary: Option<Seq<char>>,
    pub found: bool,
    /// What came before the boundary was found.
    pub buffer: Seq<JsonV>,
}

impl View for Transcript {
    type V = TranscriptV;

    open spec fn view(&self) -> TranscriptV {
        TranscriptV {
            entries: items_view(self.entries@),
            boundary: opt_text(self.boundary_uuid),
            found: self.boundary_found,
            buffer: items_view(self.buffer@),
        }
    }
}

/// The place of the boundary; the length where it has not come.
pub open spec fn boundary_at(buffer: Seq<JsonV>, uuid: Seq<char>) -> nat
    decreases buffer.len(),
{
    if buffer.len() == 0 || buffer[0].str_at("uuid"@) == Some(uuid) {
        0
    } else {
        1 + boundary_at(buffer.skip(1), uuid)
    }
}

pub open spec fn from_user(data: JsonV) -> bool {
    data.str_at("type"@) == Some("user"@)
}

/// The place of the last entry from the user; none where there is none.
pub open spec fn last_user(buffer: Seq<JsonV>) -> Option<int>
    decreases buffer.len(),
{
    if buffer.len() == 0 {
        None
    } else if from_user(buffer.last()) {
        Some(buffer.len() - 1)
    } else {
        last_user(buffer.drop_last())
    }
}

/// Where the new content begins: at what the user said before the boundary, or at the boundary
/// where the user said nothing.
pub open spec fn start_of(buffer: Seq<JsonV>, boundary: int) -> int {
    match last_user(buffer.take(boundary)) {
        Some(i) => i,
        None => boundary,
    }
}

/// Looks for the boundary, and takes what is new where it has come.
pub open spec fn settled(t: TranscriptV) -> (TranscriptV, Seq<JsonV>) {
    match t.boundary {
        None => (t, Seq::empty()),
        Some(uuid) => {
            let at = boundary_at(t.buffer, uuid);
            if at >= t.buffer.len() {
                (t, Seq::empty())
            } else {
                let fresh = t.buffer.skip(start_of(t.buffer, at as int));
                (
                    TranscriptV {
                        entries: t.entries + fresh,
                        found: true,
                        buffer: Seq::empty(),
                        ..t
                    },
                    fresh,
                )
            }
        },
    }
}

pub open spec fn spurt_begun(t: TranscriptV) -> TranscriptV {
    TranscriptV {
        boundary: None,
        found: t.entries.len() == 0,
        buffer: Seq::empty(),
        ..t
    }
}

pub open spec fn boundary_set(t: TranscriptV, uuid: Seq<char>) -> (TranscriptV, Seq<JsonV>) {
    settled(TranscriptV { boundary: Some(uuid), ..t })
}

pub open spec fn envelope_taken(t: TranscriptV, data: JsonV) -> (TranscriptV, Seq<JsonV>) {
    if t.found {
        (TranscriptV { entries: t.entries.push(data), ..t }, seq![data])
    } else {
        settled(TranscriptV { buffer: t.buffer.push(data), ..t })
    }
}

/// The entries in the text of a saved transcript: its lines, as far as they are JSON.
pub open spec fn saved_in(lines: Seq<Seq<char>>) -> Seq<JsonV>
    decreases lines.len(),
{
    if lines.len() == 0 {
        Seq::empty()
    } else {
        let before = saved_in(lines.drop_last());
        let line = trim(lines.last());
        match parsed(line) {
            Some(data) if line.len() > 0 => before.push(data),
            _ => before,
        }
    }
}

/// The line that an entry is saved as.
pub open spec fn entry_line(data: JsonV) -> Seq<char> {
    compact_text(data) + seq!['\n']
}

fn is_boundary(data: &Json, uuid: &str) -> (out: bool)
    ensures
        out == (data@.str_at("uuid"@) == Some(uuid@)),
{
    match data.str_at("uuid") {
        Some(u) => same(u, uuid),
        None => false,
    }
}

fn is_from_user(data: &Json) -> (out: bool)
    ensures
        out == from_user(data@),
{
    match data.str_at("type") {
        Some(t) => same(t, "user"),
        None => false,
    }
}

fn find_boundary(buffer: &Vec<Json>, uuid: &str) -> (out: usize)
    ensures
        out <= buffer@.len(),
        out == boundary_at(items_view(buffer@), uuid@),
{
    proof {
        lemma_items_view(buffer@);
    }
    let ghost all = items_view(buffer@);
    let mut i: usize = 0;
    assert(all.skip(0) =~= all);
    while i < buffer.len()
        invariant
            i <= buffer@.len(),
            all.len() == buffer@.len(),
            forall|j: int| 0 <= j < buffer@.len() ==> #[trigger] all[j] == buffer@[j]@,
            boundary_at(all, uuid@) == i + boundary_at(all.skip(i as int), uuid@),
            all == items_view(buffer@),
        decreases buffer.len() - i,
    {
        assert(all.skip(i as int)[0] == buffer@[i as int]@);
        assert(all.skip(i as int).skip(1) =~= all.skip(i + 1));
        if is_boundary(&buffer[i], uuid) {
            return i;
        }
        i += 1;
    }
    i
}

fn find_start(buffer: &Vec<Json>, boundary: usize) -> (out: usize)
    requires
        boundary <= buffer@.len(),
    ensures
        out <= boundary,
        out == start_of(items_view(buffer@), boundary as int),
{
    proof {
        lemma_items_view(buffer@);
    }
    let ghost all = items_view(buffer@);
    let mut i: usize = boundary;
    while i > 0
        invariant
            i <= boundary <= buffer@.len(),
            all.len() == buffer@.len(),
            all == items_view(buffer@),
            forall|j: int| 0 <= j < buffer@.len() ==> #[trigger] all[j] == buffer@[j]@,
            last_user(all.take(boundary as int)) == last_user(all.take(i as int)),
        decreases i,
    {
        assert(all.take(i as int).drop_last() =~= all.take(i - 1));
        assert(all.take(i as int).last() == buffer@[i - 1]@);
        i -= 1;
        if is_from_user(&buffer[i]) {
            return i;
        }
    }
    boundary
}

impl Transcript {
    pub fn new(path: &str) -> (out: Self)
        ensures
            out.path@ == path@,
            out@ == (TranscriptV {
                entries: Seq::empty(),
                boundary: None,
                found: false,
                buffer: Seq::empty(),
            }),
    {
        Transcript {
            entries: Vec::new(),
            boundary_uuid: None,
            boundary_found: false,
            buffer: Vec::new(),
            path: path.to_owned(),
        }
    }

    /// A spurt begins. In the first one everything is new.
    pub fn begin_spurt(&mut self)
        ensures
            final(self)@ == spurt_begun(old(self)@),
            final(self).path == old(self).path,
    {
        proof {
            lemma_items_view(self.entries@);
        }
        self.boundary_uuid = None;
        self.boundary_found = self.entries.len() == 0;
        self.buffer = Vec::new();
    }

    /// The first answer of the spurt is known. Returns the entries that are new.
    pub fn set_boundary(&mut self, uuid: &str) -> (out: Vec<Json>)
        ensures
            (final(self)@, items_view(out@)) == boundary_set(old(self)@, uuid@),
            final(self).path == old(self).path,
    {
        self.boundary_uuid = Some(uuid.to_owned());
        self.process_buffer()
    }

    /// An entry of the replay has come. Returns the entries that are new.
    pub fn handle_envelope(&mut self, data: Json) -> (out: Vec<Json>)
        ensures
            (final(self)@, items_view(out@)) == envelope_taken(old(self)@, data@),
            final(self).path == old(self).path,
    {
        if self.boundary_found {
            let mut out: Vec<Json> = Vec::new();
            self.accept(data, &mut out);
            assert(items_view(out@) =~= seq![data@]);
            return out;
        }
        proof {
            lemma_items_push(self.buffer@, data);
        }
        self.buffer.push(data);
        self.process_buffer()
    }

    /// Takes over the text of another window's transcript. Returns the entries in it.
    pub fn load(&mut self, content: &str) -> (out: Vec<Json>)
        ensures
            items_view(out@) == saved_in(lines(content@)),
            final(self)@ == (TranscriptV {
                entries: old(self)@.entries + saved_in(lines(content@)),
                ..old(self)@
            }),
            final(self).path == old(self).path,
    {
        let all = split_lines(content);
        let mut out: Vec<Json> = Vec::new();
        let mut i: usize = 0;
        let ghost ls = texts(all@);
        let ghost before = self@.entries;
        assert(ls.take(0) =~= Seq::<Seq<char>>::empty());
        assert(before + Seq::<JsonV>::empty() =~= before);
        while i < all.len()
            invariant
                i <= all.len(),
                ls == texts(all@),
                items_view(out@) == saved_in(ls.take(i as int)),
                self@ == (TranscriptV {
                    entries: before + saved_in(ls.take(i as int)),
                    ..old(self)@
                }),
                self.path == old(self).path,
            decreases all.len() - i,
        {
            let line = text_trim(all[i].as_str());
            assert(ls.take(i + 1).drop_last() =~= ls.take(i as int));
            assert(ls.take(i + 1).last() == all@[i as int]@);
            if !line.as_str().is_empty() {
                if let Some(data) = Json::parse(line.as_str()) {
                    let ghost had = saved_in(ls.take(i as int));
                    assert((before + had).push(data@) =~= before + had.push(data@));
                    self.accept(data, &mut out);
                }
            }
            i += 1;
        }
        assert(ls.take(i as int) =~= ls);
        out
    }

    /// How many entries there are.
    pub fn len(&self) -> (out: usize)
        ensures
            out == self@.entries.len(),
    {
        proof {
            lemma_items_view(self.entries@);
        }
        self.entries.len()
    }

    pub fn entries(&self) -> (out: &Vec<Json>)
        ensures
            items_view(out@) == self@.entries,
    {
        &self.entries
    }

    fn accept(&mut self, data: Json, out: &mut Vec<Json>)
        ensures
            final(self)@ == (TranscriptV {
                entries: old(self)@.entries.push(data@),
                ..old(self)@
            }),
            items_view(final(out)@) == items_view(old(out)@).push(data@),
            final(self).path == old(self).path,
    {
        let copy = data.copy();
        proof {
            lemma_items_push(self.entries@, data);
            lemma_items_push(out@, copy);
        }
        self.entries.push(data);
        out.push(copy);
    }

    fn process_buffer(&mut self) -> (out: Vec<Json>)
        ensures
            (final(self)@, items_view(out@)) == settled(old(self)@),
            final(self).path == old(self).path,
    {
        let mut out: Vec<Json> = Vec::new();
        proof {
            lemma_items_view(self.buffer@);
        }
        let at: usize = match &self.boundary_uuid {
            Some(uuid) => find_boundary(&self.buffer, uuid.as_str()),
            None => {
                return out;
            },
        };
        if at >= self.buffer.len() {
            return out;
        }
        let start = find_start(&self.buffer, at);
        self.boundary_found = true;
        let mut held: Vec<Json> = Vec::new();
        std::mem::swap(&mut held, &mut self.buffer);
        let ghost all = items_view(held@);
        let ghost before = self@;
        let ghost whole = held@;
        let mut i: usize = 0;
        proof {
            lemma_items_view(held@);
            assert(all.subrange(start as int, start as int) =~= Seq::<JsonV>::empty());
            assert(before.entries + Seq::<JsonV>::empty() =~= before.entries);
        }
        for data in it: held
            invariant
                it.seq() == whole,
                i == it.index(),
                start <= at < whole.len(),
                whole.len() <= usize::MAX,
                all == items_view(whole),
                all.len() == whole.len(),
                forall|j: int| 0 <= j < whole.len() ==> #[trigger] all[j] == whole[j]@,
                ({
                    let fresh = if i <= start {
                        Seq::<JsonV>::empty()
                    } else {
                        all.subrange(start as int, i as int)
                    };
                    &&& items_view(out@) == fresh
                    &&& self@ == (TranscriptV { entries: before.entries + fresh, ..before })
                }),
                self.path == old(self).path,
        {
            let ghost k = it.index() as int;
            assert(all[k] == data@);
            if i >= start {
                proof {
                    let had = all.subrange(start as int, k);
                    assert(all.subrange(start as int, k + 1) =~= had.push(data@));
                    assert((before.entries + had).push(data@) =~= before.entries + had.push(data@));
                    if k == start {
                        assert(had =~= Seq::<JsonV>::empty());
                    }
                }
                self.accept(data, &mut out);
            }
            i += 1;
        }
        assert(all.subrange(start as int, all.len() as int) =~= all.skip(start as int));
        out
    }
}

/// The line that an entry is saved as.
pub fn transcript_line(data: &Json) -> (out: String)
    ensures
        out@ == entry_line(data@),
        one_line(compact_text(data@)),
        plain(data@, 127) ==> parsed(compact_text(data@)) == Some(data@),
{
    let mut out = data.text();
    out.push('\n');
    assert(out@ =~= entry_line(data@));
    out
}

// ---------------------------------------------------------------------------
// What holds of the record

/// The transcript after a number of envelopes.
pub open spec fn fed(t: TranscriptV, envelopes: Seq<JsonV>) -> TranscriptV
    decreases envelopes.len(),
{
    if envelopes.len() == 0 {
        t
    } else {
        envelope_taken(fed(t, envelopes.drop_last()), envelopes.last()).0
    }
}

proof fn lemma_boundary_push(buffer: Seq<JsonV>, data: JsonV, uuid: Seq<char>)
    ensures
        boundary_at(buffer, uuid) <= buffer.len(),
        boundary_at(buffer, uuid) < buffer.len() ==> boundary_at(buffer.push(data), uuid)
            == boundary_at(buffer, uuid),
    decreases buffer.len(),
{
    if buffer.len() > 0 && buffer[0].str_at("uuid"@) != Some(uuid) {
        lemma_boundary_push(buffer.skip(1), data, uuid);
        assert(buffer.push(data).skip(1) =~= buffer.skip(1).push(data));
    }
}

proof fn lemma_last_user(buffer: Seq<JsonV>)
    ensures
        last_user(buffer) matches Some(i) ==> 0 <= i < buffer.len() && from_user(buffer[i]),
    decreases buffer.len(),
{
    if buffer.len() > 0 && !from_user(buffer.last()) {
        lemma_last_user(buffer.drop_last());
    }
}

proof fn lemma_settled_push(t: TranscriptV, data: JsonV)
    requires
        !t.found,
        t.boundary is Some,
    ensures
        envelope_taken(settled(t).0, data).0 == settled(
            TranscriptV { buffer: t.buffer.push(data), ..t },
        ).0,
{
    let uuid = t.boundary->Some_0;
    let at = boundary_at(t.buffer, uuid) as int;
    lemma_boundary_push(t.buffer, data, uuid);
    if at < t.buffer.len() {
        lemma_last_user(t.buffer.take(at));
        let start = start_of(t.buffer, at);
        let more = t.buffer.push(data);
        assert(more.take(at) =~= t.buffer.take(at));
        assert(more.skip(start) =~= t.buffer.skip(start).push(data));
        assert((t.entries + t.buffer.skip(start)).push(data) =~= t.entries + more.skip(start));
    }
}

proof fn lemma_fed_waiting(t: TranscriptV, envelopes: Seq<JsonV>)
    requires
        !t.found,
        t.boundary is None,
    ensures
        fed(t, envelopes) == (TranscriptV { buffer: t.buffer + envelopes, ..t }),
    decreases envelopes.len(),
{
    if envelopes.len() > 0 {
        lemma_fed_waiting(t, envelopes.drop_last());
        assert((t.buffer + envelopes.drop_last()).push(envelopes.last()) =~= t.buffer + envelopes);
    } else {
        assert(t.buffer + envelopes =~= t.buffer);
    }
}

proof fn lemma_fed_known(t: TranscriptV, envelopes: Seq<JsonV>)
    requires
        !t.found,
        t.boundary is Some,
    ensures
        fed(settled(t).0, envelopes) == settled(
            TranscriptV { buffer: t.buffer + envelopes, ..t },
        ).0,
    decreases envelopes.len(),
{
    if envelopes.len() > 0 {
        let init = envelopes.drop_last();
        lemma_fed_known(t, init);
        lemma_settled_push(TranscriptV { buffer: t.buffer + init, ..t }, envelopes.last());
        assert((t.buffer + init).push(envelopes.last()) =~= t.buffer + envelopes);
    } else {
        assert(t.buffer + envelopes =~= t.buffer);
    }
}

/// It does not matter whether the boundary is known before the replay comes or after it.
pub proof fn boundary_may_come_late(t: TranscriptV, uuid: Seq<char>, envelopes: Seq<JsonV>)
    requires
        !t.found,
        t.boundary is None,
    ensures
        boundary_set(fed(t, envelopes), uuid).0 == fed(boundary_set(t, uuid).0, envelopes),
{
    lemma_fed_waiting(t, envelopes);
    lemma_fed_known(TranscriptV { boundary: Some(uuid), ..t }, envelopes);
}

proof fn lemma_boundary_is(buffer: Seq<JsonV>, uuid: Seq<char>, k: int)
    requires
        0 <= k < buffer.len(),
        buffer[k].str_at("uuid"@) == Some(uuid),
        forall|j: int| 0 <= j < k ==> (#[trigger] buffer[j]).str_at("uuid"@) != Some(uuid),
    ensures
        boundary_at(buffer, uuid) == k,
    decreases k,
{
    if k > 0 {
        let rest = buffer.skip(1);
        assert forall|j: int| 0 <= j < k - 1 implies (#[trigger] rest[j]).str_at("uuid"@) != Some(
            uuid,
        ) by {
            assert(rest[j] == buffer[j + 1]);
        }
        lemma_boundary_is(rest, uuid, k - 1);
    }
}

proof fn lemma_start_is(buffer: Seq<JsonV>, k: int, start: int, n: int)
    requires
        0 <= start <= k <= buffer.len(),
        start < k ==> from_user(buffer[start]) && start < n,
        0 <= n <= k,
        forall|j: int| start < j < k ==> !from_user(#[trigger] buffer[j]),
        start == k ==> forall|j: int| 0 <= j < k ==> !from_user(#[trigger] buffer[j]),
    ensures
        last_user(buffer.take(n)) == if start < k {
            Some(start)
        } else {
            None
        },
    decreases n,
{
    if n > 0 {
        assert(buffer.take(n).drop_last() =~= buffer.take(n - 1));
        assert(buffer.take(n).last() == buffer[n - 1]);
        if n - 1 != start {
            lemma_start_is(buffer, k, start, n - 1);
        }
    }
}

/// In a later spurt the replay is taken from what the user said last before the boundary, or from
/// the boundary where the user said nothing before it. What comes before that is dropped, and
/// nothing is taken twice, wherever between the envelopes the boundary becomes known.
pub proof fn replay_is_taken_from_the_boundary(
    t: TranscriptV,
    uuid: Seq<char>,
    before: Seq<JsonV>,
    after: Seq<JsonV>,
    k: int,
    start: int,
)
    requires
        t.entries.len() > 0,
        0 <= start <= k < (before + after).len(),
        (before + after)[k].str_at("uuid"@) == Some(uuid),
        forall|j: int|
            0 <= j < k ==> (#[trigger] (before + after)[j]).str_at("uuid"@) != Some(uuid),
        start < k ==> from_user((before + after)[start]),
        forall|j: int| start < j < k ==> !from_user(#[trigger] (before + after)[j]),
        start == k ==> forall|j: int| 0 <= j < k ==> !from_user(#[trigger] (before + after)[j]),
    ensures
        fed(boundary_set(fed(spurt_begun(t), before), uuid).0, after) == (TranscriptV {
            entries: t.entries + (before + after).skip(start),
            boundary: Some(uuid),
            found: true,
            buffer: Seq::empty(),
        }),
{
    lemma_fed_waiting(spurt_begun(t), before);
    assert(Seq::<JsonV>::empty() + before =~= before);
    let known = TranscriptV { boundary: Some(uuid), buffer: before, ..spurt_begun(t) };
    lemma_fed_known(known, after);
    lemma_boundary_is(before + after, uuid, k);
    lemma_start_is(before + after, k, start, k);
}

/// Entries are only ever added, behind those that are there, and they are the ones handed out.
pub proof fn entries_only_grow(t: TranscriptV, data: JsonV, uuid: Seq<char>)
    ensures
        envelope_taken(t, data).0.entries == t.entries + envelope_taken(t, data).1,
        boundary_set(t, uuid).0.entries == t.entries + boundary_set(t, uuid).1,
{
    assert(t.entries + Seq::<JsonV>::empty() =~= t.entries);
    assert(t.entries + seq![data] =~= t.entries.push(data));
}

/// In the first spurt every envelope is taken as it comes.
pub proof fn first_spurt_takes_all(t: TranscriptV, envelopes: Seq<JsonV>)
    requires
        t.entries.len() == 0,
    ensures
        fed(spurt_begun(t), envelopes).entries == envelopes,
        fed(spurt_begun(t), envelopes).found,
    decreases envelopes.len(),
{
    if envelopes.len() > 0 {
        first_spurt_takes_all(t, envelopes.drop_last());
        assert(envelopes.drop_last().push(envelopes.last()) =~= envelopes);
    } else {
        assert(t.entries =~= envelopes);
    }
}

/// In a later spurt a replay without the boundary adds nothing, and is kept for when it comes.
pub proof fn replay_without_boundary_adds_nothing(
    t: TranscriptV,
    uuid: Seq<char>,
    before: Seq<JsonV>,
    after: Seq<JsonV>,
)
    requires
        t.entries.len() > 0,
        forall|i: int|
            0 <= i < (before + after).len() ==> (#[trigger] (before + after)[i]).str_at("uuid"@)
                != Some(uuid),
    ensures
        fed(boundary_set(fed(spurt_begun(t), before), uuid).0, after) == (TranscriptV {
            entries: t.entries,
            boundary: Some(uuid),
            found: false,
            buffer: before + after,
        }),
{
    lemma_fed_waiting(spurt_begun(t), before);
    assert(Seq::<JsonV>::empty() + before =~= before);
    let known = TranscriptV { boundary: Some(uuid), buffer: before, ..spurt_begun(t) };
    lemma_fed_known(known, after);
    lemma_no_boundary(before + after, uuid);
}

proof fn lemma_no_boundary(buffer: Seq<JsonV>, uuid: Seq<char>)
    requires
        forall|i: int|
            0 <= i < buffer.len() ==> (#[trigger] buffer[i]).str_at("uuid"@) != Some(uuid),
    ensures
        boundary_at(buffer, uuid) == buffer.len(),
    decreases buffer.len(),
{
    if buffer.len() > 0 {
        assert forall|i: int| 0 <= i < buffer.skip(1).len() implies (#[trigger] buffer.skip(
            1,
        )[i]).str_at("uuid"@) != Some(uuid) by {
            assert(buffer.skip(1)[i] == buffer[i + 1]);
        }
        lemma_no_boundary(buffer.skip(1), uuid);
    }
}

/// The text of a file to which the entries were saved one after the other.
pub open spec fn saved_text(entries: Seq<JsonV>) -> Seq<char>
    decreases entries.len(),
{
    if entries.len() == 0 {
        Seq::empty()
    } else {
        entry_line(entries[0]) + saved_text(entries.skip(1))
    }
}

/// An entry is written on one line and read back as it was.
pub open spec fn reads_back(data: JsonV) -> bool {
    one_line(compact_text(data)) && parsed(compact_text(data)) == Some(data)
}

proof fn lemma_trim_line(s: Seq<char>)
    requires
        one_line(s),
    ensures
        trim(s) == s,
{
    lemma_after_last(s, Pick::Solid, s.len() as int);
    assert(s.take(s.len() as int) =~= s);
    lemma_first_hit(s, Pick::Solid, 0);
    assert(s.skip(0) =~= s);
}

proof fn lemma_saved_front(front: Seq<char>, data: JsonV, ls: Seq<Seq<char>>)
    requires
        trim(front).len() > 0,
        parsed(trim(front)) == Some(data),
    ensures
        saved_in(seq![front] + ls) == seq![data] + saved_in(ls),
    decreases ls.len(),
{
    let all = seq![front] + ls;
    if ls.len() > 0 {
        lemma_saved_front(front, data, ls.drop_last());
        assert(all.drop_last() =~= seq![front] + ls.drop_last());
        assert(all.last() == ls.last());
        let before = saved_in(ls.drop_last());
        let line = trim(ls.last());
        if let Some(d) = parsed(line) {
            assert((seq![data] + before).push(d) =~= seq![data] + before.push(d));
        }
    } else {
        assert(all.drop_last() =~= Seq::<Seq<char>>::empty());
        assert(all.last() == front);
        assert(saved_in(all.drop_last()) == Seq::<JsonV>::empty());
        assert(Seq::<JsonV>::empty().push(data) =~= seq![data] + Seq::<JsonV>::empty());
    }
}

/// What was saved is loaded as it was.
pub proof fn saved_entries_load_back(entries: Seq<JsonV>)
    requires
        forall|i: int| 0 <= i < entries.len() ==> reads_back(#[trigger] entries[i]),
    ensures
        saved_in(lines(saved_text(entries))) == entries,
    decreases entries.len(),
{
    if entries.len() > 0 {
        let rest = entries.skip(1);
        assert forall|i: int| 0 <= i < rest.len() implies reads_back(#[trigger] rest[i]) by {
            assert(rest[i] == entries[i + 1]);
        }
        saved_entries_load_back(rest);
        let first = compact_text(entries[0]);
        assert(reads_back(entries[0]));
        let text = saved_text(entries);
        let n = first.len() as int;
        assert(text =~= first + seq!['\n'] + saved_text(rest));
        assert forall|j: int| 0 <= j < n implies !crate::chars::picks(
            Pick::Is('\n'),
            #[trigger] text[j],
        ) by {
            assert(text[j] == first[j]);
        }
        lemma_first_hit(text, Pick::Is('\n'), n);
        assert(text.take(n) =~= first);
        assert(text.skip(n + 1) =~= saved_text(rest));
        assert(strip_cr(first) == first);
        lemma_trim_line(first);
        assert(lines(text) == seq![first] + lines(saved_text(rest)));
        lemma_saved_front(first, entries[0], lines(saved_text(rest)));
        assert(seq![entries[0]] + rest =~= entries);
    }
}

} // verus!
