//! The file that keeps the summaries.

use vstd::prelude::*;

use crate::chars::opt_str;
use crate::json::{
    fields_view, jint, jstr, lemma_fields_push, lemma_keys, parsed, plain, pretty_text, Json,
    JsonV, NumV,
};
use crate::strmap::{entries_of, lemma_no_entries, lemma_one_more_entry, StringMap};
use crate::window::{EntryV, SummaryCache, SummaryCacheEntry, SUMMARY_PROMPT_VERSION};

verus! {

/// Why the file cannot be used.
#[derive(Debug)]
pub enum CacheError {
    NotJson(serde_json::Error),
    /// The file holds JSON, but not what is kept of summaries.
    NotSummaries,
}

/// What a file of summaries says.
#[verifier::ext_equal]
pub struct CacheV {
    pub version: u32,
    pub held: Map<Seq<char>, EntryV>,
}

pub open spec fn entry_json(e: EntryV) -> JsonV {
    JsonV::Obj(
        map![
            "turn_id"@ => jstr(e.turn_id),
            "summary"@ => jstr(e.summary),
            "attention"@ => JsonV::Bool(e.attention),
        ],
    )
}

pub open spec fn cache_json(cache: CacheV) -> JsonV {
    JsonV::Obj(
        map![
            "version"@ => jint(cache.version as int),
            "entries"@ => JsonV::Obj(cache.held.map_values(|e: EntryV| entry_json(e))),
        ],
    )
}

/// What a record says of a thread. In a file of the first version it does not say whether somebody
/// has to attend to it.
pub open spec fn entry_in(v: JsonV) -> Option<EntryV> {
    let attention = match v.part("attention"@, 2) {
        Some(b) => b.as_bool(),
        None => Some(false),
    };
    match (v.str_part("turn_id"@, 0), v.str_part("summary"@, 1), attention) {
        (Some(turn_id), Some(summary), Some(attention)) if v.is_within(3) => Some(
            EntryV { turn_id, summary, attention },
        ),
        _ => None,
    }
}

pub open spec fn version_in(v: JsonV) -> Option<u32> {
    match v.part("version"@, 0) {
        Some(JsonV::Num(NumV::Int(i))) if 0 <= i <= u32::MAX => Some(i as u32),
        _ => None,
    }
}

/// Each of the fields is a record of a thread.
pub open spec fn are_entries(m: Map<Seq<char>, JsonV>) -> bool {
    forall|k: Seq<char>| #[trigger] m.contains_key(k) ==> entry_in(m[k]) is Some
}

/// What a value says of summaries; none where it is anything else.
pub open spec fn cache_in(v: JsonV) -> Option<CacheV> {
    match (version_in(v), v.part("entries"@, 1)) {
        (Some(version), Some(JsonV::Obj(m))) if v.is_within(2) && are_entries(m) => Some(
            CacheV { version, held: m.map_values(|e: JsonV| entry_in(e)->Some_0) },
        ),
        _ => None,
    }
}

impl SummaryCacheEntry {
    pub fn to_json(&self) -> (out: Json)
        ensures
            out@ == entry_json(self@),
    {
        let out = Json::object().with("turn_id", Json::string(self.turn_id.as_str())).with(
            "summary",
            Json::string(self.summary.as_str()),
        ).with("attention", Json::Bool(self.attention));
        assert(out@ == entry_json(self@));
        out
    }

    pub fn from_json(v: &Json) -> (out: Option<SummaryCacheEntry>)
        ensures
            match out {
                Some(entry) => entry_in(v@) == Some(entry@),
                None => entry_in(v@) is None,
            },
    {
        let attention = match v.part("attention", 2) {
            Some(b) => b.as_bool(),
            None => Some(false),
        };
        match (v.str_part("turn_id", 0), v.str_part("summary", 1), attention) {
            (Some(turn_id), Some(summary), Some(attention)) => if v.is_within(3) {
                Some(
                    SummaryCacheEntry {
                        turn_id: turn_id.to_owned(),
                        summary: summary.to_owned(),
                        attention,
                    },
                )
            } else {
                None
            },
            _ => None,
        }
    }
}

impl SummaryCache {
    pub open spec fn says(&self) -> CacheV {
        CacheV { version: self.version, held: self.held() }
    }

    pub fn to_json(&self) -> (out: Json)
        ensures
            out@ == cache_json(self.says()),
    {
        let items = self.entries.entries();
        let ghost all = items@;
        let ghost f = |e: SummaryCacheEntry| entry_json(e@);
        let mut fields: Vec<(String, Json)> = Vec::new();
        proof {
            lemma_no_entries::<SummaryCacheEntry>();
            assert(all.take(0) =~= Seq::<(String, SummaryCacheEntry)>::empty());
            assert(fields_view(fields@) =~= entries_of(all.take(0)).map_values(f));
        }
        for i in 0..items.len()
            invariant
                all == items@,
                f == |e: SummaryCacheEntry| entry_json(e@),
                fields_view(fields@) == entries_of(all.take(i as int)).map_values(f),
        {
            let key = items[i].0.clone();
            let value = items[i].1.to_json();
            proof {
                lemma_fields_push(fields@, (key, value));
                lemma_one_more_entry(all.take(i as int), all[i as int]);
                assert(all.take(i + 1) =~= all.take(i as int).push(all[i as int]));
                let seen = entries_of(all.take(i as int));
                assert(seen.insert(key@, all[i as int].1).map_values(f) =~= seen.map_values(
                    f,
                ).insert(key@, value@));
            }
            fields.push((key, value));
        }
        assert(all.take(all.len() as int) =~= all);
        assert(self.entries@.map_values(f) =~= self.held().map_values(|e: EntryV| entry_json(e)));
        let entries = Json::Object(fields);
        let out = Json::object().with("version", Json::integer(self.version as i64)).with(
            "entries",
            entries,
        );
        assert(out@ == cache_json(self.says()));
        out
    }

    pub fn from_json(v: &Json) -> (out: Option<SummaryCache>)
        ensures
            match out {
                Some(cache) => cache_in(v@) == Some(cache.says()),
                None => cache_in(v@) is None,
            },
    {
        let version: u32 = match v.part("version", 0) {
            Some(n) => match n.as_i64() {
                Some(n) => if 0 <= n && n <= u32::MAX as i64 {
                    n as u32
                } else {
                    return None;
                },
                None => {
                    return None;
                },
            },
            None => {
                return None;
            },
        };
        if !v.is_within(2) {
            return None;
        }
        let whole = match v.part("entries", 1) {
            Some(whole) => whole,
            None => {
                return None;
            },
        };
        let fields = match whole {
            Json::Object(fields) => fields,
            _ => {
                return None;
            },
        };
        let ghost m = fields_view(fields@);
        let ghost f = |e: JsonV| entry_in(e)->Some_0;
        let mut entries: StringMap<SummaryCacheEntry> = StringMap::new();
        proof {
            lemma_keys(fields@);
        }
        for i in 0..fields.len()
            invariant
                whole@ == JsonV::Obj(m),
                m == fields_view(fields@),
                v@.part("entries"@, 1) == Some(whole@),
                forall|k: int|
                    0 <= k < fields@.len() ==> m.contains_key(#[trigger] fields@[k].0@),
                forall|k: int|
                    0 <= k < i ==> entries@.contains_key(#[trigger] fields@[k].0@),
                forall|k: Seq<char>| #[trigger]
                    entries@.contains_key(k) ==> m.contains_key(k) && entry_in(m[k]) == Some(
                        entries@[k]@,
                    ),
        {
            let key = fields[i].0.as_str();
            assert(m.contains_key(fields@[i as int].0@));
            if let Some(value) = whole.get(key) {
                match SummaryCacheEntry::from_json(value) {
                    Some(entry) => {
                        entries.insert(key.to_owned(), entry);
                    },
                    None => {
                        assert(!are_entries(m));
                        return None;
                    },
                }
            }
        }
        let out = SummaryCache { version, entries };
        proof {
            assert forall|k: Seq<char>| #[trigger] m.contains_key(k) implies entries@.contains_key(
                k,
            ) by {
                let i = choose|i: int| 0 <= i < fields@.len() && #[trigger] fields@[i].0@ == k;
                assert(entries@.contains_key(fields@[i].0@));
            }
            assert(out.held() =~= m.map_values(f));
        }
        Some(out)
    }
}

/// The cache of summaries; `content` is the text of its file, where there is one. Summaries of
/// another version are discarded.
pub fn load_summary_cache(content: Option<&str>) -> (out: Result<SummaryCache, CacheError>)
    ensures
        match (opt_str(content), out) {
            (None, Ok(cache)) => cache.says() == no_summaries(),
            (Some(text), Err(CacheError::NotJson(_))) => parsed(text) is None,
            (Some(text), Err(CacheError::NotSummaries)) => parsed(text) matches Some(v) && cache_in(
                v,
            ) is None,
            (Some(text), Ok(cache)) => parsed(text) matches Some(v) && cache_in(v) matches Some(
                read,
            ) && cache.says() == still_good(read),
            (None, Err(_)) => false,
        },
{
    match content {
        Some(text) => match Json::read(text) {
            Ok(v) => match SummaryCache::from_json(&v) {
                Some(read) => {
                    let out = SummaryCache::usable(Some(read));
                    assert(out.says() =~= still_good(read.says()));
                    Ok(out)
                },
                None => Err(CacheError::NotSummaries),
            },
            Err(e) => Err(CacheError::NotJson(e)),
        },
        None => Ok(SummaryCache::usable(None)),
    }
}

/// An empty cache of the current version.
pub open spec fn no_summaries() -> CacheV {
    CacheV { version: SUMMARY_PROMPT_VERSION, held: Map::empty() }
}

/// What is still good of a cache: all of it, or nothing where it is of another version.
pub open spec fn still_good(read: CacheV) -> CacheV {
    if read.version == SUMMARY_PROMPT_VERSION {
        read
    } else {
        no_summaries()
    }
}

/// The text of the file that keeps a cache.
pub fn summary_cache_text(cache: &SummaryCache) -> (out: String)
    ensures
        out@ == pretty_text(cache_json(cache.says())),
        parsed(out@) == Some(cache_json(cache.says())),
{
    let value = cache.to_json();
    assert(plain(value@, 127)) by {
        reveal_with_fuel(plain, 4);
    }
    value.pretty()
}

proof fn lemma_cache_keys()
    ensures
        "turn_id"@ != "summary"@,
        "turn_id"@ != "attention"@,
        "summary"@ != "attention"@,
        "version"@ != "entries"@,
{
    reveal_strlit("turn_id");
    reveal_strlit("summary");
    reveal_strlit("attention");
    reveal_strlit("version");
    reveal_strlit("entries");
    assert("turn_id"@[0] == 't');
    assert("summary"@[0] == 's');
    assert("attention"@[0] == 'a');
    assert("version"@[0] == 'v');
    assert("entries"@[0] == 'e');
}

/// What was saved is loaded as it was: a text that holds what is written for a cache is read as
/// that cache, and is used where it is of the current version.
pub proof fn saved_summaries_load_back(cache: CacheV, text: Seq<char>)
    requires
        parsed(text) == Some(cache_json(cache)),
    ensures
        cache_in(parsed(text)->Some_0) == Some(cache),
        cache.version == SUMMARY_PROMPT_VERSION ==> still_good(cache) == cache,
        cache.version != SUMMARY_PROMPT_VERSION ==> still_good(cache) == no_summaries(),
{
    lemma_cache_keys();
    let m = cache.held.map_values(|e: EntryV| entry_json(e));
    assert forall|k: Seq<char>| #[trigger] m.contains_key(k) implies entry_in(m[k]) == Some(
        cache.held[k],
    ) by {
        assert(m[k] == entry_json(cache.held[k]));
    }
    assert(m.map_values(|e: JsonV| entry_in(e)->Some_0) =~= cache.held);
}

} // verus!
