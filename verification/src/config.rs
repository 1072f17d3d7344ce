//! The configuration file that is shared with other programs: which directories are trusted, and
//! the cycle of locking, reading, changing and writing it.

use vstd::prelude::*;
use vstd::seq_lib::*;

use crate::chars::{
    cat, cut, decimal, lemma_precedes_total, lemma_precedes_transitive, precedes, starts_with,
    text_precedes, text_starts_with, texts, to_chars, wide_text,
};
use crate::json::{error_message, error_text, opt_ref, parsed, plain, pretty_text, Json, JsonV};
use crate::paths::{with_extension, with_new_extension};

verus! {

/// The permissions of the file: its owner reads and writes it.
pub const CONFIG_MODE: u32 = 0o600;

/// How many backups are kept.
pub const KEPT_BACKUPS: usize = 5;

#[derive(Debug)]
pub enum ConfigError {
    /// A file could not be read or written, for the reason given.
    Io(String),
    Json(serde_json::Error),
    LockContention,
}

impl ConfigError {
    pub fn message(&self) -> (out: String)
        ensures
            out@ == (match *self {
                ConfigError::Io(reason) => "io error: "@ + reason@,
                ConfigError::Json(e) => "json error: "@ + error_message(e),
                ConfigError::LockContention => "lock contention: lock directory already exists"@,
            }),
    {
        match self {
            ConfigError::Io(reason) => cat("io error: ", reason.as_str()),
            ConfigError::Json(e) => cat("json error: ", error_text(e).as_str()),
            ConfigError::LockContention =>
                "lock contention: lock directory already exists".to_owned(),
        }
    }
}

// ---------------------------------------------------------------------------
// Trust

/// The entry of a directory among the projects.
pub open spec fn project_of(config: JsonV, directory: Seq<char>) -> Option<JsonV> {
    match config.get("projects"@) {
        Some(projects) => projects.get(directory),
        None => None,
    }
}

pub open spec fn trusts(config: JsonV, directory: Seq<char>) -> bool {
    match project_of(config, directory) {
        Some(project) => match project.get("hasTrustDialogAccepted"@) {
            Some(v) => v.as_bool() == Some(true),
            None => false,
        },
        None => false,
    }
}

pub open spec fn or_object(v: Option<JsonV>) -> JsonV {
    match v {
        Some(v) => v,
        None => JsonV::Obj(Map::empty()),
    }
}

/// The configuration, the projects in it and the entry of the directory are objects, as far as
/// they are there.
pub open spec fn can_hold_trust(config: JsonV, directory: Seq<char>) -> bool {
    &&& config is Obj
    &&& or_object(config.get("projects"@)) is Obj
    &&& or_object(project_of(config, directory)) is Obj
}

/// The configuration in which a directory is trusted; all else is as it was.
pub open spec fn with_trust(config: JsonV, directory: Seq<char>) -> JsonV {
    let projects = or_object(config.get("projects"@));
    let project = or_object(projects.get(directory));
    config.put(
        "projects"@,
        projects.put(directory, project.put("hasTrustDialogAccepted"@, JsonV::Bool(true))),
    )
}

/// Whether a directory is trusted.
pub fn has_trust(config: &Json, directory: &str) -> (out: bool)
    ensures
        out == trusts(config@, directory@),
{
    match config.get("projects") {
        Some(projects) => match projects.get(directory) {
            Some(project) => match project.get("hasTrustDialogAccepted") {
                Some(v) => match v.as_bool() {
                    Some(b) => b,
                    None => false,
                },
                None => false,
            },
            None => false,
        },
        None => false,
    }
}

fn is_object(v: Option<&Json>) -> (out: bool)
    ensures
        out == (or_object(opt_ref(v)) is Obj),
{
    match v {
        Some(Json::Object(_)) => true,
        Some(_) => false,
        None => true,
    }
}

/// Whether trust can be written for a directory.
pub fn can_trust(config: &Json, directory: &str) -> (out: bool)
    ensures
        out == can_hold_trust(config@, directory@),
{
    if !is_object(Some(config)) {
        return false;
    }
    match config.get("projects") {
        Some(projects) => is_object(Some(projects)) && is_object(projects.get(directory)),
        None => true,
    }
}

fn object_or_new(v: Option<&Json>) -> (out: Json)
    ensures
        out@ == or_object(opt_ref(v)),
{
    match v {
        Some(v) => v.copy(),
        None => Json::object(),
    }
}

/// Makes a directory trusted. Returns whether anything had to be changed.
pub fn ensure_trust(config: &mut Json, directory: &str) -> (out: bool)
    requires
        trusts(old(config)@, directory@) || can_hold_trust(old(config)@, directory@),
    ensures
        out == !trusts(old(config)@, directory@),
        out ==> final(config)@ == with_trust(old(config)@, directory@),
        !out ==> *final(config) == *old(config),
{
    if has_trust(config, directory) {
        return false;
    }
    let projects = object_or_new(config.get("projects"));
    let project = object_or_new(projects.get(directory));
    let trusted = project.with("hasTrustDialogAccepted", Json::Bool(true));
    let changed = projects.with(directory, trusted);
    let mut taken = Json::Null;
    std::mem::swap(config, &mut taken);
    *config = taken.with("projects", changed);
    true
}

/// A directory that was made trusted is trusted, and making it so again changes nothing.
pub proof fn trust_is_kept(config: JsonV, directory: Seq<char>)
    requires
        can_hold_trust(config, directory),
    ensures
        trusts(with_trust(config, directory), directory),
{
}

/// Making a directory trusted touches no other key of the configuration, no other directory, and
/// no other field of the directory.
pub proof fn trust_touches_nothing_else(
    config: JsonV,
    directory: Seq<char>,
    key: Seq<char>,
    other: Seq<char>,
    field: Seq<char>,
)
    requires
        can_hold_trust(config, directory),
    ensures
        key != "projects"@ ==> with_trust(config, directory).get(key) == config.get(key),
        other != directory ==> project_of(with_trust(config, directory), other) == project_of(
            config,
            other,
        ),
        field != "hasTrustDialogAccepted"@ ==> or_object(
            project_of(with_trust(config, directory), directory),
        ).get(field) == or_object(project_of(config, directory)).get(field),
{
}

// ---------------------------------------------------------------------------
// Reading and writing

/// What reading the file came to.
#[derive(Debug)]
pub enum FileText {
    Text(String),
    Missing,
    Failed(String),
}

/// The configuration in a file. A missing file stands for an empty configuration.
pub fn read_config(file: FileText) -> (out: Result<Json, ConfigError>)
    ensures
        match (file, out) {
            (FileText::Text(text), Ok(config)) => parsed(text@) == Some(config@),
            (FileText::Text(text), Err(ConfigError::Json(_))) => parsed(text@) is None,
            (FileText::Missing, Ok(config)) => config@ == JsonV::Obj(Map::empty()),
            (FileText::Failed(reason), Err(ConfigError::Io(r))) => r == reason,
            _ => false,
        },
{
    match file {
        FileText::Text(text) => match Json::read(text.as_str()) {
            Ok(config) => Ok(config),
            Err(e) => Err(ConfigError::Json(e)),
        },
        FileText::Missing => Ok(Json::object()),
        FileText::Failed(reason) => Err(ConfigError::Io(reason)),
    }
}

/// The text of a configuration, as it is written.
pub fn config_text(config: &Json) -> (out: String)
    ensures
        out@ == pretty_text(config@),
        plain(config@, 127) ==> parsed(out@) == Some(config@),
{
    config.pretty()
}

/// The directory whose presence is the lock of a file.
pub open spec fn lock_of(config_path: Seq<char>) -> Seq<char> {
    with_new_extension(config_path, "json.lock"@)
}

pub fn lock_path(config_path: &str) -> (out: String)
    ensures
        out@ == lock_of(config_path@),
{
    with_extension(config_path, "json.lock")
}

// ---------------------------------------------------------------------------
// Backups

pub open spec fn backup_prefix(basename: Seq<char>) -> Seq<char> {
    basename + ".backup."@
}

/// The name of a backup that is made at the given time.
pub fn backup_name(basename: &str, millis: u128) -> (out: String)
    ensures
        out@ == backup_prefix(basename@) + decimal(millis as nat),
{
    let prefix = cat(basename, ".backup.");
    cat(prefix.as_str(), wide_text(millis).as_str())
}

/// The names that begin with the prefix, in their order.
pub open spec fn with_prefix(names: Seq<Seq<char>>, prefix: Seq<char>) -> Seq<Seq<char>>
    decreases names.len(),
{
    if names.len() == 0 {
        Seq::empty()
    } else if starts_with(names.last(), prefix) {
        with_prefix(names.drop_last(), prefix).push(names.last())
    } else {
        with_prefix(names.drop_last(), prefix)
    }
}

/// The value of a digit.
pub open spec fn digit_value(c: char) -> nat {
    (c as int - '0' as int) as nat
}

/// There is at least one character, and all of them are decimal digits.
pub open spec fn is_number(s: Seq<char>) -> bool {
    &&& s.len() > 0
    &&& forall|i: int| 0 <= i < s.len() ==> '0' <= #[trigger] s[i] <= '9'
}

/// The number that decimal digits write.
pub open spec fn number(s: Seq<char>) -> nat
    decreases s.len(),
{
    if s.len() == 0 {
        0
    } else {
        10 * number(s.drop_last()) + digit_value(s.last())
    }
}

/// The time of a backup: the number behind the prefix of its name, where there is one.
pub open spec fn time_of(name: Seq<char>, prefix: Seq<char>) -> Option<nat> {
    let rest = name.skip(prefix.len() as int);
    if is_number(rest) {
        Some(number(rest))
    } else {
        None
    }
}

/// Whether a backup counts as earlier than another. One whose name holds no time is earlier than
/// all that have one. Where the times decide nothing the names do, by their characters.
pub open spec fn is_earlier(a: Seq<char>, b: Seq<char>, prefix: Seq<char>) -> bool {
    match (time_of(a, prefix), time_of(b, prefix)) {
        (Some(x), Some(y)) => x < y || (x == y && precedes(a, b)),
        (None, Some(_)) => true,
        (Some(_), None) => false,
        (None, None) => precedes(a, b),
    }
}

proof fn lemma_earlier_total(a: Seq<char>, b: Seq<char>, prefix: Seq<char>)
    ensures
        !(is_earlier(a, b, prefix) && is_earlier(b, a, prefix)),
        is_earlier(a, b, prefix) || is_earlier(b, a, prefix) || a == b,
{
    lemma_precedes_total(a, b);
}

proof fn lemma_earlier_transitive(a: Seq<char>, b: Seq<char>, c: Seq<char>, prefix: Seq<char>)
    requires
        is_earlier(a, b, prefix),
        is_earlier(b, c, prefix),
    ensures
        is_earlier(a, c, prefix),
{
    if precedes(a, b) && precedes(b, c) {
        lemma_precedes_transitive(a, b, c);
    }
}

/// What comes of comparing two numbers.
#[derive(Clone, Copy, PartialEq, Eq, Structural)]
enum Sign {
    Less,
    Same,
    More,
}

spec fn is_sign(sign: Sign, x: nat, y: nat) -> bool {
    match sign {
        Sign::Less => x < y,
        Sign::Same => x == y,
        Sign::More => x > y,
    }
}

/// The digits up to a place, where the last digit has the place `n - 1`.
spec fn digits_before(s: Seq<char>, n: int, i: int) -> Seq<char> {
    if i + s.len() <= n {
        Seq::empty()
    } else {
        s.take(i + s.len() - n)
    }
}

fn digit_at(s: &Vec<char>, n: usize, i: usize) -> (out: u32)
    requires
        is_number(s@),
        i < n,
        s@.len() <= n,
    ensures
        out <= 9,
        number(digits_before(s@, n as int, i + 1)) == 10 * number(
            digits_before(s@, n as int, i as int),
        ) + out,
{
    let ghost before = digits_before(s@, n as int, i as int);
    let ghost up_to = digits_before(s@, n as int, i + 1);
    if i < n - s.len() {
        return 0;
    }
    let at: usize = i - (n - s.len());
    let c = s[at];
    assert(up_to.drop_last() =~= before);
    assert(up_to.last() == c);
    c as u32 - '0' as u32
}

/// How the numbers compare that digits write.
fn sign_of(a: &Vec<char>, b: &Vec<char>) -> (sign: Sign)
    requires
        is_number(a@),
        is_number(b@),
    ensures
        is_sign(sign, number(a@), number(b@)),
{
    let n: usize = if a.len() < b.len() {
        b.len()
    } else {
        a.len()
    };
    let mut sign = Sign::Same;
    for i in 0..n
        invariant
            is_number(a@),
            is_number(b@),
            a@.len() <= n,
            b@.len() <= n,
            is_sign(
                sign,
                number(digits_before(a@, n as int, i as int)),
                number(digits_before(b@, n as int, i as int)),
            ),
    {
        let x: u32 = digit_at(a, n, i);
        let y: u32 = digit_at(b, n, i);
        if sign == Sign::Same {
            sign = if x < y {
                Sign::Less
            } else if x > y {
                Sign::More
            } else {
                Sign::Same
            };
        }
    }
    assert(digits_before(a@, n as int, n as int) =~= a@);
    assert(digits_before(b@, n as int, n as int) =~= b@);
    sign
}

fn holds_number(s: &Vec<char>) -> (out: bool)
    ensures
        out == is_number(s@),
{
    for i in 0..s.len()
        invariant
            forall|j: int| 0 <= j < i ==> '0' <= #[trigger] s@[j] <= '9',
    {
        if s[i] < '0' || s[i] > '9' {
            return false;
        }
    }
    s.len() > 0
}

fn comes_earlier(a: &str, b: &str, prefix: &str) -> (out: bool)
    requires
        starts_with(a@, prefix@),
        starts_with(b@, prefix@),
    ensures
        out == is_earlier(a@, b@, prefix@),
{
    let n: usize = to_chars(prefix).len();
    let all_a = to_chars(a);
    let all_b = to_chars(b);
    let rest_a = cut(&all_a, n, all_a.len());
    let rest_b = cut(&all_b, n, all_b.len());
    assert(rest_a@ =~= a@.skip(n as int));
    assert(rest_b@ =~= b@.skip(n as int));
    match (holds_number(&rest_a), holds_number(&rest_b)) {
        (true, true) => match sign_of(&rest_a, &rest_b) {
            Sign::Less => true,
            Sign::Same => text_precedes(a, b),
            Sign::More => false,
        },
        (false, true) => true,
        (true, false) => false,
        (false, false) => text_precedes(a, b),
    }
}

/// The latest backup first.
pub open spec fn latest_first(names: Seq<Seq<char>>, prefix: Seq<char>) -> bool {
    forall|i: int, j: int|
        0 <= i < j < names.len() ==> !is_earlier(#[trigger] names[i], #[trigger] names[j], prefix)
}

/// The names are those of the backups, each as often as it was there, with the latest first.
pub open spec fn orders(sorted: Seq<Seq<char>>, names: Seq<Seq<char>>, prefix: Seq<char>) -> bool {
    &&& latest_first(sorted, prefix)
    &&& sorted.to_multiset() == with_prefix(names, prefix).to_multiset()
}

pub open spec fn all_start(names: Seq<Seq<char>>, prefix: Seq<char>) -> bool {
    forall|i: int| 0 <= i < names.len() ==> starts_with(#[trigger] names[i], prefix)
}

fn insert_latest(sorted: &mut Vec<String>, name: String, prefix: &str)
    requires
        starts_with(name@, prefix@),
        all_start(texts(old(sorted)@), prefix@),
        latest_first(texts(old(sorted)@), prefix@),
    ensures
        all_start(texts(final(sorted)@), prefix@),
        latest_first(texts(final(sorted)@), prefix@),
        texts(final(sorted)@).to_multiset() == texts(old(sorted)@).to_multiset().insert(name@),
{
    let mut i: usize = 0;
    let ghost before = texts(sorted@);
    while i < sorted.len()
        invariant
            i <= sorted.len(),
            before == texts(sorted@),
            starts_with(name@, prefix@),
            all_start(before, prefix@),
            forall|j: int| 0 <= j < i ==> is_earlier(name@, #[trigger] before[j], prefix@),
        ensures
            i < sorted.len() ==> !is_earlier(name@, before[i as int], prefix@),
        decreases sorted.len() - i,
    {
        assert(before[i as int] == sorted@[i as int]@);
        if !comes_earlier(name.as_str(), sorted[i].as_str(), prefix) {
            break;
        }
        i += 1;
    }
    let ghost key = name@;
    proof {
        assert forall|j: int| i <= j < before.len() implies !is_earlier(
            key,
            #[trigger] before[j],
            prefix@,
        ) by {
            if j > i && is_earlier(key, before[j], prefix@) {
                lemma_earlier_total(key, before[i as int], prefix@);
                if key != before[i as int] {
                    lemma_earlier_transitive(before[i as int], key, before[j], prefix@);
                }
                assert(!is_earlier(before[i as int], before[j], prefix@));
            }
        }
    }
    sorted.insert(i, name);
    proof {
        let after = texts(sorted@);
        assert(after =~= before.insert(i as int, key));
        assert forall|a: int, b: int| 0 <= a < b < after.len() implies !is_earlier(
            #[trigger] after[a],
            #[trigger] after[b],
            prefix@,
        ) by {
            if a == i {
                assert(after[b] == before[b - 1]);
            } else if b == i {
                assert(after[a] == before[a]);
                lemma_earlier_total(key, before[a], prefix@);
            } else {
                let x = if a < i { a } else { a - 1 };
                let y = if b < i { b } else { b - 1 };
                assert(after[a] == before[x]);
                assert(after[b] == before[y]);
            }
        }
        to_multiset_insert(before, i as int, key);
    }
}

/// The backups that are to be removed: all but the latest ones, by the times in their names.
pub fn backups_to_remove(names: &Vec<String>, basename: &str) -> (out: Vec<String>)
    ensures
        exists|sorted: Seq<Seq<char>>|
            #![trigger orders(sorted, texts(names@), backup_prefix(basename@))]
            orders(sorted, texts(names@), backup_prefix(basename@)) && texts(out@)
                == if sorted.len() <= KEPT_BACKUPS {
                Seq::empty()
            } else {
                sorted.skip(KEPT_BACKUPS as int)
            },
{
    let prefix = cat(basename, ".backup.");
    let mut sorted: Vec<String> = Vec::new();
    let mut i: usize = 0;
    let ghost all = texts(names@);
    proof {
        assert(all.take(0) =~= Seq::<Seq<char>>::empty());
        assert(texts(sorted@) =~= Seq::<Seq<char>>::empty());
    }
    while i < names.len()
        invariant
            i <= names.len(),
            all == texts(names@),
            all_start(texts(sorted@), prefix@),
            orders(texts(sorted@), all.take(i as int), prefix@),
        decreases names.len() - i,
    {
        proof {
            let more = all.take(i + 1);
            assert(more.drop_last() =~= all.take(i as int));
            assert(more.last() == names@[i as int]@);
            with_prefix(all.take(i as int), prefix@).to_multiset_ensures();
        }
        if text_starts_with(names[i].as_str(), prefix.as_str()) {
            insert_latest(&mut sorted, names[i].clone(), prefix.as_str());
        }
        i += 1;
    }
    assert(all.take(i as int) =~= all);
    let mut out: Vec<String> = Vec::new();
    let mut k: usize = KEPT_BACKUPS;
    let ghost order = texts(sorted@);
    assert(texts(out@) =~= Seq::<Seq<char>>::empty());
    if sorted.len() > KEPT_BACKUPS {
        while k < sorted.len()
            invariant
                KEPT_BACKUPS <= k <= sorted.len(),
                order == texts(sorted@),
                texts(out@) == order.subrange(KEPT_BACKUPS as int, k as int),
            decreases sorted.len() - k,
        {
            let name = sorted[k].clone();
            proof {
                crate::chars::lemma_texts_push(out@, name);
                assert(order.subrange(KEPT_BACKUPS as int, k + 1) =~= order.subrange(
                    KEPT_BACKUPS as int,
                    k as int,
                ).push(name@));
            }
            out.push(name);
            k += 1;
        }
        assert(order.subrange(KEPT_BACKUPS as int, order.len() as int) =~= order.skip(
            KEPT_BACKUPS as int,
        ));
    }
    assert(orders(order, texts(names@), backup_prefix(basename@)));
    out
}

/// When the others are removed as many backups stay as are kept, or all where there are no more,
/// and no backup that is removed is later than one that stays.
pub proof fn latest_backups_stay(
    sorted: Seq<Seq<char>>,
    names: Seq<Seq<char>>,
    prefix: Seq<char>,
    stays: int,
    goes: int,
)
    requires
        orders(sorted, names, prefix),
        sorted.len() > KEPT_BACKUPS,
        0 <= stays < KEPT_BACKUPS <= goes < sorted.len(),
    ensures
        sorted.len() == with_prefix(names, prefix).len(),
        sorted.len() - sorted.skip(KEPT_BACKUPS as int).len() == KEPT_BACKUPS,
        !is_earlier(sorted[stays], sorted[goes], prefix),
{
    sorted.to_multiset_ensures();
    with_prefix(names, prefix).to_multiset_ensures();
}

proof fn lemma_decimal_is_number(n: nat)
    ensures
        is_number(decimal(n)),
        number(decimal(n)) == n,
    decreases n,
{
    let s = decimal(n);
    if n < 10 {
        assert(s.drop_last() =~= Seq::<char>::empty());
        assert(number(s.drop_last()) == 0);
    } else {
        lemma_decimal_is_number(n / 10);
        assert(s.drop_last() =~= decimal(n / 10));
    }
}

/// Of two backups the one that was made later counts as the later one, whatever the times are.
pub proof fn later_backups_come_later(basename: Seq<char>, earlier: nat, later: nat)
    requires
        earlier < later,
    ensures
        is_earlier(
            backup_prefix(basename) + decimal(earlier),
            backup_prefix(basename) + decimal(later),
            backup_prefix(basename),
        ),
{
    let prefix = backup_prefix(basename);
    lemma_decimal_is_number(earlier);
    lemma_decimal_is_number(later);
    assert((prefix + decimal(earlier)).skip(prefix.len() as int) =~= decimal(earlier));
    assert((prefix + decimal(later)).skip(prefix.len() as int) =~= decimal(later));
}

proof fn lemma_prefixed(names: Seq<Seq<char>>, prefix: Seq<char>, name: Seq<char>)
    ensures
        with_prefix(names, prefix).contains(name) ==> names.contains(name) && starts_with(
            name,
            prefix,
        ),
        names.contains(name) && starts_with(name, prefix) ==> with_prefix(names, prefix).contains(
            name,
        ),
    decreases names.len(),
{
    if names.len() > 0 {
        let init = names.drop_last();
        lemma_prefixed(init, prefix, name);
        let kept = with_prefix(init, prefix);
        assert(names =~= init.push(names.last()));
        if names.contains(name) && !init.contains(name) {
            let i = choose|i: int| 0 <= i < names.len() && names[i] == name;
            assert(i == names.len() - 1) by {
                if i < names.len() - 1 {
                    assert(init[i] == name);
                }
            }
        }
        if init.contains(name) {
            let i = choose|i: int| 0 <= i < init.len() && init[i] == name;
            assert(names[i] == name);
        }
        if starts_with(names.last(), prefix) {
            let all = kept.push(names.last());
            if kept.contains(name) {
                let i = choose|i: int| 0 <= i < kept.len() && kept[i] == name;
                assert(all[i] == name);
            }
            if all.contains(name) && name != names.last() {
                let i = choose|i: int| 0 <= i < all.len() && all[i] == name;
                assert(kept[i] == name);
            }
            assert(all[kept.len() as int] == names.last());
        }
        assert(names[names.len() - 1] == names.last());
    }
}

proof fn lemma_prefixed_once(names: Seq<Seq<char>>, prefix: Seq<char>)
    requires
        names.no_duplicates(),
    ensures
        with_prefix(names, prefix).no_duplicates(),
    decreases names.len(),
{
    if names.len() > 0 {
        let init = names.drop_last();
        assert(init.no_duplicates());
        lemma_prefixed_once(init, prefix);
        lemma_prefixed(init, prefix, names.last());
        if init.contains(names.last()) {
            let i = choose|i: int| 0 <= i < init.len() && init[i] == names.last();
            assert(names[i] == names[names.len() - 1]);
        }
    }
}

/// The backup that was made last is never removed: not where it is later than the times of all
/// other backups, whatever else their names hold.
pub proof fn new_backup_stays(
    sorted: Seq<Seq<char>>,
    names: Seq<Seq<char>>,
    basename: Seq<char>,
    millis: nat,
)
    requires
        orders(sorted, names, backup_prefix(basename)),
        names.no_duplicates(),
        names.contains(backup_prefix(basename) + decimal(millis)),
        forall|i: int|
            0 <= i < names.len() && names[i] != backup_prefix(basename) + decimal(millis) ==> (
            time_of(#[trigger] names[i], backup_prefix(basename)) matches Some(time) ==> time
                < millis),
    ensures
        sorted.len() > KEPT_BACKUPS ==> !sorted.skip(KEPT_BACKUPS as int).contains(
            backup_prefix(basename) + decimal(millis),
        ),
{
    let prefix = backup_prefix(basename);
    let name = prefix + decimal(millis);
    let kept = with_prefix(names, prefix);
    lemma_decimal_is_number(millis);
    assert(name.skip(prefix.len() as int) =~= decimal(millis));
    lemma_prefixed_once(names, prefix);
    kept.lemma_multiset_has_no_duplicates();
    if sorted.len() > KEPT_BACKUPS && sorted.skip(KEPT_BACKUPS as int).contains(name) {
        let rest = sorted.skip(KEPT_BACKUPS as int);
        let i = choose|i: int| 0 <= i < rest.len() && rest[i] == name;
        let at = i + KEPT_BACKUPS;
        assert(sorted[at] == name);
        let first = sorted[0];
        assert(!is_earlier(first, name, prefix));
        sorted.to_multiset_ensures();
        kept.to_multiset_ensures();
        assert(sorted.contains(first));
        assert(sorted.to_multiset().count(first) > 0);
        assert(kept.to_multiset().count(first) > 0);
        assert(kept.contains(first));
        lemma_prefixed(names, prefix, first);
        assert(first == name);
        sorted.lemma_multiset_has_no_duplicates_conv();
        assert(sorted[0] == sorted[at]);
    }
}

// ---------------------------------------------------------------------------
// The cycle of locking, reading, changing, writing and unlocking

/// How far a change of the file has come.
#[derive(Debug)]
pub enum Stage {
    Locking,
    Reading,
    Changing,
    BackingUp { text: String },
    Writing,
    Unlocking { outcome: Result<(), ConfigError> },
    Over,
}

/// What is to be done next.
#[derive(Debug)]
pub enum Todo {
    /// Make the lock directory.
    Lock,
    /// Read the file.
    Read,
    /// Change the configuration, and say whether it is to be written.
    Change(Json),
    /// Make a backup of the file, where there is one, and remove old ones.
    BackUp,
    /// Write the file.
    Write(String),
    /// Remove the lock directory.
    Unlock,
    Finish(Result<(), ConfigError>),
}

/// How it went.
#[derive(Debug)]
pub enum Went {
    Well,
    /// The lock directory is there already.
    Locked,
    Wrong(String),
    File(FileText),
    Changed { config: Json, write: bool },
}

/// What can have happened at a stage.
pub open spec fn can_go(stage: Stage, went: Went) -> bool {
    match stage {
        Stage::Locking => went is Well || went is Locked || went is Wrong,
        Stage::Reading => went is File,
        Stage::Changing => went is Changed,
        Stage::BackingUp { .. } => went is Well || went is Wrong,
        Stage::Writing => went is Well || went is Wrong,
        Stage::Unlocking { .. } => went is Well || went is Wrong,
        Stage::Over => false,
    }
}

/// The lock was made, and is there.
pub open spec fn holds_lock(stage: Stage) -> bool {
    !(stage is Locking) && !(stage is Over)
}

/// The change is given up for the reason given, and the lock is removed.
pub open spec fn gives_up(after: Stage, todo: Todo, reason: String) -> bool {
    &&& after matches Stage::Unlocking { outcome } && outcome == Err::<(), ConfigError>(
        ConfigError::Io(reason),
    )
    &&& todo is Unlock
}

/// What follows at a stage.
pub open spec fn follows(stage: Stage, went: Went, after: Stage, todo: Todo) -> bool {
    match (stage, went) {
        (Stage::Locking, Went::Well) => after is Reading && todo is Read,
        (Stage::Locking, Went::Locked) => after is Over && (todo matches Todo::Finish(Err(e)) && e
            is LockContention),
        (Stage::Locking, Went::Wrong(reason)) => after is Over && (todo matches Todo::Finish(
            Err(ConfigError::Io(r)),
        ) && r == reason),
        (Stage::Reading, Went::File(FileText::Text(text))) => match parsed(text@) {
            Some(v) => after is Changing && (todo matches Todo::Change(config) && config@ == v),
            None => {
                &&& todo is Unlock
                &&& after matches Stage::Unlocking { outcome: Err(e) } && e is Json
            },
        },
        (Stage::Reading, Went::File(FileText::Missing)) => after is Changing && (
        todo matches Todo::Change(config) && config@ == JsonV::Obj(Map::empty())),
        (Stage::Reading, Went::File(FileText::Failed(reason))) => gives_up(after, todo, reason),
        (Stage::Changing, Went::Changed { config, write }) => if write {
            &&& todo is BackUp
            &&& after matches Stage::BackingUp { text } && text@ == pretty_text(config@) && (plain(
                config@,
                127,
            ) ==> parsed(text@) == Some(config@))
        } else {
            &&& todo is Unlock
            &&& after matches Stage::Unlocking { outcome } && outcome is Ok
        },
        (Stage::BackingUp { text }, Went::Well) => after is Writing && todo == Todo::Write(text),
        (Stage::BackingUp { .. }, Went::Wrong(reason)) => gives_up(after, todo, reason),
        (Stage::Writing, Went::Well) => {
            &&& todo is Unlock
            &&& after matches Stage::Unlocking { outcome } && outcome is Ok
        },
        (Stage::Writing, Went::Wrong(reason)) => gives_up(after, todo, reason),
        (Stage::Unlocking { outcome }, _) => after is Over && todo == Todo::Finish(outcome),
        _ => false,
    }
}

/// A change of the file: what is to be done is asked for step by step, and how it went is told.
#[derive(Debug)]
pub struct ConfigEdit {
    pub stage: Stage,
}

impl ConfigEdit {
    /// The first thing to be done is to lock the file.
    pub fn begin() -> (out: (ConfigEdit, Todo))
        ensures
            out.0.stage is Locking,
            out.1 is Lock,
    {
        (ConfigEdit { stage: Stage::Locking }, Todo::Lock)
    }

    fn give_up(&mut self, reason: String) -> (todo: Todo)
        ensures
            gives_up(final(self).stage, todo, reason),
    {
        self.stage = Stage::Unlocking { outcome: Err(ConfigError::Io(reason)) };
        Todo::Unlock
    }

    /// Whether this can be how the last thing went.
    pub fn can_take(&self, went: &Went) -> (out: bool)
        ensures
            out == can_go(self.stage, *went),
    {
        match (&self.stage, went) {
            (Stage::Locking, Went::Well | Went::Locked | Went::Wrong(_)) => true,
            (Stage::Reading, Went::File(_)) => true,
            (Stage::Changing, Went::Changed { .. }) => true,
            (Stage::BackingUp { .. }, Went::Well | Went::Wrong(_)) => true,
            (Stage::Writing, Went::Well | Went::Wrong(_)) => true,
            (Stage::Unlocking { .. }, Went::Well | Went::Wrong(_)) => true,
            _ => false,
        }
    }

    /// Takes how the last thing went. Returns what is to be done next.
    pub fn next(&mut self, went: Went) -> (todo: Todo)
        requires
            can_go(old(self).stage, went),
        ensures
            follows(old(self).stage, went, final(self).stage, todo),
    {
        let mut stage = Stage::Over;
        std::mem::swap(&mut stage, &mut self.stage);
        match (stage, went) {
            (Stage::Locking, Went::Well) => {
                self.stage = Stage::Reading;
                Todo::Read
            },
            (Stage::Locking, Went::Wrong(reason)) => Todo::Finish(Err(ConfigError::Io(reason))),
            (Stage::Locking, _) => Todo::Finish(Err(ConfigError::LockContention)),
            (Stage::Reading, Went::File(FileText::Failed(reason))) => self.give_up(reason),
            (Stage::Reading, Went::File(file)) => match read_config(file) {
                Ok(config) => {
                    self.stage = Stage::Changing;
                    Todo::Change(config)
                },
                Err(e) => {
                    self.stage = Stage::Unlocking { outcome: Err(e) };
                    Todo::Unlock
                },
            },
            (Stage::Changing, Went::Changed { config, write }) => {
                if write {
                    self.stage = Stage::BackingUp { text: config_text(&config) };
                    Todo::BackUp
                } else {
                    self.stage = Stage::Unlocking { outcome: Ok(()) };
                    Todo::Unlock
                }
            },
            (Stage::BackingUp { text }, Went::Well) => {
                self.stage = Stage::Writing;
                Todo::Write(text)
            },
            (Stage::BackingUp { .. }, Went::Wrong(reason)) => self.give_up(reason),
            (Stage::Writing, Went::Well) => {
                self.stage = Stage::Unlocking { outcome: Ok(()) };
                Todo::Unlock
            },
            (Stage::Writing, Went::Wrong(reason)) => self.give_up(reason),
            (Stage::Unlocking { outcome }, _) => Todo::Finish(outcome),
            _ => Todo::Unlock,
        }
    }
}

/// The lock is removed on every way out, and only where it was made: while it is there nothing
/// ends but by way of removing it, and where it could not be made it is left alone.
pub proof fn lock_is_always_released(stage: Stage, went: Went, after: Stage, todo: Todo)
    requires
        can_go(stage, went),
        follows(stage, went, after, todo),
    ensures
        holds_lock(stage) && after is Over ==> stage is Unlocking,
        after is Unlocking <==> todo is Unlock,
        todo is Unlock ==> holds_lock(stage),
        after is Over <==> todo is Finish,
{
}

/// How many steps there can be until a change is over.
pub open spec fn steps_left(stage: Stage) -> nat {
    match stage {
        Stage::Locking => 6,
        Stage::Reading => 5,
        Stage::Changing => 4,
        Stage::BackingUp { .. } => 3,
        Stage::Writing => 2,
        Stage::Unlocking { .. } => 1,
        Stage::Over => 0,
    }
}

/// Every change comes to its end.
pub proof fn every_change_ends(stage: Stage, went: Went, after: Stage, todo: Todo)
    requires
        can_go(stage, went),
        follows(stage, went, after, todo),
    ensures
        steps_left(after) < steps_left(stage),
{
}

/// Nothing is written unless the change asks for it and a backup was made.
pub proof fn writing_needs_change_and_backup(stage: Stage, went: Went, after: Stage, todo: Todo)
    requires
        can_go(stage, went),
        follows(stage, went, after, todo),
    ensures
        todo is Write ==> stage is BackingUp && went is Well,
        todo is BackUp ==> stage is Changing && went->write,
{
}

} // verus!
