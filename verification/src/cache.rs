//! A persistent map from keys to values, kept in a `sled` database.

use vstd::prelude::*;

verus! {

/// The database's own memory cache, in bytes.
pub const CACHE_CAPACITY: u64 = 536870912;

#[verifier::external_type_specification]
#[verifier::external_body]
pub struct ExDb(sled::Db);

#[verifier::external_type_specification]
#[verifier::external_body]
pub struct ExSledError(sled::Error);

/// The keys of a database, each with its value.
pub uninterp spec fn db_entries(db: sled::Db) -> Map<Seq<u8>, Seq<u8>>;

/// The path that a database was opened at.
pub uninterp spec fn db_path(db: sled::Db) -> Seq<char>;

/// Whether opening a database at this path, with this much memory cache, may
/// end this way: that it succeeds, or that it does not.
pub uninterp spec fn open_outcome(path: Seq<char>, capacity: u64, opened: bool) -> bool;

/// Whether looking a key up among these entries may have this answer: whether
/// it is there, or nothing if the look-up fails.
pub uninterp spec fn lookup_outcome(
    entries: Map<Seq<u8>, Seq<u8>>,
    key: Seq<u8>,
    answer: Option<bool>,
) -> bool;

/// Whether putting an entry among these may end this way: that it succeeds, or
/// that it does not.
pub uninterp spec fn insert_outcome(
    entries: Map<Seq<u8>, Seq<u8>>,
    key: Seq<u8>,
    value: Seq<u8>,
    done: bool,
) -> bool;

/// Whether reading the first of these entries may have this answer: the entry,
/// if there is one, or nothing if the read fails.
pub uninterp spec fn first_outcome(
    entries: Map<Seq<u8>, Seq<u8>>,
    answer: Option<Option<(Seq<u8>, Seq<u8>)>>,
) -> bool;

/// Whether reading the next of these entries above a key may have this answer:
/// the entry, if there is one, or nothing if the read fails.
pub uninterp spec fn next_outcome(
    entries: Map<Seq<u8>, Seq<u8>>,
    previous: Seq<u8>,
    answer: Option<Option<(Seq<u8>, Seq<u8>)>>,
) -> bool;

/// The bytes of what a read came to, or nothing if it failed.
pub open spec fn read_view(
    entry: Result<Option<(Vec<u8>, Vec<u8>)>, sled::Error>,
) -> Option<Option<(Seq<u8>, Seq<u8>)>> {
    match entry {
        Ok(Some((key, value))) => Some(Some((key@, value@))),
        Ok(None) => Some(None),
        Err(_) => None,
    }
}

/// Whether a walk through these entries may come upon a read that fails.
pub open spec fn is_unreadable(entries: Map<Seq<u8>, Seq<u8>>) -> bool {
    ||| first_outcome(entries, None)
    ||| exists|key: Seq<u8>| #[trigger]
        entries.contains_key(key) && next_outcome(entries, key, None)
}

/// The order of keys: byte by byte, a prefix before what it is a prefix of.
pub open spec fn key_before(a: Seq<u8>, b: Seq<u8>) -> bool
    decreases a.len(),
{
    if b.len() == 0 {
        false
    } else if a.len() == 0 {
        true
    } else if a[0] != b[0] {
        a[0] < b[0]
    } else {
        key_before(a.skip(1), b.skip(1))
    }
}

/// `key` is the least key of `entries`.
pub open spec fn is_first_key(entries: Map<Seq<u8>, Seq<u8>>, key: Seq<u8>) -> bool {
    &&& entries.contains_key(key)
    &&& forall|k: Seq<u8>| #[trigger] entries.contains_key(k) ==> k == key || key_before(key, k)
}

/// `key` is the least key of `entries` above `previous`.
pub open spec fn is_next_key(
    entries: Map<Seq<u8>, Seq<u8>>,
    previous: Seq<u8>,
    key: Seq<u8>,
) -> bool {
    &&& entries.contains_key(key)
    &&& key_before(previous, key)
    &&& forall|k: Seq<u8>| #[trigger]
        entries.contains_key(k) && key_before(previous, k) ==> k == key || key_before(key, k)
}

/// Calls `sled::Config::open` on the default configuration with this path and
/// memory cache. Whether it succeeds, and what the database then holds, is up
/// to what is on disk.
#[verifier::external_body]
fn db_open(path: &str, capacity: u64) -> (opened: Result<sled::Db, sled::Error>)
    requires
        capacity >= 256,
    ensures
        opened matches Ok(db) ==> db_path(db) == path@,
        open_outcome(path@, capacity, opened is Ok),
{
    sled::Config::default().path(path).cache_capacity(capacity).open()
}

/// Calls `sled::Tree::contains_key`: where it succeeds it says whether the key
/// is there.
#[verifier::external_body]
fn db_contains_key(db: &sled::Db, key: &[u8]) -> (found: Result<bool, sled::Error>)
    ensures
        found matches Ok(there) ==> there == db_entries(*db).contains_key(key@),
        lookup_outcome(db_entries(*db), key@, found.ok()),
{
    db.contains_key(key)
}

/// Calls `sled::Tree::insert`: where it succeeds the key has the value, and
/// every other key is as it was. Nothing is claimed of the entries after a
/// failure.
#[verifier::external_body]
fn db_insert(db: &mut sled::Db, key: &[u8], value: Vec<u8>) -> (done: Result<(), sled::Error>)
    ensures
        db_path(*final(db)) == db_path(*old(db)),
        done is Ok ==> db_entries(*final(db)) == db_entries(*old(db)).insert(key@, value@),
        insert_outcome(db_entries(*old(db)), key@, value@, done is Ok),
{
    db.insert(key, value).map(|_previous| ())
}

/// Calls `sled::Tree::first`: where it succeeds it gives the least key and its
/// value, or nothing when there is no key.
#[verifier::external_body]
fn db_first(db: &sled::Db) -> (entry: Result<Option<(Vec<u8>, Vec<u8>)>, sled::Error>)
    ensures
        entry matches Ok(found) ==> db_entries(*db).dom().finite() && match found {
            Some((key, value)) => is_first_key(db_entries(*db), key@) && db_entries(*db)[key@]
                == value@,
            None => db_entries(*db).dom() == Set::<Seq<u8>>::empty(),
        },
        first_outcome(db_entries(*db), read_view(entry)),
{
    let entry = db.first()?;
    Ok(entry.map(|(key, value)| (key.to_vec(), value.to_vec())))
}

/// Calls `sled::Tree::get_gt`: where it succeeds it gives the least key above
/// the given one and its value, or nothing when there is no key above it.
#[verifier::external_body]
fn db_get_gt(db: &sled::Db, previous: &[u8]) -> (entry: Result<
    Option<(Vec<u8>, Vec<u8>)>,
    sled::Error,
>)
    ensures
        entry matches Ok(found) ==> db_entries(*db).dom().finite() && match found {
            Some((key, value)) => is_next_key(db_entries(*db), previous@, key@) && db_entries(
                *db,
            )[key@] == value@,
            None => forall|k: Seq<u8>| #[trigger]
                db_entries(*db).contains_key(k) ==> !key_before(previous@, k),
        },
        next_outcome(db_entries(*db), previous@, read_view(entry)),
{
    let entry = db.get_gt(previous)?;
    Ok(entry.map(|(key, value)| (key.to_vec(), value.to_vec())))
}

/// What went wrong in the database.
#[derive(Clone, Copy, Debug, PartialEq, Eq, Structural)]
pub enum CacheError {
    /// The database could not be opened.
    Open,
    /// An entry could not be read.
    Read,
    /// An entry could not be written.
    Write,
}

/// The keys of `entries` below `key`.
pub open spec fn keys_below(entries: Map<Seq<u8>, Seq<u8>>, key: Seq<u8>) -> Set<Seq<u8>> {
    entries.dom().filter(|k: Seq<u8>| key_before(k, key))
}

/// `key` stands at `position` when the keys of `entries` are put in order.
pub open spec fn is_key_at(
    entries: Map<Seq<u8>, Seq<u8>>,
    key: Seq<u8>,
    position: nat,
) -> bool {
    &&& entries.contains_key(key)
    &&& keys_below(entries, key).len() == position
}

/// The key at `position` when the keys of `entries` are put in order.
pub open spec fn key_at(entries: Map<Seq<u8>, Seq<u8>>, position: nat) -> Seq<u8> {
    choose|key: Seq<u8>| is_key_at(entries, key, position)
}

/// A persistent map from byte strings to byte strings.
pub struct Cache {
    db: sled::Db,
}

impl View for Cache {
    type V = Map<Seq<u8>, Seq<u8>>;

    closed spec fn view(&self) -> Map<Seq<u8>, Seq<u8>> {
        db_entries(self.db)
    }
}

proof fn lemma_key_before_irreflexive(a: Seq<u8>)
    ensures
        !key_before(a, a),
    decreases a.len(),
{
    if a.len() > 0 {
        lemma_key_before_irreflexive(a.skip(1));
    }
}

proof fn lemma_key_before_transitive(a: Seq<u8>, b: Seq<u8>, c: Seq<u8>)
    requires
        key_before(a, b),
        key_before(b, c),
    ensures
        key_before(a, c),
    decreases a.len(),
{
    if a.len() > 0 && a[0] == b[0] && b[0] == c[0] {
        lemma_key_before_transitive(a.skip(1), b.skip(1), c.skip(1));
    }
}

proof fn lemma_key_before_total(a: Seq<u8>, b: Seq<u8>)
    ensures
        a == b || key_before(a, b) || key_before(b, a),
    decreases a.len(),
{
    if a.len() > 0 && b.len() > 0 && a[0] == b[0] {
        lemma_key_before_total(a.skip(1), b.skip(1));
        if a.skip(1) == b.skip(1) {
            assert(a =~= seq![a[0]] + a.skip(1));
            assert(b =~= seq![b[0]] + b.skip(1));
        }
    } else if a.len() == 0 && b.len() == 0 {
        assert(a =~= b);
    }
}

/// A key that comes before another stands at a smaller position.
proof fn lemma_key_positions_ordered(
    entries: Map<Seq<u8>, Seq<u8>>,
    a: Seq<u8>,
    b: Seq<u8>,
)
    requires
        entries.dom().finite(),
        entries.contains_key(a),
        entries.contains_key(b),
        key_before(a, b),
    ensures
        keys_below(entries, a).len() < keys_below(entries, b).len(),
{
    let small = keys_below(entries, a);
    let large = keys_below(entries, b);
    lemma_key_before_irreflexive(a);
    assert forall|k: Seq<u8>| #[trigger] small.insert(a).contains(k) implies large.contains(k) by {
        if k != a {
            lemma_key_before_transitive(k, a, b);
        }
    }
    entries.dom().lemma_len_filter(|k: Seq<u8>| key_before(k, a));
    entries.dom().lemma_len_filter(|k: Seq<u8>| key_before(k, b));
    vstd::set_lib::lemma_len_subset(small.insert(a), large);
}

/// Every key of the map stands at exactly one position below the number of
/// keys, and no two keys share one: each entry is picked by exactly one draw.
pub proof fn law_each_entry_has_one_position(entries: Map<Seq<u8>, Seq<u8>>, key: Seq<u8>)
    requires
        entries.dom().finite(),
        entries.contains_key(key),
    ensures
        keys_below(entries, key).len() < entries.len(),
        key_at(entries, keys_below(entries, key).len()) == key,
{
    let position = keys_below(entries, key).len();
    lemma_key_before_irreflexive(key);
    let below = keys_below(entries, key);
    entries.dom().lemma_len_filter(|k: Seq<u8>| key_before(k, key));
    assert(below.insert(key).subset_of(entries.dom()));
    vstd::set_lib::lemma_len_subset(below.insert(key), entries.dom());
    assert(is_key_at(entries, key, position));
    lemma_key_at_unique(entries, key, key_at(entries, position), position);
}

proof fn lemma_greatest_key(keys: Set<Seq<u8>>) -> (greatest: Seq<u8>)
    requires
        keys.finite(),
        keys.len() > 0,
    ensures
        keys.contains(greatest),
        forall|k: Seq<u8>| #[trigger]
            keys.contains(k) ==> k == greatest || key_before(k, greatest),
    decreases keys.len(),
{
    let one = keys.choose();
    let rest = keys.remove(one);
    if rest.len() == 0 {
        assert forall|k: Seq<u8>| #[trigger] keys.contains(k) implies k == one by {
            if k != one {
                assert(rest.contains(k));
            }
        }
        one
    } else {
        let other = lemma_greatest_key(rest);
        lemma_key_before_total(one, other);
        let greatest = if key_before(other, one) {
            one
        } else {
            other
        };
        assert forall|k: Seq<u8>| #[trigger] keys.contains(k) implies k == greatest || key_before(
            k,
            greatest,
        ) by {
            if k != one {
                assert(rest.contains(k));
                if greatest == one && k != other {
                    lemma_key_before_transitive(k, other, one);
                }
            }
        }
        greatest
    }
}

/// There is a key at every position below the number of keys.
pub proof fn law_each_position_is_taken(entries: Map<Seq<u8>, Seq<u8>>, position: nat)
    requires
        entries.dom().finite(),
        position < entries.len(),
    ensures
        is_key_at(entries, key_at(entries, position), position),
    decreases entries.len(),
{
    let greatest = lemma_greatest_key(entries.dom());
    lemma_key_before_irreflexive(greatest);
    if position + 1 == entries.len() {
        assert(keys_below(entries, greatest) =~= entries.dom().remove(greatest));
        assert(is_key_at(entries, greatest, position));
    } else {
        let fewer = entries.remove(greatest);
        assert(fewer.dom() =~= entries.dom().remove(greatest));
        law_each_position_is_taken(fewer, position);
        let key = key_at(fewer, position);
        assert(entries.contains_key(key));
        assert forall|k: Seq<u8>| #[trigger]
            keys_below(entries, key).contains(k) <==> keys_below(fewer, key).contains(k) by {
            if k == greatest && key_before(greatest, key) {
                lemma_key_before_transitive(greatest, key, greatest);
            }
        }
        assert(keys_below(entries, key) =~= keys_below(fewer, key));
        assert(is_key_at(entries, key, position));
    }
}

proof fn lemma_key_at_unique(
    entries: Map<Seq<u8>, Seq<u8>>,
    a: Seq<u8>,
    b: Seq<u8>,
    position: nat,
)
    requires
        entries.dom().finite(),
        is_key_at(entries, a, position),
        is_key_at(entries, b, position),
    ensures
        a == b,
{
    lemma_key_before_total(a, b);
    if key_before(a, b) {
        lemma_key_positions_ordered(entries, a, b);
    } else if key_before(b, a) {
        lemma_key_positions_ordered(entries, b, a);
    }
}

proof fn lemma_first_key_position(entries: Map<Seq<u8>, Seq<u8>>, key: Seq<u8>)
    requires
        is_first_key(entries, key),
    ensures
        is_key_at(entries, key, 0),
{
    assert forall|k: Seq<u8>| !keys_below(entries, key).contains(k) by {
        if entries.contains_key(k) && key_before(k, key) {
            lemma_key_before_irreflexive(key);
            lemma_key_before_transitive(k, key, k);
            lemma_key_before_irreflexive(k);
        }
    }
    assert(keys_below(entries, key) =~= Set::<Seq<u8>>::empty());
}

proof fn lemma_next_key_position(
    entries: Map<Seq<u8>, Seq<u8>>,
    previous: Seq<u8>,
    key: Seq<u8>,
    position: nat,
)
    requires
        entries.dom().finite(),
        is_key_at(entries, previous, position),
        is_next_key(entries, previous, key),
    ensures
        is_key_at(entries, key, position + 1),
{
    let below = keys_below(entries, previous);
    lemma_key_before_irreflexive(previous);
    lemma_key_before_irreflexive(key);
    assert forall|k: Seq<u8>| #[trigger]
        keys_below(entries, key).contains(k) <==> below.insert(previous).contains(k) by {
        if entries.contains_key(k) {
            lemma_key_before_total(k, previous);
            if key_before(k, previous) {
                lemma_key_before_transitive(k, previous, key);
            } else if key_before(previous, k) && key_before(k, key) {
                if k != key {
                    lemma_key_before_transitive(key, k, key);
                }
            }
            if key_before(previous, k) && below.contains(k) {
                lemma_key_before_transitive(k, previous, k);
                lemma_key_before_irreflexive(k);
            }
        }
    }
    assert(keys_below(entries, key) =~= below.insert(previous));
    entries.dom().lemma_len_filter(|k: Seq<u8>| key_before(k, previous));
}

proof fn lemma_last_key_position(
    entries: Map<Seq<u8>, Seq<u8>>,
    last: Seq<u8>,
    position: nat,
)
    requires
        entries.dom().finite(),
        is_key_at(entries, last, position),
        forall|k: Seq<u8>| #[trigger] entries.contains_key(k) ==> !key_before(last, k),
    ensures
        entries.len() == position + 1,
{
    let below = keys_below(entries, last);
    lemma_key_before_irreflexive(last);
    assert forall|k: Seq<u8>| #[trigger]
        entries.dom().contains(k) <==> below.insert(last).contains(k) by {
        if entries.contains_key(k) {
            lemma_key_before_total(k, last);
        }
    }
    assert(entries.dom() =~= below.insert(last));
    entries.dom().lemma_len_filter(|k: Seq<u8>| key_before(k, last));
}

/// Where a walk through the entries in the order of their keys stands.
#[derive(Debug)]
pub enum Walk {
    /// An entry could not be read.
    Failed,
    /// There are no more entries.
    Ended,
    /// This is the entry that was looked for.
    Here { key: Vec<u8>, value: Vec<u8> },
    /// The walk goes on above this key.
    On { key: Vec<u8> },
}

/// One step of a walk: what follows from what was read, with `left` more
/// entries to go past.
pub fn walk(found: Result<Option<(Vec<u8>, Vec<u8>)>, CacheError>, left: usize) -> (step: Walk)
    ensures
        match found {
            Err(_) => step is Failed,
            Ok(None) => step is Ended,
            Ok(Some((key, value))) => if left == 0 {
                step == (Walk::Here { key, value })
            } else {
                step == (Walk::On { key })
            },
        },
{
    match found {
        Err(_) => Walk::Failed,
        Ok(None) => Walk::Ended,
        Ok(Some((key, value))) => {
            if left == 0 {
                Walk::Here { key, value }
            } else {
                Walk::On { key }
            }
        },
    }
}

impl Cache {
    /// The path that the cache is kept at.
    pub closed spec fn path(&self) -> Seq<char> {
        db_path(self.db)
    }

    /// Opens the cache at a path.
    pub fn open(path: &str) -> (opened: Result<Cache, CacheError>)
        ensures
            opened matches Ok(cache) ==> cache.path() == path@,
            opened matches Err(e) ==> e == CacheError::Open && open_outcome(
                path@,
                CACHE_CAPACITY,
                false,
            ),
    {
        match db_open(path, CACHE_CAPACITY) {
            Ok(db) => Ok(Cache { db }),
            Err(_) => Err(CacheError::Open),
        }
    }

    /// Whether a key is in the cache.
    pub fn contains_key(&self, key: &Vec<u8>) -> (found: Result<bool, CacheError>)
        ensures
            found matches Ok(there) ==> there == self@.contains_key(key@),
            found matches Err(e) ==> e == CacheError::Read && lookup_outcome(self@, key@, None),
    {
        match db_contains_key(&self.db, key.as_slice()) {
            Ok(there) => Ok(there),
            Err(_) => Err(CacheError::Read),
        }
    }

    /// Puts an entry into the cache.
    pub fn insert(&mut self, key: &Vec<u8>, value: Vec<u8>) -> (done: Result<(), CacheError>)
        ensures
            final(self).path() == old(self).path(),
            done is Ok ==> final(self)@ == old(self)@.insert(key@, value@),
            done matches Err(e) ==> e == CacheError::Write && insert_outcome(
                old(self)@,
                key@,
                value@,
                false,
            ),
    {
        match db_insert(&mut self.db, key.as_slice(), value) {
            Ok(()) => Ok(()),
            Err(_) => Err(CacheError::Write),
        }
    }

    /// The entry with the least key.
    pub fn first(&self) -> (entry: Result<Option<(Vec<u8>, Vec<u8>)>, CacheError>)
        ensures
            entry matches Ok(found) ==> self@.dom().finite() && match found {
                Some((key, value)) => is_first_key(self@, key@) && self@[key@] == value@,
                None => self@.dom() == Set::<Seq<u8>>::empty(),
            },
            entry matches Err(e) ==> e == CacheError::Read && first_outcome(self@, None),
    {
        match db_first(&self.db) {
            Ok(found) => Ok(found),
            Err(_) => Err(CacheError::Read),
        }
    }

    /// The entry with the least key above the given one.
    pub fn after(&self, previous: &Vec<u8>) -> (entry: Result<
        Option<(Vec<u8>, Vec<u8>)>,
        CacheError,
    >)
        ensures
            entry matches Ok(found) ==> self@.dom().finite() && match found {
                Some((key, value)) => is_next_key(self@, previous@, key@) && self@[key@]
                    == value@,
                None => forall|k: Seq<u8>| #[trigger]
                    self@.contains_key(k) ==> !key_before(previous@, k),
            },
            entry matches Err(e) ==> e == CacheError::Read && next_outcome(
                self@,
                previous@,
                None,
            ),
    {
        match db_get_gt(&self.db, previous.as_slice()) {
            Ok(found) => Ok(found),
            Err(_) => Err(CacheError::Read),
        }
    }

    /// The number of entries. More of them than a `usize` holds count as
    /// unreadable.
    pub fn len(&self) -> (count: Result<usize, CacheError>)
        ensures
            count matches Ok(count) ==> count == self@.len(),
            count matches Err(e) ==> e == CacheError::Read && (is_unreadable(self@) || self@.len()
                > usize::MAX),
    {
        let mut found = self.first();
        let mut count: usize = 0;
        proof {
            self.lemma_walk_starts(found);
        }
        loop
            invariant
                found is Err ==> is_unreadable(self@),
                found is Ok ==> self@.dom().finite(),
                found matches Ok(Some((key, value))) ==> is_key_at(self@, key@, count as nat),
                found matches Ok(None) ==> self@.len() == count,
            decreases usize::MAX - count,
        {
            match walk(found, 1) {
                Walk::Failed => return Err(CacheError::Read),
                Walk::Ended => return Ok(count),
                Walk::Here { .. } => return Err(CacheError::Read),
                Walk::On { key } => {
                    if count == usize::MAX {
                        proof {
                            law_each_entry_has_one_position(self@, key@);
                        }
                        return Err(CacheError::Read);
                    }
                    found = self.after(&key);
                    proof {
                        self.lemma_walks_on(key@, count as nat, found);
                    }
                    count = count + 1;
                },
            }
        }
    }

    /// Where a walk stands at its start.
    proof fn lemma_walk_starts(&self, found: Result<Option<(Vec<u8>, Vec<u8>)>, CacheError>)
        requires
            found matches Ok(Some((key, value))) ==> is_first_key(self@, key@),
        ensures
            found matches Ok(Some((key, value))) ==> is_key_at(self@, key@, 0),
    {
        if let Ok(Some((key, _value))) = found {
            lemma_first_key_position(self@, key@);
        }
    }

    /// Where a walk stands after the entry at a position.
    proof fn lemma_walks_on(
        &self,
        previous: Seq<u8>,
        position: nat,
        found: Result<Option<(Vec<u8>, Vec<u8>)>, CacheError>,
    )
        requires
            is_key_at(self@, previous, position),
            found matches Ok(found) ==> self@.dom().finite() && match found {
                Some((key, value)) => is_next_key(self@, previous, key@),
                None => forall|k: Seq<u8>| #[trigger]
                    self@.contains_key(k) ==> !key_before(previous, k),
            },
        ensures
            found matches Ok(Some((key, value))) ==> is_key_at(self@, key@, position + 1),
            found matches Ok(None) ==> self@.len() == position + 1,
    {
        match found {
            Ok(Some((key, _value))) => {
                lemma_next_key_position(self@, previous, key@, position);
            },
            Ok(None) => {
                lemma_last_key_position(self@, previous, position);
            },
            Err(_) => {},
        }
    }

    /// The entry at a position when the keys are put in order.
    pub fn entry_at(&self, position: usize) -> (entry: Result<
        Option<(Vec<u8>, Vec<u8>)>,
        CacheError,
    >)
        ensures
            entry matches Ok(Some((key, value))) ==> self@.dom().finite() && is_key_at(
                self@,
                key@,
                position as nat,
            ) && key@ == key_at(self@, position as nat) && self@[key@] == value@,
            entry matches Ok(None) ==> self@.len() <= position,
            entry matches Err(e) ==> e == CacheError::Read && is_unreadable(self@),
    {
        let mut found = self.first();
        let mut left: usize = position;
        proof {
            self.lemma_walk_starts(found);
        }
        loop
            invariant
                left <= position,
                found is Err ==> is_unreadable(self@),
                found is Ok ==> self@.dom().finite(),
                found matches Ok(Some((key, value))) ==> is_key_at(
                    self@,
                    key@,
                    (position - left) as nat,
                ) && self@[key@] == value@,
                found matches Ok(None) ==> self@.len() == position - left,
            decreases left,
        {
            match walk(found, left) {
                Walk::Failed => return Err(CacheError::Read),
                Walk::Ended => return Ok(None),
                Walk::Here { key, value } => {
                    proof {
                        lemma_key_at_unique(
                            self@,
                            key@,
                            key_at(self@, position as nat),
                            position as nat,
                        );
                    }
                    return Ok(Some((key, value)));
                },
                Walk::On { key } => {
                    found = self.after(&key);
                    proof {
                        self.lemma_walks_on(key@, (position - left) as nat, found);
                    }
                    left = left - 1;
                },
            }
        }
    }
}

/// The order of keys is that of a dictionary: of two keys that agree up to some
/// place, the one with the smaller byte there comes first, or the one that ends
/// there.
pub proof fn law_keys_are_ordered_as_in_a_dictionary(a: Seq<u8>, b: Seq<u8>, at: int)
    requires
        0 <= at <= a.len(),
        at < b.len(),
        forall|i: int| 0 <= i < at ==> a[i] == b[i],
        at == a.len() || a[at] < b[at],
    ensures
        key_before(a, b),
        !key_before(b, a),
        a != b,
    decreases at,
{
    if at > 0 {
        assert(a[0] == b[0]);
        assert forall|i: int| 0 <= i < at - 1 implies a.skip(1)[i] == b.skip(1)[i] by {
            assert(a[i + 1] == b[i + 1]);
        }
        law_keys_are_ordered_as_in_a_dictionary(a.skip(1), b.skip(1), at - 1);
    } else if a.len() > 0 {
        assert(a[0] < b[0]);
    }
}

/// No key comes before itself, and of two different keys exactly one comes
/// before the other.
pub proof fn law_keys_are_in_one_order(a: Seq<u8>, b: Seq<u8>, c: Seq<u8>)
    ensures
        !key_before(a, a),
        a != b ==> key_before(a, b) != key_before(b, a),
        key_before(a, b) && key_before(b, c) ==> key_before(a, c),
{
    lemma_key_before_irreflexive(a);
    lemma_key_before_total(a, b);
    if key_before(a, b) && key_before(b, a) {
        lemma_key_before_transitive(a, b, a);
    }
    if key_before(a, b) && key_before(b, c) {
        lemma_key_before_transitive(a, b, c);
    }
}

/// Positions go up with the keys: the key at each position is in the map, and
/// comes before the keys at all later positions.
pub proof fn law_positions_go_up_with_the_keys(
    entries: Map<Seq<u8>, Seq<u8>>,
    first: nat,
    second: nat,
)
    requires
        entries.dom().finite(),
        first < second < entries.len(),
    ensures
        entries.contains_key(key_at(entries, first)),
        entries.contains_key(key_at(entries, second)),
        key_before(key_at(entries, first), key_at(entries, second)),
{
    law_each_position_is_taken(entries, first);
    law_each_position_is_taken(entries, second);
    let a = key_at(entries, first);
    let b = key_at(entries, second);
    lemma_key_before_total(a, b);
    if key_before(b, a) {
        lemma_key_positions_ordered(entries, b, a);
    }
}

/// There is a least key, which comes before all others and stands at the first
/// position; and the least of the keys above one stands right behind it.
pub proof fn law_walking_goes_position_by_position(
    entries: Map<Seq<u8>, Seq<u8>>,
    first: Seq<u8>,
    key: Seq<u8>,
    above: Seq<u8>,
)
    requires
        entries.dom().finite(),
        is_first_key(entries, first),
        entries.contains_key(key),
        is_next_key(entries, key, above),
    ensures
        key_at(entries, 0) == first,
        key_at(entries, keys_below(entries, key).len() + 1) == above,
{
    let position = keys_below(entries, key).len();
    lemma_first_key_position(entries, first);
    lemma_next_key_position(entries, key, above, position);
    law_each_entry_has_one_position(entries, first);
    law_each_entry_has_one_position(entries, above);
}

/// Entries can be walked through where no read of them may fail.
pub proof fn law_failed_reads_are_what_cannot_be_read(entries: Map<Seq<u8>, Seq<u8>>)
    requires
        !first_outcome(entries, None),
        forall|key: Seq<u8>| #[trigger]
            entries.contains_key(key) ==> !next_outcome(entries, key, None),
    ensures
        !is_unreadable(entries),
{
}

} // verus!
