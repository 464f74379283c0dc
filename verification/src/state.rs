//! A key-value store with snapshots and rollback.

use crate::clock::unix_seconds;
use crate::text::same_text;
use vstd::prelude::*;
use vstd::slice::slice_to_vec;
use vstd::string::*;

verus! {

/// How many snapshots a store keeps.
pub const SNAPSHOT_LIMIT: usize = 10;

/// One key with its value, as mathematical values.
pub struct EntryData {
    pub key: Seq<char>,
    pub value: Seq<u8>,
}

/// A snapshot as mathematical values: a copy of the values of a store and
/// the time at which it was made.
pub struct SnapshotData {
    pub timestamp: u64,
    pub values: Map<Seq<char>, Seq<u8>>,
}

/// A store as mathematical values: its values, its snapshots from the
/// oldest to the newest, and the number of snapshots it keeps.
pub struct StateData {
    pub values: Map<Seq<char>, Seq<u8>>,
    pub snapshots: Seq<SnapshotData>,
    pub limit: nat,
}

impl StateData {
    /// What holds of every store.
    pub open spec fn valid(self) -> bool {
        1 <= self.limit && self.snapshots.len() <= self.limit
    }

    /// The value under `key`, if there is one.
    pub open spec fn get(self, key: Seq<char>) -> Option<Seq<u8>> {
        if self.values.contains_key(key) {
            Some(self.values[key])
        } else {
            None
        }
    }

    /// The store after `value` was put under `key`.
    pub open spec fn set(self, key: Seq<char>, value: Seq<u8>) -> StateData {
        StateData { values: self.values.insert(key, value), ..self }
    }

    /// The store after `key` was deleted.
    pub open spec fn delete(self, key: Seq<char>) -> StateData {
        StateData { values: self.values.remove(key), ..self }
    }

    /// The store after all values were deleted. The snapshots stay.
    pub open spec fn cleared(self) -> StateData {
        StateData { values: Map::empty(), ..self }
    }

    /// The store after a snapshot was made at `timestamp`: the snapshot is
    /// the newest, and the oldest leaves where there are more than the
    /// store keeps.
    pub open spec fn snapshot(self, timestamp: u64) -> StateData {
        let added = self.snapshots.push(SnapshotData { timestamp, values: self.values });
        StateData {
            snapshots: if added.len() > self.limit {
                added.drop_first()
            } else {
                added
            },
            ..self
        }
    }

    /// Whether `at` is the place of the oldest snapshot made at `timestamp`.
    pub open spec fn is_first_at(self, timestamp: u64, at: int) -> bool {
        &&& 0 <= at < self.snapshots.len()
        &&& self.snapshots[at].timestamp == timestamp
        &&& forall|j: int| 0 <= j < at ==> (#[trigger] self.snapshots[j]).timestamp != timestamp
    }

    /// Whether there is a snapshot made at `timestamp`.
    pub open spec fn has_snapshot(self, timestamp: u64) -> bool {
        exists|i: int|
            0 <= i < self.snapshots.len() && (#[trigger] self.snapshots[i]).timestamp == timestamp
    }

    /// The place of the oldest snapshot made at `timestamp`.
    pub open spec fn snapshot_index(self, timestamp: u64) -> int {
        choose|at: int| self.is_first_at(timestamp, at)
    }

    /// The store after a rollback to `timestamp`: the values are those of
    /// the oldest snapshot made then, and every snapshot after it is gone.
    /// Without such a snapshot nothing changes.
    pub open spec fn rollback(self, timestamp: u64) -> StateData {
        if self.has_snapshot(timestamp) {
            let at = self.snapshot_index(timestamp);
            StateData {
                values: self.snapshots[at].values,
                snapshots: self.snapshots.take(at + 1),
                ..self
            }
        } else {
            self
        }
    }

    /// The store after one snapshot was made at each of `stamps` in turn.
    pub open spec fn snapshots_at(self, stamps: Seq<u64>) -> StateData
        decreases stamps.len(),
    {
        if stamps.len() == 0 {
            self
        } else {
            self.snapshots_at(stamps.drop_last()).snapshot(stamps.last())
        }
    }
}

/// Whether `entries` holds `key`.
pub open spec fn holds_key(entries: Seq<EntryData>, key: Seq<char>) -> bool {
    exists|i: int| 0 <= i < entries.len() && (#[trigger] entries[i]).key == key
}

/// The place of `key` in `entries`, where it is there.
pub open spec fn key_index(entries: Seq<EntryData>, key: Seq<char>) -> int {
    choose|i: int| 0 <= i < entries.len() && (#[trigger] entries[i]).key == key
}

/// No key stands twice in `entries`.
pub open spec fn distinct_keys(entries: Seq<EntryData>) -> bool {
    forall|i: int, j: int|
        0 <= i < j < entries.len() ==> (#[trigger] entries[i]).key != (#[trigger] entries[j]).key
}

/// The mapping that `entries` stands for.
pub open spec fn contents(entries: Seq<EntryData>) -> Map<Seq<char>, Seq<u8>> {
    Map::new(
        |key: Seq<char>| holds_key(entries, key),
        |key: Seq<char>| entries[key_index(entries, key)].value,
    )
}

/// With distinct keys, the key at a place is found at that place.
pub proof fn lemma_key_at(entries: Seq<EntryData>, i: int)
    requires
        distinct_keys(entries),
        0 <= i < entries.len(),
    ensures
        holds_key(entries, entries[i].key),
        key_index(entries, entries[i].key) == i,
        contents(entries).contains_key(entries[i].key),
        contents(entries)[entries[i].key] == entries[i].value,
{
    let k = key_index(entries, entries[i].key);
    assert(entries[k].key == entries[i].key);
}

/// Replacing the value at the place of a key puts the value under the key.
pub proof fn lemma_contents_update(entries: Seq<EntryData>, i: int, value: Seq<u8>)
    requires
        distinct_keys(entries),
        0 <= i < entries.len(),
    ensures
        distinct_keys(entries.update(i, EntryData { key: entries[i].key, value })),
        contents(entries.update(i, EntryData { key: entries[i].key, value })) == contents(
            entries,
        ).insert(entries[i].key, value),
{
    let key = entries[i].key;
    let after = entries.update(i, EntryData { key, value });
    assert(distinct_keys(after)) by {
        assert forall|a: int, b: int| 0 <= a < b < after.len() implies (#[trigger] after[a]).key
            != (#[trigger] after[b]).key by {
            assert(after[a].key == entries[a].key);
            assert(after[b].key == entries[b].key);
        }
    }
    assert forall|k: Seq<char>| holds_key(after, k) == holds_key(entries, k) by {
        if holds_key(after, k) {
            let j = key_index(after, k);
            assert(entries[j].key == k);
        }
        if holds_key(entries, k) {
            let j = key_index(entries, k);
            assert(after[j].key == k);
        }
    }
    assert forall|k: Seq<char>| holds_key(after, k) implies #[trigger] contents(after)[k]
        == contents(entries).insert(key, value)[k] by {
        let j = key_index(after, k);
        lemma_key_at(after, j);
        lemma_key_at(entries, j);
    }
    assert(contents(after) =~= contents(entries).insert(key, value));
}

/// Adding a key that is not there puts the value under the key.
pub proof fn lemma_contents_push(entries: Seq<EntryData>, entry: EntryData)
    requires
        distinct_keys(entries),
        !holds_key(entries, entry.key),
    ensures
        distinct_keys(entries.push(entry)),
        contents(entries.push(entry)) == contents(entries).insert(entry.key, entry.value),
{
    let after = entries.push(entry);
    assert(distinct_keys(after)) by {
        assert forall|a: int, b: int| 0 <= a < b < after.len() implies (#[trigger] after[a]).key
            != (#[trigger] after[b]).key by {
            assert(after[a] == entries[a]);
            if b < entries.len() {
                assert(after[b] == entries[b]);
            }
        }
    }
    assert(after[entries.len() as int].key == entry.key);
    assert forall|k: Seq<char>| holds_key(after, k) == (holds_key(entries, k) || k == entry.key) by {
        if holds_key(after, k) {
            let j = key_index(after, k);
            if j < entries.len() {
                assert(entries[j].key == k);
            }
        }
        if holds_key(entries, k) {
            let j = key_index(entries, k);
            assert(after[j].key == k);
        }
    }
    assert forall|k: Seq<char>| holds_key(after, k) implies #[trigger] contents(after)[k]
        == contents(entries).insert(entry.key, entry.value)[k] by {
        let j = key_index(after, k);
        lemma_key_at(after, j);
        if j < entries.len() {
            assert(after[j] == entries[j]);
            lemma_key_at(entries, j);
        }
    }
    assert(contents(after) =~= contents(entries).insert(entry.key, entry.value));
}

/// Taking out the place of a key deletes the key.
pub proof fn lemma_contents_remove(entries: Seq<EntryData>, i: int)
    requires
        distinct_keys(entries),
        0 <= i < entries.len(),
    ensures
        distinct_keys(entries.remove(i)),
        contents(entries.remove(i)) == contents(entries).remove(entries[i].key),
{
    let key = entries[i].key;
    let after = entries.remove(i);
    assert forall|a: int| 0 <= a < after.len() implies #[trigger] after[a] == entries[if a < i {
        a
    } else {
        a + 1
    }] by {}
    assert(distinct_keys(after)) by {
        assert forall|a: int, b: int| 0 <= a < b < after.len() implies (#[trigger] after[a]).key
            != (#[trigger] after[b]).key by {
            let a0 = if a < i { a } else { a + 1 };
            let b0 = if b < i { b } else { b + 1 };
            assert(after[a] == entries[a0]);
            assert(after[b] == entries[b0]);
        }
    }
    assert forall|k: Seq<char>| holds_key(after, k) == (holds_key(entries, k) && k != key) by {
        if holds_key(after, k) {
            let j = key_index(after, k);
            let j0 = if j < i { j } else { j + 1 };
            assert(after[j] == entries[j0]);
            assert(entries[j0].key == k);
            lemma_key_at(entries, i);
            lemma_key_at(entries, j0);
        }
        if holds_key(entries, k) && k != key {
            let j = key_index(entries, k);
            let j1 = if j < i { j } else { j - 1 };
            assert(after[j1] == entries[j]);
            assert(after[j1].key == k);
        }
    }
    assert forall|k: Seq<char>| holds_key(after, k) implies #[trigger] contents(after)[k]
        == contents(entries).remove(key)[k] by {
        let j = key_index(after, k);
        let j0 = if j < i { j } else { j + 1 };
        assert(after[j] == entries[j0]);
        lemma_key_at(after, j);
        lemma_key_at(entries, j0);
    }
    assert(contents(after) =~= contents(entries).remove(key));
}

/// Distinct keys are as many as the mapping they stand for holds.
pub proof fn lemma_contents_len(entries: Seq<EntryData>)
    requires
        distinct_keys(entries),
    ensures
        contents(entries).dom().finite(),
        contents(entries).dom().len() == entries.len(),
    decreases entries.len(),
{
    if entries.len() == 0 {
        assert(contents(entries).dom() =~= Set::empty());
    } else {
        let rest = entries.drop_last();
        let last = entries.last();
        assert forall|a: int| 0 <= a < rest.len() implies #[trigger] rest[a] == entries[a] by {}
        assert(distinct_keys(rest));
        if holds_key(rest, last.key) {
            let j = key_index(rest, last.key);
            assert(entries[j].key == entries[entries.len() - 1].key);
        }
        lemma_contents_len(rest);
        lemma_contents_push(rest, last);
        assert(rest.push(last) =~= entries);
        assert(contents(entries).dom() =~= contents(rest).dom().insert(last.key));
    }
}

/// One key with its value.
pub struct Entry {
    key: String,
    value: Vec<u8>,
}

impl View for Entry {
    type V = EntryData;

    closed spec fn view(&self) -> EntryData {
        EntryData { key: self.key@, value: self.value@ }
    }
}

/// The entries of a vector as mathematical values.
pub open spec fn entry_views(entries: Seq<Entry>) -> Seq<EntryData> {
    Seq::new(entries.len(), |i: int| entries[i]@)
}

/// A copy of the values of a store and the time at which it was made.
pub struct StateSnapshot {
    timestamp: u64,
    values: Vec<Entry>,
}

impl View for StateSnapshot {
    type V = SnapshotData;

    closed spec fn view(&self) -> SnapshotData {
        SnapshotData { timestamp: self.timestamp, values: contents(entry_views(self.values@)) }
    }
}

/// A store of byte values under text keys, with snapshots to roll back to.
pub struct StateStore {
    values: Vec<Entry>,
    snapshots: Vec<StateSnapshot>,
    snapshot_limit: usize,
}

impl View for StateStore {
    type V = StateData;

    closed spec fn view(&self) -> StateData {
        StateData {
            values: contents(entry_views(self.values@)),
            snapshots: Seq::new(self.snapshots@.len(), |i: int| self.snapshots@[i]@),
            limit: self.snapshot_limit as nat,
        }
    }
}

/// Copies entries one by one.
fn copy_entries(entries: &Vec<Entry>) -> (copy: Vec<Entry>)
    ensures
        entry_views(copy@) == entry_views(entries@),
{
    let mut copy: Vec<Entry> = Vec::new();
    let mut i: usize = 0;
    while i < entries.len()
        invariant
            0 <= i <= entries@.len(),
            copy@.len() == i,
            forall|j: int| 0 <= j < i ==> (#[trigger] copy@[j])@ == entries@[j]@,
        decreases entries@.len() - i,
    {
        let entry = &entries[i];
        copy.push(Entry { key: entry.key.clone(), value: slice_to_vec(entry.value.as_slice()) });
        i += 1;
    }
    assert(entry_views(copy@) =~= entry_views(entries@));
    copy
}

impl StateStore {
    /// What holds of every store.
    pub closed spec fn wf(&self) -> bool {
        &&& distinct_keys(entry_views(self.values@))
        &&& forall|i: int|
            0 <= i < self.snapshots@.len() ==> distinct_keys(
                entry_views((#[trigger] self.snapshots@[i]).values@),
            )
        &&& 1 <= self.snapshot_limit
        &&& self.snapshots@.len() <= self.snapshot_limit
    }

    /// A well-formed store stands for valid values.
    pub proof fn lemma_wf_valid(&self)
        requires
            self.wf(),
        ensures
            self@.valid(),
            self@.values.dom().finite(),
    {
        lemma_contents_len(entry_views(self.values@));
    }

    /// An empty store.
    pub fn new() -> (store: StateStore)
        ensures
            store.wf(),
            store@ == (StateData {
                values: Map::empty(),
                snapshots: Seq::empty(),
                limit: SNAPSHOT_LIMIT as nat,
            }),
    {
        let store = StateStore {
            values: Vec::new(),
            snapshots: Vec::new(),
            snapshot_limit: SNAPSHOT_LIMIT,
        };
        assert(store@.values =~= Map::empty());
        assert(store@.snapshots =~= Seq::empty());
        store
    }

    /// Where `key` stands among the values.
    fn find(&self, key: &str) -> (found: Option<usize>)
        requires
            self.wf(),
        ensures
            found.is_some() == self@.values.contains_key(key@),
            found.is_some() ==> found.unwrap() < self.values@.len(),
            found.is_some() ==> self.values@[found.unwrap() as int]@.key == key@,
            found.is_none() ==> !holds_key(entry_views(self.values@), key@),
    {
        let mut i: usize = 0;
        while i < self.values.len()
            invariant
                0 <= i <= self.values@.len(),
                forall|j: int|
                    0 <= j < i ==> (#[trigger] entry_views(self.values@)[j]).key != key@,
            decreases self.values@.len() - i,
        {
            if same_text(self.values[i].key.as_str(), key) {
                assert(entry_views(self.values@)[i as int].key == key@);
                return Some(i);
            }
            i += 1;
        }
        None
    }

    /// Puts `value` under `key`, in place of any value that was there.
    pub fn set(&mut self, key: &str, value: &[u8])
        requires
            old(self).wf(),
        ensures
            final(self).wf(),
            final(self)@ == old(self)@.set(key@, value@),
    {
        let ghost before = entry_views(self.values@);
        let found = self.find(key);
        match found {
            Some(at) => {
                self.values[at].value = slice_to_vec(value);
                proof {
                    lemma_contents_update(before, at as int, value@);
                    assert(entry_views(self.values@) =~= before.update(
                        at as int,
                        EntryData { key: before[at as int].key, value: value@ },
                    ));
                }
            },
            None => {
                self.values.push(Entry { key: key.to_owned(), value: slice_to_vec(value) });
                proof {
                    let entry = EntryData { key: key@, value: value@ };
                    lemma_contents_push(before, entry);
                    assert(entry_views(self.values@) =~= before.push(entry));
                }
            },
        }
        assert(final(self)@.snapshots =~= old(self)@.snapshots);
    }

    /// A copy of the value under `key`, if there is one.
    pub fn get(&self, key: &str) -> (value: Option<Vec<u8>>)
        requires
            self.wf(),
        ensures
            value.deep_view() == self@.get(key@),
    {
        match self.find(key) {
            Some(at) => {
                proof {
                    lemma_key_at(entry_views(self.values@), at as int);
                }
                Some(slice_to_vec(self.values[at].value.as_slice()))
            },
            None => None,
        }
    }

    /// Deletes `key` and tells whether there was a value under it.
    pub fn delete(&mut self, key: &str) -> (existed: bool)
        requires
            old(self).wf(),
        ensures
            final(self).wf(),
            existed == old(self)@.values.contains_key(key@),
            final(self)@ == old(self)@.delete(key@),
    {
        let ghost before = entry_views(self.values@);
        let found = self.find(key);
        match found {
            Some(at) => {
                self.values.remove(at);
                proof {
                    lemma_contents_remove(before, at as int);
                    assert(entry_views(self.values@) =~= before.remove(at as int));
                    assert(final(self)@.snapshots =~= old(self)@.snapshots);
                }
                true
            },
            None => {
                assert(final(self)@.values =~= old(self)@.values.remove(key@));
                false
            },
        }
    }

    /// Makes a snapshot of the values now and returns its timestamp, by
    /// which it is found again.
    pub fn create_snapshot(&mut self) -> (timestamp: u64)
        requires
            old(self).wf(),
        ensures
            final(self).wf(),
            final(self)@ == old(self)@.snapshot(timestamp),
    {
        let timestamp = unix_seconds();
        self.snapshot_at(timestamp);
        timestamp
    }

    /// Makes a snapshot of the values with the given timestamp. Where the
    /// store then holds more snapshots than it keeps, the oldest leaves.
    pub fn snapshot_at(&mut self, timestamp: u64)
        requires
            old(self).wf(),
        ensures
            final(self).wf(),
            final(self)@ == old(self)@.snapshot(timestamp),
    {
        let values = copy_entries(&self.values);
        let snapshot = StateSnapshot { timestamp, values };
        assert(snapshot@ == (SnapshotData { timestamp, values: old(self)@.values }));
        self.snapshots.push(snapshot);
        let ghost added = old(self)@.snapshots.push(
            SnapshotData { timestamp, values: old(self)@.values },
        );
        assert(self@.snapshots =~= added);
        if self.snapshots.len() > self.snapshot_limit {
            self.snapshots.remove(0);
            assert(self@.snapshots =~= added.drop_first());
        }
    }

    /// Rolls the values back to the oldest snapshot made at `timestamp` and
    /// drops every snapshot after it. Without such a snapshot nothing
    /// changes and the answer is `false`.
    pub fn rollback(&mut self, timestamp: u64) -> (done: bool)
        requires
            old(self).wf(),
        ensures
            final(self).wf(),
            done == old(self)@.has_snapshot(timestamp),
            final(self)@ == old(self)@.rollback(timestamp),
    {
        let mut i: usize = 0;
        while i < self.snapshots.len()
            invariant
                *self == *old(self),
                self.wf(),
                0 <= i <= self.snapshots@.len(),
                forall|j: int| 0 <= j < i ==> (#[trigger] self@.snapshots[j]).timestamp != timestamp,
            decreases self.snapshots@.len() - i,
        {
            if self.snapshots[i].timestamp == timestamp {
                proof {
                    assert(self@.snapshots[i as int].timestamp == timestamp);
                    assert(self@.is_first_at(timestamp, i as int));
                    let at = self@.snapshot_index(timestamp);
                    assert(self@.is_first_at(timestamp, at));
                    assert(at == i);
                }
                self.values = copy_entries(&self.snapshots[i].values);
                self.snapshots.truncate(i + 1);
                assert(final(self)@.snapshots =~= old(self)@.snapshots.take(i + 1));
                return true;
            }
            i += 1;
        }
        false
    }

    /// The keys that hold a value, each once, in no particular order.
    pub fn keys(&self) -> (keys: Vec<String>)
        requires
            self.wf(),
        ensures
            keys@.len() == self@.values.dom().len(),
            self@.values.dom().finite(),
            forall|i: int| 0 <= i < keys@.len() ==> self@.values.contains_key((#[trigger] keys@[i])@),
            forall|key: Seq<char>| #[trigger]
                self@.values.contains_key(key) ==> exists|i: int|
                    0 <= i < keys@.len() && (#[trigger] keys@[i])@ == key,
            forall|i: int, j: int|
                0 <= i < j < keys@.len() ==> (#[trigger] keys@[i])@ != (#[trigger] keys@[j])@,
    {
        let mut keys: Vec<String> = Vec::new();
        let mut i: usize = 0;
        while i < self.values.len()
            invariant
                0 <= i <= self.values@.len(),
                keys@.len() == i,
                forall|j: int|
                    0 <= j < i ==> (#[trigger] keys@[j])@ == entry_views(self.values@)[j].key,
            decreases self.values@.len() - i,
        {
            keys.push(self.values[i].key.clone());
            i += 1;
        }
        proof {
            let entries = entry_views(self.values@);
            lemma_contents_len(entries);
            assert forall|j: int| 0 <= j < keys@.len() implies self@.values.contains_key(
                (#[trigger] keys@[j])@,
            ) by {
                lemma_key_at(entries, j);
            }
            assert forall|key: Seq<char>| #[trigger] self@.values.contains_key(key) implies exists|
                j: int,
            |
                0 <= j < keys@.len() && (#[trigger] keys@[j])@ == key by {
                let j = key_index(entries, key);
                assert(keys@[j]@ == key);
            }
            assert forall|a: int, b: int| 0 <= a < b < keys@.len() implies (#[trigger] keys@[a])@
                != (#[trigger] keys@[b])@ by {
                assert(entries[a].key != entries[b].key);
            }
        }
        keys
    }

    /// How many keys hold a value.
    pub fn size(&self) -> (count: usize)
        requires
            self.wf(),
        ensures
            self@.values.dom().finite(),
            count == self@.values.dom().len(),
    {
        proof {
            lemma_contents_len(entry_views(self.values@));
        }
        self.values.len()
    }

    /// Deletes all values. The snapshots stay.
    pub fn clear(&mut self)
        requires
            old(self).wf(),
        ensures
            final(self).wf(),
            final(self)@ == old(self)@.cleared(),
    {
        self.values.clear();
        assert(final(self)@.values =~= Map::empty());
        assert(final(self)@.snapshots =~= old(self)@.snapshots);
    }

    /// The timestamps of the snapshots, from the oldest to the newest.
    pub fn snapshot_timestamps(&self) -> (stamps: Vec<u64>)
        ensures
            stamps@.len() == self@.snapshots.len(),
            forall|i: int|
                0 <= i < stamps@.len() ==> #[trigger] stamps@[i] == self@.snapshots[i].timestamp,
    {
        let mut stamps: Vec<u64> = Vec::new();
        let mut i: usize = 0;
        while i < self.snapshots.len()
            invariant
                0 <= i <= self.snapshots@.len(),
                stamps@.len() == i,
                forall|j: int| 0 <= j < i ==> #[trigger] stamps@[j] == self@.snapshots[j].timestamp,
            decreases self.snapshots@.len() - i,
        {
            stamps.push(self.snapshots[i].timestamp);
            i += 1;
        }
        stamps
    }
}

/// A value that was set is the value that is read.
pub proof fn lemma_set_then_get(s: StateData, key: Seq<char>, value: Seq<u8>)
    ensures
        s.set(key, value).get(key) == Some(value),
{
}

/// A key that was deleted holds no value, so that deleting it again finds
/// nothing and changes nothing.
pub proof fn lemma_delete_then_absent(s: StateData, key: Seq<char>)
    ensures
        s.delete(key).get(key).is_none(),
        !s.delete(key).values.contains_key(key),
        s.delete(key).delete(key) == s.delete(key),
{
    assert(s.values.remove(key).remove(key) =~= s.values.remove(key));
}

/// A snapshot that was just made at a fresh timestamp is the newest, and
/// the oldest made at that timestamp.
pub proof fn lemma_fresh_snapshot_is_last(s: StateData, timestamp: u64)
    requires
        s.valid(),
        !s.has_snapshot(timestamp),
    ensures
        s.snapshot(timestamp).valid(),
        s.snapshot(timestamp).has_snapshot(timestamp),
        s.snapshot(timestamp).snapshot_index(timestamp) == s.snapshot(timestamp).snapshots.len() - 1,
        s.snapshot(timestamp).snapshots.last() == (SnapshotData { timestamp, values: s.values }),
{
    let after = s.snapshot(timestamp);
    let last = after.snapshots.len() - 1;
    let added = s.snapshots.push(SnapshotData { timestamp, values: s.values });
    assert(after.snapshots[last] == added[added.len() - 1]);
    assert forall|j: int| 0 <= j < last implies (#[trigger] after.snapshots[j]).timestamp
        != timestamp by {
        let j0 = if added.len() > s.limit { j + 1 } else { j };
        assert(after.snapshots[j] == s.snapshots[j0]);
    }
    assert(after.is_first_at(timestamp, last));
    let at = after.snapshot_index(timestamp);
    assert(after.is_first_at(timestamp, at));
}

/// Rolling back restores what a snapshot saw: a value set before a snapshot
/// at a fresh timestamp and changed after it is read again after the
/// rollback to that timestamp.
pub proof fn lemma_rollback_restores(
    s: StateData,
    key: Seq<char>,
    first: Seq<u8>,
    second: Seq<u8>,
    timestamp: u64,
)
    requires
        s.valid(),
        !s.has_snapshot(timestamp),
    ensures
        s.set(key, first).snapshot(timestamp).set(key, second).rollback(timestamp).get(key) == Some(
            first,
        ),
        s.set(key, first).snapshot(timestamp).set(key, second).rollback(timestamp).values == s.set(
            key,
            first,
        ).values,
{
    let s1 = s.set(key, first);
    assert(!s1.has_snapshot(timestamp));
    lemma_fresh_snapshot_is_last(s1, timestamp);
    let s2 = s1.snapshot(timestamp);
    let s3 = s2.set(key, second);
    let last = s2.snapshots.len() - 1;
    assert(s2.is_first_at(timestamp, s2.snapshot_index(timestamp)));
    assert(s3.snapshots == s2.snapshots);
    assert(s3.snapshots[last].timestamp == timestamp);
    assert(s3.is_first_at(timestamp, last));
    assert(s3.is_first_at(timestamp, s3.snapshot_index(timestamp)));
}

/// A rollback drops what came later: after a snapshot at a fresh timestamp
/// and a second snapshot, the rollback to the first leaves it the newest,
/// and the second is gone.
pub proof fn lemma_rollback_discards_later(s: StateData, timestamp: u64, later: u64)
    requires
        s.valid(),
        s.limit >= 2,
        !s.has_snapshot(timestamp),
    ensures
        s.snapshot(timestamp).snapshot(later).rollback(timestamp).values == s.values,
        s.snapshot(timestamp).snapshot(later).rollback(timestamp).snapshots == s.snapshot(
            timestamp,
        ).snapshot(later).snapshots.drop_last(),
        s.snapshot(timestamp).snapshot(later).rollback(timestamp).snapshots.last() == (SnapshotData {
            timestamp,
            values: s.values,
        }),
{
    lemma_fresh_snapshot_is_last(s, timestamp);
    let s1 = s.snapshot(timestamp);
    let s2 = s1.snapshot(later);
    let added = s1.snapshots.push(SnapshotData { timestamp: later, values: s1.values });
    let shift: int = if added.len() > s1.limit { 1 } else { 0 };
    let at = s2.snapshots.len() - 2;
    assert(s2.snapshots[at] == s1.snapshots[at + shift]);
    assert forall|j: int| 0 <= j < at implies (#[trigger] s2.snapshots[j]).timestamp != timestamp by {
        assert(s2.snapshots[j] == s1.snapshots[j + shift]);
        assert(s1.is_first_at(timestamp, s1.snapshot_index(timestamp)));
    }
    assert(s2.is_first_at(timestamp, at));
    assert(s2.is_first_at(timestamp, s2.snapshot_index(timestamp)));
    assert(s2.snapshots.take(at + 1) =~= s2.snapshots.drop_last());
}

/// The snapshots made at `stamps` of unchanged `values`.
pub open spec fn made(values: Map<Seq<char>, Seq<u8>>, stamps: Seq<u64>) -> Seq<SnapshotData> {
    Seq::new(stamps.len(), |i: int| SnapshotData { timestamp: stamps[i], values })
}

/// The newest `limit` of `all`, or all of them where they are fewer.
pub open spec fn newest(all: Seq<SnapshotData>, limit: nat) -> Seq<SnapshotData> {
    if all.len() > limit {
        all.skip(all.len() - limit)
    } else {
        all
    }
}

/// A store keeps the newest snapshots up to its limit: after any number of
/// snapshots it holds the newest of all that were ever made, and the older
/// ones have left, the oldest first. One snapshot more than the limit
/// leaves exactly the limit, without the oldest.
pub proof fn lemma_snapshots_keep_newest(s: StateData, stamps: Seq<u64>)
    requires
        s.valid(),
    ensures
        s.snapshots_at(stamps).valid(),
        s.snapshots_at(stamps).values == s.values,
        s.snapshots_at(stamps).limit == s.limit,
        s.snapshots_at(stamps).snapshots == newest(s.snapshots + made(s.values, stamps), s.limit),
        s.snapshots.len() == 0 && stamps.len() == s.limit + 1 ==> s.snapshots_at(stamps).snapshots
            == made(s.values, stamps).drop_first(),
    decreases stamps.len(),
{
    if stamps.len() == 0 {
        assert(s.snapshots + made(s.values, stamps) =~= s.snapshots);
    } else {
        let earlier = stamps.drop_last();
        lemma_snapshots_keep_newest(s, earlier);
        let before = s.snapshots_at(earlier);
        let all_before = s.snapshots + made(s.values, earlier);
        let all = s.snapshots + made(s.values, stamps);
        let entry = SnapshotData { timestamp: stamps.last(), values: s.values };
        assert(all =~= all_before.push(entry));
        assert(s.snapshots_at(stamps).snapshots =~= newest(all, s.limit));
        if s.snapshots.len() == 0 && stamps.len() == s.limit + 1 {
            assert(all =~= made(s.values, stamps));
            assert(newest(all, s.limit) =~= made(s.values, stamps).drop_first());
        }
    }
}

} // verus!
