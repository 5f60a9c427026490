//! Shared per-scene keyed state with last-writer-wins merge, dirty tracking
//! and snapshot replay.
//!
//! Each record is keyed by an entity identifier and a component kind and
//! carries a value payload plus a version marker. An incoming update wins
//! only when its version is strictly greater than the stored one; a winning
//! update marks its key dirty. The dirty set is extracted atomically: the
//! extraction returns the pending keys and clears the set in one step.

use vstd::prelude::*;

verus! {

/// Key of one state record: an entity identifier and a component kind.
#[derive(Clone, Copy, PartialEq, Eq, Hash, Debug, Structural)]
pub struct StateKey {
    pub entity: u32,
    pub component: u32,
}

/// One keyed state record: a value payload and its version marker.
#[derive(Clone, Debug)]
pub struct StateEntry {
    pub key: StateKey,
    pub version: u32,
    pub value: Vec<u8>,
}

/// Mathematical image of a `StateEntry`: the payload as a sequence.
#[verifier::ext_equal]
pub struct EntryModel {
    pub key: StateKey,
    pub version: u32,
    pub value: Seq<u8>,
}

impl View for StateEntry {
    type V = EntryModel;

    open spec fn view(&self) -> EntryModel {
        EntryModel { key: self.key, version: self.version, value: self.value@ }
    }
}

impl DeepView for StateEntry {
    type V = EntryModel;

    open spec fn deep_view(&self) -> EntryModel {
        self.view()
    }
}

/// What one update does to the store contents: it is accepted exactly when
/// its key is absent or its version is strictly greater than the stored one.
pub open spec fn lww_accepts(m: Map<StateKey, (u32, Seq<u8>)>, u: EntryModel) -> bool {
    !m.contains_key(u.key) || m[u.key].0 < u.version
}

/// Last-writer-wins merge of one update into the store contents.
pub open spec fn apply_update(
    m: Map<StateKey, (u32, Seq<u8>)>,
    u: EntryModel,
) -> Map<StateKey, (u32, Seq<u8>)> {
    if lww_accepts(m, u) {
        m.insert(u.key, (u.version, u.value))
    } else {
        m
    }
}

/// Merge of a whole batch, first update first.
pub open spec fn apply_batch(
    m: Map<StateKey, (u32, Seq<u8>)>,
    b: Seq<EntryModel>,
) -> Map<StateKey, (u32, Seq<u8>)>
    decreases b.len(),
{
    if b.len() == 0 {
        m
    } else {
        apply_batch(apply_update(m, b.first()), b.drop_first())
    }
}

/// The keys a batch actually changes: those of the updates that win.
pub open spec fn dirtied(m: Map<StateKey, (u32, Seq<u8>)>, b: Seq<EntryModel>) -> Set<StateKey>
    decreases b.len(),
{
    if b.len() == 0 {
        Set::empty()
    } else {
        let rest = dirtied(apply_update(m, b.first()), b.drop_first());
        if lww_accepts(m, b.first()) {
            rest.insert(b.first().key)
        } else {
            rest
        }
    }
}

/// The key set of a batch.
pub open spec fn batch_keys(b: Seq<EntryModel>) -> Set<StateKey> {
    Set::new(|k: StateKey| exists|i: int| 0 <= i < b.len() && b[i].key == k)
}

/// Store contents as a map, read off the backing entry list.
pub open spec fn entries_map(s: Seq<EntryModel>) -> Map<StateKey, (u32, Seq<u8>)>
    decreases s.len(),
{
    if s.len() == 0 {
        Map::empty()
    } else {
        entries_map(s.drop_last()).insert(s.last().key, (s.last().version, s.last().value))
    }
}

/// Shared per-scene keyed state with dirty tracking.
pub struct SceneStateStore {
    entries: Vec<StateEntry>,
    dirty: Vec<StateKey>,
}

impl View for SceneStateStore {
    type V = Map<StateKey, (u32, Seq<u8>)>;

    closed spec fn view(&self) -> Map<StateKey, (u32, Seq<u8>)> {
        entries_map(self.entries.deep_view())
    }
}

/// The dirty-extraction step over the model: it returns the pending set and
/// leaves nothing pending.
pub open spec fn take_dirty_transition(d: Set<StateKey>) -> (Set<StateKey>, Set<StateKey>) {
    (d, Set::empty())
}

/// Unique keys over a backing entry list.
pub open spec fn unique_keys(s: Seq<EntryModel>) -> bool {
    forall|i: int, j: int| 0 <= i < j < s.len() ==> s[i].key != s[j].key
}

/// A listed entry is in the map, with its version and payload.
proof fn lemma_entries_map_index(s: Seq<EntryModel>, i: int)
    requires
        unique_keys(s),
        0 <= i < s.len(),
    ensures
        entries_map(s).contains_key(s[i].key),
        entries_map(s)[s[i].key] == (s[i].version, s[i].value),
    decreases s.len(),
{
    if i < s.len() - 1 {
        assert(s.drop_last()[i] == s[i]);
        lemma_entries_map_index(s.drop_last(), i);
        assert(s.last().key != s[i].key);
    }
}

/// The map's domain is exactly the listed keys.
proof fn lemma_entries_map_dom(s: Seq<EntryModel>)
    ensures
        forall|k: StateKey|
            entries_map(s).contains_key(k) <==> exists|i: int| 0 <= i < s.len() && s[i].key == k,
    decreases s.len(),
{
    if s.len() > 0 {
        lemma_entries_map_dom(s.drop_last());
        assert forall|k: StateKey| entries_map(s).contains_key(k) implies exists|i: int|
            0 <= i < s.len() && s[i].key == k by {
            if k == s.last().key {
                assert(s[s.len() - 1].key == k);
            } else {
                assert(entries_map(s.drop_last()).contains_key(k));
                let i = choose|i: int| 0 <= i < s.drop_last().len() && s.drop_last()[i].key == k;
                assert(s.drop_last()[i] == s[i]);
                assert(s[i].key == k);
            }
        }
        assert forall|k: StateKey|
            (exists|i: int| 0 <= i < s.len() && s[i].key == k) implies entries_map(s).contains_key(
            k,
        ) by {
            let i = choose|i: int| 0 <= i < s.len() && s[i].key == k;
            if i < s.len() - 1 {
                assert(s.drop_last()[i].key == k);
                assert(exists|j: int|
                    0 <= j < s.drop_last().len() && s.drop_last()[j].key == k);
                assert(entries_map(s.drop_last()).contains_key(k));
            } else {
                assert(k == s.last().key);
            }
        }
    }
}

/// Replacing the record at a key's own index is an insert over the map.
proof fn lemma_entries_map_update(s: Seq<EntryModel>, i: int, e: EntryModel)
    requires
        unique_keys(s),
        0 <= i < s.len(),
        e.key == s[i].key,
    ensures
        entries_map(s.update(i, e)) =~= entries_map(s).insert(e.key, (e.version, e.value)),
    decreases s.len(),
{
    if i == s.len() - 1 {
        assert(s.update(i, e).drop_last() =~= s.drop_last());
        assert(s.update(i, e).last() == e);
    } else {
        assert(s.update(i, e).drop_last() =~= s.drop_last().update(i, e));
        assert(s.drop_last()[i] == s[i]);
        lemma_entries_map_update(s.drop_last(), i, e);
        assert(s.update(i, e).last() == s.last());
        assert(s.last().key != e.key);
    }
}

/// Appending a record with a fresh key is an insert over the map.
proof fn lemma_entries_map_push(s: Seq<EntryModel>, e: EntryModel)
    ensures
        entries_map(s.push(e)) =~= entries_map(s).insert(e.key, (e.version, e.value)),
{
    assert(s.push(e).drop_last() =~= s);
    assert(s.push(e).last() == e);
}

impl SceneStateStore {
    /// Keys mutated since the last extraction.
    pub closed spec fn dirty_set(self) -> Set<StateKey> {
        self.dirty@.to_set()
    }

    /// Well-formedness: one record per key, no key listed dirty twice.
    pub closed spec fn inv(self) -> bool {
        &&& unique_keys(self.entries.deep_view())
        &&& self.dirty@.no_duplicates()
    }

    pub fn new() -> (r: SceneStateStore)
        ensures
            r.inv(),
            r@ == Map::<StateKey, (u32, Seq<u8>)>::empty(),
            r.dirty_set() == Set::<StateKey>::empty(),
    {
        let r = SceneStateStore { entries: Vec::new(), dirty: Vec::new() };
        proof {
            assert(r.entries.deep_view() =~= Seq::<EntryModel>::empty());
            assert(r.dirty@.to_set() =~= Set::<StateKey>::empty());
        }
        r
    }

    /// Index of the record stored under `key`, if any.
    fn find_index(&self, key: StateKey) -> (r: Option<usize>)
        requires
            self.inv(),
        ensures
            match r {
                Some(i) => {
                    &&& i < self.entries@.len()
                    &&& self.entries.deep_view()[i as int].key == key
                    &&& self@.contains_key(key)
                    &&& self@[key] == (
                        self.entries.deep_view()[i as int].version,
                        self.entries.deep_view()[i as int].value,
                    )
                },
                None => !self@.contains_key(key),
            },
    {
        let ghost s = self.entries.deep_view();
        let n = self.entries.len();
        let mut i: usize = 0;
        while i < n
            invariant
                self.inv(),
                n == self.entries@.len(),
                s == self.entries.deep_view(),
                i <= n,
                forall|j: int| 0 <= j < i ==> s[j].key != key,
            decreases n - i,
        {
            if self.entries[i].key == key {
                proof {
                    lemma_entries_map_index(s, i as int);
                }
                return Some(i);
            }
            i += 1;
        }
        proof {
            lemma_entries_map_dom(s);
        }
        None
    }

    /// Whether `key` is already marked dirty.
    fn dirty_contains(&self, key: StateKey) -> (r: bool)
        ensures
            r == self.dirty@.contains(key),
    {
        let n = self.dirty.len();
        let mut i: usize = 0;
        while i < n
            invariant
                n == self.dirty@.len(),
                i <= n,
                forall|j: int| 0 <= j < i ==> self.dirty@[j] != key,
            decreases n - i,
        {
            if self.dirty[i] == key {
                return true;
            }
            i += 1;
        }
        false
    }

    /// Applies one batch of updates under the last-writer-wins rule; a losing
    /// update changes nothing and dirties nothing, a winning one replaces the
    /// record and marks its key dirty.
    pub fn ingest(&mut self, batch: &Vec<StateEntry>)
        requires
            old(self).inv(),
        ensures
            final(self).inv(),
            final(self)@ == apply_batch(old(self)@, batch.deep_view()),
            final(self).dirty_set() == old(self).dirty_set().union(
                dirtied(old(self)@, batch.deep_view()),
            ),
    {
        let ghost m0 = self@;
        let ghost d0 = self.dirty_set();
        let ghost b = batch.deep_view();
        proof {
            assert(b.skip(0) =~= b);
        }
        let n = batch.len();
        let mut i: usize = 0;
        while i < n
            invariant
                self.inv(),
                n == batch@.len(),
                b == batch.deep_view(),
                i <= n,
                apply_batch(m0, b) == apply_batch(self@, b.skip(i as int)),
                d0.union(dirtied(m0, b)) == self.dirty_set().union(
                    dirtied(self@, b.skip(i as int)),
                ),
            decreases n - i,
        {
            let ghost m_cur = self@;
            let ghost d_cur = self.dirty_set();
            let ghost rest = b.skip(i as int);
            proof {
                assert(rest.first() == b[i as int]);
                assert(rest.drop_first() =~= b.skip(i as int + 1));
            }
            let u = &batch[i];
            let ghost uv = b[i as int];
            proof {
                assert(uv == u@);
            }
            let mut wins = false;
            match self.find_index(u.key) {
                Some(idx) => {
                    if self.entries[idx].version < u.version {
                        let fresh = StateEntry {
                            key: u.key,
                            version: u.version,
                            value: u.value.clone(),
                        };
                        proof {
                            assert(fresh.value@ =~= u.value@);
                            assert(fresh@ =~= uv);
                            lemma_entries_map_update(
                                self.entries.deep_view(),
                                idx as int,
                                uv,
                            );
                        }
                        let ghost s_pre = self.entries.deep_view();
                        self.entries[idx] = fresh;
                        proof {
                            assert(self.entries.deep_view() =~= s_pre.update(idx as int, uv));
                            assert forall|p: int, q: int|
                                0 <= p < q < self.entries.deep_view().len() implies self
                                .entries
                                .deep_view()[p].key != self.entries.deep_view()[q].key by {
                                assert(s_pre[p].key == self.entries.deep_view()[p].key || p
                                    == idx as int);
                                assert(s_pre[q].key == self.entries.deep_view()[q].key || q
                                    == idx as int);
                            }
                        }
                        wins = true;
                    }
                },
                None => {
                    let fresh = StateEntry {
                        key: u.key,
                        version: u.version,
                        value: u.value.clone(),
                    };
                    proof {
                        assert(fresh.value@ =~= u.value@);
                        assert(fresh@ =~= uv);
                        lemma_entries_map_push(self.entries.deep_view(), uv);
                        lemma_entries_map_dom(self.entries.deep_view());
                    }
                    let ghost s_pre = self.entries.deep_view();
                    self.entries.push(fresh);
                    proof {
                        assert(self.entries.deep_view() =~= s_pre.push(uv));
                        assert forall|p: int, q: int|
                            0 <= p < q < self.entries.deep_view().len() implies self
                            .entries
                            .deep_view()[p].key != self.entries.deep_view()[q].key by {
                            if q == s_pre.len() as int {
                                assert(!(exists|j: int|
                                    0 <= j < s_pre.len() && s_pre[j].key == uv.key));
                                assert(s_pre[p].key != uv.key);
                            }
                        }
                    }
                    wins = true;
                },
            }
            proof {
                assert(self@ =~= apply_update(m_cur, uv));
            }
            if wins {
                let ghost dv_pre = self.dirty@;
                if !self.dirty_contains(u.key) {
                    self.dirty.push(u.key);
                    proof {
                        assert forall|p: int, q: int|
                            0 <= p < q < self.dirty@.len() implies self.dirty@[p] != self
                            .dirty@[q] by {
                            if q == dv_pre.len() as int {
                                assert(self.dirty@[p] == dv_pre[p]);
                                assert(!dv_pre.contains(uv.key));
                            }
                        }
                        assert forall|k: StateKey| #[trigger]
                            self.dirty@.contains(k) <==> dv_pre.contains(k) || k == uv.key by {
                            if self.dirty@.contains(k) {
                                let j = choose|j: int|
                                    0 <= j < self.dirty@.len() && self.dirty@[j] == k;
                                if j < dv_pre.len() {
                                    assert(dv_pre[j] == k);
                                }
                            }
                            if dv_pre.contains(k) {
                                let j = choose|j: int|
                                    0 <= j < dv_pre.len() && dv_pre[j] == k;
                                assert(self.dirty@[j] == k);
                            }
                            if k == uv.key {
                                assert(self.dirty@[dv_pre.len() as int] == k);
                            }
                        }
                    }
                }
                proof {
                    assert(self.dirty_set() =~= d_cur.insert(uv.key));
                }
            }
            proof {
                assert(self.dirty_set().union(dirtied(self@, rest.drop_first())) =~= d_cur.union(
                    dirtied(m_cur, rest),
                ));
            }
            i += 1;
        }
        proof {
            assert(b.skip(n as int) =~= Seq::<EntryModel>::empty());
            assert(self.dirty_set().union(Set::<StateKey>::empty()) =~= self.dirty_set());
            assert(d0.union(dirtied(m0, b)) =~= self.dirty_set());
        }
    }

    /// Atomically returns the pending dirty set and clears it; the stored
    /// contents are untouched.
    pub fn take_dirty(&mut self) -> (r: Vec<StateKey>)
        requires
            old(self).inv(),
        ensures
            final(self).inv(),
            final(self)@ == old(self)@,
            r@.no_duplicates(),
            (r@.to_set(), final(self).dirty_set()) == take_dirty_transition(old(self).dirty_set()),
    {
        let mut taken: Vec<StateKey> = Vec::new();
        core::mem::swap(&mut taken, &mut self.dirty);
        proof {
            assert(self.dirty@.to_set() =~= Set::<StateKey>::empty());
        }
        taken
    }

    /// Parses a persisted batch in the live wire format and ingests it.
    /// Malformed bytes fail with a decode error and leave no partial
    /// mutation behind.
    pub fn snapshot_replay(&mut self, bytes: &Vec<u8>) -> (r: Result<
        (),
        crate::wire::SnapshotDecodeError,
    >)
        requires
            old(self).inv(),
        ensures
            final(self).inv(),
            r is Ok <==> crate::wire::parse_batch(bytes@) is Some,
            r is Ok ==> {
                &&& final(self)@ == apply_batch(
                    old(self)@,
                    crate::wire::parse_batch(bytes@).unwrap(),
                )
                &&& final(self).dirty_set() == old(self).dirty_set().union(
                    dirtied(old(self)@, crate::wire::parse_batch(bytes@).unwrap()),
                )
            },
            r is Err ==> *final(self) == *old(self),
    {
        match crate::wire::decode_batch(bytes) {
            Ok(batch) => {
                self.ingest(&batch);
                Ok(())
            },
            Err(e) => Err(e),
        }
    }

    /// The stored version and payload under `key`, if any.
    pub fn lookup(&self, key: StateKey) -> (r: Option<&StateEntry>)
        requires
            self.inv(),
        ensures
            match r {
                Some(e) => {
                    &&& self@.contains_key(key)
                    &&& e.key == key
                    &&& self@[key] == (e.version, e.value@)
                },
                None => !self@.contains_key(key),
            },
    {
        match self.find_index(key) {
            Some(i) => Some(&self.entries[i]),
            None => None,
        }
    }
}

/// Two consecutive dirty extractions with no ingest between them: the first
/// yields the whole pending set — non-empty whenever anything was pending —
/// and the second yields nothing.
pub proof fn lemma_take_dirty_drain(d: Set<StateKey>)
    ensures
        take_dirty_transition(d).0 == d,
        take_dirty_transition(take_dirty_transition(d).1).0 == Set::<StateKey>::empty(),
{
}

/// A batch only dirties keys it mentions.
proof fn lemma_dirtied_subset(m: Map<StateKey, (u32, Seq<u8>)>, b: Seq<EntryModel>, k: StateKey)
    requires
        dirtied(m, b).contains(k),
    ensures
        batch_keys(b).contains(k),
    decreases b.len(),
{
    let u = b.first();
    let rest = b.drop_first();
    if u.key == k && lww_accepts(m, u) && dirtied(m, b) == dirtied(
        apply_update(m, u),
        rest,
    ).insert(u.key) {
        assert(b[0].key == k);
    }
    if dirtied(apply_update(m, u), rest).contains(k) {
        lemma_dirtied_subset(apply_update(m, u), rest, k);
        let i = choose|i: int| 0 <= i < rest.len() && rest[i].key == k;
        assert(b[i + 1].key == k);
    } else {
        assert(u.key == k);
        assert(b[0].key == k);
    }
}

/// A mentioned key that is not yet stored is dirtied: its first update is
/// accepted, whatever version it carries.
proof fn lemma_dirtied_fresh(m: Map<StateKey, (u32, Seq<u8>)>, b: Seq<EntryModel>, k: StateKey)
    requires
        batch_keys(b).contains(k),
        !m.contains_key(k),
    ensures
        dirtied(m, b).contains(k),
    decreases b.len(),
{
    let u = b.first();
    let rest = b.drop_first();
    if u.key == k {
        assert(lww_accepts(m, u));
    } else {
        let i = choose|i: int| 0 <= i < b.len() && b[i].key == k;
        assert(rest[i - 1].key == k);
        assert(batch_keys(rest).contains(k));
        assert(!apply_update(m, u).contains_key(k));
        lemma_dirtied_fresh(apply_update(m, u), rest, k);
    }
}

/// Snapshot round trip: a batch written in the wire format decodes back to
/// itself, and replaying it into a fresh store followed by a dirty
/// extraction yields exactly the key set present in the snapshot.
pub proof fn lemma_snapshot_round_trip(b: Seq<EntryModel>)
    requires
        crate::wire::encodable(b),
    ensures
        crate::wire::parse_batch(crate::wire::encode_batch_spec(b)) == Some(b),
        take_dirty_transition(
            Set::<StateKey>::empty().union(dirtied(Map::<StateKey, (u32, Seq<u8>)>::empty(), b)),
        ).0 == batch_keys(b),
{
    crate::wire::lemma_parse_encode_batch(b);
    lemma_fresh_ingest_dirties_batch_keys(b);
    assert(Set::<StateKey>::empty().union(batch_keys(b)) =~= batch_keys(b));
}

/// Ingesting a batch into a fresh store dirties exactly the key set present
/// in the batch.
pub proof fn lemma_fresh_ingest_dirties_batch_keys(b: Seq<EntryModel>)
    ensures
        dirtied(Map::<StateKey, (u32, Seq<u8>)>::empty(), b) == batch_keys(b),
{
    let m = Map::<StateKey, (u32, Seq<u8>)>::empty();
    assert forall|k: StateKey| dirtied(m, b).contains(k) implies batch_keys(b).contains(k) by {
        lemma_dirtied_subset(m, b, k);
    }
    assert forall|k: StateKey| batch_keys(b).contains(k) implies dirtied(m, b).contains(k) by {
        lemma_dirtied_fresh(m, b, k);
    }
    assert(dirtied(m, b) =~= batch_keys(b));
}

} // verus!
