//! Staged changes, the view that layers them over committed state, and
//! typed stores on top of the view.
use vstd::prelude::*;
use vstd::utf8::encode_utf8;
use crate::codec::{append_slice, bytes_field, max_field_len, write_bytes};
use crate::crypto::{hash, sha256, Digest};
use crate::digest_map::{distinct_keys, lemma_map_of_push, map_of, DigestMap};

verus! {

/// A pending change to one key of the store.
#[derive(Debug)]
pub enum ViewChange {
    /// The key is to hold these bytes.
    Add(Vec<u8>),
    /// The key is to be absent.
    Remove,
}

impl View for ViewChange {
    type V = Option<Seq<u8>>;

    open spec fn view(&self) -> Option<Seq<u8>> {
        match self {
            ViewChange::Add(v) => Some(v@),
            ViewChange::Remove => None,
        }
    }
}

impl ViewChange {
    /// Extract the staged value: the bytes of an `Add`, nothing for a
    /// `Remove`.
    pub fn get(&self) -> (r: Option<&Vec<u8>>)
        ensures
            r.is_some() == self@.is_some(),
            r.is_some() ==> r.unwrap()@ == self@.unwrap(),
    {
        match self {
            ViewChange::Add(v) => Some(v),
            ViewChange::Remove => None,
        }
    }

    /// A copy of the change.
    pub fn duplicate(&self) -> (c: ViewChange)
        ensures
            c@ == self@,
    {
        match self {
            ViewChange::Add(v) => ViewChange::Add(vstd::slice::slice_to_vec(v.as_slice())),
            ViewChange::Remove => ViewChange::Remove,
        }
    }
}

/// The staging cache: pending changes by storage digest.
pub type Cache = DigestMap<ViewChange>;

/// Committed state: values by storage digest.
pub type Snapshot = DigestMap<Vec<u8>>;

/// Staged changes as a mathematical map: a key staged for removal maps to
/// `None`.
pub type Staged = Map<Seq<u8>, Option<Seq<u8>>>;

/// Committed state as a mathematical map.
pub type Committed = Map<Seq<u8>, Seq<u8>>;

/// What a read through the view finds under a key: the staged change where
/// there is one, the committed value otherwise.
pub open spec fn lookup(staged: Staged, committed: Committed, key: Seq<u8>) -> Option<Seq<u8>> {
    if staged.dom().contains(key) {
        staged[key]
    } else if committed.dom().contains(key) {
        Some(committed[key])
    } else {
        None
    }
}

/// Committed state after the staged changes have been written to it.
pub open spec fn merged(staged: Staged, committed: Committed) -> Committed {
    Map::new(
        |k: Seq<u8>| lookup(staged, committed, k).is_some(),
        |k: Seq<u8>| lookup(staged, committed, k).unwrap(),
    )
}

/// Committed state after one change has been written to it.
pub open spec fn applied(committed: Committed, key: Seq<u8>, change: Option<Seq<u8>>) -> Committed {
    match change {
        Some(value) => committed.insert(key, value),
        None => committed.remove(key),
    }
}

/// Writing a further change after a batch is the same as writing the batch
/// with that change staged in it.
pub proof fn lemma_merged_insert(
    staged: Staged,
    committed: Committed,
    key: Seq<u8>,
    change: Option<Seq<u8>>,
)
    ensures
        applied(merged(staged, committed), key, change) == merged(
            staged.insert(key, change),
            committed,
        ),
{
    let a = applied(merged(staged, committed), key, change);
    let b = merged(staged.insert(key, change), committed);
    assert forall|k: Seq<u8>| a.dom().contains(k) == b.dom().contains(k) by {}
    assert forall|k: Seq<u8>| a.dom().contains(k) implies a[k] == b[k] by {}
    assert(a =~= b);
}

/// Writing nothing changes nothing.
pub proof fn lemma_merged_empty(committed: Committed)
    ensures
        merged(Map::empty(), committed) == committed,
{
    assert(merged(Map::empty(), committed) =~= committed);
}

/// Within a view the last write wins: a read finds what was staged last
/// under its key, and what is staged under one key leaves every other key
/// as it was.
pub proof fn lemma_last_write_wins(
    staged: Staged,
    committed: Committed,
    key: Seq<u8>,
    first: Option<Seq<u8>>,
    last: Option<Seq<u8>>,
    other: Seq<u8>,
)
    requires
        other != key,
    ensures
        lookup(staged.insert(key, first).insert(key, last), committed, key) == last,
        lookup(staged.insert(key, last), committed, other) == lookup(staged, committed, other),
{
}

/// Reading through staged changes is reading what a commit of them would
/// leave.
pub proof fn lemma_lookup_merged(staged: Staged, committed: Committed, key: Seq<u8>)
    ensures
        lookup(Map::empty(), merged(staged, committed), key) == lookup(staged, committed, key),
{
}

/// The bytes of `a`, each combined with the byte of `b` at its position by
/// exclusive or.
pub open spec fn xor_bytes(a: Seq<u8>, b: Seq<u8>) -> Seq<u8> {
    Seq::new(a.len(), |i: int| a[i] ^ b[i])
}

/// The digest of one entry of committed state: its key, hashed together
/// with the hash of its value.
pub open spec fn entry_digest(key: Seq<u8>, value: Seq<u8>) -> Seq<u8> {
    sha256(key + sha256(value))
}

/// The root of a list of entries: the digests of all entries combined by
/// exclusive or, starting from 32 zero bytes.
pub open spec fn root_of(entries: Seq<(Seq<u8>, Seq<u8>)>) -> Seq<u8>
    decreases entries.len(),
{
    if entries.len() == 0 {
        Seq::new(32, |i: int| 0u8)
    } else {
        xor_bytes(
            root_of(entries.drop_last()),
            entry_digest(entries.last().0, entries.last().1),
        )
    }
}

/// A root is 32 bytes long.
pub proof fn lemma_root_len(entries: Seq<(Seq<u8>, Seq<u8>)>)
    ensures
        root_of(entries).len() == 32,
    decreases entries.len(),
{
    if entries.len() > 0 {
        lemma_root_len(entries.drop_last());
    }
}

/// Combining with two digests comes to the same in either order.
pub proof fn lemma_xor_swap(r: Seq<u8>, x: Seq<u8>, y: Seq<u8>)
    ensures
        xor_bytes(xor_bytes(r, x), y) == xor_bytes(xor_bytes(r, y), x),
{
    let a = xor_bytes(xor_bytes(r, x), y);
    let b = xor_bytes(xor_bytes(r, y), x);
    assert forall|i: int| 0 <= i < r.len() implies a[i] == b[i] by {
        let p: u8 = r[i];
        let q: u8 = x[i];
        let t: u8 = y[i];
        assert((p ^ q) ^ t == (p ^ t) ^ q) by (bit_vector);
    }
    assert(a =~= b);
}

/// The root of a list is the root of the list without one entry, combined
/// with the digest of that entry.
pub proof fn lemma_root_remove(entries: Seq<(Seq<u8>, Seq<u8>)>, j: int)
    requires
        0 <= j < entries.len(),
    ensures
        root_of(entries) == xor_bytes(
            root_of(entries.remove(j)),
            entry_digest(entries[j].0, entries[j].1),
        ),
    decreases entries.len(),
{
    let front = entries.drop_last();
    if j == entries.len() - 1 {
        assert(entries.remove(j) == front);
    } else {
        lemma_root_remove(front, j);
        let rest = entries.remove(j);
        assert(rest.drop_last() == front.remove(j));
        assert(rest.last() == entries.last());
        lemma_xor_swap(
            root_of(front.remove(j)),
            entry_digest(entries[j].0, entries[j].1),
            entry_digest(entries.last().0, entries.last().1),
        );
    }
}

/// The root does not depend on the order of the entries: two lists
/// without repeated keys that spell out the same map have the same root.
pub proof fn lemma_root_of_same_map(a: Seq<(Seq<u8>, Seq<u8>)>, b: Seq<(Seq<u8>, Seq<u8>)>)
    requires
        distinct_keys(a),
        distinct_keys(b),
        map_of(a) == map_of(b),
    ensures
        root_of(a) == root_of(b),
    decreases a.len(),
{
    if a.len() == 0 {
        if b.len() > 0 {
            assert(map_of(b).dom().contains(b.last().0));
            assert(false);
        }
    } else {
        let front = a.drop_last();
        let (k, v) = a.last();
        crate::digest_map::lemma_map_of_lookup(a, a.len() - 1);
        crate::digest_map::lemma_map_of_dom(b, k);
        let j = choose|j: int| 0 <= j < b.len() && (#[trigger] b[j]).0 == k;
        crate::digest_map::lemma_map_of_lookup(b, j);
        crate::digest_map::lemma_map_of_remove(b, j);
        assert forall|i: int| 0 <= i < front.len() implies front[i].0 != k by {
            assert(a[i].0 != a[a.len() - 1].0);
        }
        crate::digest_map::lemma_map_of_absent(front, k);
        assert(map_of(front) == map_of(a).remove(k));
        lemma_root_of_same_map(front, b.remove(j));
        lemma_root_remove(b, j);
    }
}

/// Some list of entries without repeated keys that spells out a map.
pub open spec fn entries_of(m: Committed) -> Seq<(Seq<u8>, Seq<u8>)> {
    choose|s: Seq<(Seq<u8>, Seq<u8>)>| distinct_keys(s) && map_of(s) == m
}

/// The root of committed state: the digests of all its entries combined
/// by exclusive or. It is a function of what is committed, whatever the
/// order in which it came to be.
pub open spec fn map_root(m: Committed) -> Seq<u8> {
    root_of(entries_of(m))
}

/// The root of a list of entries without repeated keys is the root of the
/// map they spell out.
pub proof fn lemma_map_root(entries: Seq<(Seq<u8>, Seq<u8>)>)
    requires
        distinct_keys(entries),
    ensures
        root_of(entries) == map_root(map_of(entries)),
{
    lemma_root_of_same_map(entries, entries_of(map_of(entries)));
}

/// The root over the entries of a snapshot held in memory. What the
/// aggregated hash of a merkelized engine is to that engine, this root is
/// to a snapshot: a digest of everything committed.
pub fn state_root(snapshot: &Snapshot) -> (root: Vec<u8>)
    ensures
        root@ == map_root(snapshot@),
        root@.len() == 32,
{
    proof {
        snapshot.lemma_view();
    }
    let mut root: Vec<u8> = Vec::new();
    let mut z: usize = 0;
    while z < 32
        invariant
            z <= 32,
            root@.len() == z,
            forall|j: int| 0 <= j < z ==> root@[j] == 0u8,
        decreases 32 - z,
    {
        root.push(0u8);
        z = z + 1;
    }
    assert(root@ == root_of(snapshot.entries().subrange(0, 0)));
    let n: usize = snapshot.len();
    let mut i: usize = 0;
    while i < n
        invariant
            i <= n,
            n == snapshot.entries().len(),
            root@.len() == 32,
            root@ == root_of(snapshot.entries().subrange(0, i as int)),
        decreases n - i,
    {
        let (k, v) = snapshot.entry(i);
        let mut buf: Vec<u8> = k.to_vec();
        let inner: Vec<u8> = hash(v.as_slice()).to_vec();
        append_slice(&mut buf, inner.as_slice());
        let d: Vec<u8> = hash(buf.as_slice()).to_vec();
        let ghost before = root@;
        let mut j: usize = 0;
        while j < 32
            invariant
                j <= 32,
                root@.len() == 32,
                d@.len() == 32,
                before.len() == 32,
                forall|t: int| 0 <= t < j ==> root@[t] == before[t] ^ d@[t],
                forall|t: int| j <= t < 32 ==> root@[t] == before[t],
            decreases 32 - j,
        {
            let b: u8 = root[j] ^ d[j];
            root.set(j, b);
            j = j + 1;
        }
        proof {
            let front = snapshot.entries().subrange(0, i as int);
            let next = snapshot.entries().subrange(0, i + 1);
            assert(next.drop_last() == front);
            assert(next.last() == snapshot.entries()[i as int]);
            assert(d@ == entry_digest(next.last().0, next.last().1));
            assert(root@ == xor_bytes(before, d@));
        }
        i = i + 1;
    }
    assert(snapshot.entries().subrange(0, n as int) == snapshot.entries());
    proof {
        lemma_map_root(snapshot.entries());
    }
    root
}

/// Write a batch of staged changes to committed state.
pub fn apply_changes(cache: &Cache, fork: &mut Snapshot)
    ensures
        final(fork)@ == merged(cache@, old(fork)@),
{
    let n: usize = cache.len();
    let mut i: usize = 0;
    proof {
        cache.lemma_view();
        lemma_merged_empty(fork@);
    }
    while i < n
        invariant
            i <= n,
            n == cache.entries().len(),
            fork@ == merged(map_of(cache.entries().subrange(0, i as int)), old(fork)@),
        decreases n - i,
    {
        let (k, change) = cache.entry(i);
        proof {
            let front = cache.entries().subrange(0, i as int);
            lemma_map_of_push(front, k@, change@);
            assert(front.push((k@, change@)) == cache.entries().subrange(0, i + 1));
            lemma_merged_insert(map_of(front), old(fork)@, k@, change@);
        }
        match change {
            ViewChange::Add(value) => {
                fork.insert(*k, vstd::slice::slice_to_vec(value.as_slice()));
            },
            ViewChange::Remove => {
                fork.remove(k);
            },
        }
        i = i + 1;
    }
    assert(cache.entries().subrange(0, n as int) == cache.entries());
}

/// A copy of a cache.
pub fn clone_cache(cache: &Cache) -> (copy: Cache)
    ensures
        copy@ == cache@,
{
    let mut copy: Cache = DigestMap::new();
    let n: usize = cache.len();
    let mut i: usize = 0;
    proof {
        cache.lemma_view();
    }
    while i < n
        invariant
            i <= n,
            n == cache.entries().len(),
            copy@ == map_of(cache.entries().subrange(0, i as int)),
        decreases n - i,
    {
        let (k, c) = cache.entry(i);
        proof {
            let front = cache.entries().subrange(0, i as int);
            lemma_map_of_push(front, k@, c@);
            assert(front.push((k@, c@)) == cache.entries().subrange(0, i + 1));
        }
        copy.insert(*k, c.duplicate());
        i = i + 1;
    }
    assert(cache.entries().subrange(0, n as int) == cache.entries());
    copy
}

/// A copy of a snapshot.
pub fn clone_snapshot(snapshot: &Snapshot) -> (copy: Snapshot)
    ensures
        copy@ == snapshot@,
{
    let mut copy: Snapshot = DigestMap::new();
    let n: usize = snapshot.len();
    let mut i: usize = 0;
    proof {
        snapshot.lemma_view();
    }
    while i < n
        invariant
            i <= n,
            n == snapshot.entries().len(),
            copy@ == map_of(snapshot.entries().subrange(0, i as int)),
        decreases n - i,
    {
        let (k, v) = snapshot.entry(i);
        proof {
            let front = snapshot.entries().subrange(0, i as int);
            lemma_map_of_push(front, k@, v@);
            assert(front.push((k@, v@)) == snapshot.entries().subrange(0, i + 1));
        }
        copy.insert(*k, vstd::slice::slice_to_vec(v.as_slice()));
        i = i + 1;
    }
    assert(snapshot.entries().subrange(0, n as int) == snapshot.entries());
    copy
}

/// The digest under which a store keeps a key: the hash of the store's
/// name, length-prefixed, followed by the encoded key.
pub open spec fn storage_digest(prefix: Seq<char>, key: Seq<u8>) -> Seq<u8> {
    sha256(storage_key(prefix, key))
}

/// What is hashed for a key of a store: the store's name, length-prefixed,
/// followed by the encoded key.
pub open spec fn storage_key(prefix: Seq<char>, key: Seq<u8>) -> Seq<u8> {
    bytes_field(encode_utf8(prefix)) + key
}

/// Stores are kept apart: what is hashed for a key of one store is never
/// what is hashed for a key of a store with another name, nor for another
/// key of the same store.
pub proof fn lemma_store_keys_are_separate(
    prefix: Seq<char>,
    key: Seq<u8>,
    other_prefix: Seq<char>,
    other_key: Seq<u8>,
)
    requires
        encode_utf8(prefix).len() <= max_field_len(),
        encode_utf8(other_prefix).len() <= max_field_len(),
        storage_key(prefix, key) == storage_key(other_prefix, other_key),
    ensures
        prefix == other_prefix,
        key == other_key,
{
    crate::codec::lemma_parse_bytes_field(encode_utf8(prefix), key);
    crate::codec::lemma_parse_bytes_field(encode_utf8(other_prefix), other_key);
    vstd::utf8::encode_utf8_decode_utf8(prefix);
    vstd::utf8::encode_utf8_decode_utf8(other_prefix);
}

/// StoreKey prefixes a key with the name of the store it belongs to, so
/// that no two stores share an entry.
#[derive(Debug)]
pub struct StoreKey {
    prefix: String,
    key: Vec<u8>,
}

impl StoreKey {
    /// The store's name.
    pub closed spec fn spec_prefix(&self) -> Seq<char> {
        self.prefix@
    }

    /// The encoded key.
    pub closed spec fn spec_key(&self) -> Seq<u8> {
        self.key@
    }

    #[verifier::type_invariant]
    spec fn fits(&self) -> bool {
        encode_utf8(self.prefix@).len() <= max_field_len()
    }

    /// The key `key`, already encoded, of the store named `prefix`.
    pub fn create(prefix: String, key: Vec<u8>) -> (k: Self)
        requires
            encode_utf8(prefix@).len() <= max_field_len(),
        ensures
            k.spec_prefix() == prefix@,
            k.spec_key() == key@,
    {
        StoreKey { prefix, key }
    }

    /// The bytes that are hashed: the name, length-prefixed, then the key.
    pub fn encode(&self) -> (raw: Vec<u8>)
        ensures
            raw@ == storage_key(self.spec_prefix(), self.spec_key()),
    {
        proof {
            use_type_invariant(self);
        }
        let mut raw: Vec<u8> = Vec::new();
        write_bytes(&mut raw, self.prefix.as_str().as_bytes());
        append_slice(&mut raw, self.key.as_slice());
        raw
    }

    /// The storage digest of the key.
    pub fn hash(&self) -> (h: Digest)
        ensures
            h@ == storage_digest(self.spec_prefix(), self.spec_key()),
    {
        let raw = self.encode();
        hash(raw.as_slice())
    }
}

/// Provides cached access to the store: reads consult the staged changes
/// first and the committed snapshot second; writes are staged only.
pub struct StoreView<'a> {
    cache: Cache,
    access: &'a Snapshot,
}

impl<'a> StoreView<'a> {
    /// The staged changes.
    pub closed spec fn staged(&self) -> Staged {
        self.cache@
    }

    /// The committed state underneath.
    pub closed spec fn committed(&self) -> Committed {
        self.access@
    }

    /// A view of `db` with the staged changes of `cache`.
    pub fn wrap(db: &'a Snapshot, cache: Cache) -> (view: Self)
        ensures
            view.staged() == cache@,
            view.committed() == db@,
    {
        StoreView { access: db, cache }
    }

    /// A view of `db` alone, with nothing staged.
    pub fn wrap_snapshot(db: &'a Snapshot) -> (view: Self)
        ensures
            view.staged() == Staged::empty(),
            view.committed() == db@,
    {
        StoreView { access: db, cache: DigestMap::new() }
    }

    /// Give up the view for its staged changes.
    pub fn into_cache(self) -> (cache: Cache)
        ensures
            cache@ == self.staged(),
    {
        self.cache
    }

    /// Whether a value is staged under the key. A staged removal counts as
    /// absent; committed state is not consulted.
    pub fn contains(&self, key: &Digest) -> (r: bool)
        ensures
            r == (self.staged().dom().contains(key@) && self.staged()[key@].is_some()),
    {
        match self.cache.get(key) {
            Some(change) => change.get().is_some(),
            None => false,
        }
    }

    /// The value under a key: the staged value where one is staged, nothing
    /// where a removal is staged, and the committed value otherwise.
    pub fn get(&self, key: &Digest) -> (r: Option<&Vec<u8>>)
        ensures
            r.is_some() == lookup(self.staged(), self.committed(), key@).is_some(),
            r.is_some() ==> r.unwrap()@ == lookup(self.staged(), self.committed(), key@).unwrap(),
    {
        match self.cache.get(key) {
            Some(change) => change.get(),
            None => self.access.get(key),
        }
    }

    /// The committed value under a key, whatever is staged.
    pub fn get_from_store(&self, key: &Digest) -> (r: Option<Vec<u8>>)
        ensures
            r.is_some() == self.committed().dom().contains(key@),
            r.is_some() ==> r.unwrap()@ == self.committed()[key@],
    {
        match self.access.get(key) {
            Some(v) => Some(vstd::slice::slice_to_vec(v.as_slice())),
            None => None,
        }
    }

    /// Stage a value under a key, in place of whatever was staged there.
    pub fn put(&mut self, key: Digest, value: Vec<u8>)
        ensures
            final(self).staged() == old(self).staged().insert(key@, Some(value@)),
            final(self).committed() == old(self).committed(),
    {
        self.cache.insert(key, ViewChange::Add(value));
    }

    /// Stage the removal of a key, in place of whatever was staged there.
    pub fn remove(&mut self, key: Digest)
        ensures
            final(self).staged() == old(self).staged().insert(key@, None),
            final(self).committed() == old(self).committed(),
    {
        self.cache.insert(key, ViewChange::Remove);
    }

    /// Write all staged changes to `fork`. Afterwards `fork` holds what a
    /// read through the staged changes would have found in it.
    pub fn commit(&self, fork: &mut Snapshot)
        ensures
            final(fork)@ == merged(self.staged(), old(fork)@),
    {
        apply_changes(&self.cache, fork)
    }
}

/// Implement this trait to create a store for your application. A store
/// has a name of its own and keeps values of one type under keys of one
/// type; an application can have many stores.
///
/// The contracts of the operations speak of the store's name and of its
/// encodings through the trait's spec functions. An implementation that
/// is verified defines them and proves its encoders against them; one
/// that is not leaves them as they are, and the operations then promise
/// what they promise of any name and any encoding.
pub trait Store {
    /// The key of the store.
    type Key;

    /// What is stored.
    type Value;

    /// The store's name.
    open spec fn spec_name(&self) -> Seq<char> {
        arbitrary()
    }

    /// The encoding of a key.
    open spec fn spec_key_bytes(&self, key: &Self::Key) -> Seq<u8> {
        arbitrary()
    }

    /// The encoding of a value.
    open spec fn spec_value_bytes(&self, value: &Self::Value) -> Seq<u8> {
        arbitrary()
    }

    /// Whether a key can be encoded.
    open spec fn key_fits(&self, key: &Self::Key) -> bool {
        arbitrary()
    }

    /// Whether a value can be encoded.
    open spec fn value_fits(&self, value: &Self::Value) -> bool {
        arbitrary()
    }

    /// Whether bytes are the encoding of some value.
    open spec fn decodable(&self, raw: Seq<u8>) -> bool {
        arbitrary()
    }

    /// Whether `value` is what the bytes decode to.
    open spec fn decodes_to(&self, raw: Seq<u8>, value: &Self::Value) -> bool {
        arbitrary()
    }

    /// Return a unique name for the store, such as the application's name
    /// followed by the store's. It prefixes every key of the store, so two
    /// stores with one name would share their entries.
    fn name(&self) -> (n: String)
        ensures
            n@ == self.spec_name(),
            encode_utf8(n@).len() <= max_field_len(),
    ;

    /// Encode a key.
    fn key_bytes(&self, key: &Self::Key) -> (raw: Vec<u8>)
        requires
            self.key_fits(key),
        ensures
            raw@ == self.spec_key_bytes(key),
    ;

    /// Encode a value.
    fn value_bytes(&self, value: &Self::Value) -> (raw: Vec<u8>)
        requires
            self.value_fits(value),
        ensures
            raw@ == self.spec_value_bytes(value),
    ;

    /// Decode a value; nothing where the bytes encode none.
    fn value_from_bytes(&self, raw: &[u8]) -> (r: Option<Self::Value>)
        ensures
            r.is_some() == self.decodable(raw@),
            r.is_some() ==> self.decodes_to(raw@, &r.unwrap()),
    ;

    /// The storage digest of a key of this store.
    fn digest(&self, key: &Self::Key) -> (h: Digest)
        requires
            self.key_fits(key),
        ensures
            h@ == storage_digest(self.spec_name(), self.spec_key_bytes(key)),
    {
        let name = self.name();
        let raw = self.key_bytes(key);
        let store_key = StoreKey::create(name, raw);
        store_key.hash()
    }

    /// Put a value in the store.
    fn put(&self, key: Self::Key, v: Self::Value, view: &mut StoreView)
        requires
            self.key_fits(&key),
            self.value_fits(&v),
        ensures
            final(view).staged() == old(view).staged().insert(
                storage_digest(self.spec_name(), self.spec_key_bytes(&key)),
                Some(self.spec_value_bytes(&v)),
            ),
            final(view).committed() == old(view).committed(),
    {
        let h = self.digest(&key);
        let raw = self.value_bytes(&v);
        view.put(h, raw)
    }

    /// Get a value from the store: the staged one where one is staged, else
    /// the committed one. Bytes that do not decode count as absent.
    fn get(&self, key: Self::Key, view: &StoreView) -> (r: Option<Self::Value>)
        requires
            self.key_fits(&key),
        ensures
            match lookup(view.staged(), view.committed(), storage_digest(self.spec_name(), self.spec_key_bytes(&key))) {
                None => r.is_none(),
                Some(raw) => r.is_some() == self.decodable(raw) && (r.is_some()
                    ==> self.decodes_to(raw, &r.unwrap())),
            },
    {
        let h = self.digest(&key);
        match view.get(&h) {
            Some(raw) => self.value_from_bytes(raw.as_slice()),
            None => None,
        }
    }

    /// Query the latest committed data for the value, whatever is staged.
    fn query(&self, key: Self::Key, view: &StoreView) -> (r: Option<Self::Value>)
        requires
            self.key_fits(&key),
        ensures
            match lookup(Map::empty(), view.committed(), storage_digest(self.spec_name(), self.spec_key_bytes(&key))) {
                None => r.is_none(),
                Some(raw) => r.is_some() == self.decodable(raw) && (r.is_some()
                    ==> self.decodes_to(raw, &r.unwrap())),
            },
    {
        let h = self.digest(&key);
        match view.get_from_store(&h) {
            Some(raw) => self.value_from_bytes(raw.as_slice()),
            None => None,
        }
    }

    /// Remove a value.
    fn remove(&self, key: Self::Key, view: &mut StoreView)
        requires
            self.key_fits(&key),
        ensures
            final(view).staged() == old(view).staged().insert(storage_digest(self.spec_name(), self.spec_key_bytes(&key)), None),
            final(view).committed() == old(view).committed(),
    {
        let h = self.digest(&key);
        view.remove(h)
    }

    /// Whether a value is staged under the key.
    fn contains_key(&self, key: Self::Key, view: &StoreView) -> (r: bool)
        requires
            self.key_fits(&key),
        ensures
            r == (view.staged().dom().contains(storage_digest(self.spec_name(), self.spec_key_bytes(&key))) && view.staged()[storage_digest(self.spec_name(), self.spec_key_bytes(&key))].is_some()),
    {
        let h = self.digest(&key);
        view.contains(&h)
    }
}

} // verus!
