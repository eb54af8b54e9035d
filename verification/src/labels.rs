//! Sharing of label lists.
//!
//! Many allocations carry the same list of labels. The store keeps each distinct list once and
//! hands out a small identifier for it, its rank of arrival. Identifiers are never reused and
//! never change meaning.
//!
//! Lists are found by their content: the store keeps, for each hash, the identifiers of the
//! lists that have it, and compares a new list with those only.

use crate::error::Error;
use std::collections::hash_map::DefaultHasher;
use std::collections::HashMap;
use std::hash::Hasher;
use std::sync::Arc;
use vstd::prelude::*;
use vstd::std_specs::hash::DefaultHasherAdditionalSpecFns;
use vstd::string::StringSliceAdditionalSpecFns;

verus! {

/// A list of labels, as the contracts see it.
pub type Labels = Seq<Seq<char>>;

/// A label UID.
#[derive(Debug, Clone, Copy, PartialEq, Eq, Structural, Hash)]
pub struct Uid {
    /// Rank of arrival of the label list this identifier stands for.
    pub uid: usize,
}

impl View for Uid {
    type V = nat;

    /// Rank of arrival of the label list this identifier stands for.
    open spec fn view(&self) -> nat {
        self.uid as nat
    }
}

impl Uid {
    /// Rank of arrival of the label list this identifier stands for.
    pub fn index(&self) -> (res: usize)
        ensures
            res as nat == self@,
    {
        self.uid
    }
}

/// What a store holds once `labels` has been interned in `store`.
pub open spec fn interned(store: Seq<Labels>, labels: Labels) -> Seq<Labels> {
    if store.contains(labels) {
        store
    } else {
        store.push(labels)
    }
}

/// The identifier under which `store` holds `labels`.
pub open spec fn uid_of(store: Seq<Labels>, labels: Labels) -> int {
    store.index_of(labels)
}

/// What hashing `labels` writes to the hasher: the bytes of each label in turn.
spec fn hashed_bytes(labels: Labels) -> Seq<Seq<u8>> {
    labels.map_values(|label: Seq<char>| vstd::utf8::encode_utf8(label))
}

/// The hash under which the store files `labels`.
spec fn hash_of(labels: Labels) -> u64 {
    DefaultHasher::spec_finish(hashed_bytes(labels))
}

/// Computes the hash under which the store files `labels`.
fn hash_labels(labels: &Vec<String>) -> (res: u64)
    ensures
        res == hash_of(labels.deep_view()),
{
    let mut hasher = DefaultHasher::new();
    let mut i: usize = 0;
    while i < labels.len()
        invariant
            i <= labels.len(),
            hasher@ == hashed_bytes(labels.deep_view().subrange(0, i as int)),
        decreases labels.len() - i,
    {
        hasher.write(labels[i].as_str().as_bytes());
        assert(hasher@ =~= hashed_bytes(labels.deep_view().subrange(0, i + 1)));
        i += 1;
    }
    assert(labels.deep_view().subrange(0, i as int) =~= labels.deep_view());
    hasher.finish()
}

/// The store of label lists.
pub struct Mem {
    elems: Vec<Arc<Vec<String>>>,
    index: HashMap<u64, Vec<usize>>,
}

impl View for Mem {
    type V = Seq<Labels>;

    /// The label lists held, each at the rank its identifier names.
    closed spec fn view(&self) -> Seq<Labels> {
        self.elems.deep_view()
    }
}

/// Another handle on a shared label list.
///
/// Wraps `Arc::clone`, which returns a pointer to the same allocation: the list behind the
/// result is the list behind `elm`.
#[verifier::external_body]
fn share(elm: &Arc<Vec<String>>) -> (res: Arc<Vec<String>>)
    ensures
        res == *elm,
{
    Arc::clone(elm)
}

/// True if the two lists hold the same labels in the same order.
pub fn same_labels(lft: &Vec<String>, rgt: &Vec<String>) -> (res: bool)
    ensures
        res == (lft.deep_view() == rgt.deep_view()),
{
    if lft.len() != rgt.len() {
        assert(lft.deep_view().len() != rgt.deep_view().len());
        return false;
    }
    let mut i: usize = 0;
    while i < lft.len()
        invariant
            i <= lft.len(),
            lft.len() == rgt.len(),
            forall|j: int| 0 <= j < i ==> lft@[j]@ == rgt@[j]@,
        decreases lft.len() - i,
    {
        if lft[i] != rgt[i] {
            assert(lft.deep_view()[i as int] != rgt.deep_view()[i as int]);
            return false;
        }
        i += 1;
    }
    assert(lft.deep_view() =~= rgt.deep_view());
    true
}

impl Mem {
    /// The index files every list under its hash, and files nothing that the store lacks.
    pub closed spec fn indexed(&self) -> bool {
        &&& forall|i: int|
            #![trigger self@[i]]
            0 <= i < self@.len() ==> self.index@.contains_key(hash_of(self@[i]))
                && self.index@[hash_of(self@[i])]@.contains(i as usize)
        &&& forall|hash: u64, j: int|
            #![trigger self.index@[hash]@[j]]
            self.index@.contains_key(hash) && 0 <= j < self.index@[hash]@.len()
                ==> self.index@[hash]@[j] < self@.len()
    }

    /// The store is sound: it holds no label list twice, and its index agrees with it.
    pub open spec fn wf(&self) -> bool {
        self@.no_duplicates() && self.indexed()
    }

    /// An empty store.
    pub fn new() -> (res: Self)
        ensures
            res.wf(),
            res@ == Seq::<Labels>::empty(),
    {
        let res = Mem { elems: Vec::new(), index: HashMap::new() };
        assert(res@ =~= Seq::<Labels>::empty());
        res
    }

    /// Looks for `labels`, whose hash is `hash`, among the lists filed under that hash.
    fn lookup(&self, labels: &Vec<String>, hash: u64) -> (res: Option<usize>)
        requires
            self.wf(),
            hash == hash_of(labels.deep_view()),
        ensures
            match res {
                Some(at) => at < self@.len() && self@[at as int] == labels.deep_view(),
                None => !self@.contains(labels.deep_view()),
            },
    {
        let ghost wanted = labels.deep_view();
        let count = self.elems.len();
        assert(self@.len() == count);
        match self.index.get(&hash) {
            Some(bucket) => {
                let mut j: usize = 0;
                while j < bucket.len()
                    invariant
                        j <= bucket.len(),
                        self.wf(),
                        self@.len() == count,
                        wanted == labels.deep_view(),
                        self.index@.contains_key(hash),
                        self.index@[hash] == *bucket,
                        forall|k: int| 0 <= k < j ==> self@[bucket@[k] as int] != wanted,
                    decreases bucket.len() - j,
                {
                    let at = bucket[j];
                    assert(self.index@[hash]@[j as int] < self@.len());
                    if same_labels(&self.elems[at], labels) {
                        return Some(at);
                    }
                    j += 1;
                }
                assert forall|i: int| 0 <= i < self@.len() implies self@[i] != wanted by {
                    if self@[i] == wanted {
                        assert(bucket@.contains(i as usize));
                        let k = choose|k: int| 0 <= k < bucket@.len() && bucket@[k] == i as usize;
                        assert(self@[bucket@[k] as int] != wanted);
                    }
                }
                None
            },
            None => {
                assert forall|i: int| 0 <= i < self@.len() implies self@[i] != wanted by {
                    if self@[i] == wanted {
                        assert(self.index@.contains_key(hash_of(self@[i])));
                    }
                }
                None
            },
        }
    }

    /// Number of distinct label lists held, which is also the next identifier to be issued.
    pub fn len(&self) -> (res: usize)
        ensures
            res == self@.len(),
    {
        self.elems.len()
    }

    /// Registers a list of labels and returns its identifier.
    ///
    /// A list that the store already holds keeps the identifier it has; a new one gets the next
    /// unused identifier. Nothing already stored moves.
    pub fn intern(&mut self, labels: Vec<String>) -> (uid: Uid)
        requires
            old(self).wf(),
        ensures
            final(self).wf(),
            final(self)@ == interned(old(self)@, labels.deep_view()),
            uid@ == uid_of(final(self)@, labels.deep_view()),
            uid@ < final(self)@.len(),
            final(self)@[uid@ as int] == labels.deep_view(),
    {
        let ghost wanted = labels.deep_view();
        let hash = hash_labels(&labels);
        match self.lookup(&labels, hash) {
            Some(at) => {
                assert(self@.contains(wanted));
                return Uid { uid: at };
            },
            None => {},
        }
        let uid = self.elems.len();
        self.elems.push(Arc::new(labels));
        let mut bucket = match self.index.remove(&hash) {
            Some(bucket) => bucket,
            None => Vec::new(),
        };
        let ghost filed = bucket@;
        bucket.push(uid);
        self.index.insert(hash, bucket);
        proof {
            assert(self@ =~= old(self)@.push(wanted));
            assert(self@[uid as int] == wanted);
            assert(self@.contains(wanted));
            assert(bucket@[filed.len() as int] == uid);
            assert forall|i: int| 0 <= i < self@.len() implies self.index@.contains_key(
                hash_of(#[trigger] self@[i]),
            ) && self.index@[hash_of(self@[i])]@.contains(i as usize) by {
                if i < uid {
                    assert(self@[i] == old(self)@[i]);
                    let key = hash_of(old(self)@[i]);
                    assert(old(self).index@.contains_key(key));
                    assert(old(self).index@[key]@.contains(i as usize));
                    if key == hash {
                        let k = choose|k: int| 0 <= k < filed.len() && filed[k] == i as usize;
                        assert(bucket@[k] == i as usize);
                    }
                }
            }
            assert forall|key: u64, j: int|
                self.index@.contains_key(key) && 0 <= j < self.index@[key]@.len() implies (
            #[trigger] self.index@[key]@[j]) < self@.len() by {
                if key == hash {
                    if j < filed.len() {
                        assert(bucket@[j] == filed[j]);
                        assert(old(self).index@.contains_key(hash));
                        assert(old(self).index@[hash]@[j] < old(self)@.len());
                    }
                } else {
                    assert(old(self).index@.contains_key(key));
                    assert(old(self).index@[key]@[j] < old(self)@.len());
                }
            }
        }
        Uid { uid }
    }

    /// True if `uid` was issued by this store.
    pub fn knows(&self, uid: Uid) -> (res: bool)
        ensures
            res == (uid@ < self@.len()),
    {
        uid.uid < self.elems.len()
    }

    /// Retrieves a list of labels from its identifier.
    ///
    /// Fails with `UnknownUid` exactly when this store never issued `uid`.
    pub fn resolve(&self, uid: Uid) -> (res: Result<Arc<Vec<String>>, Error>)
        ensures
            match res {
                Ok(labels) => uid@ < self@.len() && labels.deep_view() == self@[uid@ as int],
                Err(e) => uid@ >= self@.len() && e == Error::UnknownUid,
            },
    {
        if uid.uid < self.elems.len() {
            Ok(share(&self.elems[uid.uid]))
        } else {
            Err(Error::UnknownUid)
        }
    }
}

/// Registers a list of labels and returns its UID.
pub fn add(mem: &mut Mem, labels: Vec<String>) -> (uid: Uid)
    requires
        old(mem).wf(),
    ensures
        final(mem).wf(),
        final(mem)@ == interned(old(mem)@, labels.deep_view()),
        uid@ == uid_of(final(mem)@, labels.deep_view()),
        uid@ < final(mem)@.len(),
        final(mem)@[uid@ as int] == labels.deep_view(),
{
    mem.intern(labels)
}

/// Retrieves a list of labels from its UID.
pub fn get(mem: &Mem, uid: Uid) -> (res: Result<Arc<Vec<String>>, Error>)
    ensures
        match res {
            Ok(labels) => uid@ < mem@.len() && labels.deep_view() == mem@[uid@ as int],
            Err(e) => uid@ >= mem@.len() && e == Error::UnknownUid,
        },
{
    mem.resolve(uid)
}

/// Interning keeps what the store holds: every identifier issued before still names the same
/// label list, and the store still holds nothing twice.
pub proof fn lemma_interned_extends(store: Seq<Labels>, labels: Labels)
    requires
        store.no_duplicates(),
    ensures
        interned(store, labels).no_duplicates(),
        interned(store, labels).contains(labels),
        store.len() <= interned(store, labels).len() <= store.len() + 1,
        forall|i: int| 0 <= i < store.len() ==> interned(store, labels)[i] == store[i],
        0 <= uid_of(interned(store, labels), labels) < interned(store, labels).len(),
        interned(store, labels)[uid_of(interned(store, labels), labels)] == labels,
{
    let after = interned(store, labels);
    if !store.contains(labels) {
        assert(after[store.len() as int] == labels);
    }
    assert(after.contains(labels));
}

/// Two label lists interned one after the other get the same identifier exactly when they are
/// equal, and the second interning leaves the identifier of the first as it was.
pub proof fn lemma_same_uid_iff_equal(store: Seq<Labels>, lft: Labels, rgt: Labels)
    requires
        store.no_duplicates(),
    ensures
        ({
            let once = interned(store, lft);
            let twice = interned(once, rgt);
            &&& uid_of(twice, lft) == uid_of(once, lft)
            &&& (uid_of(once, lft) == uid_of(twice, rgt) <==> lft == rgt)
        }),
{
    let once = interned(store, lft);
    let twice = interned(once, rgt);
    lemma_interned_extends(store, lft);
    lemma_interned_extends(once, rgt);
    let i = uid_of(once, lft);
    assert(twice[i] == lft);
    assert(twice.contains(lft));
    let k = uid_of(twice, lft);
    assert(0 <= k < twice.len() && twice[k] == lft);
    let j = uid_of(twice, rgt);
    assert(twice[j] == rgt);
}

} // verus!
