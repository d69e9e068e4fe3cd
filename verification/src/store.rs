//! The byte-addressable store that the tool operations act on.
//!
//! A [`FileStore`] is an in-memory map from resource identifiers to byte
//! contents, held as an association list whose names are pairwise distinct.
//! Its abstract value, written `store@`, is a `Map<Seq<char>, Seq<u8>>`; every
//! operation's contract is stated over that map.

use vstd::map::*;
use vstd::prelude::*;

verus! {

/// One stored resource: its identifier and its byte contents.
struct Entry {
    name: String,
    data: Vec<u8>,
}

/// An in-memory byte-addressable store mapping resource identifiers to byte
/// contents.
pub struct FileStore {
    entries: Vec<Entry>,
}

/// True when some entry of `es` is named `name`.
spec fn contains_name(es: Seq<Entry>, name: Seq<char>) -> bool {
    exists|i: int| 0 <= i < es.len() && es[i].name@ == name
}

/// An index of an entry of `es` named `name`, when one exists.
spec fn index_of_name(es: Seq<Entry>, name: Seq<char>) -> int {
    choose|i: int| 0 <= i < es.len() && es[i].name@ == name
}

impl FileStore {
    /// Well-formed: resource names are pairwise distinct, so each identifier
    /// denotes at most one entry.
    pub closed spec fn wf(&self) -> bool {
        forall|i: int, j: int|
            0 <= i < j < self.entries@.len() ==> self.entries@[i].name@ != self.entries@[j].name@
    }

    /// An empty store.
    pub fn new() -> (r: FileStore)
        ensures
            r.wf(),
            r@ == Map::<Seq<char>, Seq<u8>>::empty(),
    {
        let r = FileStore { entries: Vec::new() };
        proof {
            assert_maps_equal!(r@, Map::<Seq<char>, Seq<u8>>::empty(), k => {});
        }
        r
    }

    /// The index of the entry named `resource_id`, when the store has one.
    fn find(&self, resource_id: &String) -> (r: Option<usize>)
        ensures
            match r {
                Some(i) => i < self.entries@.len() && self.entries@[i as int].name@
                    == resource_id@,
                None => !contains_name(self.entries@, resource_id@),
            },
    {
        let mut i: usize = 0;
        while i < self.entries.len()
            invariant
                i <= self.entries@.len(),
                forall|j: int| 0 <= j < i ==> self.entries@[j].name@ != resource_id@,
            decreases self.entries@.len() - i,
        {
            if self.entries[i].name == *resource_id {
                return Some(i);
            }
            i = i + 1;
        }
        None
    }

    /// Create the resource named `resource_id` with contents `contents`,
    /// overwriting whatever that name held before.
    pub fn write_resource(&mut self, resource_id: &String, contents: Vec<u8>)
        requires
            old(self).wf(),
        ensures
            final(self).wf(),
            final(self)@ == old(self)@.insert(resource_id@, contents@),
    {
        let ghost es0 = self.entries@;
        let ghost rid = resource_id@;
        let ghost cs = contents@;
        match self.find(resource_id) {
            Some(i) => {
                self.entries[i].data = contents;
                proof {
                    let es1 = self.entries@;
                    assert(forall|p: int|
                        0 <= p < es1.len() ==> es1[p].name@ == es0[p].name@);
                    assert(self.wf());
                    lemma_view_after_replace(es0, es1, i as int, rid, cs);
                    assert_maps_equal!(self@, old(self)@.insert(rid, cs), k => {
                        view_key_after_replace(es0, es1, i as int, rid, cs, k);
                    });
                }
            },
            None => {
                let name = resource_id.clone();
                self.entries.push(Entry { name, data: contents });
                proof {
                    let es1 = self.entries@;
                    assert(es1 =~= es0.push(es1.last()));
                    assert(forall|p: int| 0 <= p < es0.len() ==> es1[p] == es0[p]);
                    assert(self.wf()) by {
                        assert(forall|p: int|
                            0 <= p < es0.len() ==> es1[p].name@ != rid);
                    }
                    assert_maps_equal!(self@, old(self)@.insert(rid, cs), k => {
                        view_key_after_push(es0, es1, rid, cs, k);
                    });
                }
            },
        }
    }

    /// The byte contents of the resource named `resource_id`, when the store
    /// has one.
    pub fn read_resource(&self, resource_id: &String) -> (r: Option<Vec<u8>>)
        requires
            self.wf(),
        ensures
            match r {
                Some(v) => self@.contains_key(resource_id@) && v@ == self@[resource_id@],
                None => !self@.contains_key(resource_id@),
            },
    {
        match self.find(resource_id) {
            Some(i) => {
                proof {
                    lemma_found_index_is_chosen(self.entries@, i as int, resource_id@);
                }
                Some(copy_bytes(&self.entries[i].data))
            },
            None => None,
        }
    }

    /// True when the store holds a resource named `resource_id`.
    pub fn contains_resource(&self, resource_id: &String) -> (r: bool)
        requires
            self.wf(),
        ensures
            r == self@.contains_key(resource_id@),
    {
        match self.find(resource_id) {
            Some(_) => true,
            None => false,
        }
    }

    /// Remove the resource named `resource_id`. Returns whether such a
    /// resource existed; when none did, the store is unchanged.
    pub fn remove_resource(&mut self, resource_id: &String) -> (r: bool)
        requires
            old(self).wf(),
        ensures
            final(self).wf(),
            r == old(self)@.contains_key(resource_id@),
            final(self)@ == if r {
                old(self)@.remove(resource_id@)
            } else {
                old(self)@
            },
    {
        let ghost es0 = self.entries@;
        let ghost rid = resource_id@;
        match self.find(resource_id) {
            Some(i) => {
                self.entries.remove(i);
                proof {
                    let es1 = self.entries@;
                    assert(self.wf()) by {
                        assert(forall|p: int|
                            0 <= p < es1.len() ==> es1[p] == (if p < i as int {
                                es0[p]
                            } else {
                                es0[p + 1]
                            }));
                    }
                    assert_maps_equal!(self@, old(self)@.remove(rid), k => {
                        view_key_after_remove(es0, es1, i as int, rid, k);
                    });
                }
                true
            },
            None => {
                false
            },
        }
    }
}

impl View for FileStore {
    type V = Map<Seq<char>, Seq<u8>>;

    /// The store as a map from resource identifiers to byte contents.
    closed spec fn view(&self) -> Map<Seq<char>, Seq<u8>> {
        Map::new(
            |name: Seq<char>| contains_name(self.entries@, name),
            |name: Seq<char>| es_data(self.entries@, name),
        )
    }
}

/// The contents of the entry of `es` named `name`, when one exists.
spec fn es_data(es: Seq<Entry>, name: Seq<char>) -> Seq<u8> {
    es[index_of_name(es, name)].data@
}

/// With pairwise distinct names, any index whose entry is named `name` is the
/// chosen one, so its contents are `es_data(es, name)`.
proof fn lemma_found_index_is_chosen(es: Seq<Entry>, i: int, name: Seq<char>)
    requires
        forall|p: int, q: int| 0 <= p < q < es.len() ==> es[p].name@ != es[q].name@,
        0 <= i < es.len(),
        es[i].name@ == name,
    ensures
        contains_name(es, name),
        index_of_name(es, name) == i,
        es_data(es, name) == es[i].data@,
{
    assert(contains_name(es, name));
    let j = index_of_name(es, name);
    assert(0 <= j < es.len() && es[j].name@ == name);
    if i < j {
        assert(es[i].name@ != es[j].name@);
    } else if j < i {
        assert(es[j].name@ != es[i].name@);
    }
}

/// Replacing the contents at index `i` keeps every name in place.
proof fn lemma_view_after_replace(es0: Seq<Entry>, es1: Seq<Entry>, i: int, name: Seq<char>, cs: Seq<u8>)
    requires
        forall|p: int, q: int| 0 <= p < q < es0.len() ==> es0[p].name@ != es0[q].name@,
        es0.len() == es1.len(),
        0 <= i < es0.len(),
        es0[i].name@ == name,
        forall|p: int| 0 <= p < es1.len() ==> es1[p].name@ == es0[p].name@,
        es1[i].data@ == cs,
        forall|p: int| 0 <= p < es1.len() && p != i ==> es1[p] == es0[p],
    ensures
        forall|p: int, q: int| 0 <= p < q < es1.len() ==> es1[p].name@ != es1[q].name@,
{
}

/// One key of the view after replacing the contents at index `i`.
proof fn view_key_after_replace(
    es0: Seq<Entry>,
    es1: Seq<Entry>,
    i: int,
    name: Seq<char>,
    cs: Seq<u8>,
    k: Seq<char>,
)
    requires
        forall|p: int, q: int| 0 <= p < q < es0.len() ==> es0[p].name@ != es0[q].name@,
        es0.len() == es1.len(),
        0 <= i < es0.len(),
        es0[i].name@ == name,
        forall|p: int| 0 <= p < es1.len() ==> es1[p].name@ == es0[p].name@,
        es1[i].data@ == cs,
        forall|p: int| 0 <= p < es1.len() && p != i ==> es1[p] == es0[p],
    ensures
        contains_name(es1, k) <==> (contains_name(es0, k) || k == name),
        contains_name(es1, k) && k == name ==> es_data(es1, k) == cs,
        contains_name(es1, k) && k != name ==> contains_name(es0, k) && es_data(es1, k)
            == es_data(es0, k),
{
    assert(forall|p: int, q: int| 0 <= p < q < es1.len() ==> es1[p].name@ != es1[q].name@) by {
        lemma_view_after_replace(es0, es1, i, name, cs);
    }
    if contains_name(es0, k) {
        let p = index_of_name(es0, k);
        assert(es1[p].name@ == k);
        assert(contains_name(es1, k));
    }
    if k == name {
        assert(es1[i].name@ == k);
        assert(contains_name(es1, k));
        lemma_found_index_is_chosen(es1, i, k);
    }
    if contains_name(es1, k) && k != name {
        let p = index_of_name(es1, k);
        assert(0 <= p < es1.len() && es1[p].name@ == k);
        assert(p != i);
        assert(es0[p].name@ == k);
        assert(contains_name(es0, k));
        lemma_found_index_is_chosen(es1, p, k);
        lemma_found_index_is_chosen(es0, p, k);
    }
}

/// One key of the view after pushing a fresh entry named `name`.
proof fn view_key_after_push(
    es0: Seq<Entry>,
    es1: Seq<Entry>,
    name: Seq<char>,
    cs: Seq<u8>,
    k: Seq<char>,
)
    requires
        forall|p: int, q: int| 0 <= p < q < es0.len() ==> es0[p].name@ != es0[q].name@,
        !contains_name(es0, name),
        es1.len() == es0.len() + 1,
        forall|p: int| 0 <= p < es0.len() ==> es1[p] == es0[p],
        es1[es0.len() as int].name@ == name,
        es1[es0.len() as int].data@ == cs,
    ensures
        contains_name(es1, k) <==> (contains_name(es0, k) || k == name),
        contains_name(es1, k) && k == name ==> es_data(es1, k) == cs,
        contains_name(es1, k) && k != name ==> contains_name(es0, k) && es_data(es1, k)
            == es_data(es0, k),
{
    let n = es0.len() as int;
    assert(forall|p: int, q: int| 0 <= p < q < es1.len() ==> es1[p].name@ != es1[q].name@) by {
        assert(forall|p: int| 0 <= p < n ==> es1[p].name@ != name);
    }
    if contains_name(es0, k) {
        let p = index_of_name(es0, k);
        assert(es1[p].name@ == k);
        assert(contains_name(es1, k));
    }
    if k == name {
        assert(es1[n].name@ == k);
        assert(contains_name(es1, k));
        lemma_found_index_is_chosen(es1, n, k);
    }
    if contains_name(es1, k) && k != name {
        let p = index_of_name(es1, k);
        assert(0 <= p < es1.len() && es1[p].name@ == k);
        assert(p != n);
        assert(es0[p].name@ == k);
        assert(contains_name(es0, k));
        lemma_found_index_is_chosen(es1, p, k);
        lemma_found_index_is_chosen(es0, p, k);
    }
}

/// One key of the view after removing the entry at index `i`.
proof fn view_key_after_remove(es0: Seq<Entry>, es1: Seq<Entry>, i: int, name: Seq<char>, k: Seq<char>)
    requires
        forall|p: int, q: int| 0 <= p < q < es0.len() ==> es0[p].name@ != es0[q].name@,
        0 <= i < es0.len(),
        es0[i].name@ == name,
        es1 == es0.remove(i),
    ensures
        contains_name(es1, k) <==> (contains_name(es0, k) && k != name),
        contains_name(es1, k) ==> es_data(es1, k) == es_data(es0, k),
{
    assert(es1.len() == es0.len() - 1);
    assert(forall|p: int|
        0 <= p < es1.len() ==> es1[p] == (if p < i {
            es0[p]
        } else {
            es0[p + 1]
        }));
    assert(forall|p: int, q: int| 0 <= p < q < es1.len() ==> es1[p].name@ != es1[q].name@);
    if contains_name(es1, k) {
        let p = index_of_name(es1, k);
        assert(0 <= p < es1.len() && es1[p].name@ == k);
        let p0: int = if p < i {
            p
        } else {
            p + 1
        };
        assert(es0[p0].name@ == k);
        assert(contains_name(es0, k));
        if k == name {
            lemma_found_index_is_chosen(es0, i, name);
            lemma_found_index_is_chosen(es0, p0, k);
        }
        lemma_found_index_is_chosen(es1, p, k);
        lemma_found_index_is_chosen(es0, p0, k);
    }
    if contains_name(es0, k) && k != name {
        let p0 = index_of_name(es0, k);
        assert(0 <= p0 < es0.len() && es0[p0].name@ == k);
        assert(p0 != i);
        let p: int = if p0 < i {
            p0
        } else {
            p0 - 1
        };
        assert(es1[p].name@ == k);
        assert(contains_name(es1, k));
    }
}

/// A fresh copy of a byte vector with the same contents.
fn copy_bytes(v: &Vec<u8>) -> (r: Vec<u8>)
    ensures
        r@ == v@,
{
    let mut r: Vec<u8> = Vec::new();
    let mut i: usize = 0;
    while i < v.len()
        invariant
            i <= v@.len(),
            r@ == v@.subrange(0, i as int),
        decreases v@.len() - i,
    {
        r.push(v[i]);
        i = i + 1;
        proof {
            assert(r@ =~= v@.subrange(0, i as int));
        }
    }
    proof {
        assert(r@ =~= v@);
    }
    r
}

} // verus!
