//! The in-memory index from (owner public key, path) to a byte payload.
//!
//! Its abstract state is a map from (owner key bytes, path characters) to the
//! payload bytes. Paths are opaque to the index, but for listing by a prefix of
//! their UTF-8 bytes.
use crate::identity::PublicKey;
use vstd::prelude::*;
use vstd::string::{StringExecFns, StringSliceAdditionalSpecFns};

verus! {

/// Where an entry lives: the owner's key bytes and the path.
pub type Address = (Seq<u8>, Seq<char>);

/// The abstract state of the index.
pub type Contents = Map<Address, Seq<u8>>;

/// The UTF-8 bytes of a path.
pub open spec fn utf8_of(path: Seq<char>) -> Seq<u8> {
    vstd::utf8::encode_utf8(path)
}

/// Whether the UTF-8 bytes of `prefix` begin those of `path`.
pub open spec fn has_prefix(path: Seq<char>, prefix: Seq<char>) -> bool {
    utf8_of(prefix).is_prefix_of(utf8_of(path))
}

/// The index after a write of `value` at (`owner`, `path`).
pub open spec fn put_result(m: Contents, owner: Seq<u8>, path: Seq<char>, value: Seq<u8>) -> Contents {
    m.insert((owner, path), value)
}

/// The index after a delete at (`owner`, `path`).
pub open spec fn delete_result(m: Contents, owner: Seq<u8>, path: Seq<char>) -> Contents {
    m.remove((owner, path))
}

/// The payload stored at (`owner`, `path`), if any.
pub open spec fn get_result(m: Contents, owner: Seq<u8>, path: Seq<char>) -> Option<Seq<u8>> {
    if m.contains_key((owner, path)) {
        Some(m[(owner, path)])
    } else {
        None
    }
}

/// The paths of `owner` that begin with `prefix`.
pub open spec fn list_result(m: Contents, owner: Seq<u8>, prefix: Seq<char>) -> Set<Seq<char>> {
    Set::new(|path: Seq<char>| m.contains_key((owner, path)) && has_prefix(path, prefix))
}

/// The index after writing `values[i]` at (`owner`, `paths[i]`) for each `i`
/// in turn.
pub open spec fn put_all(m: Contents, owner: Seq<u8>, paths: Seq<Seq<char>>, values: Seq<Seq<u8>>) -> Contents
    decreases paths.len(),
{
    if paths.len() == 0 || values.len() == 0 {
        m
    } else {
        put_result(
            put_all(m, owner, paths.drop_last(), values.drop_last()),
            owner,
            paths.last(),
            values.last(),
        )
    }
}

/// Deleting twice in a row: the first delete finds the entry, the second
/// finds nothing and changes nothing, and after either the path reads as
/// absent.
pub proof fn delete_twice(m: Contents, owner: Seq<u8>, path: Seq<char>)
    requires
        m.contains_key((owner, path)),
    ensures
        get_result(delete_result(m, owner, path), owner, path) is None,
        !delete_result(m, owner, path).contains_key((owner, path)),
        delete_result(delete_result(m, owner, path), owner, path) == delete_result(m, owner, path),
        get_result(delete_result(delete_result(m, owner, path), owner, path), owner, path) is None,
{
    assert(delete_result(delete_result(m, owner, path), owner, path) =~= delete_result(
        m,
        owner,
        path,
    ));
}

/// The last of two writes to one path is what a read returns.
pub proof fn last_write_wins(
    m: Contents,
    owner: Seq<u8>,
    path: Seq<char>,
    first: Seq<u8>,
    second: Seq<u8>,
)
    ensures
        get_result(put_result(put_result(m, owner, path, first), owner, path, second), owner, path)
            == Some(second),
{
}

/// A write under one owner is not seen under another owner at the same path.
pub proof fn owners_are_isolated(
    m: Contents,
    owner: Seq<u8>,
    other: Seq<u8>,
    path: Seq<char>,
    value: Seq<u8>,
)
    requires
        owner != other,
    ensures
        get_result(put_result(m, owner, path, value), other, path) == get_result(m, other, path),
{
}

/// Writes to distinct paths under one owner are all kept: after them, each
/// path reads as the value written to it.
pub proof fn no_lost_updates(
    m: Contents,
    owner: Seq<u8>,
    paths: Seq<Seq<char>>,
    values: Seq<Seq<u8>>,
)
    requires
        paths.no_duplicates(),
        paths.len() == values.len(),
    ensures
        forall|i: int|
            0 <= i < paths.len() ==> get_result(put_all(m, owner, paths, values), owner, #[trigger] paths[i])
                == Some(values[i]),
    decreases paths.len(),
{
    if paths.len() > 0 {
        let ps = paths.drop_last();
        let vs = values.drop_last();
        assert(ps.no_duplicates());
        no_lost_updates(m, owner, ps, vs);
        assert forall|i: int| 0 <= i < paths.len() implies get_result(
            put_all(m, owner, paths, values),
            owner,
            #[trigger] paths[i],
        ) == Some(values[i]) by {
            if i < paths.len() - 1 {
                assert(ps[i] == paths[i]);
                assert(paths[i] != paths.last());
            }
        }
    }
}

/// Whether the UTF-8 bytes of `prefix` begin those of `text`.
fn starts_with(text: &str, prefix: &str) -> (r: bool)
    ensures
        r == has_prefix(text@, prefix@),
{
    let t = text.as_bytes();
    let p = prefix.as_bytes();
    if p.len() > t.len() {
        return false;
    }
    let mut i: usize = 0;
    while i < p.len()
        invariant
            p@ == prefix.spec_bytes(),
            t@ == text.spec_bytes(),
            p@.len() <= t@.len(),
            0 <= i <= p@.len(),
            forall|j: int| 0 <= j < i ==> p@[j] == t@[j],
        decreases p@.len() - i,
    {
        if p[i] != t[i] {
            return false;
        }
        i = i + 1;
    }
    assert(p@ =~= t@.subrange(0, p@.len() as int));
    true
}

/// One stored entry: owner, path and payload.
pub type Entry = (PublicKey, String, Vec<u8>);

/// The address of an entry.
pub open spec fn address_of(e: Entry) -> Address {
    (e.0@, e.1@)
}

/// The index: a list of entries with distinct addresses.
pub struct Storage {
    entries: Vec<Entry>,
    contents: Ghost<Contents>,
}

impl View for Storage {
    type V = Contents;

    closed spec fn view(&self) -> Contents {
        self.contents@
    }
}

impl Storage {
    /// The entries hold exactly the contents, one entry per address.
    pub closed spec fn wf(&self) -> bool {
        let es = self.entries@;
        let m = self.contents@;
        &&& forall|i: int|
            0 <= i < es.len() ==> m.contains_key(#[trigger] address_of(es[i])) && m[address_of(
                es[i],
            )] == es[i].2@
        &&& forall|a: Address| #[trigger]
            m.contains_key(a) ==> exists|i: int| 0 <= i < es.len() && address_of(es[i]) == a
        &&& forall|i: int, j: int|
            0 <= i < es.len() && 0 <= j < es.len() && #[trigger] address_of(es[i])
                == #[trigger] address_of(es[j]) ==> i == j
    }

    /// An empty index.
    pub fn new() -> (r: Storage)
        ensures
            r.wf(),
            r@ == Contents::empty(),
    {
        Storage { entries: Vec::new(), contents: Ghost(Map::empty()) }
    }

    /// The position of the entry at (`owner`, `path`), if there is one.
    fn find(&self, owner: &PublicKey, path: &String) -> (r: Option<usize>)
        requires
            self.wf(),
        ensures
            r matches Some(i) ==> i < self.entries@.len() && address_of(self.entries@[i as int])
                == (owner@, path@),
            r is None ==> !self@.contains_key((owner@, path@)),
    {
        let mut i: usize = 0;
        while i < self.entries.len()
            invariant
                self.wf(),
                0 <= i <= self.entries@.len(),
                forall|j: int| 0 <= j < i ==> address_of(#[trigger] self.entries@[j]) != (owner@, path@),
            decreases self.entries@.len() - i,
        {
            if self.entries[i].0.eq(owner) && self.entries[i].1.eq(path) {
                return Some(i);
            }
            i = i + 1;
        }
        None
    }

    /// Stores `value` at (`public_key`, `path`), replacing what was there.
    pub fn put(&mut self, public_key: PublicKey, path: String, value: Vec<u8>)
        requires
            old(self).wf(),
        ensures
            final(self).wf(),
            final(self)@ == put_result(old(self)@, public_key@, path@, value@),
    {
        let ghost a: Address = (public_key@, path@);
        let ghost v: Seq<u8> = value@;
        let ghost m: Contents = self.contents@.insert(a, v);
        match self.find(&public_key, &path) {
            Some(i) => {
                let ghost old_entries = self.entries@;
                self.entries.set(i, (public_key, path, value));
                self.contents = Ghost(m);
                assert forall|j: int| 0 <= j < self.entries@.len() && j != i implies
                    #[trigger] address_of(self.entries@[j]) != a by {
                    assert(address_of(old_entries[j]) != address_of(old_entries[i as int]));
                }
                assert forall|b: Address| #[trigger] m.contains_key(b) implies exists|j: int|
                    0 <= j < self.entries@.len() && address_of(self.entries@[j]) == b by {
                    if b == a {
                        assert(address_of(self.entries@[i as int]) == b);
                    } else {
                        let j = choose|j: int| 0 <= j < old_entries.len() && address_of(old_entries[j]) == b;
                        assert(address_of(self.entries@[j]) == b);
                    }
                }
            },
            None => {
                let ghost old_entries = self.entries@;
                self.entries.push((public_key, path, value));
                self.contents = Ghost(m);
                assert forall|b: Address| #[trigger] m.contains_key(b) implies exists|j: int|
                    0 <= j < self.entries@.len() && address_of(self.entries@[j]) == b by {
                    if b == a {
                        assert(address_of(self.entries@[old_entries.len() as int]) == b);
                    } else {
                        let j = choose|j: int| 0 <= j < old_entries.len() && address_of(old_entries[j]) == b;
                        assert(address_of(self.entries@[j]) == b);
                    }
                }
            },
        }
    }

    /// The payload at (`public_key`, `path`), or `None` where there is none.
    pub fn get(&self, public_key: &PublicKey, path: &str) -> (r: Option<Vec<u8>>)
        requires
            self.wf(),
        ensures
            r is Some == get_result(self@, public_key@, path@) is Some,
            r matches Some(v) ==> get_result(self@, public_key@, path@) == Some(v@),
    {
        let key = String::from_str(path);
        match self.find(public_key, &key) {
            Some(i) => {
                let mut value: Vec<u8> = Vec::new();
                let stored = &self.entries[i].2;
                let mut j: usize = 0;
                while j < stored.len()
                    invariant
                        0 <= j <= stored@.len(),
                        value@ == stored@.subrange(0, j as int),
                    decreases stored@.len() - j,
                {
                    value.push(stored[j]);
                    j = j + 1;
                }
                assert(value@ =~= stored@);
                Some(value)
            },
            None => None,
        }
    }

    /// Removes the entry at (`public_key`, `path`); says whether there was one.
    pub fn delete(&mut self, public_key: &PublicKey, path: &str) -> (r: bool)
        requires
            old(self).wf(),
        ensures
            final(self).wf(),
            r == old(self)@.contains_key((public_key@, path@)),
            final(self)@ == delete_result(old(self)@, public_key@, path@),
    {
        let key = String::from_str(path);
        match self.find(public_key, &key) {
            Some(i) => {
                let ghost a: Address = (public_key@, path@);
                let ghost old_entries = self.entries@;
                let ghost m: Contents = self.contents@.remove(a);
                self.entries.remove(i);
                self.contents = Ghost(m);
                assert forall|j: int| 0 <= j < self.entries@.len() implies m.contains_key(
                    #[trigger] address_of(self.entries@[j]),
                ) && m[address_of(self.entries@[j])] == self.entries@[j].2@ by {
                    if j < i {
                        assert(self.entries@[j] == old_entries[j]);
                    } else {
                        assert(self.entries@[j] == old_entries[j + 1]);
                        assert(address_of(old_entries[j + 1]) != address_of(old_entries[i as int]));
                    }
                }
                assert forall|b: Address| #[trigger] m.contains_key(b) implies exists|j: int|
                    0 <= j < self.entries@.len() && address_of(self.entries@[j]) == b by {
                    let j = choose|j: int| 0 <= j < old_entries.len() && address_of(old_entries[j]) == b;
                    if j < i {
                        assert(address_of(self.entries@[j]) == b);
                    } else {
                        assert(address_of(self.entries@[j - 1]) == b);
                    }
                }
                assert forall|j: int, k: int|
                    0 <= j < self.entries@.len() && 0 <= k < self.entries@.len() && #[trigger] address_of(self.entries@[j])
                        == #[trigger] address_of(self.entries@[k]) implies j == k by {
                    let oj = if j < i { j } else { j + 1 };
                    let ok = if k < i { k } else { k + 1 };
                    assert(address_of(old_entries[oj]) == address_of(old_entries[ok]));
                }
                true
            },
            None => {
                assert(self.contents@.remove((public_key@, path@)) =~= self.contents@);
                false
            },
        }
    }

    /// Every path of `public_key` that begins with `prefix`, each once, in no
    /// promised order.
    pub fn list(&self, public_key: &PublicKey, prefix: &str) -> (r: Vec<String>)
        requires
            self.wf(),
        ensures
            r@.map_values(|p: String| p@).no_duplicates(),
            r@.map_values(|p: String| p@).to_set() == list_result(self@, public_key@, prefix@),
    {
        let mut paths: Vec<String> = Vec::new();
        let mut i: usize = 0;
        while i < self.entries.len()
            invariant
                self.wf(),
                0 <= i <= self.entries@.len(),
                forall|a: int|
                    0 <= a < paths@.len() ==> list_result(self@, public_key@, prefix@).contains(
                        #[trigger] paths@[a]@,
                    ) && exists|j: int|
                        0 <= j < i && address_of(self.entries@[j]) == (public_key@, paths@[a]@),
                forall|a: int, b: int|
                    0 <= a < b < paths@.len() ==> #[trigger] paths@[a]@ != #[trigger] paths@[b]@,
                forall|j: int|
                    0 <= j < i && (#[trigger] self.entries@[j]).0@ == public_key@ && has_prefix(
                        self.entries@[j].1@,
                        prefix@,
                    ) ==> exists|a: int| 0 <= a < paths@.len() && paths@[a]@ == self.entries@[j].1@,
            decreases self.entries@.len() - i,
        {
            let entry = &self.entries[i];
            if entry.0.eq(public_key) && starts_with(entry.1.as_str(), prefix) {
                proof {
                    assert(self@.contains_key(address_of(self.entries@[i as int])));
                    assert forall|a: int| 0 <= a < paths@.len() implies paths@[a]@ != entry.1@ by {
                        if paths@[a]@ == entry.1@ {
                            let j = choose|j: int|
                                0 <= j < i && address_of(self.entries@[j]) == (public_key@, paths@[a]@);
                            assert(address_of(self.entries@[j]) == address_of(self.entries@[i as int]));
                        }
                    }
                }
                let ghost old_paths = paths@;
                paths.push(entry.1.clone());
                proof {
                    let n = paths@.len() - 1;
                    assert(paths@[n]@ == self.entries@[i as int].1@);
                    assert(address_of(self.entries@[i as int]) == (public_key@, paths@[n]@));
                    assert forall|j: int|
                        0 <= j < i + 1 && (#[trigger] self.entries@[j]).0@ == public_key@
                            && has_prefix(self.entries@[j].1@, prefix@) implies exists|a: int|
                        0 <= a < paths@.len() && paths@[a]@ == self.entries@[j].1@ by {
                        if j == i {
                            assert(paths@[n]@ == self.entries@[j].1@);
                        } else {
                            let a = choose|a: int|
                                0 <= a < old_paths.len() && old_paths[a]@ == self.entries@[j].1@;
                            assert(paths@[a] == old_paths[a]);
                        }
                    }
                    assert forall|a: int| 0 <= a < paths@.len() implies exists|j: int|
                        0 <= j < i + 1 && address_of(self.entries@[j]) == (public_key@, #[trigger] paths@[a]@) by {
                        if a == n {
                            assert(address_of(self.entries@[i as int]) == (public_key@, paths@[a]@));
                        } else {
                            assert(paths@[a] == old_paths[a]);
                        }
                    }
                }
            }
            i = i + 1;
        }
        let ghost names = paths@.map_values(|p: String| p@);
        proof {
            assert forall|a: int, b: int| 0 <= a < names.len() && 0 <= b < names.len() && a != b implies names[a] != names[b] by {
                if a < b {
                    assert(paths@[a]@ != paths@[b]@);
                } else {
                    assert(paths@[b]@ != paths@[a]@);
                }
            }
            assert forall|p: Seq<char>| #[trigger] list_result(self@, public_key@, prefix@).contains(p)
                implies names.contains(p) by {
                let j = choose|j: int| 0 <= j < self.entries@.len() && address_of(self.entries@[j]) == (public_key@, p);
                assert(self.entries@[j].0@ == public_key@);
                let a = choose|a: int| 0 <= a < paths@.len() && paths@[a]@ == self.entries@[j].1@;
                assert(names[a] == p);
            }
            assert forall|p: Seq<char>| names.contains(p) implies #[trigger] list_result(self@, public_key@, prefix@).contains(p) by {
                let a = choose|a: int| 0 <= a < names.len() && names[a] == p;
                assert(paths@[a]@ == p);
            }
            assert(names.to_set() =~= list_result(self@, public_key@, prefix@));
        }
        paths
    }
}

impl Default for Storage {
    fn default() -> (r: Storage)
        ensures
            r.wf(),
            r@ == Contents::empty(),
    {
        Storage::new()
    }
}

} // verus!
