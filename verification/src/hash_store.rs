//! The Hash Store: the persistent map from watched file path to content
//! digest, together with the change-detection rule that decides when a file
//! counts as modified. The store is a plain value here; process-wide
//! sharing, locking and the synchronous write to disk happen around it.

use vstd::prelude::*;

use crate::hash_utils::conpute_hash;
use crate::hash_utils::sha256_of;
use crate::text::str_eq;

verus! {

/// One tracked file: its path and the digest last observed for it.
pub struct HashEntry {
    pub path: String,
    pub digest: Vec<u8>,
}

impl HashEntry {
    /// The entry as a (path, digest) pair of sequences.
    pub open spec fn view(&self) -> (Seq<char>, Seq<u8>) {
        (self.path@, self.digest@)
    }
}

/// The mapping that a sequence of entries denotes: later entries win.
pub open spec fn map_of(s: Seq<(Seq<char>, Seq<u8>)>) -> Map<Seq<char>, Seq<u8>>
    decreases s.len(),
{
    if s.len() == 0 {
        Map::empty()
    } else {
        map_of(s.drop_last()).insert(s.last().0, s.last().1)
    }
}

/// No two entries share a path.
pub open spec fn unique_paths(s: Seq<(Seq<char>, Seq<u8>)>) -> bool {
    forall|i: int, j: int| 0 <= i < j < s.len() ==> (#[trigger] s[i]).0 != (#[trigger] s[j]).0
}

pub proof fn lemma_map_of_contains(s: Seq<(Seq<char>, Seq<u8>)>, k: Seq<char>)
    ensures
        map_of(s).contains_key(k) <==> exists|i: int| 0 <= i < s.len() && (#[trigger] s[i]).0 == k,
    decreases s.len(),
{
    if s.len() > 0 {
        lemma_map_of_contains(s.drop_last(), k);
        if map_of(s).contains_key(k) {
            if s.last().0 != k {
                let i = choose|i: int| 0 <= i < s.drop_last().len() && (#[trigger] s.drop_last()[i]).0 == k;
                assert(s[i].0 == k);
            } else {
                assert(s[s.len() - 1].0 == k);
            }
        } else {
            assert(forall|i: int| 0 <= i < s.drop_last().len() ==> s.drop_last()[i] == s[i]);
        }
    }
}

pub proof fn lemma_map_of_value(s: Seq<(Seq<char>, Seq<u8>)>, i: int)
    requires
        unique_paths(s),
        0 <= i < s.len(),
    ensures
        map_of(s).contains_key(s[i].0),
        map_of(s)[s[i].0] == s[i].1,
    decreases s.len(),
{
    if i == s.len() - 1 {
        lemma_map_of_contains(s, s[i].0);
    } else {
        assert(forall|a: int, b: int|
            0 <= a < b < s.drop_last().len() ==> (#[trigger] s.drop_last()[a]).0 != (
            #[trigger] s.drop_last()[b]).0);
        lemma_map_of_value(s.drop_last(), i);
        assert(s[i].0 != s.last().0);
    }
}

/// Replacing the digest at an existing path denotes an insert on the map.
pub proof fn lemma_map_of_update(s: Seq<(Seq<char>, Seq<u8>)>, i: int, v: Seq<u8>)
    requires
        unique_paths(s),
        0 <= i < s.len(),
    ensures
        map_of(s.update(i, (s[i].0, v))) == map_of(s).insert(s[i].0, v),
        unique_paths(s.update(i, (s[i].0, v))),
    decreases s.len(),
{
    let t = s.update(i, (s[i].0, v));
    assert(forall|a: int| 0 <= a < s.len() && a != i ==> t[a] == s[a]);
    if i == s.len() - 1 {
        assert(t.drop_last() =~= s.drop_last());
        assert(map_of(t) == map_of(s.drop_last()).insert(s[i].0, v));
        assert(map_of(s).insert(s[i].0, v) == map_of(s.drop_last()).insert(s[i].0, s[i].1).insert(
            s[i].0,
            v,
        ));
        assert(map_of(s.drop_last()).insert(s[i].0, s[i].1).insert(s[i].0, v) =~= map_of(
            s.drop_last(),
        ).insert(s[i].0, v));
    } else {
        assert(forall|a: int, b: int|
            0 <= a < b < s.drop_last().len() ==> (#[trigger] s.drop_last()[a]).0 != (
            #[trigger] s.drop_last()[b]).0);
        lemma_map_of_update(s.drop_last(), i, v);
        assert(t.drop_last() =~= s.drop_last().update(i, (s[i].0, v)));
        assert(t.last() == s.last());
        assert(map_of(t) == map_of(s.drop_last()).insert(s[i].0, v).insert(s.last().0, s.last().1));
        assert(s[i].0 != s.last().0);
        assert(map_of(s.drop_last()).insert(s[i].0, v).insert(s.last().0, s.last().1) =~= map_of(
            s.drop_last(),
        ).insert(s.last().0, s.last().1).insert(s[i].0, v));
    }
}

/// The Hash Store: path-to-digest entries plus the tracked location of the
/// store's own document on disk.
pub struct HashStorage {
    pub hashes: Vec<HashEntry>,
    pub dir_path: String,
}

/// Whether a change-detection call on map `m` reports `path` as modified
/// when the freshly observed digest is `digest`: any never-before-hashed
/// path counts as changed, as does any stored digest that differs.
pub open spec fn spec_changed(m: Map<Seq<char>, Seq<u8>>, path: Seq<char>, digest: Seq<u8>) -> bool {
    !(m.contains_key(path) && m[path] == digest)
}

/// The digest observed for a file: the SHA-256 of its content when it could
/// be read, and the empty digest when it could not.
pub open spec fn observed_digest(content: Option<&Vec<u8>>) -> Seq<u8> {
    match content {
        Some(b) => sha256_of(b@),
        None => Seq::<u8>::empty(),
    }
}

impl HashStorage {
    /// The entries as (path, digest) pairs, in storage order.
    pub open spec fn entries(&self) -> Seq<(Seq<char>, Seq<u8>)> {
        self.hashes@.map_values(|e: HashEntry| e.view())
    }

    /// The mapping the store holds.
    pub open spec fn as_map(&self) -> Map<Seq<char>, Seq<u8>> {
        map_of(self.entries())
    }

    /// Well-formed: no path occurs twice.
    pub open spec fn wf(&self) -> bool {
        unique_paths(self.entries())
    }

    /// An empty store that will persist at `dir_path`.
    pub fn empty(dir_path: String) -> (r: Self)
        ensures
            r.wf(),
            r.as_map() == Map::<Seq<char>, Seq<u8>>::empty(),
            r.hashes@.len() == 0,
            r.dir_path@ == dir_path@,
    {
        HashStorage { hashes: Vec::new(), dir_path }
    }

    fn find(&self, file_name: &str) -> (r: Option<usize>)
        ensures
            match r {
                Some(i) => i < self.hashes@.len() && self.entries()[i as int].0 == file_name@,
                None => forall|j: int|
                    0 <= j < self.hashes@.len() ==> (#[trigger] self.entries()[j]).0 != file_name@,
            },
    {
        let mut i: usize = 0;
        while i < self.hashes.len()
            invariant
                0 <= i <= self.hashes@.len(),
                forall|j: int| 0 <= j < i ==> (#[trigger] self.entries()[j]).0 != file_name@,
            decreases self.hashes@.len() - i,
        {
            if str_eq(self.hashes[i].path.as_str(), file_name) {
                return Some(i);
            }
            i += 1;
        }
        None
    }

    /// Records `hash` as the digest for `file_name`, replacing any previous
    /// digest for the same path.
    pub fn update_hash(&mut self, file_name: String, hash: Vec<u8>)
        requires
            old(self).wf(),
        ensures
            final(self).wf(),
            final(self).as_map() == old(self).as_map().insert(file_name@, hash@),
            final(self).dir_path@ == old(self).dir_path@,
    {
        let ghost s = self.entries();
        match self.find(file_name.as_str()) {
            Some(i) => {
                proof {
                    lemma_map_of_update(s, i as int, hash@);
                }
                let entry = HashEntry { path: file_name, digest: hash };
                let ghost e = entry.view();
                self.hashes[i] = entry;
                proof {
                    assert(self.entries() =~= s.update(i as int, (s[i as int].0, e.1)));
                }
            },
            None => {
                let entry = HashEntry { path: file_name, digest: hash };
                let ghost e = entry.view();
                self.hashes.push(entry);
                proof {
                    assert(self.entries() =~= s.push(e));
                    assert(s.push(e).drop_last() =~= s);
                    assert(map_of(s.push(e)) == map_of(s).insert(e.0, e.1));
                    assert forall|a: int, b: int| 0 <= a < b < s.push(e).len() implies (
                    #[trigger] s.push(e)[a]).0 != (#[trigger] s.push(e)[b]).0 by {
                        if b == s.len() as int {
                            assert(s.push(e)[a] == s[a]);
                        }
                    }
                }
            },
        }
    }

    /// The digest stored for `file_name`, or the empty digest when the path
    /// was never hashed.
    pub fn get_hash(&self, file_name: &str) -> (r: Vec<u8>)
        requires
            self.wf(),
        ensures
            self.as_map().contains_key(file_name@) ==> r@ == self.as_map()[file_name@],
            !self.as_map().contains_key(file_name@) ==> r@ == Seq::<u8>::empty(),
    {
        proof {
            lemma_map_of_contains(self.entries(), file_name@);
        }
        match self.find(file_name) {
            Some(i) => {
                proof {
                    lemma_map_of_value(self.entries(), i as int);
                }
                copy_bytes(&self.hashes[i].digest)
            },
            None => Vec::new(),
        }
    }

    /// The Change Detector: digests the observed content (empty when the
    /// file was unreadable), compares it with the stored digest, and on any
    /// difference — including a never-before-hashed path — records the new
    /// digest and reports a change. The caller persists the store when a
    /// change is reported.
    pub fn detect_change(&mut self, path: &str, content: Option<&Vec<u8>>) -> (changed: bool)
        requires
            old(self).wf(),
        ensures
            final(self).wf(),
            changed == spec_changed(old(self).as_map(), path@, observed_digest(content)),
            !old(self).as_map().contains_key(path@) ==> changed,
            changed ==> final(self).as_map() == old(self).as_map().insert(
                path@,
                observed_digest(content),
            ),
            changed && content is Some ==> final(self).as_map()[path@].len() == 32,
            !changed ==> *final(self) == *old(self),
            final(self).dir_path@ == old(self).dir_path@,
    {
        let digest: Vec<u8> = match content {
            Some(b) => conpute_hash(b.as_slice()),
            None => Vec::new(),
        };
        proof {
            lemma_map_of_contains(self.entries(), path@);
        }
        let same = match self.find(path) {
            Some(i) => {
                proof {
                    lemma_map_of_value(self.entries(), i as int);
                }
                byte_vec_eq(&self.hashes[i].digest, &digest)
            },
            None => false,
        };
        if same {
            false
        } else {
            self.update_hash(path.to_owned(), digest);
            true
        }
    }
}

/// Whether a change-detection call leaves the map it was given unchanged or
/// with the new digest recorded.
pub open spec fn after_detect(m: Map<Seq<char>, Seq<u8>>, path: Seq<char>, digest: Seq<u8>) -> Map<
    Seq<char>,
    Seq<u8>,
> {
    if spec_changed(m, path, digest) {
        m.insert(path, digest)
    } else {
        m
    }
}

/// Change detection is idempotent: whatever the first call on a path
/// reported, a second call with the same observed content reports no
/// change; and a never-before-hashed path is always reported as changed by
/// the first call.
pub proof fn lemma_detect_change_idempotent(
    m: Map<Seq<char>, Seq<u8>>,
    path: Seq<char>,
    digest: Seq<u8>,
)
    ensures
        !m.contains_key(path) ==> spec_changed(m, path, digest),
        !spec_changed(after_detect(m, path, digest), path, digest),
        after_detect(after_detect(m, path, digest), path, digest) == after_detect(m, path, digest),
{
}

pub(crate) fn copy_bytes(v: &Vec<u8>) -> (r: Vec<u8>)
    ensures
        r@ == v@,
{
    let mut out: Vec<u8> = Vec::new();
    let mut i: usize = 0;
    while i < v.len()
        invariant
            0 <= i <= v@.len(),
            out@ == v@.subrange(0, i as int),
        decreases v@.len() - i,
    {
        out.push(v[i]);
        proof {
            assert(v@.subrange(0, i as int + 1) =~= v@.subrange(0, i as int).push(v@[i as int]));
        }
        i += 1;
    }
    proof {
        assert(v@.subrange(0, v@.len() as int) =~= v@);
    }
    out
}

fn byte_vec_eq(a: &Vec<u8>, b: &Vec<u8>) -> (r: bool)
    ensures
        r == (a@ == b@),
{
    if a.len() != b.len() {
        return false;
    }
    let mut i: usize = 0;
    while i < a.len()
        invariant
            a@.len() == b@.len(),
            0 <= i <= a@.len(),
            forall|j: int| 0 <= j < i ==> a@[j] == b@[j],
        decreases a@.len() - i,
    {
        if a[i] != b[i] {
            return false;
        }
        i += 1;
    }
    proof {
        assert(a@ =~= b@);
    }
    true
}

} // verus!
