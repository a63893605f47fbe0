//! An explicit model of the slice of the file system that the
//! transactional patcher touches: a flat set of files, each with a path,
//! current contents, and a read-only flag. The patcher is implemented
//! and verified against this model; the surrounding application performs
//! the same steps against the real file system.

use vstd::prelude::*;
use vstd::pervasive::VecAdditionalExecFns;
use vstd::string::*;

use crate::text::str_equal;
use crate::Error;

verus! {

/// One file of the volume.
pub struct VFile {
    pub path: String,
    pub contents: String,
    pub read_only: bool,
}

/// A flat collection of files with distinct paths.
pub struct Volume {
    pub files: Vec<VFile>,
}

impl Volume {
    /// Paths are distinct.
    pub open spec fn wf(self) -> bool {
        forall|i: int, j: int|
            0 <= i < j < self.files@.len() ==> (#[trigger] self.files@[i]).path@ != (
            #[trigger] self.files@[j]).path@
    }

    /// Whether a file with this path exists.
    pub open spec fn has(self, p: Seq<char>) -> bool {
        exists|i: int| 0 <= i < self.files@.len() && (#[trigger] self.files@[i]).path@ == p
    }

    /// The index of the file with this path.
    pub open spec fn idx_of(self, p: Seq<char>) -> int {
        choose|i: int| 0 <= i < self.files@.len() && (#[trigger] self.files@[i]).path@ == p
    }

    /// The contents of the file with this path.
    pub open spec fn contents_of(self, p: Seq<char>) -> Seq<char> {
        self.files@[self.idx_of(p)].contents@
    }

    /// Whether the file with this path is read-only.
    pub open spec fn read_only_of(self, p: Seq<char>) -> bool {
        self.files@[self.idx_of(p)].read_only
    }

    /// An empty volume.
    pub fn new() -> (r: Volume)
        ensures
            r.wf(),
            forall|p: Seq<char>| !r.has(p),
    {
        Volume { files: Vec::new() }
    }

    /// The index of the file with this path, if any.
    fn find(&self, path: &str) -> (r: Option<usize>)
        ensures
            match r {
                Some(i) => i < self.files@.len() && self.files@[i as int].path@ == path@
                    && self.has(path@) && (self.wf() ==> i == self.idx_of(path@)),
                None => !self.has(path@),
            },
    {
        let n = self.files.len();
        let mut i: usize = 0;
        while i < n
            invariant
                n == self.files@.len(),
                0 <= i <= n,
                forall|k: int| 0 <= k < i ==> (#[trigger] self.files@[k]).path@ != path@,
            decreases n - i,
        {
            if str_equal(self.files[i].path.as_str(), path) {
                proof {
                    if self.wf() {
                        let j = self.idx_of(path@);
                        assert(self.files@[j].path@ == path@);
                        if i < j {
                            assert(self.files@[i as int].path@ != self.files@[j].path@);
                        }
                        if j < i {
                            assert(self.files@[j].path@ != self.files@[i as int].path@);
                        }
                    }
                }
                return Some(i);
            }
            i = i + 1;
        }
        assert(!self.has(path@));
        None
    }

    /// Whether a file with this path exists.
    pub fn file_exists(&self, path: &str) -> (r: bool)
        ensures
            r == self.has(path@),
    {
        self.find(path).is_some()
    }

    /// The contents of the file with this path, if it exists.
    pub fn read(&self, path: &str) -> (r: Option<String>)
        requires
            self.wf(),
        ensures
            match r {
                Some(c) => self.has(path@) && c@ == self.contents_of(path@),
                None => !self.has(path@),
            },
    {
        match self.find(path) {
            Some(i) => Some(self.files[i].contents.clone()),
            None => None,
        }
    }

    /// Whether the file with this path is read-only; a missing file is
    /// not.
    pub fn is_read_only(&self, path: &str) -> (r: bool)
        requires
            self.wf(),
        ensures
            r == (self.has(path@) && self.read_only_of(path@)),
    {
        match self.find(path) {
            Some(i) => self.files[i].read_only,
            None => false,
        }
    }

    /// Add a file to the volume, for building an initial state; fails
    /// when the path is already taken.
    pub fn add_file(&mut self, path: &str, contents: &str, read_only: bool) -> (r: bool)
        requires
            old(self).wf(),
        ensures
            final(self).wf(),
            r == !old(self).has(path@),
            r ==> final(self).has(path@) && final(self).contents_of(path@) == contents@
                && final(self).read_only_of(path@) == read_only,
            r ==> forall|q: Seq<char>| q != path@ ==> agrees_on(*old(self), *final(self), q),
            !r ==> *final(self) == *old(self),
    {
        match self.find(path) {
            Some(_) => false,
            None => {
                let f = VFile {
                    path: String::from_str(path),
                    contents: String::from_str(contents),
                    read_only,
                };
                self.files.push(f);
                proof {
                    let n = old(self).files@.len() as int;
                    assert(self.files@[n].path@ == path@);
                    assert(forall|k: int| 0 <= k < n ==> self.files@[k] == old(self).files@[k]);
                    assert(self.wf());
                    assert(self.idx_of(path@) == n) by {
                        let j = self.idx_of(path@);
                        assert(self.has(path@));
                        if j < n {
                            assert(old(self).files@[j].path@ == path@);
                            assert(old(self).has(path@));
                        }
                    }
                    assert forall|q: Seq<char>| q != path@ implies agrees_on(
                        *old(self),
                        *self,
                        q,
                    ) by {
                        lemma_push_agrees(*old(self), *self, path@, q);
                    }
                }
                true
            },
        }
    }

    /// Create or truncate the file at this path with the given
    /// contents, as the real file system's create call does; fails when
    /// an existing file there is read-only.
    pub fn create(&mut self, path: &str, contents: &str) -> (r: Result<(), Error>)
        requires
            old(self).wf(),
        ensures
            final(self).wf(),
            match r {
                Ok(_) => {
                    &&& !(old(self).has(path@) && old(self).read_only_of(path@))
                    &&& final(self).has(path@)
                    &&& final(self).contents_of(path@) == contents@
                    &&& final(self).read_only_of(path@) == false
                    &&& forall|q: Seq<char>| q != path@ ==> agrees_on(*old(self), *final(self), q)
                },
                Err(_) => {
                    &&& old(self).has(path@) && old(self).read_only_of(path@)
                    &&& *final(self) == *old(self)
                },
            },
    {
        match self.find(path) {
            Some(i) => {
                if self.files[i].read_only {
                    return Err(Error::Io(String::from_str("failed to create file")));
                }
                let f = VFile {
                    path: String::from_str(path),
                    contents: String::from_str(contents),
                    read_only: false,
                };
                let ghost prev = *self;
                self.files.set(i, f);
                proof {
                    assert(self.files@[i as int].path@ == path@);
                    assert(forall|k: int|
                        0 <= k < self.files@.len() && k != i ==> self.files@[k] == prev.files@[k]);
                    assert forall|k: int|
                        0 <= k < self.files@.len() implies (#[trigger] self.files@[k]).path@
                        == prev.files@[k].path@ by {}
                    assert(self.wf());
                    lemma_update_same_paths(prev, *self, path@, i as int);
                }
                Ok(())
            },
            None => {
                let f = VFile {
                    path: String::from_str(path),
                    contents: String::from_str(contents),
                    read_only: false,
                };
                let ghost prev = *self;
                self.files.push(f);
                proof {
                    let n = prev.files@.len() as int;
                    assert(self.files@[n].path@ == path@);
                    assert(forall|k: int| 0 <= k < n ==> self.files@[k] == prev.files@[k]);
                    assert(self.wf());
                    assert(self.idx_of(path@) == n) by {
                        let j = self.idx_of(path@);
                        assert(self.has(path@));
                        if j < n {
                            assert(prev.files@[j].path@ == path@);
                            assert(prev.has(path@));
                        }
                    }
                    assert forall|q: Seq<char>| q != path@ implies agrees_on(prev, *self, q) by {
                        lemma_push_agrees(prev, *self, path@, q);
                    }
                }
                Ok(())
            },
        }
    }

    /// Remove the file at this path; fails when it does not exist.
    pub fn remove(&mut self, path: &str) -> (r: Result<(), Error>)
        requires
            old(self).wf(),
        ensures
            final(self).wf(),
            match r {
                Ok(_) => {
                    &&& old(self).has(path@)
                    &&& !final(self).has(path@)
                    &&& forall|q: Seq<char>| q != path@ ==> agrees_on(*old(self), *final(self), q)
                },
                Err(_) => {
                    &&& !old(self).has(path@)
                    &&& *final(self) == *old(self)
                },
            },
    {
        match self.find(path) {
            Some(i) => {
                let ghost prev = *self;
                self.files.remove(i);
                proof {
                    lemma_remove_agrees(prev, *self, path@, i as int);
                }
                Ok(())
            },
            None => Err(Error::Io(String::from_str("failed to remove file"))),
        }
    }
}

/// The two volumes agree about the path `q`: present in one exactly
/// when present in the other, with the same contents and flag.
pub open spec fn agrees_on(v1: Volume, v2: Volume, q: Seq<char>) -> bool {
    &&& v1.has(q) == v2.has(q)
    &&& v1.has(q) ==> v1.contents_of(q) == v2.contents_of(q) && v1.read_only_of(q)
        == v2.read_only_of(q)
}

/// After pushing a file with a fresh path, every other path reads as
/// before.
proof fn lemma_push_agrees(v1: Volume, v2: Volume, p: Seq<char>, q: Seq<char>)
    requires
        v1.wf(),
        v2.wf(),
        v2.files@.len() == v1.files@.len() + 1,
        forall|k: int| 0 <= k < v1.files@.len() ==> v2.files@[k] == v1.files@[k],
        v2.files@[v1.files@.len() as int].path@ == p,
        q != p,
    ensures
        agrees_on(v1, v2, q),
{
    let n = v1.files@.len() as int;
    if v1.has(q) {
        let i = v1.idx_of(q);
        assert(v2.files@[i].path@ == q);
        assert(v2.has(q));
        assert(v2.idx_of(q) == i) by {
            let j = v2.idx_of(q);
            assert(v2.files@[j].path@ == q);
            if i < j {
                assert(v2.files@[i].path@ != v2.files@[j].path@);
            }
            if j < i {
                assert(v2.files@[j].path@ != v2.files@[i].path@);
            }
        }
    }
    if v2.has(q) {
        let i = v2.idx_of(q);
        assert(v2.files@[i].path@ == q);
        assert(i != n);
        assert(v1.files@[i].path@ == q);
        assert(v1.has(q));
    }
}

/// After updating the file at index `i` (whose path is `p`) in place,
/// every other path reads as before.
proof fn lemma_update_same_paths(v1: Volume, v2: Volume, p: Seq<char>, i: int)
    requires
        v1.wf(),
        v2.wf(),
        v2.files@.len() == v1.files@.len(),
        0 <= i < v1.files@.len(),
        v1.files@[i].path@ == p,
        v2.files@[i].path@ == p,
        forall|k: int| 0 <= k < v1.files@.len() && k != i ==> v2.files@[k] == v1.files@[k],
    ensures
        forall|q: Seq<char>| q != p ==> agrees_on(v1, v2, q),
{
    assert forall|q: Seq<char>| q != p implies agrees_on(v1, v2, q) by {
        if v1.has(q) {
            let k = v1.idx_of(q);
            assert(v1.files@[k].path@ == q);
            assert(k != i);
            assert(v2.files@[k].path@ == q);
            assert(v2.has(q));
            assert(v2.idx_of(q) == k) by {
                let j = v2.idx_of(q);
                assert(v2.files@[j].path@ == q);
                if k < j {
                    assert(v2.files@[k].path@ != v2.files@[j].path@);
                }
                if j < k {
                    assert(v2.files@[j].path@ != v2.files@[k].path@);
                }
            }
        }
        if v2.has(q) {
            let k = v2.idx_of(q);
            assert(v2.files@[k].path@ == q);
            assert(k != i);
            assert(v1.files@[k].path@ == q);
            assert(v1.has(q));
        }
    }
}

/// After removing the file at index `i` (whose path is `p`), the path
/// is gone and every other path reads as before.
proof fn lemma_remove_agrees(v1: Volume, v2: Volume, p: Seq<char>, i: int)
    requires
        v1.wf(),
        0 <= i < v1.files@.len(),
        v1.files@[i].path@ == p,
        v2.files@ == v1.files@.remove(i),
    ensures
        v2.wf(),
        !v2.has(p),
        forall|q: Seq<char>| q != p ==> agrees_on(v1, v2, q),
{
    let n = v1.files@.len() as int;
    assert(v2.files@.len() == n - 1);
    assert(forall|k: int| 0 <= k < i ==> v2.files@[k] == v1.files@[k]);
    assert(forall|k: int| i <= k < n - 1 ==> v2.files@[k] == v1.files@[k + 1]);
    assert(v2.wf()) by {
        assert forall|a: int, b: int|
            0 <= a < b < v2.files@.len() implies (#[trigger] v2.files@[a]).path@ != (
        #[trigger] v2.files@[b]).path@ by {
            let a1 = if a < i { a } else { a + 1 };
            let b1 = if b < i { b } else { b + 1 };
            assert(v2.files@[a] == v1.files@[a1]);
            assert(v2.files@[b] == v1.files@[b1]);
            assert(v1.files@[a1].path@ != v1.files@[b1].path@);
        }
    }
    assert(!v2.has(p)) by {
        if v2.has(p) {
            let k = v2.idx_of(p);
            assert(v2.files@[k].path@ == p);
            let k1 = if k < i { k } else { k + 1 };
            assert(v1.files@[k1].path@ == p);
            assert(k1 != i);
            if k1 < i {
                assert(v1.files@[k1].path@ != v1.files@[i].path@);
            } else {
                assert(v1.files@[i].path@ != v1.files@[k1].path@);
            }
        }
    }
    assert forall|q: Seq<char>| q != p implies agrees_on(v1, v2, q) by {
        if v1.has(q) {
            let k = v1.idx_of(q);
            assert(v1.files@[k].path@ == q);
            assert(k != i);
            let k2 = if k < i { k } else { k - 1 };
            assert(v2.files@[k2] == v1.files@[k]);
            assert(v2.has(q));
            assert(v2.idx_of(q) == k2) by {
                let j = v2.idx_of(q);
                assert(v2.files@[j].path@ == q);
                if k2 < j {
                    assert(v2.files@[k2].path@ != v2.files@[j].path@);
                }
                if j < k2 {
                    assert(v2.files@[j].path@ != v2.files@[k2].path@);
                }
            }
        }
        if v2.has(q) {
            let k = v2.idx_of(q);
            assert(v2.files@[k].path@ == q);
            let k1 = if k < i { k } else { k + 1 };
            assert(v1.files@[k1].path@ == q);
            assert(v1.has(q));
        }
    }
}

} // verus!
