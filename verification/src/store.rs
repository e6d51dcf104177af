use vstd::prelude::*;

verus! {

/// The flat-file store: a set of named entries, each holding a whole byte
/// buffer. A name occurs at most once. The store is viewed abstractly as a
/// map from names (sequences of characters) to contents (sequences of
/// bytes); every operation's contract is stated against that map.
///
/// Reads and writes move whole buffers only, so two writers racing on one
/// name leave it holding one buffer in full, never a mix of both.
pub struct FileStore {
    entries: Vec<(String, Vec<u8>)>,
}

impl View for FileStore {
    type V = Map<Seq<char>, Seq<u8>>;

    closed spec fn view(&self) -> Map<Seq<char>, Seq<u8>> {
        Map::new(
            |name: Seq<char>| self.contains_name(name),
            |name: Seq<char>| self.entries@[self.index_of(name)].1@,
        )
    }
}

impl FileStore {
    /// Well-formed: no name occurs twice among the entries.
    pub closed spec fn wf(&self) -> bool {
        forall|i: int, j: int|
            0 <= i < j < self.entries@.len() ==> self.entries@[i].0@ != self.entries@[j].0@
    }

    spec fn contains_name(&self, name: Seq<char>) -> bool {
        exists|i: int| 0 <= i < self.entries@.len() && self.entries@[i].0@ == name
    }

    spec fn index_of(&self, name: Seq<char>) -> int {
        choose|i: int| 0 <= i < self.entries@.len() && self.entries@[i].0@ == name
    }

    /// The entry at a valid index is in the view, under its own name.
    proof fn lemma_entry_in_view(&self, i: int)
        requires
            self.wf(),
            0 <= i < self.entries@.len(),
        ensures
            self@.dom().contains(self.entries@[i].0@),
            self@[self.entries@[i].0@] == self.entries@[i].1@,
    {
        let name = self.entries@[i].0@;
        assert(self.contains_name(name));
        let j = self.index_of(name);
        assert(0 <= j < self.entries@.len() && self.entries@[j].0@ == name);
        if j < i {
            assert(self.entries@[j].0@ != self.entries@[i].0@);
        } else if i < j {
            assert(self.entries@[i].0@ != self.entries@[j].0@);
        }
        assert(j == i);
    }

    /// Pushing an entry under a fresh name inserts it into the view.
    proof fn lemma_push_entry(pre: FileStore, post: FileStore, e: (String, Vec<u8>))
        requires
            pre.wf(),
            !pre.contains_name(e.0@),
            post.entries@ == pre.entries@.push(e),
        ensures
            post.wf(),
            post@ =~= pre@.insert(e.0@, e.1@),
    {
        let n = pre.entries@.len() as int;
        assert forall|i: int, j: int|
            0 <= i < j < post.entries@.len() implies post.entries@[i].0@
            != post.entries@[j].0@ by {
            if j < n {
                assert(pre.entries@[i].0@ != pre.entries@[j].0@);
            } else {
                assert(post.entries@[j] == e);
                assert(post.entries@[i] == pre.entries@[i]);
                assert(!pre.contains_name(e.0@));
                assert(pre.entries@[i].0@ != e.0@);
            }
        }
        assert forall|k: Seq<char>| true implies #[trigger] post@.dom().contains(k)
            == pre@.insert(e.0@, e.1@).dom().contains(k) by {
            if k == e.0@ {
                assert(post.entries@[n].0@ == k);
                assert(post.contains_name(k));
            } else {
                if post.contains_name(k) {
                    let i = choose|i: int|
                        0 <= i < post.entries@.len() && post.entries@[i].0@ == k;
                    assert(i < n);
                    assert(pre.entries@[i].0@ == k);
                    assert(pre.contains_name(k));
                }
                if pre.contains_name(k) {
                    let i = choose|i: int|
                        0 <= i < pre.entries@.len() && pre.entries@[i].0@ == k;
                    assert(post.entries@[i].0@ == k);
                    assert(post.contains_name(k));
                }
            }
        }
        assert forall|k: Seq<char>| post@.dom().contains(k) implies #[trigger] post@[k]
            == pre@.insert(e.0@, e.1@)[k] by {
            if k == e.0@ {
                assert(post.entries@[n].0@ == k);
                post.lemma_entry_in_view(n);
            } else {
                let i = choose|i: int| 0 <= i < post.entries@.len() && post.entries@[i].0@ == k;
                assert(i < n);
                post.lemma_entry_in_view(i);
                pre.lemma_entry_in_view(i);
            }
        }
    }

    /// Removing the entry at a valid index removes its name from the view.
    proof fn lemma_remove_entry(pre: FileStore, post: FileStore, r: int)
        requires
            pre.wf(),
            0 <= r < pre.entries@.len(),
            post.entries@ == pre.entries@.remove(r),
        ensures
            post.wf(),
            post@ =~= pre@.remove(pre.entries@[r].0@),
    {
        let name = pre.entries@[r].0@;
        assert forall|i: int|
            0 <= i < post.entries@.len() implies post.entries@[i] == (if i < r {
            pre.entries@[i]
        } else {
            pre.entries@[i + 1]
        }) by {}
        assert forall|i: int, j: int|
            0 <= i < j < post.entries@.len() implies post.entries@[i].0@
            != post.entries@[j].0@ by {
            let pi: int = if i < r { i } else { i + 1 };
            let pj: int = if j < r { j } else { j + 1 };
            assert(pre.entries@[pi].0@ != pre.entries@[pj].0@);
        }
        assert forall|k: Seq<char>| true implies #[trigger] post@.dom().contains(k)
            == pre@.remove(name).dom().contains(k) by {
            if k == name {
                if post.contains_name(k) {
                    let i = choose|i: int|
                        0 <= i < post.entries@.len() && post.entries@[i].0@ == k;
                    let pi: int = if i < r { i } else { i + 1 };
                    assert(pre.entries@[pi].0@ == k);
                    if pi < r {
                        assert(pre.entries@[pi].0@ != pre.entries@[r].0@);
                    } else {
                        assert(pre.entries@[r].0@ != pre.entries@[pi].0@);
                    }
                    assert(false);
                }
            } else {
                if post.contains_name(k) {
                    let i = choose|i: int|
                        0 <= i < post.entries@.len() && post.entries@[i].0@ == k;
                    let pi: int = if i < r { i } else { i + 1 };
                    assert(pre.entries@[pi].0@ == k);
                    assert(pre.contains_name(k));
                }
                if pre.contains_name(k) {
                    let i = choose|i: int|
                        0 <= i < pre.entries@.len() && pre.entries@[i].0@ == k;
                    assert(i != r);
                    let qi: int = if i < r { i } else { i - 1 };
                    assert(post.entries@[qi].0@ == k);
                    assert(post.contains_name(k));
                }
            }
        }
        assert forall|k: Seq<char>| post@.dom().contains(k) implies #[trigger] post@[k]
            == pre@.remove(name)[k] by {
            let i = choose|i: int| 0 <= i < post.entries@.len() && post.entries@[i].0@ == k;
            let pi: int = if i < r { i } else { i + 1 };
            assert(pre.entries@[pi].0@ == k);
            post.lemma_entry_in_view(i);
            pre.lemma_entry_in_view(pi);
        }
    }

    /// An empty store: no entries, empty view.
    pub fn new() -> (store: FileStore)
        ensures
            store.wf(),
            store@ =~= Map::<Seq<char>, Seq<u8>>::empty(),
    {
        let store = FileStore { entries: Vec::new() };
        proof {
            assert forall|k: Seq<char>| !(#[trigger] store@.dom().contains(k)) by {
                if store.contains_name(k) {
                    let i = choose|i: int|
                        0 <= i < store.entries@.len() && store.entries@[i].0@ == k;
                    assert(false);
                }
            }
        }
        store
    }

    /// The index of the entry named `filename`, if one exists.
    fn find_index(&self, filename: &String) -> (r: Option<usize>)
        ensures
            match r {
                Some(i) => i < self.entries@.len() && self.entries@[i as int].0@ == filename@,
                None => !self.contains_name(filename@),
            },
    {
        let n = self.entries.len();
        let mut i: usize = 0;
        while i < n
            invariant
                n == self.entries@.len(),
                i <= n,
                forall|j: int| 0 <= j < i ==> self.entries@[j].0@ != filename@,
            decreases n - i,
        {
            if self.entries[i].0 == *filename {
                return Some(i);
            }
            i = i + 1;
        }
        None
    }

    /// Remove the entry named `filename`. Succeeds exactly when the name is
    /// present; an absent name is the one failure this store can report, and
    /// it maps to the not-found outcome at the boundary.
    pub fn delete(&mut self, filename: &String) -> (deleted: bool)
        requires
            old(self).wf(),
        ensures
            final(self).wf(),
            deleted == old(self)@.dom().contains(filename@),
            deleted ==> final(self)@ == old(self)@.remove(filename@),
            !deleted ==> final(self)@ == old(self)@,
    {
        match self.find_index(filename) {
            Some(i) => {
                proof {
                    self.lemma_entry_in_view(i as int);
                }
                let ghost pre = *self;
                self.entries.remove(i);
                proof {
                    FileStore::lemma_remove_entry(pre, *self, i as int);
                }
                true
            },
            None => false,
        }
    }

    /// Read the whole contents of the entry named `filename`, or report the
    /// absent-name failure.
    pub fn read_file_contents(&self, filename: &String) -> (r: Option<Vec<u8>>)
        requires
            self.wf(),
        ensures
            match r {
                Some(contents) => self@.dom().contains(filename@) && contents@
                    == self@[filename@],
                None => !self@.dom().contains(filename@),
            },
    {
        match self.find_index(filename) {
            Some(i) => {
                let contents = clone_bytes(&self.entries[i].1);
                proof {
                    self.lemma_entry_in_view(i as int);
                }
                Some(contents)
            },
            None => None,
        }
    }

    /// Write `contents` as the whole new contents of the entry named
    /// `filename`, creating the entry or replacing what it held before.
    pub fn write(&mut self, filename: &String, contents: &Vec<u8>)
        requires
            old(self).wf(),
        ensures
            final(self).wf(),
            final(self)@ =~= old(self)@.insert(filename@, contents@),
    {
        let _deleted = self.delete(filename);
        let ghost mid = *self;
        let e = (filename.clone(), clone_bytes(contents));
        proof {
            if mid.contains_name(filename@) {
                let i = choose|i: int|
                    0 <= i < mid.entries@.len() && mid.entries@[i].0@ == filename@;
                mid.lemma_entry_in_view(i);
                assert(mid@.dom().contains(filename@));
                assert(false);
            }
        }
        self.entries.push(e);
        proof {
            FileStore::lemma_push_entry(mid, *self, e);
        }
    }

    /// Create the entry named `filename` with empty contents, but only if no
    /// entry of that name exists: the atomic exclusive-create primitive.
    /// There is no separate check-then-create step to race against.
    pub fn create_new(&mut self, filename: &String) -> (created: bool)
        requires
            old(self).wf(),
        ensures
            final(self).wf(),
            created == !old(self)@.dom().contains(filename@),
            created ==> final(self)@ == old(self)@.insert(filename@, Seq::<u8>::empty()),
            !created ==> final(self)@ == old(self)@,
    {
        match self.find_index(filename) {
            Some(i) => {
                proof {
                    self.lemma_entry_in_view(i as int);
                }
                false
            },
            None => {
                let ghost pre = *self;
                let e = (filename.clone(), Vec::<u8>::new());
                self.entries.push(e);
                proof {
                    FileStore::lemma_push_entry(pre, *self, e);
                }
                true
            },
        }
    }
}

/// A clone of a byte buffer holds the same bytes.
fn clone_bytes(v: &Vec<u8>) -> (r: Vec<u8>)
    ensures
        r@ == v@,
{
    let r = v.clone();
    proof {
        assert forall|i: int| 0 <= i < v@.len() implies r@[i] == v@[i] by {
            assert(cloned::<u8>(v@[i], r@[i]));
        }
        assert(r@ =~= v@);
    }
    r
}

} // verus!
