use vstd::prelude::*;
use crate::envelope::{L_IV, L_KEY, gen_key, name_hash, name_hash_of, signature, signature_of};
use crate::envelope::str_eq;
use crate::error::SyncError;

verus! {

/// What the image records of one synchronised file.
#[derive(Clone, Debug)]
pub struct Metadata {
    /// Path of the file relative to the working-tree root.
    pub name: String,
    /// Keyed hash of `name`: the name of the file's blob.
    pub namehash: String,
    /// Modification time (UNIX seconds) of the working-tree file when it was
    /// last synchronised.
    pub modified: u64,
    /// Time (UNIX seconds) at which the content last changed.
    pub actually_modified: u64,
    /// Keyed hash of the plaintext.
    pub signature: String,
    /// IV used for the blob's encryption.
    pub iv: [u8; L_IV],
}

impl Metadata {
    /// A copy of this entry.
    pub fn copy(&self) -> (r: Metadata)
        ensures
            r == *self,
    {
        Metadata {
            name: self.name.clone(),
            namehash: self.namehash.clone(),
            modified: self.modified,
            actually_modified: self.actually_modified,
            signature: self.signature.clone(),
            iv: self.iv,
        }
    }

    /// A copy of this entry with `modified` replaced.
    pub fn with_modified(&self, modified: u64) -> (r: Metadata)
        ensures
            r.name@ == self.name@,
            r.namehash@ == self.namehash@,
            r.modified == modified,
            r.actually_modified == self.actually_modified,
            r.signature@ == self.signature@,
            r.iv == self.iv,
    {
        Metadata {
            name: self.name.clone(),
            namehash: self.namehash.clone(),
            modified,
            actually_modified: self.actually_modified,
            signature: self.signature.clone(),
            iv: self.iv,
        }
    }
}

/// The entry that a push of `content` from the file `name` records.
pub open spec fn pushed_entry(m: Metadata, name: Seq<char>, key: Seq<u8>, content: Seq<u8>, iv: Seq<u8>, mtime: u64) -> bool {
    &&& m.name@ == name
    &&& m.namehash@ == name_hash_of(name, key)
    &&& m.modified == mtime
    &&& m.actually_modified == mtime
    &&& m.signature@ == signature_of(content, key)
    &&& m.iv@ == iv
}

/// The entry that a pull of the remote entry `r` records: `r` with the
/// modification time of the file just written.
pub open spec fn pulled_entry(m: Metadata, r: Metadata, mtime: u64) -> bool {
    &&& m.name@ == r.name@
    &&& m.namehash@ == r.namehash@
    &&& m.modified == mtime
    &&& m.actually_modified == r.actually_modified
    &&& m.signature@ == r.signature@
    &&& m.iv == r.iv
}

/// The manifest of the synchronised files.
#[derive(Clone, Debug)]
pub struct Image {
    /// Time (UNIX seconds) of the last change of this image.
    pub last_update: u64,
    /// The name-hash key.
    pub siphashkey: [u8; L_KEY],
    /// One entry per file.
    pub filesystem: Vec<Metadata>,
}

/// The first index at which `fs` holds an entry named `name`.
pub open spec fn index_of(fs: Seq<Metadata>, name: Seq<char>) -> Option<int> {
    if exists|i: int| 0 <= i < fs.len() && fs[i].name@ == name {
        Some(choose|i: int| 0 <= i < fs.len() && fs[i].name@ == name && forall|j: int| 0 <= j < i ==> fs[j].name@ != name)
    } else {
        None
    }
}

/// Where an entry named `name` goes: its current index, or the end.
pub open spec fn slot(fs: Seq<Metadata>, name: Seq<char>) -> int {
    match index_of(fs, name) {
        Some(i) => i,
        None => fs.len() as int,
    }
}

/// `after` is `before` with the slot of `name` (replaced or appended) holding `e`.
pub open spec fn placed(before: Seq<Metadata>, after: Seq<Metadata>, name: Seq<char>, e: Metadata) -> bool {
    let k = slot(before, name);
    &&& after.len() == if index_of(before, name) is Some { before.len() } else { before.len() + 1 }
    &&& forall|j: int| 0 <= j < before.len() && j != k ==> after[j] == before[j]
    &&& after[k] == e
}

/// Facts on `index_of` that the image's operations use.
pub(crate) proof fn lemma_index_of(fs: Seq<Metadata>, name: Seq<char>)
    ensures
        index_of(fs, name) is Some ==> {
            let i = index_of(fs, name)->0;
            0 <= i < fs.len() && fs[i].name@ == name
        },
        index_of(fs, name) is None ==> forall|j: int| 0 <= j < fs.len() ==> fs[j].name@ != name,
{
    if exists|i: int| 0 <= i < fs.len() && fs[i].name@ == name {
        let i0 = choose|i: int| 0 <= i < fs.len() && fs[i].name@ == name;
        lemma_first_index(fs, name, i0);
    }
}

/// If `name` occurs at `i0`, a first occurrence exists.
proof fn lemma_first_index(fs: Seq<Metadata>, name: Seq<char>, i0: int)
    requires
        0 <= i0 < fs.len(),
        fs[i0].name@ == name,
    ensures
        exists|i: int| 0 <= i < fs.len() && fs[i].name@ == name && forall|j: int| 0 <= j < i ==> fs[j].name@ != name,
    decreases i0,
{
    if exists|j: int| 0 <= j < i0 && fs[j].name@ == name {
        let j = choose|j: int| 0 <= j < i0 && fs[j].name@ == name;
        lemma_first_index(fs, name, j);
    } else {
        assert(0 <= i0 < fs.len() && fs[i0].name@ == name && forall|j: int| 0 <= j < i0 ==> fs[j].name@ != name);
    }
}

impl Image {
    /// The names of the entries.
    pub open spec fn names(&self) -> Seq<Seq<char>> {
        self.filesystem@.map_values(|m: Metadata| m.name@)
    }

    /// The blob names of the entries.
    pub open spec fn hashes(&self) -> Seq<Seq<char>> {
        self.filesystem@.map_values(|m: Metadata| m.namehash@)
    }

    /// No two entries share a name, and every blob name is the hash of its
    /// entry's name under the image's key.
    pub open spec fn wf(&self) -> bool {
        &&& forall|i: int, j: int| 0 <= i < j < self.filesystem@.len()
            ==> self.filesystem@[i].name@ != self.filesystem@[j].name@
        &&& forall|i: int| 0 <= i < self.filesystem@.len()
            ==> (#[trigger] self.filesystem@[i]).namehash@ == name_hash_of(self.filesystem@[i].name@, self.siphashkey@)
    }

    /// An empty image under the name-hash key `siphashkey`.
    pub fn with_key(siphashkey: [u8; L_KEY]) -> (r: Image)
        ensures
            r.filesystem@.len() == 0,
            r.last_update == 0,
            r.siphashkey == siphashkey,
            r.wf(),
    {
        Image { last_update: 0, siphashkey, filesystem: Vec::new() }
    }

    /// An empty image under a fresh random name-hash key.
    pub fn new() -> (r: Result<Image, SyncError>)
        ensures
            r is Ok ==> r->Ok_0.filesystem@.len() == 0 && r->Ok_0.last_update == 0 && r->Ok_0.wf(),
            r is Err ==> r->Err_0 == SyncError::Crypto,
    {
        let key = gen_key()?;
        Ok(Image::with_key(key))
    }

    /// The index of the entry named `fname`, if there is one.
    pub fn get_index(&self, fname: &str) -> (r: Option<usize>)
        ensures
            r is Some ==> r->0 < self.filesystem@.len() && self.filesystem@[r->0 as int].name@ == fname@,
            r is None <==> index_of(self.filesystem@, fname@) is None,
            r is Some ==> index_of(self.filesystem@, fname@) == Some(r->0 as int),
    {
        let mut i: usize = 0;
        while i < self.filesystem.len()
            invariant
                i <= self.filesystem@.len(),
                forall|j: int| 0 <= j < i ==> self.filesystem@[j].name@ != fname@,
            decreases self.filesystem@.len() - i,
        {
            if str_eq(fname, self.filesystem[i].name.as_str()) {
                proof {
                    let fs = self.filesystem@;
                    assert(0 <= i < fs.len() && fs[i as int].name@ == fname@);
                    let k = choose|k: int| 0 <= k < fs.len() && fs[k].name@ == fname@ && forall|j: int| 0 <= j < k ==> fs[j].name@ != fname@;
                    assert(0 <= i < fs.len() && fs[i as int].name@ == fname@ && forall|j: int| 0 <= j < i ==> fs[j].name@ != fname@);
                    if k < i {
                        assert(fs[k].name@ != fname@);
                    } else if k > i {
                        assert(fs[i as int].name@ != fname@);
                    }
                }
                return Some(i);
            }
            i = i + 1;
        }
        None
    }

    /// Puts `e` at the slot of its name: over the entry of that name, or at the end.
    fn place(&mut self, e: Metadata)
        ensures
            placed(old(self).filesystem@, final(self).filesystem@, e.name@, e),
            final(self).siphashkey == old(self).siphashkey,
            final(self).last_update == old(self).last_update,
            old(self).wf() && e.namehash@ == name_hash_of(e.name@, old(self).siphashkey@) ==> final(self).wf(),
    {
        proof { lemma_index_of(self.filesystem@, e.name@); }
        match self.get_index(e.name.as_str()) {
            Some(idx) => {
                self.filesystem[idx] = e;
            },
            None => {
                self.filesystem.push(e);
            },
        }
    }

    /// Records a push of `content` from the file `name`, whose modification time
    /// is `mtime`; `now` is the time of the change.
    pub fn insert_or_update(&mut self, name: &str, content: &[u8], iv: [u8; L_IV], mtime: u64, now: u64)
        ensures
            final(self).siphashkey == old(self).siphashkey,
            final(self).last_update == now,
            placed(old(self).filesystem@, final(self).filesystem@, name@, final(self).filesystem@[slot(old(self).filesystem@, name@)]),
            pushed_entry(final(self).filesystem@[slot(old(self).filesystem@, name@)], name@, old(self).siphashkey@, content@, iv@, mtime),
            old(self).wf() ==> final(self).wf(),
    {
        let e = Metadata {
            name: name.to_owned(),
            namehash: name_hash(name, &self.siphashkey),
            modified: mtime,
            actually_modified: mtime,
            signature: signature(content, &self.siphashkey),
            iv,
        };
        self.place(e);
        self.last_update = now;
    }

    /// Records a pull of the remote entry `meta` into a file whose modification
    /// time is now `mtime`.
    pub fn record_pull(&mut self, meta: &Metadata, mtime: u64)
        ensures
            final(self).siphashkey == old(self).siphashkey,
            final(self).last_update == old(self).last_update,
            placed(old(self).filesystem@, final(self).filesystem@, meta.name@, final(self).filesystem@[slot(old(self).filesystem@, meta.name@)]),
            pulled_entry(final(self).filesystem@[slot(old(self).filesystem@, meta.name@)], *meta, mtime),
            old(self).wf() && meta.namehash@ == name_hash_of(meta.name@, old(self).siphashkey@) ==> final(self).wf(),
    {
        let e = meta.with_modified(mtime);
        self.place(e);
    }

    /// Drops the entry at `idx`; `now` is the time of the change.
    pub fn remove_entry(&mut self, idx: usize, now: u64)
        requires
            idx < old(self).filesystem@.len(),
        ensures
            final(self).filesystem@ == old(self).filesystem@.remove(idx as int),
            final(self).siphashkey == old(self).siphashkey,
            final(self).last_update == now,
            old(self).wf() ==> final(self).wf(),
    {
        self.filesystem.remove(idx);
        self.last_update = now;
        proof {
            let a = old(self).filesystem@;
            let b = final(self).filesystem@;
            if old(self).wf() {
                assert forall|i: int, j: int| 0 <= i < j < b.len() implies b[i].name@ != b[j].name@ by {
                    let i2 = if i < idx { i } else { i + 1 };
                    let j2 = if j < idx { j } else { j + 1 };
                    assert(b[i] == a[i2] && b[j] == a[j2]);
                }
                assert forall|i: int| 0 <= i < b.len() implies (#[trigger] b[i]).namehash@ == name_hash_of(b[i].name@, self.siphashkey@) by {
                    let i2 = if i < idx { i } else { i + 1 };
                    assert(b[i] == a[i2]);
                }
            }
        }
    }

    /// Replaces the name-hash key by `skey` and recomputes every blob name.
    /// Signatures are left as they were: they are stale until each file is
    /// pushed or pulled again.
    pub fn update_siphashkey(&mut self, skey: &[u8; L_KEY])
        ensures
            final(self).siphashkey == *skey,
            final(self).last_update == old(self).last_update,
            final(self).filesystem@.len() == old(self).filesystem@.len(),
            forall|i: int| 0 <= i < final(self).filesystem@.len() ==> {
                let a = #[trigger] final(self).filesystem@[i];
                let b = old(self).filesystem@[i];
                &&& a.name@ == b.name@
                &&& a.namehash@ == name_hash_of(b.name@, skey@)
                &&& a.modified == b.modified
                &&& a.actually_modified == b.actually_modified
                &&& a.signature@ == b.signature@
                &&& a.iv == b.iv
            },
            old(self).wf() ==> final(self).wf(),
    {
        self.siphashkey = *skey;
        let n = self.filesystem.len();
        let mut i: usize = 0;
        while i < n
            invariant
                n == self.filesystem@.len(),
                n == old(self).filesystem@.len(),
                i <= n,
                self.siphashkey == *skey,
                self.last_update == old(self).last_update,
                forall|j: int| 0 <= j < n ==> {
                    let a = #[trigger] self.filesystem@[j];
                    let b = old(self).filesystem@[j];
                    &&& a.name@ == b.name@
                    &&& j < i ==> a.namehash@ == name_hash_of(b.name@, skey@)
                    &&& a.modified == b.modified
                    &&& a.actually_modified == b.actually_modified
                    &&& a.signature@ == b.signature@
                    &&& a.iv == b.iv
                },
            decreases n - i,
        {
            let h = name_hash(self.filesystem[i].name.as_str(), &self.siphashkey);
            let e = Metadata {
                name: self.filesystem[i].name.clone(),
                namehash: h,
                modified: self.filesystem[i].modified,
                actually_modified: self.filesystem[i].actually_modified,
                signature: self.filesystem[i].signature.clone(),
                iv: self.filesystem[i].iv,
            };
            self.filesystem[i] = e;
            i = i + 1;
        }
    }

    /// Whether the image is well formed (see `wf`); for images read from disk.
    pub fn is_wf(&self) -> (r: bool)
        ensures
            r == self.wf(),
    {
        let n = self.filesystem.len();
        let mut i: usize = 0;
        while i < n
            invariant
                n == self.filesystem@.len(),
                i <= n,
                forall|a: int, b: int| 0 <= a < b < i ==> self.filesystem@[a].name@ != self.filesystem@[b].name@,
                forall|a: int| 0 <= a < i ==> (#[trigger] self.filesystem@[a]).namehash@
                    == name_hash_of(self.filesystem@[a].name@, self.siphashkey@),
            decreases n - i,
        {
            let h = name_hash(self.filesystem[i].name.as_str(), &self.siphashkey);
            if !str_eq(h.as_str(), self.filesystem[i].namehash.as_str()) {
                assert(self.filesystem@[i as int].namehash@ != name_hash_of(self.filesystem@[i as int].name@, self.siphashkey@));
                return false;
            }
            let mut j: usize = 0;
            while j < i
                invariant
                    n == self.filesystem@.len(),
                    i < n,
                    j <= i,
                    forall|a: int| 0 <= a < j ==> self.filesystem@[a].name@ != self.filesystem@[i as int].name@,
                decreases i - j,
            {
                if str_eq(self.filesystem[j].name.as_str(), self.filesystem[i].name.as_str()) {
                    assert(0 <= j < i < self.filesystem@.len()
                        && self.filesystem@[j as int].name@ == self.filesystem@[i as int].name@);
                    return false;
                }
                j = j + 1;
            }
            i = i + 1;
        }
        true
    }

    /// The names of all entries, in order.
    pub fn get_filenames(&self) -> (r: Vec<String>)
        ensures
            r@.len() == self.filesystem@.len(),
            forall|i: int| 0 <= i < r@.len() ==> (#[trigger] r@[i])@ == self.filesystem@[i].name@,
    {
        let mut files: Vec<String> = Vec::new();
        let mut i: usize = 0;
        while i < self.filesystem.len()
            invariant
                i <= self.filesystem@.len(),
                files@.len() == i,
                forall|j: int| 0 <= j < i ==> (#[trigger] files@[j])@ == self.filesystem@[j].name@,
            decreases self.filesystem@.len() - i,
        {
            files.push(self.filesystem[i].name.clone());
            i = i + 1;
        }
        files
    }

    /// The blob names of all entries, in order.
    pub fn get_hashnames(&self) -> (r: Vec<String>)
        ensures
            r@.len() == self.filesystem@.len(),
            forall|i: int| 0 <= i < r@.len() ==> (#[trigger] r@[i])@ == self.filesystem@[i].namehash@,
    {
        let mut files: Vec<String> = Vec::new();
        let mut i: usize = 0;
        while i < self.filesystem.len()
            invariant
                i <= self.filesystem@.len(),
                files@.len() == i,
                forall|j: int| 0 <= j < i ==> (#[trigger] files@[j])@ == self.filesystem@[j].namehash@,
            decreases self.filesystem@.len() - i,
        {
            files.push(self.filesystem[i].namehash.clone());
            i = i + 1;
        }
        files
    }
}

} // verus!
