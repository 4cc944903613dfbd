use vstd::prelude::*;
use crate::config::{Config, Goal};
use crate::envelope::{L_KEY, MAX_CIPHER_INPUT, MAX_SUFFIX, check_signature, name_hash_of, open, seal, sealed, signature_of};
use crate::envelope::{ciphertext_of, fits, iv_of, plain_of};
use crate::envelope::str_eq;
use crate::error::SyncError;
use crate::image::{Image, Metadata, index_of, placed, pulled_entry, pushed_entry, slot};

verus! {

/// What the reconciliation decides for one working-tree file.
#[derive(Debug, Clone, Copy, PartialEq, Eq, Structural)]
pub enum Action {
    /// Changed on both sides: back the local file up, then pull over it.
    Conflict,
    /// Encrypt the working file, write its blob and record it.
    Push,
    /// Decrypt the remote blob, check it and overwrite the working file.
    Pull,
    /// Deleted remotely: delete the working file and drop its entry.
    LocalDelete,
    /// Created locally while the remote already has it: report only.
    CreatedRemotely,
    /// Nothing to do.
    Nothing,
}

/// The decision table for a file present in the working tree with
/// modification time `mtime`, local entry `l`, remote entry `r`, and the
/// remote image's last update `r_last`.
pub open spec fn decide(mtime: u64, l: Option<Metadata>, r: Option<Metadata>, r_last: u64) -> Action {
    match (l, r) {
        (Some(l), Some(r)) => {
            if mtime > l.modified {
                if l.actually_modified < r.actually_modified { Action::Conflict } else { Action::Push }
            } else if l.actually_modified < r.actually_modified {
                Action::Pull
            } else {
                Action::Nothing
            }
        },
        (Some(_), None) => if mtime < r_last { Action::LocalDelete } else { Action::Nothing },
        (None, Some(_)) => Action::CreatedRemotely,
        (None, None) => Action::Push,
    }
}

/// The entry of `fs` named `name`, if any.
pub open spec fn entry_of(fs: Seq<Metadata>, name: Seq<char>) -> Option<Metadata> {
    match index_of(fs, name) {
        Some(i) => Some(fs[i]),
        None => None,
    }
}

/// What a run leaves to do once the reconciliation is over.
#[derive(Debug, Clone, Copy, PartialEq, Eq, Structural)]
pub struct Plan {
    /// Write the local image in clear to the control directory.
    pub save_local: bool,
    /// Write the encrypted image to the opaque tree.
    pub save_remote: bool,
    /// Delete the orphan blobs of the opaque tree.
    pub clean_remote: bool,
    /// Run the push command.
    pub push: bool,
}

/// The engine's state for one run: the local and remote images and what the
/// configuration gives.
pub struct Jambon {
    /// The local image.
    pub image_l: Image,
    /// The remote image (absent on a blind push).
    pub image_r: Option<Image>,
    /// Path of the opaque tree.
    pub gpath: String,
    /// The master key.
    pub key: [u8; L_KEY],
    /// The push command.
    pub command_push: String,
    /// The pull command.
    pub command_pull: String,
    /// Whether anything was changed in this run.
    pub did_something: bool,
}

/// Byte-wise equality of two keys.
pub fn keys_equal(a: &[u8; L_KEY], b: &[u8; L_KEY]) -> (r: bool)
    ensures
        r == (a@ == b@),
{
    let mut i: usize = 0;
    while i < L_KEY
        invariant
            i <= L_KEY,
            a@.len() == L_KEY,
            b@.len() == L_KEY,
            forall|j: int| 0 <= j < i ==> a@[j] == b@[j],
        decreases L_KEY - i,
    {
        if a[i] != b[i] {
            return false;
        }
        i = i + 1;
    }
    assert(a@ =~= b@);
    true
}

/// Whether an update must ask the user to adopt the remote name-hash key.
pub fn needs_rekey(local: &Image, remote: &Image) -> (r: bool)
    ensures
        r == (local.siphashkey@ != remote.siphashkey@),
{
    !keys_equal(&local.siphashkey, &remote.siphashkey)
}

/// The views of a list of strings.
pub open spec fn views(list: Seq<String>) -> Seq<Seq<char>> {
    list.map_values(|s: String| s@)
}

/// Whether `list` holds a string equal to `name`.
pub fn contains_name(list: &Vec<String>, name: &str) -> (r: bool)
    ensures
        r == views(list@).contains(name@),
{
    let mut i: usize = 0;
    while i < list.len()
        invariant
            i <= list@.len(),
            forall|j: int| 0 <= j < i ==> list@[j]@ != name@,
        decreases list@.len() - i,
    {
        if str_eq(list[i].as_str(), name) {
            assert(views(list@)[i as int] == name@);
            return true;
        }
        i = i + 1;
    }
    assert forall|j: int| 0 <= j < views(list@).len() implies views(list@)[j] != name@ by {
        assert(list@[j]@ != name@);
    }
    false
}

/// The name under which a conflicting working file is kept.
pub fn backup_name(name: &str) -> (r: String)
    ensures
        r@ == name@ + "_local_backup"@,
{
    let mut s = String::from_str(name);
    s.append("_local_backup");
    s
}

/// The name of the encrypted image in the opaque tree.
pub open spec fn image_blob_name() -> Seq<char> {
    seq!['i', 'm', 'a', 'g', 'e']
}

/// A blob of the opaque tree that neither is the image nor belongs to an entry.
pub open spec fn is_orphan(blob: Seq<char>, hashes: Seq<Seq<char>>) -> bool {
    blob != image_blob_name() && !hashes.contains(blob)
}

/// After deleting the orphans of `blobs`, what is left is the image and the
/// blobs of the entries, provided that all of them were there.
pub proof fn lemma_no_orphans_left(blobs: Seq<Seq<char>>, hashes: Seq<Seq<char>>)
    requires
        blobs.contains(image_blob_name()),
        forall|h: Seq<char>| hashes.contains(h) ==> blobs.contains(h),
    ensures
        blobs.filter(|b: Seq<char>| !is_orphan(b, hashes)).to_set()
            == hashes.to_set().insert(image_blob_name()),
{
    let kept = blobs.filter(|b: Seq<char>| !is_orphan(b, hashes));
    assert forall|b: Seq<char>| kept.to_set().contains(b) <==> hashes.to_set().insert(image_blob_name()).contains(b) by {
        if kept.contains(b) {
            let i = choose|i: int| 0 <= i < kept.len() && kept[i] == b;
            blobs.lemma_filter_pred(|b: Seq<char>| !is_orphan(b, hashes), i);
        }
        if b == image_blob_name() || hashes.contains(b) {
            let i = choose|i: int| 0 <= i < blobs.len() && blobs[i] == b;
            blobs.lemma_filter_contains(|b: Seq<char>| !is_orphan(b, hashes), i);
        }
    }
    assert(kept.to_set() =~= hashes.to_set().insert(image_blob_name()));
}

/// A filter keeps the order of what it keeps: two kept items sit at two
/// positions of the original in the same order.
proof fn lemma_filter_order(s: Seq<Metadata>, pred: spec_fn(Metadata) -> bool, i: int, j: int)
    requires
        0 <= i < j < s.filter(pred).len(),
    ensures
        exists|a: int, b: int| 0 <= a < b < s.len() && s[a] == s.filter(pred)[i] && s[b] == s.filter(pred)[j],
    decreases s.len(),
{
    reveal(Seq::filter);
    let f = s.filter(pred);
    let d = s.drop_last().filter(pred);
    s.drop_last().lemma_filter_len(pred);
    if j < d.len() {
        lemma_filter_order(s.drop_last(), pred, i, j);
        let (a, b) = choose|a: int, b: int| 0 <= a < b < s.drop_last().len() && s.drop_last()[a] == d[i] && s.drop_last()[b] == d[j];
        assert(s[a] == f[i] && s[b] == f[j]);
    } else {
        assert(pred(s.last()) && f[j] == s.last());
        assert(d.contains(d[i]));
        s.drop_last().lemma_filter_contains_rev(pred, d[i]);
        let a = choose|a: int| 0 <= a < s.drop_last().len() && s.drop_last()[a] == d[i];
        assert(s[a] == f[i] && s[s.len() - 1] == f[j]);
    }
}

/// A file whose modification time is the one recorded when it was last
/// synchronised, and whose remote entry carries no newer content, is left
/// alone.
pub proof fn lemma_settled_file_is_idle(mtime: u64, l: Metadata, r: Metadata, r_last: u64)
    requires
        mtime <= l.modified,
        l.actually_modified >= r.actually_modified,
    ensures
        decide(mtime, Some(l), Some(r), r_last) == Action::Nothing,
{
}

/// Right after a run that changed something, the remote image is the local
/// one: every file still as it was synchronised is idle, and no remote entry
/// is missing locally, so a second run does nothing and skips the push.
pub proof fn lemma_second_update_idle(j: Jambon, name: Seq<char>, mtime: u64)
    requires
        j.image_r is Some,
        j.image_r->0.filesystem@ == j.image_l.filesystem@,
        j.local_entry(name) is Some,
        mtime == j.local_entry(name)->0.modified,
    ensures
        decide(mtime, j.local_entry(name), j.remote_entry(name), j.remote_last()) == Action::Nothing,
        j.image_r->0.filesystem@.filter(|m: Metadata| j.local_entry(m.name@) is None).len() == 0,
{
    let fs = j.image_l.filesystem@;
    let pred = |m: Metadata| j.local_entry(m.name@) is None;
    assert forall|i: int| 0 <= i < fs.len() implies !pred(#[trigger] fs[i]) by {
        crate::image::lemma_index_of(fs, fs[i].name@);
    }
    if fs.filter(pred).len() > 0 {
        fs.lemma_filter_pred(pred, 0);
        assert(fs.filter(pred).contains(fs.filter(pred)[0]));
        fs.lemma_filter_contains_rev(pred, fs.filter(pred)[0]);
    }
}

impl Jambon {
    /// The local entry named `name`.
    pub open spec fn local_entry(&self, name: Seq<char>) -> Option<Metadata> {
        entry_of(self.image_l.filesystem@, name)
    }

    /// The remote entry named `name`.
    pub open spec fn remote_entry(&self, name: Seq<char>) -> Option<Metadata> {
        match self.image_r {
            Some(img) => entry_of(img.filesystem@, name),
            None => None,
        }
    }

    /// The remote image's last update (0 without a remote image).
    pub open spec fn remote_last(&self) -> u64 {
        match self.image_r {
            Some(img) => img.last_update,
            None => 0,
        }
    }

    /// Sets up a run for `goal`. A blind push starts a fresh image under a new
    /// random name-hash key; a blind pull starts an empty image under the
    /// remote key; an update takes both images as loaded and, where their keys
    /// differ, rekeys the local image to the remote key if `adopt_remote_key`.
    pub fn start(config: Config, goal: Goal, image_l: Option<Image>, image_r: Option<Image>, adopt_remote_key: bool) -> (r: Result<Jambon, SyncError>)
        ensures
            r is Ok ==> {
                let j = r->Ok_0;
                &&& j.key == config.key
                &&& j.gpath == config.gpath
                &&& j.command_push == config.command_push
                &&& j.command_pull == config.command_pull
                &&& !j.did_something
            },
            goal == Goal::BlindPush ==> (r is Ok ==> r->Ok_0.image_l.filesystem@.len() == 0
                && r->Ok_0.image_l.last_update == 0 && r->Ok_0.image_l.wf() && r->Ok_0.image_r is None),
            goal == Goal::BlindPush && r is Err ==> r->Err_0 == SyncError::Crypto,
            goal == Goal::BlindPull ==> (r is Ok <==> image_r is Some),
            goal == Goal::BlindPull && r is Ok ==> {
                &&& r->Ok_0.image_l.filesystem@.len() == 0
                &&& r->Ok_0.image_l.siphashkey == image_r->0.siphashkey
                &&& r->Ok_0.image_r == image_r
            },
            goal == Goal::Update ==> (r is Ok <==> image_l is Some && image_r is Some
                && (image_l->0.siphashkey@ == image_r->0.siphashkey@ || adopt_remote_key)),
            goal == Goal::Update && r is Ok && image_l->0.siphashkey@ == image_r->0.siphashkey@ ==> r->Ok_0.image_l == image_l->0,
            goal == Goal::Update && r is Ok ==> r->Ok_0.image_r == image_r && r->Ok_0.image_l.siphashkey@ == image_r->0.siphashkey@,
            goal == Goal::Update && r is Ok && image_l->0.siphashkey@ != image_r->0.siphashkey@ ==> {
                &&& r->Ok_0.image_l.last_update == image_l->0.last_update
                &&& r->Ok_0.image_l.filesystem@.len() == image_l->0.filesystem@.len()
                &&& forall|i: int| 0 <= i < image_l->0.filesystem@.len() ==> {
                    let a = #[trigger] r->Ok_0.image_l.filesystem@[i];
                    let b = image_l->0.filesystem@[i];
                    &&& a.name@ == b.name@
                    &&& a.namehash@ == name_hash_of(b.name@, image_r->0.siphashkey@)
                    &&& a.modified == b.modified
                    &&& a.actually_modified == b.actually_modified
                    &&& a.signature@ == b.signature@
                    &&& a.iv == b.iv
                }
            },
            goal != Goal::BlindPush && r is Err ==> r->Err_0 == SyncError::MissingImage || r->Err_0 == SyncError::KeyDeclined,
    {
        let (local, remote) = match goal {
            Goal::BlindPush => (Image::new()?, None),
            Goal::BlindPull => {
                let remote = match image_r {
                    Some(img) => img,
                    None => return Err(SyncError::MissingImage),
                };
                (Image::with_key(remote.siphashkey), Some(remote))
            },
            Goal::Update => {
                let mut local = match image_l {
                    Some(img) => img,
                    None => return Err(SyncError::MissingImage),
                };
                let remote = match image_r {
                    Some(img) => img,
                    None => return Err(SyncError::MissingImage),
                };
                if needs_rekey(&local, &remote) {
                    if adopt_remote_key {
                        local.update_siphashkey(&remote.siphashkey);
                    } else {
                        return Err(SyncError::KeyDeclined);
                    }
                }
                (local, Some(remote))
            },
        };
        Ok(Jambon {
            image_l: local,
            image_r: remote,
            gpath: config.gpath,
            key: config.key,
            command_push: config.command_push,
            command_pull: config.command_pull,
            did_something: false,
        })
    }

    /// The index of the remote entry named `fname`.
    fn remote_index(&self, fname: &str) -> (r: Option<usize>)
        ensures
            r is Some ==> self.image_r is Some && r->0 < self.image_r->0.filesystem@.len()
                && self.remote_entry(fname@) == Some(self.image_r->0.filesystem@[r->0 as int]),
            r is None ==> self.remote_entry(fname@) is None,
    {
        match &self.image_r {
            Some(img) => img.get_index(fname),
            None => None,
        }
    }

    /// Encrypts the working-tree file `fname` (content `content`, modification
    /// time `mtime`) with the padding draw `extra`, records it in the local
    /// image at time `now`, and returns the blob's name and bytes. Whether the
    /// run counts as having changed something is left to the caller.
    pub fn encrypt_save_add(&mut self, fname: &str, content: &[u8], mtime: u64, now: u64, extra: usize) -> (r: Result<(String, Vec<u8>), SyncError>)
        ensures
            extra + 3 > MAX_SUFFIX ==> r == Err::<(String, Vec<u8>), SyncError>(SyncError::PaddingTooLong),
            extra + 3 <= MAX_SUFFIX && !fits(content@.len(), extra as nat)
                ==> r == Err::<(String, Vec<u8>), SyncError>(SyncError::TooLarge),
            extra + 3 <= MAX_SUFFIX && fits(content@.len(), extra as nat) && r is Err
                ==> r->Err_0 == SyncError::Crypto,
            r is Err ==> *final(self) == *old(self),
            r is Ok ==> {
                let k = slot(old(self).image_l.filesystem@, fname@);
                let e = final(self).image_l.filesystem@[k];
                let h = old(self).image_l.siphashkey@;
                &&& placed(old(self).image_l.filesystem@, final(self).image_l.filesystem@, fname@, e)
                &&& pushed_entry(e, fname@, h, content@, e.iv@, mtime)
                &&& r->Ok_0.0@ == name_hash_of(fname@, h)
                &&& r->Ok_0.1@ == sealed(content@, old(self).key@, e.iv@, extra as nat)
                &&& content@.len() + extra + 3 + 16 + 1 <= r->Ok_0.1@.len() <= content@.len() + extra + 3 + 16 + 16
                &&& final(self).image_l.siphashkey == old(self).image_l.siphashkey
                &&& final(self).image_l.last_update == now
                &&& final(self).image_r == old(self).image_r
                &&& final(self).key == old(self).key
                &&& final(self).gpath == old(self).gpath
                &&& final(self).command_push == old(self).command_push
                &&& final(self).command_pull == old(self).command_pull
                &&& final(self).did_something == old(self).did_something
                &&& (old(self).image_l.wf() ==> final(self).image_l.wf())
            },
    {
        let (blob, iv) = seal(content, &self.key, extra)?;
        self.image_l.insert_or_update(fname, content, iv, mtime, now);
        let namehash = crate::envelope::name_hash(fname, &self.image_l.siphashkey);
        Ok((namehash, blob))
    }

    /// Records that this run changed something.
    pub fn mark_changed(&mut self)
        ensures
            final(self).did_something,
            final(self).image_l == old(self).image_l,
            final(self).image_r == old(self).image_r,
            final(self).key == old(self).key,
            final(self).gpath == old(self).gpath,
            final(self).command_push == old(self).command_push,
            final(self).command_pull == old(self).command_pull,
    {
        self.did_something = true;
    }

    /// The name of the blob of the remote entry `fname`.
    pub fn remote_blob(&self, fname: &str) -> (r: Result<String, SyncError>)
        ensures
            r is Ok <==> self.remote_entry(fname@) is Some,
            r is Ok ==> r->Ok_0 == self.remote_entry(fname@)->0.namehash,
            r is Err ==> r->Err_0 == SyncError::UnknownFile,
    {
        match self.remote_index(fname) {
            Some(i) => match &self.image_r {
                Some(img) => Ok(img.filesystem[i].namehash.clone()),
                None => Err(SyncError::UnknownFile),
            },
            None => Err(SyncError::UnknownFile),
        }
    }

    /// Opens the blob of the remote entry `fname` and checks the plaintext
    /// against the entry's signature under the remote name-hash key.
    pub fn decrypt_remote(&self, fname: &str, blob: &[u8]) -> (r: Result<Vec<u8>, SyncError>)
        ensures
            self.remote_entry(fname@) is None ==> r == Err::<Vec<u8>, SyncError>(SyncError::UnknownFile),
            r is Ok ==> self.remote_entry(fname@)->0.signature@ == signature_of(r->Ok_0@, self.image_r->0.siphashkey@),
            self.remote_entry(fname@) is Some ==> {
                let e = self.remote_entry(fname@)->0;
                let h = self.image_r->0.siphashkey@;
                &&& blob@.len() < 16 ==> r == Err::<Vec<u8>, SyncError>(SyncError::Malformed)
                &&& blob@.len() > MAX_CIPHER_INPUT + 16 ==> r == Err::<Vec<u8>, SyncError>(SyncError::TooLarge)
                &&& 16 <= blob@.len() <= MAX_CIPHER_INPUT + 16 ==> {
                    let p = plain_of(self.key@, iv_of(blob@), ciphertext_of(blob@));
                    &&& r is Ok ==> p == Some(r->Ok_0@) && e.signature@ == signature_of(r->Ok_0@, h)
                    &&& p is None ==> r is Err
                    &&& r == Err::<Vec<u8>, SyncError>(SyncError::SignatureMismatch)
                        ==> p is Some && e.signature@ != signature_of(p->0, h)
                }
            },
            forall|content: Seq<u8>, iv: Seq<u8>, extra: nat|
                iv.len() == 16 && extra + 3 <= MAX_SUFFIX && blob@.len() <= MAX_CIPHER_INPUT + 16
                    && blob@ == #[trigger] sealed(content, self.key@, iv, extra)
                    && self.remote_entry(fname@) is Some
                    && self.remote_entry(fname@)->0.signature@ == signature_of(content, self.image_r->0.siphashkey@)
                    ==> (r is Ok ==> r->Ok_0@ == content) && (r is Err ==> r->Err_0 == SyncError::Crypto),
            r is Err ==> r->Err_0 == SyncError::UnknownFile || r->Err_0 == SyncError::Crypto
                || r->Err_0 == SyncError::Malformed || r->Err_0 == SyncError::TooLarge
                || r->Err_0 == SyncError::SignatureMismatch,
    {
        let i = match self.remote_index(fname) {
            Some(i) => i,
            None => return Err(SyncError::UnknownFile),
        };
        let img = match &self.image_r {
            Some(img) => img,
            None => return Err(SyncError::UnknownFile),
        };
        let message = open(blob, &self.key)?;
        check_signature(img.filesystem[i].signature.as_str(), message.as_slice(), &img.siphashkey)?;
        Ok(message)
    }

    /// Records in the local image that the remote entry `fname` was pulled into
    /// a file whose modification time is now `mtime`.
    pub fn record_pulled(&mut self, fname: &str, mtime: u64) -> (r: Result<(), SyncError>)
        ensures
            r is Ok <==> old(self).remote_entry(fname@) is Some,
            r is Err ==> *final(self) == *old(self) && r->Err_0 == SyncError::UnknownFile,
            r is Ok ==> {
                let k = slot(old(self).image_l.filesystem@, fname@);
                let e = final(self).image_l.filesystem@[k];
                &&& placed(old(self).image_l.filesystem@, final(self).image_l.filesystem@, fname@, e)
                &&& pulled_entry(e, old(self).remote_entry(fname@)->0, mtime)
                &&& final(self).image_l.siphashkey == old(self).image_l.siphashkey
                &&& final(self).image_l.last_update == old(self).image_l.last_update
                &&& final(self).image_r == old(self).image_r
                &&& final(self).did_something
            },
    {
        let i = match self.remote_index(fname) {
            Some(i) => i,
            None => return Err(SyncError::UnknownFile),
        };
        let meta = match &self.image_r {
            Some(img) => img.filesystem[i].copy(),
            None => return Err(SyncError::UnknownFile),
        };
        proof {
            crate::image::lemma_index_of(self.image_r->0.filesystem@, fname@);
        }
        self.image_l.record_pull(&meta, mtime);
        self.did_something = true;
        Ok(())
    }

    /// Drops the local entry `fname`, whose working-tree file was deleted, at
    /// time `now`.
    pub fn drop_local(&mut self, fname: &str, now: u64) -> (r: Result<(), SyncError>)
        ensures
            r is Ok <==> old(self).local_entry(fname@) is Some,
            r is Err ==> *final(self) == *old(self) && r->Err_0 == SyncError::UnknownFile,
            r is Ok ==> {
                &&& final(self).image_l.filesystem@ == old(self).image_l.filesystem@.remove(index_of(old(self).image_l.filesystem@, fname@)->0)
                &&& final(self).image_l.last_update == now
                &&& final(self).image_l.siphashkey == old(self).image_l.siphashkey
                &&& final(self).image_r == old(self).image_r
                &&& final(self).did_something
            },
    {
        match self.image_l.get_index(fname) {
            Some(i) => {
                self.image_l.remove_entry(i, now);
                self.did_something = true;
                Ok(())
            },
            None => Err(SyncError::UnknownFile),
        }
    }

    /// The names of the remote entries that the local image lacks, in the
    /// remote image's order: the files to pull.
    pub fn load_missing(&self) -> (r: Vec<String>)
        ensures
            self.image_r is None ==> r@.len() == 0,
            self.image_r is Some ==> r@ == self.image_r->0.filesystem@.filter(
                |m: Metadata| self.local_entry(m.name@) is None).map_values(|m: Metadata| m.name),
    {
        let mut out: Vec<String> = Vec::new();
        let img = match &self.image_r {
            Some(img) => img,
            None => return out,
        };
        let ghost pred = |m: Metadata| self.local_entry(m.name@) is None;
        let ghost rfs = img.filesystem@;
        let mut i: usize = 0;
        while i < img.filesystem.len()
            invariant
                i <= rfs.len(),
                rfs == img.filesystem@,
                pred == (|m: Metadata| self.local_entry(m.name@) is None),
                out@ == rfs.subrange(0, i as int).filter(pred).map_values(|m: Metadata| m.name),
            decreases rfs.len() - i,
        {
            let missing = self.image_l.get_index(img.filesystem[i].name.as_str()).is_none();
            proof {
                assert(rfs.subrange(0, i + 1) == rfs.subrange(0, i as int).push(rfs[i as int]));
                rfs.subrange(0, i as int).lemma_filter_push(rfs[i as int], pred);
            }
            if missing {
                out.push(img.filesystem[i].name.clone());
            }
            proof {
                let before = rfs.subrange(0, i as int).filter(pred);
                if missing {
                    assert(out@ =~= before.push(rfs[i as int]).map_values(|m: Metadata| m.name));
                }
            }
            i = i + 1;
        }
        assert(rfs.subrange(0, rfs.len() as int) == rfs);
        out
    }

    /// Drops from the local image every entry whose name is not among the
    /// working-tree files `fnames`; `now` is the time of the change.
    pub fn clean_image(&mut self, fnames: &Vec<String>, now: u64)
        ensures
            final(self).image_l.filesystem@ == old(self).image_l.filesystem@.filter(
                |m: Metadata| views(fnames@).contains(m.name@)),
            final(self).image_l.siphashkey == old(self).image_l.siphashkey,
            final(self).image_r == old(self).image_r,
            final(self).key == old(self).key,
            final(self).did_something == (old(self).did_something
                || final(self).image_l.filesystem@.len() < old(self).image_l.filesystem@.len()),
            final(self).image_l.last_update == if final(self).image_l.filesystem@.len() < old(self).image_l.filesystem@.len() {
                now
            } else {
                old(self).image_l.last_update
            },
            old(self).image_l.wf() ==> final(self).image_l.wf(),
    {
        let ghost pred = |m: Metadata| views(fnames@).contains(m.name@);
        let ghost lfs = self.image_l.filesystem@;
        let mut kept: Vec<Metadata> = Vec::new();
        let mut i: usize = 0;
        while i < self.image_l.filesystem.len()
            invariant
                i <= lfs.len(),
                lfs == self.image_l.filesystem@,
                pred == (|m: Metadata| views(fnames@).contains(m.name@)),
                kept@ == lfs.subrange(0, i as int).filter(pred),
                kept@.len() <= i,
            decreases lfs.len() - i,
        {
            proof {
                assert(lfs.subrange(0, i + 1) == lfs.subrange(0, i as int).push(lfs[i as int]));
                lfs.subrange(0, i as int).lemma_filter_push(lfs[i as int], pred);
            }
            if contains_name(fnames, self.image_l.filesystem[i].name.as_str()) {
                kept.push(self.image_l.filesystem[i].copy());
            }
            i = i + 1;
        }
        assert(lfs.subrange(0, lfs.len() as int) == lfs);
        let removed = kept.len() < self.image_l.filesystem.len();
        self.image_l.filesystem = kept;
        if removed {
            self.image_l.last_update = now;
            self.did_something = true;
        }
        proof {
            let b = self.image_l.filesystem@;
            if old(self).image_l.wf() {
                assert forall|i: int| 0 <= i < b.len() implies lfs.contains(#[trigger] b[i]) by {
                    assert(b.contains(b[i]));
                    lfs.lemma_filter_contains_rev(pred, b[i]);
                }
                assert forall|i: int| 0 <= i < b.len() implies (#[trigger] b[i]).namehash@ == name_hash_of(b[i].name@, self.image_l.siphashkey@) by {
                    assert(lfs.contains(b[i]));
                }
                assert forall|i: int, j: int| 0 <= i < j < b.len() implies b[i].name@ != b[j].name@ by {
                    lemma_filter_order(lfs, pred, i, j);
                }
            }
        }
    }

    /// The blobs of the opaque tree (`blobs`: their file names) to delete: those
    /// that neither are the image nor belong to a local entry.
    pub fn clean_remote(&self, blobs: &Vec<String>) -> (r: Vec<String>)
        ensures
            views(r@) == views(blobs@).filter(|b: Seq<char>| is_orphan(b, self.image_l.hashes())),
    {
        let hashes = self.image_l.get_hashnames();
        proof {
            assert(views(hashes@) =~= self.image_l.hashes());
            reveal_strlit("image");
        }
        let ghost pred = |b: Seq<char>| is_orphan(b, self.image_l.hashes());
        let ghost bs = views(blobs@);
        let mut out: Vec<String> = Vec::new();
        let mut i: usize = 0;
        while i < blobs.len()
            invariant
                i <= blobs@.len(),
                bs == views(blobs@),
                views(hashes@) == self.image_l.hashes(),
                pred == (|b: Seq<char>| is_orphan(b, self.image_l.hashes())),
                views(out@) == bs.subrange(0, i as int).filter(pred),
            decreases blobs@.len() - i,
        {
            proof {
                assert(bs.subrange(0, i + 1) == bs.subrange(0, i as int).push(bs[i as int]));
                bs.subrange(0, i as int).lemma_filter_push(bs[i as int], pred);
            }
            let b = blobs[i].as_str();
            let orphan = !str_eq(b, "image") && !contains_name(&hashes, b);
            proof {
                reveal_strlit("image");
                assert("image"@ =~= image_blob_name());
                assert(bs[i as int] == blobs@[i as int]@);
                assert(orphan == pred(bs[i as int]));
            }
            if orphan {
                let ghost before = out@;
                out.push(blobs[i].clone());
                assert(views(out@) =~= views(before).push(bs[i as int]));
            }
            i = i + 1;
        }
        assert(bs.subrange(0, bs.len() as int) == bs);
        out
    }

    /// What is left to do at the end of a run for `goal`: a blind push saves
    /// the image both ways and pushes; a blind pull saves the local image; an
    /// update does all four steps if anything changed, and nothing otherwise.
    pub fn finish(&self, goal: Goal) -> (r: Plan)
        ensures
            goal == Goal::BlindPush ==> r == (Plan { save_local: true, save_remote: true, clean_remote: false, push: true }),
            goal == Goal::BlindPull ==> r == (Plan { save_local: true, save_remote: false, clean_remote: false, push: false }),
            goal == Goal::Update ==> r == (Plan {
                save_local: self.did_something,
                save_remote: self.did_something,
                clean_remote: self.did_something,
                push: self.did_something,
            }),
    {
        match goal {
            Goal::BlindPush => Plan { save_local: true, save_remote: true, clean_remote: false, push: true },
            Goal::BlindPull => Plan { save_local: true, save_remote: false, clean_remote: false, push: false },
            Goal::Update => {
                let d = self.did_something;
                Plan { save_local: d, save_remote: d, clean_remote: d, push: d }
            },
        }
    }

    /// Decides what to do with the working-tree file `fname`, whose
    /// modification time is `mtime`.
    pub fn update(&self, fname: &str, mtime: u64) -> (r: Action)
        ensures
            r == decide(mtime, self.local_entry(fname@), self.remote_entry(fname@), self.remote_last()),
    {
        let il = self.image_l.get_index(fname);
        let ir = self.remote_index(fname);
        let r_last = match &self.image_r {
            Some(img) => img.last_update,
            None => 0,
        };
        match il {
            Some(il) => {
                let modtime_l = self.image_l.filesystem[il].modified;
                let modtime_la = self.image_l.filesystem[il].actually_modified;
                match ir {
                    Some(ir) => {
                        let modtime_ra = match &self.image_r {
                            Some(img) => img.filesystem[ir].actually_modified,
                            None => 0,
                        };
                        if mtime > modtime_l {
                            if modtime_la < modtime_ra { Action::Conflict } else { Action::Push }
                        } else if modtime_la < modtime_ra {
                            Action::Pull
                        } else {
                            Action::Nothing
                        }
                    },
                    None => if mtime < r_last { Action::LocalDelete } else { Action::Nothing },
                }
            },
            None => match ir {
                Some(_) => Action::CreatedRemotely,
                None => Action::Push,
            },
        }
    }
}

} // verus!
