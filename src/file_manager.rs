use vstd::prelude::*;
use crate::bytes::{bytes_eq, copy_bytes};

verus! {

/// The uppercase hexadecimal MD5 digest of a byte string.
pub uninterp spec fn md5_hex(data: Seq<u8>) -> Seq<u8>;

/// Relies on `md5::compute`, formatted with its `UpperHex` impl: the digest
/// depends on the bytes alone and prints as 32 hexadecimal digits.
#[verifier::external_body]
fn md5_digest(data: &Vec<u8>) -> (r: Vec<u8>)
    ensures
        r@ == md5_hex(data@),
        r@.len() == 32,
{
    format!("{:#X}", md5::compute(data)).into_bytes()
}

/// What a file record holds, as plain values.
pub struct FileView {
    pub name: Seq<u8>,
    pub path: Seq<u8>,
    pub hash: Seq<u8>,
    pub created: i64,
    pub locked: bool,
}

/// One stored file: its name, the path of its bytes, the digest of its
/// contents, when it was created (seconds since the epoch), and whether a
/// write or an explicit lock holds it.
#[derive(Debug)]
pub struct TFile {
    pub filename: Vec<u8>,
    pub path: Vec<u8>,
    pub hash: Vec<u8>,
    pub created: i64,
    pub locked: bool,
}

impl View for TFile {
    type V = FileView;

    open spec fn view(&self) -> FileView {
        FileView {
            name: self.filename@,
            path: self.path@,
            hash: self.hash@,
            created: self.created,
            locked: self.locked,
        }
    }
}

impl TFile {
    /// A new, unlocked record.
    pub fn new_file(filename: Vec<u8>, path: Vec<u8>, hash: Vec<u8>, created: i64) -> (r: TFile)
        ensures
            r@ == (FileView {
                name: filename@,
                path: path@,
                hash: hash@,
                created,
                locked: false,
            }),
    {
        TFile { filename, path, hash, created, locked: false }
    }

    /// A copy of this record.
    pub fn duplicate(&self) -> (r: TFile)
        ensures
            r@ == self@,
    {
        TFile {
            filename: copy_bytes(&self.filename),
            path: copy_bytes(&self.path),
            hash: copy_bytes(&self.hash),
            created: self.created,
            locked: self.locked,
        }
    }
}

/// Why a registry operation did not take place.
#[derive(Debug, Clone, Copy, PartialEq, Eq, Structural)]
pub enum RegistryError {
    AlreadyExists,
    NotFound,
    AlreadyLocked,
}

pub open spec fn has_name(s: Seq<FileView>, name: Seq<u8>) -> bool {
    exists|i: int| 0 <= i < s.len() && #[trigger] s[i].name == name
}

/// The position of the record called `name` (meaningful when there is one).
pub open spec fn name_index(s: Seq<FileView>, name: Seq<u8>) -> int {
    choose|i: int| 0 <= i < s.len() && #[trigger] s[i].name == name
}

/// No two records share a name.
pub open spec fn names_unique(s: Seq<FileView>) -> bool {
    forall|i: int, j: int|
        0 <= i < s.len() && 0 <= j < s.len() && i != j ==> #[trigger] s[i].name != #[trigger] s[j].name
}

pub open spec fn set_locked(f: FileView, lock: bool) -> FileView {
    FileView { name: f.name, path: f.path, hash: f.hash, created: f.created, locked: lock }
}

/// The records after a `Create`: the new record is appended unless the name is taken.
pub open spec fn created(s: Seq<FileView>, rec: FileView) -> Seq<FileView> {
    if has_name(s, rec.name) {
        s
    } else {
        s.push(rec)
    }
}

/// The records after an upload is stored: the record of that name is replaced, or appended.
pub open spec fn stored(s: Seq<FileView>, rec: FileView) -> Seq<FileView> {
    if has_name(s, rec.name) {
        s.update(name_index(s, rec.name), rec)
    } else {
        s.push(rec)
    }
}

/// The records after a `Remove`.
pub open spec fn removed(s: Seq<FileView>, name: Seq<u8>) -> Seq<FileView> {
    if has_name(s, name) {
        s.remove(name_index(s, name))
    } else {
        s
    }
}

/// The records after the lock flag of `name` is set to `lock`.
pub open spec fn with_lock(s: Seq<FileView>, name: Seq<u8>, lock: bool) -> Seq<FileView> {
    if has_name(s, name) {
        s.update(name_index(s, name), set_locked(s[name_index(s, name)], lock))
    } else {
        s
    }
}

/// Whether the record called `name` exists and is locked.
pub open spec fn is_locked(s: Seq<FileView>, name: Seq<u8>) -> bool {
    has_name(s, name) && s[name_index(s, name)].locked
}

/// The records with every lock released.
pub open spec fn all_unlocked(s: Seq<FileView>) -> Seq<FileView> {
    s.map_values(|f: FileView| set_locked(f, false))
}

pub proof fn lemma_index_unique(s: Seq<FileView>, name: Seq<u8>, i: int)
    requires
        names_unique(s),
        0 <= i < s.len(),
        s[i].name == name,
    ensures
        has_name(s, name),
        name_index(s, name) == i,
{
    let j = name_index(s, name);
    assert(0 <= j < s.len() && s[j].name == name);
}

/// What `TryLock` leaves and returns: the registry, and the outcome.
pub open spec fn try_lock_result(s: Seq<FileView>, name: Seq<u8>) -> (Seq<FileView>, Result<(), RegistryError>) {
    if !has_name(s, name) {
        (s, Err(RegistryError::NotFound))
    } else if is_locked(s, name) {
        (s, Err(RegistryError::AlreadyLocked))
    } else {
        (with_lock(s, name, true), Ok(()))
    }
}

/// How many of `n` successive `TryLock(name)` calls succeed.
pub open spec fn lock_successes(s: Seq<FileView>, name: Seq<u8>, n: nat) -> nat
    decreases n,
{
    if n == 0 {
        0
    } else {
        let t = try_lock_result(s, name);
        (if t.1 is Ok { 1nat } else { 0nat }) + lock_successes(t.0, name, (n - 1) as nat)
    }
}

proof fn lemma_with_lock_keeps_names(s: Seq<FileView>, name: Seq<u8>, lock: bool)
    requires
        names_unique(s),
    ensures
        names_unique(with_lock(s, name, lock)),
        has_name(s, name) ==> has_name(with_lock(s, name, lock), name) && name_index(
            with_lock(s, name, lock),
            name,
        ) == name_index(s, name) && with_lock(s, name, lock)[name_index(s, name)].locked == lock,
{
    if has_name(s, name) {
        let i = name_index(s, name);
        let t = with_lock(s, name, lock);
        assert forall|a: int, b: int|
            0 <= a < t.len() && 0 <= b < t.len() && a != b implies #[trigger] t[a].name
            != #[trigger] t[b].name by {
            assert(s[a].name != s[b].name);
        }
        lemma_index_unique(t, name, i);
    }
}

proof fn lemma_locked_stays_locked(s: Seq<FileView>, name: Seq<u8>, n: nat)
    requires
        is_locked(s, name),
    ensures
        lock_successes(s, name, n) == 0,
    decreases n,
{
    if n > 0 {
        lemma_locked_stays_locked(s, name, (n - 1) as nat);
    }
}

/// Of any number of successive `TryLock` calls on an existing, unlocked
/// record, exactly one succeeds; every later one finds it already locked.
pub proof fn lock_is_exclusive(s: Seq<FileView>, name: Seq<u8>, n: nat)
    requires
        names_unique(s),
        has_name(s, name),
        !is_locked(s, name),
        n >= 1,
    ensures
        lock_successes(s, name, n) == 1,
        is_locked(try_lock_result(s, name).0, name),
        try_lock_result(try_lock_result(s, name).0, name).1 == Err::<(), RegistryError>(
            RegistryError::AlreadyLocked,
        ),
{
    lemma_with_lock_keeps_names(s, name, true);
    let t = with_lock(s, name, true);
    lemma_locked_stays_locked(t, name, (n - 1) as nat);
}

/// No sequence of `Create`, upload stores, `Remove` or lock changes gives two
/// live records the same name.
pub proof fn names_stay_unique(s: Seq<FileView>, rec: FileView, name: Seq<u8>, lock: bool)
    requires
        names_unique(s),
    ensures
        names_unique(created(s, rec)),
        names_unique(stored(s, rec)),
        names_unique(removed(s, name)),
        names_unique(with_lock(s, name, lock)),
        names_unique(all_unlocked(s)),
{
    lemma_with_lock_keeps_names(s, name, lock);
    if !has_name(s, rec.name) {
        let t = s.push(rec);
        assert forall|a: int, b: int|
            0 <= a < t.len() && 0 <= b < t.len() && a != b implies #[trigger] t[a].name
            != #[trigger] t[b].name by {
            if a < s.len() && b < s.len() {
                assert(s[a].name != s[b].name);
            } else if a < s.len() {
                assert(s[a].name != rec.name);
            } else {
                assert(s[b].name != rec.name);
            }
        }
    } else {
        let i = name_index(s, rec.name);
        let t = s.update(i, rec);
        assert forall|a: int, b: int|
            0 <= a < t.len() && 0 <= b < t.len() && a != b implies #[trigger] t[a].name
            != #[trigger] t[b].name by {
            assert(s[a].name != s[b].name);
        }
    }
    if has_name(s, name) {
        let i = name_index(s, name);
        let t = s.remove(i);
        assert forall|a: int, b: int|
            0 <= a < t.len() && 0 <= b < t.len() && a != b implies #[trigger] t[a].name
            != #[trigger] t[b].name by {
            let a0 = if a < i { a } else { a + 1 };
            let b0 = if b < i { b } else { b + 1 };
            assert(t[a] == s[a0]);
            assert(t[b] == s[b0]);
        }
    }
    let u = all_unlocked(s);
    assert forall|a: int, b: int|
        0 <= a < u.len() && 0 <= b < u.len() && a != b implies #[trigger] u[a].name
        != #[trigger] u[b].name by {
        assert(s[a].name != s[b].name);
    }
}

/// After `Create(a)` then `Create(b)` both names are listed; after `Remove(a)`
/// the name `a` is gone, so `Find(a)` finds nothing, while `b` stays.
pub proof fn listing_consistency(s: Seq<FileView>, a: FileView, b: FileView)
    requires
        names_unique(s),
        a.name != b.name,
    ensures
        has_name(created(created(s, a), b), a.name),
        has_name(created(created(s, a), b), b.name),
        !has_name(removed(created(created(s, a), b), a.name), a.name),
        has_name(removed(created(created(s, a), b), a.name), b.name),
{
    let s1 = created(s, a);
    let s2 = created(s1, b);
    names_stay_unique(s, a, a.name, false);
    names_stay_unique(s1, b, a.name, false);
    if !has_name(s, a.name) {
        assert(s1[s.len() as int].name == a.name);
    }
    assert(has_name(s1, a.name));
    let ia = choose|i: int| 0 <= i < s1.len() && #[trigger] s1[i].name == a.name;
    if !has_name(s1, b.name) {
        assert(s2[ia].name == a.name);
        assert(s2[s1.len() as int].name == b.name);
    }
    assert(has_name(s2, a.name));
    assert(has_name(s2, b.name));
    let i = name_index(s2, a.name);
    let u = s2.remove(i);
    let ib = name_index(s2, b.name);
    assert(ib != i);
    let jb = if ib < i { ib } else { ib - 1 };
    assert(u[jb].name == b.name);
    if has_name(u, a.name) {
        let k = choose|k: int| 0 <= k < u.len() && #[trigger] u[k].name == a.name;
        let k0 = if k < i { k } else { k + 1 };
        assert(u[k] == s2[k0]);
        assert(s2[k0].name != s2[i].name);
    }
}

/// After `UnlockAll` no record is locked.
pub proof fn unlock_all_clears(s: Seq<FileView>)
    ensures
        forall|i: int| 0 <= i < all_unlocked(s).len() ==> !(#[trigger] all_unlocked(s)[i]).locked,
{
}

/// The registry of stored files.
#[derive(Debug)]
pub struct FileManager {
    files: Vec<TFile>,
}

impl View for FileManager {
    type V = Seq<FileView>;

    closed spec fn view(&self) -> Seq<FileView> {
        self.files@.map_values(|f: TFile| f@)
    }
}

impl FileManager {
    /// The registry's invariant: names are unique among live records.
    pub open spec fn wf(&self) -> bool {
        names_unique(self@)
    }

    /// An empty registry.
    pub fn initialize() -> (r: FileManager)
        ensures
            r.wf(),
            r@ == Seq::<FileView>::empty(),
    {
        let r = FileManager { files: Vec::new() };
        assert(r@ =~= Seq::<FileView>::empty());
        r
    }

    /// Number of live records.
    pub fn len(&self) -> (r: usize)
        ensures
            r == self@.len(),
    {
        self.files.len()
    }

    fn position(&self, name: &Vec<u8>) -> (r: Option<usize>)
        requires
            self.wf(),
        ensures
            r is None <==> !has_name(self@, name@),
            r matches Some(i) ==> i < self@.len() && i == name_index(self@, name@),
    {
        let mut i: usize = 0;
        while i < self.files.len()
            invariant
                i <= self.files@.len(),
                self.wf(),
                forall|k: int| 0 <= k < i ==> #[trigger] self@[k].name != name@,
            decreases self.files@.len() - i,
        {
            if bytes_eq(&self.files[i].filename, name) {
                proof {
                    lemma_index_unique(self@, name@, i as int);
                }
                return Some(i);
            }
            i = i + 1;
        }
        proof {
            if has_name(self@, name@) {
                let k = choose|k: int| 0 <= k < self@.len() && #[trigger] self@[k].name == name@;
                assert(self@[k].name != name@);
            }
        }
        None
    }

    /// The record called `name`, if there is one.
    pub fn find(&self, name: &Vec<u8>) -> (r: Option<TFile>)
        requires
            self.wf(),
        ensures
            r is None <==> !has_name(self@, name@),
            r matches Some(f) ==> f@ == self@[name_index(self@, name@)] && f@.name == name@,
    {
        match self.position(name) {
            None => None,
            Some(i) => Some(self.files[i].duplicate()),
        }
    }

    /// Adds an unlocked record, unless one of that name exists.
    pub fn create(&mut self, filename: Vec<u8>, path: Vec<u8>, hash: Vec<u8>, created_at: i64) -> (r:
        Result<(), RegistryError>)
        requires
            old(self).wf(),
        ensures
            final(self).wf(),
            r is Ok <==> !has_name(old(self)@, filename@),
            r is Err ==> r == Err::<(), RegistryError>(RegistryError::AlreadyExists),
            final(self)@ == created(
                old(self)@,
                FileView { name: filename@, path: path@, hash: hash@, created: created_at, locked: false },
            ),
    {
        match self.position(&filename) {
            Some(_) => Err(RegistryError::AlreadyExists),
            None => {
                let f = TFile::new_file(filename, path, hash, created_at);
                self.files.push(f);
                assert(self@ =~= old(self)@.push(f@));
                Ok(())
            },
        }
    }

    /// Hashes `data` and adds an unlocked record for it, unless one of that name exists.
    pub fn ingest(&mut self, filename: Vec<u8>, path: Vec<u8>, data: &Vec<u8>, created_at: i64) -> (r:
        Result<(), RegistryError>)
        requires
            old(self).wf(),
        ensures
            final(self).wf(),
            r is Ok <==> !has_name(old(self)@, filename@),
            r is Err ==> r == Err::<(), RegistryError>(RegistryError::AlreadyExists),
            final(self)@ == created(
                old(self)@,
                FileView {
                    name: filename@,
                    path: path@,
                    hash: md5_hex(data@),
                    created: created_at,
                    locked: false,
                },
            ),
    {
        let hash = md5_digest(data);
        self.create(filename, path, hash, created_at)
    }

    /// Records a completed upload: replaces the record of that name, or adds
    /// one; either way the result is unlocked.
    pub fn store(&mut self, filename: Vec<u8>, path: Vec<u8>, hash: Vec<u8>, created_at: i64)
        requires
            old(self).wf(),
        ensures
            final(self).wf(),
            final(self)@ == stored(
                old(self)@,
                FileView { name: filename@, path: path@, hash: hash@, created: created_at, locked: false },
            ),
    {
        match self.position(&filename) {
            Some(i) => {
                let f = TFile::new_file(filename, path, hash, created_at);
                self.files.set(i, f);
                assert(self@ =~= old(self)@.update(i as int, f@));
                assert forall|a: int, b: int|
                    0 <= a < self@.len() && 0 <= b < self@.len() && a != b implies
                    #[trigger] self@[a].name != #[trigger] self@[b].name by {
                    assert(old(self)@[a].name != old(self)@[b].name);
                }
            },
            None => {
                let f = TFile::new_file(filename, path, hash, created_at);
                self.files.push(f);
                assert(self@ =~= old(self)@.push(f@));
            },
        }
    }

    /// Removes the record called `name` and hands it back.
    pub fn remove(&mut self, name: &Vec<u8>) -> (r: Result<TFile, RegistryError>)
        requires
            old(self).wf(),
        ensures
            final(self).wf(),
            r is Ok <==> has_name(old(self)@, name@),
            r matches Ok(f) ==> f@ == old(self)@[name_index(old(self)@, name@)],
            r is Err ==> r->Err_0 == RegistryError::NotFound,
            final(self)@ == removed(old(self)@, name@),
    {
        match self.position(name) {
            None => Err(RegistryError::NotFound),
            Some(i) => {
                let f = self.files.remove(i);
                assert(self@ =~= old(self)@.remove(i as int));
                assert forall|a: int, b: int|
                    0 <= a < self@.len() && 0 <= b < self@.len() && a != b implies
                    #[trigger] self@[a].name != #[trigger] self@[b].name by {
                    let a0 = if a < i { a } else { a + 1 };
                    let b0 = if b < i { b } else { b + 1 };
                    assert(self@[a] == old(self)@[a0]);
                    assert(self@[b] == old(self)@[b0]);
                }
                Ok(f)
            },
        }
    }

    fn set_lock_at(&mut self, i: usize, lock: bool)
        requires
            old(self).wf(),
            i < old(self)@.len(),
        ensures
            final(self).wf(),
            final(self)@ == old(self)@.update(i as int, set_locked(old(self)@[i as int], lock)),
    {
        let mut f = self.files.remove(i);
        f.locked = lock;
        self.files.insert(i, f);
        assert(self@ =~= old(self)@.update(i as int, set_locked(old(self)@[i as int], lock)));
        assert forall|a: int, b: int|
            0 <= a < self@.len() && 0 <= b < self@.len() && a != b implies
            #[trigger] self@[a].name != #[trigger] self@[b].name by {
            assert(old(self)@[a].name != old(self)@[b].name);
        }
    }

    /// Locks the record called `name` in one step: it fails when there is no
    /// such record or when it is already locked.
    pub fn try_lock(&mut self, name: &Vec<u8>) -> (r: Result<(), RegistryError>)
        requires
            old(self).wf(),
        ensures
            final(self).wf(),
            r == Err::<(), RegistryError>(RegistryError::NotFound) <==> !has_name(old(self)@, name@),
            r == Err::<(), RegistryError>(RegistryError::AlreadyLocked) <==> is_locked(old(self)@, name@),
            r is Ok <==> has_name(old(self)@, name@) && !is_locked(old(self)@, name@),
            (final(self)@, r) == try_lock_result(old(self)@, name@),
            r is Ok ==> final(self)@ == with_lock(old(self)@, name@, true),
            r is Err ==> final(self)@ == old(self)@,
    {
        match self.position(name) {
            None => Err(RegistryError::NotFound),
            Some(i) => {
                if self.files[i].locked {
                    Err(RegistryError::AlreadyLocked)
                } else {
                    self.set_lock_at(i, true);
                    Ok(())
                }
            },
        }
    }

    /// Releases the lock of the record called `name`, whether it was held or not.
    pub fn unlock(&mut self, name: &Vec<u8>) -> (r: Result<(), RegistryError>)
        requires
            old(self).wf(),
        ensures
            final(self).wf(),
            r is Ok <==> has_name(old(self)@, name@),
            r is Err ==> r->Err_0 == RegistryError::NotFound,
            final(self)@ == with_lock(old(self)@, name@, false),
    {
        match self.position(name) {
            None => Err(RegistryError::NotFound),
            Some(i) => {
                self.set_lock_at(i, false);
                Ok(())
            },
        }
    }

    /// Takes (`lock`) or releases (`!lock`) the lock of the record called
    /// `name`. Taking it is `try_lock`: it fails on a record that is already
    /// locked, and changes nothing then. Releasing it is `unlock`.
    pub fn lock_file(&mut self, name: &Vec<u8>, lock: bool) -> (r: Result<(), RegistryError>)
        requires
            old(self).wf(),
        ensures
            final(self).wf(),
            lock ==> (final(self)@, r) == try_lock_result(old(self)@, name@),
            !lock ==> final(self)@ == with_lock(old(self)@, name@, false),
            !lock ==> (r is Ok <==> has_name(old(self)@, name@)),
            !lock ==> (r is Err ==> r->Err_0 == RegistryError::NotFound),
    {
        if lock {
            self.try_lock(name)
        } else {
            self.unlock(name)
        }
    }

    /// Releases every lock.
    pub fn unlock_all_files(&mut self)
        requires
            old(self).wf(),
        ensures
            final(self).wf(),
            final(self)@ == all_unlocked(old(self)@),
    {
        let mut i: usize = 0;
        while i < self.files.len()
            invariant
                i <= self@.len(),
                self@.len() == old(self)@.len(),
                self.wf(),
                forall|k: int| 0 <= k < i ==> #[trigger] self@[k] == set_locked(old(self)@[k], false),
                forall|k: int| i <= k < self@.len() ==> #[trigger] self@[k] == old(self)@[k],
            decreases self@.len() - i,
        {
            self.set_lock_at(i, false);
            i = i + 1;
        }
        assert(self@ =~= all_unlocked(old(self)@));
    }

    /// A copy of every record, in the registry's order.
    pub fn list(&self) -> (r: Vec<TFile>)
        ensures
            r@.map_values(|f: TFile| f@) == self@,
    {
        let mut out: Vec<TFile> = Vec::new();
        let mut i: usize = 0;
        while i < self.files.len()
            invariant
                i <= self@.len(),
                out@.len() == i,
                forall|k: int| 0 <= k < i ==> #[trigger] out@[k]@ == self@[k],
            decreases self@.len() - i,
        {
            let f = self.files[i].duplicate();
            out.push(f);
            i = i + 1;
        }
        assert(out@.map_values(|f: TFile| f@) =~= self@);
        out
    }
}

} // verus!
