//! The transactional hand-off of a decided file, on a simulated filesystem:
//! a map from paths to files, each with a device, an owner and its bytes.
//! Accept moves the file into the destination directory — an atomic rename
//! on one device, copy-then-delete across devices — and transfers ownership
//! to the target user; Decline removes it. The executor's contracts state
//! the whole filesystem after each outcome, so nothing else is touched.

use vstd::prelude::*;

verus! {

use crate::ident::Creds;
use crate::ident::UserIdentity;
use crate::paths::file_name_from;
use crate::paths::file_name_of;
use crate::paths::join_path;
use crate::paths::spec_join;
use crate::prompt::Decision;
use vstd::pervasive::unreached;

/// One file: its absolute path, the device it resides on, its owner and
/// its bytes.
pub struct SimFile {
    pub path: String,
    pub device: u64,
    pub owner_uid: u32,
    pub owner_gid: u32,
    pub data: Vec<u8>,
}

/// What a path denotes: the device, owner and bytes of the file there.
pub struct FileModel {
    pub device: u64,
    pub owner_uid: u32,
    pub owner_gid: u32,
    pub data: Seq<u8>,
}

impl SimFile {
    /// The file's content as a path's denotation.
    pub open spec fn model(self) -> FileModel {
        FileModel {
            device: self.device,
            owner_uid: self.owner_uid,
            owner_gid: self.owner_gid,
            data: self.data@,
        }
    }
}

/// No two files of the list share a path.
pub open spec fn unique_paths(s: Seq<SimFile>) -> bool {
    forall|i: int, j: int| 0 <= i < j < s.len() ==> s[i].path@ != s[j].path@
}

/// The map a list of files denotes, path to content.
pub open spec fn files_map(s: Seq<SimFile>) -> Map<Seq<char>, FileModel>
    decreases s.len(),
{
    if s.len() == 0 {
        Map::empty()
    } else {
        files_map(s.drop_last()).insert(s.last().path@, s.last().model())
    }
}

/// A path is in the map exactly when some file of the list carries it.
proof fn lemma_files_map_contains(s: Seq<SimFile>, p: Seq<char>)
    ensures
        files_map(s).contains_key(p) <==> exists|i: int|
            0 <= i < s.len() && (#[trigger] s[i]).path@ == p,
    decreases s.len(),
{
    if s.len() > 0 {
        let pre = s.drop_last();
        lemma_files_map_contains(pre, p);
        if p == s.last().path@ {
            assert(s[s.len() - 1].path@ == p);
        } else {
            if files_map(s).contains_key(p) {
                let i = choose|i: int| 0 <= i < pre.len() && (#[trigger] pre[i]).path@ == p;
                assert(s[i].path@ == p);
            }
            if exists|i: int| 0 <= i < s.len() && (#[trigger] s[i]).path@ == p {
                let i = choose|i: int| 0 <= i < s.len() && (#[trigger] s[i]).path@ == p;
                assert(pre[i].path@ == p);
            }
        }
    }
}

/// With unique paths, the map sends a file's path to that file's content.
proof fn lemma_files_map_index(s: Seq<SimFile>, i: int)
    requires
        unique_paths(s),
        0 <= i < s.len(),
    ensures
        files_map(s).contains_key(s[i].path@),
        files_map(s)[s[i].path@] == s[i].model(),
    decreases s.len(),
{
    if i < s.len() - 1 {
        let pre = s.drop_last();
        assert(unique_paths(pre));
        lemma_files_map_index(pre, i);
        assert(s.last().path@ != s[i].path@);
    }
}

/// Removing a file from the list removes its path from the map.
proof fn lemma_files_map_remove(s: Seq<SimFile>, i: int)
    requires
        unique_paths(s),
        0 <= i < s.len(),
    ensures
        files_map(s.remove(i)) == files_map(s).remove(s[i].path@),
    decreases s.len(),
{
    let p = s[i].path@;
    if i == s.len() - 1 {
        assert(s.remove(i) =~= s.drop_last());
        lemma_files_map_contains(s.drop_last(), p);
        assert(forall|j: int|
            0 <= j < s.drop_last().len() ==> (#[trigger] s.drop_last()[j]).path@ != p);
        assert(files_map(s.drop_last()) =~= files_map(s.drop_last()).remove(p));
        assert(files_map(s.remove(i)) =~= files_map(s).remove(p));
    } else {
        let pre = s.drop_last();
        assert(unique_paths(pre));
        lemma_files_map_remove(pre, i);
        assert(s.remove(i).drop_last() =~= pre.remove(i));
        assert(s.remove(i).last() == s.last());
        assert(s.last().path@ != p);
        assert(files_map(s.remove(i)) == files_map(pre.remove(i)).insert(
            s.last().path@,
            s.last().model(),
        ));
        assert(files_map(pre).remove(p).insert(s.last().path@, s.last().model()) =~= files_map(
            pre,
        ).insert(s.last().path@, s.last().model()).remove(p));
        assert(files_map(s.remove(i)) =~= files_map(s).remove(p));
    }
}

/// Removal keeps paths unique, and leaves no file with the removed path.
proof fn lemma_unique_remove(s: Seq<SimFile>, i: int)
    requires
        unique_paths(s),
        0 <= i < s.len(),
    ensures
        unique_paths(s.remove(i)),
        forall|j: int|
            0 <= j < s.remove(i).len() ==> (#[trigger] s.remove(i)[j]).path@ != s[i].path@,
{
    s.remove_ensures(i);
}

/// Appending a file inserts its path into the map.
proof fn lemma_files_map_push(s: Seq<SimFile>, f: SimFile)
    ensures
        files_map(s.push(f)) == files_map(s).insert(f.path@, f.model()),
{
    assert(s.push(f).drop_last() =~= s);
    assert(s.push(f).last() == f);
}

/// Appending a file with a fresh path keeps paths unique.
proof fn lemma_unique_push(s: Seq<SimFile>, f: SimFile)
    requires
        unique_paths(s),
        forall|j: int| 0 <= j < s.len() ==> (#[trigger] s[j]).path@ != f.path@,
    ensures
        unique_paths(s.push(f)),
{
}

/// Why a simulated rename fails: no file at the source, or source and
/// destination directory on different devices.
#[derive(PartialEq, Eq, Structural, Clone, Copy, Debug)]
pub enum RenameError {
    NotFound,
    CrossesDevices,
}

/// A simulated operation found no file at the path it was given.
#[derive(PartialEq, Eq, Structural, Clone, Copy, Debug)]
pub enum FsError {
    NotFound,
}

/// An exact copy of a byte vector.
fn clone_bytes(src: &Vec<u8>) -> (r: Vec<u8>)
    ensures
        r@ == src@,
{
    let mut r: Vec<u8> = Vec::new();
    let n = src.len();
    let mut i: usize = 0;
    while i < n
        invariant
            n == src@.len(),
            i <= n,
            r@ == src@.take(i as int),
        decreases n - i,
    {
        r.push(src[i]);
        proof {
            assert(r@ =~= src@.take(i + 1));
        }
        i = i + 1;
    }
    proof {
        assert(src@.take(n as int) =~= src@);
    }
    r
}

/// The simulated filesystem: a collection of files, no two sharing a path.
pub struct SimFs {
    pub files: Vec<SimFile>,
}

impl SimFs {
    /// No two files share a path.
    pub open spec fn wf(self) -> bool {
        unique_paths(self.files@)
    }

    /// The filesystem as a map from paths to file contents.
    pub open spec fn as_map(self) -> Map<Seq<char>, FileModel> {
        files_map(self.files@)
    }

    /// An empty filesystem.
    pub fn new() -> (r: SimFs)
        ensures
            r.wf(),
            r.as_map() == Map::<Seq<char>, FileModel>::empty(),
    {
        SimFs { files: Vec::new() }
    }

    /// Index of the file at `path`, if any.
    fn find(&self, path: &String) -> (r: Option<usize>)
        ensures
            r matches Some(i) ==> i < self.files@.len() && self.files@[i as int].path@ == path@,
            r is None ==> forall|j: int|
                0 <= j < self.files@.len() ==> (#[trigger] self.files@[j]).path@ != path@,
    {
        let n = self.files.len();
        let mut i: usize = 0;
        while i < n
            invariant
                n == self.files@.len(),
                i <= n,
                forall|j: int| 0 <= j < i ==> (#[trigger] self.files@[j]).path@ != path@,
            decreases n - i,
        {
            if self.files[i].path == *path {
                return Some(i);
            }
            i = i + 1;
        }
        None
    }

    /// The file at `path`, if any.
    pub fn lookup<'a>(&'a self, path: &String) -> (r: Option<&'a SimFile>)
        requires
            self.wf(),
        ensures
            r matches Some(f) ==> self.as_map().contains_key(path@) && f.path@ == path@
                && f.model() == self.as_map()[path@],
            r is None ==> !self.as_map().contains_key(path@),
    {
        proof {
            lemma_files_map_contains(self.files@, path@);
        }
        match self.find(path) {
            Some(i) => {
                proof {
                    lemma_files_map_index(self.files@, i as int);
                }
                Some(&self.files[i])
            },
            None => None,
        }
    }

    /// Places a file, replacing any file already at its path: how the spool
    /// comes to hold an arrival in the first place.
    pub fn add_file(&mut self, file: SimFile)
        requires
            old(self).wf(),
        ensures
            final(self).wf(),
            final(self).as_map() == old(self).as_map().insert(file.path@, file.model()),
    {
        let ghost s0 = self.files@;
        let ghost g = file;
        match self.find(&file.path) {
            Some(i) => {
                let _ = self.files.remove(i);
                proof {
                    lemma_files_map_remove(s0, i as int);
                    lemma_unique_remove(s0, i as int);
                }
            },
            None => {},
        }
        let ghost s1 = self.files@;
        self.files.push(file);
        proof {
            lemma_unique_push(s1, g);
            lemma_files_map_push(s1, g);
            assert(final(self).as_map() =~= old(self).as_map().insert(g.path@, g.model()));
        }
    }

    /// Atomic rename within one device: the file moves to `to`, replacing
    /// any file already there; bytes and ownership travel unchanged. Fails
    /// without effect when the source is missing or the destination
    /// directory's device differs from the source's.
    pub fn rename(&mut self, from: &String, to: &String, to_device: u64) -> (r: Result<
        (),
        RenameError,
    >)
        requires
            old(self).wf(),
            from@ != to@,
        ensures
            final(self).wf(),
            r matches Ok(_) ==> old(self).as_map().contains_key(from@) && old(self).as_map()[from@].device
                == to_device && final(self).as_map() == old(self).as_map().remove(from@).insert(
                to@,
                old(self).as_map()[from@],
            ),
            r matches Err(e) ==> *final(self) == *old(self) && (e == RenameError::NotFound ==> !old(
                self,
            ).as_map().contains_key(from@)) && (e == RenameError::CrossesDevices ==> old(
                self,
            ).as_map().contains_key(from@) && old(self).as_map()[from@].device != to_device),
    {
        let ghost s0 = self.files@;
        let i: usize = match self.find(from) {
            None => {
                proof {
                    lemma_files_map_contains(s0, from@);
                }
                return Err(RenameError::NotFound);
            },
            Some(i) => i,
        };
        proof {
            lemma_files_map_index(s0, i as int);
        }
        if self.files[i].device != to_device {
            return Err(RenameError::CrossesDevices);
        }
        let f = self.files.remove(i);
        proof {
            lemma_files_map_remove(s0, i as int);
            lemma_unique_remove(s0, i as int);
        }
        let ghost s1 = self.files@;
        match self.find(to) {
            Some(j) => {
                let _ = self.files.remove(j);
                proof {
                    lemma_files_map_remove(s1, j as int);
                    lemma_unique_remove(s1, j as int);
                }
            },
            None => {},
        }
        let nf = SimFile {
            path: to.clone(),
            device: f.device,
            owner_uid: f.owner_uid,
            owner_gid: f.owner_gid,
            data: f.data,
        };
        let ghost g = nf;
        let ghost s2 = self.files@;
        self.files.push(nf);
        proof {
            lemma_unique_push(s2, g);
            lemma_files_map_push(s2, g);
            assert(final(self).as_map() =~= old(self).as_map().remove(from@).insert(
                to@,
                old(self).as_map()[from@],
            ));
        }
        Ok(())
    }

    /// Copies the file at `from` to `to` on the destination directory's
    /// device, replacing any file already there. The copy is owned by the
    /// ids of the process that writes it. Fails without effect when the
    /// source is missing.
    pub fn copy(
        &mut self,
        from: &String,
        to: &String,
        to_device: u64,
        owner_uid: u32,
        owner_gid: u32,
    ) -> (r: Result<(), FsError>)
        requires
            old(self).wf(),
            from@ != to@,
        ensures
            final(self).wf(),
            r matches Ok(_) ==> old(self).as_map().contains_key(from@) && final(self).as_map()
                == old(self).as_map().insert(
                to@,
                (FileModel {
                    device: to_device,
                    owner_uid: owner_uid,
                    owner_gid: owner_gid,
                    data: old(self).as_map()[from@].data,
                }),
            ),
            r matches Err(_) ==> *final(self) == *old(self) && !old(self).as_map().contains_key(
                from@,
            ),
    {
        let ghost s0 = self.files@;
        let i: usize = match self.find(from) {
            None => {
                proof {
                    lemma_files_map_contains(s0, from@);
                }
                return Err(FsError::NotFound);
            },
            Some(i) => i,
        };
        proof {
            lemma_files_map_index(s0, i as int);
        }
        let data = clone_bytes(&self.files[i].data);
        let ghost s1 = self.files@;
        match self.find(to) {
            Some(j) => {
                let _ = self.files.remove(j);
                proof {
                    lemma_files_map_remove(s1, j as int);
                    lemma_unique_remove(s1, j as int);
                }
            },
            None => {},
        }
        let nf = SimFile { path: to.clone(), device: to_device, owner_uid, owner_gid, data };
        let ghost g = nf;
        let ghost s2 = self.files@;
        self.files.push(nf);
        proof {
            lemma_unique_push(s2, g);
            lemma_files_map_push(s2, g);
            assert(final(self).as_map() =~= old(self).as_map().insert(to@, g.model()));
        }
        Ok(())
    }

    /// Removes the file at `path`. Fails without effect when none is there.
    pub fn remove_file(&mut self, path: &String) -> (r: Result<(), FsError>)
        requires
            old(self).wf(),
        ensures
            final(self).wf(),
            r matches Ok(_) ==> old(self).as_map().contains_key(path@) && final(self).as_map()
                == old(self).as_map().remove(path@),
            r matches Err(_) ==> *final(self) == *old(self) && !old(self).as_map().contains_key(
                path@,
            ),
    {
        let ghost s0 = self.files@;
        match self.find(path) {
            None => {
                proof {
                    lemma_files_map_contains(s0, path@);
                }
                Err(FsError::NotFound)
            },
            Some(i) => {
                proof {
                    lemma_files_map_index(s0, i as int);
                }
                let _ = self.files.remove(i);
                proof {
                    lemma_files_map_remove(s0, i as int);
                    lemma_unique_remove(s0, i as int);
                }
                Ok(())
            },
        }
    }

    /// Transfers ownership of the file at `path` to the resolved uid and
    /// gid of `who`. Fails without effect when no file is there.
    pub fn change_ownership(&mut self, path: &String, who: &UserIdentity) -> (r: Result<
        (),
        FsError,
    >)
        requires
            old(self).wf(),
        ensures
            final(self).wf(),
            r matches Ok(_) ==> old(self).as_map().contains_key(path@) && final(self).as_map()
                == old(self).as_map().insert(
                path@,
                (FileModel {
                    device: old(self).as_map()[path@].device,
                    owner_uid: who.uid,
                    owner_gid: who.gid,
                    data: old(self).as_map()[path@].data,
                }),
            ),
            r matches Err(_) ==> *final(self) == *old(self) && !old(self).as_map().contains_key(
                path@,
            ),
    {
        let ghost s0 = self.files@;
        let i: usize = match self.find(path) {
            None => {
                proof {
                    lemma_files_map_contains(s0, path@);
                }
                return Err(FsError::NotFound);
            },
            Some(i) => i,
        };
        proof {
            lemma_files_map_index(s0, i as int);
        }
        let f = self.files.remove(i);
        proof {
            lemma_files_map_remove(s0, i as int);
            lemma_unique_remove(s0, i as int);
        }
        let nf = SimFile {
            path: f.path,
            device: f.device,
            owner_uid: who.uid,
            owner_gid: who.gid,
            data: f.data,
        };
        let ghost g = nf;
        let ghost s2 = self.files@;
        self.files.push(nf);
        proof {
            lemma_unique_push(s2, g);
            lemma_files_map_push(s2, g);
            assert(final(self).as_map() =~= old(self).as_map().insert(path@, g.model()));
        }
        Ok(())
    }
}

/// The accept path could not run: in the model, only a missing source.
#[derive(PartialEq, Eq, Structural, Clone, Copy, Debug)]
pub enum TransferError {
    SourceMissing,
}

/// The decline path could not remove the source.
#[derive(PartialEq, Eq, Structural, Clone, Copy, Debug)]
pub enum DeleteError {
    SourceMissing,
}

/// The transfer of an accepted file: an atomic rename into place, with a
/// copy-then-delete fallback when source and destination directory lie on
/// different devices, then an ownership transfer to the target user.
/// `executor` is the identity of the process carrying the transfer out; a
/// cross-device copy is first written under it, before ownership moves.
/// On error the source file is left untouched.
pub fn move_file(
    fs: &mut SimFs,
    from: &String,
    to: &String,
    to_device: u64,
    who: &UserIdentity,
    executor: Creds,
) -> (r: Result<(), TransferError>)
    requires
        old(fs).wf(),
        from@ != to@,
    ensures
        final(fs).wf(),
        r matches Ok(_) ==> old(fs).as_map().contains_key(from@) && final(fs).as_map() == old(
            fs,
        ).as_map().remove(from@).insert(
            to@,
            (FileModel {
                device: to_device,
                owner_uid: who.uid,
                owner_gid: who.gid,
                data: old(fs).as_map()[from@].data,
            }),
        ),
        r matches Err(_) ==> *final(fs) == *old(fs) && !old(fs).as_map().contains_key(from@),
{
    match fs.rename(from, to, to_device) {
        Ok(()) => {
            match fs.change_ownership(to, who) {
                Ok(()) => {
                    proof {
                        assert(final(fs).as_map() =~= old(fs).as_map().remove(from@).insert(
                            to@,
                            (FileModel {
                                device: to_device,
                                owner_uid: who.uid,
                                owner_gid: who.gid,
                                data: old(fs).as_map()[from@].data,
                            }),
                        ));
                    }
                    Ok(())
                },
                Err(_) => unreached(),
            }
        },
        Err(RenameError::CrossesDevices) => {
            match fs.copy(from, to, to_device, executor.uid, executor.gid) {
                Err(_) => unreached(),
                Ok(()) => {},
            }
            match fs.remove_file(from) {
                Err(_) => unreached(),
                Ok(()) => {},
            }
            match fs.change_ownership(to, who) {
                Err(_) => unreached(),
                Ok(()) => {
                    proof {
                        assert(final(fs).as_map() =~= old(fs).as_map().remove(from@).insert(
                            to@,
                            (FileModel {
                                device: to_device,
                                owner_uid: who.uid,
                                owner_gid: who.gid,
                                data: old(fs).as_map()[from@].data,
                            }),
                        ));
                    }
                    Ok(())
                },
            }
        },
        Err(RenameError::NotFound) => Err(TransferError::SourceMissing),
    }
}

/// The two terminal dispositions a file can receive; no file receives more
/// than one.
#[derive(PartialEq, Eq, Structural, Clone, Copy, Debug)]
pub enum Disposition {
    Moved,
    Deleted,
}

/// The step of a disposition that failed: the accept path's transfer or the
/// decline path's removal. Either way the source is left where it was.
#[derive(PartialEq, Eq, Structural, Clone, Copy, Debug)]
pub enum DisposeError {
    Transfer(TransferError),
    Delete(DeleteError),
}

/// The filesystem after an accepted arrival: the source is gone and the
/// destination path holds its bytes, on the destination directory's device,
/// owned by the target user.
pub open spec fn accept_result(
    m: Map<Seq<char>, FileModel>,
    source: Seq<char>,
    dest: Seq<char>,
    dest_device: u64,
    uid: u32,
    gid: u32,
) -> Map<Seq<char>, FileModel> {
    m.remove(source).insert(
        dest,
        FileModel { device: dest_device, owner_uid: uid, owner_gid: gid, data: m[source].data },
    )
}

/// The filesystem after a declined arrival: the source is gone and nothing
/// else changed.
pub open spec fn decline_result(
    m: Map<Seq<char>, FileModel>,
    source: Seq<char>,
) -> Map<Seq<char>, FileModel> {
    m.remove(source)
}

/// The destination path of an arrival: the destination directory joined
/// with the arrival's file name.
pub open spec fn dest_path_of(dest_dir: Seq<char>, source: Seq<char>) -> Seq<char> {
    spec_join(dest_dir, file_name_of(source))
}

/// Executes a decision on one arrival. Accept moves the file to
/// `dest_dir/name` — across devices if need be — and hands it to the target
/// user; Decline removes it from the spool, for any source path. On error
/// the filesystem is untouched and the error names the step that failed.
pub fn dispose(
    fs: &mut SimFs,
    source: &String,
    decision: Decision,
    dest_dir: &String,
    dest_device: u64,
    who: &UserIdentity,
    executor: Creds,
) -> (r: Result<Disposition, DisposeError>)
    requires
        old(fs).wf(),
        decision == Decision::Accept ==> source@ != dest_path_of(dest_dir@, source@),
    ensures
        final(fs).wf(),
        decision == Decision::Accept && old(fs).as_map().contains_key(source@) ==> (r matches Ok(d)
            && d == Disposition::Moved) && final(fs).as_map() == accept_result(
            old(fs).as_map(),
            source@,
            dest_path_of(dest_dir@, source@),
            dest_device,
            who.uid,
            who.gid,
        ),
        decision == Decision::Decline && old(fs).as_map().contains_key(source@) ==> (r matches Ok(
            d,
        ) && d == Disposition::Deleted) && final(fs).as_map() == decline_result(
            old(fs).as_map(),
            source@,
        ),
        !old(fs).as_map().contains_key(source@) ==> *final(fs) == *old(fs) && (r matches Err(e)
            && e == (if decision == Decision::Accept {
            DisposeError::Transfer(TransferError::SourceMissing)
        } else {
            DisposeError::Delete(DeleteError::SourceMissing)
        })),
{
    let name = file_name_from(source);
    let dest = join_path(dest_dir, &name);
    match decision {
        Decision::Accept => {
            match move_file(fs, source, &dest, dest_device, who, executor) {
                Ok(()) => Ok(Disposition::Moved),
                Err(TransferError::SourceMissing) => Err(
                    DisposeError::Transfer(TransferError::SourceMissing),
                ),
            }
        },
        Decision::Decline => {
            match fs.remove_file(source) {
                Ok(()) => Ok(Disposition::Deleted),
                Err(FsError::NotFound) => Err(DisposeError::Delete(DeleteError::SourceMissing)),
            }
        },
    }
}

/// After an accepted arrival the destination path exists, is owned by the
/// target identity's uid and gid, carries the destination device, holds
/// exactly the source's bytes, and the source path no longer exists; every
/// other path is untouched. This holds whether the move was an atomic
/// rename or the cross-device copy-then-delete fallback: the result does
/// not depend on the devices.
pub proof fn lemma_accept_disposition(
    m: Map<Seq<char>, FileModel>,
    source: Seq<char>,
    dest: Seq<char>,
    dest_device: u64,
    uid: u32,
    gid: u32,
)
    requires
        m.contains_key(source),
        source != dest,
    ensures
        accept_result(m, source, dest, dest_device, uid, gid).contains_key(dest),
        accept_result(m, source, dest, dest_device, uid, gid)[dest].owner_uid == uid,
        accept_result(m, source, dest, dest_device, uid, gid)[dest].owner_gid == gid,
        accept_result(m, source, dest, dest_device, uid, gid)[dest].device == dest_device,
        accept_result(m, source, dest, dest_device, uid, gid)[dest].data == m[source].data,
        !accept_result(m, source, dest, dest_device, uid, gid).contains_key(source),
        forall|p: Seq<char>|
            p != source && p != dest ==> (accept_result(
                m,
                source,
                dest,
                dest_device,
                uid,
                gid,
            ).contains_key(p) <==> m.contains_key(p)) && (m.contains_key(p) ==> accept_result(
                m,
                source,
                dest,
                dest_device,
                uid,
                gid,
            )[p] == m[p]),
{
}

/// After a declined arrival the source path no longer exists and no entry
/// was created: every surviving path already existed, unchanged.
pub proof fn lemma_decline_disposition(m: Map<Seq<char>, FileModel>, source: Seq<char>)
    ensures
        !decline_result(m, source).contains_key(source),
        forall|p: Seq<char>|
            decline_result(m, source).contains_key(p) ==> m.contains_key(p) && decline_result(
                m,
                source,
            )[p] == m[p],
{
}

} // verus!
