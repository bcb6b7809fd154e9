//! One SRD increase, as a job that the host drives step by step: the job
//! names a fresh directory, has the random buffer sealed into `M_FILE_COUNT`
//! files named by their digests, writes the list of those digests, renames
//! the directory after the digest of that list and records the name.
//!
//! Each step takes what the host's last piece of work produced and answers
//! with the next piece of work (an `IncreaseAction`).
use vstd::prelude::*;
use crate::digest::{sgx_sha256_digest, sha256};
use crate::hashes::SrdHashes;
use crate::paths::{m_file_path, m_file_path_of, m_hashs_path, m_hashs_path_of};
use crate::status::{SGX_ERROR_INVALID_PARAMETER, SGX_ERROR_UNEXPECTED, SGX_SUCCESS};
use crate::text::{hex_of, to_hex_string};

verus! {

/// How many sealed files one SRD directory holds.
pub const M_FILE_COUNT: usize = 1024;

/// Bytes in one digest.
pub const DIGEST_SIZE: usize = 32;

/// Where a job stands.
#[derive(Clone, Copy, Debug, PartialEq, Eq)]
pub enum IncreasePhase {
    /// Waiting for the directory to be created.
    CreatingDir,
    /// Waiting for the next file to be sealed.
    Sealing,
    /// Waiting for a sealed file to be written.
    StoringMFile,
    /// All files written; the digest list is to be hashed.
    HashingList,
    /// Waiting for the digest list to be written.
    StoringList,
    /// Waiting for the directory to be renamed.
    Renaming,
    /// Done, successfully or not.
    Finished,
}

/// What sealing one file produced.
#[derive(Debug, PartialEq, Eq)]
pub enum SealOutcome {
    /// The sealed bytes, ready to be written.
    Sealed(Vec<u8>),
    /// Sealing failed with this status.
    SealFailed(u32),
    /// The sealed data did not fit the buffer meant for it.
    LogRejected,
}

/// The next piece of work a job asks of the host.
#[derive(Debug, PartialEq, Eq)]
pub enum IncreaseAction {
    /// Create this directory; its outcome does not matter.
    CreateDir { path: String },
    /// Seal the random buffer for the file with this index.
    SealMFile { index: usize },
    /// Write `data` to the file `path` and report the status.
    StoreFile { path: String, data: Vec<u8> },
    /// Let the job hash its digest list (`SrdIncrease::hash_list`).
    HashList,
    /// Rename directory `from` to `to`; its outcome does not matter.
    Rename { from: String, to: String },
    /// The job ended with this status.
    Fail { status: u32 },
}

/// One SRD increase in progress.
pub struct SrdIncrease {
    /// The directory being filled, named by random hex.
    pub dir_path: String,
    /// Index of the file being sealed or written.
    pub index: usize,
    /// Digest of the file being written, once it is known.
    pub pending: Vec<u8>,
    /// The digest list: `M_FILE_COUNT * DIGEST_SIZE` zero bytes, then the
    /// digest of each file written so far.
    pub m_hashs: Vec<u8>,
    /// The final name of the directory, once it is known.
    pub g_hash: String,
    pub phase: IncreasePhase,
    /// The digests of the files written so far, in order.
    pub digests: Ghost<Seq<Seq<u8>>>,
}

/// The zero bytes that the digest list starts with.
pub open spec fn list_prefix() -> Seq<u8> {
    Seq::new((M_FILE_COUNT * DIGEST_SIZE) as nat, |i: int| 0u8)
}

/// The digests of `ds`, one after the other.
pub open spec fn concat(ds: Seq<Seq<u8>>) -> Seq<u8>
    decreases ds.len(),
{
    if ds.len() == 0 {
        Seq::empty()
    } else {
        concat(ds.drop_last()) + ds.last()
    }
}

/// Digests of `DIGEST_SIZE` bytes lie back to back: byte `j` of the
/// `i`-th digest sits at `DIGEST_SIZE * i + j`.
pub proof fn lemma_concat_layout(ds: Seq<Seq<u8>>)
    requires
        forall|i: int| 0 <= i < ds.len() ==> (#[trigger] ds[i]).len() == DIGEST_SIZE,
    ensures
        concat(ds).len() == DIGEST_SIZE * ds.len(),
        forall|i: int, j: int|
            0 <= i < ds.len() && 0 <= j < DIGEST_SIZE ==> concat(ds)[DIGEST_SIZE * i + j]
                == #[trigger] ds[i][j],
    decreases ds.len(),
{
    if ds.len() > 0 {
        let rest = ds.drop_last();
        assert forall|i: int| 0 <= i < rest.len() implies (#[trigger] rest[i]).len()
            == DIGEST_SIZE by {
            assert(rest[i] == ds[i]);
        }
        lemma_concat_layout(rest);
        assert forall|i: int, j: int|
            0 <= i < ds.len() && 0 <= j < DIGEST_SIZE implies concat(ds)[DIGEST_SIZE * i + j]
            == #[trigger] ds[i][j] by {
            if i < ds.len() - 1 {
                assert(rest[i] == ds[i]);
                assert(DIGEST_SIZE * i + j < DIGEST_SIZE * rest.len());
            } else {
                assert(DIGEST_SIZE * i == DIGEST_SIZE * rest.len());
            }
        }
    }
}

impl SrdIncrease {
    /// Once every file is written, the digest list is `M_FILE_COUNT *
    /// DIGEST_SIZE` zero bytes followed by the digest of each file in index
    /// order: the digest of file `i` starts at byte
    /// `M_FILE_COUNT * DIGEST_SIZE + DIGEST_SIZE * i`.
    pub proof fn lemma_list_layout(&self)
        requires
            self.wf(),
            self.index == M_FILE_COUNT,
        ensures
            self.m_hashs@.len() == 2 * M_FILE_COUNT * DIGEST_SIZE,
            self.m_hashs@.take((M_FILE_COUNT * DIGEST_SIZE) as int) == list_prefix(),
            self.m_hashs@.skip((M_FILE_COUNT * DIGEST_SIZE) as int) == concat(self.digests@),
            forall|k: int| 0 <= k < M_FILE_COUNT * DIGEST_SIZE ==> #[trigger] self.m_hashs@[k] == 0,
            forall|i: int, j: int|
                0 <= i < M_FILE_COUNT && 0 <= j < DIGEST_SIZE ==> self.m_hashs@[M_FILE_COUNT
                    * DIGEST_SIZE + DIGEST_SIZE * i + j] == #[trigger] self.digests@[i][j],
    {
        lemma_concat_layout(self.digests@);
        let c = concat(self.digests@);
        assert(self.m_hashs@.take((M_FILE_COUNT * DIGEST_SIZE) as int) =~= list_prefix());
        assert(self.m_hashs@.skip((M_FILE_COUNT * DIGEST_SIZE) as int) =~= c);
        assert forall|i: int, j: int|
            0 <= i < M_FILE_COUNT && 0 <= j < DIGEST_SIZE implies self.m_hashs@[M_FILE_COUNT
            * DIGEST_SIZE + DIGEST_SIZE * i + j] == #[trigger] self.digests@[i][j] by {
            assert(c[DIGEST_SIZE * i + j] == self.digests@[i][j]);
        }
    }

    /// The job's state is consistent with the files written so far.
    pub open spec fn wf(&self) -> bool {
        &&& self.index <= M_FILE_COUNT
        &&& self.digests@.len() == self.index
        &&& self.m_hashs@ == list_prefix() + concat(self.digests@)
        &&& forall|i: int|
            0 <= i < self.digests@.len() ==> (#[trigger] self.digests@[i]).len() == DIGEST_SIZE
        &&& (self.phase == IncreasePhase::StoringMFile ==> self.pending@.len() == DIGEST_SIZE)
        &&& (self.phase == IncreasePhase::CreatingDir ==> self.index == 0)
        &&& (self.phase == IncreasePhase::Sealing ==> self.index < M_FILE_COUNT)
        &&& (self.phase == IncreasePhase::StoringMFile ==> self.index < M_FILE_COUNT)
        &&& (self.phase == IncreasePhase::HashingList ==> self.index == M_FILE_COUNT)
        &&& (self.phase == IncreasePhase::StoringList ==> self.index == M_FILE_COUNT)
        &&& (self.phase == IncreasePhase::Renaming ==> self.index == M_FILE_COUNT)
    }

    /// Nothing but the phase and the pending digest changed.
    pub open spec fn same_progress(&self, other: &SrdIncrease) -> bool {
        &&& self.dir_path@ == other.dir_path@
        &&& self.index == other.index
        &&& self.m_hashs@ == other.m_hashs@
        &&& self.digests@ == other.digests@
    }

    /// Starts a job whose directory is named by the hex of `dir_rand`, and
    /// asks for that directory to be created.
    pub fn begin(dir_rand: &Vec<u8>) -> (res: (SrdIncrease, IncreaseAction))
        ensures
            res.0.wf(),
            res.0.dir_path@ == hex_of(dir_rand@),
            res.0.index == 0,
            res.0.phase == IncreasePhase::CreatingDir,
            res.1 matches IncreaseAction::CreateDir { path } && path@ == hex_of(dir_rand@),
    {
        let copy = dir_rand.clone();
        assert(copy@ =~= dir_rand@);
        let dir_path = to_hex_string(copy);
        let mut m_hashs: Vec<u8> = Vec::new();
        let mut i: usize = 0;
        while i < M_FILE_COUNT * DIGEST_SIZE
            invariant
                i <= M_FILE_COUNT * DIGEST_SIZE,
                m_hashs@ == Seq::new(i as nat, |j: int| 0u8),
            decreases M_FILE_COUNT * DIGEST_SIZE - i,
        {
            m_hashs.push(0u8);
            assert(m_hashs@ =~= Seq::new((i + 1) as nat, |j: int| 0u8));
            i = i + 1;
        }
        assert(m_hashs@ =~= list_prefix() + concat(Seq::<Seq<u8>>::empty()));
        let path = dir_path.clone();
        let job = SrdIncrease {
            dir_path,
            index: 0,
            pending: Vec::new(),
            m_hashs,
            g_hash: String::new(),
            phase: IncreasePhase::CreatingDir,
            digests: Ghost(Seq::empty()),
        };
        (job, IncreaseAction::CreateDir { path })
    }

    /// The directory exists (or not: it does not matter); the first file is
    /// to be sealed.
    pub fn on_dir_created(&mut self) -> (action: IncreaseAction)
        requires
            old(self).wf(),
            old(self).phase == IncreasePhase::CreatingDir,
        ensures
            final(self).wf(),
            final(self).same_progress(old(self)),
            final(self).phase == IncreasePhase::Sealing,
            action == (IncreaseAction::SealMFile { index: 0 }),
    {
        self.phase = IncreasePhase::Sealing;
        IncreaseAction::SealMFile { index: 0 }
    }

    /// The current file was sealed (or not): hashes the sealed bytes and
    /// asks for them to be written as `<dir>/<index>_<hex digest>`. A
    /// sealing failure ends the job with its status, a rejected buffer with
    /// `SGX_ERROR_INVALID_PARAMETER`, a hashing failure with
    /// `SGX_ERROR_UNEXPECTED`.
    pub fn on_m_file_sealed(&mut self, outcome: SealOutcome) -> (action: IncreaseAction)
        requires
            old(self).wf(),
            old(self).phase == IncreasePhase::Sealing,
        ensures
            final(self).wf(),
            final(self).same_progress(old(self)),
            match outcome {
                SealOutcome::SealFailed(s) => action == (IncreaseAction::Fail { status: s })
                    && final(self).phase == IncreasePhase::Finished,
                SealOutcome::LogRejected => action == (IncreaseAction::Fail {
                    status: SGX_ERROR_INVALID_PARAMETER,
                }) && final(self).phase == IncreasePhase::Finished,
                SealOutcome::Sealed(sealed) => {
                    &&& sealed@.len() == 0 ==> action == (IncreaseAction::Fail {
                        status: SGX_ERROR_UNEXPECTED,
                    })
                    &&& {
                        ||| action == (IncreaseAction::Fail { status: SGX_ERROR_UNEXPECTED })
                            && final(self).phase == IncreasePhase::Finished
                        ||| action matches IncreaseAction::StoreFile { path, data }
                            && path@ == m_file_path_of(
                                old(self).dir_path@,
                                old(self).index as nat,
                                sgx_sha256_digest(sealed@),
                            ) && data@ == sealed@
                            && sgx_sha256_digest(sealed@).len() == DIGEST_SIZE
                            && final(self).pending@ == sgx_sha256_digest(sealed@)
                            && final(self).phase == IncreasePhase::StoringMFile
                    }
                },
            },
    {
        match outcome {
            SealOutcome::SealFailed(s) => self.on_seal_failed(s),
            SealOutcome::LogRejected => self.on_seal_failed(SGX_ERROR_INVALID_PARAMETER),
            SealOutcome::Sealed(data) => {
                let digest = sha256(data.as_slice());
                self.on_m_file_hashed(data, digest)
            },
        }
    }

    /// Sealing the current file failed with `status`: the job ends with it.
    pub fn on_seal_failed(&mut self, status: u32) -> (action: IncreaseAction)
        requires
            old(self).wf(),
            old(self).phase == IncreasePhase::Sealing,
        ensures
            final(self).wf(),
            final(self).same_progress(old(self)),
            action == (IncreaseAction::Fail { status }),
            final(self).phase == IncreasePhase::Finished,
    {
        self.phase = IncreasePhase::Finished;
        IncreaseAction::Fail { status }
    }

    /// The sealed bytes of the current file and their digest, if hashing
    /// worked: asks for the bytes to be written as
    /// `<dir>/<index>_<hex digest>`; without a digest the job ends with
    /// `SGX_ERROR_UNEXPECTED`.
    pub fn on_m_file_hashed(&mut self, sealed: Vec<u8>, digest: Option<Vec<u8>>) -> (action:
        IncreaseAction)
        requires
            old(self).wf(),
            old(self).phase == IncreasePhase::Sealing,
            digest matches Some(d) ==> d@.len() == DIGEST_SIZE,
        ensures
            final(self).wf(),
            final(self).same_progress(old(self)),
            match digest {
                None => action == (IncreaseAction::Fail { status: SGX_ERROR_UNEXPECTED })
                    && final(self).phase == IncreasePhase::Finished,
                Some(d) => action matches IncreaseAction::StoreFile { path, data }
                    && path@ == m_file_path_of(old(self).dir_path@, old(self).index as nat, d@)
                    && data@ == sealed@
                    && final(self).pending@ == d@
                    && final(self).phase == IncreasePhase::StoringMFile,
            },
    {
        match digest {
            None => {
                self.phase = IncreasePhase::Finished;
                IncreaseAction::Fail { status: SGX_ERROR_UNEXPECTED }
            },
            Some(d) => {
                let path = m_file_path(self.dir_path.as_str(), self.index, &d);
                self.pending = d;
                self.phase = IncreasePhase::StoringMFile;
                IncreaseAction::StoreFile { path, data: sealed }
            },
        }
    }

    /// The current file was written with `status`: on success its digest
    /// joins the list and the next file is to be sealed, or, after the
    /// last one, the list is to be hashed; otherwise the job ends with
    /// that status.
    pub open spec fn m_file_stored_post(
        old_job: SrdIncrease,
        new_job: SrdIncrease,
        status: u32,
        action: IncreaseAction,
    ) -> bool {
        &&& new_job.dir_path@ == old_job.dir_path@
        &&& status != SGX_SUCCESS ==> action == (IncreaseAction::Fail { status })
            && new_job.phase == IncreasePhase::Finished && new_job.same_progress(&old_job)
        &&& status == SGX_SUCCESS ==> {
            &&& new_job.index == old_job.index + 1
            &&& new_job.digests@ == old_job.digests@.push(old_job.pending@)
            &&& new_job.m_hashs@ == old_job.m_hashs@ + old_job.pending@
            &&& if new_job.index < M_FILE_COUNT {
                action == (IncreaseAction::SealMFile { index: new_job.index }) && new_job.phase
                    == IncreasePhase::Sealing
            } else {
                action == IncreaseAction::HashList && new_job.phase == IncreasePhase::HashingList
            }
        }
    }

    /// The digest list was written with `status`: on success the directory
    /// is to be renamed to its final name; otherwise the job ends with that
    /// status.
    pub open spec fn list_stored_post(
        old_job: SrdIncrease,
        new_job: SrdIncrease,
        status: u32,
        action: IncreaseAction,
    ) -> bool {
        &&& new_job.same_progress(&old_job)
        &&& new_job.g_hash@ == old_job.g_hash@
        &&& status != SGX_SUCCESS ==> action == (IncreaseAction::Fail { status })
            && new_job.phase == IncreasePhase::Finished
        &&& status == SGX_SUCCESS ==> (action matches IncreaseAction::Rename { from, to }
            && from@ == old_job.dir_path@ && to@ == old_job.g_hash@ && new_job.phase
            == IncreasePhase::Renaming)
    }

    /// A file was written with `status`: the current sealed file while the
    /// files are being written, the digest list afterwards.
    pub fn on_file_stored(&mut self, status: u32) -> (action: IncreaseAction)
        requires
            old(self).wf(),
            old(self).phase == IncreasePhase::StoringMFile || old(self).phase
                == IncreasePhase::StoringList,
        ensures
            final(self).wf(),
            old(self).phase == IncreasePhase::StoringMFile ==> Self::m_file_stored_post(
                *old(self),
                *final(self),
                status,
                action,
            ),
            old(self).phase == IncreasePhase::StoringList ==> Self::list_stored_post(
                *old(self),
                *final(self),
                status,
                action,
            ),
    {
        match self.phase {
            IncreasePhase::StoringMFile => self.on_m_file_stored(status),
            _ => self.on_list_stored(status),
        }
    }

    /// Records that the current sealed file was written with `status`.
    pub fn on_m_file_stored(&mut self, status: u32) -> (action: IncreaseAction)
        requires
            old(self).wf(),
            old(self).phase == IncreasePhase::StoringMFile,
        ensures
            final(self).wf(),
            Self::m_file_stored_post(*old(self), *final(self), status, action),
    {
        if status != SGX_SUCCESS {
            self.phase = IncreasePhase::Finished;
            return IncreaseAction::Fail { status };
        }
        let ghost ds = self.digests@;
        let mut d = self.pending.clone();
        assert(d@ =~= self.pending@);
        self.m_hashs.append(&mut d);
        self.digests = Ghost(ds.push(self.pending@));
        assert(self.digests@.drop_last() =~= ds);
        assert(self.m_hashs@ =~= list_prefix() + concat(self.digests@));
        self.index = self.index + 1;
        if self.index < M_FILE_COUNT {
            self.phase = IncreasePhase::Sealing;
            IncreaseAction::SealMFile { index: self.index }
        } else {
            self.phase = IncreasePhase::HashingList;
            IncreaseAction::HashList
        }
    }

    /// Hashes the digest list and asks for it to be written as
    /// `<dir>/m-hashs`; the directory's final name is the hex of that
    /// digest. A hashing failure ends the job with `SGX_ERROR_UNEXPECTED`.
    pub fn hash_list(&mut self) -> (action: IncreaseAction)
        requires
            old(self).wf(),
            old(self).phase == IncreasePhase::HashingList,
        ensures
            final(self).wf(),
            final(self).same_progress(old(self)),
            ({
                ||| action == (IncreaseAction::Fail { status: SGX_ERROR_UNEXPECTED })
                    && final(self).phase == IncreasePhase::Finished
                ||| action matches IncreaseAction::StoreFile { path, data }
                    && path@ == m_hashs_path_of(old(self).dir_path@)
                    && data@ == old(self).m_hashs@
                    && final(self).g_hash@ == hex_of(sgx_sha256_digest(old(self).m_hashs@))
                    && final(self).phase == IncreasePhase::StoringList
            }),
    {
        let digest = sha256(self.m_hashs.as_slice());
        self.on_list_hashed(digest)
    }

    /// The digest of the digest list, if hashing worked: the directory's
    /// final name is its hex, and the list is to be written as
    /// `<dir>/m-hashs`; without a digest the job ends with
    /// `SGX_ERROR_UNEXPECTED`.
    pub fn on_list_hashed(&mut self, digest: Option<Vec<u8>>) -> (action: IncreaseAction)
        requires
            old(self).wf(),
            old(self).phase == IncreasePhase::HashingList,
        ensures
            final(self).wf(),
            final(self).same_progress(old(self)),
            match digest {
                None => action == (IncreaseAction::Fail { status: SGX_ERROR_UNEXPECTED })
                    && final(self).phase == IncreasePhase::Finished,
                Some(d) => action matches IncreaseAction::StoreFile { path, data }
                    && path@ == m_hashs_path_of(old(self).dir_path@)
                    && data@ == old(self).m_hashs@
                    && final(self).g_hash@ == hex_of(d@)
                    && final(self).phase == IncreasePhase::StoringList,
            },
    {
        match digest {
            None => {
                self.phase = IncreasePhase::Finished;
                IncreaseAction::Fail { status: SGX_ERROR_UNEXPECTED }
            },
            Some(d) => {
                self.g_hash = to_hex_string(d);
                self.phase = IncreasePhase::StoringList;
                let data = self.m_hashs.clone();
                assert(data@ =~= self.m_hashs@);
                IncreaseAction::StoreFile { path: m_hashs_path(self.dir_path.as_str()), data }
            },
        }
    }

    /// Records that the digest list was written with `status`.
    pub fn on_list_stored(&mut self, status: u32) -> (action: IncreaseAction)
        requires
            old(self).wf(),
            old(self).phase == IncreasePhase::StoringList,
        ensures
            final(self).wf(),
            Self::list_stored_post(*old(self), *final(self), status, action),
    {
        if status != SGX_SUCCESS {
            self.phase = IncreasePhase::Finished;
            return IncreaseAction::Fail { status };
        }
        self.phase = IncreasePhase::Renaming;
        IncreaseAction::Rename { from: self.dir_path.clone(), to: self.g_hash.clone() }
    }

    /// The directory was renamed (or not: it does not matter): records its
    /// final name as the newest SRD directory and ends the job successfully.
    pub fn on_renamed(&mut self, hashes: &mut SrdHashes) -> (status: u32)
        requires
            old(self).wf(),
            old(self).phase == IncreasePhase::Renaming,
        ensures
            final(self).wf(),
            final(self).same_progress(old(self)),
            final(self).phase == IncreasePhase::Finished,
            final(hashes).hashes@.len() == old(hashes).hashes@.len() + 1,
            final(hashes).hashes@.drop_last() == old(hashes).hashes@,
            final(hashes).hashes@.last()@ == old(self).g_hash@,
            status == SGX_SUCCESS,
    {
        self.phase = IncreasePhase::Finished;
        hashes.add_srd_hash(self.g_hash.clone());
        assert(hashes.hashes@.drop_last() =~= old(hashes).hashes@);
        SGX_SUCCESS
    }
}

} // verus!
