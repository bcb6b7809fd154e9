//! Where the host keeps the files the enclave asks it to handle, and the
//! names of the files inside one SRD directory.
use vstd::prelude::*;
use crate::text::{
    decimal_of, hex_of, lemma_decimal_injective, lemma_decimal_shape, lemma_hex_injective,
    push_decimal, to_hex_string,
};

verus! {

/// Which family of files a host request is about.
#[derive(Clone, Copy, Debug, PartialEq, Eq)]
pub enum FileType {
    /// Sealed SRD data, kept under the SRD root.
    SrdType,
    /// Files named by a full path.
    SealType,
}

/// The directory under which SRD files are kept.
pub open spec fn srd_root() -> Seq<char> {
    "/opt/crust/data/srd"@
}

/// The host path of `path`: SRD files sit under the SRD root, other files
/// are taken as given.
pub open spec fn real_path(path: Seq<char>, ftype: FileType) -> Seq<char> {
    match ftype {
        FileType::SrdType => srd_root() + seq!['/'] + path,
        FileType::SealType => path,
    }
}

/// Maps a path received from the enclave to the host path it names.
pub fn get_real_path(path: &str, ftype: FileType) -> (res: String)
    ensures
        res@ == real_path(path@, ftype),
{
    match ftype {
        FileType::SrdType => {
            let mut res = String::from_str("/opt/crust/data/srd");
            proof {
                reveal_strlit("/");
            }
            res.append("/");
            res.append(path);
            res
        },
        FileType::SealType => String::from_str(path),
    }
}

/// The name of the `index`-th sealed file of a directory: the directory,
/// a slash, the index in decimal, an underscore and the hex digest of the
/// file's contents.
pub open spec fn m_file_path_of(dir: Seq<char>, index: nat, digest: Seq<u8>) -> Seq<char> {
    dir + seq!['/'] + decimal_of(index) + seq!['_'] + hex_of(digest)
}

/// The name of the file that lists the digests of a directory's files.
pub open spec fn m_hashs_path_of(dir: Seq<char>) -> Seq<char> {
    dir + "/m-hashs"@
}

/// Builds the name of the `index`-th sealed file of directory `dir`.
pub fn m_file_path(dir: &str, index: usize, digest: &Vec<u8>) -> (res: String)
    ensures
        res@ == m_file_path_of(dir@, index as nat, digest@),
{
    proof {
        reveal_strlit("/");
        reveal_strlit("_");
    }
    let mut res = String::from_str(dir);
    res.append("/");
    push_decimal(&mut res, index);
    res.append("_");
    let copy = digest.clone();
    assert(copy@ =~= digest@);
    let hex = to_hex_string(copy);
    res.append(hex.as_str());
    res
}

/// Every sealed file of a directory has a name of its own: the name gives
/// back the file's index and its digest.
pub proof fn lemma_m_file_names_distinct(
    dir: Seq<char>,
    i: nat,
    j: nat,
    d: Seq<u8>,
    e: Seq<u8>,
)
    requires
        m_file_path_of(dir, i, d) == m_file_path_of(dir, j, e),
    ensures
        i == j,
        d == e,
{
    let p = dir + seq!['/'];
    let ri = decimal_of(i) + seq!['_'] + hex_of(d);
    let rj = decimal_of(j) + seq!['_'] + hex_of(e);
    assert(m_file_path_of(dir, i, d) =~= p + ri);
    assert(m_file_path_of(dir, j, e) =~= p + rj);
    assert((p + ri).subrange(p.len() as int, (p + ri).len() as int) =~= ri);
    assert((p + rj).subrange(p.len() as int, (p + rj).len() as int) =~= rj);
    assert(ri == rj);
    lemma_decimal_shape(i);
    lemma_decimal_shape(j);
    let a = decimal_of(i).len();
    let b = decimal_of(j).len();
    if a < b {
        assert(ri[a as int] == '_');
        assert(rj[a as int] == decimal_of(j)[a as int]);
    } else if b < a {
        assert(rj[b as int] == '_');
        assert(ri[b as int] == decimal_of(i)[b as int]);
    }
    assert(a == b);
    assert(ri.subrange(0, a as int) =~= decimal_of(i));
    assert(rj.subrange(0, a as int) =~= decimal_of(j));
    lemma_decimal_injective(i, j);
    assert(ri.subrange(a as int + 1, ri.len() as int) =~= hex_of(d));
    assert(rj.subrange(a as int + 1, rj.len() as int) =~= hex_of(e));
    lemma_hex_injective(d, e);
}

/// Builds the name of the digest list of directory `dir`.
pub fn m_hashs_path(dir: &str) -> (res: String)
    ensures
        res@ == m_hashs_path_of(dir@),
{
    let mut res = String::from_str(dir);
    res.append("/m-hashs");
    res
}

/// What the host does to delete a path, by what the path names.
#[derive(Clone, Copy, Debug, PartialEq, Eq)]
pub enum DeleteKind {
    /// A directory: removed with everything in it.
    RemoveDirAll,
    /// A regular file.
    RemoveFile,
    /// Neither: the deletion fails.
    Unknown,
}

/// Chooses how to delete a path from what its metadata says.
pub fn delete_kind(is_dir: bool, is_file: bool) -> (kind: DeleteKind)
    ensures
        kind == (if is_dir {
            DeleteKind::RemoveDirAll
        } else if is_file {
            DeleteKind::RemoveFile
        } else {
            DeleteKind::Unknown
        }),
{
    if is_dir {
        DeleteKind::RemoveDirAll
    } else if is_file {
        DeleteKind::RemoveFile
    } else {
        DeleteKind::Unknown
    }
}

} // verus!
