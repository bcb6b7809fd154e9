//! The list of sealed SRD directories (named by their hex digests), and
//! how a decrease picks the newest ones and drops those the host deleted.
use vstd::prelude::*;
use crate::status::SGX_SUCCESS;

verus! {

/// The SRD directories held, oldest first.
pub struct SrdHashes {
    pub hashes: Vec<String>,
}

/// Index of the first entry that a decrease by `num` touches.
pub open spec fn decrease_start(len: int, num: int) -> int {
    if num < len {
        len - num
    } else {
        0
    }
}

/// The entries of `s` that stay, where `deleted` reports the host's
/// deletions newest first: `deleted[k]` is about `s[s.len() - 1 - k]`.
pub open spec fn kept(s: Seq<String>, deleted: Seq<bool>) -> Seq<String>
    decreases s.len(),
{
    if s.len() == 0 || deleted.len() == 0 {
        s
    } else {
        (if deleted.last() {
            Seq::<String>::empty()
        } else {
            seq![s[0]]
        }) + kept(s.drop_first(), deleted.drop_last())
    }
}

impl SrdHashes {
    /// No directories held.
    pub fn new() -> (h: SrdHashes)
        ensures
            h.hashes@ == Seq::<String>::empty(),
    {
        SrdHashes { hashes: Vec::new() }
    }

    /// Records a newly sealed directory as the newest entry.
    pub fn add_srd_hash(&mut self, g_hash: String)
        ensures
            final(self).hashes@ == old(self).hashes@.push(g_hash),
    {
        self.hashes.push(g_hash);
    }

    /// How many directories are held.
    pub fn len(&self) -> (n: usize)
        ensures
            n == self.hashes@.len(),
    {
        self.hashes.len()
    }
}

/// The directories that a decrease by `num` asks the host to delete, in the
/// order it asks: the newest first, at most `num` of them.
pub fn srd_decrease_targets(hashes: &SrdHashes, num: usize) -> (targets: Vec<String>)
    ensures
        targets@.len() == hashes.hashes@.len() - decrease_start(
            hashes.hashes@.len() as int,
            num as int,
        ),
        forall|k: int|
            0 <= k < targets@.len() ==> #[trigger] targets@[k] == hashes.hashes@[hashes.hashes@.len()
                - 1 - k],
{
    let len = hashes.hashes.len();
    let start = if num < len {
        len - num
    } else {
        0
    };
    let mut targets: Vec<String> = Vec::new();
    let mut i = len;
    while i > start
        invariant
            len == hashes.hashes@.len(),
            start <= i <= len,
            start == decrease_start(len as int, num as int),
            targets@.len() == len - i,
            forall|k: int|
                0 <= k < targets@.len() ==> #[trigger] targets@[k] == hashes.hashes@[len - 1 - k],
        decreases i,
    {
        i = i - 1;
        targets.push(hashes.hashes[i].clone());
    }
    targets
}

/// Drops the directories the host deleted from the newest `num` entries;
/// `deleted[k]` reports the deletion of the `k`-th target of
/// `srd_decrease_targets`. Entries whose deletion failed stay, in order.
pub fn srd_decrease(hashes: &mut SrdHashes, num: usize, deleted: &Vec<bool>) -> (status: u32)
    requires
        deleted@.len() == old(hashes).hashes@.len() - decrease_start(
            old(hashes).hashes@.len() as int,
            num as int,
        ),
    ensures
        status == SGX_SUCCESS,
        final(hashes).hashes@ == old(hashes).hashes@.take(
            decrease_start(old(hashes).hashes@.len() as int, num as int),
        ) + kept(
            old(hashes).hashes@.skip(decrease_start(old(hashes).hashes@.len() as int, num as int)),
            deleted@,
        ),
        final(hashes).hashes@.len() == decrease_start(old(hashes).hashes@.len() as int, num as int)
            + failures(deleted@),
        forall|i: int|
            0 <= i < decrease_start(old(hashes).hashes@.len() as int, num as int)
                ==> #[trigger] final(hashes).hashes@[i] == old(hashes).hashes@[i],
        forall|k: int|
            0 <= k < deleted@.len() && !#[trigger] deleted@[k] ==> final(hashes).hashes@[decrease_start(
                old(hashes).hashes@.len() as int,
                num as int,
            ) + failures(deleted@.subrange(k + 1, deleted@.len() as int))] == old(
                hashes,
            ).hashes@[old(hashes).hashes@.len() - 1 - k],
{
    let ghost orig = hashes.hashes@;
    let len = hashes.hashes.len();
    let start = if num < len {
        len - num
    } else {
        0
    };
    let count = len - start;
    let mut k: usize = 0;
    assert(orig.subrange(len as int, len as int) =~= Seq::<String>::empty());
    assert(orig.take(len as int) =~= orig);
    while k < count
        invariant
            len == orig.len(),
            count == len - start,
            start == decrease_start(len as int, num as int),
            deleted@.len() == count,
            k <= count,
            hashes.hashes@ == orig.take(len - k) + kept(
                orig.subrange(len - k, len as int),
                deleted@.take(k as int),
            ),
        decreases count - k,
    {
        let i = len - 1 - k;
        let ghost s = orig.subrange(i as int, len as int);
        let ghost f = deleted@.take(k + 1);
        assert(s.drop_first() =~= orig.subrange(i + 1, len as int));
        assert(f.drop_last() =~= deleted@.take(k as int));
        assert(kept(s, f) == (if deleted@[k as int] {
            Seq::<String>::empty()
        } else {
            seq![orig[i as int]]
        }) + kept(orig.subrange(i + 1, len as int), deleted@.take(k as int)));
        if deleted[k] {
            assert(hashes.hashes@[i as int] == orig[i as int]);
            hashes.hashes.remove(i);
            assert(hashes.hashes@ =~= orig.take(i as int) + kept(s, f));
        } else {
            assert(hashes.hashes@ =~= orig.take(i as int) + kept(s, f));
        }
        k = k + 1;
    }
    assert(deleted@.take(count as int) =~= deleted@);
    assert(orig.subrange(start as int, len as int) =~= orig.skip(start as int));
    proof {
        lemma_decrease_result(orig, start as int, deleted@);
    }
    SGX_SUCCESS
}

/// When every deletion succeeds, a decrease by `num` leaves exactly the
/// entries older than the newest `num`.
pub proof fn lemma_kept_all_deleted(s: Seq<String>, deleted: Seq<bool>)
    requires
        deleted.len() == s.len(),
        forall|k: int| 0 <= k < deleted.len() ==> #[trigger] deleted[k],
    ensures
        kept(s, deleted) == Seq::<String>::empty(),
    decreases s.len(),
{
    if s.len() > 0 {
        lemma_kept_all_deleted(s.drop_first(), deleted.drop_last());
        assert(deleted.last());
        assert(kept(s, deleted) =~= Seq::<String>::empty());
    }
}

/// When no deletion succeeds, a decrease leaves the list as it was.
pub proof fn lemma_kept_none_deleted(s: Seq<String>, deleted: Seq<bool>)
    requires
        deleted.len() == s.len(),
        forall|k: int| 0 <= k < deleted.len() ==> !#[trigger] deleted[k],
    ensures
        kept(s, deleted) == s,
    decreases s.len(),
{
    if s.len() > 0 {
        lemma_kept_none_deleted(s.drop_first(), deleted.drop_last());
        assert(!deleted.last());
        assert(kept(s, deleted) =~= s);
    }
}

/// A decrease by one whose deletion succeeds undoes the latest
/// `add_srd_hash`: the list is back to what it was before the addition.
pub proof fn lemma_decrease_undoes_add(before: Seq<String>, g_hash: String)
    ensures
        ({
            let after = before.push(g_hash);
            let start = decrease_start(after.len() as int, 1);
            after.take(start) + kept(after.skip(start), seq![true]) == before
        }),
{
    let after = before.push(g_hash);
    let start = decrease_start(after.len() as int, 1);
    assert(start == before.len());
    let t = after.skip(start);
    let f = seq![true];
    assert(t.len() == 1);
    assert(t.drop_first() =~= Seq::<String>::empty());
    assert(f.drop_last() =~= Seq::<bool>::empty());
    assert(f.last());
    assert(kept(t.drop_first(), f.drop_last()) =~= Seq::<String>::empty());
    assert(kept(after.skip(start), seq![true]) =~= Seq::<String>::empty());
    assert(after.take(start) =~= before);
}

/// Where each surviving entry lands: the entry reported on by
/// `deleted[k]` (the `k`-th newest) stays exactly when its deletion failed,
/// and then sits after as many survivors as there are failed deletions among
/// the entries older than it. So the survivors keep their order and the
/// report of the `k`-th target decides the fate of the `k`-th newest entry.
pub proof fn lemma_kept_by_index(s: Seq<String>, deleted: Seq<bool>)
    requires
        deleted.len() == s.len(),
    ensures
        kept(s, deleted).len() == failures(deleted),
        forall|k: int|
            0 <= k < deleted.len() && !#[trigger] deleted[k] ==> failures(
                deleted.subrange(k + 1, deleted.len() as int),
            ) < failures(deleted) && kept(s, deleted)[failures(
                deleted.subrange(k + 1, deleted.len() as int),
            ) as int] == s[s.len() - 1 - k],
    decreases s.len(),
{
    lemma_kept_counts_failures(s, deleted);
    let n = s.len() as int;
    if n > 0 {
        let s1 = s.drop_first();
        let d1 = deleted.drop_last();
        lemma_kept_by_index(s1, d1);
        let head = if deleted.last() {
            Seq::<String>::empty()
        } else {
            seq![s[0]]
        };
        assert(kept(s, deleted) == head + kept(s1, d1));
        assert forall|k: int|
            0 <= k < deleted.len() && !#[trigger] deleted[k] implies failures(
                deleted.subrange(k + 1, n),
            ) < failures(deleted) && kept(s, deleted)[failures(deleted.subrange(k + 1, n))
                as int] == s[n - 1 - k] by {
            if k == n - 1 {
                assert(deleted.subrange(k + 1, n) =~= Seq::<bool>::empty());
                assert(!deleted.last());
            } else {
                let suf = deleted.subrange(k + 1, n);
                assert(suf.drop_last() =~= d1.subrange(k + 1, n - 1));
                assert(suf.last() == deleted.last());
                assert(d1[k] == deleted[k]);
                assert(s1[n - 2 - k] == s[n - 1 - k]);
            }
        }
    }
}

proof fn lemma_decrease_result(orig: Seq<String>, start: int, deleted: Seq<bool>)
    requires
        0 <= start <= orig.len(),
        deleted.len() == orig.len() - start,
    ensures
        ({
            let r = orig.take(start) + kept(orig.skip(start), deleted);
            &&& r.len() == start + failures(deleted)
            &&& forall|i: int| 0 <= i < start ==> #[trigger] r[i] == orig[i]
            &&& forall|k: int|
                0 <= k < deleted.len() && !#[trigger] deleted[k] ==> r[start + failures(
                    deleted.subrange(k + 1, deleted.len() as int),
                )] == orig[orig.len() - 1 - k]
        }),
{
    let t = orig.skip(start);
    let r = orig.take(start) + kept(t, deleted);
    lemma_kept_by_index(t, deleted);
    assert forall|k: int|
        0 <= k < deleted.len() && !#[trigger] deleted[k] implies r[start + failures(
            deleted.subrange(k + 1, deleted.len() as int),
        )] == orig[orig.len() - 1 - k] by {
        assert(t[t.len() - 1 - k] == orig[orig.len() - 1 - k]);
    }
}

/// How many of the reported deletions failed.
pub open spec fn failures(deleted: Seq<bool>) -> nat
    decreases deleted.len(),
{
    if deleted.len() == 0 {
        0
    } else {
        failures(deleted.drop_last()) + if deleted.last() {
            0nat
        } else {
            1nat
        }
    }
}

/// Only deleted entries leave: as many entries stay as deletions failed,
/// never more than were asked about.
pub proof fn lemma_kept_counts_failures(s: Seq<String>, deleted: Seq<bool>)
    requires
        deleted.len() == s.len(),
    ensures
        kept(s, deleted).len() == failures(deleted),
        kept(s, deleted).len() <= s.len(),
    decreases s.len(),
{
    if s.len() > 0 {
        lemma_kept_counts_failures(s.drop_first(), deleted.drop_last());
    }
}

} // verus!
