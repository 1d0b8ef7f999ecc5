//! The table of what the makers of administration requests may still ask.

use crate::addr::IpAddress;
use crate::text::str_eq;
use vstd::prelude::*;
use vstd::string::*;

verus! {

/// How long a bucket is kept that nobody asks for, in nanoseconds.
pub const BUCKET_LIFETIME_NS: u128 = 600_000_000_000;

/// Who a bucket is for.
#[derive(Debug)]
pub struct AdminRateLimitKey {
    pub source: IpAddress,
    pub actor: String,
    pub auth_mode: String,
}

impl View for AdminRateLimitKey {
    type V = (IpAddress, Seq<char>, Seq<char>);

    open spec fn view(&self) -> (IpAddress, Seq<char>, Seq<char>) {
        (self.source, self.actor@, self.auth_mode@)
    }
}

impl AdminRateLimitKey {
    fn same(&self, other: &AdminRateLimitKey) -> (r: bool)
        ensures
            r == (self@ == other@),
    {
        self.source == other.source && str_eq(self.actor.as_str(), other.actor.as_str()) && str_eq(
            self.auth_mode.as_str(),
            other.auth_mode.as_str(),
        )
    }

    fn copy(&self) -> (r: Self)
        ensures
            r@ == self@,
    {
        AdminRateLimitKey {
            source: self.source,
            actor: self.actor.clone(),
            auth_mode: self.auth_mode.clone(),
        }
    }
}

/// What is left of a bucket, and when that was found. The tokens are the bits of a number of
/// double precision.
#[derive(Debug, Clone, Copy, PartialEq, Eq, Structural)]
pub struct AdminTokenBucket {
    pub token_bits: u64,
    pub last_refill: u128,
}

/// A bucket and who it is for.
#[derive(Debug)]
pub struct BucketEntry {
    pub key: AdminRateLimitKey,
    pub bucket: AdminTokenBucket,
}

/// All buckets.
#[derive(Debug)]
pub struct AdminRateLimitState {
    pub entries: Vec<BucketEntry>,
}

/// The buckets of a list, by who they are for.
pub open spec fn table(entries: Seq<BucketEntry>) -> Map<
    (IpAddress, Seq<char>, Seq<char>),
    AdminTokenBucket,
>
    decreases entries.len(),
{
    if entries.len() == 0 {
        Map::empty()
    } else {
        table(entries.drop_last()).insert(entries.last().key@, entries.last().bucket)
    }
}

/// Whether no two buckets of a list are for the same.
pub open spec fn distinct(entries: Seq<BucketEntry>) -> bool {
    forall|i: int, j: int|
        0 <= i < j < entries.len() ==> (#[trigger] entries[i]).key@ != (
        #[trigger] entries[j]).key@
}

/// Whether a bucket was asked for lately.
pub open spec fn is_fresh(bucket: AdminTokenBucket, now: u128) -> bool {
    now <= bucket.last_refill || now - bucket.last_refill <= BUCKET_LIFETIME_NS
}

/// The buckets that were asked for lately.
pub open spec fn fresh_only(
    buckets: Map<(IpAddress, Seq<char>, Seq<char>), AdminTokenBucket>,
    now: u128,
) -> Map<(IpAddress, Seq<char>, Seq<char>), AdminTokenBucket> {
    buckets.restrict(
        Set::new(
            |key: (IpAddress, Seq<char>, Seq<char>)|
                buckets.contains_key(key) && is_fresh(buckets[key], now),
        ),
    )
}

proof fn lemma_table_keys(entries: Seq<BucketEntry>, key: (IpAddress, Seq<char>, Seq<char>))
    ensures
        table(entries).contains_key(key) <==> exists|i: int|
            0 <= i < entries.len() && (#[trigger] entries[i]).key@ == key,
    decreases entries.len(),
{
    if entries.len() > 0 {
        let front = entries.drop_last();
        lemma_table_keys(front, key);
        if table(front).contains_key(key) {
            let i = choose|i: int| 0 <= i < front.len() && (#[trigger] front[i]).key@ == key;
            assert(entries[i].key@ == key);
        }
        if exists|i: int| 0 <= i < entries.len() && (#[trigger] entries[i]).key@ == key {
            let i = choose|i: int| 0 <= i < entries.len() && (#[trigger] entries[i]).key@ == key;
            if i < front.len() {
                assert(front[i].key@ == key);
            }
        }
    }
}

proof fn lemma_table_at(entries: Seq<BucketEntry>, i: int)
    requires
        distinct(entries),
        0 <= i < entries.len(),
    ensures
        table(entries).contains_key(entries[i].key@),
        table(entries)[entries[i].key@] == entries[i].bucket,
    decreases entries.len(),
{
    if i < entries.len() - 1 {
        let front = entries.drop_last();
        assert(distinct(front)) by {
            assert forall|a: int, b: int| 0 <= a < b < front.len() implies (
            #[trigger] front[a]).key@ != (#[trigger] front[b]).key@ by {
                assert(entries[a].key@ != entries[b].key@);
            }
        }
        lemma_table_at(front, i);
        assert(front[i] == entries[i]);
        assert(entries[i].key@ != entries[entries.len() - 1].key@);
    }
}

impl AdminRateLimitState {
    /// No two buckets are for the same.
    pub open spec fn wf(self) -> bool {
        distinct(self.entries@)
    }

    /// The buckets, by who they are for.
    pub open spec fn buckets(self) -> Map<(IpAddress, Seq<char>, Seq<char>), AdminTokenBucket> {
        table(self.entries@)
    }

    /// A table without buckets.
    pub fn new() -> (r: Self)
        ensures
            r.wf(),
            r.buckets() == Map::<(IpAddress, Seq<char>, Seq<char>), AdminTokenBucket>::empty(),
    {
        AdminRateLimitState { entries: Vec::new() }
    }

    fn forget_stale(&mut self, now: u128)
        requires
            old(self).wf(),
        ensures
            final(self).wf(),
            final(self).buckets() == fresh_only(old(self).buckets(), now),
    {
        let ghost all = self.entries@;
        let mut kept: Vec<BucketEntry> = Vec::new();
        let mut i: usize = 0;
        proof {
            assert(table(kept@) =~= fresh_only(table(all.take(0)), now));
        }
        while i < self.entries.len()
            invariant
                self.entries@ == all,
                distinct(all),
                i <= all.len(),
                distinct(kept@),
                forall|j: int|
                    0 <= j < kept@.len() ==> exists|k: int|
                        0 <= k < i && (#[trigger] kept@[j]).key@ == (#[trigger] all[k]).key@,
                table(kept@) == fresh_only(table(all.take(i as int)), now),
            decreases all.len() - i,
        {
            let ghost before = kept@;
            let ghost earlier = all.take(i as int);
            let ghost longer = all.take(i + 1);
            let ghost key = all[i as int].key@;
            let bucket = self.entries[i].bucket;
            proof {
                assert(longer.drop_last() =~= earlier);
                assert(longer.last() == all[i as int]);
                lemma_table_keys(earlier, key);
                assert(!table(earlier).contains_key(key)) by {
                    if table(earlier).contains_key(key) {
                        let k = choose|k: int|
                            0 <= k < earlier.len() && (#[trigger] earlier[k]).key@ == key;
                        assert(all[k].key@ == all[i as int].key@);
                    }
                }
            }
            if now <= bucket.last_refill || now - bucket.last_refill <= BUCKET_LIFETIME_NS {
                let entry = BucketEntry { key: self.entries[i].key.copy(), bucket };
                kept.push(entry);
                proof {
                    assert(kept@.drop_last() =~= before);
                    assert(distinct(kept@)) by {
                        assert forall|a: int, b: int| 0 <= a < b < kept@.len() implies (
                        #[trigger] kept@[a]).key@ != (#[trigger] kept@[b]).key@ by {
                            if b < before.len() {
                                assert(before[a].key@ != before[b].key@);
                            } else {
                                assert(kept@[a] == before[a]);
                                let k = choose|k: int|
                                    0 <= k < i && before[a].key@ == (#[trigger] all[k]).key@;
                                assert(all[k].key@ != all[i as int].key@);
                            }
                        }
                    }
                    assert forall|j: int| 0 <= j < kept@.len() implies exists|k: int|
                        0 <= k < i + 1 && (#[trigger] kept@[j]).key@ == (
                        #[trigger] all[k]).key@ by {
                        if j < before.len() {
                            assert(kept@[j] == before[j]);
                            let k = choose|k: int|
                                0 <= k < i && before[j].key@ == (#[trigger] all[k]).key@;
                            assert(kept@[j].key@ == all[k].key@);
                        } else {
                            assert(kept@[j].key@ == all[i as int].key@);
                        }
                    }
                    assert(table(kept@) =~= fresh_only(table(longer), now));
                }
            } else {
                proof {
                    assert(table(kept@) =~= fresh_only(table(longer), now));
                    assert forall|j: int| 0 <= j < kept@.len() implies exists|k: int|
                        0 <= k < i + 1 && (#[trigger] kept@[j]).key@ == (
                        #[trigger] all[k]).key@ by {
                        let k = choose|k: int|
                            0 <= k < i && kept@[j].key@ == (#[trigger] all[k]).key@;
                        assert(kept@[j].key@ == all[k].key@);
                    }
                }
            }
            i = i + 1;
        }
        proof {
            assert(all.take(all.len() as int) =~= all);
        }
        self.entries = kept;
    }

    fn find(&self, key: &AdminRateLimitKey) -> (r: Option<usize>)
        requires
            self.wf(),
        ensures
            match r {
                Some(i) => {
                    &&& i < self.entries@.len()
                    &&& self.entries@[i as int].key@ == key@
                    &&& self.buckets().contains_key(key@)
                    &&& self.buckets()[key@] == self.entries@[i as int].bucket
                },
                None => !self.buckets().contains_key(key@),
            },
    {
        let mut i: usize = 0;
        while i < self.entries.len()
            invariant
                self.wf(),
                i <= self.entries@.len(),
                forall|j: int| 0 <= j < i ==> (#[trigger] self.entries@[j]).key@ != key@,
            decreases self.entries@.len() - i,
        {
            if self.entries[i].key.same(key) {
                proof {
                    lemma_table_at(self.entries@, i as int);
                }
                return Some(i);
            }
            i = i + 1;
        }
        proof {
            lemma_table_keys(self.entries@, key@);
        }
        None
    }

    /// The bucket of a maker of requests. Buckets that nobody asked for lately are forgotten
    /// first, and one that is not there is there with its full number of tokens afterwards.
    pub fn claim(&mut self, key: &AdminRateLimitKey, full_token_bits: u64, now: u128) -> (r:
        AdminTokenBucket)
        requires
            old(self).wf(),
        ensures
            final(self).wf(),
            ({
                let fresh = fresh_only(old(self).buckets(), now);
                &&& r == (if fresh.contains_key(key@) {
                    fresh[key@]
                } else {
                    AdminTokenBucket { token_bits: full_token_bits, last_refill: now }
                })
                &&& final(self).buckets() == fresh.insert(key@, r)
            }),
    {
        self.forget_stale(now);
        match self.find(key) {
            Some(i) => {
                let bucket = self.entries[i].bucket;
                proof {
                    assert(self.buckets() =~= self.buckets().insert(key@, bucket));
                }
                bucket
            },
            None => {
                let bucket = AdminTokenBucket { token_bits: full_token_bits, last_refill: now };
                let ghost before = self.entries@;
                let entry = BucketEntry { key: key.copy(), bucket };
                self.entries.push(entry);
                proof {
                    assert(self.entries@.drop_last() =~= before);
                    assert(distinct(self.entries@)) by {
                        assert forall|a: int, b: int| 0 <= a < b < self.entries@.len() implies (
                        #[trigger] self.entries@[a]).key@ != (#[trigger] self.entries@[b]).key@ by {
                            if b < before.len() {
                                assert(before[a].key@ != before[b].key@);
                            } else {
                                lemma_table_at(before, a);
                            }
                        }
                    }
                }
                bucket
            },
        }
    }

    /// Puts back a bucket that was claimed, with what is left of it.
    pub fn settle(&mut self, key: &AdminRateLimitKey, token_bits: u64, now: u128)
        requires
            old(self).wf(),
            old(self).buckets().contains_key(key@),
        ensures
            final(self).wf(),
            final(self).buckets() == old(self).buckets().insert(
                key@,
                AdminTokenBucket { token_bits, last_refill: now },
            ),
    {
        match self.find(key) {
            Some(i) => {
                let ghost before = self.entries@;
                let bucket = AdminTokenBucket { token_bits, last_refill: now };
                let entry = BucketEntry { key: key.copy(), bucket };
                self.entries.set(i, entry);
                proof {
                    let after = self.entries@;
                    assert(distinct(after)) by {
                        assert forall|a: int, b: int| 0 <= a < b < after.len() implies (
                        #[trigger] after[a]).key@ != (#[trigger] after[b]).key@ by {
                            assert(before[a].key@ != before[b].key@);
                        }
                    }
                    assert forall|k: (IpAddress, Seq<char>, Seq<char>)| #[trigger]
                        table(after).contains_key(k) <==> table(before).contains_key(k) by {
                        lemma_table_keys(after, k);
                        lemma_table_keys(before, k);
                        if table(before).contains_key(k) {
                            let j = choose|j: int|
                                0 <= j < before.len() && (#[trigger] before[j]).key@ == k;
                            assert(after[j].key@ == k);
                        }
                        if table(after).contains_key(k) {
                            let j = choose|j: int|
                                0 <= j < after.len() && (#[trigger] after[j]).key@ == k;
                            assert(before[j].key@ == k);
                        }
                    }
                    assert forall|k: (IpAddress, Seq<char>, Seq<char>)| #[trigger]
                        table(after).contains_key(k) implies table(after)[k] == table(
                        before,
                    ).insert(key@, bucket)[k] by {
                        lemma_table_keys(after, k);
                        let j = choose|j: int|
                            0 <= j < after.len() && (#[trigger] after[j]).key@ == k;
                        lemma_table_at(after, j);
                        lemma_table_at(before, j);
                        if j != i {
                            if k == key@ {
                                if j < i {
                                    assert(after[j].key@ != after[i as int].key@);
                                } else {
                                    assert(after[i as int].key@ != after[j].key@);
                                }
                            }
                            assert(after[j] == before[j]);
                        }
                    }
                    assert(table(after) =~= table(before).insert(key@, bucket));
                }
            },
            None => {},
        }
    }
}

} // verus!
