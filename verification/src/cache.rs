//! Time-bounded caches shared by the pipeline's tasks: the dedup cache of
//! known message ids per conversation, and the conversation snapshot cache
//! used by the media resolution loop.
//!
//! Both caches take the current time as a plain value from the caller, so
//! expiry is a decision the library makes and proves, not a clock it reads.

use vstd::prelude::*;
use crate::model::Conversation;

verus! {

/// One dedup cache entry: the message ids known for a conversation, valid
/// until `expires_at`.
pub struct DedupEntry {
    pub chat_id: i64,
    pub ids: Vec<i32>,
    pub expires_at: u64,
}

/// Per-conversation cache of already-stored message ids with a time to live.
/// A lookup answers only from a live (unexpired) entry; a miss is repaired by
/// loading the conversation's ids once and caching them (`set_entry`).
pub struct DedupCache {
    entries: Vec<DedupEntry>,
    ttl: u64,
}

impl DedupCache {
    /// At most one entry per conversation, and a positive time to live.
    pub closed spec fn wf(self) -> bool {
        &&& self.ttl >= 1
        &&& forall|i: int, j: int|
            0 <= i < j < self.entries@.len() ==> self.entries@[i].chat_id
                != self.entries@[j].chat_id
    }

    /// Is there an entry for `chat_id` that is still live at time `now`?
    pub closed spec fn has_live_entry(self, chat_id: i64, now: u64) -> bool {
        exists|i: int|
            0 <= i < self.entries@.len() && self.entries@[i].chat_id == chat_id
                && self.entries@[i].expires_at > now
    }

    /// The ids the live entry for `chat_id` holds.
    pub closed spec fn live_ids(self, chat_id: i64, now: u64) -> Seq<i32> {
        let i = choose|i: int|
            0 <= i < self.entries@.len() && self.entries@[i].chat_id == chat_id
                && self.entries@[i].expires_at > now;
        self.entries@[i].ids@
    }

    pub fn new(ttl: u64) -> (c: DedupCache)
        requires
            ttl >= 1,
        ensures
            c.wf(),
            forall|chat_id: i64, now: u64| !c.has_live_entry(chat_id, now),
    {
        DedupCache { entries: Vec::new(), ttl }
    }

    /// Answers from the cache alone: `None` on a miss (no live entry),
    /// `Some(b)` where `b` says whether the live entry knows `id`.
    pub fn contains_id(&self, chat_id: i64, id: i32, now: u64) -> (r: Option<bool>)
        requires
            self.wf(),
        ensures
            r is Some <==> self.has_live_entry(chat_id, now),
            r matches Some(b) ==> b == self.live_ids(chat_id, now).contains(id),
    {
        let n = self.entries.len();
        let mut i: usize = 0;
        while i < n
            invariant
                n == self.entries@.len(),
                i <= n,
                self.wf(),
                forall|k: int|
                    0 <= k < i ==> !(self.entries@[k].chat_id == chat_id
                        && self.entries@[k].expires_at > now),
            decreases n - i,
        {
            let e = &self.entries[i];
            if e.chat_id == chat_id && e.expires_at > now {
                let mut j: usize = 0;
                let m = e.ids.len();
                let mut found = false;
                while j < m
                    invariant
                        m == e.ids@.len(),
                        j <= m,
                        found == e.ids@.take(j as int).contains(id),
                    decreases m - j,
                {
                    if e.ids[j] == id {
                        found = true;
                    }
                    proof {
                        assert(e.ids@.take(j + 1).drop_last() =~= e.ids@.take(j as int));
                        assert(e.ids@.take(j + 1).last() == e.ids@[j as int]);
                        if e.ids@.take(j as int).contains(id) {
                            let w = choose|w: int|
                                0 <= w < j && e.ids@.take(j as int)[w] == id;
                            assert(e.ids@.take(j + 1)[w] == id);
                        }
                    }
                    j += 1;
                }
                proof {
                    assert(e.ids@.take(m as int) =~= e.ids@);
                    assert(self.live_ids(chat_id, now) == e.ids@);
                }
                return Some(found);
            }
            i += 1;
        }
        None
    }

    /// Replaces (or installs) the entry for `chat_id` with `ids`, live from
    /// `now` for the cache's time to live. Entries of other conversations are
    /// untouched.
    pub fn set_entry(&mut self, chat_id: i64, ids: Vec<i32>, now: u64)
        requires
            old(self).wf(),
            now < u64::MAX,
        ensures
            final(self).wf(),
            final(self).has_live_entry(chat_id, now),
            final(self).live_ids(chat_id, now) == ids@,
            forall|n2: u64|
                final(self).has_live_entry(chat_id, n2) ==> final(self).live_ids(chat_id, n2)
                    == ids@,
            forall|c: i64, n: u64|
                c != chat_id ==> final(self).has_live_entry(c, n) == old(self).has_live_entry(
                    c,
                    n,
                ),
            forall|c: i64, n: u64|
                c != chat_id && final(self).has_live_entry(c, n) ==> final(self).live_ids(c, n)
                    == old(self).live_ids(c, n),
    {
        let ghost entries0 = self.entries@;
        let n = self.entries.len();
        let mut i: usize = 0;
        let mut found: Option<usize> = None;
        while i < n
            invariant
                n == self.entries@.len(),
                i <= n,
                self.entries@ == entries0,
                match found {
                    Some(f) => 0 <= f < i && self.entries@[f as int].chat_id == chat_id,
                    None => forall|k: int| 0 <= k < i ==> self.entries@[k].chat_id != chat_id,
                },
            decreases n - i,
        {
            if self.entries[i].chat_id == chat_id {
                found = Some(i);
            }
            i += 1;
        }
        let ghost mid: Seq<DedupEntry>;
        if let Some(f) = found {
            self.entries.remove(f);
            proof {
                mid = self.entries@;
                assert forall|k: int| 0 <= k < mid.len() implies mid[k].chat_id != chat_id by {
                    if k < f {
                        assert(mid[k] == entries0[k]);
                    } else {
                        assert(mid[k] == entries0[k + 1]);
                    }
                }
                assert forall|k: int, l: int| 0 <= k < l < mid.len() implies mid[k].chat_id
                    != mid[l].chat_id by {
                    let k0 = if k < f { k } else { k + 1 };
                    let l0 = if l < f { l } else { l + 1 };
                    assert(mid[k] == entries0[k0] && mid[l] == entries0[l0]);
                }
            }
        } else {
            proof {
                mid = self.entries@;
            }
        }
        let expires_at = match now.checked_add(self.ttl) {
            Some(e) => e,
            None => u64::MAX,
        };
        self.entries.push(DedupEntry { chat_id, ids, expires_at });
        proof {
            let fin = self.entries@;
            assert(fin.drop_last() =~= mid);
            assert(fin.last().chat_id == chat_id && fin.last().expires_at > now);
            assert(final(self).has_live_entry(chat_id, now));
            let w = choose|w: int|
                0 <= w < fin.len() && fin[w].chat_id == chat_id && fin[w].expires_at > now;
            assert(w == fin.len() - 1);
            assert(final(self).live_ids(chat_id, now) == ids@);
            assert forall|n2: u64| final(self).has_live_entry(chat_id, n2) implies final(self)
                .live_ids(chat_id, n2) == ids@ by {
                let w2 = choose|w2: int|
                    0 <= w2 < fin.len() && fin[w2].chat_id == chat_id && fin[w2].expires_at > n2;
                assert(w2 == fin.len() - 1);
            }
            assert forall|c: i64, n2: u64| c != chat_id implies (final(self).has_live_entry(c, n2)
                == old(self).has_live_entry(c, n2) && (final(self).has_live_entry(c, n2)
                ==> final(self).live_ids(c, n2) == old(self).live_ids(c, n2))) by {
                lemma_entry_correspondence(entries0, mid, fin, chat_id, found, c, n2);
            }
        }
    }
}

/// Removing the (sole) entry of one conversation and appending a fresh one
/// leaves every other conversation's live entries exactly as they were.
proof fn lemma_entry_correspondence(
    entries0: Seq<DedupEntry>,
    mid: Seq<DedupEntry>,
    fin: Seq<DedupEntry>,
    chat_id: i64,
    found: Option<usize>,
    c: i64,
    n: u64,
)
    requires
        c != chat_id,
        forall|k: int, l: int|
            0 <= k < l < entries0.len() ==> entries0[k].chat_id != entries0[l].chat_id,
        fin.len() == mid.len() + 1,
        fin.drop_last() == mid,
        fin.last().chat_id == chat_id,
        match found {
            Some(f) => 0 <= f < entries0.len() && mid == entries0.remove(f as int)
                && entries0[f as int].chat_id == chat_id,
            None => mid == entries0,
        },
    ensures
        (exists|i: int| 0 <= i < fin.len() && fin[i].chat_id == c && fin[i].expires_at > n)
            == (exists|i: int|
            0 <= i < entries0.len() && entries0[i].chat_id == c && entries0[i].expires_at > n),
        (exists|i: int| 0 <= i < fin.len() && fin[i].chat_id == c && fin[i].expires_at > n)
            ==> ((choose|i: int|
            0 <= i < fin.len() && fin[i].chat_id == c && fin[i].expires_at > n) >= 0 && fin[(
        choose|i: int| 0 <= i < fin.len() && fin[i].chat_id == c && fin[i].expires_at > n)].ids@
            == entries0[(choose|i: int|
            0 <= i < entries0.len() && entries0[i].chat_id == c && entries0[i].expires_at
                > n)].ids@),
{
    if let Some(f) = found {
        entries0.remove_ensures(f as int);
    }
    assert(forall|k: int| 0 <= k < mid.len() ==> #[trigger] fin[k] == mid[k]) by {
        assert(forall|k: int|
            0 <= k < mid.len() ==> fin.drop_last()[k] == #[trigger] fin[k]);
    }
    if exists|i: int| 0 <= i < fin.len() && fin[i].chat_id == c && fin[i].expires_at > n {
        let i = choose|i: int| 0 <= i < fin.len() && fin[i].chat_id == c && fin[i].expires_at > n;
        assert(i < fin.len() - 1);
        assert(fin[i] == mid[i]);
        match found {
            Some(f) => {
                let i0 = if i < f { i } else { i + 1 };
                assert(mid[i] == entries0[i0]);
                assert(0 <= i0 < entries0.len() && entries0[i0].chat_id == c
                    && entries0[i0].expires_at > n);
            },
            None => {
                assert(0 <= i < entries0.len() && entries0[i].chat_id == c && entries0[i].expires_at
                    > n);
            },
        }
    }
    if exists|i: int|
        0 <= i < entries0.len() && entries0[i].chat_id == c && entries0[i].expires_at > n {
        let i0 = choose|i: int|
            0 <= i < entries0.len() && entries0[i].chat_id == c && entries0[i].expires_at > n;
        match found {
            Some(f) => {
                assert(i0 != f);
                let i = if i0 < f { i0 } else { i0 - 1 };
                assert(mid[i] == entries0[i0]);
                assert(fin[i] == mid[i]);
                assert(0 <= i < fin.len() && fin[i].chat_id == c && fin[i].expires_at > n);
            },
            None => {
                assert(fin[i0] == mid[i0]);
                assert(0 <= i0 < fin.len() && fin[i0].chat_id == c && fin[i0].expires_at > n);
            },
        }
        let ci = choose|i: int| 0 <= i < fin.len() && fin[i].chat_id == c && fin[i].expires_at > n;
        assert(ci < fin.len() - 1);
        assert(fin[ci] == mid[ci]);
        match found {
            Some(f) => {
                let ci0 = if ci < f { ci } else { ci + 1 };
                assert(mid[ci] == entries0[ci0]);
                assert(ci0 == i0);
            },
            None => {
                assert(ci == i0);
            },
        }
    }
}

/// One conversation cache entry: a conversation snapshot, valid until
/// `expires_at`.
pub struct ConvEntry {
    pub conv: Conversation,
    pub expires_at: u64,
}

/// Time-bounded cache of conversation snapshots, used by the media loop to
/// avoid re-enumerating every conversation for each pending attachment. On a
/// miss the whole one-to-one conversation list is reloaded and the cache
/// repopulated for all of them at once.
pub struct ConvCache {
    entries: Vec<ConvEntry>,
    ttl: u64,
}

impl ConvCache {
    /// At most one entry per conversation, and a positive time to live.
    pub closed spec fn wf(self) -> bool {
        &&& self.ttl >= 1
        &&& forall|i: int, j: int|
            0 <= i < j < self.entries@.len() ==> self.entries@[i].conv.id
                != self.entries@[j].conv.id
    }

    /// Is there an entry for `chat_id` that is still live at time `now`?
    pub closed spec fn has_live_entry(self, chat_id: i64, now: u64) -> bool {
        exists|i: int|
            0 <= i < self.entries@.len() && self.entries@[i].conv.id == chat_id
                && self.entries@[i].expires_at > now
    }

    /// The conversation the live entry for `chat_id` holds.
    pub closed spec fn live_conv(self, chat_id: i64, now: u64) -> Conversation {
        let i = choose|i: int|
            0 <= i < self.entries@.len() && self.entries@[i].conv.id == chat_id
                && self.entries@[i].expires_at > now;
        self.entries@[i].conv
    }

    pub fn new(ttl: u64) -> (c: ConvCache)
        requires
            ttl >= 1,
        ensures
            c.wf(),
            forall|chat_id: i64, now: u64| !c.has_live_entry(chat_id, now),
    {
        ConvCache { entries: Vec::new(), ttl }
    }

    /// Answers from the cache alone: `None` on a miss (the caller then
    /// reloads the conversation list and repopulates).
    pub fn lookup(&self, chat_id: i64, now: u64) -> (r: Option<Conversation>)
        requires
            self.wf(),
        ensures
            (r is Some) == self.has_live_entry(chat_id, now),
            r matches Some(c) ==> c == self.live_conv(chat_id, now) && c.id == chat_id,
    {
        let n = self.entries.len();
        let mut i: usize = 0;
        while i < n
            invariant
                n == self.entries@.len(),
                i <= n,
                self.wf(),
                forall|k: int|
                    0 <= k < i ==> !(self.entries@[k].conv.id == chat_id
                        && self.entries@[k].expires_at > now),
            decreases n - i,
        {
            let e = &self.entries[i];
            if e.conv.id == chat_id && e.expires_at > now {
                proof {
                    let w = choose|w: int|
                        0 <= w < self.entries@.len() && self.entries@[w].conv.id == chat_id
                            && self.entries@[w].expires_at > now;
                    assert(w == i);
                }
                return Some(e.conv.duplicate());
            }
            i += 1;
        }
        None
    }

    /// Replaces the whole cache with fresh entries for `convs`, all live
    /// from `now` for the cache's time to live.
    pub fn repopulate(&mut self, convs: &Vec<Conversation>, now: u64)
        requires
            old(self).wf(),
            now < u64::MAX,
            forall|k: int, l: int|
                0 <= k < l < convs@.len() ==> (#[trigger] convs@[k]).id != (
                #[trigger] convs@[l]).id,
        ensures
            final(self).wf(),
            forall|k: int|
                0 <= k < convs@.len() ==> final(self).has_live_entry(
                    (#[trigger] convs@[k]).id,
                    now,
                ) && final(self).live_conv(convs@[k].id, now) == convs@[k],
    {
        let n = convs.len();
        let expires_at = match now.checked_add(self.ttl) {
            Some(e) => e,
            None => u64::MAX,
        };
        let mut entries: Vec<ConvEntry> = Vec::new();
        let mut i: usize = 0;
        while i < n
            invariant
                n == convs@.len(),
                i <= n,
                expires_at > now,
                entries@.len() == i,
                forall|k: int, l: int|
                    0 <= k < l < convs@.len() ==> (#[trigger] convs@[k]).id != (
                    #[trigger] convs@[l]).id,
                forall|k: int|
                    0 <= k < i ==> (#[trigger] entries@[k]).conv == convs@[k]
                        && entries@[k].expires_at == expires_at,
            decreases n - i,
        {
            entries.push(ConvEntry { conv: convs[i].duplicate(), expires_at });
            i += 1;
        }
        self.entries = entries;
        proof {
            assert forall|k: int| 0 <= k < convs@.len() implies final(self).has_live_entry(
                (#[trigger] convs@[k]).id,
                now,
            ) && final(self).live_conv(convs@[k].id, now) == convs@[k] by {
                assert(self.entries@[k].conv == convs@[k] && self.entries@[k].expires_at > now);
                let w = choose|w: int|
                    0 <= w < self.entries@.len() && self.entries@[w].conv.id == convs@[k].id
                        && self.entries@[w].expires_at > now;
                assert(self.entries@[w].conv == convs@[w]);
                assert(w == k);
            }
        }
    }
}

} // verus!
