//! The storage gateway model: an idempotent message store keyed by
//! (message id, conversation id), together with the dedup cache that
//! short-circuits "is this message already archived?" lookups.
//!
//! The surrounding process mirrors every write into its durable store; the
//! decisions (insert-or-ignore, status updates, replay cursors) are made and
//! proved here.

use vstd::prelude::*;
use crate::cache::DedupCache;
use crate::model::{
    MessageRecord,
    chat_ids,
    count_chat,
    count_key,
    has_key,
    lemma_chat_ids_complete,
    lemma_has_key_take_step,
    stored_form,
    unique_keys,
};

verus! {

/// Insert-or-ignore keyed on `(m.id, m.chat_id)`: a present key leaves the
/// store untouched; a new key appends the stored form of the message.
pub open spec fn insert_or_ignore(
    rows: Seq<MessageRecord>,
    m: MessageRecord,
    has_media: bool,
) -> Seq<MessageRecord> {
    if has_key(rows, m.id, m.chat_id) {
        rows
    } else {
        rows.push(stored_form(m, has_media))
    }
}

/// The stored message of the conversation with the greatest timestamp
/// (the newest); on equal timestamps the earlier row wins.
pub open spec fn last_message_spec(rows: Seq<MessageRecord>, chat_id: i64) -> Option<
    MessageRecord,
>
    decreases rows.len(),
{
    if rows.len() == 0 {
        None
    } else {
        let prev = last_message_spec(rows.drop_last(), chat_id);
        let r = rows.last();
        if r.chat_id != chat_id {
            prev
        } else {
            match prev {
                None => Some(r),
                Some(p) => if r.date > p.date {
                    Some(r)
                } else {
                    Some(p)
                },
            }
        }
    }
}

/// The stored message of the conversation with the least timestamp (the
/// oldest loaded); on equal timestamps the earlier row wins. Its id is the
/// cursor a partial replay repositions at.
pub open spec fn first_loaded_spec(rows: Seq<MessageRecord>, chat_id: i64) -> Option<
    MessageRecord,
>
    decreases rows.len(),
{
    if rows.len() == 0 {
        None
    } else {
        let prev = first_loaded_spec(rows.drop_last(), chat_id);
        let r = rows.last();
        if r.chat_id != chat_id {
            prev
        } else {
            match prev {
                None => Some(r),
                Some(p) => if r.date < p.date {
                    Some(r)
                } else {
                    Some(p)
                },
            }
        }
    }
}

/// A message whose attachment is still waiting for resolution.
pub open spec fn pending_media(m: MessageRecord) -> bool {
    m.has_binary_data && !m.binary_data_downloaded
}

/// The first stored message (in row order) with an unresolved attachment.
pub open spec fn first_pending_spec(rows: Seq<MessageRecord>) -> Option<MessageRecord>
    decreases rows.len(),
{
    if rows.len() == 0 {
        None
    } else if pending_media(rows[0]) {
        Some(rows[0])
    } else {
        first_pending_spec(rows.drop_first())
    }
}

/// The store after resolving the attachment state of the row keyed
/// `(id, chat_id)`; every other row is untouched.
pub open spec fn update_status_spec(
    rows: Seq<MessageRecord>,
    id: i32,
    chat_id: i64,
    downloaded: bool,
    path: Option<String>,
    media_type: Option<String>,
) -> Seq<MessageRecord> {
    rows.map(
        |k: int, r: MessageRecord|
            if r.id == id && r.chat_id == chat_id {
                MessageRecord {
                    binary_data_downloaded: downloaded,
                    binary_data_path: path,
                    binary_data_type: media_type,
                    ..r
                }
            } else {
                r
            },
    )
}

impl MessageRecord {
    /// A value-equal copy, proved field by field.
    pub fn duplicate(&self) -> (c: MessageRecord)
        ensures
            c == *self,
    {
        MessageRecord {
            id: self.id,
            chat_id: self.chat_id,
            user_id: self.user_id,
            text: self.text.clone(),
            has_binary_data: self.has_binary_data,
            binary_data_downloaded: self.binary_data_downloaded,
            binary_data_path: match &self.binary_data_path {
                Some(p) => Some(p.clone()),
                None => None,
            },
            binary_data_type: match &self.binary_data_type {
                Some(t) => Some(t.clone()),
                None => None,
            },
            date: self.date,
        }
    }
}

/// The message store with its dedup cache.
pub struct Db {
    rows: Vec<MessageRecord>,
    message_cache: DedupCache,
}

impl Db {
    pub closed spec fn rows(self) -> Seq<MessageRecord> {
        self.rows@
    }

    pub closed spec fn cache(self) -> DedupCache {
        self.message_cache
    }

    /// Primary keys are unique, the cache is well formed, and every id a live
    /// cache entry knows is really stored: a cache hit never discards a
    /// message that storage does not hold.
    pub open spec fn wf(self) -> bool {
        &&& unique_keys(self.rows())
        &&& self.cache().wf()
        &&& forall|c: i64, n: u64, id: i32|
            self.cache().has_live_entry(c, n) && self.cache().live_ids(c, n).contains(id)
                ==> has_key(self.rows(), id, c)
    }

    pub fn new(cache_ttl: u64) -> (db: Db)
        requires
            cache_ttl >= 1,
        ensures
            db.wf(),
            db.rows() == Seq::<MessageRecord>::empty(),
            forall|c: i64, n: u64| !db.cache().has_live_entry(c, n),
    {
        Db { rows: Vec::new(), message_cache: DedupCache::new(cache_ttl) }
    }

    pub fn row_count(&self) -> (n: usize)
        ensures
            n == self.rows().len(),
    {
        self.rows.len()
    }

    /// Every stored row, in row order.
    pub fn export_rows(&self) -> (out: Vec<MessageRecord>)
        ensures
            out@ == self.rows(),
    {
        let n = self.rows.len();
        let mut out: Vec<MessageRecord> = Vec::new();
        let mut i: usize = 0;
        while i < n
            invariant
                n == self.rows@.len(),
                i <= n,
                out@ =~= self.rows@.take(i as int),
            decreases n - i,
        {
            out.push(self.rows[i].duplicate());
            proof {
                assert(out@ =~= self.rows@.take(i + 1));
            }
            i += 1;
        }
        proof {
            assert(self.rows@.take(n as int) =~= self.rows@);
        }
        out
    }

    /// Does the store hold the key `(id, chat_id)`? (Direct scan, no cache.)
    fn contains_key_exec(&self, id: i32, chat_id: i64) -> (r: bool)
        ensures
            r == has_key(self.rows(), id, chat_id),
    {
        let n = self.rows.len();
        let mut i: usize = 0;
        while i < n
            invariant
                n == self.rows@.len(),
                i <= n,
                forall|k: int|
                    0 <= k < i ==> !(self.rows@[k].id == id && self.rows@[k].chat_id == chat_id),
            decreases n - i,
        {
            if self.rows[i].id == id && self.rows[i].chat_id == chat_id {
                return true;
            }
            i += 1;
        }
        false
    }

    /// All message ids of the conversation, in row order.
    fn collect_chat_ids(&self, chat_id: i64) -> (ids: Vec<i32>)
        ensures
            ids@ == chat_ids(self.rows(), chat_id),
    {
        let n = self.rows.len();
        let mut ids: Vec<i32> = Vec::new();
        let mut i: usize = 0;
        while i < n
            invariant
                n == self.rows@.len(),
                i <= n,
                ids@ == chat_ids(self.rows@.take(i as int), chat_id),
            decreases n - i,
        {
            proof {
                assert(self.rows@.take(i + 1).drop_last() =~= self.rows@.take(i as int));
                assert(self.rows@.take(i + 1).last() == self.rows@[i as int]);
            }
            if self.rows[i].chat_id == chat_id {
                ids.push(self.rows[i].id);
            }
            i += 1;
        }
        proof {
            assert(self.rows@.take(n as int) =~= self.rows@);
        }
        ids
    }

    /// Dedup check: answers from a live cache entry when there is one, else
    /// loads the conversation's ids from the store once, caches them, and
    /// answers exactly. A `true` answer always means the store holds the key,
    /// and a miss costs exactly one cache population for the conversation.
    pub fn is_message_already_saved(&mut self, id: i32, chat_id: i64, now: u64) -> (r: bool)
        requires
            old(self).wf(),
            now < u64::MAX,
        ensures
            final(self).wf(),
            final(self).rows() == old(self).rows(),
            r ==> has_key(old(self).rows(), id, chat_id),
            !old(self).cache().has_live_entry(chat_id, now) ==> {
                &&& r == has_key(old(self).rows(), id, chat_id)
                &&& final(self).cache().has_live_entry(chat_id, now)
                &&& final(self).cache().live_ids(chat_id, now) == chat_ids(
                    old(self).rows(),
                    chat_id,
                )
            },
            old(self).cache().has_live_entry(chat_id, now) ==> {
                &&& r == old(self).cache().live_ids(chat_id, now).contains(id)
                &&& final(self).cache() == old(self).cache()
            },
            forall|c: i64, n: u64|
                c != chat_id ==> final(self).cache().has_live_entry(c, n) == old(
                    self,
                ).cache().has_live_entry(c, n),
    {
        match self.message_cache.contains_id(chat_id, id, now) {
            Some(b) => {
                proof {
                    if b {
                        assert(has_key(self.rows@, id, chat_id));
                    }
                }
                b
            },
            None => {
                let ids = self.collect_chat_ids(chat_id);
                let present = self.contains_key_exec(id, chat_id);
                let ghost rows0 = self.rows@;
                self.message_cache.set_entry(chat_id, ids, now);
                proof {
                    lemma_chat_ids_complete(rows0, id, chat_id);
                    assert forall|c: i64, n: u64, id2: i32|
                        final(self).cache().has_live_entry(c, n) && final(self).cache().live_ids(
                            c,
                            n,
                        ).contains(id2) implies has_key(final(self).rows(), id2, c) by {
                        if c == chat_id {
                            assert(final(self).cache().live_ids(c, n) == chat_ids(rows0, chat_id));
                            lemma_chat_ids_complete(rows0, id2, chat_id);
                        } else {
                            assert(old(self).cache().has_live_entry(c, n));
                            assert(old(self).cache().live_ids(c, n).contains(id2));
                        }
                    }
                }
                present
            },
        }
    }

    /// Idempotent write: a present key is ignored, a new key appends the
    /// message in stored form. Returns whether the row is new.
    pub fn save_message(&mut self, msg: &MessageRecord, has_media: bool) -> (was_new: bool)
        requires
            old(self).wf(),
        ensures
            final(self).wf(),
            final(self).cache() == old(self).cache(),
            final(self).rows() == insert_or_ignore(old(self).rows(), *msg, has_media),
            was_new == !has_key(old(self).rows(), msg.id, msg.chat_id),
    {
        if self.contains_key_exec(msg.id, msg.chat_id) {
            return false;
        }
        let stored = MessageRecord {
            id: msg.id,
            chat_id: msg.chat_id,
            user_id: msg.user_id,
            text: msg.text.clone(),
            has_binary_data: has_media,
            binary_data_downloaded: false,
            binary_data_path: None,
            binary_data_type: None,
            date: msg.date,
        };
        proof {
            assert(stored == stored_form(*msg, has_media));
        }
        let ghost rows0 = self.rows@;
        self.rows.push(stored);
        proof {
            assert forall|i: int, j: int| 0 <= i < j < self.rows@.len() implies !(self.rows@[i].id
                == self.rows@[j].id && self.rows@[i].chat_id == self.rows@[j].chat_id) by {
                if j == self.rows@.len() - 1 {
                    assert(!(rows0[i].id == msg.id && rows0[i].chat_id == msg.chat_id));
                } else {
                    assert(self.rows@[i] == rows0[i] && self.rows@[j] == rows0[j]);
                }
            }
            assert forall|c: i64, n: u64, id2: i32|
                self.message_cache.has_live_entry(c, n) && self.message_cache.live_ids(
                    c,
                    n,
                ).contains(id2) implies has_key(self.rows@, id2, c) by {
                assert(has_key(rows0, id2, c));
                let w = choose|w: int|
                    0 <= w < rows0.len() && rows0[w].id == id2 && rows0[w].chat_id == c;
                assert(self.rows@[w].id == id2 && self.rows@[w].chat_id == c);
            }
        }
        true
    }

    /// The newest stored message of the conversation, by timestamp.
    pub fn get_last_message_by_chat(&self, chat_id: i64) -> (r: Option<MessageRecord>)
        ensures
            r == last_message_spec(self.rows(), chat_id),
    {
        let n = self.rows.len();
        let mut best: Option<usize> = None;
        let mut i: usize = 0;
        while i < n
            invariant
                n == self.rows@.len(),
                i <= n,
                match best {
                    None => last_message_spec(self.rows@.take(i as int), chat_id) is None,
                    Some(b) => b < i && last_message_spec(self.rows@.take(i as int), chat_id)
                        == Some(self.rows@[b as int]),
                },
            decreases n - i,
        {
            proof {
                assert(self.rows@.take(i + 1).drop_last() =~= self.rows@.take(i as int));
                assert(self.rows@.take(i + 1).last() == self.rows@[i as int]);
            }
            if self.rows[i].chat_id == chat_id {
                match best {
                    None => {
                        best = Some(i);
                    },
                    Some(b) => {
                        if self.rows[i].date > self.rows[b].date {
                            best = Some(i);
                        }
                    },
                }
            }
            i += 1;
        }
        proof {
            assert(self.rows@.take(n as int) =~= self.rows@);
        }
        match best {
            None => None,
            Some(b) => Some(self.rows[b].duplicate()),
        }
    }

    /// The id of the oldest stored message of the conversation: the cursor a
    /// partial replay repositions at.
    pub fn get_last_loaded_message_id_by_chat(&self, chat_id: i64) -> (r: Option<i32>)
        ensures
            r == match first_loaded_spec(self.rows(), chat_id) {
                Some(m) => Some(m.id),
                None => None::<i32>,
            },
    {
        let n = self.rows.len();
        let mut best: Option<usize> = None;
        let mut i: usize = 0;
        while i < n
            invariant
                n == self.rows@.len(),
                i <= n,
                match best {
                    None => first_loaded_spec(self.rows@.take(i as int), chat_id) is None,
                    Some(b) => b < i && first_loaded_spec(self.rows@.take(i as int), chat_id)
                        == Some(self.rows@[b as int]),
                },
            decreases n - i,
        {
            proof {
                assert(self.rows@.take(i + 1).drop_last() =~= self.rows@.take(i as int));
                assert(self.rows@.take(i + 1).last() == self.rows@[i as int]);
            }
            if self.rows[i].chat_id == chat_id {
                match best {
                    None => {
                        best = Some(i);
                    },
                    Some(b) => {
                        if self.rows[i].date < self.rows[b].date {
                            best = Some(i);
                        }
                    },
                }
            }
            i += 1;
        }
        proof {
            assert(self.rows@.take(n as int) =~= self.rows@);
        }
        match best {
            None => None,
            Some(b) => Some(self.rows[b].id),
        }
    }

    /// The next message whose attachment still awaits resolution.
    pub fn get_message_with_media_not_downloaded(&self) -> (r: Option<MessageRecord>)
        ensures
            r == first_pending_spec(self.rows()),
    {
        let n = self.rows.len();
        let mut i: usize = 0;
        proof {
            assert(self.rows@.skip(0) =~= self.rows@);
        }
        while i < n
            invariant
                n == self.rows@.len(),
                i <= n,
                first_pending_spec(self.rows@) == first_pending_spec(self.rows@.skip(i as int)),
                forall|k: int| 0 <= k < i ==> !pending_media(self.rows@[k]),
            decreases n - i,
        {
            proof {
                assert(self.rows@.skip(i as int)[0] == self.rows@[i as int]);
            }
            if self.rows[i].has_binary_data && !self.rows[i].binary_data_downloaded {
                proof {
                    assert(first_pending_spec(self.rows@.skip(i as int)) == Some(
                        self.rows@[i as int],
                    ));
                }
                return Some(self.rows[i].duplicate());
            }
            proof {
                assert(self.rows@.skip(i as int).drop_first() =~= self.rows@.skip(i + 1));
            }
            i += 1;
        }
        proof {
            assert(self.rows@.skip(n as int) =~= Seq::<MessageRecord>::empty());
        }
        None
    }

    /// Writes a message's attachment resolution: the resolved flag, the
    /// destination path (if any) and the attachment kind. Returns whether the
    /// keyed row exists.
    pub fn save_message_media_status(
        &mut self,
        id: i32,
        chat_id: i64,
        downloaded: bool,
        path: Option<String>,
        media_type: Option<String>,
    ) -> (found: bool)
        requires
            old(self).wf(),
        ensures
            final(self).wf(),
            final(self).cache() == old(self).cache(),
            final(self).rows() == update_status_spec(
                old(self).rows(),
                id,
                chat_id,
                downloaded,
                path,
                media_type,
            ),
            found == has_key(old(self).rows(), id, chat_id),
    {
        let ghost rows0 = self.rows@;
        let ghost target = update_status_spec(rows0, id, chat_id, downloaded, path, media_type);
        let n = self.rows.len();
        let mut out: Vec<MessageRecord> = Vec::new();
        let mut found = false;
        let mut i: usize = 0;
        while i < n
            invariant
                n == self.rows@.len(),
                self.rows@ == rows0,
                target == update_status_spec(rows0, id, chat_id, downloaded, path, media_type),
                i <= n,
                out@ =~= target.take(i as int),
                found == has_key(rows0.take(i as int), id, chat_id),
            decreases n - i,
        {
            let r = &self.rows[i];
            if r.id == id && r.chat_id == chat_id {
                let upd = MessageRecord {
                    id: r.id,
                    chat_id: r.chat_id,
                    user_id: r.user_id,
                    text: r.text.clone(),
                    has_binary_data: r.has_binary_data,
                    binary_data_downloaded: downloaded,
                    binary_data_path: match &path {
                        Some(p) => Some(p.clone()),
                        None => None,
                    },
                    binary_data_type: match &media_type {
                        Some(t) => Some(t.clone()),
                        None => None,
                    },
                    date: r.date,
                };
                proof {
                    assert(upd == target[i as int]);
                }
                out.push(upd);
                found = true;
                proof {
                    lemma_has_key_take_step(rows0, i as int, id, chat_id);
                }
            } else {
                let kept = self.rows[i].duplicate();
                proof {
                    assert(kept == target[i as int]);
                }
                out.push(kept);
                proof {
                    lemma_has_key_take_step(rows0, i as int, id, chat_id);
                }
            }
            proof {
                assert(out@ =~= target.take(i + 1));
            }
            i += 1;
        }
        proof {
            assert(target.take(n as int) =~= target);
            assert(rows0.take(n as int) =~= rows0);
        }
        self.rows = out;
        proof {
            lemma_update_status_preserves_keys(rows0, id, chat_id, downloaded, path, media_type);
            assert forall|c: i64, n2: u64, id2: i32|
                self.message_cache.has_live_entry(c, n2) && self.message_cache.live_ids(
                    c,
                    n2,
                ).contains(id2) implies has_key(self.rows@, id2, c) by {
                assert(has_key(rows0, id2, c));
            }
        }
        found
    }

    /// How many messages the conversation holds.
    pub fn get_message_count_by_chat(&self, chat_id: i64) -> (n: usize)
        ensures
            n == count_chat(self.rows(), chat_id),
    {
        let len = self.rows.len();
        let mut c: usize = 0;
        let mut i: usize = 0;
        while i < len
            invariant
                len == self.rows@.len(),
                i <= len,
                c == count_chat(self.rows@.take(i as int), chat_id),
                c <= i,
            decreases len - i,
        {
            proof {
                assert(self.rows@.take(i + 1).drop_last() =~= self.rows@.take(i as int));
                assert(self.rows@.take(i + 1).last() == self.rows@[i as int]);
            }
            if self.rows[i].chat_id == chat_id {
                c += 1;
            }
            i += 1;
        }
        proof {
            assert(self.rows@.take(len as int) =~= self.rows@);
        }
        c
    }
}

/// Resolving attachment state never creates, deletes or re-keys a row.
pub proof fn lemma_update_status_preserves_keys(
    rows: Seq<MessageRecord>,
    id: i32,
    chat_id: i64,
    downloaded: bool,
    path: Option<String>,
    media_type: Option<String>,
)
    ensures
        update_status_spec(rows, id, chat_id, downloaded, path, media_type).len() == rows.len(),
        forall|id2: i32, c2: i64|
            has_key(update_status_spec(rows, id, chat_id, downloaded, path, media_type), id2, c2)
                == has_key(rows, id2, c2),
        unique_keys(rows) ==> unique_keys(
            update_status_spec(rows, id, chat_id, downloaded, path, media_type),
        ),
{
    let upd = update_status_spec(rows, id, chat_id, downloaded, path, media_type);
    assert(forall|k: int| 0 <= k < rows.len() ==> (#[trigger] upd[k]).id == rows[k].id
        && upd[k].chat_id == rows[k].chat_id);
    assert forall|id2: i32, c2: i64| has_key(upd, id2, c2) == has_key(rows, id2, c2) by {
        if has_key(upd, id2, c2) {
            let w = choose|w: int| 0 <= w < upd.len() && upd[w].id == id2 && upd[w].chat_id == c2;
            assert(rows[w].id == id2 && rows[w].chat_id == c2);
        }
        if has_key(rows, id2, c2) {
            let w = choose|w: int|
                0 <= w < rows.len() && rows[w].id == id2 && rows[w].chat_id == c2;
            assert(upd[w].id == id2 && upd[w].chat_id == c2);
        }
    }
}

/// How many rows carry a key never exceeds one in a well-keyed store.
pub proof fn lemma_count_key_unique(rows: Seq<MessageRecord>, id: i32, chat_id: i64)
    requires
        unique_keys(rows),
    ensures
        count_key(rows, id, chat_id) <= 1,
        has_key(rows, id, chat_id) <==> count_key(rows, id, chat_id) >= 1,
    decreases rows.len(),
{
    if rows.len() == 0 {
    } else {
        assert(unique_keys(rows.drop_last()));
        lemma_count_key_unique(rows.drop_last(), id, chat_id);
        if rows.last().id == id && rows.last().chat_id == chat_id {
            assert(!has_key(rows.drop_last(), id, chat_id)) by {
                if has_key(rows.drop_last(), id, chat_id) {
                    let w = choose|w: int|
                        0 <= w < rows.drop_last().len() && rows.drop_last()[w].id == id
                            && rows.drop_last()[w].chat_id == chat_id;
                    assert(rows[w].id == id && rows[w].chat_id == chat_id);
                    assert(rows[rows.len() - 1].id == id);
                }
            }
            assert(has_key(rows, id, chat_id)) by {
                assert(rows[rows.len() - 1].id == id && rows[rows.len() - 1].chat_id == chat_id);
            }
        } else {
            if has_key(rows, id, chat_id) {
                let w = choose|w: int|
                    0 <= w < rows.len() && rows[w].id == id && rows[w].chat_id == chat_id;
                assert(w < rows.len() - 1);
                assert(rows.drop_last()[w].id == id && rows.drop_last()[w].chat_id == chat_id);
            }
            if has_key(rows.drop_last(), id, chat_id) {
                let w = choose|w: int|
                    0 <= w < rows.drop_last().len() && rows.drop_last()[w].id == id
                        && rows.drop_last()[w].chat_id == chat_id;
                assert(rows[w].id == id && rows[w].chat_id == chat_id);
            }
        }
    }
}

/// Idempotent ingestion: ingesting the same message twice, with any
/// attachment flags, leaves the store exactly as one ingestion does, and the
/// store then holds exactly one row for the message's key.
pub proof fn lemma_idempotent_ingestion(
    rows: Seq<MessageRecord>,
    m: MessageRecord,
    h1: bool,
    h2: bool,
)
    requires
        unique_keys(rows),
    ensures
        insert_or_ignore(insert_or_ignore(rows, m, h1), m, h2) == insert_or_ignore(rows, m, h1),
        count_key(insert_or_ignore(insert_or_ignore(rows, m, h1), m, h2), m.id, m.chat_id) == 1,
{
    let r1 = insert_or_ignore(rows, m, h1);
    if has_key(rows, m.id, m.chat_id) {
        lemma_count_key_unique(rows, m.id, m.chat_id);
    } else {
        assert(r1 == rows.push(stored_form(m, h1)));
        assert(r1[r1.len() - 1].id == m.id && r1[r1.len() - 1].chat_id == m.chat_id);
        assert(has_key(r1, m.id, m.chat_id));
        assert(r1.drop_last() =~= rows);
        assert(count_key(r1, m.id, m.chat_id) == count_key(rows, m.id, m.chat_id) + 1);
        lemma_count_key_unique(rows, m.id, m.chat_id);
        assert(count_key(rows, m.id, m.chat_id) == 0);
    }
}

} // verus!
