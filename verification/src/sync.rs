//! The sync orchestrator: per conversation, decide between a full and a
//! partial history replay and walk the remote history (newest first) through
//! the ingestion path.
//!
//! The remote history arrives as a plain sequence, newest first; walking it
//! and repositioning by message id model the remote service's resumable
//! history cursor. The surrounding process fetches pages and hands them in.

use vstd::prelude::*;
use crate::cache::DedupCache;
use crate::db::{Db, first_loaded_spec, insert_or_ignore, last_message_spec};
use crate::model::{MessageRecord, chat_ids, count_chat, has_key, stored_form};
use crate::queue::{IngestQueue, process_queued_message, try_ingest};

verus! {

/// What one conversation's sync pass did.
pub struct SyncOutcome {
    /// How many history entries were visited (redundant revisits included).
    pub messages_read: usize,
    /// Whether the pass switched to partial replay.
    pub partial: bool,
    /// The id the history cursor was repositioned at, if it was.
    pub reposition_id: Option<i32>,
}

/// A well-formed remote history for one conversation: newest first, message
/// ids strictly decreasing (ids grow over time within a conversation) and
/// timestamps non-increasing.
pub open spec fn remote_wf(remote: Seq<MessageRecord>, chat_id: i64) -> bool {
    &&& forall|k: int| 0 <= k < remote.len() ==> (#[trigger] remote[k]).chat_id == chat_id
    &&& forall|k: int, l: int|
        0 <= k < l < remote.len() ==> (#[trigger] remote[k]).id > (#[trigger] remote[l]).id
    &&& forall|k: int, l: int|
        0 <= k < l < remote.len() ==> (#[trigger] remote[k]).date >= (#[trigger] remote[l]).date
}

/// The remote entries as the consumer stores them.
pub open spec fn stored_seq(remote: Seq<MessageRecord>) -> Seq<MessageRecord> {
    remote.map(|j: int, m: MessageRecord| stored_form(m, m.has_binary_data))
}

/// Nothing of the conversation is stored yet and the dedup cache cannot
/// claim otherwise: the pass must be a complete full replay.
pub open spec fn full_replay_pre(
    rows: Seq<MessageRecord>,
    cache: DedupCache,
    chat_id: i64,
    now: u64,
) -> bool {
    count_chat(rows, chat_id) == 0 && !cache.has_live_entry(chat_id, now)
}

/// The conversation is already stored and the remote history is unchanged:
/// the newest stored timestamp matches the newest remote entry, a reposition
/// cursor exists, and no remote entry lies beyond it.
pub open spec fn partial_replay_pre(
    rows: Seq<MessageRecord>,
    remote: Seq<MessageRecord>,
    chat_id: i64,
) -> bool {
    &&& remote.len() > 0
    &&& last_message_spec(rows, chat_id) matches Some(l) && l.date == remote[0].date
    &&& first_loaded_spec(rows, chat_id) is Some
    &&& forall|k: int|
        0 <= k < remote.len() ==> (#[trigger] remote[k]).id >= first_loaded_spec(
            rows,
            chat_id,
        ).unwrap().id
    &&& has_key(rows, remote[0].id, chat_id)
}

/// A conversation with no stored rows has no cursors, no ids and no keys.
proof fn lemma_no_chat_rows(rows: Seq<MessageRecord>, chat_id: i64)
    requires
        count_chat(rows, chat_id) == 0,
    ensures
        chat_ids(rows, chat_id) == Seq::<i32>::empty(),
        last_message_spec(rows, chat_id) is None,
        first_loaded_spec(rows, chat_id) is None,
        forall|id: i32| !has_key(rows, id, chat_id),
    decreases rows.len(),
{
    if rows.len() == 0 {
        assert forall|id: i32| !has_key(rows, id, chat_id) by {}
    } else {
        assert(count_chat(rows.drop_last(), chat_id) == 0);
        assert(rows.last().chat_id != chat_id);
        lemma_no_chat_rows(rows.drop_last(), chat_id);
        assert forall|id: i32| !has_key(rows, id, chat_id) by {
            if has_key(rows, id, chat_id) {
                let w = choose|w: int|
                    0 <= w < rows.len() && rows[w].id == id && rows[w].chat_id == chat_id;
                assert(w < rows.len() - 1);
                assert(rows.drop_last()[w] == rows[w]);
                assert(has_key(rows.drop_last(), id, chat_id));
            }
        }
    }
}

/// Every row of `s` in the conversation counts.
proof fn lemma_count_chat_all(s: Seq<MessageRecord>, chat_id: i64)
    requires
        forall|k: int| 0 <= k < s.len() ==> (#[trigger] s[k]).chat_id == chat_id,
    ensures
        count_chat(s, chat_id) == s.len(),
    decreases s.len(),
{
    if s.len() > 0 {
        lemma_count_chat_all(s.drop_last(), chat_id);
    }
}

/// Conversation row counts add over concatenation.
proof fn lemma_count_chat_concat(a: Seq<MessageRecord>, b: Seq<MessageRecord>, chat_id: i64)
    ensures
        count_chat(a + b, chat_id) == count_chat(a, chat_id) + count_chat(b, chat_id),
    decreases b.len(),
{
    if b.len() == 0 {
        assert(a + b =~= a);
    } else {
        lemma_count_chat_concat(a, b.drop_last(), chat_id);
        assert((a + b).drop_last() =~= a + b.drop_last());
        assert((a + b).last() == b.last());
    }
}

/// Key membership splits over concatenation.
proof fn lemma_has_key_concat(a: Seq<MessageRecord>, b: Seq<MessageRecord>, id: i32, chat_id: i64)
    ensures
        has_key(a + b, id, chat_id) == (has_key(a, id, chat_id) || has_key(b, id, chat_id)),
{
    if has_key(a + b, id, chat_id) {
        let w = choose|w: int|
            0 <= w < (a + b).len() && (a + b)[w].id == id && (a + b)[w].chat_id == chat_id;
        if w < a.len() {
            assert(a[w].id == id && a[w].chat_id == chat_id);
        } else {
            assert(b[w - a.len()].id == id && b[w - a.len()].chat_id == chat_id);
        }
    }
    if has_key(a, id, chat_id) {
        let w = choose|w: int| 0 <= w < a.len() && a[w].id == id && a[w].chat_id == chat_id;
        assert((a + b)[w].id == id && (a + b)[w].chat_id == chat_id);
    }
    if has_key(b, id, chat_id) {
        let w = choose|w: int| 0 <= w < b.len() && b[w].id == id && b[w].chat_id == chat_id;
        assert((a + b)[w + a.len()].id == id && (a + b)[w + a.len()].chat_id == chat_id);
    }
}

/// Storing preserves primary keys.
proof fn lemma_stored_seq_keys(s: Seq<MessageRecord>, id: i32, chat_id: i64)
    ensures
        stored_seq(s).len() == s.len(),
        forall|k: int|
            0 <= k < s.len() ==> (#[trigger] stored_seq(s)[k]).id == s[k].id && stored_seq(
                s,
            )[k].chat_id == s[k].chat_id,
        has_key(stored_seq(s), id, chat_id) == has_key(s, id, chat_id),
{
    if has_key(stored_seq(s), id, chat_id) {
        let w = choose|w: int|
            0 <= w < stored_seq(s).len() && stored_seq(s)[w].id == id && stored_seq(s)[w].chat_id
                == chat_id;
        assert(s[w].id == id && s[w].chat_id == chat_id);
    }
    if has_key(s, id, chat_id) {
        let w = choose|w: int| 0 <= w < s.len() && s[w].id == id && s[w].chat_id == chat_id;
        assert(stored_seq(s)[w].id == id && stored_seq(s)[w].chat_id == chat_id);
    }
}

/// The first position of the history at which ids drop below `lid`: where a
/// partial replay's cursor repositions (the remote cursor resumes at entries
/// older than the given id).
fn first_index_below(remote: &Vec<MessageRecord>, lid: i32) -> (j: usize)
    requires
        forall|k: int, l: int|
            0 <= k < l < remote@.len() ==> (#[trigger] remote@[k]).id > (
            #[trigger] remote@[l]).id,
    ensures
        j <= remote@.len(),
        forall|k: int| 0 <= k < j ==> (#[trigger] remote@[k]).id >= lid,
        forall|k: int| j <= k < remote@.len() ==> (#[trigger] remote@[k]).id < lid,
{
    let n = remote.len();
    let mut i: usize = 0;
    while i < n
        invariant
            n == remote@.len(),
            i <= n,
            forall|k: int, l: int|
                0 <= k < l < remote@.len() ==> (#[trigger] remote@[k]).id > (
                #[trigger] remote@[l]).id,
            forall|k: int| 0 <= k < i ==> (#[trigger] remote@[k]).id >= lid,
        decreases n - i,
    {
        if remote[i].id < lid {
            return i;
        }
        i += 1;
    }
    n
}

/// One conversation's sync pass.
///
/// The decision mirrors the archive's replay policy: if the newest remote
/// entry's timestamp matches the newest stored one, the store is current up
/// to a suffix and the cursor repositions at the oldest loaded id (partial
/// replay); otherwise the whole history is walked (full replay). A message
/// that turns out to be already present during a full walk likewise switches
/// the pass to partial mode at once.
///
/// Two ensures clauses carry the replay laws. Replay completeness: with
/// nothing of the conversation stored, the pass appends exactly the whole
/// history, one row per remote entry. Partial replay bound: with the store
/// current and the remote history unchanged, exactly one (redundant) history
/// entry is read before the cursor repositions past the end, and the store
/// does not change.
pub fn sync_conversation(
    db: &mut Db,
    queue: &mut IngestQueue,
    remote: &Vec<MessageRecord>,
    chat_id: i64,
    now: u64,
) -> (out: SyncOutcome)
    requires
        old(db).wf(),
        old(queue).wf(),
        old(queue).items().len() == 0,
        remote_wf(remote@, chat_id),
        remote@.len() < usize::MAX / 2 - 1,
        now < u64::MAX,
    ensures
        final(db).wf(),
        final(queue).wf(),
        final(queue).cap() == old(queue).cap(),
        final(queue).items().len() == 0,
        old(db).rows().is_prefix_of(final(db).rows()),
        forall|k: int|
            #![trigger final(db).rows()[k]]
            old(db).rows().len() <= k < final(db).rows().len() ==> exists|j: int|
                #![trigger remote@[j]]
                0 <= j < remote@.len() && final(db).rows()[k] == stored_form(
                    remote@[j],
                    remote@[j].has_binary_data,
                ),
        out.messages_read <= 2 * remote@.len() + 1,
        out.partial == (out.reposition_id is Some),
        full_replay_pre(old(db).rows(), old(db).cache(), chat_id, now) ==> {
            &&& final(db).rows() == old(db).rows() + stored_seq(remote@)
            &&& count_chat(final(db).rows(), chat_id) == remote@.len()
            &&& !out.partial
            &&& out.messages_read == remote@.len()
        },
        partial_replay_pre(old(db).rows(), remote@, chat_id) ==> {
            &&& final(db).rows() == old(db).rows()
            &&& out.messages_read == 1
            &&& out.partial
            &&& out.reposition_id == Some(
                first_loaded_spec(old(db).rows(), chat_id).unwrap().id,
            )
        },
{
    let ghost rows0 = old(db).rows();
    let ghost cache0 = old(db).cache();
    let ghost scen_full = full_replay_pre(rows0, cache0, chat_id, now);
    let ghost scen_partial = partial_replay_pre(rows0, remote@, chat_id);
    proof {
        if scen_full {
            lemma_no_chat_rows(rows0, chat_id);
        }
    }
    proof {
        assert(rows0.is_prefix_of(rows0));
    }
    let last_loaded = db.get_last_loaded_message_id_by_chat(chat_id);
    let n = remote.len();
    let mut i: usize = 0;
    let mut first = true;
    let mut partial = false;
    let mut reads: usize = 0;
    let mut repos: Option<i32> = None;
    while i < n
        invariant
            n == remote@.len(),
            n < usize::MAX / 2 - 1,
            now < u64::MAX,
            remote_wf(remote@, chat_id),
            i <= n,
            db.wf(),
            queue.wf(),
            queue.items().len() == 0,
            queue.cap() == old(queue).cap(),
            rows0 == old(db).rows(),
            cache0 == old(db).cache(),
            scen_full == full_replay_pre(rows0, cache0, chat_id, now),
            scen_partial == partial_replay_pre(rows0, remote@, chat_id),
            last_loaded == match first_loaded_spec(rows0, chat_id) {
                Some(m) => Some(m.id),
                None => None::<i32>,
            },
            rows0.is_prefix_of(db.rows()),
            forall|k: int|
                #![trigger db.rows()[k]]
                rows0.len() <= k < db.rows().len() ==> exists|j: int|
                    #![trigger remote@[j]]
                    0 <= j < remote@.len() && db.rows()[k] == stored_form(
                        remote@[j],
                        remote@[j].has_binary_data,
                    ),
            first ==> i == 0 && reads == 0 && !partial && db.rows() == rows0 && db.cache()
                == cache0,
            !partial ==> reads == i,
            partial ==> reads <= n + 1 + i,
            partial == (repos is Some),
            scen_full ==> {
                &&& !partial
                &&& db.rows() == rows0 + stored_seq(remote@.take(i as int))
                &&& (i == 0 ==> db.cache() == cache0)
                &&& (i > 0 ==> db.cache().has_live_entry(chat_id, now) && db.cache().live_ids(
                    chat_id,
                    now,
                ) == Seq::<i32>::empty())
            },
            scen_partial ==> ((i == 0 && first) || (i >= n && db.rows() == rows0 && reads == 1
                && partial && repos == Some(first_loaded_spec(rows0, chat_id).unwrap().id))),
        decreases 1 - (partial as int), n - i,
    {
        let msg = &remote[i];
        let ghost rows_pre = db.rows();
        let mut next_i = i + 1;
        if first {
            first = false;
            let last = db.get_last_message_by_chat(chat_id);
            let fresh = match &last {
                Some(l) => l.date == msg.date,
                None => false,
            };
            if fresh {
                if let Some(lid) = last_loaded {
                    partial = true;
                    repos = Some(lid);
                    next_i = first_index_below(remote, lid);
                }
            }
        }
        reads += 1;
        let already = try_ingest(db, queue, msg, now);
        if !already {
            process_queued_message(db, queue);
        } else if !partial {
            if let Some(lid) = last_loaded {
                partial = true;
                repos = Some(lid);
                next_i = first_index_below(remote, lid);
            }
        }
        proof {
            assert(queue.items() =~= Seq::<MessageRecord>::empty());
            if !already {
                assert(db.rows() == insert_or_ignore(
                    rows_pre,
                    remote@[i as int],
                    remote@[i as int].has_binary_data,
                ));
            } else {
                assert(db.rows() == rows_pre);
            }
            // Provenance of appended rows.
            if !already && !has_key(rows_pre, remote@[i as int].id, chat_id) {
                assert(db.rows() == rows_pre.push(
                    stored_form(remote@[i as int], remote@[i as int].has_binary_data),
                ));
                assert(rows0.is_prefix_of(db.rows())) by {
                    assert(db.rows().take(rows0.len() as int) =~= rows_pre.take(
                        rows0.len() as int,
                    ));
                }
                assert forall|k: int|
                    #![trigger db.rows()[k]]
                    rows0.len() <= k < db.rows().len() implies exists|j: int|
                        #![trigger remote@[j]]
                        0 <= j < remote@.len() && db.rows()[k] == stored_form(
                            remote@[j],
                            remote@[j].has_binary_data,
                        ) by {
                    if k < db.rows().len() - 1 {
                        assert(db.rows()[k] == rows_pre[k]);
                    } else {
                        assert(db.rows()[k] == stored_form(
                            remote@[i as int],
                            remote@[i as int].has_binary_data,
                        ));
                    }
                }
            }
            if scen_full {
                lemma_no_chat_rows(rows0, chat_id);
                // The message was not yet present: old rows hold nothing of
                // the conversation, and the stored prefix holds only larger ids.
                lemma_stored_seq_keys(remote@.take(i as int), remote@[i as int].id, chat_id);
                lemma_has_key_concat(
                    rows0,
                    stored_seq(remote@.take(i as int)),
                    remote@[i as int].id,
                    chat_id,
                );
                assert(!has_key(remote@.take(i as int), remote@[i as int].id, chat_id)) by {
                    if has_key(remote@.take(i as int), remote@[i as int].id, chat_id) {
                        let w = choose|w: int|
                            0 <= w < i && remote@.take(i as int)[w].id == remote@[i as int].id
                                && remote@.take(i as int)[w].chat_id == chat_id;
                        assert(remote@[w].id == remote@[i as int].id);
                    }
                }
                assert(!has_key(rows_pre, remote@[i as int].id, chat_id));
                assert(!already);
                assert(db.rows() =~= rows0 + stored_seq(remote@.take(i + 1))) by {
                    assert(stored_seq(remote@.take(i + 1)) =~= stored_seq(
                        remote@.take(i as int),
                    ).push(stored_form(remote@[i as int], remote@[i as int].has_binary_data)));
                }
            }
            if scen_partial && i == 0 {
                assert(partial);
                assert(next_i >= n) by {
                    if next_i < n {
                        assert(remote@[next_i as int].id >= first_loaded_spec(
                            rows0,
                            chat_id,
                        ).unwrap().id);
                    }
                }
                assert(db.rows() == rows0);
            }
        }
        i = next_i;
    }
    proof {
        if scen_full {
            assert(remote@.take(n as int) =~= remote@);
            lemma_count_chat_concat(rows0, stored_seq(remote@), chat_id);
            lemma_stored_seq_keys(remote@, 0, chat_id);
            lemma_count_chat_all(stored_seq(remote@), chat_id);
        }
        if scen_partial {
            assert(n > 0);
        }
    }
    SyncOutcome { messages_read: reads, partial, reposition_id: repos }
}

} // verus!
