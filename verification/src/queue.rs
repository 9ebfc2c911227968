//! The bounded, ordered ingestion queue, and the two halves of the ingestion
//! path: `try_ingest` (producer side, dedup check then enqueue) and
//! `process_queued_message` (the single consumer's idempotent storage write).
//!
//! Backpressure is the caller's duty: `enqueue` demands free room, and the
//! surrounding process suspends a producer until the consumer has made some.

use vstd::prelude::*;
use crate::db::{Db, insert_or_ignore};
use crate::model::{MessageRecord, chat_ids, has_key};

verus! {

/// Bounded FIFO hand-off from producers (history replay, live updates) to
/// the single storage-writing consumer.
pub struct IngestQueue {
    items: Vec<MessageRecord>,
    cap: usize,
}

impl IngestQueue {
    pub closed spec fn items(self) -> Seq<MessageRecord> {
        self.items@
    }

    pub closed spec fn cap(self) -> usize {
        self.cap
    }

    pub open spec fn wf(self) -> bool {
        self.items().len() <= self.cap() && self.cap() >= 1
    }

    pub fn new(cap: usize) -> (q: IngestQueue)
        requires
            cap >= 1,
        ensures
            q.wf(),
            q.items() == Seq::<MessageRecord>::empty(),
            q.cap() == cap,
    {
        IngestQueue { items: Vec::new(), cap }
    }

    pub fn len(&self) -> (n: usize)
        ensures
            n == self.items().len(),
    {
        self.items.len()
    }

    pub fn is_full(&self) -> (b: bool)
        ensures
            b == (self.items().len() >= self.cap()),
    {
        self.items.len() >= self.cap
    }

    /// Appends at the back. The caller must have ensured room (producers
    /// block while the queue is full; nothing is ever dropped).
    pub fn enqueue(&mut self, m: MessageRecord)
        requires
            old(self).wf(),
            old(self).items().len() < old(self).cap(),
        ensures
            final(self).wf(),
            final(self).cap() == old(self).cap(),
            final(self).items() == old(self).items().push(m),
    {
        self.items.push(m);
    }

    /// Removes the front item: submission order is delivery order.
    pub fn dequeue(&mut self) -> (r: Option<MessageRecord>)
        requires
            old(self).wf(),
        ensures
            final(self).wf(),
            final(self).cap() == old(self).cap(),
            old(self).items().len() == 0 ==> r is None && final(self).items() == old(self).items(),
            old(self).items().len() > 0 ==> r == Some(old(self).items()[0]) && final(self).items()
                == old(self).items().drop_first(),
    {
        if self.items.len() == 0 {
            None
        } else {
            let m = self.items.remove(0);
            proof {
                assert(final(self).items() =~= old(self).items().drop_first());
            }
            Some(m)
        }
    }
}

/// The producer half of the ingestion path: consult the dedup cache (loading
/// the conversation's known ids once on a miss), and either report the
/// message as already present or enqueue it for the consumer. The dedup check
/// and the eventual write are not atomic; the consumer's write is idempotent,
/// so a racing duplicate enqueue is harmless.
pub fn try_ingest(db: &mut Db, queue: &mut IngestQueue, msg: &MessageRecord, now: u64) -> (already:
    bool)
    requires
        old(db).wf(),
        old(queue).wf(),
        old(queue).items().len() < old(queue).cap(),
        now < u64::MAX,
    ensures
        final(db).wf(),
        final(queue).wf(),
        final(db).rows() == old(db).rows(),
        final(queue).cap() == old(queue).cap(),
        already ==> has_key(old(db).rows(), msg.id, msg.chat_id),
        already ==> final(queue).items() == old(queue).items(),
        !already ==> final(queue).items() == old(queue).items().push(*msg),
        !old(db).cache().has_live_entry(msg.chat_id, now) ==> {
            &&& already == has_key(old(db).rows(), msg.id, msg.chat_id)
            &&& final(db).cache().has_live_entry(msg.chat_id, now)
            &&& final(db).cache().live_ids(msg.chat_id, now) == chat_ids(
                old(db).rows(),
                msg.chat_id,
            )
        },
        old(db).cache().has_live_entry(msg.chat_id, now) ==> {
            &&& already == old(db).cache().live_ids(msg.chat_id, now).contains(msg.id)
            &&& final(db).cache() == old(db).cache()
        },
{
    let already = db.is_message_already_saved(msg.id, msg.chat_id, now);
    if already {
        return true;
    }
    queue.enqueue(msg.duplicate());
    false
}

/// The consumer half: dequeue one message and write it through the store's
/// idempotent insert. A run of these preserves submission order. Returns
/// whether a message was taken.
pub fn process_queued_message(db: &mut Db, queue: &mut IngestQueue) -> (processed: bool)
    requires
        old(db).wf(),
        old(queue).wf(),
    ensures
        final(db).wf(),
        final(queue).wf(),
        final(db).cache() == old(db).cache(),
        final(queue).cap() == old(queue).cap(),
        processed == (old(queue).items().len() > 0),
        !processed ==> final(db).rows() == old(db).rows() && final(queue).items() == old(queue)
            .items(),
        processed ==> final(queue).items() == old(queue).items().drop_first() && final(db).rows()
            == insert_or_ignore(
            old(db).rows(),
            old(queue).items()[0],
            old(queue).items()[0].has_binary_data,
        ),
{
    match queue.dequeue() {
        None => false,
        Some(m) => {
            db.save_message(&m, m.has_binary_data);
            true
        },
    }
}

} // verus!
