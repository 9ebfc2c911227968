//! The data model of the archive: message records keyed by
//! (message id, conversation id), and conversation snapshots.

use vstd::prelude::*;

verus! {

/// One archived message. Message ids are unique only within a conversation;
/// the pair `(id, chat_id)` is the primary key of the store.
#[derive(Clone, Debug)]
pub struct MessageRecord {
    pub id: i32,
    pub chat_id: i64,
    pub user_id: i64,
    pub text: String,
    pub has_binary_data: bool,
    pub binary_data_downloaded: bool,
    pub binary_data_path: Option<String>,
    pub binary_data_type: Option<String>,
    /// Timestamp of the message, as a plain integer; larger means later.
    pub date: i64,
}

/// A snapshot of a conversation, as handed in by the surrounding process.
#[derive(Clone, Debug)]
pub struct Conversation {
    pub id: i64,
    pub name: String,
    /// True for a one-to-one chat with another user (as opposed to a group
    /// or channel); only those are archived.
    pub is_user: bool,
}

impl Conversation {
    /// A value-equal copy, proved field by field.
    pub fn duplicate(&self) -> (c: Conversation)
        ensures
            c == *self,
    {
        Conversation { id: self.id, name: self.name.clone(), is_user: self.is_user }
    }
}

/// Does `rows` hold a row with primary key `(id, chat_id)`?
pub open spec fn has_key(rows: Seq<MessageRecord>, id: i32, chat_id: i64) -> bool {
    exists|i: int| 0 <= i < rows.len() && rows[i].id == id && rows[i].chat_id == chat_id
}

/// No two rows share a primary key.
pub open spec fn unique_keys(rows: Seq<MessageRecord>) -> bool {
    forall|i: int, j: int|
        0 <= i < j < rows.len() ==> !(rows[i].id == rows[j].id && rows[i].chat_id
            == rows[j].chat_id)
}

/// How many rows carry the primary key `(id, chat_id)`.
pub open spec fn count_key(rows: Seq<MessageRecord>, id: i32, chat_id: i64) -> nat
    decreases rows.len(),
{
    if rows.len() == 0 {
        0
    } else {
        count_key(rows.drop_last(), id, chat_id) + if rows.last().id == id && rows.last().chat_id
            == chat_id {
            1nat
        } else {
            0nat
        }
    }
}

/// How many rows belong to conversation `chat_id`.
pub open spec fn count_chat(rows: Seq<MessageRecord>, chat_id: i64) -> nat
    decreases rows.len(),
{
    if rows.len() == 0 {
        0
    } else {
        count_chat(rows.drop_last(), chat_id) + if rows.last().chat_id == chat_id {
            1nat
        } else {
            0nat
        }
    }
}

/// The message ids of the rows of conversation `chat_id`, in row order.
pub open spec fn chat_ids(rows: Seq<MessageRecord>, chat_id: i64) -> Seq<i32>
    decreases rows.len(),
{
    if rows.len() == 0 {
        Seq::<i32>::empty()
    } else if rows.last().chat_id == chat_id {
        chat_ids(rows.drop_last(), chat_id).push(rows.last().id)
    } else {
        chat_ids(rows.drop_last(), chat_id)
    }
}

/// A key is in the store exactly when the conversation's id listing holds it.
pub proof fn lemma_chat_ids_complete(rows: Seq<MessageRecord>, id: i32, chat_id: i64)
    ensures
        has_key(rows, id, chat_id) <==> chat_ids(rows, chat_id).contains(id),
    decreases rows.len(),
{
    if rows.len() == 0 {
    } else {
        lemma_chat_ids_complete(rows.drop_last(), id, chat_id);
        if has_key(rows, id, chat_id) {
            let i = choose|i: int|
                0 <= i < rows.len() && rows[i].id == id && rows[i].chat_id == chat_id;
            if i < rows.len() - 1 {
                assert(rows.drop_last()[i] == rows[i]);
                assert(has_key(rows.drop_last(), id, chat_id));
                assert(chat_ids(rows.drop_last(), chat_id).contains(id));
                let j = choose|j: int|
                    0 <= j < chat_ids(rows.drop_last(), chat_id).len() && chat_ids(
                        rows.drop_last(),
                        chat_id,
                    )[j] == id;
                assert(chat_ids(rows, chat_id)[j] == id);
            } else {
                assert(rows.last().id == id && rows.last().chat_id == chat_id);
                let s = chat_ids(rows, chat_id);
                assert(s.last() == id);
            }
        }
        if chat_ids(rows, chat_id).contains(id) {
            let s = chat_ids(rows, chat_id);
            let j = choose|j: int| 0 <= j < s.len() && s[j] == id;
            if rows.last().chat_id == chat_id && j == s.len() - 1 {
                assert(rows.last().id == id);
                assert(rows[rows.len() - 1].id == id && rows[rows.len() - 1].chat_id == chat_id);
            } else {
                assert(chat_ids(rows.drop_last(), chat_id).contains(id));
                assert(has_key(rows.drop_last(), id, chat_id));
                let i = choose|i: int|
                    0 <= i < rows.drop_last().len() && rows.drop_last()[i].id == id
                        && rows.drop_last()[i].chat_id == chat_id;
                assert(rows[i].id == id && rows[i].chat_id == chat_id);
            }
        }
    }
}

/// Walking one row further changes key membership of the walked prefix
/// exactly by the stepped-over row's key.
pub proof fn lemma_has_key_take_step(rows: Seq<MessageRecord>, i: int, id: i32, chat_id: i64)
    requires
        0 <= i < rows.len(),
    ensures
        has_key(rows.take(i + 1), id, chat_id) == (has_key(rows.take(i), id, chat_id) || (rows[
            i
        ].id == id && rows[i].chat_id == chat_id)),
{
    let a = rows.take(i);
    let b = rows.take(i + 1);
    if has_key(b, id, chat_id) {
        let w = choose|w: int| 0 <= w < b.len() && b[w].id == id && b[w].chat_id == chat_id;
        if w < i {
            assert(a[w].id == id && a[w].chat_id == chat_id);
        } else {
            assert(b[w] == rows[i]);
        }
    }
    if has_key(a, id, chat_id) {
        let w = choose|w: int| 0 <= w < a.len() && a[w].id == id && a[w].chat_id == chat_id;
        assert(b[w].id == id && b[w].chat_id == chat_id);
    }
    if rows[i].id == id && rows[i].chat_id == chat_id {
        assert(b[i].id == id && b[i].chat_id == chat_id);
    }
}

/// The form in which the ingestion consumer stores a captured message:
/// attachment resolution starts out pending, with no path or kind recorded.
pub open spec fn stored_form(m: MessageRecord, has_media: bool) -> MessageRecord {
    MessageRecord {
        has_binary_data: has_media,
        binary_data_downloaded: false,
        binary_data_path: None,
        binary_data_type: None,
        ..m
    }
}

} // verus!
