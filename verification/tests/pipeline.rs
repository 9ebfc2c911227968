use teledump::config::Config;
use teledump::db::Db;
use teledump::live::{route_update, filter_user_chats, UpdateAction, UpdateEvent};
use teledump::model::{Conversation, MessageRecord};
use teledump::queue::{process_queued_message, try_ingest, IngestQueue};
use teledump::sync::sync_conversation;

fn msg(id: i32, chat_id: i64, date: i64) -> MessageRecord {
    MessageRecord {
        id,
        chat_id,
        user_id: 77,
        text: format!("message {}", id),
        has_binary_data: false,
        binary_data_downloaded: false,
        binary_data_path: None,
        binary_data_type: None,
        date,
    }
}

fn conv(id: i64, name: &str, is_user: bool) -> Conversation {
    Conversation { id, name: name.to_string(), is_user }
}

#[test]
fn idempotent_ingestion() {
    let mut db = Db::new(600);
    let m = msg(10, 1, 1000);
    let new_first = db.save_message(&m, false);
    let new_second = db.save_message(&m, false);
    assert!(new_first);
    assert!(!new_second);
    assert_eq!(db.row_count(), 1);
    assert_eq!(db.get_message_count_by_chat(1), 1);
}

#[test]
fn idempotent_ingestion_through_queue() {
    let mut db = Db::new(600);
    let mut queue = IngestQueue::new(16);
    let m = msg(10, 1, 1000);
    // Two producers race past the dedup check: both enqueue.
    let first = try_ingest(&mut db, &mut queue, &m, 0);
    let second = try_ingest(&mut db, &mut queue, &m, 0);
    assert!(!first);
    assert!(!second);
    assert!(process_queued_message(&mut db, &mut queue));
    assert!(process_queued_message(&mut db, &mut queue));
    assert!(!process_queued_message(&mut db, &mut queue));
    assert_eq!(db.row_count(), 1);
}

#[test]
fn dedup_reports_already_present() {
    let mut db = Db::new(600);
    let m = msg(10, 1, 1000);
    db.save_message(&m, false);
    // Cache miss: one population, exact answer.
    assert!(db.is_message_already_saved(10, 1, 0));
    // Cache hit: answered from the populated entry.
    assert!(db.is_message_already_saved(10, 1, 0));
    assert!(!db.is_message_already_saved(11, 1, 0));
    let mut queue = IngestQueue::new(16);
    let already = try_ingest(&mut db, &mut queue, &m, 0);
    assert!(already);
    assert!(!process_queued_message(&mut db, &mut queue));
}

#[test]
fn dedup_entry_expires_and_reloads() {
    let mut db = Db::new(10);
    let m = msg(10, 1, 1000);
    db.save_message(&m, false);
    assert!(db.is_message_already_saved(10, 1, 0));
    let m2 = msg(11, 1, 1100);
    db.save_message(&m2, false);
    // Stale entry still answers for its snapshot...
    assert!(!db.is_message_already_saved(11, 1, 5));
    // ...but after expiry the reload sees the newer row.
    assert!(db.is_message_already_saved(11, 1, 20));
}

#[test]
fn full_sync_stores_everything() {
    // Conversation 7 has remote messages with ids 10, 11, 12 (oldest to
    // newest); the history arrives newest first; storage is empty.
    let mut db = Db::new(600);
    let mut queue = IngestQueue::new(16);
    let remote = vec![msg(12, 7, 3000), msg(11, 7, 2000), msg(10, 7, 1000)];
    let out = sync_conversation(&mut db, &mut queue, &remote, 7, 0);
    assert_eq!(db.get_message_count_by_chat(7), 3);
    assert_eq!(out.messages_read, 3);
    assert!(!out.partial);
    assert_eq!(out.reposition_id, None);
    let last = db.get_last_message_by_chat(7).expect("a newest message");
    assert_eq!(last.id, 12);
    assert_eq!(last.date, 3000);
    let oldest_loaded = db.get_last_loaded_message_id_by_chat(7);
    assert_eq!(oldest_loaded, Some(10));
}

#[test]
fn second_sync_repositions_at_minimum_id() {
    let mut db = Db::new(600);
    let mut queue = IngestQueue::new(16);
    let remote = vec![msg(12, 7, 3000), msg(11, 7, 2000), msg(10, 7, 1000)];
    sync_conversation(&mut db, &mut queue, &remote, 7, 0);
    // No new remote messages: the second pass reads one entry, switches to
    // partial mode, repositions using id 10 (the minimum), stores nothing.
    let out = sync_conversation(&mut db, &mut queue, &remote, 7, 0);
    assert_eq!(out.messages_read, 1);
    assert!(out.partial);
    assert_eq!(out.reposition_id, Some(10));
    assert_eq!(db.get_message_count_by_chat(7), 3);
    assert_eq!(db.row_count(), 3);
}

#[test]
fn sync_with_new_remote_tail_stores_only_missing() {
    let mut db = Db::new(600);
    let mut queue = IngestQueue::new(16);
    let remote = vec![msg(11, 7, 2000), msg(10, 7, 1000)];
    sync_conversation(&mut db, &mut queue, &remote, 7, 0);
    assert_eq!(db.get_message_count_by_chat(7), 2);
    // A newer message arrived: timestamps differ, full walk, but every
    // already-present row stays single.
    let remote2 = vec![msg(12, 7, 3000), msg(11, 7, 2000), msg(10, 7, 1000)];
    sync_conversation(&mut db, &mut queue, &remote2, 7, 0);
    assert_eq!(db.get_message_count_by_chat(7), 3);
    let last = db.get_last_message_by_chat(7).expect("a newest message");
    assert_eq!(last.id, 12);
}

#[test]
fn sync_keeps_other_conversations_apart() {
    let mut db = Db::new(600);
    let mut queue = IngestQueue::new(16);
    let remote_a = vec![msg(2, 1, 200), msg(1, 1, 100)];
    let remote_b = vec![msg(2, 2, 250), msg(1, 2, 150)];
    sync_conversation(&mut db, &mut queue, &remote_a, 1, 0);
    sync_conversation(&mut db, &mut queue, &remote_b, 2, 0);
    assert_eq!(db.get_message_count_by_chat(1), 2);
    assert_eq!(db.get_message_count_by_chat(2), 2);
    assert_eq!(db.row_count(), 4);
}

#[test]
fn queue_preserves_submission_order() {
    let mut queue = IngestQueue::new(4);
    queue.enqueue(msg(1, 1, 100));
    queue.enqueue(msg(2, 1, 200));
    queue.enqueue(msg(3, 1, 300));
    assert_eq!(queue.len(), 3);
    assert!(!queue.is_full());
    assert_eq!(queue.dequeue().unwrap().id, 1);
    assert_eq!(queue.dequeue().unwrap().id, 2);
    assert_eq!(queue.dequeue().unwrap().id, 3);
    assert!(queue.dequeue().is_none());
}

#[test]
fn routing_captures_both_directions() {
    let outgoing = UpdateEvent::NewMessage {
        msg: msg(1, 1, 100),
        outgoing: true,
        from_user_chat: false,
        has_sender: true,
    };
    assert_eq!(route_update(&outgoing), UpdateAction::Ingest);
    let incoming_pm = UpdateEvent::NewMessage {
        msg: msg(2, 1, 200),
        outgoing: false,
        from_user_chat: true,
        has_sender: true,
    };
    assert_eq!(route_update(&incoming_pm), UpdateAction::Ingest);
}

#[test]
fn routing_discards_unresolvable_or_foreign() {
    let no_sender = UpdateEvent::NewMessage {
        msg: msg(1, 1, 100),
        outgoing: false,
        from_user_chat: true,
        has_sender: false,
    };
    assert_eq!(route_update(&no_sender), UpdateAction::Discard);
    let group = UpdateEvent::NewMessage {
        msg: msg(2, 9, 200),
        outgoing: false,
        from_user_chat: false,
        has_sender: true,
    };
    assert_eq!(route_update(&group), UpdateAction::Discard);
    assert_eq!(route_update(&UpdateEvent::OtherUpdate), UpdateAction::Discard);
}

#[test]
fn only_user_chats_are_kept() {
    let convs = vec![
        conv(1, "alice", true),
        conv(2, "a channel", false),
        conv(3, "bob", true),
    ];
    let kept = filter_user_chats(&convs);
    assert_eq!(kept.len(), 2);
    assert_eq!(kept[0].id, 1);
    assert_eq!(kept[1].id, 3);
}

#[test]
fn config_derives_paths() {
    let c = Config::init(1234, "SECRET-REDACTED".to_string(), "/data/archive".to_string());
    assert_eq!(c.api_id, 1234);
    assert_eq!(c.store_path, "/data/archive");
    assert_eq!(c.media_path, "/data/archive/media");
    assert_eq!(c.database_url, "sqlite:///data/archive/teledump.db?mode=rwc");
    assert_eq!(c.teledump_session_path, "/data/archive/teledump.session");
}
