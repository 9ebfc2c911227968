use teledump::cache::ConvCache;
use teledump::db::Db;
use teledump::media::{
    apply_media_outcome, chat_media_dir, get_file_extension, get_mime_extension, media_dest_path,
    media_file_name, name_extension, plan_media, DownloadOutcome, MediaAction, MediaInfo,
};
use teledump::model::{Conversation, MessageRecord};

fn pending_msg(id: i32, chat_id: i64) -> MessageRecord {
    MessageRecord {
        id,
        chat_id,
        user_id: 5,
        text: String::new(),
        has_binary_data: true,
        binary_data_downloaded: false,
        binary_data_path: None,
        binary_data_type: None,
        date: 100,
    }
}

#[test]
fn mime_extension_uses_the_subtype() {
    assert_eq!(get_mime_extension(Some("image/webp")), Some(".webp".to_string()));
    assert_eq!(get_mime_extension(Some("application/pdf")), Some(".pdf".to_string()));
    assert_eq!(get_mime_extension(Some("not a mime")), None);
    assert_eq!(get_mime_extension(None), None);
}

#[test]
fn name_extension_takes_the_last_dot() {
    assert_eq!(name_extension("archive.tar.gz"), "gz");
    assert_eq!(name_extension("report.pdf"), "pdf");
    assert_eq!(name_extension("noext"), "");
    assert_eq!(name_extension(".hidden"), "");
    assert_eq!(name_extension(""), "");
}

#[test]
fn file_extensions_by_kind() {
    assert_eq!(get_file_extension(&MediaInfo::Photo { has_payload: true }), ".jpg");
    assert_eq!(get_file_extension(&MediaInfo::Contact), ".vcf");
    assert_eq!(get_file_extension(&MediaInfo::Other), "");
    assert_eq!(
        get_file_extension(&MediaInfo::Sticker { mime_type: Some("image/webp".to_string()) }),
        ".webp"
    );
    assert_eq!(get_file_extension(&MediaInfo::Sticker { mime_type: None }), ".sticker");
    assert_eq!(
        get_file_extension(&MediaInfo::Sticker { mime_type: Some("garbled".to_string()) }),
        ".sticker"
    );
    assert_eq!(
        get_file_extension(&MediaInfo::Document {
            name: "slides.key".to_string(),
            mime_type: Some("application/pdf".to_string()),
        }),
        ".pdf"
    );
    assert_eq!(
        get_file_extension(&MediaInfo::Document {
            name: "archive.tar.gz".to_string(),
            mime_type: None,
        }),
        ".gz"
    );
    assert_eq!(
        get_file_extension(&MediaInfo::Document {
            name: "archive.tar.gz".to_string(),
            mime_type: Some(String::new()),
        }),
        ".gz"
    );
}

#[test]
fn document_file_names() {
    let named = MediaInfo::Document {
        name: "report.pdf".to_string(),
        mime_type: Some("application/pdf".to_string()),
    };
    assert_eq!(media_file_name(&named), "-report.pdf");
    let unnamed = MediaInfo::Document {
        name: String::new(),
        mime_type: Some("application/pdf".to_string()),
    };
    assert_eq!(media_file_name(&unnamed), "-unknown.pdf");
    assert_eq!(media_file_name(&MediaInfo::Photo { has_payload: true }), ".jpg");
}

#[test]
fn destination_paths_are_namespaced_per_conversation() {
    assert_eq!(chat_media_dir("/m", 5), "/m/chat-5");
    assert_eq!(chat_media_dir("/m", -3), "/m/chat--3");
    assert_eq!(media_dest_path("/m", 5, 10, ".jpg"), "/m/chat-5/media-10.jpg");
    assert_eq!(
        media_dest_path("/data/media", 99887766, 123, "-report.pdf"),
        "/data/media/chat-99887766/media-123-report.pdf"
    );
}

#[test]
fn photo_with_payload_is_downloaded() {
    let media = Some(MediaInfo::Photo { has_payload: true });
    let plan = plan_media(&media, "/m", 5, 10);
    match &plan {
        MediaAction::DownloadTo { path, media_type } => {
            assert_eq!(path, "/m/chat-5/media-10.jpg");
            assert_eq!(media_type, ".jpg");
        }
        _ => panic!("expected a download"),
    }
    let mut db = Db::new(600);
    db.save_message(&pending_msg(10, 5), true);
    let resolved = apply_media_outcome(&mut db, 10, 5, &plan, &DownloadOutcome::Completed);
    assert!(resolved);
    let row = db.get_last_message_by_chat(5).unwrap();
    assert!(row.binary_data_downloaded);
    assert_eq!(row.binary_data_path, Some("/m/chat-5/media-10.jpg".to_string()));
    assert_eq!(row.binary_data_type, Some(".jpg".to_string()));
    assert!(db.get_message_with_media_not_downloaded().is_none());
}

#[test]
fn transient_failure_leaves_the_message_pending() {
    let media = Some(MediaInfo::Photo { has_payload: true });
    let plan = plan_media(&media, "/m", 5, 10);
    let mut db = Db::new(600);
    db.save_message(&pending_msg(10, 5), true);
    let resolved = apply_media_outcome(&mut db, 10, 5, &plan, &DownloadOutcome::TransientFailure);
    assert!(!resolved);
    // Still pending: the loop retries until the transfer concludes.
    let again = db.get_message_with_media_not_downloaded().unwrap();
    assert_eq!(again.id, 10);
    let resolved = apply_media_outcome(&mut db, 10, 5, &plan, &DownloadOutcome::Completed);
    assert!(resolved);
    assert!(db.get_message_with_media_not_downloaded().is_none());
}

#[test]
fn absent_payload_still_resolves() {
    // An attachment whose reference reports no payload: the pass must end
    // with the message resolved and no path recorded.
    let media = Some(MediaInfo::Photo { has_payload: false });
    let plan = plan_media(&media, "/m", 5, 10);
    match &plan {
        MediaAction::ResolveWithoutPayload { media_type } => {
            assert_eq!(media_type.as_deref(), Some(".jpg"));
        }
        _ => panic!("expected resolution without a download"),
    }
    let mut db = Db::new(600);
    db.save_message(&pending_msg(10, 5), true);
    let resolved = apply_media_outcome(&mut db, 10, 5, &plan, &DownloadOutcome::Completed);
    assert!(resolved);
    let row = db.get_last_message_by_chat(5).unwrap();
    assert!(row.binary_data_downloaded);
    assert_eq!(row.binary_data_path, None);
    assert!(db.get_message_with_media_not_downloaded().is_none());
}

#[test]
fn message_without_media_resolves_without_path() {
    let plan = plan_media(&None, "/m", 5, 10);
    assert!(matches!(&plan, MediaAction::ResolveWithoutPayload { media_type: None }));
    let mut db = Db::new(600);
    db.save_message(&pending_msg(10, 5), true);
    assert!(apply_media_outcome(&mut db, 10, 5, &plan, &DownloadOutcome::Completed));
    assert!(db.get_message_with_media_not_downloaded().is_none());
}

#[test]
fn status_update_needs_an_existing_row() {
    let mut db = Db::new(600);
    let plan = plan_media(&None, "/m", 5, 10);
    assert!(!apply_media_outcome(&mut db, 10, 5, &plan, &DownloadOutcome::Completed));
}

#[test]
fn conversation_cache_hits_until_expiry() {
    let mut cache = ConvCache::new(10);
    assert!(cache.lookup(1, 0).is_none());
    let convs = vec![
        Conversation { id: 1, name: "alice".to_string(), is_user: true },
        Conversation { id: 2, name: "bob".to_string(), is_user: true },
    ];
    cache.repopulate(&convs, 0);
    let hit = cache.lookup(1, 5).expect("a live entry");
    assert_eq!(hit.name, "alice");
    assert!(cache.lookup(2, 5).is_some());
    assert!(cache.lookup(3, 5).is_none());
    // Entries expire: a later lookup misses and the caller repopulates.
    assert!(cache.lookup(1, 20).is_none());
    cache.repopulate(&convs, 20);
    assert!(cache.lookup(1, 25).is_some());
}
