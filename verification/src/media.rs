//! Media resolution: classify a message's attachment, derive its destination
//! file name and path, and drive the `pending -> resolved` state machine.
//!
//! The surrounding process fetches the message's attachment metadata and
//! performs the binary transfer; the decisions — what kind, what name, what
//! path, what to record in storage for each outcome — are made and proved
//! here. An attachment whose payload is confirmed absent is still resolved
//! (with no path), so no message stays pending forever.

use vstd::prelude::*;
use vstd::string::StrSliceExecFns;
use vstd::string::StringExecFns;
use crate::db::{Db, pending_media, update_status_spec};
use crate::model::{MessageRecord, has_key};

verus! {

/// The digit character of one decimal digit.
pub open spec fn digit_char(d: nat) -> char {
    if d == 0 {
        '0'
    } else if d == 1 {
        '1'
    } else if d == 2 {
        '2'
    } else if d == 3 {
        '3'
    } else if d == 4 {
        '4'
    } else if d == 5 {
        '5'
    } else if d == 6 {
        '6'
    } else if d == 7 {
        '7'
    } else if d == 8 {
        '8'
    } else {
        '9'
    }
}

/// The decimal digits of a natural number, most significant first.
pub open spec fn dec_str(n: nat) -> Seq<char>
    decreases n,
{
    if n < 10 {
        seq![digit_char(n)]
    } else {
        dec_str(n / 10).push(digit_char(n % 10))
    }
}

/// The decimal rendering of an integer, with a leading '-' when negative.
pub open spec fn dec_str_signed(n: int) -> Seq<char> {
    if n < 0 {
        seq!['-'] + dec_str((-n) as nat)
    } else {
        dec_str(n as nat)
    }
}

/// Relies on std's integer formatting: the decimal digits of the value,
/// preceded by '-' when it is negative.
#[verifier::external_body]
fn fmt_i64(n: i64) -> (r: String)
    ensures
        r@ == dec_str_signed(n as int),
{
    format!("{}", n)
}

/// What the parser of the mime crate extracts as the subtype of a media
/// type string, `None` where the string is not a media type. A function of
/// the string alone.
pub uninterp spec fn mime_subtype_of(s: Seq<char>) -> Option<Seq<char>>;

/// Relies on mime's `Mime` parser (`str::parse`) and `Mime::subtype`: the
/// parse is a pure function of the input, and the subtype is a slice of the
/// parsed value.
#[verifier::external_body]
fn mime_subtype(s: &str) -> (r: Option<String>)
    ensures
        (r is Some) == (mime_subtype_of(s@) is Some),
        r matches Some(sub) ==> mime_subtype_of(s@) == Some(sub@),
{
    match s.parse::<mime::Mime>() {
        Ok(m) => Some(m.subtype().as_str().to_string()),
        Err(_) => None,
    }
}

/// An attachment's metadata, as the surrounding process reads it off the
/// remote message: the kind, the declared document name and media type, and
/// whether the underlying reference still carries a payload.
pub enum MediaInfo {
    Photo { has_payload: bool },
    Document { name: String, mime_type: Option<String> },
    Sticker { mime_type: Option<String> },
    Contact,
    Other,
}

pub open spec fn opt_str_view(m: Option<&str>) -> Option<Seq<char>> {
    match m {
        Some(s) => Some(s@),
        None => None,
    }
}

pub open spec fn opt_string_view(m: Option<String>) -> Option<Seq<char>> {
    match m {
        Some(s) => Some(s@),
        None => None,
    }
}

/// "." followed by the mime subtype, `None` where there is no parseable
/// media type to derive it from.
pub open spec fn mime_ext_spec(m: Option<Seq<char>>) -> Option<Seq<char>> {
    match m {
        None => None,
        Some(s) => match mime_subtype_of(s) {
            None => None,
            Some(sub) => Some("."@ + sub),
        },
    }
}

pub fn get_mime_extension(mime_type: Option<&str>) -> (r: Option<String>)
    ensures
        (r is Some) == (mime_ext_spec(opt_str_view(mime_type)) is Some),
        r matches Some(e) ==> mime_ext_spec(opt_str_view(mime_type)) == Some(e@),
{
    match mime_type {
        None => None,
        Some(m) => match mime_subtype(m) {
            None => None,
            Some(sub) => {
                let mut e = ".".to_owned();
                e.append(sub.as_str());
                Some(e)
            },
        },
    }
}

/// The position of the last '.' of a name.
pub open spec fn last_dot(s: Seq<char>) -> Option<int>
    decreases s.len(),
{
    if s.len() == 0 {
        None
    } else if s[s.len() - 1] == '.' {
        Some(s.len() - 1)
    } else {
        last_dot(s.drop_last())
    }
}

/// The file name's extension: what follows the last '.', empty when there is
/// no '.' past the first character (a leading dot hides a name, it does not
/// begin an extension).
pub open spec fn name_ext_spec(s: Seq<char>) -> Seq<char> {
    match last_dot(s) {
        Some(i) => if i > 0 {
            s.subrange(i + 1, s.len() as int)
        } else {
            Seq::<char>::empty()
        },
        None => Seq::<char>::empty(),
    }
}

/// The extension of a declared document name.
pub fn name_extension(name: &str) -> (r: String)
    ensures
        r@ == name_ext_spec(name@),
{
    let n = name.unicode_len();
    let mut j = n;
    proof {
        assert(name@.take(n as int) =~= name@);
    }
    while j > 0
        invariant
            j <= n,
            n == name@.len(),
            last_dot(name@) == last_dot(name@.take(j as int)),
        decreases j,
    {
        let c = name.get_char(j - 1);
        proof {
            assert(name@.take(j as int).len() == j);
            assert(name@.take(j as int)[j - 1] == name@[j - 1]);
            assert(name@.take(j as int).drop_last() =~= name@.take(j - 1));
        }
        if c == '.' {
            proof {
                assert(last_dot(name@) == Some(j - 1));
            }
            if j - 1 > 0 {
                let ext = name.substring_char(j, n);
                return ext.to_owned();
            } else {
                return String::new();
            }
        }
        j -= 1;
    }
    proof {
        assert(name@.take(0) =~= Seq::<char>::empty());
        assert(last_dot(name@) is None);
    }
    String::new()
}

/// The file extension recorded for an attachment: ".jpg" for photos, the
/// mime subtype (or ".sticker") for stickers, ".vcf" for contacts, the mime
/// subtype for documents where one parses — else the extension of the
/// declared name — and empty for anything else.
pub open spec fn file_ext_spec(m: MediaInfo) -> Seq<char> {
    match m {
        MediaInfo::Photo { .. } => ".jpg"@,
        MediaInfo::Sticker { mime_type } => match mime_ext_spec(opt_string_view(mime_type)) {
            Some(e) => e,
            None => ".sticker"@,
        },
        MediaInfo::Document { name, mime_type } => match mime_type {
            None => "."@ + name_ext_spec(name@),
            Some(mt) => if mt@.len() == 0 {
                "."@ + name_ext_spec(name@)
            } else {
                match mime_subtype_of(mt@) {
                    Some(sub) => "."@ + sub,
                    None => "."@ + name_ext_spec(name@),
                }
            },
        },
        MediaInfo::Contact => ".vcf"@,
        MediaInfo::Other => Seq::<char>::empty(),
    }
}

pub fn get_file_extension(media: &MediaInfo) -> (r: String)
    ensures
        r@ == file_ext_spec(*media),
{
    match media {
        MediaInfo::Photo { .. } => ".jpg".to_owned(),
        MediaInfo::Sticker { mime_type } => {
            let mt = match mime_type {
                Some(s) => Some(s.as_str()),
                None => None,
            };
            match get_mime_extension(mt) {
                Some(e) => e,
                None => ".sticker".to_owned(),
            }
        },
        MediaInfo::Document { name, mime_type } => {
            let from_name = match mime_type {
                None => true,
                Some(mt) => mt.as_str().is_empty(),
            };
            if from_name {
                let mut e = ".".to_owned();
                let ext = name_extension(name.as_str());
                e.append(ext.as_str());
                e
            } else {
                match mime_type {
                    Some(mt) => match get_mime_extension(Some(mt.as_str())) {
                        Some(e) => e,
                        None => {
                            let mut e = ".".to_owned();
                            let ext = name_extension(name.as_str());
                            e.append(ext.as_str());
                            e
                        },
                    },
                    None => String::new(),
                }
            }
        },
        MediaInfo::Contact => ".vcf".to_owned(),
        MediaInfo::Other => String::new(),
    }
}

/// The suffix appended after "media-<id>" in the destination file name:
/// documents carry their declared name (or an "-unknown" placeholder with
/// the derived extension), every other kind its extension alone.
pub open spec fn media_name_spec(m: MediaInfo) -> Seq<char> {
    match m {
        MediaInfo::Document { name, .. } => if name@.len() == 0 {
            "-unknown"@ + file_ext_spec(m)
        } else {
            "-"@ + name@
        },
        _ => file_ext_spec(m),
    }
}

pub fn media_file_name(media: &MediaInfo) -> (r: String)
    ensures
        r@ == media_name_spec(*media),
{
    match media {
        MediaInfo::Document { name, .. } => {
            if name.as_str().is_empty() {
                let mut e = "-unknown".to_owned();
                let ext = get_file_extension(media);
                e.append(ext.as_str());
                e
            } else {
                let mut e = "-".to_owned();
                e.append(name.as_str());
                e
            }
        },
        _ => get_file_extension(media),
    }
}

/// The per-conversation directory of downloaded media.
pub open spec fn chat_dir_spec(media_root: Seq<char>, chat_id: i64) -> Seq<char> {
    media_root + "/chat-"@ + dec_str_signed(chat_id as int)
}

/// `<media-root>/chat-<conversation id>/media-<message id><suffix>`.
pub open spec fn media_path_spec(
    media_root: Seq<char>,
    chat_id: i64,
    message_id: i32,
    media_name: Seq<char>,
) -> Seq<char> {
    chat_dir_spec(media_root, chat_id) + "/media-"@ + dec_str_signed(message_id as int)
        + media_name
}

/// The directory a conversation's media lands in.
pub fn chat_media_dir(media_root: &str, chat_id: i64) -> (r: String)
    ensures
        r@ == chat_dir_spec(media_root@, chat_id),
{
    let mut d = media_root.to_owned();
    d.append("/chat-");
    let num = fmt_i64(chat_id);
    d.append(num.as_str());
    d
}

/// The destination path of one attachment.
pub fn media_dest_path(media_root: &str, chat_id: i64, message_id: i32, media_name: &str) -> (r:
    String)
    ensures
        r@ == media_path_spec(media_root@, chat_id, message_id, media_name@),
{
    let mut p = chat_media_dir(media_root, chat_id);
    p.append("/media-");
    let num = fmt_i64(message_id as i64);
    p.append(num.as_str());
    p.append(media_name);
    p
}

/// What the media loop decides for one pending message.
pub enum MediaAction {
    /// The attachment has a payload: transfer it to `path`, then record the
    /// path and kind.
    DownloadTo { path: String, media_type: String },
    /// No transferable payload (absent payload, or an unclassifiable kind):
    /// record the message as resolved at once, with no path.
    ResolveWithoutPayload { media_type: Option<String> },
}

/// How a binary transfer attempt ended.
pub enum DownloadOutcome {
    Completed,
    TransientFailure,
}

/// Decide what to do with one pending message, given the attachment
/// metadata the remote service reports for it (`None`: the re-fetched
/// message carries no media, or was not found — nothing to transfer).
pub fn plan_media(media: &Option<MediaInfo>, media_root: &str, chat_id: i64, message_id: i32) -> (
    plan: MediaAction)
    ensures
        match media {
            None => (plan matches MediaAction::ResolveWithoutPayload { media_type } && media_type
                is None),
            Some(m) => match m {
                MediaInfo::Photo { has_payload } => if *has_payload {
                    plan matches MediaAction::DownloadTo { path, media_type } && path@
                        == media_path_spec(media_root@, chat_id, message_id, media_name_spec(*m))
                        && media_type@ == file_ext_spec(*m)
                } else {
                    plan matches MediaAction::ResolveWithoutPayload { media_type } && media_type
                        matches Some(t) && t@ == file_ext_spec(*m)
                },
                MediaInfo::Document { .. } => plan matches MediaAction::DownloadTo {
                    path,
                    media_type,
                } && path@ == media_path_spec(
                    media_root@,
                    chat_id,
                    message_id,
                    media_name_spec(*m),
                ) && media_type@ == file_ext_spec(*m),
                MediaInfo::Sticker { .. } => plan matches MediaAction::DownloadTo {
                    path,
                    media_type,
                } && path@ == media_path_spec(
                    media_root@,
                    chat_id,
                    message_id,
                    media_name_spec(*m),
                ) && media_type@ == file_ext_spec(*m),
                MediaInfo::Contact => plan matches MediaAction::DownloadTo { path, media_type }
                    && path@ == media_path_spec(
                    media_root@,
                    chat_id,
                    message_id,
                    media_name_spec(*m),
                ) && media_type@ == file_ext_spec(*m),
                MediaInfo::Other => (plan matches MediaAction::ResolveWithoutPayload { media_type }
                    && media_type is None),
            },
        },
{
    match media {
        None => MediaAction::ResolveWithoutPayload { media_type: None },
        Some(m) => match m {
            MediaInfo::Photo { has_payload } => {
                if *has_payload {
                    let mt = get_file_extension(m);
                    let nm = media_file_name(m);
                    let path = media_dest_path(media_root, chat_id, message_id, nm.as_str());
                    MediaAction::DownloadTo { path, media_type: mt }
                } else {
                    let mt = get_file_extension(m);
                    MediaAction::ResolveWithoutPayload { media_type: Some(mt) }
                }
            },
            MediaInfo::Other => MediaAction::ResolveWithoutPayload { media_type: None },
            _ => {
                let mt = get_file_extension(m);
                let nm = media_file_name(m);
                let path = media_dest_path(media_root, chat_id, message_id, nm.as_str());
                MediaAction::DownloadTo { path, media_type: mt }
            },
        },
    }
}

/// Record one resolution attempt's outcome in storage. A transient transfer
/// failure records nothing (the loop retries later); a completed transfer
/// records the path and kind; an absent payload records resolution with no
/// path. Returns whether the keyed row exists and is now resolved.
pub fn apply_media_outcome(
    db: &mut Db,
    id: i32,
    chat_id: i64,
    plan: &MediaAction,
    outcome: &DownloadOutcome,
) -> (resolved: bool)
    requires
        old(db).wf(),
    ensures
        final(db).wf(),
        final(db).cache() == old(db).cache(),
        plan matches MediaAction::DownloadTo { path, media_type } ==> ((outcome
            is TransientFailure ==> final(db).rows() == old(db).rows() && !resolved) && (outcome
            is Completed ==> final(db).rows() == update_status_spec(
            old(db).rows(),
            id,
            chat_id,
            true,
            Some(*path),
            Some(*media_type),
        ) && resolved == has_key(old(db).rows(), id, chat_id))),
        plan matches MediaAction::ResolveWithoutPayload { media_type } ==> (final(db).rows()
            == update_status_spec(old(db).rows(), id, chat_id, true, None, *media_type)
            && resolved == has_key(old(db).rows(), id, chat_id)),
{
    match plan {
        MediaAction::DownloadTo { path, media_type } => match outcome {
            DownloadOutcome::TransientFailure => false,
            DownloadOutcome::Completed => db.save_message_media_status(
                id,
                chat_id,
                true,
                Some(path.clone()),
                Some(media_type.clone()),
            ),
        },
        MediaAction::ResolveWithoutPayload { media_type } => {
            let mt = match media_type {
                Some(t) => Some(t.clone()),
                None => None,
            };
            db.save_message_media_status(id, chat_id, true, None, mt)
        },
    }
}

/// Media resolution terminality: once a resolution attempt concludes — a
/// completed transfer or a confirmed absent payload, anything but a
/// transient failure — the keyed message is resolved and never again
/// pending, and no other row changes. (That every pending message reaches
/// this point rests on the loop's unbounded retry: transfers are re-attempted
/// until they complete or the payload is confirmed absent.)
pub proof fn lemma_media_resolution_terminal(
    rows: Seq<MessageRecord>,
    id: i32,
    chat_id: i64,
    path: Option<String>,
    media_type: Option<String>,
)
    ensures
        forall|k: int|
            0 <= k < rows.len() && rows[k].id == id && rows[k].chat_id == chat_id
                ==> !pending_media(
                #[trigger] update_status_spec(rows, id, chat_id, true, path, media_type)[k],
            ),
        forall|k: int|
            0 <= k < rows.len() && !(rows[k].id == id && rows[k].chat_id == chat_id)
                ==> #[trigger] update_status_spec(rows, id, chat_id, true, path, media_type)[k]
                == rows[k],
{
}

} // verus!
