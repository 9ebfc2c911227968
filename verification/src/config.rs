//! Process configuration: the values the surrounding process reads from its
//! environment, and the paths derived from the store location.
//!
//! Reading the environment (and expanding the store path) happens outside
//! the library; the derivation of every dependent path is proved here.

use vstd::prelude::*;
use vstd::string::StringExecFns;

verus! {

pub type ApiId = i32;

pub type ApiHash = String;

pub struct Config {
    pub api_id: ApiId,
    pub api_hash: ApiHash,
    pub store_path: String,
    pub media_path: String,
    pub database_url: String,
    pub teledump_session_path: String,
}

impl Config {
    /// Derives every dependent location from the expanded store path: the
    /// media directory, the store's database url, and the session file.
    pub fn init(api_id: ApiId, api_hash: ApiHash, store_path: String) -> (c: Config)
        ensures
            c.api_id == api_id,
            c.api_hash == api_hash,
            c.store_path == store_path,
            c.media_path@ == store_path@ + "/media"@,
            c.database_url@ == "sqlite://"@ + store_path@ + "/teledump.db?mode=rwc"@,
            c.teledump_session_path@ == store_path@ + "/teledump.session"@,
    {
        let mut media_path = store_path.clone();
        media_path.append("/media");
        let mut database_url = "sqlite://".to_owned();
        database_url.append(store_path.as_str());
        database_url.append("/teledump.db?mode=rwc");
        let mut teledump_session_path = store_path.clone();
        teledump_session_path.append("/teledump.session");
        Config { api_id, api_hash, store_path, media_path, database_url, teledump_session_path }
    }
}

} // verus!
