//! Records of aliased links.

use vstd::prelude::*;

use crate::object_id::ObjectId;
use crate::store::current_timestamp;

verus! {

/// A stored link: its id, the alias it is reached by, where it leads, and
/// when it was made (seconds since the Unix epoch).
pub struct ShortUrl {
    pub id: ObjectId,
    pub alias: String,
    pub url: String,
    pub created_at: i64,
}

impl ShortUrl {
    /// A new record reached by `alias` and leading to `target_url`, with a
    /// fresh id and the current time.
    pub fn new(alias: String, target_url: String) -> (short_url: Self)
        ensures
            short_url.alias == alias,
            short_url.url == target_url,
    {
        ShortUrl {
            id: ObjectId::generate(),
            alias,
            url: target_url,
            created_at: current_timestamp(),
        }
    }
}

} // verus!
