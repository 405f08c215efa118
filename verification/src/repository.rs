//! Records of tracking links.

use vstd::prelude::*;

use crate::object_id::ObjectId;
use crate::store::current_timestamp;

verus! {

/// A stored tracking link: its id, where it leads, and when it was made
/// (seconds since the Unix epoch).
pub struct ShortUrl {
    pub id: ObjectId,
    pub target_url: String,
    pub created_at: i64,
}

impl ShortUrl {
    /// A new record leading to `target_url`, with a fresh id and the current
    /// time.
    pub fn new(target_url: String) -> (short_url: Self)
        ensures
            short_url.target_url == target_url,
    {
        ShortUrl { id: ObjectId::generate(), target_url, created_at: current_timestamp() }
    }
}

} // verus!
