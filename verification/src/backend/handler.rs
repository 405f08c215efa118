//! The decisions of the alias-based shortener: answering a creation once
//! the record was stored, and a lookup by alias once the store answered.

use vstd::prelude::*;
use vstd::string::*;

use crate::backend::repository::ShortUrl;
use crate::object_id::{hex_lower, is_lower_hex_char, lemma_hex_has_no_colon, ObjectId};
use crate::store::{Lookup, StoreError};

verus! {

/// A fresh alias for a new link: the 24 lower-case hexadecimal digits of a
/// newly generated record id, so it is safe as one URL path segment.
pub fn generate_alias() -> (alias: String)
    ensures
        alias@.len() == 24,
        forall|i: int| 0 <= i < alias@.len() ==> is_lower_hex_char(#[trigger] alias@[i]),
        exists|id: Seq<u8>| id.len() == 12 && alias@ == hex_lower(id),
{
    let id = ObjectId::generate();
    proof {
        lemma_hex_has_no_colon(id@);
    }
    id.to_hex()
}

/// A request to shorten `url` under `domain`.
pub struct ShortenRequest {
    pub domain: String,
    pub url: String,
}

/// The created link: its domain, its alias and the full short URL
/// "<domain>/<alias>".
pub struct ShortUrlResponse {
    pub domain: String,
    pub alias: String,
    pub short_url: String,
}

/// The body of the answer to a creation.
pub struct ShortenDataResponse {
    pub data: ShortUrlResponse,
}

/// The answer to a request.
pub enum ShortenedReply {
    /// 201, with the new link.
    Created(ShortenDataResponse),
    /// 301, to the given location.
    MovedPermanently(String),
    /// 404.
    NotFound,
    /// 500.
    InternalServerError,
}

/// A `ShortenedReply` with its strings as character sequences.
pub enum ShortenedReplyView {
    Created { domain: Seq<char>, alias: Seq<char>, short_url: Seq<char> },
    MovedPermanently(Seq<char>),
    NotFound,
    InternalServerError,
}

impl View for ShortenedReply {
    type V = ShortenedReplyView;

    open spec fn view(&self) -> ShortenedReplyView {
        match self {
            ShortenedReply::Created(r) => ShortenedReplyView::Created {
                domain: r.data.domain@,
                alias: r.data.alias@,
                short_url: r.data.short_url@,
            },
            ShortenedReply::MovedPermanently(location) => ShortenedReplyView::MovedPermanently(
                location@,
            ),
            ShortenedReply::NotFound => ShortenedReplyView::NotFound,
            ShortenedReply::InternalServerError => ShortenedReplyView::InternalServerError,
        }
    }
}

impl ShortenedReply {
    /// The HTTP status code of the reply.
    pub fn status(&self) -> (code: u16)
        ensures
            code == match self@ {
                ShortenedReplyView::Created { .. } => 201u16,
                ShortenedReplyView::MovedPermanently(_) => 301u16,
                ShortenedReplyView::NotFound => 404u16,
                ShortenedReplyView::InternalServerError => 500u16,
            },
    {
        match self {
            ShortenedReply::Created(_) => 201,
            ShortenedReply::MovedPermanently(_) => 301,
            ShortenedReply::NotFound => 404,
            ShortenedReply::InternalServerError => 500,
        }
    }
}

/// The answer to a creation once the store was asked to insert the record
/// under `alias`: 201 with "<domain>/<alias>" when it was stored, 500 when
/// it was not.
pub fn create_shortened_reply(request: ShortenRequest, alias: String, inserted: Result<ObjectId, StoreError>) -> (reply: ShortenedReply)
    ensures
        match inserted {
            Ok(_) => reply@ == ShortenedReplyView::Created {
                domain: request.domain@,
                alias: alias@,
                short_url: request.domain@ + seq!['/'] + alias@,
            },
            Err(_) => reply@ == ShortenedReplyView::InternalServerError,
        },
{
    match inserted {
        Ok(_) => {
            let mut url = request.domain.clone();
            url.push('/');
            url.append(alias.as_str());
            assert(url@ =~= request.domain@ + seq!['/'] + alias@);
            ShortenedReply::Created(
                ShortenDataResponse {
                    data: ShortUrlResponse { domain: request.domain, alias, short_url: url },
                },
            )
        },
        Err(_) => ShortenedReply::InternalServerError,
    }
}

/// The answer to a lookup by alias: 301 to the record's URL when it was
/// found, 404 when no record has the alias, 500 when the store failed.
pub fn resolve_shortened_reply(lookup: Lookup<ShortUrl>) -> (reply: ShortenedReply)
    ensures
        reply@ == match lookup {
            Lookup::Found(record) => ShortenedReplyView::MovedPermanently(record.url@),
            Lookup::Missing => ShortenedReplyView::NotFound,
            Lookup::Failed => ShortenedReplyView::InternalServerError,
        },
{
    match lookup {
        Lookup::Found(record) => ShortenedReply::MovedPermanently(record.url),
        Lookup::Missing => ShortenedReply::NotFound,
        Lookup::Failed => ShortenedReply::InternalServerError,
    }
}

} // verus!
