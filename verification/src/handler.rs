//! The decisions of the tracking-link service. Creating a link stores a
//! record, reads it back and answers with its token; resolving a token
//! decodes it, looks the record up and redirects when the token's hash
//! matches the record. The store is asked between the steps below.

use vstd::prelude::*;
use vstd::string::*;

use crate::object_id::{hex_lower, lemma_hex_round_trip, object_id_from_hex, ObjectId};
use crate::repository::ShortUrl;
use crate::store::{Lookup, StoreError};
use crate::tokenizer::{
    generate_token, parse_token, produce_hash, record_hash, record_token, token_fields, TokenError,
};

verus! {

/// A request to shorten `target_url` under `domain`.
pub struct ShortenRequest {
    pub domain: String,
    pub target_url: String,
}

/// The created link: its domain, its alias (the token) and the full short
/// URL "<domain>/<alias>".
pub struct ShortenResponse {
    pub domain: String,
    pub alias: String,
    pub short_url: String,
}

/// The answer to a request.
pub enum TrackingReply {
    /// 201, with the new link.
    Created(ShortenResponse),
    /// 308, to the given location.
    PermanentRedirect(String),
    /// 404.
    NotFound,
    /// 500.
    InternalServerError,
}

/// A `TrackingReply` with its strings as character sequences.
pub enum TrackingReplyView {
    Created { domain: Seq<char>, alias: Seq<char>, short_url: Seq<char> },
    PermanentRedirect(Seq<char>),
    NotFound,
    InternalServerError,
}

impl View for TrackingReply {
    type V = TrackingReplyView;

    open spec fn view(&self) -> TrackingReplyView {
        match self {
            TrackingReply::Created(r) => TrackingReplyView::Created {
                domain: r.domain@,
                alias: r.alias@,
                short_url: r.short_url@,
            },
            TrackingReply::PermanentRedirect(location) => TrackingReplyView::PermanentRedirect(
                location@,
            ),
            TrackingReply::NotFound => TrackingReplyView::NotFound,
            TrackingReply::InternalServerError => TrackingReplyView::InternalServerError,
        }
    }
}

impl TrackingReply {
    /// The HTTP status code of the reply.
    pub fn status(&self) -> (code: u16)
        ensures
            code == match self@ {
                TrackingReplyView::Created { .. } => 201u16,
                TrackingReplyView::PermanentRedirect(_) => 308u16,
                TrackingReplyView::NotFound => 404u16,
                TrackingReplyView::InternalServerError => 500u16,
            },
    {
        match self {
            TrackingReply::Created(_) => 201,
            TrackingReply::PermanentRedirect(_) => 308,
            TrackingReply::NotFound => 404,
            TrackingReply::InternalServerError => 500,
        }
    }
}

/// The short URL of an alias under a domain: "<domain>/<alias>".
pub open spec fn short_link(domain: Seq<char>, alias: Seq<char>) -> Seq<char> {
    domain + seq!['/'] + alias
}

/// What follows the insertion of a new record.
pub enum CreateStep {
    /// Read back the record stored under this id.
    LookUp(ObjectId),
    /// Answer now.
    Respond(TrackingReply),
}

/// After the store was asked to insert the new record: read it back under
/// its id, or answer 500 when the insertion failed.
pub fn create_link_step(inserted: Result<ObjectId, StoreError>) -> (step: CreateStep)
    ensures
        match inserted {
            Ok(id) => step == CreateStep::LookUp(id),
            Err(_) => step matches CreateStep::Respond(r) && r@
                == TrackingReplyView::InternalServerError,
        },
{
    match inserted {
        Ok(id) => CreateStep::LookUp(id),
        Err(_) => CreateStep::Respond(TrackingReply::InternalServerError),
    }
}

/// The answer to a creation once the record under `db_id` was read back.
pub open spec fn create_reply(domain: Seq<char>, db_id: Seq<u8>, lookup: Lookup<ShortUrl>) -> TrackingReplyView {
    match lookup {
        Lookup::Found(record) => {
            let alias = record_token(db_id, record.created_at as int);
            TrackingReplyView::Created { domain, alias, short_url: short_link(domain, alias) }
        },
        _ => TrackingReplyView::InternalServerError,
    }
}

/// After the new record was read back: 201 with the token of the id and the
/// stored creation time as alias, or 500 when the record cannot be read.
/// The alias handed out parses back to the id and the record's hash.
pub fn create_link_reply(request: ShortenRequest, db_id: ObjectId, lookup: Lookup<ShortUrl>) -> (reply: TrackingReply)
    ensures
        reply@ == create_reply(request.domain@, db_id@, lookup),
        lookup matches Lookup::Found(record) ==> token_fields(record_token(db_id@, record.created_at as int))
            == Ok::<(Seq<char>, Seq<char>), TokenError>(
            (hex_lower(db_id@), record_hash(db_id@, record.created_at as int)),
        ),
        lookup matches Lookup::Found(record) ==> reply matches TrackingReply::Created(r) && {
            &&& r.domain@ == request.domain@
            &&& r.short_url@ == short_link(request.domain@, r.alias@)
            &&& token_fields(r.alias@) == Ok::<(Seq<char>, Seq<char>), TokenError>(
                (hex_lower(db_id@), record_hash(db_id@, record.created_at as int)),
            )
            &&& token_target(r.alias@) == Some((db_id@, record_hash(db_id@, record.created_at as int)))
            &&& resolve_reply(db_id@, record_hash(db_id@, record.created_at as int), lookup)
                == TrackingReplyView::PermanentRedirect(record.target_url@)
        },
        !(lookup is Found) ==> reply@ == TrackingReplyView::InternalServerError,
{
    match lookup {
        Lookup::Found(record) => {
            let token = generate_token(db_id, record.created_at);
            proof {
                lemma_issued_token_redirects(token@, db_id, record);
            }
            let mut url = request.domain.clone();
            url.push('/');
            url.append(token.as_str());
            assert(url@ =~= short_link(request.domain@, token@));
            TrackingReply::Created(ShortenResponse { domain: request.domain, alias: token, short_url: url })
        },
        _ => TrackingReply::InternalServerError,
    }
}

/// What follows the decoding of a token.
pub enum ResolveStep {
    /// Look up the record under this id and check it against the hash.
    LookUp { db_id: ObjectId, hash: String },
    /// Answer now.
    Respond(TrackingReply),
}

/// The record id and the hash that a token carries, when it is well formed
/// and its id text is 24 hexadecimal digits.
pub open spec fn token_target(token: Seq<char>) -> Option<(Seq<u8>, Seq<char>)> {
    match token_fields(token) {
        Ok((id_text, hash)) => match object_id_from_hex(id_text) {
            Some(db_id) => Some((db_id, hash)),
            None => None,
        },
        Err(_) => None,
    }
}

/// First step of resolving a token: look up the record that it names, or
/// answer 500 when the token or its id cannot be decoded.
pub fn resolve_link_step(token: String) -> (step: ResolveStep)
    ensures
        match token_target(token@) {
            Some((db_id, hash)) => step matches ResolveStep::LookUp { db_id: id, hash: h } && id@
                == db_id && h@ == hash,
            None => step matches ResolveStep::Respond(r) && r@
                == TrackingReplyView::InternalServerError,
        },
{
    let token = match parse_token(token) {
        Ok(token) => token,
        Err(_) => return ResolveStep::Respond(TrackingReply::InternalServerError),
    };
    let db_id = match ObjectId::parse_str(token.db_id.as_str()) {
        Some(id) => id,
        None => return ResolveStep::Respond(TrackingReply::InternalServerError),
    };
    ResolveStep::LookUp { db_id, hash: token.hash }
}

/// The answer once the record under `db_id` was looked up: a permanent
/// redirect to its target when the token's hash is the record's hash, 404
/// when it is not or no record was found, 500 when the store failed.
pub open spec fn resolve_reply(db_id: Seq<u8>, hash: Seq<char>, lookup: Lookup<ShortUrl>) -> TrackingReplyView {
    match lookup {
        Lookup::Found(record) => {
            if hash == record_hash(db_id, record.created_at as int) {
                TrackingReplyView::PermanentRedirect(record.target_url@)
            } else {
                TrackingReplyView::NotFound
            }
        },
        Lookup::Missing => TrackingReplyView::NotFound,
        Lookup::Failed => TrackingReplyView::InternalServerError,
    }
}

/// Second step of resolving a token, once the record was looked up.
pub fn resolve_link_reply(db_id: ObjectId, hash: String, lookup: Lookup<ShortUrl>) -> (reply: TrackingReply)
    ensures
        reply@ == resolve_reply(db_id@, hash@, lookup),
{
    match lookup {
        Lookup::Found(record) => {
            let expected = produce_hash(&db_id, record.created_at);
            if hash == expected {
                TrackingReply::PermanentRedirect(record.target_url)
            } else {
                TrackingReply::NotFound
            }
        },
        Lookup::Missing => TrackingReply::NotFound,
        Lookup::Failed => TrackingReply::InternalServerError,
    }
}

/// A token that carries a record id's hex form and the hash of that record
/// (as every alias from `generate_token` and `create_link_reply` does) is
/// resolved by looking up that id, and the record found there is answered
/// with a permanent redirect to its target.
pub proof fn lemma_issued_token_redirects(token: Seq<char>, db_id: ObjectId, record: ShortUrl)
    requires
        token_fields(token) == Ok::<(Seq<char>, Seq<char>), TokenError>(
            (hex_lower(db_id@), record_hash(db_id@, record.created_at as int)),
        ),
    ensures
        token_target(token) == Some((db_id@, record_hash(db_id@, record.created_at as int))),
        resolve_reply(db_id@, record_hash(db_id@, record.created_at as int), Lookup::Found(record))
            == TrackingReplyView::PermanentRedirect(record.target_url@),
{
    lemma_hex_round_trip(db_id@);
}

} // verus!
