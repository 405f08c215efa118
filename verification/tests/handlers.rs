use url_shortener::backend::handler::{
    create_shortened_reply, generate_alias, resolve_shortened_reply, ShortenRequest as AliasRequest, ShortenedReply,
};
use url_shortener::backend::repository::ShortUrl as AliasRecord;
use url_shortener::handler::{
    create_link_reply, create_link_step, resolve_link_reply, resolve_link_step, CreateStep,
    ResolveStep, ShortenRequest, TrackingReply,
};
use url_shortener::object_id::ObjectId;
use url_shortener::repository::ShortUrl;
use url_shortener::store::{Lookup, StoreError};
use url_shortener::tokenizer::{generate_token, produce_hash};

fn sample_id() -> ObjectId {
    ObjectId::from_bytes([0x65, 0x4f, 0x1a, 0x2b, 0x3c, 0x4d, 0x5e, 0x6f, 0x70, 0x81, 0x92, 0xa3])
}

fn record(created_at: i64) -> ShortUrl {
    ShortUrl { id: sample_id(), target_url: "https://example.com/page".to_string(), created_at }
}

fn request() -> ShortenRequest {
    ShortenRequest {
        domain: "http://localhost:8080".to_string(),
        target_url: "https://example.com/page".to_string(),
    }
}

#[test]
fn new_record_keeps_its_target() {
    let r = ShortUrl::new("https://example.com".to_string());
    assert_eq!(r.target_url, "https://example.com");
    assert!(r.created_at > 1_600_000_000);
}

#[test]
fn insertion_leads_to_lookup_or_failure() {
    assert!(matches!(create_link_step(Ok(sample_id())), CreateStep::LookUp(id) if id == sample_id()));
    let failed = create_link_step(Err(StoreError));
    assert!(matches!(failed, CreateStep::Respond(TrackingReply::InternalServerError)));
}

#[test]
fn creation_answers_with_token_alias() {
    let reply = create_link_reply(request(), sample_id(), Lookup::Found(record(1700000000)));
    assert_eq!(reply.status(), 201);
    match reply {
        TrackingReply::Created(r) => {
            let token = generate_token(sample_id(), 1700000000);
            assert_eq!(r.domain, "http://localhost:8080");
            assert_eq!(r.alias, token);
            assert_eq!(r.short_url, format!("http://localhost:8080/{}", token));
        }
        _ => panic!("expected a created link"),
    }
}

#[test]
fn creation_fails_when_record_cannot_be_read_back() {
    let missing = create_link_reply(request(), sample_id(), Lookup::Missing);
    assert!(matches!(missing, TrackingReply::InternalServerError));
    let failed = create_link_reply(request(), sample_id(), Lookup::Failed);
    assert_eq!(failed.status(), 500);
}

#[test]
fn resolving_a_malformed_token_fails() {
    let step = resolve_link_step("!!!".to_string());
    assert!(matches!(step, ResolveStep::Respond(TrackingReply::InternalServerError)));
    // "zz:1": a well-formed token whose id is not hexadecimal.
    let step = resolve_link_step("eno6MQ".to_string());
    assert!(matches!(step, ResolveStep::Respond(TrackingReply::InternalServerError)));
}

#[test]
fn resolving_a_token_looks_up_its_record() {
    let token = generate_token(sample_id(), 1700000000);
    match resolve_link_step(token) {
        ResolveStep::LookUp { db_id, hash } => {
            assert_eq!(db_id, sample_id());
            assert_eq!(hash, produce_hash(&sample_id(), 1700000000));
        }
        _ => panic!("expected a lookup"),
    }
}

#[test]
fn issued_token_redirects_to_target() {
    let reply = create_link_reply(request(), sample_id(), Lookup::Found(record(1700000000)));
    let alias = match reply {
        TrackingReply::Created(r) => r.alias,
        _ => panic!("expected a created link"),
    };
    let (db_id, hash) = match resolve_link_step(alias) {
        ResolveStep::LookUp { db_id, hash } => (db_id, hash),
        _ => panic!("expected a lookup"),
    };
    let reply = resolve_link_reply(db_id, hash, Lookup::Found(record(1700000000)));
    assert_eq!(reply.status(), 308);
    assert!(matches!(reply, TrackingReply::PermanentRedirect(ref l) if l == "https://example.com/page"));
}

#[test]
fn token_for_another_creation_time_is_not_found() {
    let hash = produce_hash(&sample_id(), 1700000000);
    let reply = resolve_link_reply(sample_id(), hash, Lookup::Found(record(1700000001)));
    assert!(matches!(reply, TrackingReply::NotFound));
}

#[test]
fn resolving_without_record_or_store() {
    let missing = resolve_link_reply(sample_id(), "1".to_string(), Lookup::Missing);
    assert_eq!(missing.status(), 404);
    let failed = resolve_link_reply(sample_id(), "1".to_string(), Lookup::Failed);
    assert_eq!(failed.status(), 500);
}

#[test]
fn alias_creation_answers_with_short_url() {
    let req = AliasRequest { domain: "localhost:8080".to_string(), url: "https://rust-lang.org".to_string() };
    let reply = create_shortened_reply(req, "abc123".to_string(), Ok(sample_id()));
    assert_eq!(reply.status(), 201);
    match reply {
        ShortenedReply::Created(body) => {
            assert_eq!(body.data.domain, "localhost:8080");
            assert_eq!(body.data.alias, "abc123");
            assert_eq!(body.data.short_url, "localhost:8080/abc123");
        }
        _ => panic!("expected a created link"),
    }
}

#[test]
fn alias_creation_fails_when_not_stored() {
    let req = AliasRequest { domain: "localhost:8080".to_string(), url: "https://rust-lang.org".to_string() };
    let reply = create_shortened_reply(req, "abc123".to_string(), Err(StoreError));
    assert!(matches!(reply, ShortenedReply::InternalServerError));
}

#[test]
fn alias_lookup_redirects_or_not() {
    let rec = AliasRecord::new("abc123".to_string(), "https://rust-lang.org".to_string());
    assert_eq!(rec.alias, "abc123");
    assert_eq!(rec.url, "https://rust-lang.org");
    let reply = resolve_shortened_reply(Lookup::Found(rec));
    assert_eq!(reply.status(), 301);
    assert!(matches!(reply, ShortenedReply::MovedPermanently(ref l) if l == "https://rust-lang.org"));
    assert_eq!(resolve_shortened_reply(Lookup::Missing).status(), 404);
    assert_eq!(resolve_shortened_reply(Lookup::Failed).status(), 500);
}

#[test]
fn aliases_are_fresh_lower_case_hex() {
    let a = generate_alias();
    let b = generate_alias();
    assert_eq!(a.len(), 24);
    assert!(a.chars().all(|c| c.is_ascii_digit() || ('a'..='f').contains(&c)));
    assert_ne!(a, b);
    assert!(ObjectId::parse_str(&a).is_some());
}
