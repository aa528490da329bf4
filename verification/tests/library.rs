//! End-to-end checks of the library against real collaborators: openssl for
//! digests and signatures, the url crate behind identifier parsing, and
//! serde_json as an independent reader of the emitted wire text.

use activity_playground::account::{generate_links, instance_actor_links, InstanceActor};
use activity_playground::cache::{Cache, FetchDecision};
use activity_playground::codec::DecodeError;
use activity_playground::crypto::generate_digest;
use activity_playground::iri::{is_local, Iri};
use activity_playground::json::Json;
use activity_playground::verification::{
    build_signature_base, delivery_base, parse_signature_header, sign_delivery, strip_fragment,
    verify_inbound, RequestVerificationError,
};
use activity_playground::vocab::{
    Context, Document, Entity, EntityRef, ExtendsObject, ObjectType,
};
use activity_playground::webfinger::WebfingerQuery;

fn keypair() -> (String, String) {
    let rsa = openssl::rsa::Rsa::generate(2048).unwrap();
    let privk = String::from_utf8(rsa.private_key_to_pem().unwrap()).unwrap();
    let publk = String::from_utf8(rsa.public_key_to_pem().unwrap()).unwrap();
    (privk, publk)
}

#[test]
fn digest_of_abc_is_the_known_value() {
    // SHA-256("abc"), base64 encoded.
    let d = generate_digest(b"abc");
    assert_eq!(d, "ungWv48Bz+pBQUDeXa4iI7ADYaOWF3qctBD/YfIAFa0=");
    assert_eq!(d.len(), 44);
}

#[test]
fn digest_is_over_the_exact_bytes() {
    assert_ne!(generate_digest(b"abc"), generate_digest(b"abd"));
    assert_eq!(generate_digest(b""), "47DEQpj8HBSa+/TImW+5JCeuQeRkm5NMpJWZG3hSuFU=");
}

#[test]
fn signature_base_string_is_byte_exact() {
    let names = vec![
        "(request-target)".to_owned(),
        "host".to_owned(),
        "date".to_owned(),
    ];
    let values = vec![
        String::new(),
        String::new(),
        "Tue, 07 Jun 2024 20:51:35 GMT".to_owned(),
    ];
    let base = build_signature_base(
        "POST",
        "/users/alice/inbox",
        "example.com",
        &names,
        &values,
    );
    assert_eq!(
        base,
        "(request-target): post /users/alice/inbox\nhost: example.com\ndate: Tue, 07 Jun 2024 20:51:35 GMT"
    );
}

#[test]
fn delivery_base_matches_the_wire_layout() {
    let b = delivery_base("mastodon.social", "D", "G");
    assert_eq!(
        b,
        "(request-target): post /inbox\nhost: mastodon.social\ndate: D\ndigest: SHA-256=G"
    );
}

#[test]
fn signed_delivery_verifies_and_a_flipped_byte_fails() {
    let (privk, publk) = keypair();
    let body = br#"{"@context":"https://www.w3.org/ns/activitystreams","id":"https://h/1"}"#;
    let date = "Tue, 07 Jun 2024 20:51:35 GMT";
    let signed = sign_delivery(body, "https://h/actor#main-key", "remote.example", date, &privk)
        .expect("a fresh RSA key signs");

    let digest_header = format!("SHA-256={}", signed.digest);
    let names = vec!["date".to_owned(), "digest".to_owned()];
    let values = vec![date.to_owned(), digest_header.clone()];
    let ok = verify_inbound(
        Some(&digest_header),
        Some(&signed.signature),
        true,
        body,
        "/inbox",
        "remote.example",
        &names,
        &values,
        &publk,
    );
    assert_eq!(ok, Ok(()));

    // flip one byte of the base64 signature text
    let tampered = signed.signature.replace("signature=\"", "signature=\"A");
    let bad = verify_inbound(
        Some(&digest_header),
        Some(&tampered),
        true,
        body,
        "/inbox",
        "remote.example",
        &names,
        &values,
        &publk,
    );
    assert_ne!(bad, Ok(()));

    // flip the base string by altering the body (digest header updated too)
    let other = br#"{"@context":"https://www.w3.org/ns/activitystreams","id":"https://h/2"}"#;
    let other_digest = format!("SHA-256={}", generate_digest(other));
    let other_values = vec![date.to_owned(), other_digest.clone()];
    let bad2 = verify_inbound(
        Some(&other_digest),
        Some(&signed.signature),
        true,
        other,
        "/inbox",
        "remote.example",
        &names,
        &other_values,
        &publk,
    );
    assert_eq!(bad2, Err(RequestVerificationError::SignatureVerifyFailed));
}

#[test]
fn verification_errors_come_in_the_algorithms_order() {
    let (_, publk) = keypair();
    let names: Vec<String> = Vec::new();
    let values: Vec<String> = Vec::new();
    let body = b"x";
    let no_digest = verify_inbound(None, None, true, body, "/inbox", "d", &names, &values, &publk);
    assert_eq!(no_digest, Err(RequestVerificationError::NoMessageDigest));

    let wrong = verify_inbound(
        Some("SHA-256=nope"),
        None,
        true,
        body,
        "/inbox",
        "d",
        &names,
        &values,
        &publk,
    );
    assert_eq!(wrong, Err(RequestVerificationError::DigestDoesNotMatch));

    let good_digest = format!("SHA-256={}", generate_digest(body));
    let no_sig = verify_inbound(
        Some(&good_digest),
        None,
        true,
        body,
        "/inbox",
        "d",
        &names,
        &values,
        &publk,
    );
    assert_eq!(no_sig, Err(RequestVerificationError::NoMessageSignature));

    let no_key = verify_inbound(
        Some(&good_digest),
        Some("signature=\"AA==\""),
        true,
        body,
        "/inbox",
        "d",
        &names,
        &values,
        &publk,
    );
    assert_eq!(no_key, Err(RequestVerificationError::NoSignatureKey));

    let no_date = verify_inbound(
        Some(&good_digest),
        Some("keyId=\"k\",headers=\"date\",signature=\"AA==\""),
        false,
        body,
        "/inbox",
        "d",
        &names,
        &values,
        &publk,
    );
    assert_eq!(no_date, Err(RequestVerificationError::NoDate));

    let missing_header = verify_inbound(
        Some(&good_digest),
        Some("keyId=\"k\",headers=\"date\",signature=\"AA==\""),
        true,
        body,
        "/inbox",
        "d",
        &names,
        &values,
        &publk,
    );
    assert_eq!(missing_header, Err(RequestVerificationError::MissingSignedHeader));
}

#[test]
fn signature_header_parses_and_later_parameters_win() {
    let p = parse_signature_header(
        "keyId=\"https://h/actor#main-key\",headers=\"(request-target) host date digest\",signature=\"QUJD\"",
    )
    .unwrap();
    assert_eq!(p.key_id, "https://h/actor#main-key");
    assert_eq!(p.headers, "(request-target) host date digest");
    assert_eq!(p.signature, "QUJD");
    assert_eq!(strip_fragment(&p.key_id), "https://h/actor");

    let last_wins = parse_signature_header("keyId=\"a\",keyId=\"b\",headers=\"h\",signature=\"s\"")
        .unwrap();
    assert_eq!(last_wins.key_id, "b");

    let missing = parse_signature_header("headers=\"h\",signature=\"s\"");
    assert!(matches!(missing, Err(RequestVerificationError::NoSignatureKey)));
}

#[test]
fn document_round_trips_through_the_wire_text() {
    let id = Iri::parse("https://place.example/users/test/1").unwrap();
    let reply_target = Iri::parse("https://other.example/@a/2").unwrap();
    let mut entity = Entity::new(id).wrap(ObjectType::Note);
    entity.content = Some("<p>Hello world</p>".to_owned());
    entity.published = Some("2024-06-06T08:24:54Z".to_owned());
    entity.in_reply_to = Some(Box::new(EntityRef::Id(reply_target)));
    let doc = Document {
        context: Some(Context::Single("https://www.w3.org/ns/activitystreams".to_owned())),
        entity: ExtendsObject::Entity(Box::new(entity)),
    };
    let text = doc.encode();
    // an independent JSON reader accepts the emitted text
    let independent: serde_json::Value = serde_json::from_str(&text).unwrap();
    assert_eq!(independent["type"], serde_json::Value::String("Note".to_owned()));

    let back = Document::decode(&text).unwrap();
    match &back.entity {
        ExtendsObject::Entity(e) => {
            assert_eq!(e.id.as_str(), "https://place.example/users/test/1");
            assert_eq!(e.kind.as_deref(), Some("Note"));
            assert_eq!(e.content.as_deref(), Some("<p>Hello world</p>"));
            assert_eq!(e.published.as_deref(), Some("2024-06-06T08:24:54Z"));
            match e.in_reply_to.as_deref() {
                Some(EntityRef::Id(i)) => assert_eq!(i.as_str(), "https://other.example/@a/2"),
                other => panic!("unexpected reply target: {:?}", other),
            }
        },
        other => panic!("unexpected payload: {:?}", other),
    }
    // encoding the decoded document gives the same text again
    assert_eq!(back.encode(), text);
}

#[test]
fn encoding_emits_no_null_members_for_absent_fields() {
    let id = Iri::parse("https://place.example/o/1").unwrap();
    let doc = Document {
        context: None,
        entity: ExtendsObject::Entity(Box::new(Entity::new(id))),
    };
    assert_eq!(doc.encode(), "{\"id\":\"https://place.example/o/1\"}");
}

#[test]
fn reference_decoding_prefers_the_embedded_object_shape() {
    let embedded = Document::decode(
        "{\"id\":\"https://e/x\",\"inReplyTo\":{\"id\":\"https://x/1\"}}",
    )
    .unwrap();
    match &embedded.entity {
        ExtendsObject::Entity(e) => match e.in_reply_to.as_deref() {
            Some(EntityRef::Embedded(inner)) => {
                assert_eq!(inner.id.as_str(), "https://x/1");
            },
            other => panic!("object shape must embed, got {:?}", other),
        },
        other => panic!("unexpected payload: {:?}", other),
    }

    let linked = Document::decode("{\"id\":\"https://e/x\",\"inReplyTo\":\"https://x/1\"}")
        .unwrap();
    match &linked.entity {
        ExtendsObject::Entity(e) => match e.in_reply_to.as_deref() {
            Some(EntityRef::Id(i)) => assert_eq!(i.as_str(), "https://x/1"),
            other => panic!("bare string must stay an identifier, got {:?}", other),
        },
        other => panic!("unexpected payload: {:?}", other),
    }
}

#[test]
fn unknown_discriminators_fall_back_to_a_generic_entity() {
    let doc = Document::decode("{\"id\":\"https://e/x\",\"type\":\"ChatMessage\"}").unwrap();
    match &doc.entity {
        ExtendsObject::Entity(e) => assert_eq!(e.kind.as_deref(), Some("ChatMessage")),
        other => panic!("unexpected payload: {:?}", other),
    }
}

#[test]
fn malformed_json_is_its_own_error() {
    assert!(matches!(Document::decode("{"), Err(DecodeError::MalformedJson)));
    assert!(matches!(Json::parse("{\"a\": }"), Err(DecodeError::MalformedJson)));
    assert!(matches!(Json::parse("  {\"a\": 3}  "), Ok(_)));
    assert!(matches!(
        Document::decode("{\"type\":\"Note\"}"),
        Err(DecodeError::MissingId)
    ));
}

#[test]
fn cache_returns_fresh_copies_and_refetches_stale_ones() {
    let mut cache = Cache::new(40, 6, 300);
    let id = Iri::parse("https://remote.example/users/a").unwrap();
    assert!(matches!(cache.decision(&id, 1000), FetchDecision::MustFetch));
    let doc = Json::parse("{\"id\":\"https://remote.example/users/a\"}").unwrap();
    cache.record_success(&id, doc, 1000);
    // fresh right after the fetch: no network call
    assert!(matches!(cache.decision(&id, 1010), FetchDecision::UseCached(_)));
    assert!(matches!(cache.decision(&id, 1039), FetchDecision::UseCached(_)));
    // at the TTL the copy is stale and a refetch is ordered
    assert!(matches!(cache.decision(&id, 1040), FetchDecision::MustFetch));
    // the stale copy stays available to a caller tolerating staleness
    let (stale, fetched_at) = cache.lookup(&id).unwrap();
    assert_eq!(fetched_at, 1000);
    assert_eq!(stale.to_text(), "{\"id\":\"https://remote.example/users/a\"}");
    // recording a refetch replaces the entry with the fresh instant
    let doc2 = Json::parse("{\"id\":\"https://remote.example/users/a\"}").unwrap();
    cache.record_success(&id, doc2, 1050);
    assert!(matches!(cache.decision(&id, 1060), FetchDecision::UseCached(_)));
    assert_eq!(cache.lookup(&id).unwrap().1, 1050);
}

#[test]
fn reputation_suppresses_after_the_ceiling_until_the_cooldown() {
    let mut cache = Cache::new(40, 6, 300);
    let id = Iri::parse("https://flaky.example/users/a").unwrap();
    for k in 0..6 {
        assert!(matches!(cache.decision(&id, 2000 + k), FetchDecision::MustFetch));
        cache.record_failure(id.host_str(), 2000 + k);
    }
    // at the ceiling: the distinguished suppression, no network call
    assert!(matches!(cache.decision(&id, 2010), FetchDecision::Suppressed));
    // another host is unaffected
    let other = Iri::parse("https://fine.example/x").unwrap();
    assert!(matches!(cache.decision(&other, 2010), FetchDecision::MustFetch));
    // after the cooldown window the suppression clears
    assert!(matches!(cache.decision(&id, 2400), FetchDecision::MustFetch));
    // the counter decays with the window: one further failure starts a
    // fresh count instead of re-suppressing at once
    cache.record_failure(id.host_str(), 2400);
    assert!(matches!(cache.decision(&id, 2401), FetchDecision::MustFetch));
}

#[test]
fn identifiers_carry_their_host_and_route_locally_case_insensitively() {
    let id = Iri::parse("https://Example.COM/users/alice").unwrap();
    assert!(is_local(&id, "example.com"));
    assert!(is_local(&id, "EXAMPLE.com"));
    assert!(!is_local(&id, "other.org"));
    assert!(Iri::parse("not a url").is_none());
    assert!(Iri::parse("/relative/path").is_none());
}

#[test]
fn account_links_are_the_canonical_urls() {
    let links = generate_links("place.example", "alice");
    assert_eq!(links.id, "https://place.example/users/alice");
    assert_eq!(links.inbox, "https://place.example/users/alice/inbox");
    assert_eq!(links.outbox, "https://place.example/users/alice/outbox");
    assert_eq!(links.followers, "https://place.example/users/alice/followers");
    assert_eq!(links.following, "https://place.example/users/alice/following");
    assert_eq!(links.liked, "https://place.example/users/alice/liked");
    let instance = instance_actor_links("place.example");
    assert_eq!(instance.id, "https://place.example/actor");
    assert_eq!(instance.inbox, "https://place.example/actor/inbox");
}

#[test]
fn the_instance_actor_owns_its_main_key() {
    let (privk, publk) = keypair();
    let ia = InstanceActor::new(privk, publk.clone(), "place.example").unwrap();
    assert_eq!(ia.key_id, "https://place.example/actor#main-key");
    assert_eq!(ia.actor.public_key.id, ia.key_id);
    assert_eq!(ia.actor.public_key.owner, "https://place.example/actor");
    assert_eq!(ia.actor.public_key.public_key_pem, publk);
    assert_eq!(ia.actor.inbox.as_str(), "https://place.example/actor/inbox");
    // the wrapped document exposes the actor again
    let doc = ia.actor.to_activitystream();
    let actor = doc.get_actor().unwrap();
    assert_eq!(actor.extends_object.id.as_str(), "https://place.example/actor");
}

#[test]
fn webfinger_queries_split_into_prefix_user_and_domain() {
    let q = WebfingerQuery::parse_query("acct:alice@place.example".to_owned());
    assert!(q.has_prefix);
    assert_eq!(q.preferred_username.as_deref(), Some("alice"));
    assert_eq!(q.domain.as_deref(), Some("place.example"));
    let bare = WebfingerQuery::parse_query("bob".to_owned());
    assert!(!bare.has_prefix);
    assert_eq!(bare.preferred_username.as_deref(), Some("bob"));
    assert_eq!(bare.domain, None);
}

#[test]
fn string_escapes_survive_printing_and_parsing() {
    let id = Iri::parse("https://e/x").unwrap();
    let mut entity = Entity::new(id);
    entity.content = Some("line\nbreak \"quoted\" back\\slash".to_owned());
    let doc = Document { context: None, entity: ExtendsObject::Entity(Box::new(entity)) };
    let text = doc.encode();
    let independent: serde_json::Value = serde_json::from_str(&text).unwrap();
    assert_eq!(
        independent["content"],
        serde_json::Value::String("line\nbreak \"quoted\" back\\slash".to_owned())
    );
    let back = Document::decode(&text).unwrap();
    match &back.entity {
        ExtendsObject::Entity(e) => {
            assert_eq!(e.content.as_deref(), Some("line\nbreak \"quoted\" back\\slash"));
        },
        other => panic!("unexpected payload: {:?}", other),
    }
}
