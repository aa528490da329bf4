//! Lossless decode/encode between [`Document`] values and JSON. Encoding
//! emits a member for every populated field and nothing for an absent one
//! (absence, not null, is the wire convention); decoding dispatches on the
//! `type` discriminator, falls back to a generic entity for unrecognised
//! discriminators, and accepts one-or-many fields in either shape.

use vstd::prelude::*;
use crate::iri::{Iri, IriV, iri_host_of, iri_path_of};
use crate::json::{Json, JsonV, spec_obj_get};
use crate::vocab::{
    ActivityType, ActivityV, Activity, ActorType, ActorV, Actor, CollectionType, CollectionV,
    Collection, Context, ContextV, Document, DocumentV, Entity, EntityRef, EntityRefV, EntityRefs,
    EntityRefsV, EntityV, ExtendsObject, ExtendsObjectV, IntransitiveActivity,
    IntransitiveActivityV, IntransitiveType, LinkDesc, LinkDescV, LinkRef, LinkRefV, LinkRefs,
    LinkRefsV, MediaType, PublicKey, PublicKeyV, spec_activity_type_of, spec_activity_type_str,
    spec_actor_type_of, spec_actor_type_str, spec_collection_type_of, spec_collection_type_str,
    spec_intransitive_type_of, spec_intransitive_type_str, spec_media_type_of,
    spec_media_type_str, view_actor, view_activity, view_collection, view_entity, view_entity_ref,
    view_entity_ref_seq, view_entity_refs, view_intransitive, view_link_desc, view_link_ref,
    view_link_ref_seq, view_link_refs,
};

verus! {

/// Decoding failures. Every failure is reported to the caller; none is a
/// crash.
#[derive(Debug, Clone, Copy, PartialEq, Eq, Structural)]
pub enum DecodeError {
    /// The payload is not well-formed JSON in the accepted subset.
    MalformedJson,
    /// The document or an embedded entity has no `id` member.
    MissingId,
    /// A member has a shape the vocabulary does not allow there.
    ShapeMismatch,
}

// ----------------------------------------------------------- encode: spec

pub open spec fn m_one(k: Seq<char>, v: JsonV) -> Seq<(Seq<char>, JsonV)> {
    seq![(k, v)]
}

pub open spec fn m_opt_str(k: Seq<char>, o: Option<Seq<char>>) -> Seq<(Seq<char>, JsonV)> {
    match o {
        Some(s) => seq![(k, JsonV::Str(s))],
        None => Seq::empty(),
    }
}

pub open spec fn m_opt_iri(k: Seq<char>, o: Option<IriV>) -> Seq<(Seq<char>, JsonV)> {
    match o {
        Some(i) => seq![(k, JsonV::Str(i.value))],
        None => Seq::empty(),
    }
}

pub open spec fn enc_link_desc(d: LinkDescV) -> Seq<(Seq<char>, JsonV)> {
    m_one("href"@, JsonV::Str(d.href.value)) + m_opt_str("mediaType"@, d.media_type) + m_opt_str(
        "name"@,
        d.name,
    ) + (match d.height {
        Some(h) => seq![("height"@, JsonV::Int(h as u64))],
        None => Seq::empty(),
    }) + (match d.width {
        Some(w) => seq![("width"@, JsonV::Int(w as u64))],
        None => Seq::empty(),
    })
}

pub open spec fn enc_link_ref(r: LinkRefV) -> JsonV {
    match r {
        LinkRefV::Id(i) => JsonV::Str(i.value),
        LinkRefV::Expanded(d) => JsonV::Obj(enc_link_desc(d)),
    }
}

pub open spec fn enc_link_ref_seq(v: Seq<LinkRefV>) -> Seq<JsonV>
    decreases v,
{
    if v.len() == 0 {
        Seq::empty()
    } else {
        seq![enc_link_ref(v[0])] + enc_link_ref_seq(v.drop_first())
    }
}

pub open spec fn enc_link_refs(r: LinkRefsV) -> JsonV {
    match r {
        LinkRefsV::One(l) => enc_link_ref(l),
        LinkRefsV::Many(v) => JsonV::Arr(enc_link_ref_seq(v)),
    }
}

pub open spec fn enc_entity_ref(r: EntityRefV) -> JsonV
    decreases r,
{
    match r {
        EntityRefV::Id(i) => JsonV::Str(i.value),
        EntityRefV::Embedded(e) => JsonV::Obj(enc_entity_members(*e)),
    }
}

pub open spec fn enc_entity_ref_seq(v: Seq<EntityRefV>) -> Seq<JsonV>
    decreases v,
{
    if v.len() == 0 {
        Seq::empty()
    } else {
        seq![enc_entity_ref(v[0])] + enc_entity_ref_seq(v.drop_first())
    }
}

pub open spec fn enc_entity_refs(r: EntityRefsV) -> JsonV
    decreases r,
{
    match r {
        EntityRefsV::One(e) => enc_entity_ref(e),
        EntityRefsV::Many(v) => JsonV::Arr(enc_entity_ref_seq(v)),
    }
}

/// The first seven member pieces of an encoded entity: the identifier and
/// the plain string-valued fields.
pub open spec fn entity_prefix(e: EntityV) -> Seq<(Seq<char>, JsonV)> {
    m_one("id"@, JsonV::Str(e.id.value)) + m_opt_str("type"@, e.kind) + m_opt_str("name"@, e.name)
        + m_opt_str("content"@, e.content) + (match e.media_type {
        Some(t) => seq![("mediaType"@, JsonV::Str(spec_media_type_str(t)))],
        None => Seq::empty(),
    }) + m_opt_str("published"@, e.published) + m_opt_str("updated"@, e.updated)
}

pub open spec fn enc_entity_members(e: EntityV) -> Seq<(Seq<char>, JsonV)>
    decreases e,
{
    entity_prefix(e) + (match e.attachment {
        Some(a) => seq![("attachment"@, enc_link_refs(a))],
        None => Seq::empty(),
    }) + (match e.attributed_to {
        Some(r) => seq![("attributedTo"@, enc_entity_ref(r))],
        None => Seq::empty(),
    }) + (match e.in_reply_to {
        Some(r) => seq![("inReplyTo"@, enc_entity_ref(r))],
        None => Seq::empty(),
    }) + (match e.to {
        Some(r) => seq![("to"@, enc_entity_refs(r))],
        None => Seq::empty(),
    }) + (match e.cc {
        Some(r) => seq![("cc"@, enc_entity_refs(r))],
        None => Seq::empty(),
    }) + (match e.bto {
        Some(r) => seq![("bto"@, enc_entity_refs(r))],
        None => Seq::empty(),
    }) + (match e.bcc {
        Some(r) => seq![("bcc"@, enc_entity_refs(r))],
        None => Seq::empty(),
    }) + (match e.replies {
        Some(c) => seq![("replies"@, JsonV::Obj(enc_collection_members(*c)))],
        None => Seq::empty(),
    })
}

pub open spec fn enc_collection_members(c: CollectionV) -> Seq<(Seq<char>, JsonV)>
    decreases c,
{
    m_one("type"@, JsonV::Str(spec_collection_type_str(c.type_field))) + enc_entity_members(
        c.extends_object,
    ) + m_one("totalItems"@, JsonV::Int(c.total_items as u64)) + m_opt_iri("first"@, c.first)
        + m_opt_iri("last"@, c.last) + m_opt_iri("next"@, c.next) + m_opt_iri("prev"@, c.prev)
        + m_opt_iri("partOf"@, c.part_of)
}

pub open spec fn enc_public_key(k: PublicKeyV) -> JsonV {
    JsonV::Obj(
        m_one("id"@, JsonV::Str(k.id)) + m_one("owner"@, JsonV::Str(k.owner)) + m_one(
            "publicKeyPem"@,
            JsonV::Str(k.public_key_pem),
        ),
    )
}

pub open spec fn enc_actor_members(a: ActorV) -> Seq<(Seq<char>, JsonV)> {
    m_one("type"@, JsonV::Str(spec_actor_type_str(a.type_field))) + enc_entity_members(
        a.extends_object,
    ) + m_opt_str("preferredUsername"@, a.preferred_username) + m_one(
        "publicKey"@,
        enc_public_key(a.public_key),
    ) + m_one("inbox"@, JsonV::Str(a.inbox.value)) + m_one("outbox"@, JsonV::Str(a.outbox.value))
        + m_one("followers"@, JsonV::Str(a.followers.value)) + m_one(
        "following"@,
        JsonV::Str(a.following.value),
    )
}

pub open spec fn enc_activity_members(a: ActivityV) -> Seq<(Seq<char>, JsonV)> {
    m_one("type"@, JsonV::Str(spec_activity_type_str(a.type_field))) + enc_entity_members(
        a.extends_object,
    ) + (match a.actor {
        Some(r) => seq![("actor"@, enc_entity_ref(r))],
        None => Seq::empty(),
    }) + (match a.object {
        Some(r) => seq![("object"@, enc_entity_ref(r))],
        None => Seq::empty(),
    })
}

pub open spec fn enc_intransitive_members(a: IntransitiveActivityV) -> Seq<(Seq<char>, JsonV)> {
    m_one("type"@, JsonV::Str(spec_intransitive_type_str(a.type_field))) + enc_entity_members(
        a.extends_object,
    ) + (match a.actor {
        Some(r) => seq![("actor"@, enc_entity_ref(r))],
        None => Seq::empty(),
    })
}

pub open spec fn enc_object_members(x: ExtendsObjectV) -> Seq<(Seq<char>, JsonV)> {
    match x {
        ExtendsObjectV::Entity(e) => enc_entity_members(*e),
        ExtendsObjectV::Actor(a) => enc_actor_members(*a),
        ExtendsObjectV::Activity(a) => enc_activity_members(*a),
        ExtendsObjectV::Intransitive(a) => enc_intransitive_members(*a),
        ExtendsObjectV::Collection(c) => enc_collection_members(*c),
    }
}

pub open spec fn enc_context_strings(v: Seq<Seq<char>>) -> Seq<JsonV>
    decreases v,
{
    if v.len() == 0 {
        Seq::empty()
    } else {
        seq![JsonV::Str(v[0])] + enc_context_strings(v.drop_first())
    }
}

pub open spec fn enc_context(c: ContextV) -> JsonV {
    match c {
        ContextV::Single(s) => JsonV::Str(s),
        ContextV::Array(v) => JsonV::Arr(enc_context_strings(v)),
    }
}

/// The encoded form of a document: the context member, when present,
/// flattened beside the entity's members.
pub open spec fn spec_encode(d: DocumentV) -> JsonV {
    JsonV::Obj(
        (match d.context {
            Some(c) => seq![("@context"@, enc_context(c))],
            None => Seq::empty(),
        }) + enc_object_members(d.entity),
    )
}

// ----------------------------------------------------------- decode: spec

pub open spec fn dec_iri(v: JsonV) -> Result<IriV, DecodeError> {
    match v {
        JsonV::Str(s) => match iri_host_of(s) {
            Some(h) => Ok(IriV { value: s, host: h, path: iri_path_of(s) }),
            None => Err(DecodeError::ShapeMismatch),
        },
        _ => Err(DecodeError::ShapeMismatch),
    }
}

/// An optional string-valued member.
pub open spec fn dec_opt_str(o: Option<JsonV>) -> Result<Option<Seq<char>>, DecodeError> {
    match o {
        None => Ok(None),
        Some(JsonV::Str(s)) => Ok(Some(s)),
        Some(_) => Err(DecodeError::ShapeMismatch),
    }
}

/// An optional identifier-valued member.
pub open spec fn dec_opt_iri(o: Option<JsonV>) -> Result<Option<IriV>, DecodeError> {
    match o {
        None => Ok(None),
        Some(v) => match dec_iri(v) {
            Ok(i) => Ok(Some(i)),
            Err(e) => Err(e),
        },
    }
}

/// An optional unsigned-integer member that must fit a `u32`.
pub open spec fn dec_opt_u32(o: Option<JsonV>) -> Result<Option<u32>, DecodeError> {
    match o {
        None => Ok(None),
        Some(JsonV::Int(n)) => if n <= u32::MAX as u64 {
            Ok(Some(n as u32))
        } else {
            Err(DecodeError::ShapeMismatch)
        },
        Some(_) => Err(DecodeError::ShapeMismatch),
    }
}

pub open spec fn dec_link_desc(ms: Seq<(Seq<char>, JsonV)>) -> Result<LinkDescV, DecodeError> {
    match spec_obj_get(ms, "href"@) {
        None => Err(DecodeError::MissingId),
        Some(hv) => match dec_iri(hv) {
            Err(e) => Err(e),
            Ok(href) => match dec_opt_str(spec_obj_get(ms, "mediaType"@)) {
                Err(e) => Err(e),
                Ok(media_type) => match dec_opt_str(spec_obj_get(ms, "name"@)) {
                    Err(e) => Err(e),
                    Ok(name) => match dec_opt_u32(spec_obj_get(ms, "height"@)) {
                        Err(e) => Err(e),
                        Ok(height) => match dec_opt_u32(spec_obj_get(ms, "width"@)) {
                            Err(e) => Err(e),
                            Ok(width) => Ok(
                                LinkDescV { href, media_type, name, height, width },
                            ),
                        },
                    },
                },
            },
        },
    }
}

/// A link reference: the expanded-descriptor shape is tried before the
/// bare-identifier fallback.
pub open spec fn dec_link_ref(v: JsonV) -> Result<LinkRefV, DecodeError> {
    match v {
        JsonV::Obj(ms) => match dec_link_desc(ms) {
            Ok(d) => Ok(LinkRefV::Expanded(d)),
            Err(e) => Err(e),
        },
        JsonV::Str(s) => match dec_iri(v) {
            Ok(i) => Ok(LinkRefV::Id(i)),
            Err(e) => Err(e),
        },
        _ => Err(DecodeError::ShapeMismatch),
    }
}

pub open spec fn dec_link_ref_seq(items: Seq<JsonV>) -> Result<Seq<LinkRefV>, DecodeError>
    decreases items,
{
    if items.len() == 0 {
        Ok(Seq::empty())
    } else {
        match dec_link_ref(items[0]) {
            Err(e) => Err(e),
            Ok(r) => match dec_link_ref_seq(items.drop_first()) {
                Err(e) => Err(e),
                Ok(rest) => Ok(seq![r] + rest),
            },
        }
    }
}

pub open spec fn dec_link_refs(o: Option<JsonV>) -> Result<Option<LinkRefsV>, DecodeError> {
    match o {
        None => Ok(None),
        Some(JsonV::Arr(items)) => match dec_link_ref_seq(items) {
            Ok(v) => Ok(Some(LinkRefsV::Many(v))),
            Err(e) => Err(e),
        },
        Some(v) => match dec_link_ref(v) {
            Ok(r) => Ok(Some(LinkRefsV::One(r))),
            Err(e) => Err(e),
        },
    }
}

/// An entity reference: the embedded-object shape is tried before the
/// bare-identifier fallback, so `{"id": ...}` decodes as an embedded
/// entity, never as a bare identifier.
pub open spec fn dec_entity_ref(v: JsonV) -> Result<EntityRefV, DecodeError>
    decreases v, 0int,
{
    match v {
        JsonV::Obj(ms) => match dec_entity(ms) {
            Ok(e) => Ok(EntityRefV::Embedded(Box::new(e))),
            Err(e) => Err(e),
        },
        JsonV::Str(s) => match dec_iri(v) {
            Ok(i) => Ok(EntityRefV::Id(i)),
            Err(e) => Err(e),
        },
        _ => Err(DecodeError::ShapeMismatch),
    }
}

pub open spec fn dec_entity_ref_seq(items: Seq<JsonV>) -> Result<Seq<EntityRefV>, DecodeError>
    decreases items, 0int,
{
    if items.len() == 0 {
        Ok(Seq::empty())
    } else {
        match dec_entity_ref(items[0]) {
            Err(e) => Err(e),
            Ok(r) => match dec_entity_ref_seq(items.drop_first()) {
                Err(e) => Err(e),
                Ok(rest) => Ok(seq![r] + rest),
            },
        }
    }
}

/// A one-or-many entity-reference member: an array keeps the array shape,
/// any other value decodes as the single shape.
pub open spec fn dec_entity_refs_val(v: JsonV) -> Result<EntityRefsV, DecodeError>
    decreases v, 1int,
{
    match v {
        JsonV::Arr(items) => match dec_entity_ref_seq(items) {
            Ok(rs) => Ok(EntityRefsV::Many(rs)),
            Err(e) => Err(e),
        },
        _ => match dec_entity_ref(v) {
            Ok(r) => Ok(EntityRefsV::One(r)),
            Err(e) => Err(e),
        },
    }
}

/// A replies member must be an embedded collection object.
pub open spec fn dec_replies_val(v: JsonV) -> Result<Box<CollectionV>, DecodeError>
    decreases v, 2int,
{
    match v {
        JsonV::Obj(ms) => match dec_opt_str(spec_obj_get(ms, "type"@)) {
            Ok(Some(t)) => match spec_collection_type_of(t) {
                Some(ct) => match dec_collection(ms, ct) {
                    Ok(c) => Ok(Box::new(c)),
                    Err(e) => Err(e),
                },
                None => Err(DecodeError::ShapeMismatch),
            },
            _ => Err(DecodeError::ShapeMismatch),
        },
        _ => Err(DecodeError::ShapeMismatch),
    }
}

pub open spec fn dec_opt_entity_ref(o: Option<JsonV>) -> Result<
    Option<EntityRefV>,
    DecodeError,
> {
    match o {
        None => Ok(None),
        Some(v) => match dec_entity_ref(v) {
            Ok(r) => Ok(Some(r)),
            Err(e) => Err(e),
        },
    }
}

/// A one-or-many entity-reference member, absent allowed.
pub open spec fn dec_refs_field(ms: Seq<(Seq<char>, JsonV)>, k: Seq<char>) -> Result<
    Option<EntityRefsV>,
    DecodeError,
>
    decreases ms, 0int,
    via dec_refs_field_via
{
    match spec_obj_get(ms, k) {
        None => Ok(None),
        Some(v) => match dec_entity_refs_val(v) {
            Ok(r) => Ok(Some(r)),
            Err(e) => Err(e),
        },
    }
}

#[via_fn]
proof fn dec_refs_field_via(ms: Seq<(Seq<char>, JsonV)>, k: Seq<char>) {
    crate::json::lemma_obj_get_decreases(ms, k);
}

/// The generic entity fields, read from an object's members. The raw
/// discriminator, when present, is kept in `kind`.
#[verifier::opaque]
pub open spec fn dec_entity(ms: Seq<(Seq<char>, JsonV)>) -> Result<EntityV, DecodeError>
    decreases ms, 1int,
    via dec_entity_via
{
    match spec_obj_get(ms, "id"@) {
        None => Err(DecodeError::MissingId),
        Some(idv) => match dec_iri(idv) {
            Err(e) => Err(e),
            Ok(id) => match dec_opt_str(spec_obj_get(ms, "type"@)) {
                Err(e) => Err(e),
                Ok(kind) => match dec_opt_str(spec_obj_get(ms, "name"@)) {
                    Err(e) => Err(e),
                    Ok(name) => match dec_opt_str(spec_obj_get(ms, "content"@)) {
                        Err(e) => Err(e),
                        Ok(content) => match dec_media_type(spec_obj_get(ms, "mediaType"@)) {
                            Err(e) => Err(e),
                            Ok(media_type) => match dec_opt_str(
                                spec_obj_get(ms, "published"@),
                            ) {
                                Err(e) => Err(e),
                                Ok(published) => match dec_opt_str(
                                    spec_obj_get(ms, "updated"@),
                                ) {
                                    Err(e) => Err(e),
                                    Ok(updated) => match dec_link_refs(
                                        spec_obj_get(ms, "attachment"@),
                                    ) {
                                        Err(e) => Err(e),
                                        Ok(attachment) => match (
                                            match spec_obj_get(ms, "attributedTo"@) {
                                                None => Ok(None),
                                                Some(v) => match dec_entity_ref(v) {
                                                    Ok(r) => Ok(Some(r)),
                                                    Err(e) => Err(e),
                                                },
                                            }
                                        ) {
                                            Err(e) => Err::<EntityV, DecodeError>(e),
                                            Ok(attributed_to) => match (
                                            match spec_obj_get(ms, "inReplyTo"@) {
                                                None => Ok(None),
                                                Some(v) => match dec_entity_ref(v) {
                                                    Ok(r) => Ok(Some(r)),
                                                    Err(e) => Err(e),
                                                },
                                            }
                                        ) {
                                            Err(e) => Err::<EntityV, DecodeError>(e),
                                            Ok(in_reply_to) => match dec_refs_field(ms, "to"@) {
                                                Err(e) => Err(e),
                                                Ok(to) => match dec_refs_field(ms, "cc"@) {
                                                    Err(e) => Err(e),
                                                    Ok(cc) => match dec_refs_field(ms, "bto"@) {
                                                        Err(e) => Err(e),
                                                        Ok(bto) => match dec_refs_field(
                                                            ms,
                                                            "bcc"@,
                                                        ) {
                                                            Err(e) => Err(e),
                                                            Ok(bcc) => match (
                                                                match spec_obj_get(
                                                                    ms,
                                                                    "replies"@,
                                                                ) {
                                                                    None => Ok(None),
                                                                    Some(v) => match
                                                                        dec_replies_val(v) {
                                                                        Ok(c) => Ok(Some(c)),
                                                                        Err(e) => Err(e),
                                                                    },
                                                                }
                                                            ) {
                                                                Err(e) => Err::<
                                                                    EntityV,
                                                                    DecodeError,
                                                                >(e),
                                                                Ok(replies) => Ok(
                                                                    EntityV {
                                                                        id,
                                                                        kind,
                                                                        name,
                                                                        content,
                                                                        media_type,
                                                                        published,
                                                                        updated,
                                                                        attachment,
                                                                        attributed_to,
                                                                        in_reply_to,
                                                                        to,
                                                                        cc,
                                                                        bto,
                                                                        bcc,
                                                                        replies,
                                                                    },
                                                                ),
                                                            },
                                                        },
                                                    },
                                                },
                                            },
                                        },
                                        },
                                    },
                                },
                            },
                        },
                    },
                },
            },
        },
    }
}

#[via_fn]
proof fn dec_entity_via(ms: Seq<(Seq<char>, JsonV)>) {
    crate::json::lemma_obj_get_decreases(ms, "attributedTo"@);
    crate::json::lemma_obj_get_decreases(ms, "inReplyTo"@);
    crate::json::lemma_obj_get_decreases(ms, "replies"@);
}

pub open spec fn dec_media_type(o: Option<JsonV>) -> Result<Option<MediaType>, DecodeError> {
    match o {
        None => Ok(None),
        Some(JsonV::Str(s)) => match spec_media_type_of(s) {
            Some(t) => Ok(Some(t)),
            None => Err(DecodeError::ShapeMismatch),
        },
        Some(_) => Err(DecodeError::ShapeMismatch),
    }
}

pub open spec fn dec_collection(ms: Seq<(Seq<char>, JsonV)>, t: CollectionType) -> Result<
    CollectionV,
    DecodeError,
>
    decreases ms, 2int,
{
    match dec_entity(ms) {
        Err(e) => Err(e),
        Ok(base) => match dec_opt_u32(spec_obj_get(ms, "totalItems"@)) {
            Err(e) => Err(e),
            Ok(total) => match dec_opt_iri(spec_obj_get(ms, "first"@)) {
                Err(e) => Err(e),
                Ok(first) => match dec_opt_iri(spec_obj_get(ms, "last"@)) {
                    Err(e) => Err(e),
                    Ok(last) => match dec_opt_iri(spec_obj_get(ms, "next"@)) {
                        Err(e) => Err(e),
                        Ok(next) => match dec_opt_iri(spec_obj_get(ms, "prev"@)) {
                            Err(e) => Err(e),
                            Ok(prev) => match dec_opt_iri(spec_obj_get(ms, "partOf"@)) {
                                Err(e) => Err(e),
                                Ok(part_of) => Ok(
                                    CollectionV {
                                        type_field: t,
                                        extends_object: strip_kind(base),
                                        total_items: match total {
                                            Some(n) => n,
                                            None => 0,
                                        },
                                        first,
                                        last,
                                        next,
                                        prev,
                                        part_of,
                                    },
                                ),
                            },
                        },
                    },
                },
            },
        },
    }
}

/// The entity base of a typed variant does not keep the raw discriminator:
/// the variant's own enum carries it.
pub open spec fn strip_kind(e: EntityV) -> EntityV {
    EntityV { kind: None, ..e }
}

pub open spec fn dec_public_key(o: Option<JsonV>) -> Result<PublicKeyV, DecodeError> {
    match o {
        Some(JsonV::Obj(ms)) => match (
            dec_opt_str(spec_obj_get(ms, "id"@)),
            dec_opt_str(spec_obj_get(ms, "owner"@)),
            dec_opt_str(spec_obj_get(ms, "publicKeyPem"@)),
        ) {
            (Ok(Some(id)), Ok(Some(owner)), Ok(Some(pem))) => Ok(
                PublicKeyV { id, owner, public_key_pem: pem },
            ),
            _ => Err(DecodeError::ShapeMismatch),
        },
        _ => Err(DecodeError::ShapeMismatch),
    }
}

pub open spec fn dec_req_iri(ms: Seq<(Seq<char>, JsonV)>, k: Seq<char>) -> Result<
    IriV,
    DecodeError,
> {
    match spec_obj_get(ms, k) {
        None => Err(DecodeError::ShapeMismatch),
        Some(v) => dec_iri(v),
    }
}

pub open spec fn dec_actor(ms: Seq<(Seq<char>, JsonV)>, t: ActorType) -> Result<
    ActorV,
    DecodeError,
>
{
    match dec_entity(ms) {
        Err(e) => Err(e),
        Ok(base) => match dec_opt_str(spec_obj_get(ms, "preferredUsername"@)) {
            Err(e) => Err(e),
            Ok(preferred_username) => match dec_public_key(spec_obj_get(ms, "publicKey"@)) {
                Err(e) => Err(e),
                Ok(public_key) => match dec_req_iri(ms, "inbox"@) {
                    Err(e) => Err(e),
                    Ok(inbox) => match dec_req_iri(ms, "outbox"@) {
                        Err(e) => Err(e),
                        Ok(outbox) => match dec_req_iri(ms, "followers"@) {
                            Err(e) => Err(e),
                            Ok(followers) => match dec_req_iri(ms, "following"@) {
                                Err(e) => Err(e),
                                Ok(following) => Ok(
                                    ActorV {
                                        type_field: t,
                                        preferred_username,
                                        extends_object: strip_kind(base),
                                        public_key,
                                        inbox,
                                        outbox,
                                        followers,
                                        following,
                                    },
                                ),
                            },
                        },
                    },
                },
            },
        },
    }
}

pub open spec fn dec_activity(ms: Seq<(Seq<char>, JsonV)>, t: ActivityType) -> Result<
    ActivityV,
    DecodeError,
>
{
    match dec_entity(ms) {
        Err(e) => Err(e),
        Ok(base) => match dec_opt_entity_ref(spec_obj_get(ms, "actor"@)) {
            Err(e) => Err(e),
            Ok(actor) => match dec_opt_entity_ref(spec_obj_get(ms, "object"@)) {
                Err(e) => Err(e),
                Ok(object) => Ok(
                    ActivityV { type_field: t, extends_object: strip_kind(base), actor, object },
                ),
            },
        },
    }
}

pub open spec fn dec_intransitive(ms: Seq<(Seq<char>, JsonV)>, t: IntransitiveType) -> Result<
    IntransitiveActivityV,
    DecodeError,
>
{
    match dec_entity(ms) {
        Err(e) => Err(e),
        Ok(base) => match dec_opt_entity_ref(spec_obj_get(ms, "actor"@)) {
            Err(e) => Err(e),
            Ok(actor) => Ok(
                IntransitiveActivityV { type_field: t, extends_object: strip_kind(base), actor },
            ),
        },
    }
}

/// Dispatch on the `type` discriminator. A recognised actor discriminator
/// whose required fields are missing or malformed falls back to the generic
/// entity, as does any unrecognised discriminator.
pub open spec fn dec_object_members(ms: Seq<(Seq<char>, JsonV)>) -> Result<
    ExtendsObjectV,
    DecodeError,
>
{
    match dec_opt_str(spec_obj_get(ms, "type"@)) {
        Err(e) => Err(e),
        Ok(kind) => match kind {
            None => match dec_entity(ms) {
                Ok(e) => Ok(ExtendsObjectV::Entity(Box::new(e))),
                Err(e) => Err(e),
            },
            Some(t) => if spec_actor_type_of(t) is Some {
                match dec_actor(ms, spec_actor_type_of(t)->Some_0) {
                    Ok(a) => Ok(ExtendsObjectV::Actor(Box::new(a))),
                    Err(_) => match dec_entity(ms) {
                        Ok(e) => Ok(ExtendsObjectV::Entity(Box::new(e))),
                        Err(e) => Err(e),
                    },
                }
            } else if spec_activity_type_of(t) is Some {
                match dec_activity(ms, spec_activity_type_of(t)->Some_0) {
                    Ok(a) => Ok(ExtendsObjectV::Activity(Box::new(a))),
                    Err(e) => Err(e),
                }
            } else if spec_intransitive_type_of(t) is Some {
                match dec_intransitive(ms, spec_intransitive_type_of(t)->Some_0) {
                    Ok(a) => Ok(ExtendsObjectV::Intransitive(Box::new(a))),
                    Err(e) => Err(e),
                }
            } else if spec_collection_type_of(t) is Some {
                match dec_collection(ms, spec_collection_type_of(t)->Some_0) {
                    Ok(c) => Ok(ExtendsObjectV::Collection(Box::new(c))),
                    Err(e) => Err(e),
                }
            } else {
                match dec_entity(ms) {
                    Ok(e) => Ok(ExtendsObjectV::Entity(Box::new(e))),
                    Err(e) => Err(e),
                }
            },
        },
    }
}

pub open spec fn dec_context_strings(items: Seq<JsonV>) -> Result<Seq<Seq<char>>, DecodeError>
    decreases items,
{
    if items.len() == 0 {
        Ok(Seq::empty())
    } else {
        match items[0] {
            JsonV::Str(s) => match dec_context_strings(items.drop_first()) {
                Ok(rest) => Ok(seq![s] + rest),
                Err(e) => Err(e),
            },
            _ => Err(DecodeError::ShapeMismatch),
        }
    }
}

pub open spec fn dec_context(o: Option<JsonV>) -> Result<Option<ContextV>, DecodeError> {
    match o {
        None => Ok(None),
        Some(JsonV::Str(s)) => Ok(Some(ContextV::Single(s))),
        Some(JsonV::Arr(items)) => match dec_context_strings(items) {
            Ok(v) => Ok(Some(ContextV::Array(v))),
            Err(e) => Err(e),
        },
        Some(_) => Err(DecodeError::ShapeMismatch),
    }
}

// ------------------------------------------------------- well-formedness

pub open spec fn wf_link_ref(r: LinkRefV) -> bool {
    match r {
        LinkRefV::Id(i) => i.wf(),
        LinkRefV::Expanded(d) => d.href.wf(),
    }
}

pub open spec fn wf_link_ref_seq(v: Seq<LinkRefV>) -> bool
    decreases v,
{
    if v.len() == 0 {
        true
    } else {
        wf_link_ref(v[0]) && wf_link_ref_seq(v.drop_first())
    }
}

pub open spec fn wf_link_refs(r: LinkRefsV) -> bool {
    match r {
        LinkRefsV::One(l) => wf_link_ref(l),
        LinkRefsV::Many(v) => wf_link_ref_seq(v),
    }
}

pub open spec fn wf_entity_ref(r: EntityRefV) -> bool
    decreases r,
{
    match r {
        EntityRefV::Id(i) => i.wf(),
        EntityRefV::Embedded(e) => wf_entity(*e),
    }
}

pub open spec fn wf_entity_ref_seq(v: Seq<EntityRefV>) -> bool
    decreases v,
{
    if v.len() == 0 {
        true
    } else {
        wf_entity_ref(v[0]) && wf_entity_ref_seq(v.drop_first())
    }
}

pub open spec fn wf_entity_refs(r: EntityRefsV) -> bool
    decreases r,
{
    match r {
        EntityRefsV::One(e) => wf_entity_ref(e),
        EntityRefsV::Many(v) => wf_entity_ref_seq(v),
    }
}

/// A constructible entity: its identifier is well formed, and so is every
/// nested reference and collection.
pub open spec fn wf_entity(e: EntityV) -> bool
    decreases e,
{
    e.id.wf() && (match e.attachment {
        Some(a) => wf_link_refs(a),
        None => true,
    }) && (match e.attributed_to {
        Some(r) => wf_entity_ref(r),
        None => true,
    }) && (match e.in_reply_to {
        Some(r) => wf_entity_ref(r),
        None => true,
    }) && (match e.to {
        Some(r) => wf_entity_refs(r),
        None => true,
    }) && (match e.cc {
        Some(r) => wf_entity_refs(r),
        None => true,
    }) && (match e.bto {
        Some(r) => wf_entity_refs(r),
        None => true,
    }) && (match e.bcc {
        Some(r) => wf_entity_refs(r),
        None => true,
    }) && (match e.replies {
        Some(c) => wf_collection(*c),
        None => true,
    })
}

pub open spec fn wf_opt_iri(o: Option<IriV>) -> bool {
    match o {
        Some(i) => i.wf(),
        None => true,
    }
}

pub open spec fn wf_collection(c: CollectionV) -> bool
    decreases c,
{
    wf_entity(c.extends_object) && c.extends_object.kind is None && wf_opt_iri(c.first)
        && wf_opt_iri(c.last) && wf_opt_iri(c.next) && wf_opt_iri(c.prev) && wf_opt_iri(c.part_of)
}

pub open spec fn wf_actor(a: ActorV) -> bool {
    wf_entity(a.extends_object) && a.extends_object.kind is None && a.inbox.wf() && a.outbox.wf()
        && a.followers.wf() && a.following.wf()
}

pub open spec fn wf_activity(a: ActivityV) -> bool {
    wf_entity(a.extends_object) && a.extends_object.kind is None && (match a.actor {
        Some(r) => wf_entity_ref(r),
        None => true,
    }) && (match a.object {
        Some(r) => wf_entity_ref(r),
        None => true,
    })
}

pub open spec fn wf_intransitive(a: IntransitiveActivityV) -> bool {
    wf_entity(a.extends_object) && a.extends_object.kind is None && (match a.actor {
        Some(r) => wf_entity_ref(r),
        None => true,
    })
}

/// True when `t` is one of the recognised discriminators, so a generic
/// entity carrying it would decode as a typed variant instead.
pub open spec fn spec_known_kind(t: Seq<char>) -> bool {
    spec_actor_type_of(t) is Some || spec_activity_type_of(t) is Some || spec_intransitive_type_of(
        t,
    ) is Some || spec_collection_type_of(t) is Some
}

pub open spec fn wf_object(x: ExtendsObjectV) -> bool {
    match x {
        ExtendsObjectV::Entity(e) => wf_entity(*e) && (match e.kind {
            Some(t) => !spec_known_kind(t),
            None => true,
        }),
        ExtendsObjectV::Actor(a) => wf_actor(*a),
        ExtendsObjectV::Activity(a) => wf_activity(*a),
        ExtendsObjectV::Intransitive(a) => wf_intransitive(*a),
        ExtendsObjectV::Collection(c) => wf_collection(*c),
    }
}

/// A constructible document: one the local application can build and
/// deliver.
pub open spec fn wf_document(d: DocumentV) -> bool {
    wf_object(d.entity)
}

/// The decoded form of a JSON document.
pub open spec fn spec_decode(v: JsonV) -> Result<DocumentV, DecodeError> {
    match v {
        JsonV::Obj(ms) => match dec_context(spec_obj_get(ms, "@context"@)) {
            Err(e) => Err(e),
            Ok(context) => match dec_object_members(ms) {
                Err(e) => Err(e),
                Ok(entity) => Ok(DocumentV { context, entity }),
            },
        },
        _ => Err(DecodeError::ShapeMismatch),
    }
}

// ----------------------------------------------------------- encode: exec

/// The wire string of an actor discriminator.
fn actor_type_text(t: ActorType) -> (r: &'static str)
    ensures
        r@ == spec_actor_type_str(t),
{
    match t {
        ActorType::Actor => "Actor",
        ActorType::Application => "Application",
        ActorType::Group => "Group",
        ActorType::Organization => "Organization",
        ActorType::Person => "Person",
        ActorType::Service => "Service",
    }
}

/// The wire string of an activity discriminator.
fn activity_type_text(t: ActivityType) -> (r: &'static str)
    ensures
        r@ == spec_activity_type_str(t),
{
    match t {
        ActivityType::Activity => "Activity",
        ActivityType::Accept => "Accept",
        ActivityType::TentativeAccept => "TentativeAccept",
        ActivityType::Add => "Add",
        ActivityType::Create => "Create",
        ActivityType::Delete => "Delete",
        ActivityType::Follow => "Follow",
        ActivityType::Ignore => "Ignore",
        ActivityType::Join => "Join",
        ActivityType::Leave => "Leave",
        ActivityType::Like => "Like",
        ActivityType::Offer => "Offer",
        ActivityType::Invite => "Invite",
        ActivityType::Reject => "Reject",
        ActivityType::TentativeReject => "TentativeReject",
        ActivityType::Remove => "Remove",
        ActivityType::Undo => "Undo",
        ActivityType::Update => "Update",
        ActivityType::View => "View",
        ActivityType::Listen => "Listen",
        ActivityType::Read => "Read",
        ActivityType::Move => "Move",
        ActivityType::Announce => "Announce",
        ActivityType::Block => "Block",
        ActivityType::Flag => "Flag",
        ActivityType::Dislike => "Dislike",
    }
}

/// The wire string of an intransitive discriminator.
fn intransitive_type_text(t: IntransitiveType) -> (r: &'static str)
    ensures
        r@ == spec_intransitive_type_str(t),
{
    match t {
        IntransitiveType::IntransitiveActivity => "IntransitiveActivity",
        IntransitiveType::Arrive => "Arrive",
        IntransitiveType::Travel => "Travel",
    }
}

/// The wire string of a collection discriminator.
fn collection_type_text(t: CollectionType) -> (r: &'static str)
    ensures
        r@ == spec_collection_type_str(t),
{
    match t {
        CollectionType::Collection => "Collection",
        CollectionType::OrderedCollection => "OrderedCollection",
        CollectionType::CollectionPage => "CollectionPage",
        CollectionType::OrderedCollectionPage => "OrderedCollectionPage",
    }
}

/// The wire string of a media type.
fn media_type_text(t: MediaType) -> (r: &'static str)
    ensures
        r@ == spec_media_type_str(t),
{
    match t {
        MediaType::Html => "text/html",
        MediaType::Markdown => "text/markdown",
    }
}

/// Pushes one member. The caller threads an accumulator: `base` is what the
/// vector held at its start, `cur` the members appended since; the push
/// extends `cur` by one pair, keeping the spec-side association.
fn push_member(
    out: &mut Vec<(String, Json)>,
    k: &str,
    v: Json,
    Ghost(base): Ghost<Seq<(Seq<char>, JsonV)>>,
    Ghost(cur): Ghost<Seq<(Seq<char>, JsonV)>>,
)
    requires
        crate::json::view_members(old(out)@) == base + cur,
    ensures
        crate::json::view_members(final(out)@) == base + (cur + seq![(k@, v@)]),
{
    let ghost v_view = v@;
    let key = k.to_owned();
    out.push((key, v));
    proof {
        crate::json::lemma_view_members_push(old(out)@, (key, v));
        assert((base + cur) + seq![(k@, v_view)] =~= base + (cur + seq![(k@, v_view)]));
    }
}

fn enc_link_desc_exec(d: &LinkDesc) -> (r: Json)
    ensures
        r@ == JsonV::Obj(enc_link_desc(view_link_desc(*d))),
{
    let mut out: Vec<(String, Json)> = Vec::new();
    let ghost base = crate::json::view_members(out@);
    let ghost mut cur: Seq<(Seq<char>, JsonV)> = Seq::empty();
    proof {
        assert(crate::json::view_members(out@) =~= Seq::<(Seq<char>, JsonV)>::empty());
        assert(base + cur =~= base);
    }
    push_member(&mut out, "href", Json::Str(d.href.value.clone()), Ghost(base), Ghost(cur));
    proof {
        assert(cur + seq![("href"@, JsonV::Str(d.href.value@))] =~= m_one(
            "href"@,
            JsonV::Str(d.href.value@),
        ));
        cur = m_one("href"@, JsonV::Str(d.href.value@));
    }
    match &d.media_type {
        Some(s) => {
            push_member(&mut out, "mediaType", Json::Str(s.clone()), Ghost(base), Ghost(cur));
            proof {
                cur = cur + m_opt_str("mediaType"@, view_link_desc(*d).media_type);
            }
        },
        None => {
            proof {
                assert(cur + m_opt_str("mediaType"@, view_link_desc(*d).media_type) =~= cur);
                cur = cur + m_opt_str("mediaType"@, view_link_desc(*d).media_type);
            }
        },
    }
    match &d.name {
        Some(s) => {
            push_member(&mut out, "name", Json::Str(s.clone()), Ghost(base), Ghost(cur));
            proof {
                cur = cur + m_opt_str("name"@, view_link_desc(*d).name);
            }
        },
        None => {
            proof {
                assert(cur + m_opt_str("name"@, view_link_desc(*d).name) =~= cur);
                cur = cur + m_opt_str("name"@, view_link_desc(*d).name);
            }
        },
    }
    let ghost hpiece: Seq<(Seq<char>, JsonV)> = match view_link_desc(*d).height {
        Some(h) => seq![("height"@, JsonV::Int(h as u64))],
        None => Seq::empty(),
    };
    match d.height {
        Some(h) => {
            push_member(&mut out, "height", Json::Int(h as u64), Ghost(base), Ghost(cur));
            proof {
                cur = cur + hpiece;
            }
        },
        None => {
            proof {
                assert(cur + hpiece =~= cur);
                cur = cur + hpiece;
            }
        },
    }
    let ghost wpiece: Seq<(Seq<char>, JsonV)> = match view_link_desc(*d).width {
        Some(w) => seq![("width"@, JsonV::Int(w as u64))],
        None => Seq::empty(),
    };
    match d.width {
        Some(w) => {
            push_member(&mut out, "width", Json::Int(w as u64), Ghost(base), Ghost(cur));
            proof {
                cur = cur + wpiece;
            }
        },
        None => {
            proof {
                assert(cur + wpiece =~= cur);
                cur = cur + wpiece;
            }
        },
    }
    proof {
        assert(base + cur =~= cur);
        assert(cur == enc_link_desc(view_link_desc(*d)));
    }
    Json::Obj(out)
}

fn enc_link_ref_exec(r: &LinkRef) -> (o: Json)
    ensures
        o@ == enc_link_ref(view_link_ref(*r)),
{
    match r {
        LinkRef::Id(i) => Json::Str(i.value.clone()),
        LinkRef::Expanded(d) => enc_link_desc_exec(d),
    }
}

fn enc_link_ref_list(v: &Vec<LinkRef>, i: usize, out: &mut Vec<Json>)
    requires
        i <= v@.len(),
    ensures
        crate::json::view_items(final(out)@) == crate::json::view_items(old(out)@)
            + enc_link_ref_seq(view_link_ref_seq(v@.skip(i as int))),
    decreases v@.len() - i,
{
    if i < v.len() {
        let j = enc_link_ref_exec(&v[i]);
        let ghost before = out@;
        out.push(j);
        proof {
            crate::json::lemma_view_items_push(before, j);
            assert(v@.skip(i as int)[0] == v@[i as int]);
            assert(v@.skip(i as int).drop_first() =~= v@.skip(i + 1));
        }
        enc_link_ref_list(v, i + 1, out);
        proof {
            assert(view_link_ref_seq(v@.skip(i as int)).drop_first() =~= view_link_ref_seq(
                v@.skip(i + 1),
            ));
            assert(view_link_ref_seq(v@.skip(i as int))[0] == view_link_ref(v@[i as int]));
            assert(crate::json::view_items(final(out)@) =~= crate::json::view_items(old(out)@)
                + enc_link_ref_seq(view_link_ref_seq(v@.skip(i as int))));
        }
    } else {
        proof {
            assert(v@.skip(i as int) =~= Seq::<LinkRef>::empty());
            assert(crate::json::view_items(final(out)@) =~= crate::json::view_items(old(out)@)
                + enc_link_ref_seq(view_link_ref_seq(v@.skip(i as int))));
        }
    }
}

fn enc_link_refs_exec(r: &LinkRefs) -> (o: Json)
    ensures
        o@ == enc_link_refs(view_link_refs(*r)),
{
    match r {
        LinkRefs::One(l) => enc_link_ref_exec(l),
        LinkRefs::Many(v) => {
            let mut items: Vec<Json> = Vec::new();
            proof {
                assert(crate::json::view_items(items@) =~= Seq::<JsonV>::empty());
            }
            enc_link_ref_list(v, 0, &mut items);
            proof {
                assert(v@.skip(0) =~= v@);
            }
            Json::Arr(items)
        },
    }
}

fn enc_entity_ref_exec(r: &EntityRef) -> (o: Json)
    ensures
        o@ == enc_entity_ref(view_entity_ref(*r)),
    decreases r,
{
    match r {
        EntityRef::Id(i) => Json::Str(i.value.clone()),
        EntityRef::Embedded(e) => {
            proof {
                assert(decreases_to!(*r => r->Embedded_0));
            }
            let mut out: Vec<(String, Json)> = Vec::new();
            proof {
                assert(crate::json::view_members(out@) =~= Seq::<(Seq<char>, JsonV)>::empty());
            }
            enc_entity_members_exec(e, &mut out);
            proof {
                assert(crate::json::view_members(out@) =~= enc_entity_members(view_entity(**e)));
            }
            Json::Obj(out)
        },
    }
}

fn enc_entity_ref_list(v: &Vec<EntityRef>, i: usize, out: &mut Vec<Json>)
    requires
        i <= v@.len(),
    ensures
        crate::json::view_items(final(out)@) == crate::json::view_items(old(out)@)
            + enc_entity_ref_seq(view_entity_ref_seq(v@.skip(i as int))),
    decreases *v, v@.len() - i,
{
    if i < v.len() {
        proof {
            assert(decreases_to!(*v => v@[i as int]));
        }
        let j = enc_entity_ref_exec(&v[i]);
        let ghost before = out@;
        out.push(j);
        proof {
            crate::json::lemma_view_items_push(before, j);
            assert(v@.skip(i as int)[0] == v@[i as int]);
            assert(v@.skip(i as int).drop_first() =~= v@.skip(i + 1));
        }
        enc_entity_ref_list(v, i + 1, out);
        proof {
            assert(view_entity_ref_seq(v@.skip(i as int)).drop_first() =~= view_entity_ref_seq(
                v@.skip(i + 1),
            ));
            assert(view_entity_ref_seq(v@.skip(i as int))[0] == view_entity_ref(v@[i as int]));
            assert(crate::json::view_items(final(out)@) =~= crate::json::view_items(old(out)@)
                + enc_entity_ref_seq(view_entity_ref_seq(v@.skip(i as int))));
        }
    } else {
        proof {
            assert(v@.skip(i as int) =~= Seq::<EntityRef>::empty());
            assert(crate::json::view_items(final(out)@) =~= crate::json::view_items(old(out)@)
                + enc_entity_ref_seq(view_entity_ref_seq(v@.skip(i as int))));
        }
    }
}

fn enc_entity_refs_exec(r: &EntityRefs) -> (o: Json)
    ensures
        o@ == enc_entity_refs(view_entity_refs(*r)),
    decreases r,
{
    match r {
        EntityRefs::One(e) => enc_entity_ref_exec(e),
        EntityRefs::Many(v) => {
            let mut items: Vec<Json> = Vec::new();
            proof {
                assert(crate::json::view_items(items@) =~= Seq::<JsonV>::empty());
            }
            enc_entity_ref_list(v, 0, &mut items);
            proof {
                assert(v@.skip(0) =~= v@);
            }
            Json::Arr(items)
        },
    }
}

/// Appends the identifier and plain string members of one entity.
#[verifier::rlimit(100)]
#[verifier::spinoff_prover]
fn enc_entity_prefix_exec(e: &Entity, out: &mut Vec<(String, Json)>)
    ensures
        crate::json::view_members(final(out)@) == crate::json::view_members(old(out)@)
            + entity_prefix(view_entity(*e)),
{
    let ghost base = crate::json::view_members(out@);
    let ghost mut cur: Seq<(Seq<char>, JsonV)> = Seq::empty();
    proof {
        assert(base + cur =~= base);
    }
    push_member(out, "id", Json::Str(e.id.value.clone()), Ghost(base), Ghost(cur));
    proof {
        assert(cur + seq![("id"@, JsonV::Str(e.id.value@))] =~= m_one(
            "id"@,
            JsonV::Str(e.id.value@),
        ));
        cur = m_one("id"@, JsonV::Str(view_entity(*e).id.value));
    }
    match &e.kind {
        Some(s) => {
            push_member(out, "type", Json::Str(s.clone()), Ghost(base), Ghost(cur));
            proof {
                cur = cur + m_opt_str("type"@, view_entity(*e).kind);
            }
        },
        None => {
            proof {
                assert(cur + m_opt_str("type"@, view_entity(*e).kind) =~= cur);
                cur = cur + m_opt_str("type"@, view_entity(*e).kind);
            }
        },
    }
    match &e.name {
        Some(s) => {
            push_member(out, "name", Json::Str(s.clone()), Ghost(base), Ghost(cur));
            proof {
                cur = cur + m_opt_str("name"@, view_entity(*e).name);
            }
        },
        None => {
            proof {
                assert(cur + m_opt_str("name"@, view_entity(*e).name) =~= cur);
                cur = cur + m_opt_str("name"@, view_entity(*e).name);
            }
        },
    }
    match &e.content {
        Some(s) => {
            push_member(out, "content", Json::Str(s.clone()), Ghost(base), Ghost(cur));
            proof {
                cur = cur + m_opt_str("content"@, view_entity(*e).content);
            }
        },
        None => {
            proof {
                assert(cur + m_opt_str("content"@, view_entity(*e).content) =~= cur);
                cur = cur + m_opt_str("content"@, view_entity(*e).content);
            }
        },
    }
    let ghost mpiece: Seq<(Seq<char>, JsonV)> = match view_entity(*e).media_type {
        Some(t) => seq![("mediaType"@, JsonV::Str(spec_media_type_str(t)))],
        None => Seq::empty(),
    };
    match e.media_type {
        Some(t) => {
            push_member(
                out,
                "mediaType",
                Json::Str(media_type_text(t).to_owned()),
                Ghost(base),
                Ghost(cur),
            );
            proof {
                cur = cur + mpiece;
            }
        },
        None => {
            proof {
                assert(cur + mpiece =~= cur);
                cur = cur + mpiece;
            }
        },
    }
    match &e.published {
        Some(s) => {
            push_member(out, "published", Json::Str(s.clone()), Ghost(base), Ghost(cur));
            proof {
                cur = cur + m_opt_str("published"@, view_entity(*e).published);
            }
        },
        None => {
            proof {
                assert(cur + m_opt_str("published"@, view_entity(*e).published) =~= cur);
                cur = cur + m_opt_str("published"@, view_entity(*e).published);
            }
        },
    }
    match &e.updated {
        Some(s) => {
            push_member(out, "updated", Json::Str(s.clone()), Ghost(base), Ghost(cur));
            proof {
                cur = cur + m_opt_str("updated"@, view_entity(*e).updated);
            }
        },
        None => {
            proof {
                assert(cur + m_opt_str("updated"@, view_entity(*e).updated) =~= cur);
                cur = cur + m_opt_str("updated"@, view_entity(*e).updated);
            }
        },
    }
    proof {
        assert(cur == entity_prefix(view_entity(*e)));
    }
}

/// Appends the members of one entity to `out`.
#[verifier::rlimit(100)]
#[verifier::spinoff_prover]
fn enc_entity_members_exec(e: &Entity, out: &mut Vec<(String, Json)>)
    ensures
        crate::json::view_members(final(out)@) == crate::json::view_members(old(out)@)
            + enc_entity_members(view_entity(*e)),
    decreases e,
{
    let ghost base = crate::json::view_members(out@);
    let ghost mut cur: Seq<(Seq<char>, JsonV)> = Seq::empty();
    proof {
        assert(base + cur =~= base);
    }
    enc_entity_prefix_exec(e, out);
    proof {
        assert((base + cur) + entity_prefix(view_entity(*e)) =~= base + (cur + entity_prefix(
            view_entity(*e),
        )));
        assert(cur + entity_prefix(view_entity(*e)) =~= entity_prefix(view_entity(*e)));
        cur = entity_prefix(view_entity(*e));
    }
    let ghost apiece: Seq<(Seq<char>, JsonV)> = match view_entity(*e).attachment {
        Some(a) => seq![("attachment"@, enc_link_refs(a))],
        None => Seq::empty(),
    };
    match &e.attachment {
        Some(a) => {
            let j = enc_link_refs_exec(a);
            push_member(out, "attachment", j, Ghost(base), Ghost(cur));
            proof {
                cur = cur + apiece;
            }
        },
        None => {
            proof {
                assert(cur + apiece =~= cur);
                cur = cur + apiece;
            }
        },
    }
    let ghost atpiece: Seq<(Seq<char>, JsonV)> = match view_entity(*e).attributed_to {
        Some(r) => seq![("attributedTo"@, enc_entity_ref(r))],
        None => Seq::empty(),
    };
    match &e.attributed_to {
        Some(r) => {
            proof {
                assert(decreases_to!(*e => e.attributed_to));
                assert(decreases_to!(e.attributed_to => e.attributed_to->Some_0));
            }
            let j = enc_entity_ref_exec(r);
            push_member(out, "attributedTo", j, Ghost(base), Ghost(cur));
            proof {
                cur = cur + atpiece;
            }
        },
        None => {
            proof {
                assert(cur + atpiece =~= cur);
                cur = cur + atpiece;
            }
        },
    }
    let ghost rpiece: Seq<(Seq<char>, JsonV)> = match view_entity(*e).in_reply_to {
        Some(r) => seq![("inReplyTo"@, enc_entity_ref(r))],
        None => Seq::empty(),
    };
    match &e.in_reply_to {
        Some(r) => {
            proof {
                assert(decreases_to!(*e => e.in_reply_to));
                assert(decreases_to!(e.in_reply_to => e.in_reply_to->Some_0));
            }
            let j = enc_entity_ref_exec(r);
            push_member(out, "inReplyTo", j, Ghost(base), Ghost(cur));
            proof {
                cur = cur + rpiece;
            }
        },
        None => {
            proof {
                assert(cur + rpiece =~= cur);
                cur = cur + rpiece;
            }
        },
    }
    let ghost topiece: Seq<(Seq<char>, JsonV)> = match view_entity(*e).to {
        Some(r) => seq![("to"@, enc_entity_refs(r))],
        None => Seq::empty(),
    };
    match &e.to {
        Some(r) => {
            proof {
                assert(decreases_to!(*e => e.to));
                assert(decreases_to!(e.to => e.to->Some_0));
            }
            let j = enc_entity_refs_exec(r);
            push_member(out, "to", j, Ghost(base), Ghost(cur));
            proof {
                cur = cur + topiece;
            }
        },
        None => {
            proof {
                assert(cur + topiece =~= cur);
                cur = cur + topiece;
            }
        },
    }
    let ghost ccpiece: Seq<(Seq<char>, JsonV)> = match view_entity(*e).cc {
        Some(r) => seq![("cc"@, enc_entity_refs(r))],
        None => Seq::empty(),
    };
    match &e.cc {
        Some(r) => {
            proof {
                assert(decreases_to!(*e => e.cc));
                assert(decreases_to!(e.cc => e.cc->Some_0));
            }
            let j = enc_entity_refs_exec(r);
            push_member(out, "cc", j, Ghost(base), Ghost(cur));
            proof {
                cur = cur + ccpiece;
            }
        },
        None => {
            proof {
                assert(cur + ccpiece =~= cur);
                cur = cur + ccpiece;
            }
        },
    }
    let ghost btopiece: Seq<(Seq<char>, JsonV)> = match view_entity(*e).bto {
        Some(r) => seq![("bto"@, enc_entity_refs(r))],
        None => Seq::empty(),
    };
    match &e.bto {
        Some(r) => {
            proof {
                assert(decreases_to!(*e => e.bto));
                assert(decreases_to!(e.bto => e.bto->Some_0));
            }
            let j = enc_entity_refs_exec(r);
            push_member(out, "bto", j, Ghost(base), Ghost(cur));
            proof {
                cur = cur + btopiece;
            }
        },
        None => {
            proof {
                assert(cur + btopiece =~= cur);
                cur = cur + btopiece;
            }
        },
    }
    let ghost bccpiece: Seq<(Seq<char>, JsonV)> = match view_entity(*e).bcc {
        Some(r) => seq![("bcc"@, enc_entity_refs(r))],
        None => Seq::empty(),
    };
    match &e.bcc {
        Some(r) => {
            proof {
                assert(decreases_to!(*e => e.bcc));
                assert(decreases_to!(e.bcc => e.bcc->Some_0));
            }
            let j = enc_entity_refs_exec(r);
            push_member(out, "bcc", j, Ghost(base), Ghost(cur));
            proof {
                cur = cur + bccpiece;
            }
        },
        None => {
            proof {
                assert(cur + bccpiece =~= cur);
                cur = cur + bccpiece;
            }
        },
    }
    let ghost reppiece: Seq<(Seq<char>, JsonV)> = match view_entity(*e).replies {
        Some(c) => seq![("replies"@, JsonV::Obj(enc_collection_members(*c)))],
        None => Seq::empty(),
    };
    match &e.replies {
        Some(c) => {
            proof {
                assert(decreases_to!(*e => e.replies));
                assert(decreases_to!(e.replies => e.replies->Some_0));
            }
            let mut inner: Vec<(String, Json)> = Vec::new();
            proof {
                assert(crate::json::view_members(inner@) =~= Seq::<(Seq<char>, JsonV)>::empty());
            }
            enc_collection_members_exec(c, &mut inner);
            proof {
                assert(crate::json::view_members(inner@) =~= enc_collection_members(
                    view_collection(**c),
                ));
            }
            push_member(out, "replies", Json::Obj(inner), Ghost(base), Ghost(cur));
            proof {
                cur = cur + reppiece;
            }
        },
        None => {
            proof {
                assert(cur + reppiece =~= cur);
                cur = cur + reppiece;
            }
        },
    }
    proof {
        assert(cur == enc_entity_members(view_entity(*e)));
    }
}

/// Appends the members of one collection to `out`.
#[verifier::rlimit(100)]
#[verifier::spinoff_prover]
fn enc_collection_members_exec(c: &Collection, out: &mut Vec<(String, Json)>)
    ensures
        crate::json::view_members(final(out)@) == crate::json::view_members(old(out)@)
            + enc_collection_members(view_collection(*c)),
    decreases c,
{
    let ghost base = crate::json::view_members(out@);
    let ghost mut cur: Seq<(Seq<char>, JsonV)> = Seq::empty();
    proof {
        assert(base + cur =~= base);
    }
    push_member(
        out,
        "type",
        Json::Str(collection_type_text(c.type_field).to_owned()),
        Ghost(base),
        Ghost(cur),
    );
    proof {
        assert(cur + seq![("type"@, JsonV::Str(spec_collection_type_str(c.type_field)))] =~= m_one(
            "type"@,
            JsonV::Str(spec_collection_type_str(c.type_field)),
        ));
        cur = m_one("type"@, JsonV::Str(spec_collection_type_str(c.type_field)));
    }
    proof {
        assert(decreases_to!(*c => c.extends_object));
    }
    enc_entity_members_exec(&c.extends_object, out);
    proof {
        assert((base + cur) + enc_entity_members(view_entity(c.extends_object)) =~= base + (cur
            + enc_entity_members(view_entity(c.extends_object))));
        cur = cur + enc_entity_members(view_collection(*c).extends_object);
    }
    push_member(out, "totalItems", Json::Int(c.total_items as u64), Ghost(base), Ghost(cur));
    proof {
        cur = cur + m_one("totalItems"@, JsonV::Int(view_collection(*c).total_items as u64));
    }
    match &c.first {
        Some(i) => {
            push_member(out, "first", Json::Str(i.value.clone()), Ghost(base), Ghost(cur));
            proof {
                cur = cur + m_opt_iri("first"@, view_collection(*c).first);
            }
        },
        None => {
            proof {
                assert(cur + m_opt_iri("first"@, view_collection(*c).first) =~= cur);
                cur = cur + m_opt_iri("first"@, view_collection(*c).first);
            }
        },
    }
    match &c.last {
        Some(i) => {
            push_member(out, "last", Json::Str(i.value.clone()), Ghost(base), Ghost(cur));
            proof {
                cur = cur + m_opt_iri("last"@, view_collection(*c).last);
            }
        },
        None => {
            proof {
                assert(cur + m_opt_iri("last"@, view_collection(*c).last) =~= cur);
                cur = cur + m_opt_iri("last"@, view_collection(*c).last);
            }
        },
    }
    match &c.next {
        Some(i) => {
            push_member(out, "next", Json::Str(i.value.clone()), Ghost(base), Ghost(cur));
            proof {
                cur = cur + m_opt_iri("next"@, view_collection(*c).next);
            }
        },
        None => {
            proof {
                assert(cur + m_opt_iri("next"@, view_collection(*c).next) =~= cur);
                cur = cur + m_opt_iri("next"@, view_collection(*c).next);
            }
        },
    }
    match &c.prev {
        Some(i) => {
            push_member(out, "prev", Json::Str(i.value.clone()), Ghost(base), Ghost(cur));
            proof {
                cur = cur + m_opt_iri("prev"@, view_collection(*c).prev);
            }
        },
        None => {
            proof {
                assert(cur + m_opt_iri("prev"@, view_collection(*c).prev) =~= cur);
                cur = cur + m_opt_iri("prev"@, view_collection(*c).prev);
            }
        },
    }
    match &c.part_of {
        Some(i) => {
            push_member(out, "partOf", Json::Str(i.value.clone()), Ghost(base), Ghost(cur));
            proof {
                cur = cur + m_opt_iri("partOf"@, view_collection(*c).part_of);
            }
        },
        None => {
            proof {
                assert(cur + m_opt_iri("partOf"@, view_collection(*c).part_of) =~= cur);
                cur = cur + m_opt_iri("partOf"@, view_collection(*c).part_of);
            }
        },
    }
    proof {
        assert(cur == enc_collection_members(view_collection(*c)));
    }
}

fn enc_public_key_exec(k: &PublicKey) -> (r: Json)
    ensures
        r@ == enc_public_key(k@),
{
    let mut out: Vec<(String, Json)> = Vec::new();
    let ghost base = crate::json::view_members(out@);
    let ghost mut cur: Seq<(Seq<char>, JsonV)> = Seq::empty();
    proof {
        assert(crate::json::view_members(out@) =~= Seq::<(Seq<char>, JsonV)>::empty());
        assert(base + cur =~= base);
    }
    push_member(&mut out, "id", Json::Str(k.id.clone()), Ghost(base), Ghost(cur));
    proof {
        assert(cur + seq![("id"@, JsonV::Str(k.id@))] =~= m_one("id"@, JsonV::Str(k.id@)));
        cur = m_one("id"@, JsonV::Str(k.id@));
    }
    push_member(&mut out, "owner", Json::Str(k.owner.clone()), Ghost(base), Ghost(cur));
    proof {
        cur = cur + m_one("owner"@, JsonV::Str(k.owner@));
    }
    push_member(
        &mut out,
        "publicKeyPem",
        Json::Str(k.public_key_pem.clone()),
        Ghost(base),
        Ghost(cur),
    );
    proof {
        cur = cur + m_one("publicKeyPem"@, JsonV::Str(k.public_key_pem@));
        assert(base + cur =~= cur);
    }
    Json::Obj(out)
}

/// Appends the members of one actor to `out`.
fn enc_actor_members_exec(a: &Actor, out: &mut Vec<(String, Json)>)
    ensures
        crate::json::view_members(final(out)@) == crate::json::view_members(old(out)@)
            + enc_actor_members(view_actor(*a)),
{
    let ghost base = crate::json::view_members(out@);
    let ghost mut cur: Seq<(Seq<char>, JsonV)> = Seq::empty();
    proof {
        assert(base + cur =~= base);
    }
    push_member(
        out,
        "type",
        Json::Str(actor_type_text(a.type_field).to_owned()),
        Ghost(base),
        Ghost(cur),
    );
    proof {
        assert(cur + seq![("type"@, JsonV::Str(spec_actor_type_str(a.type_field)))] =~= m_one(
            "type"@,
            JsonV::Str(spec_actor_type_str(a.type_field)),
        ));
        cur = m_one("type"@, JsonV::Str(spec_actor_type_str(a.type_field)));
    }
    enc_entity_members_exec(&a.extends_object, out);
    proof {
        assert((base + cur) + enc_entity_members(view_entity(a.extends_object)) =~= base + (cur
            + enc_entity_members(view_entity(a.extends_object))));
        cur = cur + enc_entity_members(view_actor(*a).extends_object);
    }
    match &a.preferred_username {
        Some(s) => {
            push_member(out, "preferredUsername", Json::Str(s.clone()), Ghost(base), Ghost(cur));
            proof {
                cur = cur + m_opt_str("preferredUsername"@, view_actor(*a).preferred_username);
            }
        },
        None => {
            proof {
                assert(cur + m_opt_str("preferredUsername"@, view_actor(*a).preferred_username)
                    =~= cur);
                cur = cur + m_opt_str("preferredUsername"@, view_actor(*a).preferred_username);
            }
        },
    }
    let j = enc_public_key_exec(&a.public_key);
    push_member(out, "publicKey", j, Ghost(base), Ghost(cur));
    proof {
        cur = cur + m_one("publicKey"@, enc_public_key(view_actor(*a).public_key));
    }
    push_member(out, "inbox", Json::Str(a.inbox.value.clone()), Ghost(base), Ghost(cur));
    proof {
        cur = cur + m_one("inbox"@, JsonV::Str(view_actor(*a).inbox.value));
    }
    push_member(out, "outbox", Json::Str(a.outbox.value.clone()), Ghost(base), Ghost(cur));
    proof {
        cur = cur + m_one("outbox"@, JsonV::Str(view_actor(*a).outbox.value));
    }
    push_member(out, "followers", Json::Str(a.followers.value.clone()), Ghost(base), Ghost(cur));
    proof {
        cur = cur + m_one("followers"@, JsonV::Str(view_actor(*a).followers.value));
    }
    push_member(out, "following", Json::Str(a.following.value.clone()), Ghost(base), Ghost(cur));
    proof {
        cur = cur + m_one("following"@, JsonV::Str(view_actor(*a).following.value));
        assert(cur == enc_actor_members(view_actor(*a)));
    }
}

/// Appends the members of one activity to `out`.
#[verifier::rlimit(100)]
#[verifier::spinoff_prover]
fn enc_activity_members_exec(a: &Activity, out: &mut Vec<(String, Json)>)
    ensures
        crate::json::view_members(final(out)@) == crate::json::view_members(old(out)@)
            + enc_activity_members(view_activity(*a)),
{
    let ghost base = crate::json::view_members(out@);
    let ghost mut cur: Seq<(Seq<char>, JsonV)> = Seq::empty();
    proof {
        assert(base + cur =~= base);
    }
    push_member(
        out,
        "type",
        Json::Str(activity_type_text(a.type_field).to_owned()),
        Ghost(base),
        Ghost(cur),
    );
    proof {
        assert(cur + seq![("type"@, JsonV::Str(spec_activity_type_str(a.type_field)))] =~= m_one(
            "type"@,
            JsonV::Str(spec_activity_type_str(a.type_field)),
        ));
        cur = m_one("type"@, JsonV::Str(spec_activity_type_str(a.type_field)));
    }
    enc_entity_members_exec(&a.extends_object, out);
    proof {
        assert((base + cur) + enc_entity_members(view_entity(a.extends_object)) =~= base + (cur
            + enc_entity_members(view_entity(a.extends_object))));
        cur = cur + enc_entity_members(view_activity(*a).extends_object);
    }
    let ghost acpiece: Seq<(Seq<char>, JsonV)> = match view_activity(*a).actor {
        Some(r) => seq![("actor"@, enc_entity_ref(r))],
        None => Seq::empty(),
    };
    match &a.actor {
        Some(r) => {
            let j = enc_entity_ref_exec(r);
            push_member(out, "actor", j, Ghost(base), Ghost(cur));
            proof {
                cur = cur + acpiece;
            }
        },
        None => {
            proof {
                assert(cur + acpiece =~= cur);
                cur = cur + acpiece;
            }
        },
    }
    let ghost obpiece: Seq<(Seq<char>, JsonV)> = match view_activity(*a).object {
        Some(r) => seq![("object"@, enc_entity_ref(r))],
        None => Seq::empty(),
    };
    match &a.object {
        Some(r) => {
            let j = enc_entity_ref_exec(r);
            push_member(out, "object", j, Ghost(base), Ghost(cur));
            proof {
                cur = cur + obpiece;
            }
        },
        None => {
            proof {
                assert(cur + obpiece =~= cur);
                cur = cur + obpiece;
            }
        },
    }
    proof {
        assert(cur == enc_activity_members(view_activity(*a)));
    }
}

/// Appends the members of one intransitive activity to `out`.
fn enc_intransitive_members_exec(a: &IntransitiveActivity, out: &mut Vec<(String, Json)>)
    ensures
        crate::json::view_members(final(out)@) == crate::json::view_members(old(out)@)
            + enc_intransitive_members(view_intransitive(*a)),
{
    let ghost base = crate::json::view_members(out@);
    let ghost mut cur: Seq<(Seq<char>, JsonV)> = Seq::empty();
    proof {
        assert(base + cur =~= base);
    }
    push_member(
        out,
        "type",
        Json::Str(intransitive_type_text(a.type_field).to_owned()),
        Ghost(base),
        Ghost(cur),
    );
    proof {
        assert(cur + seq![("type"@, JsonV::Str(spec_intransitive_type_str(a.type_field)))]
            =~= m_one("type"@, JsonV::Str(spec_intransitive_type_str(a.type_field))));
        cur = m_one("type"@, JsonV::Str(spec_intransitive_type_str(a.type_field)));
    }
    enc_entity_members_exec(&a.extends_object, out);
    proof {
        assert((base + cur) + enc_entity_members(view_entity(a.extends_object)) =~= base + (cur
            + enc_entity_members(view_entity(a.extends_object))));
        cur = cur + enc_entity_members(view_intransitive(*a).extends_object);
    }
    let ghost acpiece: Seq<(Seq<char>, JsonV)> = match view_intransitive(*a).actor {
        Some(r) => seq![("actor"@, enc_entity_ref(r))],
        None => Seq::empty(),
    };
    match &a.actor {
        Some(r) => {
            let j = enc_entity_ref_exec(r);
            push_member(out, "actor", j, Ghost(base), Ghost(cur));
            proof {
                cur = cur + acpiece;
            }
        },
        None => {
            proof {
                assert(cur + acpiece =~= cur);
                cur = cur + acpiece;
            }
        },
    }
    proof {
        assert(cur == enc_intransitive_members(view_intransitive(*a)));
    }
}

fn enc_context_exec(c: &Context) -> (r: Json)
    ensures
        r@ == enc_context(c@),
{
    match c {
        Context::Single(s) => Json::Str(s.clone()),
        Context::Array(v) => {
            let n = v.len();
            let mut items: Vec<Json> = Vec::new();
            let mut i: usize = 0;
            proof {
                assert(crate::json::view_items(items@) =~= Seq::<JsonV>::empty());
            }
            while i < n
                invariant
                    0 <= i <= n,
                    n == v@.len(),
                    crate::json::view_items(items@) == enc_context_strings(
                        v.deep_view().take(i as int),
                    ),
                decreases n - i,
            {
                let j = Json::Str(v[i].clone());
                let ghost before = items@;
                items.push(j);
                proof {
                    crate::json::lemma_view_items_push(before, j);
                    lemma_enc_context_strings_snoc(v.deep_view(), i as int);
                    assert(v.deep_view()[i as int] == v@[i as int]@);
                }
                i += 1;
            }
            proof {
                assert(v.deep_view().take(n as int) =~= v.deep_view());
            }
            Json::Arr(items)
        },
    }
}

proof fn lemma_enc_context_strings_snoc(v: Seq<Seq<char>>, i: int)
    requires
        0 <= i < v.len(),
    ensures
        enc_context_strings(v.take(i + 1)) == enc_context_strings(v.take(i)) + seq![
            JsonV::Str(v[i]),
        ],
    decreases i,
{
    if i == 0 {
        assert(v.take(1).len() == 1);
        assert(v.take(1)[0] == v[0]);
        assert(v.take(1).drop_first() =~= Seq::<Seq<char>>::empty());
        assert(v.take(0) =~= Seq::<Seq<char>>::empty());
        assert(enc_context_strings(Seq::<Seq<char>>::empty()) == Seq::<JsonV>::empty());
        assert(enc_context_strings(v.take(1).drop_first()) == Seq::<JsonV>::empty());
        assert(enc_context_strings(v.take(1)) =~= enc_context_strings(v.take(0)) + seq![
            JsonV::Str(v[0]),
        ]);
    } else {
        let t = v.drop_first();
        assert(v.take(i + 1)[0] == v[0]);
        assert(v.take(i + 1).drop_first() =~= t.take(i));
        assert(v.take(i).drop_first() =~= t.take(i - 1));
        assert(v.take(i)[0] == v[0]);
        lemma_enc_context_strings_snoc(t, i - 1);
        assert(t[i - 1] == v[i]);
        assert(enc_context_strings(v.take(i + 1)) =~= enc_context_strings(v.take(i)) + seq![
            JsonV::Str(v[i]),
        ]);
    }
}

// ----------------------------------------------------------- decode: exec

/// The value of an optional borrowed JSON member.
pub open spec fn opt_view(o: Option<&Json>) -> Option<JsonV> {
    match o {
        Some(v) => Some(v@),
        None => None,
    }
}

fn dec_iri_exec(v: &Json) -> (r: Result<Iri, DecodeError>)
    ensures
        dec_iri(v@) == (match r {
            Ok(i) => Ok::<IriV, DecodeError>(i@),
            Err(e) => Err(e),
        }),
        r matches Ok(i) ==> i@.wf(),
{
    match v {
        Json::Str(s) => match Iri::parse(s.as_str()) {
            Some(i) => Ok(i),
            None => Err(DecodeError::ShapeMismatch),
        },
        _ => Err(DecodeError::ShapeMismatch),
    }
}

fn dec_opt_str_exec(o: Option<&Json>) -> (r: Result<Option<String>, DecodeError>)
    ensures
        dec_opt_str(opt_view(o)) == (match r {
            Ok(Some(s)) => Ok::<Option<Seq<char>>, DecodeError>(Some(s@)),
            Ok(None) => Ok(None),
            Err(e) => Err(e),
        }),
{
    match o {
        None => Ok(None),
        Some(Json::Str(s)) => Ok(Some(s.clone())),
        Some(_) => Err(DecodeError::ShapeMismatch),
    }
}

fn dec_opt_iri_exec(o: Option<&Json>) -> (r: Result<Option<Iri>, DecodeError>)
    ensures
        dec_opt_iri(opt_view(o)) == (match r {
            Ok(Some(i)) => Ok::<Option<IriV>, DecodeError>(Some(i@)),
            Ok(None) => Ok(None),
            Err(e) => Err(e),
        }),
{
    match o {
        None => Ok(None),
        Some(v) => match dec_iri_exec(v) {
            Ok(i) => Ok(Some(i)),
            Err(e) => Err(e),
        },
    }
}

fn dec_opt_u32_exec(o: Option<&Json>) -> (r: Result<Option<u32>, DecodeError>)
    ensures
        dec_opt_u32(opt_view(o)) == (match r {
            Ok(v) => Ok::<Option<u32>, DecodeError>(v),
            Err(e) => Err(e),
        }),
{
    match o {
        None => Ok(None),
        Some(Json::Int(n)) => {
            if *n <= u32::MAX as u64 {
                Ok(Some(*n as u32))
            } else {
                Err(DecodeError::ShapeMismatch)
            }
        },
        Some(_) => Err(DecodeError::ShapeMismatch),
    }
}

fn dec_media_type_exec(o: Option<&Json>) -> (r: Result<Option<MediaType>, DecodeError>)
    ensures
        dec_media_type(opt_view(o)) == (match r {
            Ok(v) => Ok::<Option<MediaType>, DecodeError>(v),
            Err(e) => Err(e),
        }),
{
    match o {
        None => Ok(None),
        Some(Json::Str(s)) => {
            if crate::util::str_eq(s.as_str(), "text/html") {
                Ok(Some(MediaType::Html))
            } else if crate::util::str_eq(s.as_str(), "text/markdown") {
                Ok(Some(MediaType::Markdown))
            } else {
                Err(DecodeError::ShapeMismatch)
            }
        },
        Some(_) => Err(DecodeError::ShapeMismatch),
    }
}

fn dec_link_desc_exec(j: &Json) -> (r: Result<LinkDesc, DecodeError>)
    requires
        j@ is Obj,
    ensures
        dec_link_desc(j@->Obj_0) == (match r {
            Ok(d) => Ok::<LinkDescV, DecodeError>(view_link_desc(d)),
            Err(e) => Err(e),
        }),
{
    let href = match j.get("href") {
        None => {
            return Err(DecodeError::MissingId);
        },
        Some(hv) => match dec_iri_exec(hv) {
            Ok(i) => i,
            Err(e) => {
                return Err(e);
            },
        },
    };
    let media_type = match dec_opt_str_exec(j.get("mediaType")) {
        Ok(v) => v,
        Err(e) => {
            return Err(e);
        },
    };
    let name = match dec_opt_str_exec(j.get("name")) {
        Ok(v) => v,
        Err(e) => {
            return Err(e);
        },
    };
    let height = match dec_opt_u32_exec(j.get("height")) {
        Ok(v) => v,
        Err(e) => {
            return Err(e);
        },
    };
    let width = match dec_opt_u32_exec(j.get("width")) {
        Ok(v) => v,
        Err(e) => {
            return Err(e);
        },
    };
    Ok(LinkDesc { href, media_type, name, height, width })
}

fn dec_link_ref_exec(v: &Json) -> (r: Result<LinkRef, DecodeError>)
    ensures
        dec_link_ref(v@) == (match r {
            Ok(l) => Ok::<LinkRefV, DecodeError>(view_link_ref(l)),
            Err(e) => Err(e),
        }),
{
    match v {
        Json::Obj(_) => match dec_link_desc_exec(v) {
            Ok(d) => Ok(LinkRef::Expanded(d)),
            Err(e) => Err(e),
        },
        Json::Str(_) => match dec_iri_exec(v) {
            Ok(i) => Ok(LinkRef::Id(i)),
            Err(e) => Err(e),
        },
        _ => Err(DecodeError::ShapeMismatch),
    }
}

fn dec_link_ref_list(items: &Vec<Json>, i: usize) -> (r: Result<Vec<LinkRef>, DecodeError>)
    requires
        i <= items@.len(),
    ensures
        dec_link_ref_seq(crate::json::view_items(items@).skip(i as int)) == (match r {
            Ok(v) => Ok::<Seq<LinkRefV>, DecodeError>(view_link_ref_seq(v@)),
            Err(e) => Err(e),
        }),
    decreases items@.len() - i,
{
    proof {
        crate::json::lemma_view_items_props(items@);
    }
    let ghost vi = crate::json::view_items(items@);
    if i == items.len() {
        let r: Vec<LinkRef> = Vec::new();
        proof {
            assert(vi.skip(i as int) =~= Seq::<JsonV>::empty());
            assert(view_link_ref_seq(r@) =~= Seq::<LinkRefV>::empty());
        }
        Ok(r)
    } else {
        let first = match dec_link_ref_exec(&items[i]) {
            Ok(l) => l,
            Err(e) => {
                proof {
                    assert(vi.skip(i as int)[0] == vi[i as int]);
                }
                return Err(e);
            },
        };
        match dec_link_ref_list(items, i + 1) {
            Ok(mut rest) => {
                let ghost rest0 = rest@;
                let mut out: Vec<LinkRef> = Vec::new();
                out.push(first);
                out.append(&mut rest);
                proof {
                    assert(vi.skip(i as int)[0] == vi[i as int]);
                    assert(vi.skip(i as int).drop_first() =~= vi.skip(i + 1));
                    assert(out@ =~= seq![first] + rest0);
                    lemma_view_link_ref_seq_cons(first, rest0);
                }
                Ok(out)
            },
            Err(e) => {
                proof {
                    assert(vi.skip(i as int)[0] == vi[i as int]);
                    assert(vi.skip(i as int).drop_first() =~= vi.skip(i + 1));
                }
                Err(e)
            },
        }
    }
}

proof fn lemma_view_link_ref_seq_cons(x: LinkRef, rest: Seq<LinkRef>)
    ensures
        view_link_ref_seq(seq![x] + rest) == seq![view_link_ref(x)] + view_link_ref_seq(rest),
{
    assert((seq![x] + rest)[0] == x);
    assert((seq![x] + rest).drop_first() =~= rest);
}

fn dec_link_refs_exec(o: Option<&Json>) -> (r: Result<Option<LinkRefs>, DecodeError>)
    ensures
        dec_link_refs(opt_view(o)) == (match r {
            Ok(Some(l)) => Ok::<Option<LinkRefsV>, DecodeError>(Some(view_link_refs(l))),
            Ok(None) => Ok(None),
            Err(e) => Err(e),
        }),
{
    match o {
        None => Ok(None),
        Some(v) => match v {
            Json::Arr(items) => match dec_link_ref_list(items, 0) {
                Ok(ls) => {
                    proof {
                        assert(crate::json::view_items(items@).skip(0) =~= crate::json::view_items(
                            items@,
                        ));
                    }
                    Ok(Some(LinkRefs::Many(ls)))
                },
                Err(e) => {
                    proof {
                        assert(crate::json::view_items(items@).skip(0) =~= crate::json::view_items(
                            items@,
                        ));
                    }
                    Err(e)
                },
            },
            _ => match dec_link_ref_exec(v) {
                Ok(l) => Ok(Some(LinkRefs::One(l))),
                Err(e) => Err(e),
            },
        },
    }
}

fn dec_public_key_exec(o: Option<&Json>) -> (r: Result<PublicKey, DecodeError>)
    ensures
        dec_public_key(opt_view(o)) == (match r {
            Ok(k) => Ok::<PublicKeyV, DecodeError>(k@),
            Err(e) => Err(e),
        }),
{
    match o {
        Some(j) => match j {
            Json::Obj(_) => {
                let id = match dec_opt_str_exec(j.get("id")) {
                    Ok(Some(s)) => s,
                    _ => {
                        return Err(DecodeError::ShapeMismatch);
                    },
                };
                let owner = match dec_opt_str_exec(j.get("owner")) {
                    Ok(Some(s)) => s,
                    _ => {
                        return Err(DecodeError::ShapeMismatch);
                    },
                };
                let pem = match dec_opt_str_exec(j.get("publicKeyPem")) {
                    Ok(Some(s)) => s,
                    _ => {
                        return Err(DecodeError::ShapeMismatch);
                    },
                };
                Ok(PublicKey { id, owner, public_key_pem: pem })
            },
            _ => Err(DecodeError::ShapeMismatch),
        },
        None => Err(DecodeError::ShapeMismatch),
    }
}

fn dec_entity_ref_exec(v: &Json) -> (r: Result<EntityRef, DecodeError>)
    ensures
        dec_entity_ref(v@) == (match r {
            Ok(er) => Ok::<EntityRefV, DecodeError>(view_entity_ref(er)),
            Err(e) => Err(e),
        }),
    decreases v, 1int, 0int,
{
    proof {
        reveal(dec_entity);
    }
    match v {
        Json::Obj(_) => {
            proof {
                assert(v@ is Obj);
            }
            match dec_entity_exec(v) {
                Ok(e) => Ok(EntityRef::Embedded(Box::new(e))),
                Err(e) => Err(e),
            }
        },
        Json::Str(_) => match dec_iri_exec(v) {
            Ok(i) => Ok(EntityRef::Id(i)),
            Err(e) => Err(e),
        },
        _ => Err(DecodeError::ShapeMismatch),
    }
}

fn dec_entity_ref_list(items: &Vec<Json>, i: usize) -> (r: Result<Vec<EntityRef>, DecodeError>)
    requires
        i <= items@.len(),
    ensures
        dec_entity_ref_seq(crate::json::view_items(items@).skip(i as int)) == (match r {
            Ok(v) => Ok::<Seq<EntityRefV>, DecodeError>(view_entity_ref_seq(v@)),
            Err(e) => Err(e),
        }),
    decreases *items, 0int, items@.len() - i,
{
    proof {
        crate::json::lemma_view_items_props(items@);
    }
    let ghost vi = crate::json::view_items(items@);
    if i == items.len() {
        let r: Vec<EntityRef> = Vec::new();
        proof {
            assert(vi.skip(i as int) =~= Seq::<JsonV>::empty());
            assert(view_entity_ref_seq(r@) =~= Seq::<EntityRefV>::empty());
        }
        Ok(r)
    } else {
        proof {
            assert(decreases_to!(*items => items@[i as int]));
        }
        let first = match dec_entity_ref_exec(&items[i]) {
            Ok(l) => l,
            Err(e) => {
                proof {
                    assert(vi.skip(i as int)[0] == vi[i as int]);
                }
                return Err(e);
            },
        };
        match dec_entity_ref_list(items, i + 1) {
            Ok(mut rest) => {
                let ghost rest0 = rest@;
                let mut out: Vec<EntityRef> = Vec::new();
                out.push(first);
                out.append(&mut rest);
                proof {
                    assert(vi.skip(i as int)[0] == vi[i as int]);
                    assert(vi.skip(i as int).drop_first() =~= vi.skip(i + 1));
                    assert(out@ =~= seq![first] + rest0);
                    lemma_view_entity_ref_seq_cons(first, rest0);
                }
                Ok(out)
            },
            Err(e) => {
                proof {
                    assert(vi.skip(i as int)[0] == vi[i as int]);
                    assert(vi.skip(i as int).drop_first() =~= vi.skip(i + 1));
                }
                Err(e)
            },
        }
    }
}

proof fn lemma_view_entity_ref_seq_cons(x: EntityRef, rest: Seq<EntityRef>)
    ensures
        view_entity_ref_seq(seq![x] + rest) == seq![view_entity_ref(x)] + view_entity_ref_seq(
            rest,
        ),
{
    assert((seq![x] + rest)[0] == x);
    assert((seq![x] + rest).drop_first() =~= rest);
}

/// A one-or-many entity-reference member: an array keeps its shape.
fn dec_refs_val_exec(v: &Json) -> (r: Result<EntityRefs, DecodeError>)
    ensures
        dec_entity_refs_val(v@) == (match r {
            Ok(rs) => Ok::<EntityRefsV, DecodeError>(view_entity_refs(rs)),
            Err(e) => Err(e),
        }),
    decreases v, 2int, 0int,
{
    match v {
        Json::Arr(items) => {
            proof {
                assert(decreases_to!(*v => v->Arr_0));
            }
            match dec_entity_ref_list(items, 0) {
                Ok(rs) => {
                    proof {
                        assert(crate::json::view_items(items@).skip(0) =~= crate::json::view_items(
                            items@,
                        ));
                    }
                    Ok(EntityRefs::Many(rs))
                },
                Err(e) => {
                    proof {
                        assert(crate::json::view_items(items@).skip(0) =~= crate::json::view_items(
                            items@,
                        ));
                    }
                    Err(e)
                },
            }
        },
        _ => match dec_entity_ref_exec(v) {
            Ok(er) => Ok(EntityRefs::One(er)),
            Err(e) => Err(e),
        },
    }
}

/// A replies member must be an embedded collection object.
fn dec_replies_val_exec(v: &Json) -> (r: Result<Collection, DecodeError>)
    ensures
        dec_replies_val(v@) == (match r {
            Ok(c) => Ok::<Box<CollectionV>, DecodeError>(Box::new(view_collection(c))),
            Err(e) => Err(e),
        }),
    decreases v, 2int, 1int,
{
    match v {
        Json::Obj(_) => {
            let kind = match dec_opt_str_exec(v.get("type")) {
                Ok(Some(t)) => t,
                _ => {
                    return Err(DecodeError::ShapeMismatch);
                },
            };
            let ct = if crate::util::str_eq(kind.as_str(), "Collection") {
                CollectionType::Collection
            } else if crate::util::str_eq(kind.as_str(), "OrderedCollection") {
                CollectionType::OrderedCollection
            } else if crate::util::str_eq(kind.as_str(), "CollectionPage") {
                CollectionType::CollectionPage
            } else if crate::util::str_eq(kind.as_str(), "OrderedCollectionPage") {
                CollectionType::OrderedCollectionPage
            } else {
                return Err(DecodeError::ShapeMismatch);
            };
            proof {
                assert(spec_collection_type_of(kind@) == Some(ct));
            }
            match dec_collection_exec(v, ct) {
                Ok(c) => Ok(c),
                Err(e) => Err(e),
            }
        },
        _ => Err(DecodeError::ShapeMismatch),
    }
}

pub open spec fn opt_str_view(o: Option<String>) -> Option<Seq<char>> {
    match o {
        Some(s) => Some(s@),
        None => None,
    }
}

/// The identifier and plain members of an entity object.
#[verifier::rlimit(100)]
#[verifier::spinoff_prover]
fn dec_entity_simple(j: &Json) -> (r: Result<
    (Iri, Option<String>, Option<String>, Option<String>, Option<MediaType>, Option<String>, Option<
        String,
    >, Option<LinkRefs>),
    DecodeError,
>)
    requires
        j@ is Obj,
    ensures
        match r {
            Ok(t) => {
                &&& spec_obj_get(j@->Obj_0, "id"@) matches Some(idv) && dec_iri(idv) == Ok::<
                    IriV,
                    DecodeError,
                >(t.0@)
                &&& dec_opt_str(spec_obj_get(j@->Obj_0, "type"@)) == Ok::<
                    Option<Seq<char>>,
                    DecodeError,
                >(opt_str_view(t.1))
                &&& dec_opt_str(spec_obj_get(j@->Obj_0, "name"@)) == Ok::<
                    Option<Seq<char>>,
                    DecodeError,
                >(opt_str_view(t.2))
                &&& dec_opt_str(spec_obj_get(j@->Obj_0, "content"@)) == Ok::<
                    Option<Seq<char>>,
                    DecodeError,
                >(opt_str_view(t.3))
                &&& dec_media_type(spec_obj_get(j@->Obj_0, "mediaType"@)) == Ok::<
                    Option<MediaType>,
                    DecodeError,
                >(t.4)
                &&& dec_opt_str(spec_obj_get(j@->Obj_0, "published"@)) == Ok::<
                    Option<Seq<char>>,
                    DecodeError,
                >(opt_str_view(t.5))
                &&& dec_opt_str(spec_obj_get(j@->Obj_0, "updated"@)) == Ok::<
                    Option<Seq<char>>,
                    DecodeError,
                >(opt_str_view(t.6))
                &&& dec_link_refs(spec_obj_get(j@->Obj_0, "attachment"@)) == Ok::<
                    Option<LinkRefsV>,
                    DecodeError,
                >(match t.7 {
                    Some(l) => Some(view_link_refs(l)),
                    None => None,
                })
            },
            Err(e) => dec_entity(j@->Obj_0) == Err::<EntityV, DecodeError>(e),
        },
{
    proof {
        reveal(dec_entity);
    }
    let ghost ms = j@->Obj_0;
    let id = match j.get("id") {
        None => {
            return Err(DecodeError::MissingId);
        },
        Some(idv) => match dec_iri_exec(idv) {
            Ok(i) => i,
            Err(e) => {
                return Err(e);
            },
        },
    };
    let kind = match dec_opt_str_exec(j.get("type")) {
        Ok(v) => v,
        Err(e) => {
            return Err(e);
        },
    };
    let name = match dec_opt_str_exec(j.get("name")) {
        Ok(v) => v,
        Err(e) => {
            return Err(e);
        },
    };
    let content = match dec_opt_str_exec(j.get("content")) {
        Ok(v) => v,
        Err(e) => {
            return Err(e);
        },
    };
    let media_type = match dec_media_type_exec(j.get("mediaType")) {
        Ok(v) => v,
        Err(e) => {
            return Err(e);
        },
    };
    let published = match dec_opt_str_exec(j.get("published")) {
        Ok(v) => v,
        Err(e) => {
            return Err(e);
        },
    };
    let updated = match dec_opt_str_exec(j.get("updated")) {
        Ok(v) => v,
        Err(e) => {
            return Err(e);
        },
    };
    let attachment = match dec_link_refs_exec(j.get("attachment")) {
        Ok(v) => v,
        Err(e) => {
            return Err(e);
        },
    };
    Ok((id, kind, name, content, media_type, published, updated, attachment))
}

/// The generic entity fields, read from an object.
#[verifier::rlimit(100)]
#[verifier::spinoff_prover]
fn dec_entity_exec(j: &Json) -> (r: Result<Entity, DecodeError>)
    requires
        j@ is Obj,
    ensures
        dec_entity(j@->Obj_0) == (match r {
            Ok(e) => Ok::<EntityV, DecodeError>(view_entity(e)),
            Err(er) => Err(er),
        }),
    decreases j, 0int, 0int,
{
    proof {
        reveal(dec_entity);
    }
    let ghost ms = j@->Obj_0;
    let (id, kind, name, content, media_type, published, updated, attachment) = match
        dec_entity_simple(j) {
        Ok(t) => t,
        Err(e) => {
            return Err(e);
        },
    };
    let attributed_to = match j.get("attributedTo") {
        None => None,
        Some(vj) => match dec_entity_ref_exec(vj) {
            Ok(er) => Some(Box::new(er)),
            Err(e) => {
                return Err(e);
            },
        },
    };
    let in_reply_to = match j.get("inReplyTo") {
        None => None,
        Some(vj) => match dec_entity_ref_exec(vj) {
            Ok(er) => Some(Box::new(er)),
            Err(e) => {
                return Err(e);
            },
        },
    };
    let to = match j.get("to") {
        None => None,
        Some(vj) => match dec_refs_val_exec(vj) {
            Ok(rs) => Some(rs),
            Err(e) => {
                proof {
                    assert(dec_refs_field(ms, "to"@) == Err::<Option<EntityRefsV>, DecodeError>(
                        e,
                    ));
                }
                return Err(e);
            },
        },
    };
    proof {
        assert(dec_refs_field(ms, "to"@) == Ok::<Option<EntityRefsV>, DecodeError>(
            match to {
                Some(rs) => Some(view_entity_refs(rs)),
                None => None,
            },
        ));
    }
    let cc = match j.get("cc") {
        None => None,
        Some(vj) => match dec_refs_val_exec(vj) {
            Ok(rs) => Some(rs),
            Err(e) => {
                proof {
                    assert(dec_refs_field(ms, "cc"@) == Err::<Option<EntityRefsV>, DecodeError>(
                        e,
                    ));
                }
                return Err(e);
            },
        },
    };
    proof {
        assert(dec_refs_field(ms, "cc"@) == Ok::<Option<EntityRefsV>, DecodeError>(
            match cc {
                Some(rs) => Some(view_entity_refs(rs)),
                None => None,
            },
        ));
    }
    let bto = match j.get("bto") {
        None => None,
        Some(vj) => match dec_refs_val_exec(vj) {
            Ok(rs) => Some(rs),
            Err(e) => {
                proof {
                    assert(dec_refs_field(ms, "bto"@) == Err::<Option<EntityRefsV>, DecodeError>(
                        e,
                    ));
                }
                return Err(e);
            },
        },
    };
    proof {
        assert(dec_refs_field(ms, "bto"@) == Ok::<Option<EntityRefsV>, DecodeError>(
            match bto {
                Some(rs) => Some(view_entity_refs(rs)),
                None => None,
            },
        ));
    }
    let bcc = match j.get("bcc") {
        None => None,
        Some(vj) => match dec_refs_val_exec(vj) {
            Ok(rs) => Some(rs),
            Err(e) => {
                proof {
                    assert(dec_refs_field(ms, "bcc"@) == Err::<Option<EntityRefsV>, DecodeError>(
                        e,
                    ));
                }
                return Err(e);
            },
        },
    };
    proof {
        assert(dec_refs_field(ms, "bcc"@) == Ok::<Option<EntityRefsV>, DecodeError>(
            match bcc {
                Some(rs) => Some(view_entity_refs(rs)),
                None => None,
            },
        ));
    }
    let replies = match j.get("replies") {
        None => None,
        Some(vj) => match dec_replies_val_exec(vj) {
            Ok(c) => Some(Box::new(c)),
            Err(e) => {
                return Err(e);
            },
        },
    };
    let e = Entity {
        id,
        kind,
        name,
        content,
        media_type,
        published,
        updated,
        attachment,
        attributed_to,
        in_reply_to,
        to,
        cc,
        bto,
        bcc,
        replies,
    };
    Ok(e)
}

/// The collection fields, read from an object.
#[verifier::rlimit(100)]
#[verifier::spinoff_prover]
fn dec_collection_exec(j: &Json, t: CollectionType) -> (r: Result<Collection, DecodeError>)
    requires
        j@ is Obj,
    ensures
        dec_collection(j@->Obj_0, t) == (match r {
            Ok(c) => Ok::<CollectionV, DecodeError>(view_collection(c)),
            Err(er) => Err(er),
        }),
        r matches Ok(c) ==> c.type_field == t,
    decreases j, 1int, 1int,
{
    let base = match dec_entity_exec(j) {
        Ok(e) => e,
        Err(e) => {
            return Err(e);
        },
    };
    let total = match dec_opt_u32_exec(j.get("totalItems")) {
        Ok(v) => v,
        Err(e) => {
            return Err(e);
        },
    };
    let first = match dec_opt_iri_exec(j.get("first")) {
        Ok(v) => v,
        Err(e) => {
            return Err(e);
        },
    };
    let last = match dec_opt_iri_exec(j.get("last")) {
        Ok(v) => v,
        Err(e) => {
            return Err(e);
        },
    };
    let next = match dec_opt_iri_exec(j.get("next")) {
        Ok(v) => v,
        Err(e) => {
            return Err(e);
        },
    };
    let prev = match dec_opt_iri_exec(j.get("prev")) {
        Ok(v) => v,
        Err(e) => {
            return Err(e);
        },
    };
    let part_of = match dec_opt_iri_exec(j.get("partOf")) {
        Ok(v) => v,
        Err(e) => {
            return Err(e);
        },
    };
    let mut base = base;
    base.kind = None;
    let c = Collection {
        type_field: t,
        extends_object: base,
        total_items: match total {
            Some(n) => n,
            None => 0,
        },
        first,
        last,
        next,
        prev,
        part_of,
    };
    Ok(c)
}

/// The actor type named by `s`, if any.
fn actor_type_of_exec(s: &str) -> (r: Option<ActorType>)
    ensures
        r == spec_actor_type_of(s@),
{
    if crate::util::str_eq(s, "Actor") { Some(ActorType::Actor) }
    else if crate::util::str_eq(s, "Application") { Some(ActorType::Application) }
    else if crate::util::str_eq(s, "Group") { Some(ActorType::Group) }
    else if crate::util::str_eq(s, "Organization") { Some(ActorType::Organization) }
    else if crate::util::str_eq(s, "Person") { Some(ActorType::Person) }
    else if crate::util::str_eq(s, "Service") { Some(ActorType::Service) }
    else { None }
}

/// The activity type named by `s`, if any.
fn activity_type_of_exec(s: &str) -> (r: Option<ActivityType>)
    ensures
        r == spec_activity_type_of(s@),
{
    if crate::util::str_eq(s, "Activity") { Some(ActivityType::Activity) }
    else if crate::util::str_eq(s, "Accept") { Some(ActivityType::Accept) }
    else if crate::util::str_eq(s, "TentativeAccept") { Some(ActivityType::TentativeAccept) }
    else if crate::util::str_eq(s, "Add") { Some(ActivityType::Add) }
    else if crate::util::str_eq(s, "Create") { Some(ActivityType::Create) }
    else if crate::util::str_eq(s, "Delete") { Some(ActivityType::Delete) }
    else if crate::util::str_eq(s, "Follow") { Some(ActivityType::Follow) }
    else if crate::util::str_eq(s, "Ignore") { Some(ActivityType::Ignore) }
    else if crate::util::str_eq(s, "Join") { Some(ActivityType::Join) }
    else if crate::util::str_eq(s, "Leave") { Some(ActivityType::Leave) }
    else if crate::util::str_eq(s, "Like") { Some(ActivityType::Like) }
    else if crate::util::str_eq(s, "Offer") { Some(ActivityType::Offer) }
    else if crate::util::str_eq(s, "Invite") { Some(ActivityType::Invite) }
    else if crate::util::str_eq(s, "Reject") { Some(ActivityType::Reject) }
    else if crate::util::str_eq(s, "TentativeReject") { Some(ActivityType::TentativeReject) }
    else if crate::util::str_eq(s, "Remove") { Some(ActivityType::Remove) }
    else if crate::util::str_eq(s, "Undo") { Some(ActivityType::Undo) }
    else if crate::util::str_eq(s, "Update") { Some(ActivityType::Update) }
    else if crate::util::str_eq(s, "View") { Some(ActivityType::View) }
    else if crate::util::str_eq(s, "Listen") { Some(ActivityType::Listen) }
    else if crate::util::str_eq(s, "Read") { Some(ActivityType::Read) }
    else if crate::util::str_eq(s, "Move") { Some(ActivityType::Move) }
    else if crate::util::str_eq(s, "Announce") { Some(ActivityType::Announce) }
    else if crate::util::str_eq(s, "Block") { Some(ActivityType::Block) }
    else if crate::util::str_eq(s, "Flag") { Some(ActivityType::Flag) }
    else if crate::util::str_eq(s, "Dislike") { Some(ActivityType::Dislike) }
    else { None }
}

/// The intransitive type named by `s`, if any.
fn intransitive_type_of_exec(s: &str) -> (r: Option<IntransitiveType>)
    ensures
        r == spec_intransitive_type_of(s@),
{
    if crate::util::str_eq(s, "IntransitiveActivity") {
        Some(IntransitiveType::IntransitiveActivity)
    } else if crate::util::str_eq(s, "Arrive") { Some(IntransitiveType::Arrive) }
    else if crate::util::str_eq(s, "Travel") { Some(IntransitiveType::Travel) }
    else { None }
}

/// The collection type named by `s`, if any.
fn collection_type_of_exec(s: &str) -> (r: Option<CollectionType>)
    ensures
        r == spec_collection_type_of(s@),
{
    if crate::util::str_eq(s, "Collection") { Some(CollectionType::Collection) }
    else if crate::util::str_eq(s, "OrderedCollection") { Some(CollectionType::OrderedCollection) }
    else if crate::util::str_eq(s, "CollectionPage") { Some(CollectionType::CollectionPage) }
    else if crate::util::str_eq(s, "OrderedCollectionPage") {
        Some(CollectionType::OrderedCollectionPage)
    } else { None }
}

/// The actor fields, read from an object.
#[verifier::rlimit(100)]
#[verifier::spinoff_prover]
fn dec_actor_exec(j: &Json, t: ActorType) -> (r: Result<Actor, DecodeError>)
    requires
        j@ is Obj,
    ensures
        dec_actor(j@->Obj_0, t) == (match r {
            Ok(a) => Ok::<ActorV, DecodeError>(view_actor(a)),
            Err(er) => Err(er),
        }),
        r matches Ok(a) ==> a.type_field == t,
{
    let mut base = match dec_entity_exec(j) {
        Ok(e) => e,
        Err(e) => {
            return Err(e);
        },
    };
    let preferred_username = match dec_opt_str_exec(j.get("preferredUsername")) {
        Ok(v) => v,
        Err(e) => {
            return Err(e);
        },
    };
    let public_key = match dec_public_key_exec(j.get("publicKey")) {
        Ok(k) => k,
        Err(e) => {
            return Err(e);
        },
    };
    let inbox = match j.get("inbox") {
        None => {
            return Err(DecodeError::ShapeMismatch);
        },
        Some(v) => match dec_iri_exec(v) {
            Ok(i) => i,
            Err(e) => {
                return Err(e);
            },
        },
    };
    let outbox = match j.get("outbox") {
        None => {
            return Err(DecodeError::ShapeMismatch);
        },
        Some(v) => match dec_iri_exec(v) {
            Ok(i) => i,
            Err(e) => {
                return Err(e);
            },
        },
    };
    let followers = match j.get("followers") {
        None => {
            return Err(DecodeError::ShapeMismatch);
        },
        Some(v) => match dec_iri_exec(v) {
            Ok(i) => i,
            Err(e) => {
                return Err(e);
            },
        },
    };
    let following = match j.get("following") {
        None => {
            return Err(DecodeError::ShapeMismatch);
        },
        Some(v) => match dec_iri_exec(v) {
            Ok(i) => i,
            Err(e) => {
                return Err(e);
            },
        },
    };
    base.kind = None;
    Ok(
        Actor {
            type_field: t,
            preferred_username,
            extends_object: base,
            public_key,
            inbox,
            outbox,
            followers,
            following,
        },
    )
}

/// The activity fields, read from an object.
#[verifier::rlimit(100)]
#[verifier::spinoff_prover]
fn dec_activity_exec(j: &Json, t: ActivityType) -> (r: Result<Activity, DecodeError>)
    requires
        j@ is Obj,
    ensures
        dec_activity(j@->Obj_0, t) == (match r {
            Ok(a) => Ok::<ActivityV, DecodeError>(view_activity(a)),
            Err(er) => Err(er),
        }),
{
    let mut base = match dec_entity_exec(j) {
        Ok(e) => e,
        Err(e) => {
            return Err(e);
        },
    };
    let actor = match j.get("actor") {
        None => None,
        Some(v) => match dec_entity_ref_exec(v) {
            Ok(er) => Some(Box::new(er)),
            Err(e) => {
                return Err(e);
            },
        },
    };
    let object = match j.get("object") {
        None => None,
        Some(v) => match dec_entity_ref_exec(v) {
            Ok(er) => Some(Box::new(er)),
            Err(e) => {
                return Err(e);
            },
        },
    };
    base.kind = None;
    Ok(Activity { type_field: t, extends_object: base, actor, object })
}

/// The intransitive-activity fields, read from an object.
#[verifier::rlimit(100)]
#[verifier::spinoff_prover]
fn dec_intransitive_exec(j: &Json, t: IntransitiveType) -> (r: Result<
    IntransitiveActivity,
    DecodeError,
>)
    requires
        j@ is Obj,
    ensures
        dec_intransitive(j@->Obj_0, t) == (match r {
            Ok(a) => Ok::<IntransitiveActivityV, DecodeError>(view_intransitive(a)),
            Err(er) => Err(er),
        }),
{
    let mut base = match dec_entity_exec(j) {
        Ok(e) => e,
        Err(e) => {
            return Err(e);
        },
    };
    let actor = match j.get("actor") {
        None => None,
        Some(v) => match dec_entity_ref_exec(v) {
            Ok(er) => Some(Box::new(er)),
            Err(e) => {
                return Err(e);
            },
        },
    };
    base.kind = None;
    Ok(IntransitiveActivity { type_field: t, extends_object: base, actor })
}

/// Dispatch on the `type` discriminator.
#[verifier::rlimit(100)]
#[verifier::spinoff_prover]
fn dec_object_exec(j: &Json) -> (r: Result<ExtendsObject, DecodeError>)
    requires
        j@ is Obj,
    ensures
        dec_object_members(j@->Obj_0) == (match r {
            Ok(x) => Ok::<ExtendsObjectV, DecodeError>(x@),
            Err(er) => Err(er),
        }),
{
    let kind = match dec_opt_str_exec(j.get("type")) {
        Ok(v) => v,
        Err(e) => {
            return Err(e);
        },
    };
    match kind {
        None => match dec_entity_exec(j) {
            Ok(e) => Ok(ExtendsObject::Entity(Box::new(e))),
            Err(e) => Err(e),
        },
        Some(t) => {
            if let Some(at) = actor_type_of_exec(t.as_str()) {
                match dec_actor_exec(j, at) {
                    Ok(a) => Ok(ExtendsObject::Actor(Box::new(a))),
                    Err(_) => match dec_entity_exec(j) {
                        Ok(e) => Ok(ExtendsObject::Entity(Box::new(e))),
                        Err(e) => Err(e),
                    },
                }
            } else if let Some(vt) = activity_type_of_exec(t.as_str()) {
                match dec_activity_exec(j, vt) {
                    Ok(a) => Ok(ExtendsObject::Activity(Box::new(a))),
                    Err(e) => Err(e),
                }
            } else if let Some(it) = intransitive_type_of_exec(t.as_str()) {
                match dec_intransitive_exec(j, it) {
                    Ok(a) => Ok(ExtendsObject::Intransitive(Box::new(a))),
                    Err(e) => Err(e),
                }
            } else if let Some(ct) = collection_type_of_exec(t.as_str()) {
                match dec_collection_exec(j, ct) {
                    Ok(c) => Ok(ExtendsObject::Collection(Box::new(c))),
                    Err(e) => Err(e),
                }
            } else {
                match dec_entity_exec(j) {
                    Ok(e) => Ok(ExtendsObject::Entity(Box::new(e))),
                    Err(e) => Err(e),
                }
            }
        },
    }
}

/// The context member: a string or an array of strings.
fn dec_context_exec(o: Option<&Json>) -> (r: Result<Option<Context>, DecodeError>)
    ensures
        dec_context(opt_view(o)) == (match r {
            Ok(Some(c)) => Ok::<Option<ContextV>, DecodeError>(Some(c@)),
            Ok(None) => Ok(None),
            Err(er) => Err(er),
        }),
{
    match o {
        None => Ok(None),
        Some(Json::Str(s)) => Ok(Some(Context::Single(s.clone()))),
        Some(Json::Arr(items)) => {
            match dec_ctx_list(items, 0) {
                Ok(out) => {
                    proof {
                        assert(crate::json::view_items(items@).skip(0) =~= crate::json::view_items(
                            items@,
                        ));
                    }
                    Ok(Some(Context::Array(out)))
                },
                Err(e) => {
                    proof {
                        assert(crate::json::view_items(items@).skip(0) =~= crate::json::view_items(
                            items@,
                        ));
                    }
                    Err(e)
                },
            }
        },
        Some(_) => Err(DecodeError::ShapeMismatch),
    }
}


fn dec_ctx_list(items: &Vec<Json>, i: usize) -> (r: Result<Vec<String>, DecodeError>)
    requires
        i <= items@.len(),
    ensures
        dec_context_strings(crate::json::view_items(items@).skip(i as int)) == (match r {
            Ok(v) => Ok::<Seq<Seq<char>>, DecodeError>(v.deep_view()),
            Err(e) => Err(e),
        }),
    decreases items@.len() - i,
{
    proof {
        crate::json::lemma_view_items_props(items@);
    }
    let ghost vi = crate::json::view_items(items@);
    if i == items.len() {
        let r: Vec<String> = Vec::new();
        proof {
            assert(vi.skip(i as int) =~= Seq::<JsonV>::empty());
            assert(r.deep_view() =~= Seq::<Seq<char>>::empty());
        }
        Ok(r)
    } else {
        let first = match &items[i] {
            Json::Str(s) => s.clone(),
            _ => {
                proof {
                    assert(vi.skip(i as int)[0] == vi[i as int]);
                }
                return Err(DecodeError::ShapeMismatch);
            },
        };
        match dec_ctx_list(items, i + 1) {
            Ok(mut rest) => {
                let ghost rest0 = rest.deep_view();
                let mut out: Vec<String> = Vec::new();
                out.push(first);
                out.append(&mut rest);
                proof {
                    assert(vi.skip(i as int)[0] == vi[i as int]);
                    assert(vi.skip(i as int).drop_first() =~= vi.skip(i + 1));
                    assert(out.deep_view() =~= seq![first@] + rest0);
                }
                Ok(out)
            },
            Err(e) => {
                proof {
                    assert(vi.skip(i as int)[0] == vi[i as int]);
                    assert(vi.skip(i as int).drop_first() =~= vi.skip(i + 1));
                }
                Err(e)
            },
        }
    }
}

/// When every item is a string, the context strings decode to their values.
proof fn lemma_dec_context_strings_ok(items: Seq<JsonV>, out: Seq<Seq<char>>)
    requires
        out.len() == items.len(),
        forall|k: int| 0 <= k < items.len() ==> items[k] is Str,
        forall|k: int| 0 <= k < items.len() ==> out[k] == items[k]->Str_0,
    ensures
        dec_context_strings(items) == Ok::<Seq<Seq<char>>, DecodeError>(out),
    decreases items.len(),
{
    if items.len() == 0 {
        assert(out =~= Seq::<Seq<char>>::empty());
    } else {
        lemma_dec_context_strings_ok(items.drop_first(), out.drop_first());
        assert(seq![out[0]] + out.drop_first() =~= out);
    }
}

/// A non-string item makes the context decode fail.
proof fn lemma_dec_context_strings_err(items: Seq<JsonV>, i: int)
    requires
        0 <= i < items.len(),
        forall|k: int| 0 <= k < i ==> items[k] is Str,
        !(items[i] is Str),
    ensures
        dec_context_strings(items) == Err::<Seq<Seq<char>>, DecodeError>(
            DecodeError::ShapeMismatch,
        ),
    decreases i,
{
    if i == 0 {
    } else {
        lemma_dec_context_strings_err(items.drop_first(), i - 1);
    }
}

impl Document {
    /// Decodes a JSON value into a document: the context member beside the
    /// entity members of one object.
    pub fn decode_value(v: &Json) -> (r: Result<Document, DecodeError>)
        ensures
            spec_decode(v@) == (match r {
                Ok(d) => Ok::<DocumentV, DecodeError>(d@),
                Err(er) => Err(er),
            }),
    {
        match v {
            Json::Obj(_) => {
                let context = match dec_context_exec(v.get("@context")) {
                    Ok(c) => c,
                    Err(e) => {
                        return Err(e);
                    },
                };
                let entity = match dec_object_exec(v) {
                    Ok(x) => x,
                    Err(e) => {
                        return Err(e);
                    },
                };
                Ok(Document { context, entity })
            },
            _ => Err(DecodeError::ShapeMismatch),
        }
    }
}

impl Document {
    /// Decodes one wire text: parses it as JSON and decodes the value.
    /// A text that is not well-formed JSON is the malformed-JSON error;
    /// any other outcome is [`spec_decode`] of the parsed value.
    pub fn decode(text: &str) -> (r: Result<Document, DecodeError>)
        ensures
            match r {
                Ok(d) => exists|v: JsonV|
                    #[trigger] spec_decode(v) == Ok::<DocumentV, DecodeError>(d@),
                Err(e) => e == DecodeError::MalformedJson || exists|v: JsonV|
                    #[trigger] spec_decode(v) == Err::<DocumentV, DecodeError>(e),
            },
    {
        let v = match Json::parse(text) {
            Ok(v) => v,
            Err(e) => {
                return Err(e);
            },
        };
        let r = Document::decode_value(&v);
        proof {
            if r is Ok {
                assert(spec_decode(v@) == Ok::<DocumentV, DecodeError>(r->Ok_0@));
            } else {
                assert(spec_decode(v@) == Err::<DocumentV, DecodeError>(r->Err_0));
            }
        }
        r
    }

    /// The wire text of this document: the compact print of its encoding.
    pub fn encode(&self) -> (r: String)
        ensures
            r@ == crate::json::spec_print(spec_encode(self@)),
    {
        let v = self.encode_value();
        v.to_text()
    }
}

impl Document {
    /// Encodes this document as a JSON value: the context member, when
    /// present, flattened beside the entity's members.
    pub fn encode_value(&self) -> (r: Json)
        ensures
            r@ == spec_encode(self@),
    {
        let mut out: Vec<(String, Json)> = Vec::new();
        let ghost base = crate::json::view_members(out@);
        let ghost mut cur: Seq<(Seq<char>, JsonV)> = Seq::empty();
        proof {
            assert(crate::json::view_members(out@) =~= Seq::<(Seq<char>, JsonV)>::empty());
            assert(base + cur =~= base);
        }
        let ghost cpiece: Seq<(Seq<char>, JsonV)> = match self@.context {
            Some(c) => seq![("@context"@, enc_context(c))],
            None => Seq::empty(),
        };
        match &self.context {
            Some(c) => {
                let j = enc_context_exec(c);
                push_member(&mut out, "@context", j, Ghost(base), Ghost(cur));
                proof {
                    cur = cur + cpiece;
                }
            },
            None => {
                proof {
                    assert(cur + cpiece =~= cur);
                    cur = cur + cpiece;
                }
            },
        }
        match &self.entity {
            ExtendsObject::Entity(e) => enc_entity_members_exec(e, &mut out),
            ExtendsObject::Actor(a) => enc_actor_members_exec(a, &mut out),
            ExtendsObject::Activity(a) => enc_activity_members_exec(a, &mut out),
            ExtendsObject::Intransitive(a) => enc_intransitive_members_exec(a, &mut out),
            ExtendsObject::Collection(c) => enc_collection_members_exec(c, &mut out),
        }
        proof {
            assert((base + cur) + enc_object_members(self@.entity) =~= base + (cur
                + enc_object_members(self@.entity)));
            cur = cur + enc_object_members(self@.entity);
            assert(base + cur =~= cur);
            assert(cur == cpiece + enc_object_members(self@.entity));
        }
        Json::Obj(out)
    }
}

} // verus!
