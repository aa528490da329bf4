//! Proved laws of the codec: encoding a constructible document and decoding
//! the result restores the document field for field; encoding never emits a
//! null-valued member; and reference decoding prefers the embedded-object
//! shape over the bare-identifier shape.

use vstd::prelude::*;
use crate::codec::{
    DecodeError, dec_entity, dec_entity_ref, dec_entity_ref_seq, dec_entity_refs_val,
    dec_replies_val, dec_refs_field, dec_collection, dec_actor, dec_activity, dec_intransitive,
    dec_object_members, dec_context, dec_context_strings, dec_iri, dec_opt_str, dec_opt_iri,
    dec_opt_u32, dec_link_desc, dec_link_ref, dec_link_ref_seq, dec_link_refs, dec_media_type,
    dec_public_key, dec_req_iri, dec_opt_entity_ref, spec_decode, spec_encode, enc_entity_members,
    enc_entity_ref, enc_entity_ref_seq, enc_entity_refs, enc_collection_members, enc_actor_members,
    enc_activity_members, enc_intransitive_members, enc_object_members, enc_link_desc,
    enc_link_ref, enc_link_ref_seq, enc_link_refs, enc_public_key, enc_context,
    enc_context_strings, m_one, m_opt_str, m_opt_iri, strip_kind, wf_document, wf_object,
    wf_entity, wf_entity_ref, wf_entity_ref_seq, wf_entity_refs, wf_collection, wf_actor,
    wf_activity, wf_intransitive, wf_link_ref, wf_link_ref_seq, wf_link_refs, wf_opt_iri,
    spec_known_kind,
};
use crate::iri::IriV;
use crate::json::{
    JsonV, spec_obj_get, lemma_obj_get_concat, lemma_obj_get_single, lemma_obj_get_empty,
};
use crate::vocab::{
    ActivityType, ActivityV, ActorType, ActorV, CollectionType, CollectionV, ContextV, DocumentV,
    EntityRefV, EntityRefsV, EntityV, ExtendsObjectV, IntransitiveActivityV, IntransitiveType,
    LinkDescV, LinkRefV, LinkRefsV, MediaType, PublicKeyV, spec_activity_type_of,
    spec_activity_type_str, spec_actor_type_of, spec_actor_type_str, spec_collection_type_of,
    spec_collection_type_str, spec_intransitive_type_of, spec_intransitive_type_str,
    spec_media_type_of, spec_media_type_str,
};

verus! {

// ------------------------------------------------ discriminator inverses

/// Each discriminator's wire name maps back to it, and the name sets of the
/// different kinds are disjoint.
#[verifier::rlimit(60)]
pub proof fn lemma_kind_facts()
    ensures
        forall|t: ActorType| #[trigger] spec_actor_type_of(spec_actor_type_str(t)) == Some(t),
        forall|t: ActivityType| #[trigger] spec_activity_type_of(spec_activity_type_str(t))
            == Some(t),
        forall|t: IntransitiveType| #[trigger] spec_intransitive_type_of(
            spec_intransitive_type_str(t),
        ) == Some(t),
        forall|t: CollectionType| #[trigger] spec_collection_type_of(
            spec_collection_type_str(t),
        ) == Some(t),
        forall|t: MediaType| #[trigger] spec_media_type_of(spec_media_type_str(t)) == Some(t),
        forall|t: ActivityType| spec_actor_type_of(#[trigger] spec_activity_type_str(t)) is None,
        forall|t: IntransitiveType|
            spec_actor_type_of(#[trigger] spec_intransitive_type_str(t)) is None
                && spec_activity_type_of(spec_intransitive_type_str(t)) is None,
        forall|t: CollectionType|
            spec_actor_type_of(#[trigger] spec_collection_type_str(t)) is None
                && spec_activity_type_of(spec_collection_type_str(t)) is None
                && spec_intransitive_type_of(spec_collection_type_str(t)) is None,
{
    reveal_strlit("Actor");
    reveal_strlit("Application");
    reveal_strlit("Group");
    reveal_strlit("Organization");
    reveal_strlit("Person");
    reveal_strlit("Service");
    reveal_strlit("Activity");
    reveal_strlit("Accept");
    reveal_strlit("TentativeAccept");
    reveal_strlit("Add");
    reveal_strlit("Create");
    reveal_strlit("Delete");
    reveal_strlit("Follow");
    reveal_strlit("Ignore");
    reveal_strlit("Join");
    reveal_strlit("Leave");
    reveal_strlit("Like");
    reveal_strlit("Offer");
    reveal_strlit("Invite");
    reveal_strlit("Reject");
    reveal_strlit("TentativeReject");
    reveal_strlit("Remove");
    reveal_strlit("Undo");
    reveal_strlit("Update");
    reveal_strlit("View");
    reveal_strlit("Listen");
    reveal_strlit("Read");
    reveal_strlit("Move");
    reveal_strlit("Announce");
    reveal_strlit("Block");
    reveal_strlit("Flag");
    reveal_strlit("Dislike");
    reveal_strlit("IntransitiveActivity");
    reveal_strlit("Arrive");
    reveal_strlit("Travel");
    reveal_strlit("Collection");
    reveal_strlit("OrderedCollection");
    reveal_strlit("CollectionPage");
    reveal_strlit("OrderedCollectionPage");
    reveal_strlit("text/html");
    reveal_strlit("text/markdown");
    // Distinct-length discriminators are told apart by their lengths.
    assert("Actor"@.len() == 5 && "Application"@.len() == 11 && "Group"@.len() == 5);
    assert("Organization"@.len() == 12 && "Person"@.len() == 6 && "Service"@.len() == 7);
    assert("Activity"@.len() == 8 && "Accept"@.len() == 6 && "TentativeAccept"@.len() == 15);
    assert("Add"@.len() == 3 && "Create"@.len() == 6 && "Delete"@.len() == 6);
    assert("Follow"@.len() == 6 && "Ignore"@.len() == 6 && "Join"@.len() == 4);
    assert("Leave"@.len() == 5 && "Like"@.len() == 4 && "Offer"@.len() == 5);
    assert("Invite"@.len() == 6 && "Reject"@.len() == 6 && "TentativeReject"@.len() == 15);
    assert("Remove"@.len() == 6 && "Undo"@.len() == 4 && "Update"@.len() == 6);
    assert("View"@.len() == 4 && "Listen"@.len() == 6 && "Read"@.len() == 4);
    assert("Move"@.len() == 4 && "Announce"@.len() == 8 && "Block"@.len() == 5);
    assert("Flag"@.len() == 4 && "Dislike"@.len() == 7);
    assert("IntransitiveActivity"@.len() == 20 && "Arrive"@.len() == 6 && "Travel"@.len() == 6);
    assert("Collection"@.len() == 10 && "OrderedCollection"@.len() == 17);
    assert("CollectionPage"@.len() == 14 && "OrderedCollectionPage"@.len() == 21);
    assert("text/html"@.len() == 9 && "text/markdown"@.len() == 13);
    // Same-length discriminators are told apart at one character position;
    // naming the characters lets the prover see each inequality.
    assert("Actor"@[0] == 'A' && "Group"@[0] == 'G' && "Person"@[0] == 'P');
    assert("Application"@[0] == 'A' && "Organization"@[0] == 'O' && "Service"@[0] == 'S');
    assert("Accept"@[0] == 'A' && "Accept"@[1] == 'c' && "Create"@[0] == 'C');
    assert("Delete"@[0] == 'D' && "Follow"@[0] == 'F' && "Ignore"@[0] == 'I');
    assert("Ignore"@[1] == 'g' && "Invite"@[0] == 'I' && "Invite"@[1] == 'n');
    assert("Reject"@[0] == 'R' && "Reject"@[1] == 'e' && "Reject"@[2] == 'j');
    assert("Remove"@[0] == 'R' && "Remove"@[1] == 'e' && "Remove"@[2] == 'm');
    assert("Update"@[0] == 'U' && "Listen"@[0] == 'L' && "Dislike"@[0] == 'D');
    assert("Join"@[0] == 'J' && "Like"@[0] == 'L' && "Undo"@[0] == 'U');
    assert("View"@[0] == 'V' && "Read"@[0] == 'R' && "Move"@[0] == 'M');
    assert("Flag"@[0] == 'F' && "Add"@[0] == 'A');
    assert("Leave"@[0] == 'L' && "Offer"@[0] == 'O' && "Block"@[0] == 'B');
    assert("Activity"@[0] == 'A' && "Activity"@[1] == 'c');
    assert("Announce"@[0] == 'A' && "Announce"@[1] == 'n');
    assert("TentativeAccept"@[9] == 'A' && "TentativeReject"@[9] == 'R');
    assert("Arrive"@[0] == 'A' && "Arrive"@[1] == 'r' && "Travel"@[0] == 'T');
    assert("IntransitiveActivity"@[0] == 'I');
    assert("Collection"@[0] == 'C' && "OrderedCollection"@[0] == 'O');
    assert("CollectionPage"@[0] == 'C' && "OrderedCollectionPage"@[0] == 'O');
    assert("text/html"@[0] == 't' && "text/markdown"@[0] == 't');
    assert forall|t: ActorType| #[trigger] spec_actor_type_of(spec_actor_type_str(t)) == Some(
        t,
    ) by {
        match t {
            ActorType::Actor => {
                assert(spec_actor_type_of(spec_actor_type_str(t)) == Some(t));
            },
            ActorType::Application => {
                assert(spec_actor_type_of(spec_actor_type_str(t)) == Some(t));
            },
            ActorType::Group => {
                assert(spec_actor_type_of(spec_actor_type_str(t)) == Some(t));
            },
            ActorType::Organization => {
                assert(spec_actor_type_of(spec_actor_type_str(t)) == Some(t));
            },
            ActorType::Person => {
                assert(spec_actor_type_of(spec_actor_type_str(t)) == Some(t));
            },
            ActorType::Service => {
                assert(spec_actor_type_of(spec_actor_type_str(t)) == Some(t));
            },
        }
    }
    assert forall|t: ActivityType| #[trigger] spec_activity_type_of(spec_activity_type_str(t))
        == Some(t) by {
        match t {
            ActivityType::Activity => {
                assert(spec_activity_type_of(spec_activity_type_str(t)) == Some(t));
            },
            ActivityType::Accept => {
                assert(spec_activity_type_of(spec_activity_type_str(t)) == Some(t));
            },
            ActivityType::TentativeAccept => {
                assert(spec_activity_type_of(spec_activity_type_str(t)) == Some(t));
            },
            ActivityType::Add => {
                assert(spec_activity_type_of(spec_activity_type_str(t)) == Some(t));
            },
            ActivityType::Create => {
                assert(spec_activity_type_of(spec_activity_type_str(t)) == Some(t));
            },
            ActivityType::Delete => {
                assert(spec_activity_type_of(spec_activity_type_str(t)) == Some(t));
            },
            ActivityType::Follow => {
                assert(spec_activity_type_of(spec_activity_type_str(t)) == Some(t));
            },
            ActivityType::Ignore => {
                assert(spec_activity_type_of(spec_activity_type_str(t)) == Some(t));
            },
            ActivityType::Join => {
                assert(spec_activity_type_of(spec_activity_type_str(t)) == Some(t));
            },
            ActivityType::Leave => {
                assert(spec_activity_type_of(spec_activity_type_str(t)) == Some(t));
            },
            ActivityType::Like => {
                assert(spec_activity_type_of(spec_activity_type_str(t)) == Some(t));
            },
            ActivityType::Offer => {
                assert(spec_activity_type_of(spec_activity_type_str(t)) == Some(t));
            },
            ActivityType::Invite => {
                assert(spec_activity_type_of(spec_activity_type_str(t)) == Some(t));
            },
            ActivityType::Reject => {
                assert(spec_activity_type_of(spec_activity_type_str(t)) == Some(t));
            },
            ActivityType::TentativeReject => {
                assert(spec_activity_type_of(spec_activity_type_str(t)) == Some(t));
            },
            ActivityType::Remove => {
                assert(spec_activity_type_of(spec_activity_type_str(t)) == Some(t));
            },
            ActivityType::Undo => {
                assert(spec_activity_type_of(spec_activity_type_str(t)) == Some(t));
            },
            ActivityType::Update => {
                assert(spec_activity_type_of(spec_activity_type_str(t)) == Some(t));
            },
            ActivityType::View => {
                assert(spec_activity_type_of(spec_activity_type_str(t)) == Some(t));
            },
            ActivityType::Listen => {
                assert(spec_activity_type_of(spec_activity_type_str(t)) == Some(t));
            },
            ActivityType::Read => {
                assert(spec_activity_type_of(spec_activity_type_str(t)) == Some(t));
            },
            ActivityType::Move => {
                assert(spec_activity_type_of(spec_activity_type_str(t)) == Some(t));
            },
            ActivityType::Announce => {
                assert(spec_activity_type_of(spec_activity_type_str(t)) == Some(t));
            },
            ActivityType::Block => {
                assert(spec_activity_type_of(spec_activity_type_str(t)) == Some(t));
            },
            ActivityType::Flag => {
                assert(spec_activity_type_of(spec_activity_type_str(t)) == Some(t));
            },
            ActivityType::Dislike => {
                assert(spec_activity_type_of(spec_activity_type_str(t)) == Some(t));
            },
        }
    }
    assert forall|t: IntransitiveType| #[trigger] spec_intransitive_type_of(
        spec_intransitive_type_str(t),
    ) == Some(t) by {
        match t {
            IntransitiveType::IntransitiveActivity => {
                assert(spec_intransitive_type_of(spec_intransitive_type_str(t)) == Some(t));
            },
            IntransitiveType::Arrive => {
                assert(spec_intransitive_type_of(spec_intransitive_type_str(t)) == Some(t));
            },
            IntransitiveType::Travel => {
                assert(spec_intransitive_type_of(spec_intransitive_type_str(t)) == Some(t));
            },
        }
    }
    assert forall|t: CollectionType| #[trigger] spec_collection_type_of(
        spec_collection_type_str(t),
    ) == Some(t) by {
        match t {
            CollectionType::Collection => {
                assert(spec_collection_type_of(spec_collection_type_str(t)) == Some(t));
            },
            CollectionType::OrderedCollection => {
                assert(spec_collection_type_of(spec_collection_type_str(t)) == Some(t));
            },
            CollectionType::CollectionPage => {
                assert(spec_collection_type_of(spec_collection_type_str(t)) == Some(t));
            },
            CollectionType::OrderedCollectionPage => {
                assert(spec_collection_type_of(spec_collection_type_str(t)) == Some(t));
            },
        }
    }
    assert forall|t: MediaType| #[trigger] spec_media_type_of(spec_media_type_str(t)) == Some(
        t,
    ) by {
        match t {
            MediaType::Html => {
                assert(spec_media_type_of(spec_media_type_str(t)) == Some(t));
            },
            MediaType::Markdown => {
                assert(spec_media_type_of(spec_media_type_str(t)) == Some(t));
            },
        }
    }
    assert forall|t: ActivityType| spec_actor_type_of(
        #[trigger] spec_activity_type_str(t),
    ) is None by {
        match t {
            ActivityType::Activity => {
                assert(spec_actor_type_of(spec_activity_type_str(t)) is None);
            },
            ActivityType::Accept => {
                assert(spec_actor_type_of(spec_activity_type_str(t)) is None);
            },
            ActivityType::TentativeAccept => {
                assert(spec_actor_type_of(spec_activity_type_str(t)) is None);
            },
            ActivityType::Add => {
                assert(spec_actor_type_of(spec_activity_type_str(t)) is None);
            },
            ActivityType::Create => {
                assert(spec_actor_type_of(spec_activity_type_str(t)) is None);
            },
            ActivityType::Delete => {
                assert(spec_actor_type_of(spec_activity_type_str(t)) is None);
            },
            ActivityType::Follow => {
                assert(spec_actor_type_of(spec_activity_type_str(t)) is None);
            },
            ActivityType::Ignore => {
                assert(spec_actor_type_of(spec_activity_type_str(t)) is None);
            },
            ActivityType::Join => {
                assert(spec_actor_type_of(spec_activity_type_str(t)) is None);
            },
            ActivityType::Leave => {
                assert(spec_actor_type_of(spec_activity_type_str(t)) is None);
            },
            ActivityType::Like => {
                assert(spec_actor_type_of(spec_activity_type_str(t)) is None);
            },
            ActivityType::Offer => {
                assert(spec_actor_type_of(spec_activity_type_str(t)) is None);
            },
            ActivityType::Invite => {
                assert(spec_actor_type_of(spec_activity_type_str(t)) is None);
            },
            ActivityType::Reject => {
                assert(spec_actor_type_of(spec_activity_type_str(t)) is None);
            },
            ActivityType::TentativeReject => {
                assert(spec_actor_type_of(spec_activity_type_str(t)) is None);
            },
            ActivityType::Remove => {
                assert(spec_actor_type_of(spec_activity_type_str(t)) is None);
            },
            ActivityType::Undo => {
                assert(spec_actor_type_of(spec_activity_type_str(t)) is None);
            },
            ActivityType::Update => {
                assert(spec_actor_type_of(spec_activity_type_str(t)) is None);
            },
            ActivityType::View => {
                assert(spec_actor_type_of(spec_activity_type_str(t)) is None);
            },
            ActivityType::Listen => {
                assert(spec_actor_type_of(spec_activity_type_str(t)) is None);
            },
            ActivityType::Read => {
                assert(spec_actor_type_of(spec_activity_type_str(t)) is None);
            },
            ActivityType::Move => {
                assert(spec_actor_type_of(spec_activity_type_str(t)) is None);
            },
            ActivityType::Announce => {
                assert(spec_actor_type_of(spec_activity_type_str(t)) is None);
            },
            ActivityType::Block => {
                assert(spec_actor_type_of(spec_activity_type_str(t)) is None);
            },
            ActivityType::Flag => {
                assert(spec_actor_type_of(spec_activity_type_str(t)) is None);
            },
            ActivityType::Dislike => {
                assert(spec_actor_type_of(spec_activity_type_str(t)) is None);
            },
        }
    }
    assert forall|t: IntransitiveType|
        spec_actor_type_of(#[trigger] spec_intransitive_type_str(t)) is None
            && spec_activity_type_of(spec_intransitive_type_str(t)) is None by {
        match t {
            IntransitiveType::IntransitiveActivity => {
                assert(spec_actor_type_of(spec_intransitive_type_str(t)) is None);
                assert(spec_activity_type_of(spec_intransitive_type_str(t)) is None);
            },
            IntransitiveType::Arrive => {
                assert(spec_actor_type_of(spec_intransitive_type_str(t)) is None);
                assert(spec_activity_type_of(spec_intransitive_type_str(t)) is None);
            },
            IntransitiveType::Travel => {
                assert(spec_actor_type_of(spec_intransitive_type_str(t)) is None);
                assert(spec_activity_type_of(spec_intransitive_type_str(t)) is None);
            },
        }
    }
    assert forall|t: CollectionType|
        spec_actor_type_of(#[trigger] spec_collection_type_str(t)) is None
            && spec_activity_type_of(spec_collection_type_str(t)) is None
            && spec_intransitive_type_of(spec_collection_type_str(t)) is None by {
        match t {
            CollectionType::Collection => {
                assert(spec_actor_type_of(spec_collection_type_str(t)) is None);
                assert(spec_activity_type_of(spec_collection_type_str(t)) is None);
                assert(spec_intransitive_type_of(spec_collection_type_str(t)) is None);
            },
            CollectionType::OrderedCollection => {
                assert(spec_actor_type_of(spec_collection_type_str(t)) is None);
                assert(spec_activity_type_of(spec_collection_type_str(t)) is None);
                assert(spec_intransitive_type_of(spec_collection_type_str(t)) is None);
            },
            CollectionType::CollectionPage => {
                assert(spec_actor_type_of(spec_collection_type_str(t)) is None);
                assert(spec_activity_type_of(spec_collection_type_str(t)) is None);
                assert(spec_intransitive_type_of(spec_collection_type_str(t)) is None);
            },
            CollectionType::OrderedCollectionPage => {
                assert(spec_actor_type_of(spec_collection_type_str(t)) is None);
                assert(spec_activity_type_of(spec_collection_type_str(t)) is None);
                assert(spec_intransitive_type_of(spec_collection_type_str(t)) is None);
            },
        }
    }
}

// ------------------------------------------- what an encoded object holds

/// `ms` holds, under each entity member key, exactly the encoding of the
/// corresponding field of `e`; `kov`, when given, overrides the `type`
/// member (a typed variant writes its own discriminator first).
pub open spec fn obj_matches_entity(
    ms: Seq<(Seq<char>, JsonV)>,
    e: EntityV,
    kov: Option<Seq<char>>,
) -> bool {
    &&& spec_obj_get(ms, "id"@) == Some(JsonV::Str(e.id.value))
    &&& spec_obj_get(ms, "type"@) == (match kov {
        Some(t) => Some(JsonV::Str(t)),
        None => match e.kind {
            Some(s) => Some(JsonV::Str(s)),
            None => None::<JsonV>,
        },
    })
    &&& spec_obj_get(ms, "name"@) == (match e.name {
        Some(s) => Some(JsonV::Str(s)),
        None => None::<JsonV>,
    })
    &&& spec_obj_get(ms, "content"@) == (match e.content {
        Some(s) => Some(JsonV::Str(s)),
        None => None::<JsonV>,
    })
    &&& spec_obj_get(ms, "mediaType"@) == (match e.media_type {
        Some(t) => Some(JsonV::Str(spec_media_type_str(t))),
        None => None::<JsonV>,
    })
    &&& spec_obj_get(ms, "published"@) == (match e.published {
        Some(s) => Some(JsonV::Str(s)),
        None => None::<JsonV>,
    })
    &&& spec_obj_get(ms, "updated"@) == (match e.updated {
        Some(s) => Some(JsonV::Str(s)),
        None => None::<JsonV>,
    })
    &&& spec_obj_get(ms, "attachment"@) == (match e.attachment {
        Some(a) => Some(enc_link_refs(a)),
        None => None::<JsonV>,
    })
    &&& spec_obj_get(ms, "attributedTo"@) == (match e.attributed_to {
        Some(r) => Some(enc_entity_ref(r)),
        None => None::<JsonV>,
    })
    &&& spec_obj_get(ms, "inReplyTo"@) == (match e.in_reply_to {
        Some(r) => Some(enc_entity_ref(r)),
        None => None::<JsonV>,
    })
    &&& spec_obj_get(ms, "to"@) == (match e.to {
        Some(r) => Some(enc_entity_refs(r)),
        None => None::<JsonV>,
    })
    &&& spec_obj_get(ms, "cc"@) == (match e.cc {
        Some(r) => Some(enc_entity_refs(r)),
        None => None::<JsonV>,
    })
    &&& spec_obj_get(ms, "bto"@) == (match e.bto {
        Some(r) => Some(enc_entity_refs(r)),
        None => None::<JsonV>,
    })
    &&& spec_obj_get(ms, "bcc"@) == (match e.bcc {
        Some(r) => Some(enc_entity_refs(r)),
        None => None::<JsonV>,
    })
    &&& spec_obj_get(ms, "replies"@) == (match e.replies {
        Some(c) => Some(JsonV::Obj(enc_collection_members(*c))),
        None => None::<JsonV>,
    })
}

pub open spec fn obj_matches_collection(ms: Seq<(Seq<char>, JsonV)>, c: CollectionV) -> bool {
    &&& obj_matches_entity(
        ms,
        c.extends_object,
        Some(spec_collection_type_str(c.type_field)),
    )
    &&& spec_obj_get(ms, "totalItems"@) == Some(JsonV::Int(c.total_items as u64))
    &&& spec_obj_get(ms, "first"@) == (match c.first {
        Some(i) => Some(JsonV::Str(i.value)),
        None => None::<JsonV>,
    })
    &&& spec_obj_get(ms, "last"@) == (match c.last {
        Some(i) => Some(JsonV::Str(i.value)),
        None => None::<JsonV>,
    })
    &&& spec_obj_get(ms, "next"@) == (match c.next {
        Some(i) => Some(JsonV::Str(i.value)),
        None => None::<JsonV>,
    })
    &&& spec_obj_get(ms, "prev"@) == (match c.prev {
        Some(i) => Some(JsonV::Str(i.value)),
        None => None::<JsonV>,
    })
    &&& spec_obj_get(ms, "partOf"@) == (match c.part_of {
        Some(i) => Some(JsonV::Str(i.value)),
        None => None::<JsonV>,
    })
}

pub open spec fn obj_matches_actor(ms: Seq<(Seq<char>, JsonV)>, a: ActorV) -> bool {
    &&& obj_matches_entity(ms, a.extends_object, Some(spec_actor_type_str(a.type_field)))
    &&& spec_obj_get(ms, "preferredUsername"@) == (match a.preferred_username {
        Some(s) => Some(JsonV::Str(s)),
        None => None::<JsonV>,
    })
    &&& spec_obj_get(ms, "publicKey"@) == Some(enc_public_key(a.public_key))
    &&& spec_obj_get(ms, "inbox"@) == Some(JsonV::Str(a.inbox.value))
    &&& spec_obj_get(ms, "outbox"@) == Some(JsonV::Str(a.outbox.value))
    &&& spec_obj_get(ms, "followers"@) == Some(JsonV::Str(a.followers.value))
    &&& spec_obj_get(ms, "following"@) == Some(JsonV::Str(a.following.value))
}

pub open spec fn obj_matches_activity(ms: Seq<(Seq<char>, JsonV)>, a: ActivityV) -> bool {
    &&& obj_matches_entity(ms, a.extends_object, Some(spec_activity_type_str(a.type_field)))
    &&& spec_obj_get(ms, "actor"@) == (match a.actor {
        Some(r) => Some(enc_entity_ref(r)),
        None => None::<JsonV>,
    })
    &&& spec_obj_get(ms, "object"@) == (match a.object {
        Some(r) => Some(enc_entity_ref(r)),
        None => None::<JsonV>,
    })
}

pub open spec fn obj_matches_intransitive(
    ms: Seq<(Seq<char>, JsonV)>,
    a: IntransitiveActivityV,
) -> bool {
    &&& obj_matches_entity(
        ms,
        a.extends_object,
        Some(spec_intransitive_type_str(a.type_field)),
    )
    &&& spec_obj_get(ms, "actor"@) == (match a.actor {
        Some(r) => Some(enc_entity_ref(r)),
        None => None::<JsonV>,
    })
}

pub open spec fn obj_matches(ms: Seq<(Seq<char>, JsonV)>, x: ExtendsObjectV) -> bool {
    match x {
        ExtendsObjectV::Entity(e) => obj_matches_entity(ms, *e, None),
        ExtendsObjectV::Actor(a) => obj_matches_actor(ms, *a),
        ExtendsObjectV::Activity(a) => obj_matches_activity(ms, *a),
        ExtendsObjectV::Intransitive(a) => obj_matches_intransitive(ms, *a),
        ExtendsObjectV::Collection(c) => obj_matches_collection(ms, *c),
    }
}

/// Every key of `ms` is one of the member keys an encoder writes.
pub open spec fn obj_keys_known(ms: Seq<(Seq<char>, JsonV)>) -> bool {
    forall|k: Seq<char>|
        spec_obj_get(ms, k) is Some ==> (k == "id"@ || k == "type"@ || k == "name"@ || k
            == "content"@ || k == "mediaType"@ || k == "published"@ || k == "updated"@ || k
            == "attachment"@ || k == "attributedTo"@ || k == "inReplyTo"@ || k == "to"@ || k
            == "cc"@ || k == "bto"@ || k == "bcc"@ || k == "replies"@ || k
            == "preferredUsername"@ || k == "publicKey"@ || k
            == "inbox"@ || k == "outbox"@ || k == "followers"@ || k == "following"@ || k
            == "totalItems"@ || k == "first"@ || k == "last"@ || k == "next"@ || k == "prev"@ || k
            == "partOf"@ || k == "actor"@ || k == "object"@)
}

// --------------------------------------------------- encoded-member facts

/// Lengths of all member keys, and disequality of the same-length pairs;
/// together they let the prover tell any two keys apart.
proof fn lemma_member_keys_distinct()
    ensures
        "id"@.len() == 2,
        "type"@.len() == 4,
        "name"@.len() == 4,
        "content"@.len() == 7,
        "mediaType"@.len() == 9,
        "published"@.len() == 9,
        "updated"@.len() == 7,
        "attachment"@.len() == 10,
        "attributedTo"@.len() == 12,
        "inReplyTo"@.len() == 9,
        "to"@.len() == 2,
        "cc"@.len() == 2,
        "bto"@.len() == 3,
        "bcc"@.len() == 3,
        "replies"@.len() == 7,
        "preferredUsername"@.len() == 17,
        "publicKey"@.len() == 9,
        "inbox"@.len() == 5,
        "outbox"@.len() == 6,
        "followers"@.len() == 9,
        "following"@.len() == 9,
        "totalItems"@.len() == 10,
        "first"@.len() == 5,
        "last"@.len() == 4,
        "next"@.len() == 4,
        "prev"@.len() == 4,
        "partOf"@.len() == 6,
        "actor"@.len() == 5,
        "object"@.len() == 6,
        "owner"@.len() == 5,
        "publicKeyPem"@.len() == 12,
        "href"@.len() == 4,
        "height"@.len() == 6,
        "width"@.len() == 5,
        "@context"@.len() == 8,
        "id"@ != "to"@ && "id"@ != "cc"@ && "to"@ != "cc"@,
        "bto"@ != "bcc"@,
        "type"@ != "name"@ && "type"@ != "next"@ && "type"@ != "prev"@ && "type"@ != "last"@
            && "type"@ != "href"@,
        "name"@ != "next"@ && "name"@ != "prev"@ && "name"@ != "last"@ && "name"@ != "href"@,
        "next"@ != "prev"@ && "next"@ != "last"@ && "next"@ != "href"@,
        "prev"@ != "last"@ && "prev"@ != "href"@ && "last"@ != "href"@,
        "inbox"@ != "first"@ && "inbox"@ != "actor"@ && "inbox"@ != "owner"@ && "inbox"@
            != "width"@,
        "first"@ != "actor"@ && "first"@ != "owner"@ && "first"@ != "width"@,
        "actor"@ != "owner"@ && "actor"@ != "width"@ && "owner"@ != "width"@,
        "outbox"@ != "object"@ && "outbox"@ != "partOf"@ && "outbox"@ != "height"@,
        "object"@ != "partOf"@ && "object"@ != "height"@ && "partOf"@ != "height"@,
        "content"@ != "updated"@ && "content"@ != "replies"@ && "updated"@ != "replies"@,
        "mediaType"@ != "published"@ && "mediaType"@ != "inReplyTo"@ && "mediaType"@
            != "followers"@ && "mediaType"@ != "following"@ && "mediaType"@ != "publicKey"@,
        "published"@ != "inReplyTo"@ && "published"@ != "followers"@ && "published"@
            != "following"@ && "published"@ != "publicKey"@,
        "inReplyTo"@ != "followers"@ && "inReplyTo"@ != "following"@ && "inReplyTo"@
            != "publicKey"@,
        "followers"@ != "following"@ && "followers"@ != "publicKey"@ && "following"@
            != "publicKey"@,
        "attachment"@ != "totalItems"@,
        "attributedTo"@ != "publicKeyPem"@,
{
    reveal_strlit("id");
    reveal_strlit("type");
    reveal_strlit("name");
    reveal_strlit("content");
    reveal_strlit("mediaType");
    reveal_strlit("published");
    reveal_strlit("updated");
    reveal_strlit("attachment");
    reveal_strlit("attributedTo");
    reveal_strlit("inReplyTo");
    reveal_strlit("to");
    reveal_strlit("cc");
    reveal_strlit("bto");
    reveal_strlit("bcc");
    reveal_strlit("replies");
    reveal_strlit("preferredUsername");
    reveal_strlit("publicKey");
    reveal_strlit("inbox");
    reveal_strlit("outbox");
    reveal_strlit("followers");
    reveal_strlit("following");
    reveal_strlit("totalItems");
    reveal_strlit("first");
    reveal_strlit("last");
    reveal_strlit("next");
    reveal_strlit("prev");
    reveal_strlit("partOf");
    reveal_strlit("actor");
    reveal_strlit("object");
    reveal_strlit("owner");
    reveal_strlit("publicKeyPem");
    reveal_strlit("href");
    reveal_strlit("height");
    reveal_strlit("width");
    reveal_strlit("@context");
    // Same-length member keys are told apart at one character position.
    assert("id"@[0] == 'i' && "to"@[0] == 't' && "cc"@[0] == 'c');
    assert("bto"@[0] == 'b' && "bto"@[1] == 't' && "bcc"@[0] == 'b' && "bcc"@[1] == 'c');
    assert("type"@[0] == 't' && "name"@[0] == 'n' && "name"@[1] == 'a');
    assert("next"@[0] == 'n' && "next"@[1] == 'e' && "last"@[0] == 'l');
    assert("prev"@[0] == 'p' && "href"@[0] == 'h');
    assert("inbox"@[0] == 'i' && "first"@[0] == 'f' && "actor"@[0] == 'a');
    assert("owner"@[0] == 'o' && "width"@[0] == 'w');
    assert("outbox"@[0] == 'o' && "outbox"@[1] == 'u' && "object"@[0] == 'o' && "object"@[1]
        == 'b');
    assert("partOf"@[0] == 'p' && "height"@[0] == 'h');
    assert("content"@[0] == 'c' && "updated"@[0] == 'u' && "replies"@[0] == 'r');
    assert("mediaType"@[0] == 'm' && "inReplyTo"@[0] == 'i');
    assert("published"@[0] == 'p' && "published"@[5] == 's');
    assert("publicKey"@[0] == 'p' && "publicKey"@[5] == 'c');
    assert("followers"@[0] == 'f' && "followers"@[6] == 'e');
    assert("following"@[0] == 'f' && "following"@[6] == 'i');
    assert("attachment"@[0] == 'a' && "totalItems"@[0] == 't');
    assert("attributedTo"@[0] == 'a' && "publicKeyPem"@[0] == 'p');
    assert("@context"@[0] == '@');
}

/// The first seven member pieces of an encoded entity: the identifier and
/// the plain string-valued fields.
pub open spec fn entity_prefix(e: EntityV) -> Seq<(Seq<char>, JsonV)> {
    m_one("id"@, JsonV::Str(e.id.value)) + m_opt_str("type"@, e.kind) + m_opt_str("name"@, e.name)
        + m_opt_str("content"@, e.content) + (match e.media_type {
        Some(t) => seq![("mediaType"@, JsonV::Str(spec_media_type_str(t)))],
        None => Seq::empty(),
    }) + m_opt_str("published"@, e.published) + m_opt_str("updated"@, e.updated)
}

#[verifier::rlimit(100)]
#[verifier::spinoff_prover]
proof fn lemma_entity_prefix_get(e: EntityV)
    ensures
        spec_obj_get(entity_prefix(e), "id"@) == Some(JsonV::Str(e.id.value)),
        spec_obj_get(entity_prefix(e), "type"@) == (match e.kind {
            Some(s) => Some(JsonV::Str(s)),
            None => None::<JsonV>,
        }),
        spec_obj_get(entity_prefix(e), "name"@) == (match e.name {
            Some(s) => Some(JsonV::Str(s)),
            None => None::<JsonV>,
        }),
        spec_obj_get(entity_prefix(e), "content"@) == (match e.content {
            Some(s) => Some(JsonV::Str(s)),
            None => None::<JsonV>,
        }),
        spec_obj_get(entity_prefix(e), "mediaType"@) == (match e.media_type {
            Some(t) => Some(JsonV::Str(spec_media_type_str(t))),
            None => None::<JsonV>,
        }),
        spec_obj_get(entity_prefix(e), "published"@) == (match e.published {
            Some(s) => Some(JsonV::Str(s)),
            None => None::<JsonV>,
        }),
        spec_obj_get(entity_prefix(e), "updated"@) == (match e.updated {
            Some(s) => Some(JsonV::Str(s)),
            None => None::<JsonV>,
        }),
        forall|k: Seq<char>|
            spec_obj_get(entity_prefix(e), k) is Some ==> (k == "id"@ || k == "type"@ || k
                == "name"@ || k == "content"@ || k == "mediaType"@ || k == "published"@ || k
                == "updated"@),
{
    lemma_member_keys_distinct();
    lemma_obj_get_empty();
    let p1 = m_one("id"@, JsonV::Str(e.id.value));
    let p2 = m_opt_str("type"@, e.kind);
    let p3 = m_opt_str("name"@, e.name);
    let p4 = m_opt_str("content"@, e.content);
    let p5: Seq<(Seq<char>, JsonV)> = match e.media_type {
        Some(t) => seq![("mediaType"@, JsonV::Str(spec_media_type_str(t)))],
        None => Seq::empty(),
    };
    let p6 = m_opt_str("published"@, e.published);
    let p7 = m_opt_str("updated"@, e.updated);
    lemma_obj_get_single("id"@, JsonV::Str(e.id.value));
    match e.kind {
        Some(s) => lemma_obj_get_single("type"@, JsonV::Str(s)),
        None => (),
    }
    match e.name {
        Some(s) => lemma_obj_get_single("name"@, JsonV::Str(s)),
        None => (),
    }
    match e.content {
        Some(s) => lemma_obj_get_single("content"@, JsonV::Str(s)),
        None => (),
    }
    match e.media_type {
        Some(t) => lemma_obj_get_single("mediaType"@, JsonV::Str(spec_media_type_str(t))),
        None => (),
    }
    match e.published {
        Some(s) => lemma_obj_get_single("published"@, JsonV::Str(s)),
        None => (),
    }
    match e.updated {
        Some(s) => lemma_obj_get_single("updated"@, JsonV::Str(s)),
        None => (),
    }
    let a2 = p1 + p2;
    let a3 = a2 + p3;
    let a4 = a3 + p4;
    let a5 = a4 + p5;
    let a6 = a5 + p6;
    let a7 = a6 + p7;
    lemma_obj_get_concat(p1, p2);
    lemma_obj_get_concat(a2, p3);
    lemma_obj_get_concat(a3, p4);
    lemma_obj_get_concat(a4, p5);
    lemma_obj_get_concat(a5, p6);
    lemma_obj_get_concat(a6, p7);
    assert(entity_prefix(e) == a7);
}

/// Looking keys up in an encoded entity's member list gives back the
/// encoded fields, and no key outside the entity set is present.
#[verifier::rlimit(100)]
#[verifier::spinoff_prover]
proof fn lemma_enc_entity_members_get(e: EntityV)
    ensures
        obj_matches_entity(enc_entity_members(e), e, None),
        forall|k: Seq<char>|
            spec_obj_get(enc_entity_members(e), k) is Some ==> (k == "id"@ || k == "type"@ || k
                == "name"@ || k == "content"@ || k == "mediaType"@ || k == "published"@ || k
                == "updated"@ || k == "attachment"@ || k == "attributedTo"@ || k
                == "inReplyTo"@ || k == "to"@ || k == "cc"@ || k == "bto"@ || k == "bcc"@ || k
                == "replies"@),
{
    lemma_member_keys_distinct();
    lemma_obj_get_empty();
    lemma_entity_prefix_get(e);
    let a7 = entity_prefix(e);
    let p8: Seq<(Seq<char>, JsonV)> = match e.attachment {
        Some(a) => seq![("attachment"@, enc_link_refs(a))],
        None => Seq::empty(),
    };
    let p8b: Seq<(Seq<char>, JsonV)> = match e.attributed_to {
        Some(r) => seq![("attributedTo"@, enc_entity_ref(r))],
        None => Seq::empty(),
    };
    let p9: Seq<(Seq<char>, JsonV)> = match e.in_reply_to {
        Some(r) => seq![("inReplyTo"@, enc_entity_ref(r))],
        None => Seq::empty(),
    };
    let p10: Seq<(Seq<char>, JsonV)> = match e.to {
        Some(r) => seq![("to"@, enc_entity_refs(r))],
        None => Seq::empty(),
    };
    let p11: Seq<(Seq<char>, JsonV)> = match e.cc {
        Some(r) => seq![("cc"@, enc_entity_refs(r))],
        None => Seq::empty(),
    };
    let p12: Seq<(Seq<char>, JsonV)> = match e.bto {
        Some(r) => seq![("bto"@, enc_entity_refs(r))],
        None => Seq::empty(),
    };
    let p13: Seq<(Seq<char>, JsonV)> = match e.bcc {
        Some(r) => seq![("bcc"@, enc_entity_refs(r))],
        None => Seq::empty(),
    };
    let p14: Seq<(Seq<char>, JsonV)> = match e.replies {
        Some(c) => seq![("replies"@, JsonV::Obj(enc_collection_members(*c)))],
        None => Seq::empty(),
    };
    match e.attachment {
        Some(a) => lemma_obj_get_single("attachment"@, enc_link_refs(a)),
        None => (),
    }
    match e.attributed_to {
        Some(r) => lemma_obj_get_single("attributedTo"@, enc_entity_ref(r)),
        None => (),
    }
    match e.in_reply_to {
        Some(r) => lemma_obj_get_single("inReplyTo"@, enc_entity_ref(r)),
        None => (),
    }
    match e.to {
        Some(r) => lemma_obj_get_single("to"@, enc_entity_refs(r)),
        None => (),
    }
    match e.cc {
        Some(r) => lemma_obj_get_single("cc"@, enc_entity_refs(r)),
        None => (),
    }
    match e.bto {
        Some(r) => lemma_obj_get_single("bto"@, enc_entity_refs(r)),
        None => (),
    }
    match e.bcc {
        Some(r) => lemma_obj_get_single("bcc"@, enc_entity_refs(r)),
        None => (),
    }
    match e.replies {
        Some(c) => lemma_obj_get_single("replies"@, JsonV::Obj(enc_collection_members(*c))),
        None => (),
    }
    let a8 = a7 + p8;
    let a8b = a8 + p8b;
    let a9 = a8b + p9;
    let a10 = a9 + p10;
    let a11 = a10 + p11;
    let a12 = a11 + p12;
    let a13 = a12 + p13;
    let a14 = a13 + p14;
    lemma_obj_get_concat(a7, p8);
    lemma_obj_get_concat(a8, p8b);
    lemma_obj_get_concat(a8b, p9);
    lemma_obj_get_concat(a9, p10);
    lemma_obj_get_concat(a10, p11);
    lemma_obj_get_concat(a11, p12);
    lemma_obj_get_concat(a12, p13);
    lemma_obj_get_concat(a13, p14);
    assert(enc_entity_members(e) == a14);
}

/// The member facts of an encoded actor.
#[verifier::rlimit(100)]
#[verifier::spinoff_prover]
proof fn lemma_enc_actor_members_get(a: ActorV)
    ensures
        obj_matches_actor(enc_actor_members(a), a),
        obj_keys_known(enc_actor_members(a)),
{
    lemma_member_keys_distinct();
    lemma_obj_get_empty();
    lemma_enc_entity_members_get(a.extends_object);
    let pt = m_one("type"@, JsonV::Str(spec_actor_type_str(a.type_field)));
    let ems = enc_entity_members(a.extends_object);
    let ppu = m_opt_str("preferredUsername"@, a.preferred_username);
    let ppk = m_one("publicKey"@, enc_public_key(a.public_key));
    let pin = m_one("inbox"@, JsonV::Str(a.inbox.value));
    let pout = m_one("outbox"@, JsonV::Str(a.outbox.value));
    let pfol = m_one("followers"@, JsonV::Str(a.followers.value));
    let pfog = m_one("following"@, JsonV::Str(a.following.value));
    lemma_obj_get_single("type"@, JsonV::Str(spec_actor_type_str(a.type_field)));
    match a.preferred_username {
        Some(s) => lemma_obj_get_single("preferredUsername"@, JsonV::Str(s)),
        None => (),
    }
    lemma_obj_get_single("publicKey"@, enc_public_key(a.public_key));
    lemma_obj_get_single("inbox"@, JsonV::Str(a.inbox.value));
    lemma_obj_get_single("outbox"@, JsonV::Str(a.outbox.value));
    lemma_obj_get_single("followers"@, JsonV::Str(a.followers.value));
    lemma_obj_get_single("following"@, JsonV::Str(a.following.value));
    let b2 = pt + ems;
    let b3 = b2 + ppu;
    let b4 = b3 + ppk;
    let b5 = b4 + pin;
    let b6 = b5 + pout;
    let b7 = b6 + pfol;
    let b8 = b7 + pfog;
    lemma_obj_get_concat(pt, ems);
    lemma_obj_get_concat(b2, ppu);
    lemma_obj_get_concat(b3, ppk);
    lemma_obj_get_concat(b4, pin);
    lemma_obj_get_concat(b5, pout);
    lemma_obj_get_concat(b6, pfol);
    lemma_obj_get_concat(b7, pfog);
    assert(enc_actor_members(a) == b8);
}

/// The member facts of an encoded activity.
#[verifier::rlimit(100)]
#[verifier::spinoff_prover]
proof fn lemma_enc_activity_members_get(a: ActivityV)
    ensures
        obj_matches_activity(enc_activity_members(a), a),
        obj_keys_known(enc_activity_members(a)),
{
    lemma_member_keys_distinct();
    lemma_obj_get_empty();
    lemma_enc_entity_members_get(a.extends_object);
    let pt = m_one("type"@, JsonV::Str(spec_activity_type_str(a.type_field)));
    let ems = enc_entity_members(a.extends_object);
    let pac: Seq<(Seq<char>, JsonV)> = match a.actor {
        Some(r) => seq![("actor"@, enc_entity_ref(r))],
        None => Seq::empty(),
    };
    let pob: Seq<(Seq<char>, JsonV)> = match a.object {
        Some(r) => seq![("object"@, enc_entity_ref(r))],
        None => Seq::empty(),
    };
    lemma_obj_get_single("type"@, JsonV::Str(spec_activity_type_str(a.type_field)));
    match a.actor {
        Some(r) => lemma_obj_get_single("actor"@, enc_entity_ref(r)),
        None => (),
    }
    match a.object {
        Some(r) => lemma_obj_get_single("object"@, enc_entity_ref(r)),
        None => (),
    }
    let b2 = pt + ems;
    let b3 = b2 + pac;
    let b4 = b3 + pob;
    lemma_obj_get_concat(pt, ems);
    lemma_obj_get_concat(b2, pac);
    lemma_obj_get_concat(b3, pob);
    assert(enc_activity_members(a) == b4);
}

/// The member facts of an encoded intransitive activity.
#[verifier::rlimit(100)]
#[verifier::spinoff_prover]
proof fn lemma_enc_intransitive_members_get(a: IntransitiveActivityV)
    ensures
        obj_matches_intransitive(enc_intransitive_members(a), a),
        obj_keys_known(enc_intransitive_members(a)),
{
    lemma_member_keys_distinct();
    lemma_obj_get_empty();
    lemma_enc_entity_members_get(a.extends_object);
    let pt = m_one("type"@, JsonV::Str(spec_intransitive_type_str(a.type_field)));
    let ems = enc_entity_members(a.extends_object);
    let pac: Seq<(Seq<char>, JsonV)> = match a.actor {
        Some(r) => seq![("actor"@, enc_entity_ref(r))],
        None => Seq::empty(),
    };
    lemma_obj_get_single("type"@, JsonV::Str(spec_intransitive_type_str(a.type_field)));
    match a.actor {
        Some(r) => lemma_obj_get_single("actor"@, enc_entity_ref(r)),
        None => (),
    }
    let b2 = pt + ems;
    let b3 = b2 + pac;
    lemma_obj_get_concat(pt, ems);
    lemma_obj_get_concat(b2, pac);
    assert(enc_intransitive_members(a) == b3);
}

/// The member facts of an encoded collection.
#[verifier::rlimit(100)]
#[verifier::spinoff_prover]
proof fn lemma_enc_collection_members_get(c: CollectionV)
    ensures
        obj_matches_collection(enc_collection_members(c), c),
        obj_keys_known(enc_collection_members(c)),
{
    lemma_member_keys_distinct();
    lemma_obj_get_empty();
    lemma_enc_entity_members_get(c.extends_object);
    let pt = m_one("type"@, JsonV::Str(spec_collection_type_str(c.type_field)));
    let ems = enc_entity_members(c.extends_object);
    let pti = m_one("totalItems"@, JsonV::Int(c.total_items as u64));
    let pfi = m_opt_iri("first"@, c.first);
    let pla = m_opt_iri("last"@, c.last);
    let pne = m_opt_iri("next"@, c.next);
    let ppr = m_opt_iri("prev"@, c.prev);
    let ppo = m_opt_iri("partOf"@, c.part_of);
    lemma_obj_get_single("type"@, JsonV::Str(spec_collection_type_str(c.type_field)));
    lemma_obj_get_single("totalItems"@, JsonV::Int(c.total_items as u64));
    match c.first {
        Some(i) => lemma_obj_get_single("first"@, JsonV::Str(i.value)),
        None => (),
    }
    match c.last {
        Some(i) => lemma_obj_get_single("last"@, JsonV::Str(i.value)),
        None => (),
    }
    match c.next {
        Some(i) => lemma_obj_get_single("next"@, JsonV::Str(i.value)),
        None => (),
    }
    match c.prev {
        Some(i) => lemma_obj_get_single("prev"@, JsonV::Str(i.value)),
        None => (),
    }
    match c.part_of {
        Some(i) => lemma_obj_get_single("partOf"@, JsonV::Str(i.value)),
        None => (),
    }
    let b2 = pt + ems;
    let b3 = b2 + pti;
    let b4 = b3 + pfi;
    let b5 = b4 + pla;
    let b6 = b5 + pne;
    let b7 = b6 + ppr;
    let b8 = b7 + ppo;
    lemma_obj_get_concat(pt, ems);
    lemma_obj_get_concat(b2, pti);
    lemma_obj_get_concat(b3, pfi);
    lemma_obj_get_concat(b4, pla);
    lemma_obj_get_concat(b5, pne);
    lemma_obj_get_concat(b6, ppr);
    lemma_obj_get_concat(b7, ppo);
    assert(enc_collection_members(c) == b8);
}

/// An encoded public key decodes to itself.
proof fn lemma_rt_public_key(k: PublicKeyV)
    ensures
        dec_public_key(Some(enc_public_key(k))) == Ok::<PublicKeyV, DecodeError>(k),
{
    lemma_member_keys_distinct();
    reveal_strlit("id");
    reveal_strlit("owner");
    reveal_strlit("publicKeyPem");
    let p1 = m_one("id"@, JsonV::Str(k.id));
    let p2 = m_one("owner"@, JsonV::Str(k.owner));
    let p3 = m_one("publicKeyPem"@, JsonV::Str(k.public_key_pem));
    lemma_obj_get_single("id"@, JsonV::Str(k.id));
    lemma_obj_get_single("owner"@, JsonV::Str(k.owner));
    lemma_obj_get_single("publicKeyPem"@, JsonV::Str(k.public_key_pem));
    let a2 = p1 + p2;
    let a3 = a2 + p3;
    lemma_obj_get_concat(p1, p2);
    lemma_obj_get_concat(a2, p3);
    assert(enc_public_key(k) == JsonV::Obj(a3));
}

/// An encoded link descriptor decodes to itself.
proof fn lemma_rt_link_desc(d: LinkDescV)
    requires
        d.href.wf(),
    ensures
        dec_link_desc(enc_link_desc(d)) == Ok::<LinkDescV, DecodeError>(d),
{
    lemma_member_keys_distinct();
    lemma_obj_get_empty();
    let p1 = m_one("href"@, JsonV::Str(d.href.value));
    let p2 = m_opt_str("mediaType"@, d.media_type);
    let p3 = m_opt_str("name"@, d.name);
    let p4: Seq<(Seq<char>, JsonV)> = match d.height {
        Some(h) => seq![("height"@, JsonV::Int(h as u64))],
        None => Seq::empty(),
    };
    let p5: Seq<(Seq<char>, JsonV)> = match d.width {
        Some(w) => seq![("width"@, JsonV::Int(w as u64))],
        None => Seq::empty(),
    };
    lemma_obj_get_single("href"@, JsonV::Str(d.href.value));
    match d.media_type {
        Some(s) => lemma_obj_get_single("mediaType"@, JsonV::Str(s)),
        None => (),
    }
    match d.name {
        Some(s) => lemma_obj_get_single("name"@, JsonV::Str(s)),
        None => (),
    }
    match d.height {
        Some(h) => lemma_obj_get_single("height"@, JsonV::Int(h as u64)),
        None => (),
    }
    match d.width {
        Some(w) => lemma_obj_get_single("width"@, JsonV::Int(w as u64)),
        None => (),
    }
    let a2 = p1 + p2;
    let a3 = a2 + p3;
    let a4 = a3 + p4;
    let a5 = a4 + p5;
    lemma_obj_get_concat(p1, p2);
    lemma_obj_get_concat(a2, p3);
    lemma_obj_get_concat(a3, p4);
    lemma_obj_get_concat(a4, p5);
    assert(enc_link_desc(d) == a5);
}

/// An encoded link reference decodes to itself.
proof fn lemma_rt_link_ref(r: LinkRefV)
    requires
        wf_link_ref(r),
    ensures
        dec_link_ref(enc_link_ref(r)) == Ok::<LinkRefV, DecodeError>(r),
{
    match r {
        LinkRefV::Id(i) => {},
        LinkRefV::Expanded(d) => {
            lemma_rt_link_desc(d);
        },
    }
}

proof fn lemma_rt_link_ref_seq(v: Seq<LinkRefV>)
    requires
        wf_link_ref_seq(v),
    ensures
        dec_link_ref_seq(enc_link_ref_seq(v)) == Ok::<Seq<LinkRefV>, DecodeError>(v),
    decreases v,
{
    if v.len() == 0 {
        assert(v =~= Seq::<LinkRefV>::empty());
    } else {
        lemma_rt_link_ref(v[0]);
        lemma_rt_link_ref_seq(v.drop_first());
        let items = enc_link_ref_seq(v);
        assert(items[0] == enc_link_ref(v[0]));
        assert(items.drop_first() =~= enc_link_ref_seq(v.drop_first()));
        assert(seq![v[0]] + v.drop_first() =~= v);
    }
}

/// An encoded one-or-many link member decodes to itself, in the same shape.
proof fn lemma_rt_link_refs(r: LinkRefsV)
    requires
        wf_link_refs(r),
    ensures
        dec_link_refs(Some(enc_link_refs(r))) == Ok::<Option<LinkRefsV>, DecodeError>(Some(r)),
{
    match r {
        LinkRefsV::One(l) => {
            lemma_rt_link_ref(l);
            assert(!(enc_link_ref(l) is Arr));
        },
        LinkRefsV::Many(v) => {
            lemma_rt_link_ref_seq(v);
        },
    }
}

// -------------------------------------------------- decoding an encoding

/// A member list that matches `e` decodes to `e`, with the `type` override
/// `kov` landing in the decoded entity's `kind`.
#[verifier::rlimit(100)]
#[verifier::spinoff_prover]
proof fn lemma_dec_entity_on(ms: Seq<(Seq<char>, JsonV)>, e: EntityV, kov: Option<Seq<char>>)
    requires
        wf_entity(e),
        obj_matches_entity(ms, e, kov),
    ensures
        dec_entity(ms) == Ok::<EntityV, DecodeError>(
            EntityV {
                kind: match kov {
                    Some(t) => Some(t),
                    None => e.kind,
                },
                ..e
            },
        ),
    decreases e, 0int,
{
    reveal(dec_entity);
    lemma_kind_facts();
    assert(dec_iri(JsonV::Str(e.id.value)) == Ok::<IriV, DecodeError>(e.id));
    assert(dec_opt_str(spec_obj_get(ms, "type"@)) == Ok::<Option<Seq<char>>, DecodeError>(
        match kov {
            Some(t) => Some(t),
            None => e.kind,
        },
    ));
    assert(dec_opt_str(spec_obj_get(ms, "name"@)) == Ok::<Option<Seq<char>>, DecodeError>(
        e.name,
    ));
    assert(dec_opt_str(spec_obj_get(ms, "content"@)) == Ok::<Option<Seq<char>>, DecodeError>(
        e.content,
    ));
    assert(dec_media_type(spec_obj_get(ms, "mediaType"@)) == Ok::<
        Option<crate::vocab::MediaType>,
        DecodeError,
    >(e.media_type));
    assert(dec_opt_str(spec_obj_get(ms, "published"@)) == Ok::<
        Option<Seq<char>>,
        DecodeError,
    >(e.published));
    assert(dec_opt_str(spec_obj_get(ms, "updated"@)) == Ok::<Option<Seq<char>>, DecodeError>(
        e.updated,
    ));
    match e.attachment {
        Some(a) => lemma_rt_link_refs(a),
        None => (),
    }
    assert(dec_link_refs(spec_obj_get(ms, "attachment"@)) == Ok::<
        Option<LinkRefsV>,
        DecodeError,
    >(e.attachment));
    match e.attributed_to {
        Some(r) => lemma_rt_entity_ref(r),
        None => (),
    }
    match e.in_reply_to {
        Some(r) => lemma_rt_entity_ref(r),
        None => (),
    }
    match e.to {
        Some(r) => lemma_rt_refs(r),
        None => (),
    }
    assert(dec_refs_field(ms, "to"@) == Ok::<Option<EntityRefsV>, DecodeError>(e.to));
    match e.cc {
        Some(r) => lemma_rt_refs(r),
        None => (),
    }
    assert(dec_refs_field(ms, "cc"@) == Ok::<Option<EntityRefsV>, DecodeError>(e.cc));
    match e.bto {
        Some(r) => lemma_rt_refs(r),
        None => (),
    }
    assert(dec_refs_field(ms, "bto"@) == Ok::<Option<EntityRefsV>, DecodeError>(e.bto));
    match e.bcc {
        Some(r) => lemma_rt_refs(r),
        None => (),
    }
    assert(dec_refs_field(ms, "bcc"@) == Ok::<Option<EntityRefsV>, DecodeError>(e.bcc));
    match e.replies {
        Some(c) => lemma_rt_collection(*c),
        None => (),
    }
}

/// An encoded one-or-many reference member decodes to itself, in the same
/// shape.
proof fn lemma_rt_refs(rs: EntityRefsV)
    requires
        wf_entity_refs(rs),
    ensures
        dec_entity_refs_val(enc_entity_refs(rs)) == Ok::<EntityRefsV, DecodeError>(rs),
    decreases rs, 0int,
{
    match rs {
        EntityRefsV::One(r) => {
            lemma_rt_entity_ref(r);
            assert(!(enc_entity_ref(r) is Arr));
        },
        EntityRefsV::Many(v) => {
            lemma_rt_entity_ref_seq(v);
        },
    }
}

proof fn lemma_rt_entity_ref_seq(v: Seq<EntityRefV>)
    requires
        wf_entity_ref_seq(v),
    ensures
        dec_entity_ref_seq(enc_entity_ref_seq(v)) == Ok::<Seq<EntityRefV>, DecodeError>(v),
    decreases v, 0int,
{
    if v.len() == 0 {
        assert(v =~= Seq::<EntityRefV>::empty());
    } else {
        lemma_rt_entity_ref(v[0]);
        lemma_rt_entity_ref_seq(v.drop_first());
        let items = enc_entity_ref_seq(v);
        assert(items[0] == enc_entity_ref(v[0]));
        assert(items.drop_first() =~= enc_entity_ref_seq(v.drop_first()));
        assert(seq![v[0]] + v.drop_first() =~= v);
    }
}

/// An encoded entity reference decodes to itself: a bare identifier stays
/// a bare identifier, an embedded entity stays embedded.
#[verifier::rlimit(100)]
#[verifier::spinoff_prover]
proof fn lemma_rt_entity_ref(r: EntityRefV)
    requires
        wf_entity_ref(r),
    ensures
        dec_entity_ref(enc_entity_ref(r)) == Ok::<EntityRefV, DecodeError>(r),
    decreases r, 2int,
{
    reveal(dec_entity);
    match r {
        EntityRefV::Id(i) => {
            assert(dec_iri(JsonV::Str(i.value)) == Ok::<IriV, DecodeError>(i));
        },
        EntityRefV::Embedded(e) => {
            lemma_rt_entity(*e);
        },
    }
}

/// An encoded entity's members decode back to the entity.
proof fn lemma_rt_entity(e: EntityV)
    requires
        wf_entity(e),
    ensures
        dec_entity(enc_entity_members(e)) == Ok::<EntityV, DecodeError>(e),
    decreases e, 1int,
{
    lemma_enc_entity_members_get(e);
    lemma_dec_entity_on(enc_entity_members(e), e, None);
    assert(EntityV { kind: e.kind, ..e } == e);
}

/// A member list that matches `c` decodes to `c`.
#[verifier::rlimit(100)]
proof fn lemma_dec_collection_on(ms: Seq<(Seq<char>, JsonV)>, c: CollectionV)
    requires
        wf_collection(c),
        obj_matches_collection(ms, c),
    ensures
        dec_collection(ms, c.type_field) == Ok::<CollectionV, DecodeError>(c),
    decreases c, 1int,
{
    reveal(dec_entity);
    lemma_dec_entity_on(
        ms,
        c.extends_object,
        Some(spec_collection_type_str(c.type_field)),
    );
    let decoded = EntityV {
        kind: Some(spec_collection_type_str(c.type_field)),
        ..c.extends_object
    };
    assert(strip_kind(decoded) == c.extends_object);
    assert(c.total_items as u64 <= u32::MAX as u64);
    match c.first {
        Some(i) => assert(dec_iri(JsonV::Str(i.value)) == Ok::<IriV, DecodeError>(i)),
        None => (),
    }
    match c.last {
        Some(i) => assert(dec_iri(JsonV::Str(i.value)) == Ok::<IriV, DecodeError>(i)),
        None => (),
    }
    match c.next {
        Some(i) => assert(dec_iri(JsonV::Str(i.value)) == Ok::<IriV, DecodeError>(i)),
        None => (),
    }
    match c.prev {
        Some(i) => assert(dec_iri(JsonV::Str(i.value)) == Ok::<IriV, DecodeError>(i)),
        None => (),
    }
    match c.part_of {
        Some(i) => assert(dec_iri(JsonV::Str(i.value)) == Ok::<IriV, DecodeError>(i)),
        None => (),
    }
}

/// An encoded collection decodes to itself, both as a member list and as
/// the value of a `replies` member.
proof fn lemma_rt_collection(c: CollectionV)
    requires
        wf_collection(c),
    ensures
        dec_collection(enc_collection_members(c), c.type_field) == Ok::<
            CollectionV,
            DecodeError,
        >(c),
        dec_replies_val(JsonV::Obj(enc_collection_members(c))) == Ok::<
            Box<CollectionV>,
            DecodeError,
        >(Box::new(c)),
    decreases c, 2int,
{
    lemma_kind_facts();
    lemma_enc_collection_members_get(c);
    lemma_dec_collection_on(enc_collection_members(c), c);
}

/// A member list that matches `a` decodes to `a`.
#[verifier::rlimit(100)]
proof fn lemma_dec_actor_on(ms: Seq<(Seq<char>, JsonV)>, a: ActorV)
    requires
        wf_actor(a),
        obj_matches_actor(ms, a),
    ensures
        dec_actor(ms, a.type_field) == Ok::<ActorV, DecodeError>(a),
{
    lemma_dec_entity_on(ms, a.extends_object, Some(spec_actor_type_str(a.type_field)));
    let decoded = EntityV { kind: Some(spec_actor_type_str(a.type_field)), ..a.extends_object };
    assert(strip_kind(decoded) == a.extends_object);
    lemma_rt_public_key(a.public_key);
    assert(dec_iri(JsonV::Str(a.inbox.value)) == Ok::<IriV, DecodeError>(a.inbox));
    assert(dec_iri(JsonV::Str(a.outbox.value)) == Ok::<IriV, DecodeError>(a.outbox));
    assert(dec_iri(JsonV::Str(a.followers.value)) == Ok::<IriV, DecodeError>(a.followers));
    assert(dec_iri(JsonV::Str(a.following.value)) == Ok::<IriV, DecodeError>(a.following));
}

/// A member list that matches `a` decodes to `a`.
#[verifier::rlimit(100)]
proof fn lemma_dec_activity_on(ms: Seq<(Seq<char>, JsonV)>, a: ActivityV)
    requires
        wf_activity(a),
        obj_matches_activity(ms, a),
    ensures
        dec_activity(ms, a.type_field) == Ok::<ActivityV, DecodeError>(a),
{
    lemma_dec_entity_on(ms, a.extends_object, Some(spec_activity_type_str(a.type_field)));
    let decoded = EntityV {
        kind: Some(spec_activity_type_str(a.type_field)),
        ..a.extends_object
    };
    assert(strip_kind(decoded) == a.extends_object);
    match a.actor {
        Some(r) => lemma_rt_entity_ref(r),
        None => (),
    }
    match a.object {
        Some(r) => lemma_rt_entity_ref(r),
        None => (),
    }
}

/// A member list that matches `a` decodes to `a`.
#[verifier::rlimit(100)]
proof fn lemma_dec_intransitive_on(ms: Seq<(Seq<char>, JsonV)>, a: IntransitiveActivityV)
    requires
        wf_intransitive(a),
        obj_matches_intransitive(ms, a),
    ensures
        dec_intransitive(ms, a.type_field) == Ok::<IntransitiveActivityV, DecodeError>(a),
{
    lemma_dec_entity_on(
        ms,
        a.extends_object,
        Some(spec_intransitive_type_str(a.type_field)),
    );
    let decoded = EntityV {
        kind: Some(spec_intransitive_type_str(a.type_field)),
        ..a.extends_object
    };
    assert(strip_kind(decoded) == a.extends_object);
    match a.actor {
        Some(r) => lemma_rt_entity_ref(r),
        None => (),
    }
}

/// A member list that matches `x` dispatches to the right variant and
/// decodes to `x`.
#[verifier::rlimit(100)]
proof fn lemma_dec_object_on(ms: Seq<(Seq<char>, JsonV)>, x: ExtendsObjectV)
    requires
        wf_object(x),
        obj_matches(ms, x),
    ensures
        dec_object_members(ms) == Ok::<ExtendsObjectV, DecodeError>(x),
{
    lemma_kind_facts();
    match x {
        ExtendsObjectV::Entity(e) => {
            lemma_dec_entity_on(ms, *e, None);
        },
        ExtendsObjectV::Actor(a) => {
            lemma_dec_actor_on(ms, *a);
        },
        ExtendsObjectV::Activity(a) => {
            lemma_dec_activity_on(ms, *a);
        },
        ExtendsObjectV::Intransitive(a) => {
            lemma_dec_intransitive_on(ms, *a);
        },
        ExtendsObjectV::Collection(c) => {
            lemma_dec_collection_on(ms, *c);
        },
    }
}

proof fn lemma_rt_context_strings(v: Seq<Seq<char>>)
    ensures
        dec_context_strings(enc_context_strings(v)) == Ok::<Seq<Seq<char>>, DecodeError>(v),
    decreases v,
{
    if v.len() == 0 {
        assert(v =~= Seq::<Seq<char>>::empty());
    } else {
        lemma_rt_context_strings(v.drop_first());
        let items = enc_context_strings(v);
        assert(items[0] == JsonV::Str(v[0]));
        assert(items.drop_first() =~= enc_context_strings(v.drop_first()));
        assert(seq![v[0]] + v.drop_first() =~= v);
    }
}

proof fn lemma_rt_context(c: ContextV)
    ensures
        dec_context(Some(enc_context(c))) == Ok::<Option<ContextV>, DecodeError>(Some(c)),
{
    match c {
        ContextV::Single(s) => {},
        ContextV::Array(v) => {
            lemma_rt_context_strings(v);
        },
    }
}

// ----------------------------------------------------------- the laws

/// Round trip: decoding the encoding of any constructible document gives
/// back the document, field for field.
#[verifier::rlimit(100)]
#[verifier::spinoff_prover]
pub proof fn lemma_document_round_trip(d: DocumentV)
    requires
        wf_document(d),
    ensures
        spec_decode(spec_encode(d)) == Ok::<DocumentV, DecodeError>(d),
{
    lemma_member_keys_distinct();
    reveal_strlit("@context");
    lemma_obj_get_empty();
    let ms_obj = enc_object_members(d.entity);
    match d.entity {
        ExtendsObjectV::Entity(e) => lemma_enc_entity_members_get(*e),
        ExtendsObjectV::Actor(a) => lemma_enc_actor_members_get(*a),
        ExtendsObjectV::Activity(a) => lemma_enc_activity_members_get(*a),
        ExtendsObjectV::Intransitive(a) => lemma_enc_intransitive_members_get(*a),
        ExtendsObjectV::Collection(c) => lemma_enc_collection_members_get(*c),
    }
    let pc: Seq<(Seq<char>, JsonV)> = match d.context {
        Some(c) => seq![("@context"@, enc_context(c))],
        None => Seq::empty(),
    };
    match d.context {
        Some(c) => lemma_obj_get_single("@context"@, enc_context(c)),
        None => (),
    }
    lemma_obj_get_concat(pc, ms_obj);
    let full = pc + ms_obj;
    assert(spec_encode(d) == JsonV::Obj(full));
    assert(spec_obj_get(ms_obj, "@context"@) is None);
    match d.context {
        Some(c) => lemma_rt_context(c),
        None => (),
    }
    assert(obj_matches(full, d.entity)) by {
        match d.entity {
            ExtendsObjectV::Entity(e) => {
                lemma_enc_entity_members_get(*e);
            },
            ExtendsObjectV::Actor(a) => {
                lemma_enc_actor_members_get(*a);
            },
            ExtendsObjectV::Activity(a) => {
                lemma_enc_activity_members_get(*a);
            },
            ExtendsObjectV::Intransitive(a) => {
                lemma_enc_intransitive_members_get(*a);
            },
            ExtendsObjectV::Collection(c) => {
                lemma_enc_collection_members_get(*c);
            },
        }
    }
    lemma_dec_object_on(full, d.entity);
}

/// Reference decode precedence: an object shape always decodes to an
/// embedded-entity reference, a bare string always to an identifier-only
/// reference.
pub proof fn lemma_entity_ref_precedence(ms: Seq<(Seq<char>, JsonV)>, s: Seq<char>)
    ensures
        dec_entity_ref(JsonV::Obj(ms)) matches Ok(r) ==> r is Embedded,
        dec_entity_ref(JsonV::Str(s)) matches Ok(r) ==> r is Id,
{
}

} // verus!
