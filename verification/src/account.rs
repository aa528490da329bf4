//! Account and instance-actor plumbing: the canonical URLs derived from a
//! domain and username, and the construction of the instance's own actor.

use vstd::prelude::*;
use crate::vocab::{Actor, ActorType, Context, Document, Entity, ExtendsObject, PublicKey};
use crate::iri::Iri;

verus! {

/// Instance configuration handed in by the application.
#[derive(Debug, Clone)]
pub struct Config {
    pub database_url: String,
    pub instance_domain: String,
}

/// The canonical URLs belonging to one account.
#[derive(Debug, Clone)]
pub struct UserLinks {
    pub id: String,
    pub inbox: String,
    pub outbox: String,
    pub followers: String,
    pub following: String,
    pub liked: String,
}

/// `https://` + `domain` + `mid` + `tail`.
fn web_path(domain: &str, mid: &str, tail: &str) -> (r: String)
    ensures
        r@ == "https://"@ + domain@ + mid@ + tail@,
{
    let mut s = String::new();
    s.append("https://");
    s.append(domain);
    s.append(mid);
    s.append(tail);
    proof {
        assert(s@ =~= "https://"@ + domain@ + mid@ + tail@);
    }
    s
}

/// `base` + `tail`.
fn with_tail(base: &str, tail: &str) -> (r: String)
    ensures
        r@ == base@ + tail@,
{
    let mut s = String::new();
    s.append(base);
    s.append(tail);
    s
}

/// The canonical URLs of the account `uname` on `domain`.
pub fn generate_links(domain: &str, uname: &str) -> (r: UserLinks)
    ensures
        r.id@ == "https://"@ + domain@ + "/users/"@ + uname@,
        r.inbox@ == r.id@ + "/inbox"@,
        r.outbox@ == r.id@ + "/outbox"@,
        r.followers@ == r.id@ + "/followers"@,
        r.following@ == r.id@ + "/following"@,
        r.liked@ == r.id@ + "/liked"@,
{
    let id = web_path(domain, "/users/", uname);
    let inbox = with_tail(id.as_str(), "/inbox");
    let outbox = with_tail(id.as_str(), "/outbox");
    let followers = with_tail(id.as_str(), "/followers");
    let following = with_tail(id.as_str(), "/following");
    let liked = with_tail(id.as_str(), "/liked");
    UserLinks { id, inbox, outbox, followers, following, liked }
}

/// The canonical URLs of the instance's own service actor on `domain`.
pub fn instance_actor_links(domain: &str) -> (r: UserLinks)
    ensures
        r.id@ == "https://"@ + domain@ + "/actor"@,
        r.inbox@ == r.id@ + "/inbox"@,
        r.outbox@ == r.id@ + "/outbox"@,
        r.followers@ == r.id@ + "/followers"@,
        r.following@ == r.id@ + "/following"@,
        r.liked@ == r.id@ + "/liked"@,
{
    let id = web_path(domain, "/actor", "");
    proof {
        reveal_strlit("");
        assert(""@ =~= Seq::<char>::empty());
        assert(id@ =~= "https://"@ + domain@ + "/actor"@);
    }
    let inbox = with_tail(id.as_str(), "/inbox");
    let outbox = with_tail(id.as_str(), "/outbox");
    let followers = with_tail(id.as_str(), "/followers");
    let following = with_tail(id.as_str(), "/following");
    let liked = with_tail(id.as_str(), "/liked");
    UserLinks { id, inbox, outbox, followers, following, liked }
}

/// The key identifier of an actor: its id plus the `#main-key` fragment.
pub fn main_key_id(actor_id: &str) -> (r: String)
    ensures
        r@ == actor_id@ + "#main-key"@,
{
    with_tail(actor_id, "#main-key")
}

/// The instance's own actor: its document identity, signing key id, and
/// private key in PEM form.
pub struct InstanceActor {
    pub actor: Actor,
    pub key_id: String,
    pub private_key_pem: String,
}

impl InstanceActor {
    /// Builds the instance actor from its key pair and domain. It succeeds
    /// exactly when every derived URL is an absolute URL with a host, which
    /// holds for any well-formed domain.
    pub fn new(private_key_pem: String, public_key_pem: String, domain: &str) -> (r: Option<
        InstanceActor,
    >)
        ensures
            ({
                let idt = "https://"@ + domain@ + "/actor"@;
                &&& (r is Some <==> crate::iri::iri_host_of(idt) is Some
                    && crate::iri::iri_host_of(idt + "/inbox"@) is Some
                    && crate::iri::iri_host_of(idt + "/outbox"@) is Some
                    && crate::iri::iri_host_of(idt + "/followers"@) is Some
                    && crate::iri::iri_host_of(idt + "/following"@) is Some)
                &&& (r matches Some(ia) ==> {
                    &&& ia.actor.public_key.public_key_pem@ == public_key_pem@
                    &&& ia.private_key_pem@ == private_key_pem@
                    &&& ia.key_id@ == idt + "#main-key"@
                    &&& ia.actor.public_key.id@ == ia.key_id@
                    &&& ia.actor.public_key.owner@ == idt
                    &&& ia.actor.extends_object.id@.value == idt
                    &&& ia.actor.extends_object.id@.wf()
                    &&& ia.actor.inbox@.value == idt + "/inbox"@ && ia.actor.inbox@.wf()
                    &&& ia.actor.outbox@.value == idt + "/outbox"@ && ia.actor.outbox@.wf()
                    &&& ia.actor.followers@.value == idt + "/followers"@
                        && ia.actor.followers@.wf()
                    &&& ia.actor.following@.value == idt + "/following"@
                        && ia.actor.following@.wf()
                    &&& ia.actor.type_field == ActorType::Application
                })
            }),
    {
        let links = instance_actor_links(domain);
        let id = match Iri::parse(links.id.as_str()) {
            Some(i) => i,
            None => {
                return None;
            },
        };
        let inbox = match Iri::parse(links.inbox.as_str()) {
            Some(i) => i,
            None => {
                return None;
            },
        };
        let outbox = match Iri::parse(links.outbox.as_str()) {
            Some(i) => i,
            None => {
                return None;
            },
        };
        let followers = match Iri::parse(links.followers.as_str()) {
            Some(i) => i,
            None => {
                return None;
            },
        };
        let following = match Iri::parse(links.following.as_str()) {
            Some(i) => i,
            None => {
                return None;
            },
        };
        let key_id = main_key_id(links.id.as_str());
        let public_key = PublicKey {
            id: key_id.clone(),
            owner: links.id.clone(),
            public_key_pem,
        };
        let actor = Actor {
            type_field: ActorType::Application,
            preferred_username: Some("instance.actor".to_owned()),
            extends_object: Entity {
                id,
                kind: None,
                name: None,
                content: None,
                media_type: None,
                published: None,
                updated: None,
                attachment: None,
                attributed_to: None,
                in_reply_to: None,
                to: None,
                cc: None,
                bto: None,
                bcc: None,
                replies: None,
            },
            public_key,
            inbox,
            outbox,
            followers,
            following,
        };
        Some(InstanceActor { actor, key_id, private_key_pem })
    }
}

impl Actor {
    /// Wraps this actor as a top-level document with the two standard
    /// context IRIs.
    pub fn to_activitystream(self) -> (r: Document)
        ensures
            r@.entity matches crate::vocab::ExtendsObjectV::Actor(a) && *a
                == crate::vocab::view_actor(self),
            r@.context == Some(
                crate::vocab::ContextV::Array(
                    seq!["https://www.w3.org/ns/activitystreams"@, "https://w3id.org/security/v1"@],
                ),
            ),
    {
        let mut ctx: Vec<String> = Vec::new();
        ctx.push("https://www.w3.org/ns/activitystreams".to_owned());
        ctx.push("https://w3id.org/security/v1".to_owned());
        proof {
            assert(ctx.deep_view() =~= seq![
                "https://www.w3.org/ns/activitystreams"@,
                "https://w3id.org/security/v1"@,
            ]);
        }
        Document {
            context: Some(Context::Array(ctx)),
            entity: ExtendsObject::Actor(Box::new(self)),
        }
    }
}

impl Document {
    /// The actor embedded at the top level of this document, if that is
    /// what it holds.
    pub fn get_actor(self) -> (r: Option<Box<Actor>>)
        ensures
            match self@.entity {
                crate::vocab::ExtendsObjectV::Actor(a) => r matches Some(b) && crate::vocab::view_actor(
                    *b,
                ) == *a,
                _ => r is None,
            },
    {
        match self.entity {
            ExtendsObject::Actor(a) => Some(a),
            _ => None,
        }
    }
}

} // verus!
