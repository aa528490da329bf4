//! The vocabulary model: typed representation of the wire documents.
//! Every concrete kind of the shallow inheritance lattice (entities, actors,
//! activities, collections) flattens its parent's fields into its own
//! structure and carries a discriminator enum; a reference to another entity
//! is always an [`EntityRef`], either a bare identifier or an embedded
//! entity.

use vstd::prelude::*;
use crate::iri::{Iri, IriV};

verus! {

// ---------------------------------------------------------------- enums

/// Media type of textual content.
#[derive(Debug, Clone, Copy, PartialEq, Eq, Structural)]
pub enum MediaType {
    Html,
    Markdown,
}

/// Discriminators of the actor kinds.
#[derive(Debug, Clone, Copy, PartialEq, Eq, Structural)]
pub enum ActorType {
    Actor,
    Application,
    Group,
    Organization,
    Person,
    Service,
}

/// Discriminators of the transitive activity kinds.
#[derive(Debug, Clone, Copy, PartialEq, Eq, Structural)]
pub enum ActivityType {
    Activity,
    Accept,
    TentativeAccept,
    Add,
    Create,
    Delete,
    Follow,
    Ignore,
    Join,
    Leave,
    Like,
    Offer,
    Invite,
    Reject,
    TentativeReject,
    Remove,
    Undo,
    Update,
    View,
    Listen,
    Read,
    Move,
    Announce,
    Block,
    Flag,
    Dislike,
}

/// Discriminators of the intransitive activity kinds.
#[derive(Debug, Clone, Copy, PartialEq, Eq, Structural)]
pub enum IntransitiveType {
    IntransitiveActivity,
    Arrive,
    Travel,
}

/// Discriminators of the collection kinds.
#[derive(Debug, Clone, Copy, PartialEq, Eq, Structural)]
pub enum CollectionType {
    Collection,
    OrderedCollection,
    CollectionPage,
    OrderedCollectionPage,
}

/// Discriminators of plain object kinds that local builders use. A decoded
/// generic entity keeps its discriminator verbatim instead, so unknown
/// vocabulary extensions survive a round trip.
#[derive(Debug, Clone, Copy, PartialEq, Eq, Structural)]
pub enum ObjectType {
    Object,
    Relationship,
    Article,
    Note,
    Document,
    Audio,
    Image,
    Video,
    Page,
    Event,
    Place,
    Profile,
    Tombstone,
}

// ------------------------------------------------- wire names of the enums

pub open spec fn spec_media_type_str(t: MediaType) -> Seq<char> {
    match t {
        MediaType::Html => "text/html"@,
        MediaType::Markdown => "text/markdown"@,
    }
}

pub open spec fn spec_media_type_of(s: Seq<char>) -> Option<MediaType> {
    if s == spec_media_type_str(MediaType::Html) {
        Some(MediaType::Html)
    } else if s == spec_media_type_str(MediaType::Markdown) {
        Some(MediaType::Markdown)
    } else {
        None
    }
}

pub open spec fn spec_actor_type_str(t: ActorType) -> Seq<char> {
    match t {
        ActorType::Actor => "Actor"@,
        ActorType::Application => "Application"@,
        ActorType::Group => "Group"@,
        ActorType::Organization => "Organization"@,
        ActorType::Person => "Person"@,
        ActorType::Service => "Service"@,
    }
}

pub open spec fn spec_actor_type_of(s: Seq<char>) -> Option<ActorType> {
    if s == spec_actor_type_str(ActorType::Actor) {
        Some(ActorType::Actor)
    } else if s == spec_actor_type_str(ActorType::Application) {
        Some(ActorType::Application)
    } else if s == spec_actor_type_str(ActorType::Group) {
        Some(ActorType::Group)
    } else if s == spec_actor_type_str(ActorType::Organization) {
        Some(ActorType::Organization)
    } else if s == spec_actor_type_str(ActorType::Person) {
        Some(ActorType::Person)
    } else if s == spec_actor_type_str(ActorType::Service) {
        Some(ActorType::Service)
    } else {
        None
    }
}

pub open spec fn spec_activity_type_str(t: ActivityType) -> Seq<char> {
    match t {
        ActivityType::Activity => "Activity"@,
        ActivityType::Accept => "Accept"@,
        ActivityType::TentativeAccept => "TentativeAccept"@,
        ActivityType::Add => "Add"@,
        ActivityType::Create => "Create"@,
        ActivityType::Delete => "Delete"@,
        ActivityType::Follow => "Follow"@,
        ActivityType::Ignore => "Ignore"@,
        ActivityType::Join => "Join"@,
        ActivityType::Leave => "Leave"@,
        ActivityType::Like => "Like"@,
        ActivityType::Offer => "Offer"@,
        ActivityType::Invite => "Invite"@,
        ActivityType::Reject => "Reject"@,
        ActivityType::TentativeReject => "TentativeReject"@,
        ActivityType::Remove => "Remove"@,
        ActivityType::Undo => "Undo"@,
        ActivityType::Update => "Update"@,
        ActivityType::View => "View"@,
        ActivityType::Listen => "Listen"@,
        ActivityType::Read => "Read"@,
        ActivityType::Move => "Move"@,
        ActivityType::Announce => "Announce"@,
        ActivityType::Block => "Block"@,
        ActivityType::Flag => "Flag"@,
        ActivityType::Dislike => "Dislike"@,
    }
}

pub open spec fn spec_activity_type_of(s: Seq<char>) -> Option<ActivityType> {
    if s == spec_activity_type_str(ActivityType::Activity) {
        Some(ActivityType::Activity)
    } else if s == spec_activity_type_str(ActivityType::Accept) {
        Some(ActivityType::Accept)
    } else if s == spec_activity_type_str(ActivityType::TentativeAccept) {
        Some(ActivityType::TentativeAccept)
    } else if s == spec_activity_type_str(ActivityType::Add) {
        Some(ActivityType::Add)
    } else if s == spec_activity_type_str(ActivityType::Create) {
        Some(ActivityType::Create)
    } else if s == spec_activity_type_str(ActivityType::Delete) {
        Some(ActivityType::Delete)
    } else if s == spec_activity_type_str(ActivityType::Follow) {
        Some(ActivityType::Follow)
    } else if s == spec_activity_type_str(ActivityType::Ignore) {
        Some(ActivityType::Ignore)
    } else if s == spec_activity_type_str(ActivityType::Join) {
        Some(ActivityType::Join)
    } else if s == spec_activity_type_str(ActivityType::Leave) {
        Some(ActivityType::Leave)
    } else if s == spec_activity_type_str(ActivityType::Like) {
        Some(ActivityType::Like)
    } else if s == spec_activity_type_str(ActivityType::Offer) {
        Some(ActivityType::Offer)
    } else if s == spec_activity_type_str(ActivityType::Invite) {
        Some(ActivityType::Invite)
    } else if s == spec_activity_type_str(ActivityType::Reject) {
        Some(ActivityType::Reject)
    } else if s == spec_activity_type_str(ActivityType::TentativeReject) {
        Some(ActivityType::TentativeReject)
    } else if s == spec_activity_type_str(ActivityType::Remove) {
        Some(ActivityType::Remove)
    } else if s == spec_activity_type_str(ActivityType::Undo) {
        Some(ActivityType::Undo)
    } else if s == spec_activity_type_str(ActivityType::Update) {
        Some(ActivityType::Update)
    } else if s == spec_activity_type_str(ActivityType::View) {
        Some(ActivityType::View)
    } else if s == spec_activity_type_str(ActivityType::Listen) {
        Some(ActivityType::Listen)
    } else if s == spec_activity_type_str(ActivityType::Read) {
        Some(ActivityType::Read)
    } else if s == spec_activity_type_str(ActivityType::Move) {
        Some(ActivityType::Move)
    } else if s == spec_activity_type_str(ActivityType::Announce) {
        Some(ActivityType::Announce)
    } else if s == spec_activity_type_str(ActivityType::Block) {
        Some(ActivityType::Block)
    } else if s == spec_activity_type_str(ActivityType::Flag) {
        Some(ActivityType::Flag)
    } else if s == spec_activity_type_str(ActivityType::Dislike) {
        Some(ActivityType::Dislike)
    } else {
        None
    }
}

pub open spec fn spec_intransitive_type_str(t: IntransitiveType) -> Seq<char> {
    match t {
        IntransitiveType::IntransitiveActivity => "IntransitiveActivity"@,
        IntransitiveType::Arrive => "Arrive"@,
        IntransitiveType::Travel => "Travel"@,
    }
}

pub open spec fn spec_intransitive_type_of(s: Seq<char>) -> Option<IntransitiveType> {
    if s == spec_intransitive_type_str(IntransitiveType::IntransitiveActivity) {
        Some(IntransitiveType::IntransitiveActivity)
    } else if s == spec_intransitive_type_str(IntransitiveType::Arrive) {
        Some(IntransitiveType::Arrive)
    } else if s == spec_intransitive_type_str(IntransitiveType::Travel) {
        Some(IntransitiveType::Travel)
    } else {
        None
    }
}

pub open spec fn spec_collection_type_str(t: CollectionType) -> Seq<char> {
    match t {
        CollectionType::Collection => "Collection"@,
        CollectionType::OrderedCollection => "OrderedCollection"@,
        CollectionType::CollectionPage => "CollectionPage"@,
        CollectionType::OrderedCollectionPage => "OrderedCollectionPage"@,
    }
}

pub open spec fn spec_collection_type_of(s: Seq<char>) -> Option<CollectionType> {
    if s == spec_collection_type_str(CollectionType::Collection) {
        Some(CollectionType::Collection)
    } else if s == spec_collection_type_str(CollectionType::OrderedCollection) {
        Some(CollectionType::OrderedCollection)
    } else if s == spec_collection_type_str(CollectionType::CollectionPage) {
        Some(CollectionType::CollectionPage)
    } else if s == spec_collection_type_str(CollectionType::OrderedCollectionPage) {
        Some(CollectionType::OrderedCollectionPage)
    } else {
        None
    }
}

pub open spec fn spec_object_type_str(t: ObjectType) -> Seq<char> {
    match t {
        ObjectType::Object => "Object"@,
        ObjectType::Relationship => "Relationship"@,
        ObjectType::Article => "Article"@,
        ObjectType::Note => "Note"@,
        ObjectType::Document => "Document"@,
        ObjectType::Audio => "Audio"@,
        ObjectType::Image => "Image"@,
        ObjectType::Video => "Video"@,
        ObjectType::Page => "Page"@,
        ObjectType::Event => "Event"@,
        ObjectType::Place => "Place"@,
        ObjectType::Profile => "Profile"@,
        ObjectType::Tombstone => "Tombstone"@,
    }
}

/// The wire string of a plain object kind.
pub fn object_type_text(t: ObjectType) -> (r: &'static str)
    ensures
        r@ == spec_object_type_str(t),
{
    match t {
        ObjectType::Object => "Object",
        ObjectType::Relationship => "Relationship",
        ObjectType::Article => "Article",
        ObjectType::Note => "Note",
        ObjectType::Document => "Document",
        ObjectType::Audio => "Audio",
        ObjectType::Image => "Image",
        ObjectType::Video => "Video",
        ObjectType::Page => "Page",
        ObjectType::Event => "Event",
        ObjectType::Place => "Place",
        ObjectType::Profile => "Profile",
        ObjectType::Tombstone => "Tombstone",
    }
}

// ---------------------------------------------------------------- structs

/// A context field: a single IRI or a list of IRIs, kept in the shape that
/// was present on the wire.
#[derive(Debug, Clone)]
pub enum Context {
    Array(Vec<String>),
    Single(String),
}

pub enum ContextV {
    Array(Seq<Seq<char>>),
    Single(Seq<char>),
}

impl View for Context {
    type V = ContextV;

    open spec fn view(&self) -> ContextV {
        match self {
            Context::Array(v) => ContextV::Array(v.deep_view()),
            Context::Single(s) => ContextV::Single(s@),
        }
    }
}

/// The public-key descriptor attached to an actor.
#[derive(Debug, Clone)]
pub struct PublicKey {
    pub id: String,
    pub owner: String,
    pub public_key_pem: String,
}

pub struct PublicKeyV {
    pub id: Seq<char>,
    pub owner: Seq<char>,
    pub public_key_pem: Seq<char>,
}

impl View for PublicKey {
    type V = PublicKeyV;

    open spec fn view(&self) -> PublicKeyV {
        PublicKeyV { id: self.id@, owner: self.owner@, public_key_pem: self.public_key_pem@ }
    }
}

/// Just the parts of a remote actor that inbound verification reads.
#[derive(Debug, Clone)]
pub struct VerificationActor {
    pub id: String,
    pub type_field: ActorType,
    pub preferred_username: String,
    pub public_key: PublicKey,
}

pub struct VerificationActorV {
    pub id: Seq<char>,
    pub type_field: ActorType,
    pub preferred_username: Seq<char>,
    pub public_key: PublicKeyV,
}

impl View for VerificationActor {
    type V = VerificationActorV;

    open spec fn view(&self) -> VerificationActorV {
        VerificationActorV {
            id: self.id@,
            type_field: self.type_field,
            preferred_username: self.preferred_username@,
            public_key: self.public_key@,
        }
    }
}

// --------------------------------------------------------- the lattice

/// A reference to another entity: a bare identifier or an embedded entity.
/// Decoding tries the embedded-object shape first; the bare-identifier
/// shape is the fallback.
#[derive(Debug)]
pub enum EntityRef {
    Id(Iri),
    Embedded(Box<Entity>),
}

/// An expanded link descriptor: target with media type and dimensions.
#[derive(Debug, Clone)]
pub struct LinkDesc {
    pub href: Iri,
    pub media_type: Option<String>,
    pub name: Option<String>,
    pub height: Option<u32>,
    pub width: Option<u32>,
}

/// A reference to a non-entity target: a bare identifier or an expanded
/// descriptor.
#[derive(Debug, Clone)]
pub enum LinkRef {
    Id(Iri),
    Expanded(LinkDesc),
}

/// One entity reference or an array of them, kept in the shape that was
/// present on the wire.
#[derive(Debug)]
pub enum EntityRefs {
    One(EntityRef),
    Many(Vec<EntityRef>),
}

/// One link reference or an array of them.
#[derive(Debug, Clone)]
pub enum LinkRefs {
    One(LinkRef),
    Many(Vec<LinkRef>),
}

/// The base addressable unit: an identifier plus the optional descriptive
/// fields shared by every concrete kind. A generic entity keeps its raw
/// discriminator in `kind`, so unknown vocabulary terms survive a round
/// trip.
#[derive(Debug)]
pub struct Entity {
    pub id: Iri,
    pub kind: Option<String>,
    pub name: Option<String>,
    pub content: Option<String>,
    pub media_type: Option<MediaType>,
    pub published: Option<String>,
    pub updated: Option<String>,
    pub attachment: Option<LinkRefs>,
    pub attributed_to: Option<Box<EntityRef>>,
    pub in_reply_to: Option<Box<EntityRef>>,
    pub to: Option<EntityRefs>,
    pub cc: Option<EntityRefs>,
    pub bto: Option<EntityRefs>,
    pub bcc: Option<EntityRefs>,
    pub replies: Option<Box<Collection>>,
}

/// An entity that can send and receive activities: the four required
/// endpoints and the public-key descriptor distinguish it at decode time.
#[derive(Debug)]
pub struct Actor {
    pub type_field: ActorType,
    pub preferred_username: Option<String>,
    pub extends_object: Entity,
    pub public_key: PublicKey,
    pub inbox: Iri,
    pub outbox: Iri,
    pub followers: Iri,
    pub following: Iri,
}

/// A transitive activity: an actor reference and an optional direct object.
#[derive(Debug)]
pub struct Activity {
    pub type_field: ActivityType,
    pub extends_object: Entity,
    pub actor: Option<Box<EntityRef>>,
    pub object: Option<Box<EntityRef>>,
}

/// An intransitive activity: an actor reference without a direct object.
#[derive(Debug)]
pub struct IntransitiveActivity {
    pub type_field: IntransitiveType,
    pub extends_object: Entity,
    pub actor: Option<Box<EntityRef>>,
}

/// A collection: an item count and paging links.
#[derive(Debug)]
pub struct Collection {
    pub type_field: CollectionType,
    pub extends_object: Entity,
    pub total_items: u32,
    pub first: Option<Iri>,
    pub last: Option<Iri>,
    pub next: Option<Iri>,
    pub prev: Option<Iri>,
    pub part_of: Option<Iri>,
}

/// The entity lattice: one variant per concrete kind.
#[derive(Debug)]
pub enum ExtendsObject {
    Entity(Box<Entity>),
    Actor(Box<Actor>),
    Activity(Box<Activity>),
    Intransitive(Box<IntransitiveActivity>),
    Collection(Box<Collection>),
}

/// A top-level wire document: a context field flattened beside the fields
/// of one entity of the lattice.
#[derive(Debug)]
pub struct Document {
    pub context: Option<Context>,
    pub entity: ExtendsObject,
}

// ------------------------------------------------------------ view types

pub enum EntityRefV {
    Id(IriV),
    Embedded(Box<EntityV>),
}

pub struct LinkDescV {
    pub href: IriV,
    pub media_type: Option<Seq<char>>,
    pub name: Option<Seq<char>>,
    pub height: Option<u32>,
    pub width: Option<u32>,
}

pub enum LinkRefV {
    Id(IriV),
    Expanded(LinkDescV),
}

pub enum EntityRefsV {
    One(EntityRefV),
    Many(Seq<EntityRefV>),
}

pub enum LinkRefsV {
    One(LinkRefV),
    Many(Seq<LinkRefV>),
}

pub struct EntityV {
    pub id: IriV,
    pub kind: Option<Seq<char>>,
    pub name: Option<Seq<char>>,
    pub content: Option<Seq<char>>,
    pub media_type: Option<MediaType>,
    pub published: Option<Seq<char>>,
    pub updated: Option<Seq<char>>,
    pub attachment: Option<LinkRefsV>,
    pub attributed_to: Option<EntityRefV>,
    pub in_reply_to: Option<EntityRefV>,
    pub to: Option<EntityRefsV>,
    pub cc: Option<EntityRefsV>,
    pub bto: Option<EntityRefsV>,
    pub bcc: Option<EntityRefsV>,
    pub replies: Option<Box<CollectionV>>,
}

pub struct ActorV {
    pub type_field: ActorType,
    pub preferred_username: Option<Seq<char>>,
    pub extends_object: EntityV,
    pub public_key: PublicKeyV,
    pub inbox: IriV,
    pub outbox: IriV,
    pub followers: IriV,
    pub following: IriV,
}

pub struct ActivityV {
    pub type_field: ActivityType,
    pub extends_object: EntityV,
    pub actor: Option<EntityRefV>,
    pub object: Option<EntityRefV>,
}

pub struct IntransitiveActivityV {
    pub type_field: IntransitiveType,
    pub extends_object: EntityV,
    pub actor: Option<EntityRefV>,
}

pub struct CollectionV {
    pub type_field: CollectionType,
    pub extends_object: EntityV,
    pub total_items: u32,
    pub first: Option<IriV>,
    pub last: Option<IriV>,
    pub next: Option<IriV>,
    pub prev: Option<IriV>,
    pub part_of: Option<IriV>,
}

pub enum ExtendsObjectV {
    Entity(Box<EntityV>),
    Actor(Box<ActorV>),
    Activity(Box<ActivityV>),
    Intransitive(Box<IntransitiveActivityV>),
    Collection(Box<CollectionV>),
}

pub struct DocumentV {
    pub context: Option<ContextV>,
    pub entity: ExtendsObjectV,
}

// -------------------------------------------------------- view functions

pub open spec fn view_link_desc(d: LinkDesc) -> LinkDescV {
    LinkDescV {
        href: d.href@,
        media_type: match d.media_type {
            Some(s) => Some(s@),
            None => None,
        },
        name: match d.name {
            Some(s) => Some(s@),
            None => None,
        },
        height: d.height,
        width: d.width,
    }
}

pub open spec fn view_link_ref(r: LinkRef) -> LinkRefV {
    match r {
        LinkRef::Id(iri) => LinkRefV::Id(iri@),
        LinkRef::Expanded(d) => LinkRefV::Expanded(view_link_desc(d)),
    }
}

pub open spec fn view_link_ref_seq(v: Seq<LinkRef>) -> Seq<LinkRefV>
    decreases v,
{
    if v.len() == 0 {
        Seq::empty()
    } else {
        seq![view_link_ref(v[0])] + view_link_ref_seq(v.drop_first())
    }
}

pub open spec fn view_link_refs(r: LinkRefs) -> LinkRefsV {
    match r {
        LinkRefs::One(l) => LinkRefsV::One(view_link_ref(l)),
        LinkRefs::Many(v) => LinkRefsV::Many(view_link_ref_seq(v@)),
    }
}

pub open spec fn view_entity_ref(r: EntityRef) -> EntityRefV
    decreases r,
{
    match r {
        EntityRef::Id(iri) => EntityRefV::Id(iri@),
        EntityRef::Embedded(e) => EntityRefV::Embedded(Box::new(view_entity(*e))),
    }
}

pub open spec fn view_entity_ref_seq(v: Seq<EntityRef>) -> Seq<EntityRefV>
    decreases v,
{
    if v.len() == 0 {
        Seq::empty()
    } else {
        seq![view_entity_ref(v[0])] + view_entity_ref_seq(v.drop_first())
    }
}

pub open spec fn view_entity_refs(r: EntityRefs) -> EntityRefsV
    decreases r,
{
    match r {
        EntityRefs::One(e) => EntityRefsV::One(view_entity_ref(e)),
        EntityRefs::Many(v) => EntityRefsV::Many(view_entity_ref_seq(v@)),
    }
}

pub open spec fn view_entity(e: Entity) -> EntityV
    decreases e,
{
    EntityV {
        id: e.id@,
        kind: match e.kind {
            Some(s) => Some(s@),
            None => None,
        },
        name: match e.name {
            Some(s) => Some(s@),
            None => None,
        },
        content: match e.content {
            Some(s) => Some(s@),
            None => None,
        },
        media_type: e.media_type,
        published: match e.published {
            Some(s) => Some(s@),
            None => None,
        },
        updated: match e.updated {
            Some(s) => Some(s@),
            None => None,
        },
        attachment: match e.attachment {
            Some(a) => Some(view_link_refs(a)),
            None => None,
        },
        attributed_to: match e.attributed_to {
            Some(r) => Some(view_entity_ref(*r)),
            None => None,
        },
        in_reply_to: match e.in_reply_to {
            Some(r) => Some(view_entity_ref(*r)),
            None => None,
        },
        to: match e.to {
            Some(r) => Some(view_entity_refs(r)),
            None => None,
        },
        cc: match e.cc {
            Some(r) => Some(view_entity_refs(r)),
            None => None,
        },
        bto: match e.bto {
            Some(r) => Some(view_entity_refs(r)),
            None => None,
        },
        bcc: match e.bcc {
            Some(r) => Some(view_entity_refs(r)),
            None => None,
        },
        replies: match e.replies {
            Some(c) => Some(Box::new(view_collection(*c))),
            None => None,
        },
    }
}

pub open spec fn view_collection(c: Collection) -> CollectionV
    decreases c,
{
    CollectionV {
        type_field: c.type_field,
        extends_object: view_entity(c.extends_object),
        total_items: c.total_items,
        first: match c.first {
            Some(i) => Some(i@),
            None => None,
        },
        last: match c.last {
            Some(i) => Some(i@),
            None => None,
        },
        next: match c.next {
            Some(i) => Some(i@),
            None => None,
        },
        prev: match c.prev {
            Some(i) => Some(i@),
            None => None,
        },
        part_of: match c.part_of {
            Some(i) => Some(i@),
            None => None,
        },
    }
}

pub open spec fn view_actor(a: Actor) -> ActorV {
    ActorV {
        type_field: a.type_field,
        preferred_username: match a.preferred_username {
            Some(s) => Some(s@),
            None => None,
        },
        extends_object: view_entity(a.extends_object),
        public_key: a.public_key@,
        inbox: a.inbox@,
        outbox: a.outbox@,
        followers: a.followers@,
        following: a.following@,
    }
}

pub open spec fn view_activity(a: Activity) -> ActivityV {
    ActivityV {
        type_field: a.type_field,
        extends_object: view_entity(a.extends_object),
        actor: match a.actor {
            Some(r) => Some(view_entity_ref(*r)),
            None => None,
        },
        object: match a.object {
            Some(r) => Some(view_entity_ref(*r)),
            None => None,
        },
    }
}

pub open spec fn view_intransitive(a: IntransitiveActivity) -> IntransitiveActivityV {
    IntransitiveActivityV {
        type_field: a.type_field,
        extends_object: view_entity(a.extends_object),
        actor: match a.actor {
            Some(r) => Some(view_entity_ref(*r)),
            None => None,
        },
    }
}

impl View for Entity {
    type V = EntityV;

    open spec fn view(&self) -> EntityV {
        view_entity(*self)
    }
}

impl Entity {
    /// A bare entity: the identifier and nothing else.
    pub fn new(id: Iri) -> (r: Entity)
        ensures
            r@ == (EntityV {
                id: id@,
                kind: None,
                name: None,
                content: None,
                media_type: None,
                published: None,
                updated: None,
                attachment: None,
                attributed_to: None,
                in_reply_to: None,
                to: None,
                cc: None,
                bto: None,
                bcc: None,
                replies: None,
            }),
    {
        Entity {
            id,
            kind: None,
            name: None,
            content: None,
            media_type: None,
            published: None,
            updated: None,
            attachment: None,
            attributed_to: None,
            in_reply_to: None,
            to: None,
            cc: None,
            bto: None,
            bcc: None,
            replies: None,
        }
    }

    /// The entity with a plain object kind as its discriminator.
    pub fn wrap(self, t: ObjectType) -> (r: Entity)
        ensures
            r@ == (EntityV { kind: Some(spec_object_type_str(t)), ..self@ }),
    {
        let mut e = self;
        e.kind = Some(object_type_text(t).to_owned());
        e
    }
}

impl View for Actor {
    type V = ActorV;

    open spec fn view(&self) -> ActorV {
        view_actor(*self)
    }
}

impl View for Activity {
    type V = ActivityV;

    open spec fn view(&self) -> ActivityV {
        view_activity(*self)
    }
}

impl View for IntransitiveActivity {
    type V = IntransitiveActivityV;

    open spec fn view(&self) -> IntransitiveActivityV {
        view_intransitive(*self)
    }
}

impl View for Collection {
    type V = CollectionV;

    open spec fn view(&self) -> CollectionV {
        view_collection(*self)
    }
}

impl View for EntityRef {
    type V = EntityRefV;

    open spec fn view(&self) -> EntityRefV {
        view_entity_ref(*self)
    }
}

impl View for LinkRef {
    type V = LinkRefV;

    open spec fn view(&self) -> LinkRefV {
        view_link_ref(*self)
    }
}

impl View for ExtendsObject {
    type V = ExtendsObjectV;

    open spec fn view(&self) -> ExtendsObjectV {
        match self {
            ExtendsObject::Entity(e) => ExtendsObjectV::Entity(Box::new(view_entity(**e))),
            ExtendsObject::Actor(a) => ExtendsObjectV::Actor(Box::new(view_actor(**a))),
            ExtendsObject::Activity(a) => ExtendsObjectV::Activity(Box::new(view_activity(**a))),
            ExtendsObject::Intransitive(a) => ExtendsObjectV::Intransitive(
                Box::new(view_intransitive(**a)),
            ),
            ExtendsObject::Collection(c) => ExtendsObjectV::Collection(
                Box::new(view_collection(**c)),
            ),
        }
    }
}

impl View for Document {
    type V = DocumentV;

    open spec fn view(&self) -> DocumentV {
        DocumentV {
            context: match &self.context {
                Some(c) => Some(c@),
                None => None,
            },
            entity: self.entity@,
        }
    }
}

} // verus!
