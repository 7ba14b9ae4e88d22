use vstd::prelude::*;

use crate::publisher::{
    handles, matched_reader_added, reader_unmatched, writer_created, AddMatchedReader, CreateDatawriter, DiscoveredReaderData,
    IsEmpty, PublisherActor, RemoveMatchedReader,
};
use crate::subscriber::{matched_writer_added, writer_unmatched, DiscoveredWriterData};
use crate::reader::InstanceStateKind;
use crate::qos::{DomainParticipantQos, EndpointQos, GroupQos, PublisherQos, QosKind, SubscriberQos, TopicQos};
use crate::subscriber::SubscriberActor;
use crate::types::{
    DdsError, DdsResult, DomainId, EntityId, Guid, GuidPrefix, InstanceHandle, Locator,
    StatusCondition, StatusKind, BUILT_IN_READER_GROUP, BUILT_IN_WRITER_GROUP, USER_DEFINED_READER_GROUP,
    USER_DEFINED_TOPIC, USER_DEFINED_WRITER_GROUP,
};

verus! {

/// Names of the built-in topics, which a participant always holds.
pub open spec fn is_builtin_topic_name(name: Seq<char>) -> bool {
    name == "DCPSParticipant"@ || name == "DCPSTopic"@ || name == "DCPSPublication"@ || name
        == "DCPSSubscription"@
}

pub fn builtin_topic_name(name: &String) -> (r: bool)
    ensures
        r == is_builtin_topic_name(name@),
{
    let a = String::from_str("DCPSParticipant");
    let b = String::from_str("DCPSTopic");
    let c = String::from_str("DCPSPublication");
    let d = String::from_str("DCPSSubscription");
    proof {
        reveal_strlit("DCPSParticipant");
        reveal_strlit("DCPSTopic");
        reveal_strlit("DCPSPublication");
        reveal_strlit("DCPSSubscription");
    }
    *name == a || *name == b || *name == c || *name == d
}

/// A topic of a participant.
#[derive(Debug)]
pub struct TopicEntry {
    pub handle: InstanceHandle,
    pub name: String,
    pub topic_type: String,
    pub qos: TopicQos,
}

/// What a participant announces of itself.
#[derive(Clone, Debug, PartialEq, Eq)]
pub struct ParticipantBuiltinTopicData {
    pub key: InstanceHandle,
    pub user_data: Vec<u8>,
}

/// What discovery learns of a topic.
#[derive(Clone, Debug, PartialEq, Eq)]
pub struct TopicBuiltinTopicData {
    pub key: InstanceHandle,
    pub name: String,
    pub topic_type: String,
    pub qos: TopicQos,
}

/// A participant as SPDP announces it.
#[derive(Clone, Debug, PartialEq, Eq)]
pub struct SpdpDiscoveredParticipantData {
    pub dds_participant_data: ParticipantBuiltinTopicData,
    pub domain_id: Option<DomainId>,
    pub domain_tag: String,
    pub guid_prefix: GuidPrefix,
    pub available_builtin_endpoints: u32,
    pub metatraffic_unicast_locator_list: Vec<Locator>,
    pub metatraffic_multicast_locator_list: Vec<Locator>,
    pub default_unicast_locator_list: Vec<Locator>,
    pub default_multicast_locator_list: Vec<Locator>,
    pub lease_duration_seconds: i32,
}

/// Seconds and nanoseconds.
#[derive(Clone, Copy, Debug, PartialEq, Eq, Structural)]
pub struct Time {
    pub sec: i32,
    pub nanosec: u32,
}

pub open spec fn has_handle(v: Seq<InstanceHandle>, h: Seq<u8>) -> bool {
    exists|i: int| 0 <= i < v.len() && (#[trigger] v[i])@ == h
}

fn contains_handle(v: &Vec<InstanceHandle>, h: &InstanceHandle) -> (r: bool)
    ensures
        r == has_handle(v@, h@),
{
    let mut i: usize = 0;
    while i < v.len()
        invariant
            i <= v@.len(),
            forall|k: int| 0 <= k < i ==> (#[trigger] v@[k])@ != h@,
        decreases v@.len() - i,
    {
        if v[i].equals(h) {
            return true;
        }
        i += 1;
    }
    false
}

fn insert_handle(v: &mut Vec<InstanceHandle>, h: InstanceHandle)
    ensures
        has_handle(old(v)@, h@) ==> final(v)@ == old(v)@,
        !has_handle(old(v)@, h@) ==> final(v)@ == old(v)@.push(h),
        has_handle(final(v)@, h@),
        forall|k: Seq<u8>| has_handle(old(v)@, k) ==> has_handle(final(v)@, k),
{
    let ghost hv = h@;
    if !contains_handle(v, &h) {
        let ghost v0 = v@;
        v.push(h);
        proof {
            assert(v@[v0.len() as int]@ == hv);
            assert forall|k: Seq<u8>| has_handle(v0, k) implies has_handle(v@, k) by {
                let i = choose|i: int| 0 <= i < v0.len() && (#[trigger] v0[i])@ == k;
                assert(v@[i] == v0[i]);
            }
        }
    }
}

fn copy_locators(v: &Vec<Locator>) -> (r: Vec<Locator>)
    ensures
        r@ == v@,
{
    let mut r: Vec<Locator> = Vec::new();
    let mut i: usize = 0;
    while i < v.len()
        invariant
            i <= v@.len(),
            r@ == v@.subrange(0, i as int),
        decreases v@.len() - i,
    {
        r.push(v[i]);
        i += 1;
        assert(r@ =~= v@.subrange(0, i as int));
    }
    assert(v@.subrange(0, i as int) =~= v@);
    r
}

/// The state of a participant: its entities, defaults, and what discovery found.
pub struct DomainParticipantActor {
    guid: Guid,
    domain_id: DomainId,
    domain_tag: String,
    qos: DomainParticipantQos,
    builtin_subscriber: SubscriberActor,
    builtin_publisher: PublisherActor,
    user_defined_subscriber_list: Vec<SubscriberActor>,
    user_defined_subscriber_counter: u8,
    default_subscriber_qos: SubscriberQos,
    user_defined_publisher_list: Vec<PublisherActor>,
    user_defined_publisher_counter: u8,
    default_publisher_qos: PublisherQos,
    topic_list: Vec<TopicEntry>,
    user_defined_topic_counter: u8,
    default_topic_qos: TopicQos,
    manual_liveliness_count: i32,
    discovered_participant_list: Vec<SpdpDiscoveredParticipantData>,
    discovered_topic_list: Vec<TopicBuiltinTopicData>,
    enabled: bool,
    ignored_participants: Vec<InstanceHandle>,
    ignored_publications: Vec<InstanceHandle>,
    ignored_subscriptions: Vec<InstanceHandle>,
    ignored_topic_list: Vec<InstanceHandle>,
    data_max_size_serialized: usize,
    status_kind: Vec<StatusKind>,
    default_unicast_locator_list: Vec<Locator>,
    default_multicast_locator_list: Vec<Locator>,
    metatraffic_unicast_locator_list: Vec<Locator>,
    metatraffic_multicast_locator_list: Vec<Locator>,
}

impl DomainParticipantActor {
    pub closed spec fn spec_guid(&self) -> Guid {
        self.guid
    }

    pub closed spec fn spec_domain_id(&self) -> DomainId {
        self.domain_id
    }

    pub closed spec fn spec_domain_tag(&self) -> Seq<char> {
        self.domain_tag@
    }

    pub closed spec fn spec_enabled(&self) -> bool {
        self.enabled
    }

    pub closed spec fn publishers(&self) -> Seq<PublisherActor> {
        self.user_defined_publisher_list@
    }

    pub closed spec fn subscribers(&self) -> Seq<SubscriberActor> {
        self.user_defined_subscriber_list@
    }

    pub closed spec fn topics(&self) -> Seq<TopicEntry> {
        self.topic_list@
    }

    pub closed spec fn discovered_participants(&self) -> Seq<SpdpDiscoveredParticipantData> {
        self.discovered_participant_list@
    }

    pub closed spec fn discovered_topics(&self) -> Seq<TopicBuiltinTopicData> {
        self.discovered_topic_list@
    }

    pub closed spec fn ignored(&self) -> (Seq<InstanceHandle>, Seq<InstanceHandle>, Seq<InstanceHandle>, Seq<InstanceHandle>) {
        (
            self.ignored_participants@,
            self.ignored_publications@,
            self.ignored_subscriptions@,
            self.ignored_topic_list@,
        )
    }

    pub closed spec fn defaults(&self) -> (PublisherQos, SubscriberQos, TopicQos) {
        (self.default_publisher_qos, self.default_subscriber_qos, self.default_topic_qos)
    }

    pub closed spec fn spec_qos(&self) -> DomainParticipantQos {
        self.qos
    }

    pub closed spec fn liveliness_count(&self) -> i32 {
        self.manual_liveliness_count
    }

    pub closed spec fn counters(&self) -> (u8, u8, u8) {
        (self.user_defined_publisher_counter, self.user_defined_subscriber_counter, self.user_defined_topic_counter)
    }

    pub closed spec fn mask(&self) -> Seq<StatusKind> {
        self.status_kind@
    }

    pub closed spec fn locators(&self) -> (Seq<Locator>, Seq<Locator>, Seq<Locator>, Seq<Locator>) {
        (
            self.default_unicast_locator_list@,
            self.default_multicast_locator_list@,
            self.metatraffic_unicast_locator_list@,
            self.metatraffic_multicast_locator_list@,
        )
    }

    pub closed spec fn max_size(&self) -> usize {
        self.data_max_size_serialized
    }

    /// A disabled participant with no entities, in domain `domain_id`.
    pub fn new(
        guid_prefix: GuidPrefix,
        domain_id: DomainId,
        domain_tag: String,
        domain_participant_qos: DomainParticipantQos,
        data_max_size_serialized: usize,
        status_kind: Vec<StatusKind>,
    ) -> (r: Self)
        ensures
            r.spec_guid() == (Guid { prefix: guid_prefix, entity_id: EntityId { key0: 0, key1: 0, key2: 1, kind: 0xc1 } }),
            r.spec_domain_id() == domain_id,
            r.spec_domain_tag() == domain_tag@,
            r.spec_qos() == domain_participant_qos,
            !r.spec_enabled(),
            r.publishers().len() == 0,
            r.subscribers().len() == 0,
            r.topics().len() == 0,
            r.discovered_participants().len() == 0,
            r.discovered_topics().len() == 0,
            r.counters() == (0u8, 0u8, 0u8),
            r.liveliness_count() == 0,
            r.max_size() == data_max_size_serialized,
            r.mask() == status_kind@,
            r.builtin_guids() == (
                Guid { prefix: guid_prefix, entity_id: EntityId { key0: 0, key1: 0, key2: 0, kind: BUILT_IN_WRITER_GROUP } },
                Guid { prefix: guid_prefix, entity_id: EntityId { key0: 0, key1: 0, key2: 0, kind: BUILT_IN_READER_GROUP } },
            ),
    {
        let guid = Guid::new(guid_prefix, crate::types::entityid_participant());
        let builtin_subscriber = SubscriberActor::new(
            GroupQos::default_qos(),
            Guid::new(guid_prefix, EntityId::new([0, 0, 0], BUILT_IN_READER_GROUP)),
        );
        let builtin_publisher = PublisherActor::new(
            GroupQos::default_qos(),
            Guid::new(guid_prefix, EntityId::new([0, 0, 0], BUILT_IN_WRITER_GROUP)),
            Vec::new(),
        );
        DomainParticipantActor {
            guid,
            domain_id,
            domain_tag,
            qos: domain_participant_qos,
            builtin_subscriber,
            builtin_publisher,
            user_defined_subscriber_list: Vec::new(),
            user_defined_subscriber_counter: 0,
            default_subscriber_qos: GroupQos::default_qos(),
            user_defined_publisher_list: Vec::new(),
            user_defined_publisher_counter: 0,
            default_publisher_qos: GroupQos::default_qos(),
            topic_list: Vec::new(),
            user_defined_topic_counter: 0,
            default_topic_qos: EndpointQos::default_reader(),
            manual_liveliness_count: 0,
            discovered_participant_list: Vec::new(),
            discovered_topic_list: Vec::new(),
            enabled: false,
            ignored_participants: Vec::new(),
            ignored_publications: Vec::new(),
            ignored_subscriptions: Vec::new(),
            ignored_topic_list: Vec::new(),
            data_max_size_serialized,
            status_kind,
            default_unicast_locator_list: Vec::new(),
            default_multicast_locator_list: Vec::new(),
            metatraffic_unicast_locator_list: Vec::new(),
            metatraffic_multicast_locator_list: Vec::new(),
        }
    }

    /// The GUID of the `n`th user-defined group or topic of kind `kind`.
    pub open spec fn child_guid(&self, n: u8, kind: u8) -> Guid {
        Guid { prefix: self.spec_guid().prefix, entity_id: EntityId { key0: n, key1: 0, key2: 0, kind } }
    }

    /// Creates a publisher; `OutOfResources` once 255 were made.
    pub fn create_user_defined_publisher(&mut self, qos: QosKind<PublisherQos>, mask: Vec<StatusKind>) -> (r:
        DdsResult<InstanceHandle>)
        ensures
            publisher_created(old(self), final(self), qos, mask@, r),
    {
        if self.user_defined_publisher_counter == 255 {
            return Err(DdsError::OutOfResources);
        }
        let publisher_qos = match qos {
            QosKind::Default => self.default_publisher_qos.duplicate(),
            QosKind::Specific(q) => q,
        };
        let n = self.user_defined_publisher_counter;
        self.user_defined_publisher_counter = n + 1;
        let guid = Guid::new(self.guid.prefix, EntityId { key0: n, key1: 0, key2: 0, kind: USER_DEFINED_WRITER_GROUP });
        let publisher = PublisherActor::new(publisher_qos, guid, mask);
        let handle = InstanceHandle::from_guid(&guid);
        self.user_defined_publisher_list.push(publisher);
        assert(self.publishers().drop_last() =~= old(self).publishers());
        Ok(handle)
    }
}

/// Whether the publisher at `i` has GUID octets `h`.
pub open spec fn publisher_index(ps: Seq<PublisherActor>, h: Seq<u8>) -> Option<int> {
    if exists|i: int| 0 <= i < ps.len() && (#[trigger] ps[i]).spec_guid().octets() == h {
        Some(choose|i: int| 0 <= i < ps.len() && (#[trigger] ps[i]).spec_guid().octets() == h)
    } else {
        None
    }
}

pub open spec fn subscriber_index(ps: Seq<SubscriberActor>, h: Seq<u8>) -> Option<int> {
    if exists|i: int| 0 <= i < ps.len() && (#[trigger] ps[i]).spec_guid().octets() == h {
        Some(choose|i: int| 0 <= i < ps.len() && (#[trigger] ps[i]).spec_guid().octets() == h)
    } else {
        None
    }
}

pub open spec fn topic_named(ts: Seq<TopicEntry>, name: Seq<char>) -> bool {
    exists|i: int| 0 <= i < ts.len() && (#[trigger] ts[i]).name@ == name
}

/// No user-defined publisher, subscriber or topic is left.
pub open spec fn no_user_entities(p: &DomainParticipantActor) -> bool {
    &&& p.publishers().len() == 0
    &&& p.subscribers().len() == 0
    &&& forall|i: int| 0 <= i < p.topics().len() ==> is_builtin_topic_name(#[trigger] p.topics()[i].name@)
}

/// `new` is `old` after deleting the publisher `handle`: one without writers goes, anything else is `PreconditionNotMet`.
pub open spec fn publisher_deleted(old: &DomainParticipantActor, new: &DomainParticipantActor, handle: InstanceHandle, r: DdsResult<()>) -> bool {
    &&& (new.subscribers() == old.subscribers())
    &&& (new.topics() == old.topics())
    &&& (match publisher_index(old.publishers(), handle@) {
                None => r == Err::<(), DdsError>(DdsError::PreconditionNotMet) && new.publishers()
                    == old.publishers(),
                Some(_) => exists|i: int|
                    0 <= i < old.publishers().len() && (#[trigger] old.publishers()[i]).spec_guid().octets()
                        == handle@ && if old.publishers()[i].writers().len() == 0 {
                        r is Ok && new.publishers() == old.publishers().remove(i)
                    } else {
                        r == Err::<(), DdsError>(DdsError::PreconditionNotMet) && new.publishers()
                            == old.publishers()
                    },
            })
}

/// `new` is `old` after deleting the subscriber `handle`: one without readers goes, anything else is `PreconditionNotMet`.
pub open spec fn subscriber_deleted(old: &DomainParticipantActor, new: &DomainParticipantActor, handle: InstanceHandle, r: DdsResult<()>) -> bool {
    &&& (new.publishers() == old.publishers())
    &&& (new.topics() == old.topics())
    &&& (match subscriber_index(old.subscribers(), handle@) {
                None => r == Err::<(), DdsError>(DdsError::PreconditionNotMet) && new.subscribers()
                    == old.subscribers(),
                Some(_) => exists|i: int|
                    0 <= i < old.subscribers().len() && (#[trigger] old.subscribers()[i]).spec_guid().octets()
                        == handle@ && if old.subscribers()[i].readers().len() == 0 {
                        r is Ok && new.subscribers() == old.subscribers().remove(i)
                    } else {
                        r == Err::<(), DdsError>(DdsError::PreconditionNotMet) && new.subscribers()
                            == old.subscribers()
                    },
            })
}

/// `new` is `old` after creating a publisher: with no number left it is `OutOfResources` and
/// nothing changes; else a publisher with the next GUID, the QoS asked for (the default one for
/// `Default`), no writers and the listener mask `mask` is appended.
pub open spec fn publisher_created(
    old: &DomainParticipantActor,
    new: &DomainParticipantActor,
    qos: QosKind<PublisherQos>,
    mask: Seq<StatusKind>,
    r: DdsResult<InstanceHandle>,
) -> bool {
    &&& new.subscribers() == old.subscribers()
    &&& new.topics() == old.topics()
    &&& new.spec_guid() == old.spec_guid()
    &&& new.spec_enabled() == old.spec_enabled()
    &&& old.counters().0 == 255 ==> r == Err::<InstanceHandle, DdsError>(DdsError::OutOfResources)
        && new.publishers() == old.publishers()
    &&& old.counters().0 < 255 ==> {
        let p = new.publishers().last();
        let g = old.child_guid(old.counters().0, USER_DEFINED_WRITER_GROUP);
        &&& r is Ok
        &&& r->Ok_0@ == g.octets()
        &&& new.publishers().drop_last() == old.publishers()
        &&& new.publishers().len() == old.publishers().len() + 1
        &&& p.spec_guid() == g
        &&& p.spec_qos().same(
            &match qos {
                QosKind::Default => old.defaults().0,
                QosKind::Specific(q) => q,
            },
        )
        &&& p.writers().len() == 0
        &&& p.mask() == mask
        &&& new.counters().0 == old.counters().0 + 1
    }
}

/// `new` is `old` after creating a subscriber: with no number left it is `OutOfResources` and
/// nothing changes; else a subscriber with the next GUID, the QoS asked for (the default one for
/// `Default`) and no readers is appended.
pub open spec fn subscriber_created(
    old: &DomainParticipantActor,
    new: &DomainParticipantActor,
    qos: QosKind<SubscriberQos>,
    r: DdsResult<InstanceHandle>,
) -> bool {
    &&& new.publishers() == old.publishers()
    &&& new.topics() == old.topics()
    &&& new.spec_guid() == old.spec_guid()
    &&& old.counters().1 == 255 ==> r == Err::<InstanceHandle, DdsError>(DdsError::OutOfResources)
        && new.subscribers() == old.subscribers()
    &&& old.counters().1 < 255 ==> {
        let s = new.subscribers().last();
        let g = old.child_guid(old.counters().1, USER_DEFINED_READER_GROUP);
        &&& r is Ok
        &&& r->Ok_0@ == g.octets()
        &&& new.subscribers().drop_last() == old.subscribers()
        &&& new.subscribers().len() == old.subscribers().len() + 1
        &&& s.spec_guid() == g
        &&& s.spec_qos().same(
            &match qos {
                QosKind::Default => old.defaults().1,
                QosKind::Specific(q) => q,
            },
        )
        &&& s.readers().len() == 0
        &&& new.counters().1 == old.counters().1 + 1
    }
}

/// `new` is `old` after creating the topic `topic_name`: a taken name, an inconsistent QoS or no room left is an error and changes nothing; else the topic is appended.
pub open spec fn topic_created(old: &DomainParticipantActor, new: &DomainParticipantActor, topic_name: String, topic_type: String, qos: QosKind<TopicQos>, r: DdsResult<InstanceHandle>) -> bool {
    &&& (new.publishers() == old.publishers())
    &&& (new.subscribers() == old.subscribers())
    &&& (({
                let q = match qos {
                    QosKind::Default => old.defaults().2,
                    QosKind::Specific(q) => q,
                };
                if topic_named(old.topics(), topic_name@) {
                    r == Err::<InstanceHandle, DdsError>(DdsError::PreconditionNotMet) && new.topics()
                        == old.topics()
                } else if !q.consistent() {
                    r == Err::<InstanceHandle, DdsError>(DdsError::InconsistentPolicy) && new.topics()
                        == old.topics()
                } else if old.counters().2 == 255 {
                    r == Err::<InstanceHandle, DdsError>(DdsError::OutOfResources) && new.topics()
                        == old.topics()
                } else {
                    let t = new.topics().last();
                    &&& r is Ok
                    &&& r->Ok_0@ == old.child_guid(old.counters().2, USER_DEFINED_TOPIC).octets()
                    &&& new.topics().drop_last() == old.topics()
                    &&& new.topics().len() == old.topics().len() + 1
                    &&& t.handle == r->Ok_0
                    &&& t.name@ == topic_name@
                    &&& t.topic_type@ == topic_type@
                    &&& t.qos == q
                }
            }))
}

/// `new` is `old` after deleting the topic `topic_name`: an unknown name or a topic in use is `PreconditionNotMet`; a built-in topic stays; else the topic goes.
pub open spec fn topic_deleted(old: &DomainParticipantActor, new: &DomainParticipantActor, topic_name: String, r: DdsResult<()>) -> bool {
    &&& (new.publishers() == old.publishers())
    &&& (new.subscribers() == old.subscribers())
    &&& (!topic_named(old.topics(), topic_name@) ==> r == Err::<(), DdsError>(DdsError::PreconditionNotMet)
                && new.topics() == old.topics())
    &&& (topic_named(old.topics(), topic_name@) && is_builtin_topic_name(topic_name@) ==> r is Ok
                && new.topics() == old.topics())
    &&& (topic_named(old.topics(), topic_name@) && !is_builtin_topic_name(topic_name@) ==> {
                let in_use = (exists|i: int, k: int|
                    0 <= i < old.publishers().len() && 0 <= k < old.publishers()[i].writers().len()
                        && (#[trigger] old.publishers()[i].writers()[k]).topic_name@ == topic_name@) || (exists|i: int, k: int|
                    0 <= i < old.subscribers().len() && 0 <= k < old.subscribers()[i].readers().len()
                        && (#[trigger] old.subscribers()[i].readers()[k]).topic_name@ == topic_name@);
                if in_use {
                    r == Err::<(), DdsError>(DdsError::PreconditionNotMet) && new.topics() == old.topics()
                } else {
                    r is Ok && exists|i: int|
                        0 <= i < old.topics().len() && (#[trigger] old.topics()[i]).name@ == topic_name@
                            && new.topics() == old.topics().remove(i)
                }
            })
}

/// `new` is `old` after setting the default topic QoS: a consistent one is taken, an inconsistent one is `InconsistentPolicy` and changes nothing.
pub open spec fn default_topic_qos_set(old: &DomainParticipantActor, new: &DomainParticipantActor, qos: QosKind<TopicQos>, r: DdsResult<()>) -> bool {
    &&& (({
                let q = match qos {
                    QosKind::Default => EndpointQos::default_reader_spec(),
                    QosKind::Specific(q) => q,
                };
                if q.consistent() {
                    r is Ok && new.defaults().2 == q
                } else {
                    r == Err::<(), DdsError>(DdsError::InconsistentPolicy) && new.defaults().2
                        == old.defaults().2
                }
            }))
    &&& (new.defaults().0 == old.defaults().0)
    &&& (new.defaults().1 == old.defaults().1)
}

/// `new` and `r` after looking for the topic `topic_name` locally, then among discovered topics.
pub open spec fn topic_found(old: &DomainParticipantActor, new: &DomainParticipantActor, topic_name: String, r: DdsResult<Option<InstanceHandle>>) -> bool {
    &&& (topic_named(old.topics(), topic_name@) ==> new.topics() == old.topics() && exists|i: int|
                0 <= i < old.topics().len() && (#[trigger] old.topics()[i]).name@ == topic_name@
                    && r == Ok::<Option<InstanceHandle>, DdsError>(Some(old.topics()[i].handle)))
    &&& (!topic_named(old.topics(), topic_name@) && !(exists|i: int|
                0 <= i < old.discovered_topics().len() && (#[trigger] old.discovered_topics()[i]).name@
                    == topic_name@) ==> r == Ok::<Option<InstanceHandle>, DdsError>(None) && new.topics()
                == old.topics())
    &&& ((!topic_named(old.topics(), topic_name@) && (r is Ok && r->Ok_0 is Some)) ==> (new.topics().len()
                == old.topics().len() + 1 && new.topics().last().name@ == topic_name@))
    &&& (new.publishers() == old.publishers())
    &&& (new.subscribers() == old.subscribers())
}

impl DomainParticipantActor {
    fn find_publisher(&self, handle: &InstanceHandle) -> (r: Option<usize>)
        ensures
            match r {
                Some(i) => i < self.publishers().len() && self.publishers()[i as int].spec_guid().octets() == handle@,
                None => publisher_index(self.publishers(), handle@).is_none(),
            },
    {
        let mut i: usize = 0;
        while i < self.user_defined_publisher_list.len()
            invariant
                i <= self.user_defined_publisher_list@.len(),
                forall|k: int| 0 <= k < i ==> (#[trigger] self.user_defined_publisher_list@[k]).spec_guid().octets() != handle@,
            decreases self.user_defined_publisher_list@.len() - i,
        {
            let h = self.user_defined_publisher_list[i].get_instance_handle(crate::publisher::GetInstanceHandle);
            if h.equals(handle) {
                return Some(i);
            }
            i += 1;
        }
        None
    }

    fn find_subscriber(&self, handle: &InstanceHandle) -> (r: Option<usize>)
        ensures
            match r {
                Some(i) => i < self.subscribers().len() && self.subscribers()[i as int].spec_guid().octets() == handle@,
                None => subscriber_index(self.subscribers(), handle@).is_none(),
            },
    {
        let mut i: usize = 0;
        while i < self.user_defined_subscriber_list.len()
            invariant
                i <= self.user_defined_subscriber_list@.len(),
                forall|k: int| 0 <= k < i ==> (#[trigger] self.user_defined_subscriber_list@[k]).spec_guid().octets() != handle@,
            decreases self.user_defined_subscriber_list@.len() - i,
        {
            let h = self.user_defined_subscriber_list[i].get_instance_handle();
            if h.equals(handle) {
                return Some(i);
            }
            i += 1;
        }
        None
    }

    fn find_topic_index(&self, name: &String) -> (r: Option<usize>)
        ensures
            match r {
                Some(i) => i < self.topics().len() && self.topics()[i as int].name@ == name@,
                None => !topic_named(self.topics(), name@),
            },
    {
        let mut i: usize = 0;
        while i < self.topic_list.len()
            invariant
                i <= self.topic_list@.len(),
                forall|k: int| 0 <= k < i ==> (#[trigger] self.topic_list@[k]).name@ != name@,
            decreases self.topic_list@.len() - i,
        {
            if self.topic_list[i].name == *name {
                return Some(i);
            }
            i += 1;
        }
        None
    }

    /// Deletes a publisher of this participant that has no writers.
    pub fn delete_user_defined_publisher(&mut self, handle: InstanceHandle) -> (r: DdsResult<()>)
        ensures
            publisher_deleted(old(self), final(self), handle, r),

    {
        match self.find_publisher(&handle) {
            None => Err(DdsError::PreconditionNotMet),
            Some(i) => {
                if !self.user_defined_publisher_list[i].is_empty(IsEmpty) {
                    Err(DdsError::PreconditionNotMet)
                } else {
                    self.user_defined_publisher_list.remove(i);
                    Ok(())
                }
            },
        }
    }

    /// Creates a subscriber; `OutOfResources` once 255 were made.
    pub fn create_user_defined_subscriber(&mut self, qos: QosKind<SubscriberQos>) -> (r: DdsResult<InstanceHandle>)
        ensures
            subscriber_created(old(self), final(self), qos, r),
    {
        if self.user_defined_subscriber_counter == 255 {
            return Err(DdsError::OutOfResources);
        }
        let subscriber_qos = match qos {
            QosKind::Default => self.default_subscriber_qos.duplicate(),
            QosKind::Specific(q) => q,
        };
        let n = self.user_defined_subscriber_counter;
        self.user_defined_subscriber_counter = n + 1;
        let guid = Guid::new(self.guid.prefix, EntityId { key0: n, key1: 0, key2: 0, kind: USER_DEFINED_READER_GROUP });
        let subscriber = SubscriberActor::new(subscriber_qos, guid);
        let handle = InstanceHandle::from_guid(&guid);
        self.user_defined_subscriber_list.push(subscriber);
        assert(self.subscribers().drop_last() =~= old(self).subscribers());
        Ok(handle)
    }

    /// Deletes a subscriber of this participant that has no readers.
    pub fn delete_user_defined_subscriber(&mut self, handle: InstanceHandle) -> (r: DdsResult<()>)
        ensures
            subscriber_deleted(old(self), final(self), handle, r),

    {
        match self.find_subscriber(&handle) {
            None => Err(DdsError::PreconditionNotMet),
            Some(i) => {
                if !self.user_defined_subscriber_list[i].is_empty() {
                    Err(DdsError::PreconditionNotMet)
                } else {
                    self.user_defined_subscriber_list.remove(i);
                    Ok(())
                }
            },
        }
    }

    /// Creates a topic; a name already taken is `PreconditionNotMet`.
    pub fn create_user_defined_topic(&mut self, topic_name: String, topic_type: String, qos: QosKind<TopicQos>) -> (r:
        DdsResult<InstanceHandle>)
        ensures
            topic_created(old(self), final(self), topic_name, topic_type, qos, r),

    {
        if self.find_topic_index(&topic_name).is_some() {
            return Err(DdsError::PreconditionNotMet);
        }
        let q = match qos {
            QosKind::Default => self.default_topic_qos,
            QosKind::Specific(q) => q,
        };
        if q.is_consistent().is_err() {
            return Err(DdsError::InconsistentPolicy);
        }
        if self.user_defined_topic_counter == 255 {
            return Err(DdsError::OutOfResources);
        }
        let n = self.user_defined_topic_counter;
        self.user_defined_topic_counter = n + 1;
        let guid = Guid::new(self.guid.prefix, EntityId { key0: n, key1: 0, key2: 0, kind: USER_DEFINED_TOPIC });
        let handle = InstanceHandle::from_guid(&guid);
        let ghost name_v = topic_name@;
        let ghost type_v = topic_type@;
        self.topic_list.push(TopicEntry { handle, name: topic_name, topic_type, qos: q });
        proof {
            let t = self.topics().last();
            assert(self.topics().drop_last() =~= old(self).topics());
            assert(t.name@ == name_v && t.topic_type@ == type_v && t.qos == q && t.handle == handle);
            assert(handle@ == old(self).child_guid(old(self).counters().2, USER_DEFINED_TOPIC).octets());
        }
        Ok(handle)
    }

    /// Whether some writer or reader of the participant uses the topic `name`.
    fn topic_in_use(&self, name: &String) -> (r: bool)
        ensures
            r == ((exists|i: int, k: int|
                0 <= i < self.publishers().len() && 0 <= k < self.publishers()[i].writers().len()
                    && (#[trigger] self.publishers()[i].writers()[k]).topic_name@ == name@) || (exists|i: int, k: int|
                0 <= i < self.subscribers().len() && 0 <= k < self.subscribers()[i].readers().len()
                    && (#[trigger] self.subscribers()[i].readers()[k]).topic_name@ == name@)),
    {
        let mut i: usize = 0;
        while i < self.user_defined_publisher_list.len()
            invariant
                i <= self.user_defined_publisher_list@.len(),
                forall|j: int, k: int|
                    0 <= j < i && 0 <= k < self.publishers()[j].writers().len() ==> (#[trigger] self.publishers()[j].writers()[k]).topic_name@
                        != name@,
            decreases self.user_defined_publisher_list@.len() - i,
        {
            let found = self.user_defined_publisher_list[i].lookup_datawriter(
                crate::publisher::LookupDatawriter { topic_name: name.clone() },
            );
            if found.is_some() {
                return true;
            }
            i += 1;
        }
        let mut i: usize = 0;
        while i < self.user_defined_subscriber_list.len()
            invariant
                i <= self.user_defined_subscriber_list@.len(),
                forall|j: int, k: int|
                    0 <= j < self.publishers().len() && 0 <= k < self.publishers()[j].writers().len() ==> (#[trigger] self.publishers()[j].writers()[k]).topic_name@
                        != name@,
                forall|j: int, k: int|
                    0 <= j < i && 0 <= k < self.subscribers()[j].readers().len() ==> (#[trigger] self.subscribers()[j].readers()[k]).topic_name@
                        != name@,
            decreases self.user_defined_subscriber_list@.len() - i,
        {
            if self.user_defined_subscriber_list[i].lookup_datareader(name).is_some() {
                return true;
            }
            i += 1;
        }
        false
    }

    /// Deletes a user-defined topic that no writer or reader uses; built-in topics stay.
    pub fn delete_user_defined_topic(&mut self, topic_name: String) -> (r: DdsResult<()>)
        ensures
            topic_deleted(old(self), final(self), topic_name, r),

    {
        match self.find_topic_index(&topic_name) {
            None => Err(DdsError::PreconditionNotMet),
            Some(i) => {
                if builtin_topic_name(&topic_name) {
                    return Ok(());
                }
                if self.topic_in_use(&topic_name) {
                    return Err(DdsError::PreconditionNotMet);
                }
                self.topic_list.remove(i);
                Ok(())
            },
        }
    }

    /// The topic named `topic_name`: its handle and type name.
    pub fn lookup_topicdescription(&self, topic_name: &String) -> (r: Option<(InstanceHandle, String)>)
        ensures
            match r {
                Some((h, t)) => exists|i: int|
                    0 <= i < self.topics().len() && (#[trigger] self.topics()[i]).name@ == topic_name@
                        && self.topics()[i].handle == h && self.topics()[i].topic_type@ == t@,
                None => !topic_named(self.topics(), topic_name@),
            },
    {
        match self.find_topic_index(topic_name) {
            Some(i) => Some((self.topic_list[i].handle, self.topic_list[i].topic_type.clone())),
            None => None,
        }
    }

    pub fn get_instance_handle(&self) -> (r: InstanceHandle)
        ensures
            r@ == self.spec_guid().octets(),
    {
        InstanceHandle::from_guid(&self.guid)
    }

    /// Enables the participant and its built-in entities.
    pub fn enable(&mut self)
        ensures
            old(self).spec_enabled() && old(self).builtin_enabled() ==> *final(self) == *old(self),
            final(self).spec_enabled(),
            final(self).builtin_enabled(),
            final(self).builtin_guids() == old(self).builtin_guids(),
            final(self).spec_qos() == old(self).spec_qos(),
            final(self).spec_guid() == old(self).spec_guid(),
            final(self).spec_domain_id() == old(self).spec_domain_id(),
            final(self).publishers() == old(self).publishers(),
            final(self).subscribers() == old(self).subscribers(),
            final(self).topics() == old(self).topics(),
            final(self).discovered_participants() == old(self).discovered_participants(),
            final(self).defaults() == old(self).defaults(),
    {
        self.builtin_publisher.enable(crate::publisher::Enable);
        self.builtin_subscriber.enable();
        self.enabled = true;
    }

    /// The built-in publisher and subscriber are enabled.
    pub closed spec fn builtin_enabled(&self) -> bool {
        self.builtin_publisher.is_enabled_spec() && self.builtin_subscriber.spec_enabled()
    }

    pub fn is_enabled(&self) -> (r: bool)
        ensures
            r == self.spec_enabled(),
    {
        self.enabled
    }

    /// Ignores a remote participant; only an enabled participant can.
    pub fn ignore_participant(&mut self, handle: InstanceHandle) -> (r: DdsResult<()>)
        ensures
            r is Err ==> *final(self) == *old(self),
            forall|h: Seq<u8>| has_handle(old(self).ignored().0, h) ==> has_handle(final(self).ignored().0, h),
            r is Ok ==> has_handle(final(self).ignored().0, handle@),
            !old(self).spec_enabled() ==> r == Err::<(), DdsError>(DdsError::NotEnabled) && final(self).ignored()
                == old(self).ignored(),
            old(self).spec_enabled() ==> r is Ok && final(self).ignored().0 == (if has_handle(
                old(self).ignored().0,
                handle@,
            ) {
                old(self).ignored().0
            } else {
                old(self).ignored().0.push(handle)
            }) && final(self).ignored().1 == old(self).ignored().1 && final(self).ignored().2 == old(self).ignored().2,
            final(self).discovered_participants() == old(self).discovered_participants(),
    {
        if !self.enabled {
            return Err(DdsError::NotEnabled);
        }
        insert_handle(&mut self.ignored_participants, handle);
        Ok(())
    }

    /// Ignores a remote subscription; only an enabled participant can.
    pub fn ignore_subscription(&mut self, handle: InstanceHandle) -> (r: DdsResult<()>)
        ensures
            r is Err ==> *final(self) == *old(self),
            forall|h: Seq<u8>| has_handle(old(self).ignored().2, h) ==> has_handle(final(self).ignored().2, h),
            r is Ok ==> has_handle(final(self).ignored().2, handle@),
            !old(self).spec_enabled() ==> r == Err::<(), DdsError>(DdsError::NotEnabled) && final(self).ignored()
                == old(self).ignored(),
            old(self).spec_enabled() ==> r is Ok && final(self).ignored().2 == (if has_handle(
                old(self).ignored().2,
                handle@,
            ) {
                old(self).ignored().2
            } else {
                old(self).ignored().2.push(handle)
            }) && final(self).ignored().0 == old(self).ignored().0 && final(self).ignored().1 == old(self).ignored().1,
    {
        if !self.enabled {
            return Err(DdsError::NotEnabled);
        }
        insert_handle(&mut self.ignored_subscriptions, handle);
        Ok(())
    }

    /// Ignores a remote publication; only an enabled participant can.
    pub fn ignore_publication(&mut self, handle: InstanceHandle) -> (r: DdsResult<()>)
        ensures
            r is Err ==> *final(self) == *old(self),
            forall|h: Seq<u8>| has_handle(old(self).ignored().1, h) ==> has_handle(final(self).ignored().1, h),
            r is Ok ==> has_handle(final(self).ignored().1, handle@),
            !old(self).spec_enabled() ==> r == Err::<(), DdsError>(DdsError::NotEnabled) && final(self).ignored()
                == old(self).ignored(),
            old(self).spec_enabled() ==> r is Ok && final(self).ignored().1 == (if has_handle(
                old(self).ignored().1,
                handle@,
            ) {
                old(self).ignored().1
            } else {
                old(self).ignored().1.push(handle)
            }) && final(self).ignored().0 == old(self).ignored().0 && final(self).ignored().2 == old(self).ignored().2,
    {
        if !self.enabled {
            return Err(DdsError::NotEnabled);
        }
        insert_handle(&mut self.ignored_publications, handle);
        Ok(())
    }

    /// Ignoring topics is not supported.
    pub fn ignore_topic(&self, _handle: InstanceHandle) -> (r: DdsResult<()>)
        ensures
            r == Err::<(), DdsError>(DdsError::Unsupported),
    {
        Err(DdsError::Unsupported)
    }

    /// No user-defined publisher, subscriber or topic is left.
    pub fn is_empty(&self) -> (r: bool)
        ensures
            r == no_user_entities(self),
    {
        if self.user_defined_publisher_list.len() != 0 || self.user_defined_subscriber_list.len() != 0 {
            return false;
        }
        let mut i: usize = 0;
        while i < self.topic_list.len()
            invariant
                i <= self.topic_list@.len(),
                self.publishers().len() == 0,
                self.subscribers().len() == 0,
                forall|k: int| 0 <= k < i ==> is_builtin_topic_name(#[trigger] self.topic_list@[k].name@),
            decreases self.topic_list@.len() - i,
        {
            if !builtin_topic_name(&self.topic_list[i].name) {
                return false;
            }
            i += 1;
        }
        true
    }

    pub fn get_qos(&self) -> (r: &DomainParticipantQos)
        ensures
            *r == self.spec_qos(),
    {
        &self.qos
    }

    pub fn set_qos(&mut self, qos: DomainParticipantQos)
        ensures
            final(self).spec_qos() == qos,
            final(self).publishers() == old(self).publishers(),
            final(self).subscribers() == old(self).subscribers(),
            final(self).topics() == old(self).topics(),
            final(self).spec_enabled() == old(self).spec_enabled(),
    {
        self.qos = qos;
    }

    pub fn set_default_publisher_qos(&mut self, qos: QosKind<PublisherQos>)
        ensures
            match qos {
                QosKind::Default => final(self).defaults().0.is_default(),
                QosKind::Specific(q) => final(self).defaults().0.same(&q),
            },
            final(self).defaults().1 == old(self).defaults().1,
            final(self).defaults().2 == old(self).defaults().2,
    {
        let q = match qos {
            QosKind::Default => GroupQos::default_qos(),
            QosKind::Specific(q) => q,
        };
        self.default_publisher_qos = q;
    }

    pub fn get_default_publisher_qos(&self) -> (r: PublisherQos)
        ensures
            r.same(&self.defaults().0),
    {
        self.default_publisher_qos.duplicate()
    }

    pub fn set_default_subscriber_qos(&mut self, qos: QosKind<SubscriberQos>)
        ensures
            match qos {
                QosKind::Default => final(self).defaults().1.is_default(),
                QosKind::Specific(q) => final(self).defaults().1.same(&q),
            },
            final(self).defaults().0 == old(self).defaults().0,
            final(self).defaults().2 == old(self).defaults().2,
    {
        let q = match qos {
            QosKind::Default => GroupQos::default_qos(),
            QosKind::Specific(q) => q,
        };
        self.default_subscriber_qos = q;
    }

    pub fn get_default_subscriber_qos(&self) -> (r: SubscriberQos)
        ensures
            r.same(&self.defaults().1),
    {
        self.default_subscriber_qos.duplicate()
    }

    /// Sets the default topic QoS; an inconsistent one is refused.
    pub fn set_default_topic_qos(&mut self, qos: QosKind<TopicQos>) -> (r: DdsResult<()>)
        ensures
            default_topic_qos_set(old(self), final(self), qos, r),

    {
        let q = match qos {
            QosKind::Default => EndpointQos::default_reader(),
            QosKind::Specific(q) => q,
        };
        if q.is_consistent().is_err() {
            return Err(DdsError::InconsistentPolicy);
        }
        self.default_topic_qos = q;
        Ok(())
    }

    pub fn get_default_topic_qos(&self) -> (r: TopicQos)
        ensures
            r == self.defaults().2,
    {
        self.default_topic_qos
    }

    /// The handles of the discovered participants, in discovery order.
    pub fn get_discovered_participants(&self) -> (r: Vec<InstanceHandle>)
        ensures
            r@.len() == self.discovered_participants().len(),
            forall|i: int| 0 <= i < r@.len() ==> #[trigger] r@[i] == self.discovered_participants()[i].dds_participant_data.key,
    {
        let mut r: Vec<InstanceHandle> = Vec::new();
        let mut i: usize = 0;
        while i < self.discovered_participant_list.len()
            invariant
                i <= self.discovered_participant_list@.len(),
                r@.len() == i,
                forall|k: int| 0 <= k < i ==> #[trigger] r@[k] == self.discovered_participant_list@[k].dds_participant_data.key,
            decreases self.discovered_participant_list@.len() - i,
        {
            r.push(self.discovered_participant_list[i].dds_participant_data.key);
            i += 1;
        }
        r
    }

    /// What discovery learnt of the participant `handle`.
    pub fn get_discovered_participant_data(&self, handle: &InstanceHandle) -> (r: DdsResult<&SpdpDiscoveredParticipantData>)
        ensures
            match r {
                Ok(d) => exists|i: int|
                    0 <= i < self.discovered_participants().len() && #[trigger] self.discovered_participants()[i]
                        == *d && d.dds_participant_data.key@ == handle@,
                Err(e) => e == DdsError::PreconditionNotMet && forall|i: int|
                    0 <= i < self.discovered_participants().len() ==> (#[trigger] self.discovered_participants()[i]).dds_participant_data.key@
                        != handle@,
            },
    {
        let mut i: usize = 0;
        while i < self.discovered_participant_list.len()
            invariant
                i <= self.discovered_participant_list@.len(),
                forall|k: int| 0 <= k < i ==> (#[trigger] self.discovered_participant_list@[k]).dds_participant_data.key@ != handle@,
            decreases self.discovered_participant_list@.len() - i,
        {
            if self.discovered_participant_list[i].dds_participant_data.key.equals(handle) {
                return Ok(&self.discovered_participant_list[i]);
            }
            i += 1;
        }
        Err(DdsError::PreconditionNotMet)
    }

    /// The handles of the discovered topics.
    pub fn get_discovered_topics(&self) -> (r: Vec<InstanceHandle>)
        ensures
            r@.len() == self.discovered_topics().len(),
            forall|i: int| 0 <= i < r@.len() ==> #[trigger] r@[i] == self.discovered_topics()[i].key,
    {
        let mut r: Vec<InstanceHandle> = Vec::new();
        let mut i: usize = 0;
        while i < self.discovered_topic_list.len()
            invariant
                i <= self.discovered_topic_list@.len(),
                r@.len() == i,
                forall|k: int| 0 <= k < i ==> #[trigger] r@[k] == self.discovered_topic_list@[k].key,
            decreases self.discovered_topic_list@.len() - i,
        {
            r.push(self.discovered_topic_list[i].key);
            i += 1;
        }
        r
    }

    /// What discovery learnt of the topic `handle`.
    pub fn get_discovered_topic_data(&self, handle: &InstanceHandle) -> (r: DdsResult<&TopicBuiltinTopicData>)
        ensures
            match r {
                Ok(d) => exists|i: int|
                    0 <= i < self.discovered_topics().len() && #[trigger] self.discovered_topics()[i] == *d
                        && d.key@ == handle@,
                Err(e) => e == DdsError::PreconditionNotMet && forall|i: int|
                    0 <= i < self.discovered_topics().len() ==> (#[trigger] self.discovered_topics()[i]).key@ != handle@,
            },
    {
        let mut i: usize = 0;
        while i < self.discovered_topic_list.len()
            invariant
                i <= self.discovered_topic_list@.len(),
                forall|k: int| 0 <= k < i ==> (#[trigger] self.discovered_topic_list@[k]).key@ != handle@,
            decreases self.discovered_topic_list@.len() - i,
        {
            if self.discovered_topic_list[i].key.equals(handle) {
                return Ok(&self.discovered_topic_list[i]);
            }
            i += 1;
        }
        Err(DdsError::PreconditionNotMet)
    }

    pub fn get_domain_id(&self) -> (r: DomainId)
        ensures
            r == self.spec_domain_id(),
    {
        self.domain_id
    }

    /// The handle of the built-in subscriber.
    pub fn get_built_in_subscriber(&self) -> (r: InstanceHandle)
        ensures
            r@ == self.builtin_guids().1.octets(),
    {
        self.builtin_subscriber.get_instance_handle()
    }

    /// The handle of the built-in publisher.
    pub fn get_builtin_publisher(&self) -> (r: InstanceHandle)
        ensures
            r@ == self.builtin_guids().0.octets(),
    {
        self.builtin_publisher.get_instance_handle(crate::publisher::GetInstanceHandle)
    }

    /// The GUIDs of the built-in publisher and subscriber.
    pub closed spec fn builtin_guids(&self) -> (Guid, Guid) {
        (self.builtin_publisher.spec_guid(), self.builtin_subscriber.spec_guid())
    }

    pub fn get_status_kind(&self) -> (r: Vec<StatusKind>)
        ensures
            r@ == self.mask(),
    {
        let mut r: Vec<StatusKind> = Vec::new();
        let mut i: usize = 0;
        while i < self.status_kind.len()
            invariant
                i <= self.status_kind@.len(),
                r@ == self.status_kind@.subrange(0, i as int),
            decreases self.status_kind@.len() - i,
        {
            r.push(self.status_kind[i]);
            i += 1;
            assert(r@ =~= self.status_kind@.subrange(0, i as int));
        }
        assert(self.status_kind@.subrange(0, i as int) =~= self.status_kind@);
        r
    }

    pub fn set_listener(&mut self, status_kind: Vec<StatusKind>)
        ensures
            final(self).mask() == status_kind@,
            final(self).publishers() == old(self).publishers(),
            final(self).subscribers() == old(self).subscribers(),
            final(self).topics() == old(self).topics(),
            final(self).spec_enabled() == old(self).spec_enabled(),
    {
        self.status_kind = status_kind;
    }

    /// The participant's status condition, enabled for its listener mask.
    pub fn get_statuscondition(&self) -> (r: StatusCondition)
        ensures
            r.enabled_statuses@ == self.mask(),
    {
        StatusCondition { enabled_statuses: self.get_status_kind() }
    }

    pub fn set_default_unicast_locator_list(&mut self, list: Vec<Locator>)
        ensures
            final(self).locators().0 == list@,
            final(self).locators().1 == old(self).locators().1,
            final(self).locators().2 == old(self).locators().2,
            final(self).locators().3 == old(self).locators().3,
    {
        self.default_unicast_locator_list = list;
    }

    pub fn set_default_multicast_locator_list(&mut self, list: Vec<Locator>)
        ensures
            final(self).locators().1 == list@,
            final(self).locators().0 == old(self).locators().0,
            final(self).locators().2 == old(self).locators().2,
            final(self).locators().3 == old(self).locators().3,
    {
        self.default_multicast_locator_list = list;
    }

    pub fn set_metatraffic_unicast_locator_list(&mut self, list: Vec<Locator>)
        ensures
            final(self).locators().2 == list@,
            final(self).locators().0 == old(self).locators().0,
            final(self).locators().1 == old(self).locators().1,
            final(self).locators().3 == old(self).locators().3,
    {
        self.metatraffic_unicast_locator_list = list;
    }

    pub fn set_metatraffic_multicast_locator_list(&mut self, list: Vec<Locator>)
        ensures
            final(self).locators().3 == list@,
            final(self).locators().0 == old(self).locators().0,
            final(self).locators().1 == old(self).locators().1,
            final(self).locators().2 == old(self).locators().2,
    {
        self.metatraffic_multicast_locator_list = list;
    }

    pub fn get_default_unicast_locator_list(&self) -> (r: Vec<Locator>)
        ensures
            r@ == self.locators().0,
    {
        copy_locators(&self.default_unicast_locator_list)
    }

    pub fn get_default_multicast_locator_list(&self) -> (r: Vec<Locator>)
        ensures
            r@ == self.locators().1,
    {
        copy_locators(&self.default_multicast_locator_list)
    }

    pub fn get_metatraffic_unicast_locator_list(&self) -> (r: Vec<Locator>)
        ensures
            r@ == self.locators().2,
    {
        copy_locators(&self.metatraffic_unicast_locator_list)
    }

    pub fn get_metatraffic_multicast_locator_list(&self) -> (r: Vec<Locator>)
        ensures
            r@ == self.locators().3,
    {
        copy_locators(&self.metatraffic_multicast_locator_list)
    }

    pub fn data_max_size_serialized(&self) -> (r: usize)
        ensures
            r == self.max_size(),
    {
        self.data_max_size_serialized
    }

    /// Asserts manual liveliness: the count announced by SPDP goes up.
    pub fn assert_liveliness(&mut self) -> (r: DdsResult<()>)
        ensures
            !old(self).spec_enabled() ==> r == Err::<(), DdsError>(DdsError::NotEnabled)
                && final(self).liveliness_count() == old(self).liveliness_count(),
            old(self).spec_enabled() ==> r is Ok && final(self).liveliness_count() == crate::writer::next_count(
                old(self).liveliness_count(),
            ),
            final(self).publishers() == old(self).publishers(),
    {
        if !self.enabled {
            return Err(DdsError::NotEnabled);
        }
        self.manual_liveliness_count = crate::writer::increment_count(self.manual_liveliness_count);
        Ok(())
    }

    /// Deletes every user-defined publisher, subscriber and topic.
    pub fn delete_contained_entities(&mut self)
        ensures
            no_user_entities(final(self)),
            final(self).spec_guid() == old(self).spec_guid(),
            final(self).spec_enabled() == old(self).spec_enabled(),
    {
        self.user_defined_publisher_list = Vec::new();
        self.user_defined_subscriber_list = Vec::new();
        let mut kept: Vec<TopicEntry> = Vec::new();
        let mut rest: Vec<TopicEntry> = Vec::new();
        std::mem::swap(&mut rest, &mut self.topic_list);
        while rest.len() > 0
            invariant
                forall|k: int| 0 <= k < kept@.len() ==> is_builtin_topic_name(#[trigger] kept@[k].name@),
            decreases rest@.len(),
        {
            let t = rest.remove(0);
            if builtin_topic_name(&t.name) {
                kept.push(t);
            }
        }
        self.topic_list = kept;
    }

    /// Whether `handle` is an entity of this participant: a publisher, subscriber or topic,
    /// or a writer or reader of one of them.
    pub fn contains_entity(&self, handle: &InstanceHandle) -> (r: bool)
        ensures
            r == (publisher_index(self.publishers(), handle@).is_some() || subscriber_index(self.subscribers(), handle@).is_some()
                || (exists|i: int| 0 <= i < self.topics().len() && (#[trigger] self.topics()[i]).handle@ == handle@)
                || (exists|i: int, k: int|
                0 <= i < self.publishers().len() && 0 <= k < self.publishers()[i].writers().len()
                    && (#[trigger] self.publishers()[i].writers()[k]).handle@ == handle@) || (exists|i: int, k: int|
                0 <= i < self.subscribers().len() && 0 <= k < self.subscribers()[i].readers().len()
                    && (#[trigger] self.subscribers()[i].readers()[k]).handle@ == handle@)),
    {
        if self.find_publisher(handle).is_some() || self.find_subscriber(handle).is_some() {
            return true;
        }
        let mut i: usize = 0;
        while i < self.topic_list.len()
            invariant
                i <= self.topic_list@.len(),
                forall|k: int| 0 <= k < i ==> (#[trigger] self.topic_list@[k]).handle@ != handle@,
            decreases self.topic_list@.len() - i,
        {
            if self.topic_list[i].handle.equals(handle) {
                return true;
            }
            i += 1;
        }
        let mut i: usize = 0;
        while i < self.user_defined_publisher_list.len()
            invariant
                i <= self.user_defined_publisher_list@.len(),
                forall|j: int, k: int|
                    0 <= j < i && 0 <= k < self.publishers()[j].writers().len() ==> (#[trigger] self.publishers()[j].writers()[k]).handle@
                        != handle@,
            decreases self.user_defined_publisher_list@.len() - i,
        {
            let list = self.user_defined_publisher_list[i].get_data_writer_list(crate::publisher::GetDataWriterList);
            let mut k: usize = 0;
            while k < list.len()
                invariant
                    i < self.user_defined_publisher_list@.len(),
                    k <= list@.len(),
                    list@.len() == self.publishers()[i as int].writers().len(),
                    forall|m: int| 0 <= m < list@.len() ==> #[trigger] list@[m] == self.publishers()[i as int].writers()[m].handle,
                    forall|m: int| 0 <= m < k ==> (#[trigger] self.publishers()[i as int].writers()[m]).handle@ != handle@,
                decreases list@.len() - k,
            {
                if list[k].equals(handle) {
                    assert(self.publishers()[i as int].writers()[k as int].handle@ == handle@);
                    return true;
                }
                k += 1;
            }
            i += 1;
        }
        let mut i: usize = 0;
        while i < self.user_defined_subscriber_list.len()
            invariant
                i <= self.user_defined_subscriber_list@.len(),
                forall|j: int, k: int|
                    0 <= j < self.publishers().len() && 0 <= k < self.publishers()[j].writers().len() ==> (#[trigger] self.publishers()[j].writers()[k]).handle@
                        != handle@,
                forall|j: int, k: int|
                    0 <= j < i && 0 <= k < self.subscribers()[j].readers().len() ==> (#[trigger] self.subscribers()[j].readers()[k]).handle@
                        != handle@,
            decreases self.user_defined_subscriber_list@.len() - i,
        {
            if self.user_defined_subscriber_list[i].contains_reader(handle) {
                return true;
            }
            i += 1;
        }
        false
    }
}

/// Whether SPDP data comes from a participant this one takes: same domain (an absent id
/// meaning this one's), same tag, not ignored and not known yet.
pub open spec fn spdp_accepts(p: &DomainParticipantActor, d: &SpdpDiscoveredParticipantData) -> bool {
    &&& match d.domain_id {
        Some(id) => id == p.spec_domain_id(),
        None => true,
    }
    &&& d.domain_tag@ == p.spec_domain_tag()
    &&& !has_handle(p.ignored().0, d.dds_participant_data.key@)
    &&& forall|i: int|
        0 <= i < p.discovered_participants().len() ==> (#[trigger] p.discovered_participants()[i]).dds_participant_data.key@
            != d.dds_participant_data.key@
}

/// Relies on `std::time::SystemTime::now` for the time since the Unix epoch, as seconds and
/// nanoseconds (a clock before the epoch reads as zero).
#[verifier::external_body]
fn unix_now() -> (r: (u64, u32))
    ensures
        r.1 < 1_000_000_000,
{
    let d = std::time::SystemTime::now().duration_since(std::time::UNIX_EPOCH).unwrap_or_default();
    (d.as_secs(), d.subsec_nanos())
}

/// A time from seconds and nanoseconds since the epoch; seconds past the largest `i32` are held there.
pub fn time_from_unix(secs: u64, nanos: u32) -> (r: Time)
    ensures
        r.sec == (if secs <= i32::MAX as u64 {
            secs as i32
        } else {
            i32::MAX
        }),
        r.nanosec == nanos,
{
    let sec = if secs <= i32::MAX as u64 {
        secs as i32
    } else {
        i32::MAX
    };
    Time { sec, nanosec: nanos }
}

impl DomainParticipantActor {
    /// Whether SPDP data `d` comes from a participant this one takes.
    pub fn accepts(&self, d: &SpdpDiscoveredParticipantData) -> (r: bool)
        ensures
            r == spdp_accepts(self, d),
    {
        let is_domain_id_matching = match d.domain_id {
            Some(id) => id == self.domain_id,
            None => true,
        };
        let is_domain_tag_matching = d.domain_tag == self.domain_tag;
        let handle = d.dds_participant_data.key;
        let is_participant_ignored = contains_handle(&self.ignored_participants, &handle);
        let is_participant_discovered = self.get_discovered_participant_data(&handle).is_ok();
        is_domain_id_matching && is_domain_tag_matching && !is_participant_ignored && !is_participant_discovered
    }

    /// Takes in SPDP data: a participant it accepts is recorded, and `true` returned.
    pub fn add_discovered_participant(&mut self, discovered_participant_data: SpdpDiscoveredParticipantData) -> (r: bool)
        ensures
            r == spdp_accepts(old(self), &discovered_participant_data),
            r ==> final(self).discovered_participants() == old(self).discovered_participants().push(
                discovered_participant_data,
            ),
            !r ==> final(self).discovered_participants() == old(self).discovered_participants(),
            final(self).ignored() == old(self).ignored(),
            final(self).spec_domain_id() == old(self).spec_domain_id(),
            final(self).spec_domain_tag() == old(self).spec_domain_tag(),
            final(self).publishers() == old(self).publishers(),
            final(self).subscribers() == old(self).subscribers(),
            final(self).topics() == old(self).topics(),
    {
        if self.accepts(&discovered_participant_data) {
            self.discovered_participant_list.push(discovered_participant_data);
            true
        } else {
            false
        }
    }

    /// Forgets the participant `handle`.
    pub fn remove_discovered_participant(&mut self, handle: &InstanceHandle)
        ensures
            forall|i: int|
                0 <= i < final(self).discovered_participants().len() ==> (#[trigger] final(self).discovered_participants()[i]).dds_participant_data.key@
                    != handle@,
            forall|i: int|
                0 <= i < final(self).discovered_participants().len() ==> old(self).discovered_participants().contains(
                    #[trigger] final(self).discovered_participants()[i],
                ),
            forall|i: int|
                0 <= i < old(self).discovered_participants().len() && (#[trigger] old(self).discovered_participants()[i]).dds_participant_data.key@
                    != handle@ ==> final(self).discovered_participants().contains(old(self).discovered_participants()[i]),
            final(self).publishers() == old(self).publishers(),
    {
        let mut kept: Vec<SpdpDiscoveredParticipantData> = Vec::new();
        let mut rest: Vec<SpdpDiscoveredParticipantData> = Vec::new();
        std::mem::swap(&mut rest, &mut self.discovered_participant_list);
        let ghost all = rest@;
        let ghost total = rest@.len();
        while rest.len() > 0
            invariant
                total == all.len(),
                rest@.len() <= total,
                rest@ == all.subrange(total - rest@.len(), total as int),
                forall|i: int| 0 <= i < kept@.len() ==> (#[trigger] kept@[i]).dds_participant_data.key@ != handle@,
                forall|i: int| 0 <= i < kept@.len() ==> all.contains(#[trigger] kept@[i]),
                forall|i: int|
                    0 <= i < total - rest@.len() && (#[trigger] all[i]).dds_participant_data.key@ != handle@ ==> kept@.contains(all[i]),
            decreases rest@.len(),
        {
            let ghost k = total - rest@.len();
            let ghost r0 = rest@;
            let ghost k0 = kept@;
            let x = rest.remove(0);
            proof {
                assert(all[k] == r0[0]);
                assert(rest@ =~= all.subrange(total - rest@.len(), total as int));
            }
            if !x.dds_participant_data.key.equals(handle) {
                kept.push(x);
                proof {
                    assert(kept@[kept@.len() - 1] == all[k]);
                    assert forall|i: int| 0 <= i < k0.len() implies kept@.contains(#[trigger] k0[i]) by {
                        assert(kept@[i] == k0[i]);
                    }
                }
            }
        }
        self.discovered_participant_list = kept;
    }

    /// What this participant announces through SPDP.
    pub fn as_spdp_discovered_participant_data(&self) -> (r: SpdpDiscoveredParticipantData)
        ensures
            r.dds_participant_data.key@ == self.spec_guid().octets(),
            r.dds_participant_data.user_data@ == self.spec_qos().user_data@,
            r.domain_id == Some(self.spec_domain_id()),
            r.domain_tag@ == self.spec_domain_tag(),
            r.guid_prefix == self.spec_guid().prefix,
            r.available_builtin_endpoints == 0x3000003f,
            r.metatraffic_unicast_locator_list@ == self.locators().2,
            r.metatraffic_multicast_locator_list@ == self.locators().3,
            r.default_unicast_locator_list@ == self.locators().0,
            r.default_multicast_locator_list@ == self.locators().1,
            r.lease_duration_seconds == 100,
    {
        let user_data = crate::messages::copy_bytes(self.qos.user_data.as_slice(), 0, self.qos.user_data.len());
        assert(self.qos.user_data@.subrange(0, self.qos.user_data@.len() as int) =~= self.qos.user_data@);
        SpdpDiscoveredParticipantData {
            dds_participant_data: ParticipantBuiltinTopicData { key: InstanceHandle::from_guid(&self.guid), user_data },
            domain_id: Some(self.domain_id),
            domain_tag: self.domain_tag.clone(),
            guid_prefix: self.guid.prefix,
            available_builtin_endpoints: 0x3000003f,
            metatraffic_unicast_locator_list: copy_locators(&self.metatraffic_unicast_locator_list),
            metatraffic_multicast_locator_list: copy_locators(&self.metatraffic_multicast_locator_list),
            default_unicast_locator_list: copy_locators(&self.default_unicast_locator_list),
            default_multicast_locator_list: copy_locators(&self.default_multicast_locator_list),
            lease_duration_seconds: 100,
        }
    }

    /// Records a topic learnt through discovery, unless one with its key is known.
    pub fn add_discovered_topic(&mut self, data: TopicBuiltinTopicData)
        ensures
            (exists|i: int| 0 <= i < old(self).discovered_topics().len() && (#[trigger] old(self).discovered_topics()[i]).key@ == data.key@)
                ==> final(self).discovered_topics() == old(self).discovered_topics(),
            !(exists|i: int| 0 <= i < old(self).discovered_topics().len() && (#[trigger] old(self).discovered_topics()[i]).key@ == data.key@)
                ==> final(self).discovered_topics() == old(self).discovered_topics().push(data),
            final(self).topics() == old(self).topics(),
            final(self).publishers() == old(self).publishers(),
            final(self).subscribers() == old(self).subscribers(),
            final(self).ignored() == old(self).ignored(),
            final(self).discovered_participants() == old(self).discovered_participants(),
    {
        if self.get_discovered_topic_data(&data.key).is_err() {
            self.discovered_topic_list.push(data);
        }
    }

    /// The topic named `topic_name`: a local one, or else one made from a discovered topic
    /// of that name (the first found).
    pub fn find_topic(&mut self, topic_name: String) -> (r: DdsResult<Option<InstanceHandle>>)
        ensures
            topic_found(old(self), final(self), topic_name, r),

    {
        if let Some((h, _t)) = self.lookup_topicdescription(&topic_name) {
            return Ok(Some(h));
        }
        let mut i: usize = 0;
        while i < self.discovered_topic_list.len()
            invariant
                i <= self.discovered_topic_list@.len(),
                self.discovered_topic_list@ == old(self).discovered_topic_list@,
                self.topic_list@ == old(self).topic_list@,
                self.user_defined_publisher_list@ == old(self).user_defined_publisher_list@,
                self.user_defined_subscriber_list@ == old(self).user_defined_subscriber_list@,
                !topic_named(self.topics(), topic_name@),
                forall|k: int| 0 <= k < i ==> (#[trigger] self.discovered_topic_list@[k]).name@ != topic_name@,
            decreases self.discovered_topic_list@.len() - i,
        {
            if self.discovered_topic_list[i].name == topic_name {
                assert(old(self).discovered_topics()[i as int].name@ == topic_name@);
                let topic_type = self.discovered_topic_list[i].topic_type.clone();
                let qos = self.discovered_topic_list[i].qos;
                let h = self.create_user_defined_topic(topic_name, topic_type, QosKind::Specific(qos))?;
                return Ok(Some(h));
            }
            i += 1;
        }
        Ok(None)
    }

    /// The time now; only an enabled participant tells it.
    pub fn get_current_time(&self) -> (r: DdsResult<Time>)
        ensures
            !self.spec_enabled() ==> r == Err::<Time, DdsError>(DdsError::NotEnabled),
            self.spec_enabled() ==> (r is Ok && r->Ok_0.nanosec < 1_000_000_000),
    {
        if !self.enabled {
            return Err(DdsError::NotEnabled);
        }
        let (secs, nanos) = unix_now();
        Ok(time_from_unix(secs, nanos))
    }
}

/// Discovery holds the topic of the remote endpoint `key` (the first recorded under that key).
pub open spec fn topic_known(p: &DomainParticipantActor, key: Seq<u8>) -> bool {
    exists|i: int| 0 <= i < p.discovered_topics().len() && (#[trigger] p.discovered_topics()[i]).key@ == key
}

/// The handle of the participant with prefix `prefix`.
pub open spec fn participant_handle(prefix: GuidPrefix) -> Seq<u8> {
    (Guid { prefix, entity_id: EntityId { key0: 0, key1: 0, key2: 1, kind: 0xc1 } }).octets()
}

/// Whether the participant `prefix` is discovered and not ignored.
/// `new` is `old` after the writer `data` of the participant `remote_prefix` was announced:
/// `r` tells whether it was taken in (its participant known and neither ignored); if so every
/// subscriber matches it and its topic is recorded, else nothing changes.
pub open spec fn writer_taken_in(
    old: &DomainParticipantActor,
    new: &DomainParticipantActor,
    data: &DiscoveredWriterData,
    remote_prefix: GuidPrefix,
    r: bool,
) -> bool {
    &&& r == (remote_usable(old, remote_prefix) && !has_handle(old.ignored().1, data.writer_handle@))
    &&& new.subscribers().len() == old.subscribers().len()
    &&& forall|i: int|
        0 <= i < old.subscribers().len() ==> if r {
            matched_writer_added(&old.subscribers()[i], &#[trigger] new.subscribers()[i], data)
        } else {
            new.subscribers()[i] == old.subscribers()[i]
        }
    &&& new.publishers() == old.publishers()
    &&& new.topics() == old.topics()
    &&& r ==> topic_known(new, data.writer_handle@)
}

/// `new` is `old` after the reader `data` of the participant `remote_prefix` was announced:
/// `r` tells whether it was taken in (its participant known and neither ignored); if so every
/// publisher matches it and its topic is recorded, else nothing changes.
pub open spec fn reader_taken_in(
    old: &DomainParticipantActor,
    new: &DomainParticipantActor,
    data: &DiscoveredReaderData,
    remote_prefix: GuidPrefix,
    r: bool,
) -> bool {
    &&& r == (remote_usable(old, remote_prefix) && !has_handle(old.ignored().2, data.reader_handle@))
    &&& new.publishers().len() == old.publishers().len()
    &&& forall|i: int|
        0 <= i < old.publishers().len() ==> if r {
            matched_reader_added(&old.publishers()[i], &#[trigger] new.publishers()[i], data)
        } else {
            new.publishers()[i] == old.publishers()[i]
        }
    &&& new.subscribers() == old.subscribers()
    &&& new.topics() == old.topics()
    &&& r ==> topic_known(new, data.reader_handle@)
}

/// `new` is `old` with the writer `h` unmatched from every subscriber.
pub open spec fn writer_removed(old: &DomainParticipantActor, new: &DomainParticipantActor, h: Seq<u8>) -> bool {
    &&& new.subscribers().len() == old.subscribers().len()
    &&& forall|i: int|
        0 <= i < old.subscribers().len() ==> writer_unmatched(&old.subscribers()[i], &#[trigger] new.subscribers()[i], h)
    &&& new.publishers() == old.publishers()
    &&& new.topics() == old.topics()
}

/// `new` is `old` with the reader `h` unmatched from every publisher.
pub open spec fn reader_removed(old: &DomainParticipantActor, new: &DomainParticipantActor, h: InstanceHandle) -> bool {
    &&& new.publishers().len() == old.publishers().len()
    &&& forall|i: int|
        0 <= i < old.publishers().len() ==> reader_unmatched(
            &old.publishers()[i],
            &#[trigger] new.publishers()[i],
            RemoveMatchedReader { discovered_reader_handle: h },
        )
    &&& new.subscribers() == old.subscribers()
    &&& new.topics() == old.topics()
}

pub open spec fn remote_usable(p: &DomainParticipantActor, prefix: GuidPrefix) -> bool {
    &&& !has_handle(p.ignored().0, participant_handle(prefix))
    &&& exists|i: int|
        0 <= i < p.discovered_participants().len() && (#[trigger] p.discovered_participants()[i]).dds_participant_data.key@
            == participant_handle(prefix)
}

impl DomainParticipantActor {
    /// Creates a data writer in the publisher `publisher_handle`.
    pub fn create_datawriter(&mut self, publisher_handle: &InstanceHandle, message: CreateDatawriter) -> (r: DdsResult<InstanceHandle>)
        ensures
            publisher_index(old(self).publishers(), publisher_handle@).is_none() ==> r == Err::<InstanceHandle, DdsError>(
                DdsError::PreconditionNotMet,
            ) && final(self).publishers() == old(self).publishers(),
            publisher_index(old(self).publishers(), publisher_handle@).is_some() ==> exists|i: int|
                0 <= i < old(self).publishers().len() && (#[trigger] old(self).publishers()[i]).spec_guid().octets()
                    == publisher_handle@ && writer_created(&old(self).publishers()[i], &final(self).publishers()[i], message, r)
                    && final(self).publishers() == old(self).publishers().update(i, final(self).publishers()[i]),
            final(self).publishers().len() == old(self).publishers().len(),
            final(self).subscribers() == old(self).subscribers(),
            final(self).topics() == old(self).topics(),
    {
        match self.find_publisher(publisher_handle) {
            None => Err(DdsError::PreconditionNotMet),
            Some(i) => {
                let r = self.user_defined_publisher_list[i].create_datawriter(message);
                assert(self.publishers() =~= old(self).publishers().update(i as int, self.publishers()[i as int]));
                r
            },
        }
    }

    /// The readers matched with a writer of one of the publishers.
    pub fn get_matched_subscriptions(&self, writer_handle: &InstanceHandle) -> (r: Option<Vec<InstanceHandle>>)
        ensures
            r is Some ==> exists|i: int, k: int|
                0 <= i < self.publishers().len() && 0 <= k < self.publishers()[i].writers().len()
                    && (#[trigger] self.publishers()[i].writers()[k]).handle@ == writer_handle@
                    && handles(r->Some_0@) == handles(self.publishers()[i].writers()[k].matched_readers@),
            r is None ==> forall|i: int, k: int|
                0 <= i < self.publishers().len() && 0 <= k < self.publishers()[i].writers().len() ==> (#[trigger] self.publishers()[i].writers()[k]).handle@
                    != writer_handle@,
    {
        let mut i: usize = 0;
        while i < self.user_defined_publisher_list.len()
            invariant
                i <= self.user_defined_publisher_list@.len(),
                forall|j: int, k: int|
                    0 <= j < i && 0 <= k < self.publishers()[j].writers().len() ==> (#[trigger] self.publishers()[j].writers()[k]).handle@
                        != writer_handle@,
            decreases self.user_defined_publisher_list@.len() - i,
        {
            let r = self.user_defined_publisher_list[i].get_matched_subscriptions(writer_handle);
            if r.is_some() {
                proof {
                    let p = self.user_defined_publisher_list@[i as int];
                    assert(self.publishers()[i as int] == p);
                    let k = choose|k: int|
                        0 <= k < p.writers().len() && (#[trigger] p.writers()[k]).handle@ == writer_handle@
                            && handles(r->Some_0@) == handles(p.writers()[k].matched_readers@);
                    assert(self.publishers()[i as int].writers()[k].handle@ == writer_handle@);
                }
                return r;
            }
            i += 1;
        }
        None
    }

    /// Records the topic of a remote endpoint `key` among the discovered topics.
    fn record_topic(&mut self, key: InstanceHandle, name: String, topic_type: String, qos: TopicQos)
        ensures
            topic_known(final(self), key@),
            final(self).publishers() == old(self).publishers(),
            final(self).subscribers() == old(self).subscribers(),
            final(self).topics() == old(self).topics(),
            final(self).ignored() == old(self).ignored(),
            final(self).discovered_participants() == old(self).discovered_participants(),
            forall|i: int| 0 <= i < old(self).discovered_topics().len() ==> final(self).discovered_topics().contains(
                #[trigger] old(self).discovered_topics()[i],
            ),
    {
        let ghost name_v = name@;
        let data = TopicBuiltinTopicData { key, name, topic_type, qos };
        self.add_discovered_topic(data);
        proof {
            let ts = self.discovered_topics();
            if exists|i: int| 0 <= i < old(self).discovered_topics().len() && (#[trigger] old(self).discovered_topics()[i]).key@ == key@ {
            } else {
                assert(ts[ts.len() - 1].key@ == key@ && ts[ts.len() - 1].name@ == name_v);
            }
            assert forall|i: int| 0 <= i < old(self).discovered_topics().len() implies ts.contains(#[trigger] old(self).discovered_topics()[i]) by {
                assert(ts[i] == old(self).discovered_topics()[i]);
            }
        }
    }

    fn remote_participant_usable(&self, prefix: GuidPrefix) -> (r: bool)
        ensures
            r == remote_usable(self, prefix),
    {
        let handle = InstanceHandle::from_guid(&Guid::new(prefix, crate::types::entityid_participant()));
        !contains_handle(&self.ignored_participants, &handle) && self.get_discovered_participant_data(&handle).is_ok()
    }

    /// A remote reader found through SEDP, in the participant `remote_prefix`: unless it or
    /// its participant is ignored, or the participant is unknown, every publisher matches it.
    pub fn add_matched_reader(&mut self, message: &AddMatchedReader, remote_prefix: GuidPrefix) -> (r: bool)
        ensures
            reader_taken_in(old(self), final(self), &message.discovered_reader_data, remote_prefix, r),
    {
        if !self.remote_participant_usable(remote_prefix)
            || contains_handle(&self.ignored_subscriptions, &message.discovered_reader_data.reader_handle) {
            return false;
        }
        let d = &message.discovered_reader_data;
        self.record_topic(d.reader_handle, d.topic_name.clone(), d.topic_type.clone(), d.qos);
        let n = self.user_defined_publisher_list.len();
        let ghost ps0 = self.user_defined_publisher_list@;
        let ghost dt = self.discovered_topic_list@;
        let mut i: usize = 0;
        while i < n
            invariant
                self.discovered_topic_list@ == dt,
                n == ps0.len(),
                i <= n,
                ps0 == old(self).user_defined_publisher_list@,
                self.user_defined_subscriber_list@ == old(self).user_defined_subscriber_list@,
                self.topic_list@ == old(self).topic_list@,
                self.user_defined_publisher_list@.len() == n,
                forall|k: int| i <= k < n ==> #[trigger] self.user_defined_publisher_list@[k] == ps0[k],
                forall|k: int|
                    0 <= k < i ==> matched_reader_added(&ps0[k], &#[trigger] self.user_defined_publisher_list@[k], &message.discovered_reader_data),
            decreases n - i,
        {
            let ghost before = self.user_defined_publisher_list@;
            self.user_defined_publisher_list[i].add_matched_reader(message);
            proof {
                assert forall|k: int| 0 <= k < i implies #[trigger] self.user_defined_publisher_list@[k] == before[k] by {}
            }
            i += 1;
        }
        true
    }

    /// A remote reader went away: every publisher unmatches it.
    pub fn remove_matched_reader(&mut self, message: &RemoveMatchedReader)
        ensures
            reader_removed(old(self), final(self), message.discovered_reader_handle),
    {
        let n = self.user_defined_publisher_list.len();
        let ghost ps0 = self.user_defined_publisher_list@;
        let mut i: usize = 0;
        while i < n
            invariant
                n == ps0.len(),
                i <= n,
                ps0 == old(self).user_defined_publisher_list@,
                self.user_defined_subscriber_list@ == old(self).user_defined_subscriber_list@,
                self.topic_list@ == old(self).topic_list@,
                self.user_defined_publisher_list@.len() == n,
                forall|k: int| i <= k < n ==> #[trigger] self.user_defined_publisher_list@[k] == ps0[k],
                forall|k: int|
                    0 <= k < i ==> reader_unmatched(
                        &ps0[k],
                        &#[trigger] self.user_defined_publisher_list@[k],
                        RemoveMatchedReader { discovered_reader_handle: message.discovered_reader_handle },
                    ),
            decreases n - i,
        {
            let ghost before = self.user_defined_publisher_list@;
            self.user_defined_publisher_list[i].remove_matched_reader(RemoveMatchedReader {
                discovered_reader_handle: message.discovered_reader_handle,
            });
            proof {
                assert forall|k: int| 0 <= k < n && k != i implies #[trigger] self.user_defined_publisher_list@[k] == before[k] by {}
            }
            i += 1;
        }
    }

    /// A remote writer found through SEDP, in the participant `remote_prefix`: unless it or
    /// its participant is ignored, or the participant is unknown, every subscriber matches it.
    pub fn add_matched_writer(&mut self, data: &DiscoveredWriterData, remote_prefix: GuidPrefix) -> (r: bool)
        ensures
            writer_taken_in(old(self), final(self), data, remote_prefix, r),
    {
        if !self.remote_participant_usable(remote_prefix) || contains_handle(&self.ignored_publications, &data.writer_handle) {
            return false;
        }
        self.record_topic(data.writer_handle, data.topic_name.clone(), data.topic_type.clone(), data.qos);
        let n = self.user_defined_subscriber_list.len();
        let ghost ss0 = self.user_defined_subscriber_list@;
        let ghost dt = self.discovered_topic_list@;
        let mut i: usize = 0;
        while i < n
            invariant
                self.discovered_topic_list@ == dt,
                n == ss0.len(),
                i <= n,
                ss0 == old(self).user_defined_subscriber_list@,
                self.user_defined_publisher_list@ == old(self).user_defined_publisher_list@,
                self.topic_list@ == old(self).topic_list@,
                self.user_defined_subscriber_list@.len() == n,
                forall|k: int| i <= k < n ==> #[trigger] self.user_defined_subscriber_list@[k] == ss0[k],
                forall|k: int|
                    0 <= k < i ==> matched_writer_added(&ss0[k], &#[trigger] self.user_defined_subscriber_list@[k], data),
            decreases n - i,
        {
            let ghost before = self.user_defined_subscriber_list@;
            self.user_defined_subscriber_list[i].add_matched_writer(data);
            proof {
                assert forall|k: int| 0 <= k < i implies #[trigger] self.user_defined_subscriber_list@[k] == before[k] by {}
            }
            i += 1;
        }
        true
    }

    /// A discovered writer went away: every subscriber unmatches it.
    pub fn remove_matched_writer(&mut self, writer_handle: &InstanceHandle)
        ensures
            writer_removed(old(self), final(self), writer_handle@),
    {
        let n = self.user_defined_subscriber_list.len();
        let ghost ss0 = self.user_defined_subscriber_list@;
        let mut i: usize = 0;
        while i < n
            invariant
                n == ss0.len(),
                i <= n,
                ss0 == old(self).user_defined_subscriber_list@,
                self.user_defined_publisher_list@ == old(self).user_defined_publisher_list@,
                self.topic_list@ == old(self).topic_list@,
                self.user_defined_subscriber_list@.len() == n,
                forall|k: int| i <= k < n ==> #[trigger] self.user_defined_subscriber_list@[k] == ss0[k],
                forall|k: int|
                    0 <= k < i ==> writer_unmatched(&ss0[k], &#[trigger] self.user_defined_subscriber_list@[k], writer_handle@),
            decreases n - i,
        {
            let ghost before = self.user_defined_subscriber_list@;
            self.user_defined_subscriber_list[i].remove_matched_writer(writer_handle);
            proof {
                assert forall|k: int| 0 <= k < n && k != i implies #[trigger] self.user_defined_subscriber_list@[k] == before[k] by {}
            }
            i += 1;
        }
    }

    /// Takes in one sample of the publications detector, sent by the participant
    /// `source_prefix` for the instance `instance_handle`: an alive one with its decoded
    /// writer data is taken in as by `add_matched_writer` (`r` tells whether it was), a
    /// disposed one unmatches the writer everywhere; any other sample changes nothing.
    pub fn process_publication_sample(
        &mut self,
        instance_state: InstanceStateKind,
        instance_handle: &InstanceHandle,
        data: Option<DiscoveredWriterData>,
        source_prefix: GuidPrefix,
    ) -> (r: bool)
        ensures
            match (instance_state, data) {
                (InstanceStateKind::Alive, Some(d)) => writer_taken_in(old(self), final(self), &d, source_prefix, r),
                (InstanceStateKind::NotAliveDisposed, _) => !r && writer_removed(old(self), final(self), instance_handle@),
                _ => !r && *final(self) == *old(self),
            },
    {
        match instance_state {
            InstanceStateKind::Alive => match data {
                Some(d) => self.add_matched_writer(&d, source_prefix),
                None => false,
            },
            InstanceStateKind::NotAliveDisposed => {
                self.remove_matched_writer(instance_handle);
                false
            },
            InstanceStateKind::NotAliveNoWriters => false,
        }
    }

    /// Takes in one sample of the subscriptions detector, sent by the participant
    /// `source_prefix` for the instance `instance_handle`: an alive one with its decoded
    /// reader data is taken in as by `add_matched_reader` (`r` tells whether it was), a
    /// disposed one unmatches the reader everywhere; any other sample changes nothing.
    pub fn process_subscription_sample(
        &mut self,
        instance_state: InstanceStateKind,
        instance_handle: &InstanceHandle,
        data: Option<AddMatchedReader>,
        source_prefix: GuidPrefix,
    ) -> (r: bool)
        ensures
            match (instance_state, data) {
                (InstanceStateKind::Alive, Some(m)) => reader_taken_in(
                    old(self),
                    final(self),
                    &m.discovered_reader_data,
                    source_prefix,
                    r,
                ),
                (InstanceStateKind::NotAliveDisposed, _) => !r && reader_removed(old(self), final(self), *instance_handle),
                _ => !r && *final(self) == *old(self),
            },
    {
        match instance_state {
            InstanceStateKind::Alive => match data {
                Some(m) => self.add_matched_reader(&m, source_prefix),
                None => false,
            },
            InstanceStateKind::NotAliveDisposed => {
                self.remove_matched_reader(&RemoveMatchedReader { discovered_reader_handle: *instance_handle });
                false
            },
            InstanceStateKind::NotAliveNoWriters => false,
        }
    }
}

} // verus!
