use vstd::prelude::*;

use crate::stateless::RtpsStatelessWriter;
use crate::writer::SendItem;
use crate::discovery::{
    has_endpoint, reader_knows, sedp_guid, writer_knows, SedpEndpoints, BUILTIN_ENDPOINT_PUBLICATIONS_ANNOUNCER,
    BUILTIN_ENDPOINT_PUBLICATIONS_DETECTOR, BUILTIN_ENDPOINT_SUBSCRIPTIONS_ANNOUNCER, BUILTIN_ENDPOINT_SUBSCRIPTIONS_DETECTOR,
    BUILTIN_ENDPOINT_TOPICS_ANNOUNCER, BUILTIN_ENDPOINT_TOPICS_DETECTOR,
};
use crate::participant::{
    no_user_entities, spdp_accepts, topic_named, DomainParticipantActor, SpdpDiscoveredParticipantData,
    Time, TopicBuiltinTopicData,
};
use crate::qos::{DomainParticipantFactoryQos, DomainParticipantQos, PublisherQos, QosKind, SubscriberQos, TopicQos};
use crate::types::{
    guid_prefix_from_ids, port_builtin_multicast, DdsError, DdsResult, DomainId, InstanceHandle,
    StatusCondition, StatusKind,
};

verus! {

/// A participant as its user sees it: its state and its SEDP endpoints.
pub struct DomainParticipant {
    actor: DomainParticipantActor,
    sedp: SedpEndpoints,
    spdp: RtpsStatelessWriter,
}

impl DomainParticipant {
    pub closed spec fn spec_actor(&self) -> &DomainParticipantActor {
        &self.actor
    }

    pub closed spec fn spec_sedp(&self) -> &SedpEndpoints {
        &self.sedp
    }

    /// The SPDP writer that announces the participant.
    pub closed spec fn spec_spdp(&self) -> &RtpsStatelessWriter {
        &self.spdp
    }

    pub open spec fn wf(&self) -> bool {
        self.spec_sedp().wf() && self.spec_spdp().wf()
    }

    pub fn new(actor: DomainParticipantActor, sedp: SedpEndpoints, spdp: RtpsStatelessWriter) -> (r: Self)
        ensures
            r.spec_actor() == &actor,
            r.spec_sedp() == &sedp,
            r.spec_spdp() == &spdp,
    {
        DomainParticipant { actor, sedp, spdp }
    }

    /// The SPDP submessage a send item of `announce_participant` stands for.
    pub fn spdp_submessage(&self, item: &SendItem) -> (r: Option<crate::codec::RtpsSubmessageKind>)
        ensures
            r matches Some(m) ==> crate::writer::built_submessage(
                &m,
                item.submessage,
                crate::types::EntityId { key0: 0, key1: 0, key2: 0, kind: 0 },
                self.spec_spdp().spec_guid().entity_id,
                self.spec_spdp().changes(),
                self.spec_spdp().max_size(),
            ),
    {
        self.spdp.build_submessage(item)
    }

    /// Announces the participant: `data`, its serialized SPDP data, becomes the SPDP writer's
    /// next change and is sent to every locator; `OutOfResources` when sequence numbers
    /// run out or the data cannot be cut into fragments.
    pub fn announce_participant(&mut self, data: Vec<u8>) -> (r: DdsResult<Vec<SendItem>>)
        requires
            old(self).wf(),
        ensures
            final(self).wf(),
            final(self).spec_actor() == old(self).spec_actor(),
            r is Err ==> r == Err::<Vec<SendItem>, DdsError>(DdsError::OutOfResources) && final(self).spec_spdp()
                == old(self).spec_spdp(),
            r is Ok <==> old(self).spec_spdp().last_sn() < i64::MAX - 1 && crate::writer::num_fragments(
                data@.len() as int,
                old(self).spec_spdp().max_size(),
            ) <= u32::MAX,
            r is Ok ==> ({
                let w = final(self).spec_spdp();
                let o = old(self).spec_spdp();
                &&& w.changes().drop_last() == o.changes()
                &&& w.changes().len() == o.changes().len() + 1
                &&& w.changes().last().data_value@ == data@
                &&& w.changes().last().sequence_number == o.last_sn() + 1
                &&& w.changes().last().instance_handle@ == old(self).spec_actor().spec_guid().octets()
                &&& w.changes().last().kind == crate::types::ChangeKind::Alive
                &&& w.last_sn() == o.last_sn() + 1
                &&& r->Ok_0@ == crate::stateless::output_with_unsent(
                    o.locators(),
                    (o.last_sn() + 1) as i64,
                    w.change_summaries(),
                    o.max_size(),
                )
                &&& w.locators().len() == o.locators().len()
                &&& forall|i: int|
                    0 <= i < w.locators().len() ==> (#[trigger] w.locators()[i]).unsent_changes@.len() == 0
                        && w.locators()[i].locator == o.locators()[i].locator
            }),
    {
        if self.spdp.last_sequence_number() >= i64::MAX - 1 {
            return Err(DdsError::OutOfResources);
        }
        let max = self.spdp.data_max_size_serialized();
        if crate::writer::fragment_count(data.len(), max) > 4294967295 {
            return Err(DdsError::OutOfResources);
        }
        let handle = self.actor.get_instance_handle();
        self.spdp.write(data, handle);
        let ghost written = self.spdp;
        let items = self.spdp.send_message();
        proof {
            crate::stateless::lemma_output_with_unsent(
                old(self).spdp.locators(),
                written.locators(),
                (old(self).spdp.last_sn() + 1) as i64,
                written.change_summaries(),
                written.max_size(),
            );
        }
        Ok(items)
    }

    /// Creates a publisher (also on a disabled participant).
    pub fn create_publisher(&mut self, qos: QosKind<PublisherQos>, mask: Vec<StatusKind>) -> (r: DdsResult<InstanceHandle>)
        ensures
            final(self).wf() == old(self).wf(),
            crate::participant::publisher_created(old(self).spec_actor(), final(self).spec_actor(), qos, mask@, r),
            final(self).spec_sedp() == old(self).spec_sedp(),
            final(self).spec_spdp() == old(self).spec_spdp(),
    {
        self.actor.create_user_defined_publisher(qos, mask)
    }

    /// Deletes a publisher with no writers; others are `PreconditionNotMet`.
    pub fn delete_publisher(&mut self, a_publisher: InstanceHandle) -> (r: DdsResult<()>)
        ensures
            final(self).wf() == old(self).wf(),
            crate::participant::publisher_deleted(old(self).spec_actor(), final(self).spec_actor(), a_publisher, r),
    {
        self.actor.delete_user_defined_publisher(a_publisher)
    }

    /// Creates a subscriber (also on a disabled participant).
    pub fn create_subscriber(&mut self, qos: QosKind<SubscriberQos>) -> (r: DdsResult<InstanceHandle>)
        ensures
            final(self).wf() == old(self).wf(),
            crate::participant::subscriber_created(old(self).spec_actor(), final(self).spec_actor(), qos, r),
            final(self).spec_sedp() == old(self).spec_sedp(),
            final(self).spec_spdp() == old(self).spec_spdp(),
    {
        self.actor.create_user_defined_subscriber(qos)
    }

    /// Deletes a subscriber with no readers; others are `PreconditionNotMet`.
    pub fn delete_subscriber(&mut self, a_subscriber: InstanceHandle) -> (r: DdsResult<()>)
        ensures
            final(self).wf() == old(self).wf(),
            crate::participant::subscriber_deleted(old(self).spec_actor(), final(self).spec_actor(), a_subscriber, r),
    {
        self.actor.delete_user_defined_subscriber(a_subscriber)
    }

    /// Creates a topic; a taken name is `PreconditionNotMet`.
    pub fn create_topic(&mut self, topic_name: String, topic_type: String, qos: QosKind<TopicQos>) -> (r:
        DdsResult<InstanceHandle>)
        ensures
            final(self).wf() == old(self).wf(),
            crate::participant::topic_created(old(self).spec_actor(), final(self).spec_actor(), topic_name, topic_type, qos, r),
    {
        self.actor.create_user_defined_topic(topic_name, topic_type, qos)
    }

    /// Deletes a topic that no writer or reader uses.
    pub fn delete_topic(&mut self, topic_name: String) -> (r: DdsResult<()>)
        ensures
            final(self).wf() == old(self).wf(),
            crate::participant::topic_deleted(old(self).spec_actor(), final(self).spec_actor(), topic_name, r),
    {
        self.actor.delete_user_defined_topic(topic_name)
    }

    /// A local topic, or one made from discovery; `None` when neither exists. Needs an
    /// enabled participant.
    pub fn find_topic(&mut self, topic_name: String) -> (r: DdsResult<Option<InstanceHandle>>)
        ensures
            final(self).wf() == old(self).wf(),
            !old(self).spec_actor().spec_enabled() ==> r == Err::<Option<InstanceHandle>, DdsError>(DdsError::NotEnabled)
                && final(self).spec_actor() == old(self).spec_actor(),
            old(self).spec_actor().spec_enabled() ==> crate::participant::topic_found(
                old(self).spec_actor(),
                final(self).spec_actor(),
                topic_name,
                r,
            ),
    {
        if !self.actor.is_enabled() {
            return Err(DdsError::NotEnabled);
        }
        self.actor.find_topic(topic_name)
    }

    /// The local topic named `topic_name`, if any.
    pub fn lookup_topicdescription(&self, topic_name: &String) -> (r: Option<InstanceHandle>)
        ensures
            match r {
                Some(h) => exists|i: int|
                    0 <= i < self.spec_actor().topics().len() && (#[trigger] self.spec_actor().topics()[i]).name@
                        == topic_name@ && self.spec_actor().topics()[i].handle == h,
                None => !topic_named(self.spec_actor().topics(), topic_name@),
            },
    {
        let res = self.actor.lookup_topicdescription(topic_name);
        match res {
            Some((h, t)) => {
                proof {
                    let i = choose|i: int|
                        0 <= i < self.actor.topics().len() && (#[trigger] self.actor.topics()[i]).name@ == topic_name@
                            && self.actor.topics()[i].handle == h && self.actor.topics()[i].topic_type@ == t@;
                    assert(self.spec_actor().topics()[i].handle == h);
                }
                Some(h)
            },
            None => None,
        }
    }

    pub fn get_builtin_subscriber(&self) -> (r: InstanceHandle)
        ensures
            r@ == self.spec_actor().builtin_guids().1.octets(),
    {
        self.actor.get_built_in_subscriber()
    }

    pub fn ignore_participant(&mut self, handle: InstanceHandle) -> (r: DdsResult<()>)
        ensures
            final(self).wf() == old(self).wf(),
            r is Ok <==> old(self).spec_actor().spec_enabled(),
            r is Err ==> r == Err::<(), DdsError>(DdsError::NotEnabled),
            r is Ok ==> crate::participant::has_handle(final(self).spec_actor().ignored().0, handle@),
            r is Err ==> *final(self) == *old(self),
            forall|h: Seq<u8>|
                crate::participant::has_handle(old(self).spec_actor().ignored().0, h)
                    ==> crate::participant::has_handle(final(self).spec_actor().ignored().0, h),
    {
        self.actor.ignore_participant(handle)
    }

    pub fn ignore_topic(&mut self, handle: InstanceHandle) -> (r: DdsResult<()>)
        ensures
            r == Err::<(), DdsError>(DdsError::Unsupported),
    {
        self.actor.ignore_topic(handle)
    }

    pub fn ignore_publication(&mut self, handle: InstanceHandle) -> (r: DdsResult<()>)
        ensures
            final(self).wf() == old(self).wf(),
            r is Ok <==> old(self).spec_actor().spec_enabled(),
            r is Err ==> r == Err::<(), DdsError>(DdsError::NotEnabled),
            r is Ok ==> crate::participant::has_handle(final(self).spec_actor().ignored().1, handle@),
            r is Err ==> *final(self) == *old(self),
            forall|h: Seq<u8>|
                crate::participant::has_handle(old(self).spec_actor().ignored().1, h)
                    ==> crate::participant::has_handle(final(self).spec_actor().ignored().1, h),
    {
        self.actor.ignore_publication(handle)
    }

    pub fn ignore_subscription(&mut self, handle: InstanceHandle) -> (r: DdsResult<()>)
        ensures
            final(self).wf() == old(self).wf(),
            r is Ok <==> old(self).spec_actor().spec_enabled(),
            r is Err ==> r == Err::<(), DdsError>(DdsError::NotEnabled),
            r is Ok ==> crate::participant::has_handle(final(self).spec_actor().ignored().2, handle@),
            r is Err ==> *final(self) == *old(self),
            forall|h: Seq<u8>|
                crate::participant::has_handle(old(self).spec_actor().ignored().2, h)
                    ==> crate::participant::has_handle(final(self).spec_actor().ignored().2, h),
    {
        self.actor.ignore_subscription(handle)
    }

    pub fn get_domain_id(&self) -> (r: DomainId)
        ensures
            r == self.spec_actor().spec_domain_id(),
    {
        self.actor.get_domain_id()
    }

    /// Deletes every publisher, subscriber and user-defined topic.
    pub fn delete_contained_entities(&mut self)
        ensures
            final(self).wf() == old(self).wf(),
            no_user_entities(final(self).spec_actor()),
    {
        self.actor.delete_contained_entities()
    }

    pub fn assert_liveliness(&mut self) -> (r: DdsResult<()>)
        ensures
            final(self).wf() == old(self).wf(),
            r is Ok <==> old(self).spec_actor().spec_enabled(),
            r is Err ==> r == Err::<(), DdsError>(DdsError::NotEnabled),
            r is Ok ==> final(self).spec_actor().liveliness_count() == crate::writer::next_count(
                old(self).spec_actor().liveliness_count(),
            ),
    {
        self.actor.assert_liveliness()
    }

    pub fn set_default_publisher_qos(&mut self, qos: QosKind<PublisherQos>)
        ensures
            final(self).wf() == old(self).wf(),
            match qos {
                QosKind::Default => final(self).spec_actor().defaults().0.is_default(),
                QosKind::Specific(q) => final(self).spec_actor().defaults().0.same(&q),
            },
    {
        self.actor.set_default_publisher_qos(qos)
    }

    pub fn get_default_publisher_qos(&self) -> (r: PublisherQos)
        ensures
            r.same(&self.spec_actor().defaults().0),
    {
        self.actor.get_default_publisher_qos()
    }

    pub fn set_default_subscriber_qos(&mut self, qos: QosKind<SubscriberQos>)
        ensures
            final(self).wf() == old(self).wf(),
            match qos {
                QosKind::Default => final(self).spec_actor().defaults().1.is_default(),
                QosKind::Specific(q) => final(self).spec_actor().defaults().1.same(&q),
            },
    {
        self.actor.set_default_subscriber_qos(qos)
    }

    pub fn get_default_subscriber_qos(&self) -> (r: SubscriberQos)
        ensures
            r.same(&self.spec_actor().defaults().1),
    {
        self.actor.get_default_subscriber_qos()
    }

    /// Sets the default topic QoS; an inconsistent one is `InconsistentPolicy`.
    pub fn set_default_topic_qos(&mut self, qos: QosKind<TopicQos>) -> (r: DdsResult<()>)
        ensures
            final(self).wf() == old(self).wf(),
            crate::participant::default_topic_qos_set(old(self).spec_actor(), final(self).spec_actor(), qos, r),
    {
        self.actor.set_default_topic_qos(qos)
    }

    pub fn get_default_topic_qos(&self) -> (r: TopicQos)
        ensures
            r == self.spec_actor().defaults().2,
    {
        self.actor.get_default_topic_qos()
    }

    /// Handles of the discovered participants; needs an enabled participant.
    pub fn get_discovered_participants(&self) -> (r: Vec<InstanceHandle>)
        ensures
            r@.len() == self.spec_actor().discovered_participants().len(),
            forall|i: int| 0 <= i < r@.len() ==> #[trigger] r@[i] == self.spec_actor().discovered_participants()[i].dds_participant_data.key,
    {
        self.actor.get_discovered_participants()
    }

    /// What discovery learnt of a participant; `PreconditionNotMet` if it is unknown.
    pub fn get_discovered_participant_data(&self, participant_handle: &InstanceHandle) -> (r: DdsResult<
        &SpdpDiscoveredParticipantData,
    >)
        ensures
            match r {
                Ok(d) => exists|i: int|
                    0 <= i < self.spec_actor().discovered_participants().len() && #[trigger] self.spec_actor().discovered_participants()[i]
                        == *d && d.dds_participant_data.key@ == participant_handle@,
                Err(e) => e == DdsError::PreconditionNotMet && forall|i: int|
                    0 <= i < self.spec_actor().discovered_participants().len() ==> (#[trigger] self.spec_actor().discovered_participants()[i]).dds_participant_data.key@
                        != participant_handle@,
            },
    {
        self.actor.get_discovered_participant_data(participant_handle)
    }

    pub fn get_discovered_topics(&self) -> (r: Vec<InstanceHandle>)
        ensures
            r@.len() == self.spec_actor().discovered_topics().len(),
            forall|i: int| 0 <= i < r@.len() ==> #[trigger] r@[i] == self.spec_actor().discovered_topics()[i].key,
    {
        self.actor.get_discovered_topics()
    }

    pub fn get_discovered_topic_data(&self, topic_handle: &InstanceHandle) -> (r: DdsResult<&TopicBuiltinTopicData>)
        ensures
            match r {
                Ok(d) => exists|i: int|
                    0 <= i < self.spec_actor().discovered_topics().len() && #[trigger] self.spec_actor().discovered_topics()[i]
                        == *d && d.key@ == topic_handle@,
                Err(e) => e == DdsError::PreconditionNotMet && forall|i: int|
                    0 <= i < self.spec_actor().discovered_topics().len() ==> (#[trigger] self.spec_actor().discovered_topics()[i]).key@
                        != topic_handle@,
            },
    {
        self.actor.get_discovered_topic_data(topic_handle)
    }

    pub fn contains_entity(&self, a_handle: &InstanceHandle) -> (r: bool)
        ensures
            r == (crate::participant::publisher_index(self.spec_actor().publishers(), a_handle@).is_some()
                || crate::participant::subscriber_index(self.spec_actor().subscribers(), a_handle@).is_some()
                || (exists|i: int|
                0 <= i < self.spec_actor().topics().len() && (#[trigger] self.spec_actor().topics()[i]).handle@
                    == a_handle@) || (exists|i: int, k: int|
                0 <= i < self.spec_actor().publishers().len() && 0 <= k < self.spec_actor().publishers()[i].writers().len()
                    && (#[trigger] self.spec_actor().publishers()[i].writers()[k]).handle@ == a_handle@)
                || (exists|i: int, k: int|
                0 <= i < self.spec_actor().subscribers().len() && 0 <= k < self.spec_actor().subscribers()[i].readers().len()
                    && (#[trigger] self.spec_actor().subscribers()[i].readers()[k]).handle@ == a_handle@)),
    {
        self.actor.contains_entity(a_handle)
    }

    pub fn get_current_time(&self) -> (r: DdsResult<Time>)
        ensures
            !self.spec_actor().spec_enabled() ==> r == Err::<Time, DdsError>(DdsError::NotEnabled),
            self.spec_actor().spec_enabled() ==> (r is Ok && r->Ok_0.nanosec < 1_000_000_000),
    {
        self.actor.get_current_time()
    }

    pub fn set_qos(&mut self, qos: DomainParticipantQos)
        ensures
            final(self).wf() == old(self).wf(),
            final(self).spec_actor().spec_qos() == qos,
    {
        self.actor.set_qos(qos)
    }

    pub fn get_qos(&self) -> (r: &DomainParticipantQos)
        ensures
            *r == self.spec_actor().spec_qos(),
    {
        self.actor.get_qos()
    }

    /// Sets which statuses the listener takes.
    pub fn set_listener(&mut self, mask: Vec<StatusKind>)
        ensures
            final(self).wf() == old(self).wf(),
            final(self).spec_actor().mask() == mask@,
    {
        self.actor.set_listener(mask)
    }

    /// The statuses the listener takes.
    pub fn get_listener(&self) -> (r: Vec<StatusKind>)
        ensures
            r@ == self.spec_actor().mask(),
    {
        self.actor.get_status_kind()
    }

    pub fn get_statuscondition(&self) -> (r: StatusCondition)
        ensures
            r.enabled_statuses@ == self.spec_actor().mask(),
    {
        self.actor.get_statuscondition()
    }

    /// A participant has no communication status of its own.
    pub fn get_status_changes(&self) -> (r: Vec<StatusKind>)
        ensures
            r@.len() == 0,
    {
        Vec::new()
    }

    pub fn enable(&mut self)
        ensures
            final(self).wf() == old(self).wf(),
            final(self).spec_actor().spec_enabled(),
            final(self).spec_actor().builtin_enabled(),
            final(self).spec_actor().spec_guid() == old(self).spec_actor().spec_guid(),
            final(self).spec_actor().spec_domain_id() == old(self).spec_actor().spec_domain_id(),
            final(self).spec_actor().publishers() == old(self).spec_actor().publishers(),
            final(self).spec_actor().subscribers() == old(self).spec_actor().subscribers(),
            final(self).spec_actor().topics() == old(self).spec_actor().topics(),
            final(self).spec_actor().spec_qos() == old(self).spec_actor().spec_qos(),
            old(self).spec_actor().spec_enabled() && old(self).spec_actor().builtin_enabled() ==> *final(self)
                == *old(self),
    {
        self.actor.enable()
    }

    pub fn get_instance_handle(&self) -> (r: InstanceHandle)
        ensures
            r@ == self.spec_actor().spec_guid().octets(),
    {
        self.actor.get_instance_handle()
    }

    /// Takes in SPDP data; an accepted participant gets its SEDP endpoints matched.
    pub fn add_discovered_participant(&mut self, data: SpdpDiscoveredParticipantData) -> (r: bool)
        requires
            old(self).wf(),
        ensures
            final(self).wf(),
            r == spdp_accepts(old(self).spec_actor(), &data),
            r ==> final(self).spec_actor().discovered_participants() == old(self).spec_actor().discovered_participants().push(data),
            !r ==> final(self).spec_actor().discovered_participants() == old(self).spec_actor().discovered_participants(),
            !r ==> final(self).spec_sedp() == old(self).spec_sedp(),
            r ==> sedp_matched(final(self).spec_sedp(), &data),
    {
        if !self.actor.accepts(&data) {
            return false;
        }
        self.sedp.add_discovered_participant_endpoints(&data);
        self.actor.add_discovered_participant(data)
    }
}

/// The SEDP endpoints are matched with every built-in endpoint that `data` announces.
pub open spec fn sedp_matched(sedp: &SedpEndpoints, data: &SpdpDiscoveredParticipantData) -> bool {
    let e = data.available_builtin_endpoints;
    let p = data.guid_prefix;
    &&& has_endpoint(e, BUILTIN_ENDPOINT_PUBLICATIONS_DETECTOR) ==> writer_knows(&sedp.publications_announcer, sedp_guid(p, 3, 0xc7))
    &&& has_endpoint(e, BUILTIN_ENDPOINT_PUBLICATIONS_ANNOUNCER) ==> reader_knows(&sedp.publications_detector, sedp_guid(p, 3, 0xc2))
    &&& has_endpoint(e, BUILTIN_ENDPOINT_SUBSCRIPTIONS_DETECTOR) ==> writer_knows(&sedp.subscriptions_announcer, sedp_guid(p, 4, 0xc7))
    &&& has_endpoint(e, BUILTIN_ENDPOINT_SUBSCRIPTIONS_ANNOUNCER) ==> reader_knows(&sedp.subscriptions_detector, sedp_guid(p, 4, 0xc2))
    &&& has_endpoint(e, BUILTIN_ENDPOINT_TOPICS_DETECTOR) ==> writer_knows(&sedp.topics_announcer, sedp_guid(p, 2, 0xc7))
    &&& has_endpoint(e, BUILTIN_ENDPOINT_TOPICS_ANNOUNCER) ==> reader_knows(&sedp.topics_detector, sedp_guid(p, 2, 0xc2))
}

/// Options of the participant factory.
#[derive(Clone, Debug, PartialEq, Eq)]
pub struct DustDdsConfiguration {
    pub domain_tag: String,
    pub interface_name: Option<String>,
    pub fragment_size: usize,
    pub udp_receive_buffer_size: Option<usize>,
    /// Milliseconds between two SPDP announcements.
    pub participant_announcement_interval: u64,
}

impl DustDdsConfiguration {
    /// Empty tag, any interface, fragments of 1344 bytes, announcements every 5 s.
    pub fn default_configuration() -> (r: Self)
        ensures
            r.domain_tag@.len() == 0,
            r.interface_name.is_none(),
            r.fragment_size == 1344,
            r.udp_receive_buffer_size.is_none(),
            r.participant_announcement_interval == 5000,
    {
        DustDdsConfiguration {
            domain_tag: String::new(),
            interface_name: None,
            fragment_size: 1344,
            udp_receive_buffer_size: None,
            participant_announcement_interval: 5000,
        }
    }
}

/// The factory of participants: the ones it made, by handle and domain.
pub struct DomainParticipantFactoryActor {
    domain_participant_list: Vec<(InstanceHandle, DomainId)>,
    qos: DomainParticipantFactoryQos,
    default_participant_qos: DomainParticipantQos,
    configuration: DustDdsConfiguration,
    participant_counter: u32,
}

impl DomainParticipantFactoryActor {
    pub closed spec fn participants(&self) -> Seq<(InstanceHandle, DomainId)> {
        self.domain_participant_list@
    }

    pub closed spec fn spec_qos(&self) -> DomainParticipantFactoryQos {
        self.qos
    }

    pub closed spec fn spec_default_participant_qos(&self) -> DomainParticipantQos {
        self.default_participant_qos
    }

    pub closed spec fn spec_configuration(&self) -> DustDdsConfiguration {
        self.configuration
    }

    pub closed spec fn counter(&self) -> u32 {
        self.participant_counter
    }

    /// No two participants share a handle.
    pub open spec fn wf(&self) -> bool {
        unique_handles(self.participants())
    }

    pub fn new() -> (r: Self)
        ensures
            r.wf(),
            r.participants().len() == 0,
            r.spec_qos().autoenable_created_entities,
            r.counter() == 0,
            r.spec_configuration().fragment_size == 1344,
    {
        DomainParticipantFactoryActor {
            domain_participant_list: Vec::new(),
            qos: DomainParticipantFactoryQos { autoenable_created_entities: true },
            default_participant_qos: DomainParticipantQos::default_qos(),
            configuration: DustDdsConfiguration::default_configuration(),
            participant_counter: 0,
        }
    }

    /// A new instance id for each participant, wrapping around.
    pub fn get_unique_participant_id(&mut self) -> (r: u32)
        ensures
            r == old(self).counter(),
            final(self).counter() == (if old(self).counter() == u32::MAX {
                0
            } else {
                old(self).counter() + 1
            }),
            final(self).participants() == old(self).participants(),
            final(self).spec_qos() == old(self).spec_qos(),
            final(self).spec_configuration() == old(self).spec_configuration(),
            final(self).spec_default_participant_qos() == old(self).spec_default_participant_qos(),
    {
        let c = self.participant_counter;
        self.participant_counter = if c == u32::MAX {
            0
        } else {
            c + 1
        };
        c
    }

    /// Creates a participant on `domain_id` for the host `host_id` and process `app_id`;
    /// a domain whose ports do not fit is `BadParameter`.
    pub fn create_participant(
        &mut self,
        domain_id: DomainId,
        qos: QosKind<DomainParticipantQos>,
        host_id: [u8; 4],
        app_id: [u8; 4],
        status_kind: Vec<StatusKind>,
    ) -> (r: DdsResult<DomainParticipant>)
        requires
            old(self).wf(),
        ensures
            final(self).wf(),
            !(0 <= domain_id <= 232) ==> r == Err::<DomainParticipant, DdsError>(DdsError::BadParameter)
                && final(self).participants() == old(self).participants(),
            (0 <= domain_id <= 232) ==> (r is Err <==> exists|i: int|
                0 <= i < old(self).participants().len() && (#[trigger] old(self).participants()[i]).0@
                    == created_participant_handle(host_id@, app_id@, old(self).counter())),
            (0 <= domain_id <= 232) && r is Err ==> r == Err::<DomainParticipant, DdsError>(DdsError::PreconditionNotMet)
                && final(self).participants() == old(self).participants(),
            (0 <= domain_id <= 232) && r is Ok ==> ({
                let p = r->Ok_0;
                &&& p.wf()
                &&& p.spec_actor().spec_qos().same(
                    &match qos {
                        QosKind::Default => old(self).spec_default_participant_qos(),
                        QosKind::Specific(q) => q,
                    },
                )
                &&& p.spec_actor().spec_guid().octets() == created_participant_handle(host_id@, app_id@, old(self).counter())
                &&& p.spec_actor().spec_domain_id() == domain_id
                &&& p.spec_actor().spec_guid().prefix@ == host_id@ + app_id@ + u32_ne(old(self).counter())
                &&& p.spec_actor().spec_enabled() == old(self).spec_qos().autoenable_created_entities
                &&& final(self).participants().len() == old(self).participants().len() + 1
                &&& final(self).participants().last().1 == domain_id
                &&& final(self).participants().last().0@ == p.spec_actor().spec_guid().octets()
            }),
    {
        if !(0 <= domain_id && domain_id <= 232) {
            return Err(DdsError::BadParameter);
        }
        let domain_participant_qos = match qos {
            QosKind::Default => self.default_participant_qos.duplicate(),
            QosKind::Specific(q) => q,
        };
        let instance_id = u32_to_ne(self.get_unique_participant_id());
        let guid_prefix = guid_prefix_from_ids(host_id, app_id, instance_id);
        let actor = DomainParticipantActor::new(
            guid_prefix,
            domain_id,
            self.configuration.domain_tag.clone(),
            domain_participant_qos,
            self.configuration.fragment_size,
            status_kind,
        );
        let sedp = SedpEndpoints::new(guid_prefix);
        let mut spdp = RtpsStatelessWriter::new(
            crate::types::Guid::new(guid_prefix, crate::types::entityid_spdp_builtin_participant_announcer()),
            usize::MAX,
        );
        spdp.reader_locator_add(
            crate::types::Locator {
                kind: crate::types::LOCATOR_KIND_UDP_V4,
                port: port_builtin_multicast(domain_id) as u32,
                address: [0, 0, 0, 0, 0, 0, 0, 0, 0, 0, 0, 0, 239, 255, 0, 1],
            },
            false,
        );
        let handle = actor.get_instance_handle();
        assert(handle@ =~= created_participant_handle(host_id@, app_id@, old(self).counter()));
        let mut k: usize = 0;
        while k < self.domain_participant_list.len()
            invariant
                0 <= domain_id <= 232,
                unique_handles(old(self).participants()),
                handle@ == created_participant_handle(host_id@, app_id@, old(self).counter()),
                k <= self.domain_participant_list@.len(),
                self.domain_participant_list@ == old(self).domain_participant_list@,
                forall|m: int| 0 <= m < k ==> (#[trigger] self.domain_participant_list@[m]).0@ != handle@,
            decreases self.domain_participant_list@.len() - k,
        {
            if self.domain_participant_list[k].0.equals(&handle) {
                assert(self.participants() == old(self).participants());
                return Err(DdsError::PreconditionNotMet);
            }
            k += 1;
        }
        let ghost l0 = self.domain_participant_list@;
        self.domain_participant_list.push((handle, domain_id));
        proof {
            let v = self.domain_participant_list@;
            assert forall|a: int, b: int| 0 <= a < b < v.len() implies (#[trigger] v[a]).0@ != (#[trigger] v[b]).0@ by {
                assert(v[a] == l0[a]);
                if b < l0.len() {
                    assert(v[b] == l0[b]);
                }
            }
        }
        let mut participant = DomainParticipant::new(actor, sedp, spdp);
        if self.qos.autoenable_created_entities {
            participant.enable();
        }
        Ok(participant)
    }

    /// Forgets a participant that holds no entities; `is_empty` tells whether it does.
    pub fn delete_participant(&mut self, handle: &InstanceHandle, is_empty: bool) -> (r: DdsResult<()>)
        requires
            old(self).wf(),
        ensures
            final(self).wf(),
            !is_empty ==> r == Err::<(), DdsError>(DdsError::PreconditionNotMet) && final(self).participants()
                == old(self).participants(),
            is_empty && !(exists|i: int| 0 <= i < old(self).participants().len() && (#[trigger] old(self).participants()[i]).0@
                == handle@) ==> r == Err::<(), DdsError>(DdsError::AlreadyDeleted),
            is_empty && (exists|i: int| 0 <= i < old(self).participants().len() && (#[trigger] old(self).participants()[i]).0@
                == handle@) ==> r is Ok && exists|i: int|
                0 <= i < old(self).participants().len() && (#[trigger] old(self).participants()[i]).0@ == handle@
                    && final(self).participants() == old(self).participants().remove(i),
    {
        if !is_empty {
            return Err(DdsError::PreconditionNotMet);
        }
        let mut i: usize = 0;
        while i < self.domain_participant_list.len()
            invariant
                is_empty,
                unique_handles(old(self).participants()),
                i <= self.domain_participant_list@.len(),
                self.domain_participant_list@ == old(self).domain_participant_list@,
                forall|k: int| 0 <= k < i ==> (#[trigger] self.domain_participant_list@[k]).0@ != handle@,
            decreases self.domain_participant_list@.len() - i,
        {
            if self.domain_participant_list[i].0.equals(handle) {
                assert(old(self).participants()[i as int].0@ == handle@);
                self.domain_participant_list.remove(i);
                proof {
                    let o = old(self).domain_participant_list@;
                    let v = self.domain_participant_list@;
                    assert forall|a: int, b: int| 0 <= a < b < v.len() implies (#[trigger] v[a]).0@ != (#[trigger] v[b]).0@ by {
                        let oa = if a < i { a } else { a + 1 };
                        let ob = if b < i { b } else { b + 1 };
                        assert(v[a] == o[oa] && v[b] == o[ob]);
                    }
                }
                return Ok(());
            }
            i += 1;
        }
        Err(DdsError::AlreadyDeleted)
    }

    /// A participant of domain `domain_id`, the first made.
    pub fn lookup_participant(&self, domain_id: DomainId) -> (r: Option<InstanceHandle>)
        ensures
            match r {
                Some(h) => exists|i: int|
                    0 <= i < self.participants().len() && (#[trigger] self.participants()[i]) == (h, domain_id),
                None => forall|i: int| 0 <= i < self.participants().len() ==> (#[trigger] self.participants()[i]).1 != domain_id,
            },
    {
        let mut i: usize = 0;
        while i < self.domain_participant_list.len()
            invariant
                i <= self.domain_participant_list@.len(),
                forall|k: int| 0 <= k < i ==> (#[trigger] self.domain_participant_list@[k]).1 != domain_id,
            decreases self.domain_participant_list@.len() - i,
        {
            if self.domain_participant_list[i].1 == domain_id {
                assert(self.participants()[i as int] == (self.domain_participant_list@[i as int].0, domain_id));
                return Some(self.domain_participant_list[i].0);
            }
            i += 1;
        }
        None
    }

    pub fn set_default_participant_qos(&mut self, qos: QosKind<DomainParticipantQos>)
        ensures
            match qos {
                QosKind::Default => final(self).spec_default_participant_qos().user_data@.len() == 0
                    && final(self).spec_default_participant_qos().autoenable_created_entities,
                QosKind::Specific(q) => final(self).spec_default_participant_qos() == q,
            },
            final(self).participants() == old(self).participants(),
    {
        self.default_participant_qos = match qos {
            QosKind::Default => DomainParticipantQos::default_qos(),
            QosKind::Specific(q) => q,
        };
    }

    pub fn get_default_participant_qos(&self) -> (r: &DomainParticipantQos)
        ensures
            *r == self.spec_default_participant_qos(),
    {
        &self.default_participant_qos
    }

    pub fn set_qos(&mut self, qos: QosKind<DomainParticipantFactoryQos>)
        ensures
            final(self).spec_qos() == (match qos {
                QosKind::Default => DomainParticipantFactoryQos { autoenable_created_entities: true },
                QosKind::Specific(q) => q,
            }),
            final(self).participants() == old(self).participants(),
    {
        self.qos = match qos {
            QosKind::Default => DomainParticipantFactoryQos { autoenable_created_entities: true },
            QosKind::Specific(q) => q,
        };
    }

    pub fn get_qos(&self) -> (r: DomainParticipantFactoryQos)
        ensures
            r == self.spec_qos(),
    {
        self.qos
    }

    pub fn set_configuration(&mut self, configuration: DustDdsConfiguration)
        ensures
            final(self).spec_configuration() == configuration,
            final(self).participants() == old(self).participants(),
    {
        self.configuration = configuration;
    }

    pub fn get_configuration(&self) -> (r: &DustDdsConfiguration)
        ensures
            *r == self.spec_configuration(),
    {
        &self.configuration
    }
}

/// No two entries share a handle.
/// The instance handle of the participant that host `host_id` and process `app_id` create
/// as their `counter`-th.
pub open spec fn created_participant_handle(host_id: Seq<u8>, app_id: Seq<u8>, counter: u32) -> Seq<u8> {
    host_id + app_id + u32_ne(counter) + seq![0u8, 0u8, 1u8, 0xc1u8]
}

pub open spec fn unique_handles(ps: Seq<(InstanceHandle, DomainId)>) -> bool {
    forall|i: int, j: int| 0 <= i < j < ps.len() ==> (#[trigger] ps[i]).0@ != (#[trigger] ps[j]).0@
}

/// The four bytes of `v` in the order the instance id of a GUID prefix uses (little-endian).
pub open spec fn u32_ne(v: u32) -> Seq<u8> {
    crate::elements::u32_le(v)
}

fn u32_to_ne(v: u32) -> (r: [u8; 4])
    ensures
        r@ == u32_ne(v),
{
    let r: [u8; 4] = [(v % 256) as u8, ((v / 256) % 256) as u8, ((v / 65536) % 256) as u8, (v / 16777216) as u8];
    assert(r@ =~= u32_ne(v));
    r
}

/// The key-related facts of a user type.
#[derive(Clone, Debug, PartialEq, Eq)]
pub struct FooTypeSupport {
    pub has_key: bool,
    pub type_xml: String,
}

/// The MD5 digest of `data`.
pub uninterp spec fn md5_of(data: Seq<u8>) -> Seq<u8>;

/// Relies on `md5::compute` for the 16-byte MD5 digest of `data`.
#[verifier::external_body]
fn md5_digest(data: &[u8]) -> (r: [u8; 16])
    ensures
        r@ == md5_of(data@),
{
    md5::compute(data).0
}

/// The instance handle of a serialized key: the key padded with zeros when it has at most
/// 16 bytes, else its MD5 digest.
pub open spec fn instance_key_hash(key: Seq<u8>) -> Seq<u8> {
    if key.len() <= 16 {
        key_hash(key)
    } else {
        md5_of(key)
    }
}

/// The instance handle of a serialized key of at most 16 bytes: the key, padded with zeros.
pub open spec fn key_hash(key: Seq<u8>) -> Seq<u8> {
    key + Seq::new((16 - key.len()) as nat, |i: int| 0u8)
}

impl FooTypeSupport {
    pub fn new(has_key: bool, type_xml: String) -> (r: Self)
        ensures
            r.has_key == has_key,
            r.type_xml@ == type_xml@,
    {
        FooTypeSupport { has_key, type_xml }
    }

    /// The handle of the instance whose serialized key is `serialized_key`.
    pub fn instance_handle_from_serialized_key(&self, serialized_key: &[u8]) -> (r: DdsResult<InstanceHandle>)
        ensures
            r is Ok,
            r->Ok_0@ == instance_key_hash(serialized_key@),
    {
        if serialized_key.len() > 16 {
            return Ok(InstanceHandle::new(md5_digest(serialized_key)));
        }
        let mut value: [u8; 16] = [0, 0, 0, 0, 0, 0, 0, 0, 0, 0, 0, 0, 0, 0, 0, 0];
        let mut i: usize = 0;
        while i < serialized_key.len()
            invariant
                i <= serialized_key@.len(),
                serialized_key@.len() <= 16,
                forall|k: int| 0 <= k < 16 ==> #[trigger] value@[k] == (if k < i { serialized_key@[k] } else { 0u8 }),
            decreases serialized_key@.len() - i,
        {
            value[i] = serialized_key[i];
            i += 1;
        }
        assert(value@ =~= key_hash(serialized_key@));
        Ok(InstanceHandle::new(value))
    }
}

/// Samples with the same serialized key have the same instance handle.
pub proof fn lemma_same_key_same_handle(k1: Seq<u8>, k2: Seq<u8>)
    requires
        k1 == k2,
    ensures
        instance_key_hash(k1) == instance_key_hash(k2),
        k1.len() <= 16 ==> instance_key_hash(k1).len() == 16,
{
}

/// Distinct keys of at most 16 bytes and equal length have distinct handles.
pub proof fn lemma_distinct_keys_distinct_handles(k1: Seq<u8>, k2: Seq<u8>)
    requires
        k1 != k2,
        k1.len() == k2.len(),
        k1.len() <= 16,
    ensures
        instance_key_hash(k1) != instance_key_hash(k2),
{
    assert(!(k1 =~= k2));
    let i = choose|i: int| 0 <= i < k1.len() && k1[i] != k2[i];
    assert(key_hash(k1)[i] == k1[i]);
    assert(key_hash(k2)[i] == k2[i]);
}

/// A user's handle on one data writer.
#[derive(Clone, Debug, PartialEq, Eq)]
pub struct DataWriterAsync {
    writer_handle: InstanceHandle,
    publisher_handle: InstanceHandle,
    participant_handle: InstanceHandle,
    topic_handle: InstanceHandle,
}

impl DataWriterAsync {
    pub closed spec fn handles(&self) -> (InstanceHandle, InstanceHandle, InstanceHandle, InstanceHandle) {
        (self.writer_handle, self.publisher_handle, self.participant_handle, self.topic_handle)
    }

    pub fn new(
        writer_handle: InstanceHandle,
        publisher_handle: InstanceHandle,
        participant_handle: InstanceHandle,
        topic_handle: InstanceHandle,
    ) -> (r: Self)
        ensures
            r.handles() == (writer_handle, publisher_handle, participant_handle, topic_handle),
    {
        DataWriterAsync { writer_handle, publisher_handle, participant_handle, topic_handle }
    }

    /// The topic the writer writes.
    pub fn get_topic(&self) -> (r: InstanceHandle)
        ensures
            r == self.handles().3,
    {
        self.topic_handle
    }

    /// The publisher the writer belongs to.
    pub fn get_publisher(&self) -> (r: InstanceHandle)
        ensures
            r == self.handles().1,
    {
        self.publisher_handle
    }

    pub fn participant_address(&self) -> (r: InstanceHandle)
        ensures
            r == self.handles().2,
    {
        self.participant_handle
    }

    /// The writer's status condition, enabled for the statuses in `mask`.
    pub fn get_statuscondition(&self, mask: Vec<StatusKind>) -> (r: StatusCondition)
        ensures
            r.enabled_statuses@ == mask@,
    {
        StatusCondition { enabled_statuses: mask }
    }
}

} // verus!
