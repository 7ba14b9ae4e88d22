use dust_dds::discovery::SedpEndpoints;
use dust_dds::domain::{DataWriterAsync, DomainParticipant, DomainParticipantFactoryActor, FooTypeSupport};
use dust_dds::participant::{
    DomainParticipantActor, ParticipantBuiltinTopicData, SpdpDiscoveredParticipantData,
};
use dust_dds::partition::{is_partition_matched, partition_match_from};
use dust_dds::publisher::{
    AddMatchedReader, CreateDatawriter, DeleteDatawriter, DiscoveredReaderData, IsEmpty, LookupDatawriter,
    PublisherActor, RemoveMatchedReader, SetQos,
};
use dust_dds::qos::{
    get_incompatible_policy, sedp_data_reader_qos, sedp_data_writer_qos, DomainParticipantQos, EndpointQos, GroupQos,
    HistoryKind, PresentationAccessScope, QosKind, RELIABILITY_QOS_POLICY_ID,
};
use dust_dds::reader::InstanceStateKind;
use dust_dds::subscriber::SubscriberActor;
use dust_dds::types::{
    port_builtin_multicast, port_builtin_unicast, DdsError, DurabilityKind, EntityId, Guid, GuidPrefix,
    InstanceHandle, ReliabilityKind, StatusKind, USER_DEFINED_WRITER_GROUP,
};

fn s(x: &str) -> String {
    x.to_string()
}

fn participant() -> DomainParticipant {
    let prefix = GuidPrefix::new([5; 12]);
    let actor = DomainParticipantActor::new(prefix, 0, String::new(), DomainParticipantQos::default_qos(), 1344, vec![]);
    let spdp = dust_dds::stateless::RtpsStatelessWriter::new(Guid::new(prefix, EntityId::new([0, 1, 0], 0xc2)), usize::MAX);
    DomainParticipant::new(actor, SedpEndpoints::new(prefix), spdp)
}

fn publisher(partition: Vec<String>) -> PublisherActor {
    let mut qos = GroupQos::default_qos();
    qos.partition = partition;
    PublisherActor::new(qos, Guid::new(GuidPrefix::new([5; 12]), EntityId::new([0, 0, 0], USER_DEFINED_WRITER_GROUP)), vec![])
}

fn reader_data(reliability: ReliabilityKind, partition: Vec<String>) -> DiscoveredReaderData {
    let mut qos = EndpointQos::default_reader();
    qos.reliability = reliability;
    DiscoveredReaderData {
        reader_handle: InstanceHandle::new([9; 16]),
        topic_name: s("HelloWorld"),
        topic_type: s("HelloWorldType"),
        qos,
        partition,
    }
}

fn create_writer(p: &mut PublisherActor, reliability: ReliabilityKind) -> InstanceHandle {
    let mut qos = EndpointQos::default_writer();
    qos.reliability = reliability;
    p.create_datawriter(CreateDatawriter {
        topic_name: s("HelloWorld"),
        topic_type: s("HelloWorldType"),
        has_key: true,
        qos: QosKind::Specific(qos),
    })
    .unwrap()
}

#[test]
fn ports_of_the_default_mapping() {
    assert_eq!(port_builtin_multicast(0), 7400);
    assert_eq!(port_builtin_multicast(1), 7650);
    assert_eq!(port_builtin_unicast(0, 0), 7410);
    assert_eq!(port_builtin_unicast(1, 2), 7664);
}

#[test]
fn incompatible_reliability_is_reported() {
    let mut p = publisher(vec![]);
    let w = create_writer(&mut p, ReliabilityKind::BestEffort);
    p.add_matched_reader(&AddMatchedReader { discovered_reader_data: reader_data(ReliabilityKind::Reliable, vec![]) });
    let entries = p.get_data_writer_list(dust_dds::publisher::GetDataWriterList);
    assert_eq!(entries, vec![w]);
    let mut best = EndpointQos::default_writer();
    best.reliability = ReliabilityKind::BestEffort;
    let mut reliable = EndpointQos::default_reader();
    reliable.reliability = ReliabilityKind::Reliable;
    assert_eq!(get_incompatible_policy(&best, &reliable), Some(RELIABILITY_QOS_POLICY_ID));
    assert_eq!(get_incompatible_policy(&reliable, &best), None);
}

#[test]
fn partition_glob_matches_literal() {
    assert!(is_partition_matched(&vec![s("A*")], &vec![s("Alpha")]));
    assert!(is_partition_matched(&vec![s("Alpha")], &vec![s("A*")]));
    assert!(!is_partition_matched(&vec![s("A*")], &vec![s("B")]));
    assert!(is_partition_matched(&vec![], &vec![]));
    assert!(is_partition_matched(&vec![s("x"), s("B")], &vec![s("B")]));
}

#[test]
fn partition_decision_from_given_glob_results() {
    let local = vec![s("A*")];
    let remote = vec![s("Alpha")];
    assert!(partition_match_from(&local, &remote, &vec![vec![None]], &vec![vec![Some(true)]]));
    assert!(!partition_match_from(&local, &remote, &vec![vec![Some(false)]], &vec![vec![None]]));
}

#[test]
fn partition_match_then_unmatch() {
    let mut p = publisher(vec![s("A*")]);
    create_writer(&mut p, ReliabilityKind::Reliable);
    p.add_matched_reader(&AddMatchedReader { discovered_reader_data: reader_data(ReliabilityKind::Reliable, vec![s("Alpha")]) });
    p.remove_matched_reader(RemoveMatchedReader { discovered_reader_handle: InstanceHandle::new([9; 16]) });
    p.add_matched_reader(&AddMatchedReader { discovered_reader_data: reader_data(ReliabilityKind::Reliable, vec![s("B")]) });
    assert!(!p.is_empty(IsEmpty));
}

#[test]
fn publisher_writers_lifecycle() {
    let mut p = publisher(vec![]);
    assert!(p.is_empty(IsEmpty));
    let w = create_writer(&mut p, ReliabilityKind::Reliable);
    assert_eq!(p.lookup_datawriter(LookupDatawriter { topic_name: s("HelloWorld") }), Some(w));
    assert_eq!(p.lookup_datawriter(LookupDatawriter { topic_name: s("Other") }), None);
    assert_eq!(p.delete_datawriter(DeleteDatawriter { handle: w }), Ok(()));
    assert_eq!(p.delete_datawriter(DeleteDatawriter { handle: w }), Err(DdsError::PreconditionNotMet));
    let mut bad = EndpointQos::default_writer();
    bad.history = HistoryKind::KeepLast(5);
    bad.max_samples_per_instance = Some(2);
    let r = p.create_datawriter(CreateDatawriter {
        topic_name: s("HelloWorld"),
        topic_type: s("HelloWorldType"),
        has_key: true,
        qos: QosKind::Specific(bad),
    });
    assert_eq!(r, Err(DdsError::InconsistentPolicy));
}

#[test]
fn presentation_is_immutable_once_enabled() {
    let mut p = publisher(vec![]);
    p.enable(dust_dds::publisher::Enable);
    let mut qos = GroupQos::default_qos();
    qos.presentation.access_scope = PresentationAccessScope::Group;
    assert_eq!(p.set_qos(SetQos { qos: QosKind::Specific(qos) }), Err(DdsError::ImmutablePolicy));
}

#[test]
fn participant_entities_and_deletion_rules() {
    let mut dp = participant();
    let publisher = dp.create_publisher(QosKind::Default, vec![]).unwrap();
    let subscriber = dp.create_subscriber(QosKind::Default).unwrap();
    let topic = dp.create_topic(s("HelloWorld"), s("HelloWorldType"), QosKind::Default).unwrap();
    assert_eq!(
        dp.create_topic(s("HelloWorld"), s("HelloWorldType"), QosKind::Default),
        Err(DdsError::PreconditionNotMet)
    );
    assert!(dp.contains_entity(&publisher));
    assert!(dp.contains_entity(&subscriber));
    assert!(dp.contains_entity(&topic));
    assert_eq!(dp.lookup_topicdescription(&s("HelloWorld")), Some(topic));
    assert_eq!(dp.delete_topic(s("HelloWorld")), Ok(()));
    assert_eq!(dp.delete_topic(s("HelloWorld")), Err(DdsError::PreconditionNotMet));
    assert_eq!(dp.delete_publisher(publisher), Ok(()));
    assert_eq!(dp.delete_publisher(publisher), Err(DdsError::PreconditionNotMet));
    assert_eq!(dp.delete_subscriber(subscriber), Ok(()));
    dp.create_publisher(QosKind::Default, vec![]).unwrap();
    dp.delete_contained_entities();
    assert!(!dp.contains_entity(&publisher));
}

#[test]
fn disabled_participant_refuses_ignores() {
    let mut dp = participant();
    let h = InstanceHandle::new([1; 16]);
    assert_eq!(dp.ignore_participant(h), Err(DdsError::NotEnabled));
    assert_eq!(dp.assert_liveliness(), Err(DdsError::NotEnabled));
    assert!(dp.get_current_time().is_err());
    dp.enable();
    assert_eq!(dp.ignore_participant(h), Ok(()));
    assert_eq!(dp.ignore_publication(h), Ok(()));
    assert_eq!(dp.ignore_subscription(h), Ok(()));
    assert_eq!(dp.ignore_topic(h), Err(DdsError::Unsupported));
    assert_eq!(dp.assert_liveliness(), Ok(()));
    assert!(dp.get_current_time().is_ok());
}

#[test]
fn default_qos_and_listener() {
    let mut dp = participant();
    let mut inconsistent = EndpointQos::default_reader();
    inconsistent.deadline = Some(1);
    inconsistent.latency_budget = 5;
    assert_eq!(dp.set_default_topic_qos(QosKind::Specific(inconsistent)), Err(DdsError::InconsistentPolicy));
    assert_eq!(dp.set_default_topic_qos(QosKind::Specific(sedp_data_reader_qos())), Ok(()));
    assert_eq!(dp.get_default_topic_qos(), sedp_data_reader_qos());
    assert_eq!(sedp_data_writer_qos().durability, DurabilityKind::TransientLocal);
    dp.set_listener(vec![StatusKind::DataAvailable]);
    assert_eq!(dp.get_listener(), vec![StatusKind::DataAvailable]);
    assert!(dp.get_statuscondition().get_trigger_value(&vec![StatusKind::DataAvailable]));
    assert!(!dp.get_statuscondition().get_trigger_value(&vec![StatusKind::SampleLost]));
    assert_eq!(dp.get_domain_id(), 0);
}

fn participant_key(prefix: [u8; 12]) -> [u8; 16] {
    let mut key = [0u8; 16];
    key[..12].copy_from_slice(&prefix);
    key[12..].copy_from_slice(&[0, 0, 1, 0xc1]);
    key
}

fn spdp(prefix: [u8; 12], domain_id: Option<i32>) -> SpdpDiscoveredParticipantData {
    let key = participant_key(prefix);
    SpdpDiscoveredParticipantData {
        dds_participant_data: ParticipantBuiltinTopicData { key: InstanceHandle::new(key), user_data: vec![] },
        domain_id,
        domain_tag: String::new(),
        guid_prefix: GuidPrefix::new(prefix),
        available_builtin_endpoints: 0x3000003f,
        metatraffic_unicast_locator_list: vec![],
        metatraffic_multicast_locator_list: vec![],
        default_unicast_locator_list: vec![],
        default_multicast_locator_list: vec![],
        lease_duration_seconds: 100,
    }
}

#[test]
fn spdp_discovery_accepts_once_and_in_domain() {
    let mut dp = participant();
    dp.enable();
    assert!(dp.add_discovered_participant(spdp([7; 12], Some(0))));
    assert!(!dp.add_discovered_participant(spdp([7; 12], Some(0))));
    assert!(!dp.add_discovered_participant(spdp([8; 12], Some(3))));
    assert!(dp.add_discovered_participant(spdp([9; 12], None)));
    assert_eq!(dp.get_discovered_participants().len(), 2);
    assert!(dp.get_discovered_participant_data(&InstanceHandle::new(participant_key([7; 12]))).is_ok());
    assert_eq!(
        dp.get_discovered_participant_data(&InstanceHandle::new([1; 16])),
        Err(DdsError::PreconditionNotMet)
    );
}

#[test]
fn factory_creates_and_looks_up_participants() {
    let mut factory = DomainParticipantFactoryActor::new();
    let dp = factory.create_participant(3, QosKind::Default, [10, 0, 0, 1], [1, 2, 3, 4], vec![]).unwrap();
    assert_eq!(dp.get_domain_id(), 3);
    let handle = dp.get_instance_handle();
    assert_eq!(&handle.value[..8], &[10, 0, 0, 1, 1, 2, 3, 4]);
    assert_eq!(factory.lookup_participant(3), Some(handle));
    assert_eq!(factory.lookup_participant(4), None);
    assert!(factory.create_participant(300, QosKind::Default, [0; 4], [0; 4], vec![]).is_err());
    assert_eq!(factory.delete_participant(&handle, false), Err(DdsError::PreconditionNotMet));
    assert_eq!(factory.delete_participant(&handle, true), Ok(()));
    assert_eq!(factory.delete_participant(&handle, true), Err(DdsError::AlreadyDeleted));
    assert_eq!(factory.get_configuration().fragment_size, 1344);
}

#[test]
fn instance_handle_from_short_key() {
    let ts = FooTypeSupport::new(true, String::new());
    let h1 = ts.instance_handle_from_serialized_key(&[1, 0, 0, 0]).unwrap();
    let h2 = ts.instance_handle_from_serialized_key(&[1, 0, 0, 0]).unwrap();
    assert_eq!(h1, h2);
    assert_eq!(h1.value, [1, 0, 0, 0, 0, 0, 0, 0, 0, 0, 0, 0, 0, 0, 0, 0]);
    assert_ne!(h1, ts.instance_handle_from_serialized_key(&[2, 0, 0, 0]).unwrap());
}

#[test]
fn data_writer_handle_getters() {
    let w = DataWriterAsync::new(
        InstanceHandle::new([1; 16]),
        InstanceHandle::new([2; 16]),
        InstanceHandle::new([3; 16]),
        InstanceHandle::new([4; 16]),
    );
    assert_eq!(w.get_publisher(), InstanceHandle::new([2; 16]));
    assert_eq!(w.get_topic(), InstanceHandle::new([4; 16]));
    assert_eq!(w.participant_address(), InstanceHandle::new([3; 16]));
}

#[test]
fn subscriber_readers() {
    let mut sub = SubscriberActor::new(GroupQos::default_qos(), Guid::new(GuidPrefix::new([5; 12]), EntityId::new([1, 0, 0], 9)));
    let r = sub.create_datareader(s("HelloWorld"), s("HelloWorldType"), EndpointQos::default_reader()).unwrap();
    assert_eq!(sub.lookup_datareader(&s("HelloWorld")), Some(r));
    assert!(!sub.is_empty());
    assert_eq!(sub.delete_datareader(&r), Ok(()));
    assert!(sub.is_empty());
}

fn discovered_actor() -> DomainParticipantActor {
    let mut actor =
        DomainParticipantActor::new(GuidPrefix::new([5; 12]), 0, String::new(), DomainParticipantQos::default_qos(), 1344, vec![]);
    actor.enable();
    assert!(actor.add_discovered_participant(spdp([7; 12], Some(0))));
    actor
}

fn remote_reader(reliability: ReliabilityKind, partition: Vec<String>) -> AddMatchedReader {
    AddMatchedReader { discovered_reader_data: reader_data(reliability, partition) }
}

fn participant_writer(actor: &mut DomainParticipantActor, partition: Vec<String>, reliability: ReliabilityKind) -> InstanceHandle {
    let mut qos = GroupQos::default_qos();
    qos.partition = partition;
    let publisher = actor.create_user_defined_publisher(QosKind::Specific(qos), vec![]).unwrap();
    let mut wqos = EndpointQos::default_writer();
    wqos.reliability = reliability;
    actor
        .create_datawriter(
            &publisher,
            CreateDatawriter {
                topic_name: s("HelloWorld"),
                topic_type: s("HelloWorldType"),
                has_key: true,
                qos: QosKind::Specific(wqos),
            },
        )
        .unwrap()
}

#[test]
fn sedp_reader_matches_compatible_writer_in_partition() {
    let mut actor = discovered_actor();
    let w = participant_writer(&mut actor, vec![s("A*")], ReliabilityKind::Reliable);
    assert!(actor.add_matched_reader(&remote_reader(ReliabilityKind::Reliable, vec![s("Alpha")]), GuidPrefix::new([7; 12])));
    assert_eq!(actor.get_matched_subscriptions(&w), Some(vec![InstanceHandle::new([9; 16])]));
    actor.remove_matched_reader(&RemoveMatchedReader { discovered_reader_handle: InstanceHandle::new([9; 16]) });
    assert_eq!(actor.get_matched_subscriptions(&w), Some(vec![]));
    assert!(actor.add_matched_reader(&remote_reader(ReliabilityKind::Reliable, vec![s("B")]), GuidPrefix::new([7; 12])));
    assert_eq!(actor.get_matched_subscriptions(&w), Some(vec![]));
}

#[test]
fn sedp_reader_with_incompatible_reliability_is_not_matched() {
    let mut actor = discovered_actor();
    let w = participant_writer(&mut actor, vec![], ReliabilityKind::BestEffort);
    assert!(actor.add_matched_reader(&remote_reader(ReliabilityKind::Reliable, vec![]), GuidPrefix::new([7; 12])));
    assert_eq!(actor.get_matched_subscriptions(&w), Some(vec![]));
}

#[test]
fn sedp_reader_of_unknown_or_ignored_participant_is_not_matched() {
    let mut actor = discovered_actor();
    let w = participant_writer(&mut actor, vec![], ReliabilityKind::Reliable);
    assert!(!actor.add_matched_reader(&remote_reader(ReliabilityKind::Reliable, vec![]), GuidPrefix::new([8; 12])));
    actor.ignore_subscription(InstanceHandle::new([9; 16])).unwrap();
    assert!(!actor.add_matched_reader(&remote_reader(ReliabilityKind::Reliable, vec![]), GuidPrefix::new([7; 12])));
    assert_eq!(actor.get_matched_subscriptions(&w), Some(vec![]));
}

#[test]
fn sedp_writer_matches_reader() {
    let mut actor = discovered_actor();
    let sub = actor.create_user_defined_subscriber(QosKind::Default).unwrap();
    let _ = sub;
    let data = dust_dds::subscriber::DiscoveredWriterData {
        writer_handle: InstanceHandle::new([4; 16]),
        topic_name: s("HelloWorld"),
        topic_type: s("HelloWorldType"),
        qos: EndpointQos::default_writer(),
        partition: vec![],
    };
    assert!(actor.add_matched_writer(&data, GuidPrefix::new([7; 12])));
    assert!(!actor.add_matched_writer(&data, GuidPrefix::new([8; 12])));
}

#[test]
fn partition_change_unmatches_the_reader() {
    let mut actor = discovered_actor();
    let w = participant_writer(&mut actor, vec![s("A*")], ReliabilityKind::Reliable);
    assert!(actor.add_matched_reader(&remote_reader(ReliabilityKind::Reliable, vec![s("Alpha")]), GuidPrefix::new([7; 12])));
    assert_eq!(actor.get_matched_subscriptions(&w), Some(vec![InstanceHandle::new([9; 16])]));
    assert!(actor.add_matched_reader(&remote_reader(ReliabilityKind::Reliable, vec![s("B")]), GuidPrefix::new([7; 12])));
    assert_eq!(actor.get_matched_subscriptions(&w), Some(vec![]));
    assert_eq!(actor.get_discovered_topics().len(), 1);
}

#[test]
fn instance_handle_from_long_key_is_its_md5_digest() {
    let ts = FooTypeSupport::new(true, String::new());
    let key: Vec<u8> = (0..20u8).collect();
    let h = ts.instance_handle_from_serialized_key(&key).unwrap();
    assert_eq!(h.value, md5::compute(&key).0);
    assert_eq!(h, ts.instance_handle_from_serialized_key(&key).unwrap());
}

#[test]
fn factory_participant_is_enabled_and_announces_itself() {
    let mut factory = DomainParticipantFactoryActor::new();
    let mut dp = factory.create_participant(1, QosKind::Default, [10, 0, 0, 1], [1, 2, 3, 4], vec![]).unwrap();
    assert_eq!(dp.ignore_participant(InstanceHandle::new([1; 16])), Ok(()));
    let sent = dp.announce_participant(vec![1, 2, 3, 4]).unwrap();
    assert_eq!(sent.len(), 1);
    assert_eq!(sent[0].reader, 0);
    assert!(dp.announce_participant(vec![1, 2, 3, 4]).unwrap().len() == 1);
}

fn remote_writer_data() -> dust_dds::subscriber::DiscoveredWriterData {
    dust_dds::subscriber::DiscoveredWriterData {
        writer_handle: InstanceHandle::new([4; 16]),
        topic_name: s("HelloWorld"),
        topic_type: s("HelloWorldType"),
        qos: EndpointQos::default_writer(),
        partition: vec![],
    }
}

#[test]
fn subscription_samples_match_and_dispose_unmatches() {
    let mut actor = discovered_actor();
    let w = participant_writer(&mut actor, vec![], ReliabilityKind::Reliable);
    let h = InstanceHandle::new([9; 16]);
    let alive = Some(remote_reader(ReliabilityKind::Reliable, vec![]));
    assert!(actor.process_subscription_sample(InstanceStateKind::Alive, &h, alive, GuidPrefix::new([7; 12])));
    assert_eq!(actor.get_matched_subscriptions(&w), Some(vec![h]));
    assert!(!actor.process_subscription_sample(InstanceStateKind::NotAliveNoWriters, &h, None, GuidPrefix::new([7; 12])));
    assert_eq!(actor.get_matched_subscriptions(&w), Some(vec![h]));
    assert!(!actor.process_subscription_sample(InstanceStateKind::NotAliveDisposed, &h, None, GuidPrefix::new([7; 12])));
    assert_eq!(actor.get_matched_subscriptions(&w), Some(vec![]));
}

#[test]
fn publication_samples_from_known_participants_only() {
    let mut actor = discovered_actor();
    actor.create_user_defined_subscriber(QosKind::Default).unwrap();
    let h = InstanceHandle::new([4; 16]);
    assert!(actor.process_publication_sample(InstanceStateKind::Alive, &h, Some(remote_writer_data()), GuidPrefix::new([7; 12])));
    assert!(!actor.process_publication_sample(InstanceStateKind::Alive, &h, Some(remote_writer_data()), GuidPrefix::new([8; 12])));
    assert!(!actor.process_publication_sample(InstanceStateKind::Alive, &h, None, GuidPrefix::new([7; 12])));
    assert!(!actor.process_publication_sample(InstanceStateKind::NotAliveDisposed, &h, None, GuidPrefix::new([7; 12])));
}

#[test]
fn disposed_writer_leaves_every_reader() {
    let mut sub = SubscriberActor::new(GroupQos::default_qos(), Guid::new(GuidPrefix::new([5; 12]), EntityId::new([1, 0, 0], 9)));
    let r = sub.create_datareader(s("HelloWorld"), s("HelloWorldType"), EndpointQos::default_reader()).unwrap();
    sub.add_matched_writer(&remote_writer_data());
    assert_eq!(sub.get_matched_publications(&r), Some(vec![InstanceHandle::new([4; 16])]));
    sub.remove_matched_writer(&InstanceHandle::new([4; 16]));
    assert_eq!(sub.get_matched_publications(&r), Some(vec![]));
    assert_eq!(sub.get_matched_publications(&InstanceHandle::new([4; 16])), None);
}

#[test]
fn enabling_twice_changes_nothing() {
    let mut actor =
        DomainParticipantActor::new(GuidPrefix::new([5; 12]), 0, String::new(), DomainParticipantQos::default_qos(), 1344, vec![]);
    actor.enable();
    let p = actor.create_user_defined_publisher(QosKind::Default, vec![]).unwrap();
    actor.enable();
    assert!(actor.is_enabled());
    assert!(actor.contains_entity(&p));
}

#[test]
fn ignored_participant_stays_ignored() {
    let mut dp = participant();
    let h = InstanceHandle::new(participant_key([7; 12]));
    assert_eq!(dp.ignore_participant(h), Err(DdsError::NotEnabled));
    dp.enable();
    assert_eq!(dp.ignore_participant(h), Ok(()));
    assert_eq!(dp.ignore_participant(h), Ok(()));
    assert!(!dp.add_discovered_participant(spdp([7; 12], Some(0))));
}

#[test]
fn created_participant_has_the_qos_asked_for() {
    let mut factory = DomainParticipantFactoryActor::new();
    let qos = DomainParticipantQos { user_data: vec![1, 2], autoenable_created_entities: false };
    let dp = factory.create_participant(0, QosKind::Specific(qos), [10, 0, 0, 1], [1, 2, 3, 4], vec![]).unwrap();
    assert_eq!(dp.get_qos().user_data, vec![1, 2]);
    let other = factory.create_participant(0, QosKind::Default, [10, 0, 0, 1], [1, 2, 3, 4], vec![]).unwrap();
    assert!(other.get_qos().user_data.is_empty());
    assert_ne!(dp.get_instance_handle(), other.get_instance_handle());
}
