use dust_dds::codec::RtpsSubmessageKind;
use dust_dds::reader::InstanceStateKind;
use dust_dds::stateless::RtpsStatelessWriter;
use dust_dds::types::{Locator, LOCATOR_KIND_UDP_V4};
use dust_dds::elements::SequenceNumberSetUdp;
use dust_dds::history::{CacheChange, RTPSHistoryCacheImpl};
use dust_dds::messages::{
    AckNackSubmessage, DataSubmessage, FragmentNumberSetUdp, GapSubmessage, HeartbeatSubmessage, NackFragSubmessage,
    ParameterListUdp, SerializedDataUdp,
};
use dust_dds::reader::{RtpsReader, RtpsStatefulReader, RtpsWriterProxy, StatefulReaderDataReceivedResult};
use dust_dds::types::{ChangeKind, DurabilityKind, EntityId, Guid, GuidPrefix, InstanceHandle, ReliabilityKind};
use dust_dds::writer::{ReaderProxy, RtpsStatefulWriter, SendItem, WriterSubmessage};

fn writer_guid() -> Guid {
    Guid::new(GuidPrefix::new([1; 12]), EntityId::new([0, 0, 1], 0x02))
}

fn reader_guid() -> Guid {
    Guid::new(GuidPrefix::new([2; 12]), EntityId::new([0, 0, 2], 0x07))
}

fn change(sn: i64, len: usize) -> CacheChange {
    CacheChange {
        kind: ChangeKind::Alive,
        writer_guid: writer_guid(),
        sequence_number: sn,
        instance_handle: InstanceHandle::new([0; 16]),
        source_timestamp: None,
        data_value: vec![7; len],
        inline_qos: ParameterListUdp::new(),
    }
}

fn reader_proxy(reliability_kind: ReliabilityKind, durability_kind: DurabilityKind) -> ReaderProxy {
    ReaderProxy {
        remote_reader_guid: reader_guid(),
        remote_group_entity_id: EntityId::new([0, 0, 0], 0),
        unicast_locator_list: vec![],
        multicast_locator_list: vec![],
        expects_inline_qos: false,
        reliability_kind,
        durability_kind,
    }
}

fn items(v: &[SendItem]) -> Vec<WriterSubmessage> {
    v.iter().map(|i| i.submessage).collect()
}

#[test]
fn rtps_history_cache_impl_add_change() {
    let mut hc = RTPSHistoryCacheImpl::new();
    hc.add_change(change(1, 0));
    assert!(hc.get_change(1).is_some());
}

#[test]
fn rtps_history_cache_impl_remove_change() {
    let mut hc = RTPSHistoryCacheImpl::new();
    hc.add_change(change(1, 0));
    hc.remove_change(1);
    assert!(hc.get_change(1).is_none());
}

#[test]
fn rtps_history_cache_impl_get_change() {
    let mut hc = RTPSHistoryCacheImpl::new();
    hc.add_change(change(1, 0));
    assert!(hc.get_change(1).is_some());
    assert!(hc.get_change(2).is_none());
}

#[test]
fn rtps_history_cache_impl_get_seq_num_min() {
    let mut hc = RTPSHistoryCacheImpl::new();
    hc.add_change(change(1, 0));
    hc.add_change(change(2, 0));
    assert_eq!(hc.get_seq_num_min(), Some(1));
}

#[test]
fn rtps_history_cache_impl_get_seq_num_max() {
    let mut hc = RTPSHistoryCacheImpl::new();
    hc.add_change(change(2, 0));
    hc.add_change(change(1, 0));
    assert_eq!(hc.get_seq_num_max(), Some(2));
    assert_eq!(RTPSHistoryCacheImpl::new().get_seq_num_max(), None);
}

#[test]
fn best_effort_writer_sends_data_in_order() {
    let mut writer = RtpsStatefulWriter::new(writer_guid(), 1344);
    writer.add_matched_reader(reader_proxy(ReliabilityKind::BestEffort, DurabilityKind::Volatile));
    let sent = writer.add_change(change(1, 10), 0);
    assert_eq!(items(&sent), vec![WriterSubmessage::Data { sequence_number: 1 }]);
    let sent = writer.add_change(change(2, 10), 0);
    assert_eq!(items(&sent), vec![WriterSubmessage::Data { sequence_number: 2 }]);
    assert!(writer.send_message(0).is_empty());
}

#[test]
fn best_effort_writer_sends_gap_for_removed_change() {
    let mut writer = RtpsStatefulWriter::new(writer_guid(), 1344);
    writer.add_change(change(1, 1), 0);
    writer.add_change(change(2, 1), 0);
    writer.add_change(change(3, 1), 0);
    writer.remove_change(2);
    writer.add_matched_reader(reader_proxy(ReliabilityKind::BestEffort, DurabilityKind::TransientLocal));
    let sent = writer.send_message(0);
    assert_eq!(
        items(&sent),
        vec![
            WriterSubmessage::Data { sequence_number: 1 },
            WriterSubmessage::Gap { gap_start: 2, gap_end: 2 },
            WriterSubmessage::Data { sequence_number: 3 },
        ]
    );
}

#[test]
fn volatile_late_joiner_gets_only_new_changes() {
    let mut writer = RtpsStatefulWriter::new(writer_guid(), 1344);
    writer.add_change(change(1, 1), 0);
    writer.add_change(change(2, 1), 0);
    writer.add_matched_reader(reader_proxy(ReliabilityKind::BestEffort, DurabilityKind::Volatile));
    assert!(writer.send_message(0).is_empty());
    let sent = writer.add_change(change(3, 1), 0);
    assert_eq!(items(&sent), vec![WriterSubmessage::Data { sequence_number: 3 }]);
}

#[test]
fn transient_local_late_joiner_gets_all_changes() {
    let mut writer = RtpsStatefulWriter::new(writer_guid(), 1344);
    for sn in 1..=3 {
        writer.add_change(change(sn, 1), 0);
    }
    writer.add_matched_reader(reader_proxy(ReliabilityKind::Reliable, DurabilityKind::TransientLocal));
    let sent = writer.send_message(0);
    assert_eq!(
        items(&sent),
        vec![
            WriterSubmessage::Data { sequence_number: 1 },
            WriterSubmessage::Heartbeat { first_sn: 1, last_sn: 3, count: 1 },
            WriterSubmessage::Data { sequence_number: 2 },
            WriterSubmessage::Heartbeat { first_sn: 1, last_sn: 3, count: 2 },
            WriterSubmessage::Data { sequence_number: 3 },
            WriterSubmessage::Heartbeat { first_sn: 1, last_sn: 3, count: 3 },
        ]
    );
}

#[test]
fn large_change_is_sent_in_fragments() {
    let mut writer = RtpsStatefulWriter::new(writer_guid(), 1024);
    writer.add_matched_reader(reader_proxy(ReliabilityKind::Reliable, DurabilityKind::Volatile));
    let sent = writer.add_change(change(1, 4000), 0);
    assert_eq!(
        items(&sent),
        vec![
            WriterSubmessage::DataFrag { sequence_number: 1, fragment_starting_num: 1 },
            WriterSubmessage::DataFrag { sequence_number: 1, fragment_starting_num: 2 },
            WriterSubmessage::DataFrag { sequence_number: 1, fragment_starting_num: 3 },
            WriterSubmessage::DataFrag { sequence_number: 1, fragment_starting_num: 4 },
        ]
    );
}

#[test]
fn nack_frag_resends_just_the_lost_fragment() {
    let mut writer = RtpsStatefulWriter::new(writer_guid(), 1024);
    writer.add_matched_reader(reader_proxy(ReliabilityKind::Reliable, DurabilityKind::Volatile));
    writer.add_change(change(1, 4000), 0);
    let nack = NackFragSubmessage {
        endianness_flag: true,
        reader_id: reader_guid().entity_id,
        writer_id: writer_guid().entity_id,
        writer_sn: 1,
        fragment_number_state: FragmentNumberSetUdp { base: 3, num_bits: 1, bitmap: [0x8000_0000, 0, 0, 0, 0, 0, 0, 0] },
        count: 1,
    };
    let sent = writer.on_nack_frag_submessage_received(&nack, reader_guid().prefix);
    assert_eq!(items(&sent), vec![WriterSubmessage::DataFrag { sequence_number: 1, fragment_starting_num: 3 }]);
    // A repeated count is ignored.
    assert!(writer.on_nack_frag_submessage_received(&nack, reader_guid().prefix).is_empty());
}

#[test]
fn acknack_acknowledges_and_requests() {
    let mut writer = RtpsStatefulWriter::new(writer_guid(), 1344);
    writer.add_matched_reader(reader_proxy(ReliabilityKind::Reliable, DurabilityKind::Volatile));
    writer.add_change(change(1, 1), 0);
    writer.add_change(change(2, 1), 0);
    assert!(!writer.is_change_acknowledged(1));
    let acknack = AckNackSubmessage {
        endianness_flag: true,
        final_flag: false,
        reader_id: reader_guid().entity_id,
        writer_id: writer_guid().entity_id,
        reader_sn_state: SequenceNumberSetUdp::new(&2, &[2]),
        count: 1,
    };
    let sent = writer.on_acknack_submessage_received(&acknack, reader_guid().prefix, 0);
    assert!(writer.is_change_acknowledged(1));
    assert!(!writer.is_change_acknowledged(2));
    assert_eq!(
        items(&sent),
        vec![WriterSubmessage::Data { sequence_number: 2 }, WriterSubmessage::Heartbeat { first_sn: 1, last_sn: 2, count: 3 }]
    );
}

#[test]
fn periodic_heartbeat_while_unacknowledged() {
    let mut writer = RtpsStatefulWriter::new(writer_guid(), 1344);
    writer.add_matched_reader(reader_proxy(ReliabilityKind::Reliable, DurabilityKind::Volatile));
    writer.add_change(change(1, 1), 0);
    assert!(writer.send_message(100).is_empty());
    assert_eq!(
        items(&writer.send_message(250)),
        vec![WriterSubmessage::Heartbeat { first_sn: 1, last_sn: 1, count: 2 }]
    );
}

#[test]
fn matched_reader_is_added_once_and_removed() {
    let mut writer = RtpsStatefulWriter::new(writer_guid(), 1344);
    writer.add_matched_reader(reader_proxy(ReliabilityKind::BestEffort, DurabilityKind::Volatile));
    writer.add_matched_reader(reader_proxy(ReliabilityKind::BestEffort, DurabilityKind::Volatile));
    let sent = writer.add_change(change(1, 1), 0);
    assert_eq!(sent.len(), 1);
    writer.delete_matched_reader(reader_guid());
    assert!(writer.add_change(change(2, 1), 0).is_empty());
    assert_eq!(writer.guid(), writer_guid());
    assert_eq!(writer.data_max_size_serialized(), 1344);
}

fn data(sn: i64) -> DataSubmessage {
    DataSubmessage {
        endianness_flag: true,
        inline_qos_flag: false,
        data_flag: true,
        key_flag: false,
        non_standard_payload_flag: false,
        reader_id: reader_guid().entity_id,
        writer_id: writer_guid().entity_id,
        writer_sn: sn,
        inline_qos: ParameterListUdp::new(),
        serialized_payload: SerializedDataUdp(vec![8, 0, 0, 0]),
    }
}

fn stateful_reader(reliability: ReliabilityKind) -> RtpsStatefulReader {
    let mut reader = RtpsStatefulReader::new(RtpsReader::new(reader_guid(), reliability));
    reader.matched_writer_add(RtpsWriterProxy::new(writer_guid(), EntityId::new([0, 0, 0], 0), vec![], vec![]));
    reader
}

#[test]
fn best_effort_reader_reports_lost_samples() {
    let h = InstanceHandle::new([1; 16]);
    let mut reader = stateful_reader(ReliabilityKind::BestEffort);
    let prefix = writer_guid().prefix;
    assert_eq!(reader.on_data_submessage_received(&data(1), prefix, None, h), StatefulReaderDataReceivedResult::NewSampleAdded(h));
    assert_eq!(
        reader.on_data_submessage_received(&data(4), prefix, None, h),
        StatefulReaderDataReceivedResult::NewSampleAddedAndSamplesLost(h, 2)
    );
    assert_eq!(
        reader.on_data_submessage_received(&data(3), prefix, None, h),
        StatefulReaderDataReceivedResult::UnexpectedDataSequenceNumber
    );
    let seqs: Vec<i64> = reader.reader().changes.iter().map(|c| c.sequence_number).collect();
    assert_eq!(seqs, vec![1, 4]);
}

#[test]
fn reliable_reader_takes_only_the_next_sample() {
    let h = InstanceHandle::new([1; 16]);
    let mut reader = stateful_reader(ReliabilityKind::Reliable);
    let prefix = writer_guid().prefix;
    assert_eq!(
        reader.on_data_submessage_received(&data(2), prefix, None, h),
        StatefulReaderDataReceivedResult::UnexpectedDataSequenceNumber
    );
    assert_eq!(reader.on_data_submessage_received(&data(1), prefix, None, h), StatefulReaderDataReceivedResult::NewSampleAdded(h));
    assert_eq!(reader.on_data_submessage_received(&data(2), prefix, None, h), StatefulReaderDataReceivedResult::NewSampleAdded(h));
    assert_eq!(
        reader.on_data_submessage_received(&data(1), GuidPrefix::new([9; 12]), None, h),
        StatefulReaderDataReceivedResult::NoMatchedWriterProxy
    );
}

#[test]
fn heartbeat_makes_reader_acknack_missing_changes() {
    let mut reader = stateful_reader(ReliabilityKind::Reliable);
    let prefix = writer_guid().prefix;
    let heartbeat = HeartbeatSubmessage {
        endianness_flag: true,
        final_flag: false,
        liveliness_flag: false,
        reader_id: reader_guid().entity_id,
        writer_id: writer_guid().entity_id,
        first_sn: 1,
        last_sn: 3,
        count: 1,
    };
    reader.on_heartbeat_submessage_received(&heartbeat, prefix);
    let sent = reader.send_message();
    assert_eq!(sent.len(), 1);
    assert_eq!(sent[0].acknack.reader_sn_state.base(), 1);
    assert_eq!(sent[0].acknack.reader_sn_state.set(), vec![1, 2, 3]);
    assert_eq!(sent[0].acknack.count, 1);
    assert!(reader.send_message().is_empty());
}

#[test]
fn gap_makes_reader_skip_irrelevant_changes() {
    let h = InstanceHandle::new([1; 16]);
    let mut reader = stateful_reader(ReliabilityKind::Reliable);
    let prefix = writer_guid().prefix;
    let gap = GapSubmessage {
        endianness_flag: true,
        reader_id: reader_guid().entity_id,
        writer_id: writer_guid().entity_id,
        gap_start: 1,
        gap_list: SequenceNumberSetUdp::new(&3, &[3]),
    };
    reader.on_gap_submessage_received(&gap, prefix);
    assert_eq!(reader.on_data_submessage_received(&data(4), prefix, None, h), StatefulReaderDataReceivedResult::NewSampleAdded(h));
}

#[test]
fn reliable_delivery_over_a_lossy_link() {
    let h = InstanceHandle::new([1; 16]);
    let mut writer = RtpsStatefulWriter::new(writer_guid(), 1344);
    writer.add_matched_reader(reader_proxy(ReliabilityKind::Reliable, DurabilityKind::Volatile));
    let mut reader = stateful_reader(ReliabilityKind::Reliable);
    let prefix = writer_guid().prefix;
    // Sample 1 is lost on the way, sample 2 arrives out of turn.
    writer.add_change(change(1, 4), 0);
    writer.add_change(change(2, 4), 0);
    assert_eq!(
        reader.on_data_submessage_received(&data(2), prefix, None, h),
        StatefulReaderDataReceivedResult::UnexpectedDataSequenceNumber
    );
    let heartbeat = HeartbeatSubmessage {
        endianness_flag: true,
        final_flag: false,
        liveliness_flag: false,
        reader_id: reader_guid().entity_id,
        writer_id: writer_guid().entity_id,
        first_sn: 1,
        last_sn: 2,
        count: 1,
    };
    reader.on_heartbeat_submessage_received(&heartbeat, prefix);
    let acknacks = reader.send_message();
    let resent = writer.on_acknack_submessage_received(&acknacks[0].acknack, reader_guid().prefix, 0);
    for item in resent {
        if let WriterSubmessage::Data { sequence_number } = item.submessage {
            reader.on_data_submessage_received(&data(sequence_number), prefix, None, h);
        }
    }
    let seqs: Vec<i64> = reader.reader().changes.iter().map(|c| c.sequence_number).collect();
    assert_eq!(seqs, vec![1, 2]);
}

fn fragment(start: u32, bytes: Vec<u8>) -> dust_dds::messages::DataFrag {
    dust_dds::messages::DataFrag {
        endianness_flag: true,
        inline_qos_flag: false,
        non_standard_payload_flag: false,
        key_flag: false,
        reader_id: reader_guid().entity_id,
        writer_id: writer_guid().entity_id,
        writer_sn: 1,
        fragment_starting_num: start,
        fragments_in_submessage: 1,
        data_size: 4000,
        fragment_size: 1024,
        inline_qos: ParameterListUdp::new(),
        serialized_payload: SerializedDataUdp(bytes),
    }
}

#[test]
fn fragmented_sample_is_reassembled_after_a_lost_fragment() {
    let h = InstanceHandle::new([1; 16]);
    let mut reader = stateful_reader(ReliabilityKind::Reliable);
    let prefix = writer_guid().prefix;
    let sample: Vec<u8> = (0..4000u32).map(|i| (i % 251) as u8).collect();
    let piece = |k: usize| sample[k * 1024..std::cmp::min((k + 1) * 1024, 4000)].to_vec();
    for k in [0usize, 1, 3] {
        assert_eq!(
            reader.on_data_frag_submessage_received(&fragment(k as u32 + 1, piece(k)), prefix, None, h),
            StatefulReaderDataReceivedResult::FragmentStored
        );
    }
    assert!(reader.reader().changes.is_empty());
    // The lost third fragment is sent again.
    assert_eq!(
        reader.on_data_frag_submessage_received(&fragment(3, piece(2)), prefix, None, h),
        StatefulReaderDataReceivedResult::NewSampleAdded(h)
    );
    assert_eq!(reader.reader().changes[0].data_value, sample);
}

#[test]
fn short_fragment_is_rejected() {
    let h = InstanceHandle::new([1; 16]);
    let mut reader = stateful_reader(ReliabilityKind::Reliable);
    assert_eq!(
        reader.on_data_frag_submessage_received(&fragment(1, vec![0; 100]), writer_guid().prefix, None, h),
        StatefulReaderDataReceivedResult::SampleRejected(h, dust_dds::reader::SampleRejectedStatusKind::RejectedBySamplesLimit)
    );
}

#[test]
fn dispose_cycle_is_seen_by_the_reader() {
    let h = InstanceHandle::new([1; 16]);
    let mut reader = stateful_reader(ReliabilityKind::Reliable);
    let prefix = writer_guid().prefix;
    reader.on_data_submessage_received(&data(1), prefix, None, h);
    let mut dispose = data(2);
    dispose.data_flag = false;
    dispose.key_flag = true;
    reader.on_data_submessage_received(&dispose, prefix, None, h);
    let kinds: Vec<ChangeKind> = reader.reader().changes.iter().map(|c| c.kind).collect();
    assert_eq!(kinds, vec![ChangeKind::Alive, ChangeKind::NotAliveDisposed]);
}

#[test]
fn stateless_writer_sends_each_change_once_to_each_locator() {
    let locator = Locator { kind: LOCATOR_KIND_UDP_V4, port: 7400, address: [0; 16] };
    let mut writer = RtpsStatelessWriter::new(writer_guid(), 1344);
    writer.add_change(change(1, 4));
    writer.reader_locator_add(locator, false);
    writer.add_change(change(2, 4));
    let sent = writer.send_message();
    assert_eq!(
        items(&sent),
        vec![WriterSubmessage::Data { sequence_number: 1 }, WriterSubmessage::Data { sequence_number: 2 }]
    );
    assert!(writer.send_message().is_empty());
}

#[test]
fn lost_fragment_is_nacked_and_resent_alone() {
    let h = InstanceHandle::new([1; 16]);
    let mut writer = RtpsStatefulWriter::new(writer_guid(), 1024);
    writer.add_matched_reader(reader_proxy(ReliabilityKind::Reliable, DurabilityKind::Volatile));
    let sample: Vec<u8> = (0..4000u32).map(|i| (i % 251) as u8).collect();
    let mut c = change(1, 0);
    c.data_value = sample.clone();
    writer.add_change(c, 0);
    let mut reader = stateful_reader(ReliabilityKind::Reliable);
    let prefix = writer_guid().prefix;
    let piece = |k: usize| sample[k * 1024..std::cmp::min((k + 1) * 1024, 4000)].to_vec();
    for k in [0usize, 2, 3] {
        reader.on_data_frag_submessage_received(&fragment(k as u32 + 1, piece(k)), prefix, None, h);
    }
    let missing = reader.missing_fragments(&writer_guid(), 1);
    assert_eq!(missing, vec![2]);
    let nack = NackFragSubmessage {
        endianness_flag: true,
        reader_id: reader_guid().entity_id,
        writer_id: writer_guid().entity_id,
        writer_sn: 1,
        fragment_number_state: FragmentNumberSetUdp { base: missing[0], num_bits: 1, bitmap: [0x8000_0000, 0, 0, 0, 0, 0, 0, 0] },
        count: 1,
    };
    let resent = writer.on_nack_frag_submessage_received(&nack, reader_guid().prefix);
    assert_eq!(items(&resent), vec![WriterSubmessage::DataFrag { sequence_number: 1, fragment_starting_num: 2 }]);
    assert_eq!(
        reader.on_data_frag_submessage_received(&fragment(2, piece(1)), prefix, None, h),
        StatefulReaderDataReceivedResult::NewSampleAdded(h)
    );
    assert_eq!(reader.reader().changes[0].data_value, sample);
}

#[test]
fn written_and_disposed_samples_reach_the_reader() {
    let h = InstanceHandle::new([1; 16]);
    let mut writer = RtpsStatefulWriter::new(writer_guid(), 1344);
    writer.add_matched_reader(reader_proxy(ReliabilityKind::Reliable, DurabilityKind::Volatile));
    let mut reader = stateful_reader(ReliabilityKind::Reliable);
    let mut sent = writer.write_w_timestamp(vec![8, 0, 0, 0, 2, 0, 0, 0, b'h', b'i'], h, None, 0);
    sent.extend(writer.dispose_w_timestamp(vec![8, 0, 0, 0], h, None, 0));
    for item in &sent {
        if let Some(RtpsSubmessageKind::Data(d)) = writer.build_submessage(item) {
            assert_eq!(d.writer_id, writer_guid().entity_id);
            assert_eq!(d.reader_id, reader_guid().entity_id);
            reader.on_data_submessage_received(&d, writer_guid().prefix, None, h);
        }
    }
    let samples = reader.take(10).unwrap();
    assert_eq!(samples.len(), 2);
    assert_eq!(samples[0].0.data_value, vec![8, 0, 0, 0, 2, 0, 0, 0, b'h', b'i']);
    assert!(samples[0].1.valid_data);
    assert_eq!(samples[0].1.instance_state, InstanceStateKind::Alive);
    assert!(!samples[1].1.valid_data);
    assert_eq!(samples[1].1.instance_state, InstanceStateKind::NotAliveDisposed);
    assert!(reader.take(10).is_err());
}

#[test]
fn fragment_items_build_exact_payload_ranges() {
    let mut writer = RtpsStatefulWriter::new(writer_guid(), 1024);
    writer.add_matched_reader(reader_proxy(ReliabilityKind::Reliable, DurabilityKind::Volatile));
    let sample: Vec<u8> = (0..4000u32).map(|i| (i % 251) as u8).collect();
    let sent = writer.write_w_timestamp(sample.clone(), InstanceHandle::new([0; 16]), None, 0);
    let mut rebuilt = Vec::new();
    for item in &sent {
        match writer.build_submessage(item) {
            Some(RtpsSubmessageKind::DataFrag(f)) => {
                assert_eq!(f.data_size, 4000);
                assert_eq!(f.fragment_size, 1024);
                rebuilt.extend(f.serialized_payload.0);
            }
            other => panic!("unexpected {:?}", other),
        }
    }
    assert_eq!(rebuilt, sample);
}
