use dust_dds::codec::{RtpsMessage, RtpsMessageHeader, RtpsSubmessageKind};
use dust_dds::elements::{ProtocolVersionUdp, TimeUdp, VendorIdUdp};
use dust_dds::messages::{
    DataSubmessage, HeartbeatSubmessage, InfoDestinationSubmessage, InfoTimestampSubmessage, ParameterListUdp,
    SerializedDataUdp,
};
use dust_dds::reader::{RtpsReader, RtpsStatefulReader, RtpsWriterProxy, StatefulReaderDataReceivedResult};
use dust_dds::receiver::{is_addressed_to, message_contexts, ReceiveContext};
use dust_dds::types::{EntityId, Guid, GuidPrefix, InstanceHandle, ReliabilityKind};
use dust_dds::writer::RtpsStatefulWriter;

fn remote_writer() -> Guid {
    Guid::new(GuidPrefix::new([1; 12]), EntityId::new([0, 0, 1], 0x02))
}

fn local_reader() -> Guid {
    Guid::new(GuidPrefix::new([2; 12]), EntityId::new([0, 0, 2], 0x07))
}

fn header(prefix: [u8; 12]) -> RtpsMessageHeader {
    RtpsMessageHeader {
        version: ProtocolVersionUdp { major: 2, minor: 4 },
        vendor_id: VendorIdUdp(1, 3),
        guid_prefix: GuidPrefix::new(prefix),
    }
}

fn data(sn: i64) -> DataSubmessage {
    DataSubmessage {
        endianness_flag: true,
        inline_qos_flag: false,
        data_flag: true,
        key_flag: false,
        non_standard_payload_flag: false,
        reader_id: local_reader().entity_id,
        writer_id: remote_writer().entity_id,
        writer_sn: sn,
        inline_qos: ParameterListUdp::new(),
        serialized_payload: SerializedDataUdp(vec![8, 0, 0, 0]),
    }
}

fn heartbeat() -> HeartbeatSubmessage {
    HeartbeatSubmessage {
        endianness_flag: true,
        final_flag: false,
        liveliness_flag: false,
        reader_id: local_reader().entity_id,
        writer_id: remote_writer().entity_id,
        first_sn: 1,
        last_sn: 3,
        count: 1,
    }
}

fn info_ts(t: Option<TimeUdp>) -> RtpsSubmessageKind {
    RtpsSubmessageKind::InfoTimestamp(InfoTimestampSubmessage { endianness_flag: true, timestamp: t })
}

fn info_dst(prefix: [u8; 12]) -> RtpsSubmessageKind {
    RtpsSubmessageKind::InfoDestination(InfoDestinationSubmessage { endianness_flag: true, guid_prefix: GuidPrefix::new(prefix) })
}

fn reader(reliability: ReliabilityKind) -> RtpsStatefulReader {
    let mut reader = RtpsStatefulReader::new(RtpsReader::new(local_reader(), reliability));
    reader.matched_writer_add(RtpsWriterProxy::new(remote_writer(), EntityId::new([0, 0, 0], 0), vec![], vec![]));
    reader
}

fn context(destination: Option<[u8; 12]>, timestamp: Option<TimeUdp>) -> ReceiveContext {
    ReceiveContext {
        source_guid_prefix: GuidPrefix::new([1; 12]),
        destination_guid_prefix: destination.map(GuidPrefix::new),
        timestamp,
    }
}

#[test]
fn contexts_follow_info_ts_and_info_dst() {
    let t = TimeUdp { seconds: 10, fraction: 5 };
    let m = RtpsMessage::new(
        header([1; 12]),
        vec![
            RtpsSubmessageKind::Data(data(1)),
            info_ts(Some(t)),
            RtpsSubmessageKind::Data(data(2)),
            info_dst([2; 12]),
            RtpsSubmessageKind::Heartbeat(heartbeat()),
            info_ts(None),
            RtpsSubmessageKind::Pad,
        ],
    );
    let c = message_contexts(&m);
    assert_eq!(c.len(), 7);
    assert_eq!(c[0], context(None, None));
    assert_eq!(c[1], context(None, None));
    assert_eq!(c[2], context(None, Some(t)));
    assert_eq!(c[4], context(Some([2; 12]), Some(t)));
    assert_eq!(c[6], context(Some([2; 12]), None));
}

#[test]
fn destination_decides_who_takes_a_submessage() {
    let local = GuidPrefix::new([2; 12]);
    assert!(is_addressed_to(&context(None, None), &local));
    assert!(is_addressed_to(&context(Some([2; 12]), None), &local));
    assert!(is_addressed_to(&context(Some([0; 12]), None), &local));
    assert!(!is_addressed_to(&context(Some([3; 12]), None), &local));
}

#[test]
fn reader_takes_data_with_the_message_time() {
    let t = TimeUdp { seconds: 10, fraction: 5 };
    let h = InstanceHandle::new([1; 16]);
    let local = GuidPrefix::new([2; 12]);
    let mut r = reader(ReliabilityKind::BestEffort);
    let m = RtpsMessage::new(header([1; 12]), vec![info_ts(Some(t)), RtpsSubmessageKind::Data(data(1))]);
    let c = message_contexts(&m);
    assert_eq!(r.receive_submessage(&m.submessages[0], &c[0], &local, h), None);
    assert_eq!(
        r.receive_submessage(&m.submessages[1], &c[1], &local, h),
        Some(StatefulReaderDataReceivedResult::NewSampleAdded(h))
    );
    assert_eq!(r.reader().changes.len(), 1);
    assert_eq!(r.reader().changes[0].source_timestamp, Some(t));
    assert_eq!(r.reader().changes[0].writer_guid, remote_writer());
}

#[test]
fn submessage_for_another_participant_is_left_alone() {
    let h = InstanceHandle::new([1; 16]);
    let local = GuidPrefix::new([2; 12]);
    let mut r = reader(ReliabilityKind::BestEffort);
    let s = RtpsSubmessageKind::Data(data(1));
    assert_eq!(r.receive_submessage(&s, &context(Some([3; 12]), None), &local, h), None);
    assert!(r.reader().changes.is_empty());
    assert_eq!(
        r.receive_submessage(&s, &context(Some([0; 12]), None), &local, h),
        Some(StatefulReaderDataReceivedResult::NewSampleAdded(h))
    );
}

#[test]
fn reader_heartbeat_from_the_message_sender_asks_for_acknack() {
    let local = GuidPrefix::new([2; 12]);
    let mut r = reader(ReliabilityKind::Reliable);
    let s = RtpsSubmessageKind::Heartbeat(heartbeat());
    r.receive_submessage(&s, &context(None, None), &local, InstanceHandle::new([1; 16]));
    let sent = r.send_message();
    assert_eq!(sent.len(), 1);
    assert_eq!(sent[0].acknack.reader_sn_state.set(), vec![1, 2, 3]);
}

#[test]
fn writer_answers_nothing_to_reader_submessages() {
    let local = GuidPrefix::new([1; 12]);
    let mut w = RtpsStatefulWriter::new(remote_writer(), 1344);
    let s = RtpsSubmessageKind::Heartbeat(heartbeat());
    assert!(w.receive_submessage(&s, &context(None, None), &local, 0).is_empty());
}

#[test]
fn reader_takes_fragments_through_the_receiver() {
    let h = InstanceHandle::new([1; 16]);
    let local = GuidPrefix::new([2; 12]);
    let mut r = reader(ReliabilityKind::Reliable);
    let fragment = |start: u32, bytes: Vec<u8>| {
        RtpsSubmessageKind::DataFrag(dust_dds::messages::DataFrag {
            endianness_flag: true,
            inline_qos_flag: false,
            non_standard_payload_flag: false,
            key_flag: false,
            reader_id: local_reader().entity_id,
            writer_id: remote_writer().entity_id,
            writer_sn: 1,
            fragment_starting_num: start,
            fragments_in_submessage: 1,
            data_size: 8,
            fragment_size: 4,
            inline_qos: ParameterListUdp::new(),
            serialized_payload: SerializedDataUdp(bytes),
        })
    };
    let c = context(None, None);
    assert_eq!(
        r.receive_submessage(&fragment(1, vec![1, 2, 3, 4]), &c, &local, h),
        Some(StatefulReaderDataReceivedResult::FragmentStored)
    );
    assert_eq!(
        r.receive_submessage(&fragment(2, vec![5, 6, 7, 8]), &c, &local, h),
        Some(StatefulReaderDataReceivedResult::NewSampleAdded(h))
    );
    assert_eq!(r.reader().changes[0].data_value, vec![1, 2, 3, 4, 5, 6, 7, 8]);
}
