use dust_dds::codec::{parse_message, write_message, RtpsMessage, RtpsMessageHeader, RtpsSubmessageKind};
use dust_dds::elements::{ProtocolVersionUdp, SequenceNumberSetUdp, SequenceNumberUdp, TimeUdp, ULongUdp, VendorIdUdp};
use dust_dds::messages::{
    AckNackSubmessage, DataFrag, DataSubmessage, GapSubmessage, HeartbeatSubmessage, InfoDestinationSubmessage,
    InfoTimestampSubmessage, ParameterListUdp, ParameterUdp, SerializedDataUdp, VectorUdp,
};
use dust_dds::types::{EntityId, GuidPrefix, USER_DEFINED_READER_GROUP, USER_DEFINED_READER_NO_KEY};

fn header() -> RtpsMessageHeader {
    RtpsMessageHeader {
        version: ProtocolVersionUdp { major: 2, minor: 3 },
        vendor_id: VendorIdUdp(9, 8),
        guid_prefix: GuidPrefix::new([3; 12]),
    }
}

fn data_submessage() -> DataSubmessage {
    DataSubmessage {
        endianness_flag: true,
        inline_qos_flag: true,
        data_flag: false,
        key_flag: false,
        non_standard_payload_flag: false,
        reader_id: EntityId::new([1, 2, 3], USER_DEFINED_READER_NO_KEY),
        writer_id: EntityId::new([6, 7, 8], USER_DEFINED_READER_GROUP),
        writer_sn: 5,
        inline_qos: ParameterListUdp {
            parameter: vec![
                ParameterUdp::new(6, VectorUdp(vec![10, 11, 12, 13])),
                ParameterUdp::new(7, VectorUdp(vec![20, 21, 22, 23])),
            ],
        },
        serialized_payload: SerializedDataUdp(vec![]),
    }
}

#[test]
fn serialize_rtps_message_no_submessage() {
    let value = RtpsMessage::new(header(), Vec::new());
    assert_eq!(write_message(&value), vec![
        b'R', b'T', b'P', b'S', // Protocol
        2, 3, 9, 8, // ProtocolVersion | VendorId
        3, 3, 3, 3, // GuidPrefix
        3, 3, 3, 3, // GuidPrefix
        3, 3, 3, 3, // GuidPrefix
    ]);
}

#[test]
fn serialize_rtps_message() {
    let submessage = RtpsSubmessageKind::Data(data_submessage());
    let value = RtpsMessage::new(header(), vec![submessage]);
    assert_eq!(write_message(&value), vec![
        b'R', b'T', b'P', b'S', // Protocol
        2, 3, 9, 8, // ProtocolVersion | VendorId
        3, 3, 3, 3, // GuidPrefix
        3, 3, 3, 3, // GuidPrefix
        3, 3, 3, 3, // GuidPrefix
        0x15, 0b_0000_0011, 40, 0, // Submessage header
        0, 0, 16, 0, // extraFlags, octetsToInlineQos
        1, 2, 3, 4, // readerId: value[4]
        6, 7, 8, 9, // writerId: value[4]
        0, 0, 0, 0, // writerSN: high
        5, 0, 0, 0, // writerSN: low
        6, 0, 4, 0, // inlineQos: parameterId_1, length_1
        10, 11, 12, 13, // inlineQos: value_1[length_1]
        7, 0, 4, 0, // inlineQos: parameterId_2, length_2
        20, 21, 22, 23, // inlineQos: value_2[length_2]
        1, 0, 0, 0, // inlineQos: Sentinel
    ]);
}

#[test]
fn deserialize_rtps_message_no_submessage() {
    let expected = RtpsMessage::new(header(), Vec::new());
    let result = parse_message(&[
        b'R', b'T', b'P', b'S', // Protocol
        2, 3, 9, 8, // ProtocolVersion | VendorId
        3, 3, 3, 3, // GuidPrefix
        3, 3, 3, 3, // GuidPrefix
        3, 3, 3, 3, // GuidPrefix
    ]).unwrap();
    assert_eq!(result, expected);
}

#[test]
fn deserialize_rtps_message() {
    let data_submessage = RtpsSubmessageKind::Data(data_submessage());
    let heartbeat_submessage = RtpsSubmessageKind::Heartbeat(HeartbeatSubmessage {
        endianness_flag: true,
        final_flag: false,
        liveliness_flag: true,
        reader_id: EntityId::new([1, 2, 3], USER_DEFINED_READER_NO_KEY),
        writer_id: EntityId::new([6, 7, 8], USER_DEFINED_READER_GROUP),
        first_sn: 5,
        last_sn: 7,
        count: 2,
    });
    let expected = RtpsMessage::new(header(), vec![data_submessage, heartbeat_submessage]);
    let result = parse_message(&[
        b'R', b'T', b'P', b'S', // Protocol
        2, 3, 9, 8, // ProtocolVersion | VendorId
        3, 3, 3, 3, // GuidPrefix
        3, 3, 3, 3, // GuidPrefix
        3, 3, 3, 3, // GuidPrefix
        0x15, 0b_0000_0011, 40, 0, // Submessage header
        0, 0, 16, 0, // extraFlags, octetsToInlineQos
        1, 2, 3, 4, // readerId: value[4]
        6, 7, 8, 9, // writerId: value[4]
        0, 0, 0, 0, // writerSN: high
        5, 0, 0, 0, // writerSN: low
        6, 0, 4, 0, // inlineQos: parameterId_1, length_1
        10, 11, 12, 13, // inlineQos: value_1[length_1]
        7, 0, 4, 0, // inlineQos: parameterId_2, length_2
        20, 21, 22, 23, // inlineQos: value_2[length_2]
        1, 0, 1, 0, // inlineQos: Sentinel
        0x07, 0b_0000_0101, 28, 0, // Submessage header
        1, 2, 3, 4, // readerId: value[4]
        6, 7, 8, 9, // writerId: value[4]
        0, 0, 0, 0, // firstSN: SequenceNumber: high
        5, 0, 0, 0, // firstSN: SequenceNumber: low
        0, 0, 0, 0, // lastSN: SequenceNumberSet: high
        7, 0, 0, 0, // lastSN: SequenceNumberSet: low
        2, 0, 0, 0, // count: Count: value (long)
    ]).unwrap();
    assert_eq!(result, expected);
}

#[test]
fn deserialize_rtps_message_unknown_submessage() {
    let submessage = RtpsSubmessageKind::Data(data_submessage());
    let expected = RtpsMessage::new(header(), vec![submessage]);
    let result = parse_message(&[
        b'R', b'T', b'P', b'S', // Protocol
        2, 3, 9, 8, // ProtocolVersion | VendorId
        3, 3, 3, 3, // GuidPrefix
        3, 3, 3, 3, // GuidPrefix
        3, 3, 3, 3, // GuidPrefix
        0x99, 0b_0101_0011, 4, 0, // Submessage header
        9, 9, 9, 9, // Unkown data
        0x15, 0b_0000_0011, 40, 0, // Submessage header
        0, 0, 16, 0, // extraFlags, octetsToInlineQos
        1, 2, 3, 4, // readerId: value[4]
        6, 7, 8, 9, // writerId: value[4]
        0, 0, 0, 0, // writerSN: high
        5, 0, 0, 0, // writerSN: low
        6, 0, 4, 0, // inlineQos: parameterId_1, length_1
        10, 11, 12, 13, // inlineQos: value_1[length_1]
        7, 0, 4, 0, // inlineQos: parameterId_2, length_2
        20, 21, 22, 23, // inlineQos: value_2[length_2]
        1, 0, 0, 0, // inlineQos: Sentinel
    ]).unwrap();
    assert_eq!(result, expected);
}

#[test]
fn deserialize_rtps_message_bad_header() {
    assert!(parse_message(&[b'R', b'T', b'P', b'X', 2, 3, 9, 8, 3, 3, 3, 3, 3, 3, 3, 3, 3, 3, 3, 3]).is_err());
    assert!(parse_message(&[b'R', b'T', b'P', b'S']).is_err());
}

#[test]
fn deserialize_rtps_message_truncated_submessage_is_dropped() {
    let result = parse_message(&[
        b'R', b'T', b'P', b'S', 2, 3, 9, 8,
        3, 3, 3, 3, 3, 3, 3, 3, 3, 3, 3, 3,
        0x07, 0b_0000_0001, 28, 0, // declared length past the end
        1, 2, 3, 4,
    ]).unwrap();
    assert!(result.submessages.is_empty());
}

fn key_hash_parameter() -> ParameterListUdp {
    ParameterListUdp {
        parameter: vec![ParameterUdp::new(0x70, VectorUdp(vec![1, 2, 3, 4, 5, 6, 7, 8, 9, 10, 11, 12, 13, 14, 15, 16]))],
    }
}

fn data_frag() -> DataFrag {
    DataFrag {
        endianness_flag: true,
        inline_qos_flag: true,
        key_flag: true,
        non_standard_payload_flag: false,
        reader_id: EntityId::new([0, 0, 0], 0),
        writer_id: EntityId::new([0, 1, 0], 0xc2),
        writer_sn: 1,
        fragment_starting_num: 1,
        fragments_in_submessage: 2,
        fragment_size: 3,
        data_size: 4,
        inline_qos: key_hash_parameter(),
        serialized_payload: SerializedDataUdp(vec![1, 2, 3]),
    }
}

#[test]
fn parse_data_frag_submessage() {
    let expected = data_frag();
    let bytes = vec![
        0x15_u8, 0b00000111, 59, 0x0, // Submessgae Header
        0x00, 0x00, 28, 0x0, // ExtraFlags, octetsToInlineQos
        0x00, 0x00, 0x00, 0x00, // readerId
        0x00, 0x01, 0x00, 0xc2, // writerId
        0x00, 0x00, 0x00, 0x00, // writerSN
        0x01, 0x00, 0x00, 0x00, // writerSN
        1, 0, 0, 0, // fragmentStartingNum
        2, 0, 3, 0, // fragmentsInSubmessage | fragmentSize
        4, 0, 0, 0, // sampleSize
        0x70, 0x00, 0x10, 0x00, // [Inline QoS] parameterId, length
        1, 2, 3, 4, // [Inline QoS] Key hash
        5, 6, 7, 8, // [Inline QoS] Key hash
        9, 10, 11, 12, // [Inline QoS] Key hash
        13, 14, 15, 16, // [Inline QoS] Key hash
        0x01, 0x00, 0x00, 0x00, // [Inline QoS] PID_SENTINEL
        1, 2, 3, // [Serialized Payload]
    ];
    let result = DataFrag::parse(&bytes).unwrap();
    assert_eq!(expected, result);
}

#[test]
fn compose_data_frag_submessage() {
    let message = data_frag();
    // DATA_FRAG carries submessage id 0x16.
    let expected = vec![
        0x16_u8, 0b00000111, 59, 0x0, // Submessgae Header
        0x00, 0x00, 28, 0x0, // ExtraFlags, octetsToInlineQos
        0x00, 0x00, 0x00, 0x00, // readerId
        0x00, 0x01, 0x00, 0xc2, // writerId
        0x00, 0x00, 0x00, 0x00, // writerSN
        0x01, 0x00, 0x00, 0x00, // writerSN
        1, 0, 0, 0, // fragmentStartingNum
        2, 0, 3, 0, // fragmentsInSubmessage | fragmentSize
        4, 0, 0, 0, // sampleSize
        0x70, 0x00, 0x10, 0x00, // [Inline QoS] parameterId, length
        1, 2, 3, 4, // [Inline QoS] Key hash
        5, 6, 7, 8, // [Inline QoS] Key hash
        9, 10, 11, 12, // [Inline QoS] Key hash
        13, 14, 15, 16, // [Inline QoS] Key hash
        0x01, 0x00, 0x00, 0x00, // [Inline QoS] PID_SENTINEL
        1, 2, 3, // [Serialized Payload]
    ];
    let mut writer = Vec::new();
    message.compose(&mut writer);
    assert_eq!(expected, writer);
}

#[test]
fn round_trip_of_each_submessage_kind() {
    let set = SequenceNumberSetUdp::new(&10, &[10, 12, 40]);
    let submessages = vec![
        RtpsSubmessageKind::Data(data_submessage()),
        RtpsSubmessageKind::DataFrag(data_frag()),
        RtpsSubmessageKind::Heartbeat(HeartbeatSubmessage {
            endianness_flag: true,
            final_flag: true,
            liveliness_flag: false,
            reader_id: EntityId::new([1, 2, 3], 4),
            writer_id: EntityId::new([5, 6, 7], 2),
            first_sn: 1,
            last_sn: 9,
            count: -3,
        }),
        RtpsSubmessageKind::AckNack(AckNackSubmessage {
            endianness_flag: true,
            final_flag: false,
            reader_id: EntityId::new([1, 2, 3], 4),
            writer_id: EntityId::new([5, 6, 7], 2),
            reader_sn_state: set,
            count: 7,
        }),
        RtpsSubmessageKind::Gap(GapSubmessage {
            endianness_flag: true,
            reader_id: EntityId::new([1, 2, 3], 4),
            writer_id: EntityId::new([5, 6, 7], 2),
            gap_start: 3,
            gap_list: SequenceNumberSetUdp::new(&5, &[]),
        }),
        RtpsSubmessageKind::InfoTimestamp(InfoTimestampSubmessage {
            endianness_flag: true,
            timestamp: Some(TimeUdp { seconds: 100, fraction: 7 }),
        }),
        RtpsSubmessageKind::InfoTimestamp(InfoTimestampSubmessage { endianness_flag: true, timestamp: None }),
        RtpsSubmessageKind::InfoDestination(InfoDestinationSubmessage {
            endianness_flag: true,
            guid_prefix: GuidPrefix::new([1, 2, 3, 4, 5, 6, 7, 8, 9, 10, 11, 12]),
        }),
    ];
    let message = RtpsMessage::new(header(), submessages);
    let bytes = write_message(&message);
    let parsed = parse_message(&bytes).unwrap();
    assert_eq!(parsed, message);
}

#[test]
fn sequence_number_set_base() {
    let set = SequenceNumberSetUdp {
        base: SequenceNumberUdp::new(&2),
        num_bits: ULongUdp(0),
        bitmap: [0; 8],
    };
    assert_eq!(set.base(), 2);
}
