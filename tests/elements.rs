use dust_dds::elements::{
    push_snset_le, read_snset, Octet, SequenceNumberSetUdp, SequenceNumberUdp, ULongUdp,
};
use dust_dds::messages::{push_params_le, read_params, ParameterListUdp, ParameterUdp, VectorUdp};

#[test]
fn octet_from_submessage_flags() {
    let result: Octet = Octet::from_flags(&[true, false, true]);
    assert_eq!(result, Octet(0b_0000_0101));
}

#[test]
fn octet_from_submessage_flags_empty() {
    let result: Octet = Octet::from_flags(&[]);
    assert_eq!(result, Octet(0b_0000_0000));
}

#[test]
#[should_panic]
fn octet_from_submessage_flags_overflow() {
    let _: Octet = Octet::from_flags(&[true; 9]);
}

#[test]
fn octet_is_set_bit() {
    let flags = Octet(0b_0000_0001);
    assert_eq!(flags.is_bit_set(0), true);

    let flags = Octet(0b_0000_0000);
    assert_eq!(flags.is_bit_set(0), false);

    let flags = Octet(0b_0000_0010);
    assert_eq!(flags.is_bit_set(1), true);

    let flags = Octet(0b_1000_0011);
    assert_eq!(flags.is_bit_set(7), true);
}

#[test]
fn serialize_parameter_list() {
    let parameter = ParameterListUdp {
        parameter: vec![
            ParameterUdp::new(2, VectorUdp(vec![51, 61, 71, 81])),
            ParameterUdp::new(3, VectorUdp(vec![52, 62, 72, 82])),
        ],
    };
    let mut buf = Vec::new();
    push_params_le(&mut buf, &parameter);
    assert_eq!(buf, vec![
        0x02, 0x00, 4, 0, // Parameter ID | length
        51, 61, 71, 81,   // value
        0x03, 0x00, 4, 0, // Parameter ID | length
        52, 62, 72, 82,   // value
        0x01, 0x00, 0, 0, // Sentinel: PID_SENTINEL | PID_PAD
    ]);
}

#[test]
fn deserialize_parameter_list() {
    let expected = ParameterListUdp {
        parameter: vec![
            ParameterUdp::new(0x02, VectorUdp(vec![15, 16, 17, 18])),
            ParameterUdp::new(0x03, VectorUdp(vec![25, 26, 27, 28])),
        ],
    };
    let (result, end) = read_params(&[
        0x02, 0x00, 4, 0, // Parameter ID | length
        15, 16, 17, 18,        // value
        0x03, 0x00, 4, 0, // Parameter ID | length
        25, 26, 27, 28,        // value
        0x01, 0x00, 0, 0, // Sentinel: Parameter ID | length
        9, 9, 9,    // Following data
    ], 0, true).unwrap();
    assert_eq!(expected, result);
    assert_eq!(end, 20);
}

#[test]
fn parameter_lengths() {
    let p = ParameterUdp::new(2, VectorUdp(vec![5, 6, 7, 8]));
    assert_eq!(p.length, 4);
    assert_eq!(p.len(), 8);
    let list = ParameterListUdp { parameter: vec![p.clone(), ParameterUdp::new(3, VectorUdp(vec![1]))] };
    assert_eq!(list.len(), 13);
}

#[test]
fn sequence_number_set_submessage_element_type_constructor() {
    let expected = SequenceNumberSetUdp {
        base: SequenceNumberUdp::new(&2),
        num_bits: ULongUdp(0),
        bitmap: [0; 8],
    };
    assert_eq!(SequenceNumberSetUdp::new(&2, &[]), expected);

    let expected = SequenceNumberSetUdp {
        base: SequenceNumberUdp::new(&2),
        num_bits: ULongUdp(1),
        bitmap: [0b_10000000_00000000_00000000_00000000_u32, 0, 0, 0, 0, 0, 0, 0],
    };
    assert_eq!(SequenceNumberSetUdp::new(&2, &[2]), expected);

    let expected = SequenceNumberSetUdp {
        base: SequenceNumberUdp::new(&2),
        num_bits: ULongUdp(256),
        bitmap: [
            0b_10000000_00000000_00000000_00000000_u32,
            0,
            0,
            0,
            0,
            0,
            0,
            0b_00000000_00000000_00000000_00000001,
        ],
    };
    assert_eq!(SequenceNumberSetUdp::new(&2, &[2, 257]), expected);
}

#[test]
fn sequence_number_set_submessage_element_type_getters() {
    let sequence_number_set = SequenceNumberSetUdp {
        base: SequenceNumberUdp::new(&2),
        num_bits: ULongUdp(0),
        bitmap: [0; 8],
    };
    assert_eq!(sequence_number_set.base(), 2);
    assert!(sequence_number_set.set().eq(&Vec::<i64>::new()));

    let sequence_number_set = SequenceNumberSetUdp {
        base: SequenceNumberUdp::new(&2),
        num_bits: ULongUdp(100),
        bitmap: [0b_10000000_00000000_00000000_00000000_u32, 0, 0, 0, 0, 0, 0, 0],
    };
    assert_eq!(sequence_number_set.base(), 2);
    assert!(sequence_number_set.set().eq(&vec![2]));

    let sequence_number_set = SequenceNumberSetUdp {
        base: SequenceNumberUdp::new(&2),
        num_bits: ULongUdp(256),
        bitmap: [
            0b_10000000_00000000_00000000_00000000_u32,
            0,
            0,
            0,
            0,
            0,
            0,
            0b_00000000_00000000_00000000_00000001,
        ],
    };
    assert_eq!(sequence_number_set.base(), 2);
    assert!(sequence_number_set.set().eq(&vec![2, 257]));
}

#[test]
fn serialize_sequence_number_max_gap() {
    let sequence_number_set = SequenceNumberSetUdp::new(&2, &[2, 257]);
    let mut buf = Vec::new();
    push_snset_le(&mut buf, &sequence_number_set);
    assert_eq!(buf, vec![
        0, 0, 0, 0, // bitmapBase: high (long)
        2, 0, 0, 0, // bitmapBase: low (unsigned long)
        0, 1, 0, 0, // numBits (ULong)
        0b_000_0000, 0b_0000_0000, 0b_0000_0000, 0b_1000_0000, // bitmap[0] (long)
        0b_000_0000, 0b_0000_0000, 0b_0000_0000, 0b_0000_0000, // bitmap[1] (long)
        0b_000_0000, 0b_0000_0000, 0b_0000_0000, 0b_0000_0000, // bitmap[2] (long)
        0b_000_0000, 0b_0000_0000, 0b_0000_0000, 0b_0000_0000, // bitmap[3] (long)
        0b_000_0000, 0b_0000_0000, 0b_0000_0000, 0b_0000_0000, // bitmap[4] (long)
        0b_000_0000, 0b_0000_0000, 0b_0000_0000, 0b_0000_0000, // bitmap[5] (long)
        0b_000_0000, 0b_0000_0000, 0b_0000_0000, 0b_0000_0000, // bitmap[6] (long)
        0b_000_0001, 0b_0000_0000, 0b_0000_0000, 0b_0000_0000, // bitmap[7] (long)
    ]);
}

#[test]
fn serialize_sequence_number_set_empty() {
    let sequence_number_set = SequenceNumberSetUdp::new(&2, &[]);
    let mut buf = Vec::new();
    push_snset_le(&mut buf, &sequence_number_set);
    assert_eq!(buf, vec![
        0, 0, 0, 0, // bitmapBase: high (long)
        2, 0, 0, 0, // bitmapBase: low (unsigned long)
        0, 0, 0, 0, // numBits (ULong)
    ]);
}

#[test]
fn deserialize_sequence_number_set_empty() {
    let expected = SequenceNumberSetUdp::new(&2, &[]);
    let (result, _) = read_snset(&[
        0, 0, 0, 0, // bitmapBase: high (long)
        2, 0, 0, 0, // bitmapBase: low (unsigned long)
        0, 0, 0, 0, // numBits (ULong)
    ], 0, true).unwrap();
    assert_eq!(expected, result);
}

#[test]
fn deserialize_sequence_number_set_max_gap() {
    let expected = SequenceNumberSetUdp::new(&2, &[2, 257]);
    let (result, _) = read_snset(&[
        0, 0, 0, 0, // bitmapBase: high (long)
        2, 0, 0, 0, // bitmapBase: low (unsigned long)
        0, 1, 0, 0, // numBits (ULong)
        0b_000_0000, 0b_0000_0000, 0b_0000_0000, 0b_1000_0000, // bitmap[0] (long)
        0b_000_0000, 0b_0000_0000, 0b_0000_0000, 0b_0000_0000, // bitmap[1] (long)
        0b_000_0000, 0b_0000_0000, 0b_0000_0000, 0b_0000_0000, // bitmap[2] (long)
        0b_000_0000, 0b_0000_0000, 0b_0000_0000, 0b_0000_0000, // bitmap[3] (long)
        0b_000_0000, 0b_0000_0000, 0b_0000_0000, 0b_0000_0000, // bitmap[4] (long)
        0b_000_0000, 0b_0000_0000, 0b_0000_0000, 0b_0000_0000, // bitmap[5] (long)
        0b_000_0000, 0b_0000_0000, 0b_0000_0000, 0b_0000_0000, // bitmap[6] (long)
        0b_000_0001, 0b_0000_0000, 0b_0000_0000, 0b_0000_0000, // bitmap[7] (long)

    ], 0, true).unwrap();
    assert_eq!(expected, result);
}

#[test]
fn sequence_number_set_law_on_unsorted_input() {
    let set = SequenceNumberSetUdp::new(&100, &[130, 101, 100, 355]);
    assert_eq!(set.set(), vec![100, 101, 130, 355]);
    assert_eq!(set.num_bits.0, 256);
    assert_eq!(set.len(), 12 + 4 * 8);
    let set = SequenceNumberSetUdp::new(&100, &[131]);
    assert_eq!(set.num_bits.0, 32);
    assert_eq!(set.len(), 16);
    let set = SequenceNumberSetUdp::new(&100, &[132]);
    assert_eq!(set.len(), 20);
}

#[test]
fn sequence_number_round_trip() {
    let sn = SequenceNumberUdp::new(&((7_i64 << 32) + 9));
    assert_eq!(sn.high, 7);
    assert_eq!(sn.low, 9);
    assert_eq!(sn.get(), (7_i64 << 32) + 9);
}
