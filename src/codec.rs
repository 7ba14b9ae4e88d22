use vstd::prelude::*;

use crate::elements::{
    i32_bits, i32_of_bits, of_bits, push_sn_le, push_snset_le, push_u16_le, push_u32_le, read_sn,
    read_snset, read_u16, read_u32, sn_at, sn_le, snset_at, snset_le, to_bits, u16_at, u16_le, u32_at,
    u32_le, words_le, ProtocolVersionUdp, SequenceNumberSetUdp, SequenceNumberUdp, TimeUdp, VendorIdUdp,
};
use crate::messages::{
    copy_bytes, data_frag_body, entity_at, flag, flags_octet, get_flag, header_le, make_flags,
    params_at, params_le, params_len, push_bytes, push_entity, push_params_le, read_entity, read_params,
    AckNackSubmessage, DataFrag, DataFragView, DataSubmessage, FragmentNumberSetUdp, GapSubmessage,
    HeartbeatFragSubmessage, HeartbeatSubmessage, InfoDestinationSubmessage, InfoTimestampSubmessage,
    NackFragSubmessage, ParameterListUdp, SerializedDataUdp, ACKNACK, DATA, DATA_FRAG, GAP, HEARTBEAT,
    HEARTBEAT_FRAG, INFO_DST, INFO_TS, NACK_FRAG, PAD,
};
use crate::types::{DdsError, EntityId, GuidPrefix};

verus! {

// ---------------------------------------------------------------------------
// Views of the submessages that hold sequences
// ---------------------------------------------------------------------------

/// A sequence number set as base, numBits and its eight words.
pub type SetView = (SequenceNumberUdp, u32, Seq<u32>);

pub open spec fn set_view(s: SequenceNumberSetUdp) -> SetView {
    (s.base, s.num_bits.0, s.bitmap@)
}

/// What a DATA carries, with its lists as sequences.
pub struct DataView {
    pub endianness_flag: bool,
    pub inline_qos_flag: bool,
    pub data_flag: bool,
    pub key_flag: bool,
    pub non_standard_payload_flag: bool,
    pub reader_id: EntityId,
    pub writer_id: EntityId,
    pub writer_sn: i64,
    pub inline_qos: Seq<(u16, Seq<u8>)>,
    pub serialized_payload: Seq<u8>,
}

impl View for DataSubmessage {
    type V = DataView;

    open spec fn view(&self) -> DataView {
        DataView {
            endianness_flag: self.endianness_flag,
            inline_qos_flag: self.inline_qos_flag,
            data_flag: self.data_flag,
            key_flag: self.key_flag,
            non_standard_payload_flag: self.non_standard_payload_flag,
            reader_id: self.reader_id,
            writer_id: self.writer_id,
            writer_sn: self.writer_sn,
            inline_qos: self.inline_qos@,
            serialized_payload: self.serialized_payload.0@,
        }
    }
}

pub struct AckNackView {
    pub endianness_flag: bool,
    pub final_flag: bool,
    pub reader_id: EntityId,
    pub writer_id: EntityId,
    pub reader_sn_state: SetView,
    pub count: i32,
}

pub struct GapView {
    pub endianness_flag: bool,
    pub reader_id: EntityId,
    pub writer_id: EntityId,
    pub gap_start: i64,
    pub gap_list: SetView,
}

pub struct NackFragView {
    pub endianness_flag: bool,
    pub reader_id: EntityId,
    pub writer_id: EntityId,
    pub writer_sn: i64,
    pub fragment_number_state: (u32, u32, Seq<u32>),
    pub count: i32,
}

/// One submessage of a message.
#[derive(Debug, PartialEq, Eq)]
pub enum RtpsSubmessageKind {
    AckNack(AckNackSubmessage),
    Data(DataSubmessage),
    DataFrag(DataFrag),
    Gap(GapSubmessage),
    Heartbeat(HeartbeatSubmessage),
    HeartbeatFrag(HeartbeatFragSubmessage),
    InfoDestination(InfoDestinationSubmessage),
    InfoTimestamp(InfoTimestampSubmessage),
    NackFrag(NackFragSubmessage),
    Pad,
}

pub enum SubmessageView {
    AckNack(AckNackView),
    Data(DataView),
    DataFrag(DataFragView),
    Gap(GapView),
    Heartbeat(HeartbeatSubmessage),
    HeartbeatFrag(HeartbeatFragSubmessage),
    InfoDestination(bool, Seq<u8>),
    InfoTimestamp(InfoTimestampSubmessage),
    NackFrag(NackFragView),
    Pad,
}

impl View for RtpsSubmessageKind {
    type V = SubmessageView;

    open spec fn view(&self) -> SubmessageView {
        match self {
            RtpsSubmessageKind::AckNack(s) => SubmessageView::AckNack(
                AckNackView {
                    endianness_flag: s.endianness_flag,
                    final_flag: s.final_flag,
                    reader_id: s.reader_id,
                    writer_id: s.writer_id,
                    reader_sn_state: set_view(s.reader_sn_state),
                    count: s.count,
                },
            ),
            RtpsSubmessageKind::Data(s) => SubmessageView::Data(s@),
            RtpsSubmessageKind::DataFrag(s) => SubmessageView::DataFrag(s@),
            RtpsSubmessageKind::Gap(s) => SubmessageView::Gap(
                GapView {
                    endianness_flag: s.endianness_flag,
                    reader_id: s.reader_id,
                    writer_id: s.writer_id,
                    gap_start: s.gap_start,
                    gap_list: set_view(s.gap_list),
                },
            ),
            RtpsSubmessageKind::Heartbeat(s) => SubmessageView::Heartbeat(*s),
            RtpsSubmessageKind::HeartbeatFrag(s) => SubmessageView::HeartbeatFrag(*s),
            RtpsSubmessageKind::InfoDestination(s) => SubmessageView::InfoDestination(
                s.endianness_flag,
                s.guid_prefix@,
            ),
            RtpsSubmessageKind::InfoTimestamp(s) => SubmessageView::InfoTimestamp(*s),
            RtpsSubmessageKind::NackFrag(s) => SubmessageView::NackFrag(
                NackFragView {
                    endianness_flag: s.endianness_flag,
                    reader_id: s.reader_id,
                    writer_id: s.writer_id,
                    writer_sn: s.writer_sn,
                    fragment_number_state: (
                        s.fragment_number_state.base,
                        s.fragment_number_state.num_bits,
                        s.fragment_number_state.bitmap@,
                    ),
                    count: s.count,
                },
            ),
            RtpsSubmessageKind::Pad => SubmessageView::Pad,
        }
    }
}

// ---------------------------------------------------------------------------
// Bodies: how each kind is read
// ---------------------------------------------------------------------------

/// A fragment number set: base, numBits and eight words (zero past those present).
pub open spec fn fragset_at(b: Seq<u8>, i: int, le: bool) -> Option<((u32, u32, Seq<u32>), int)> {
    if i < 0 || i + 8 > b.len() {
        None
    } else {
        let num_bits = u32_at(b, i + 4, le);
        let m = (num_bits as int + 31) / 32;
        if num_bits > 256 || i + 8 + 4 * m > b.len() {
            None
        } else {
            Some(
                (
                    (
                        u32_at(b, i, le),
                        num_bits,
                        Seq::new(8, |k: int| if k < m { u32_at(b, i + 8 + 4 * k, le) } else { 0u32 }),
                    ),
                    i + 8 + 4 * m,
                ),
            )
        }
    }
}

pub open spec fn data_body_at(b: Seq<u8>, start: int, end: int, flags: u8) -> Option<SubmessageView> {
    let le = flag(flags, 0);
    if start + 20 > end {
        None
    } else {
        let q = flag(flags, 1);
        let d = flag(flags, 2);
        let k = flag(flags, 3);
        let qos_start = start + 4 + u16_at(b, start + 2, le) as int;
        let qos = if q {
            params_at(b, qos_start, le)
        } else {
            Some((seq![], qos_start))
        };
        match qos {
            None => None,
            Some((ps, payload_start)) => if payload_start > end || qos_start > end {
                None
            } else {
                Some(
                    SubmessageView::Data(
                        DataView {
                            endianness_flag: le,
                            inline_qos_flag: q,
                            data_flag: d,
                            key_flag: k,
                            non_standard_payload_flag: flag(flags, 4),
                            reader_id: entity_at(b, start + 4),
                            writer_id: entity_at(b, start + 8),
                            writer_sn: sn_at(b, start + 12, le),
                            inline_qos: ps,
                            serialized_payload: if d || k {
                                b.subrange(payload_start, end)
                            } else {
                                seq![]
                            },
                        },
                    ),
                )
            },
        }
    }
}

pub open spec fn data_frag_body_at(b: Seq<u8>, start: int, end: int, flags: u8) -> Option<SubmessageView> {
    let le = flag(flags, 0);
    match data_frag_body(b, start, end, flags) {
        Some(v) => Some(SubmessageView::DataFrag(v)),
        None => None,
    }
}

pub open spec fn heartbeat_body_at(b: Seq<u8>, start: int, end: int, flags: u8) -> Option<SubmessageView> {
    let le = flag(flags, 0);
    if start + 28 > end {
        None
    } else {
        Some(
            SubmessageView::Heartbeat(
                HeartbeatSubmessage {
                    endianness_flag: le,
                    final_flag: flag(flags, 1),
                    liveliness_flag: flag(flags, 2),
                    reader_id: entity_at(b, start),
                    writer_id: entity_at(b, start + 4),
                    first_sn: sn_at(b, start + 8, le),
                    last_sn: sn_at(b, start + 16, le),
                    count: i32_of_bits(u32_at(b, start + 24, le)),
                },
            ),
        )
    }
}

pub open spec fn acknack_body_at(b: Seq<u8>, start: int, end: int, flags: u8) -> Option<SubmessageView> {
    let le = flag(flags, 0);
    if start + 8 > end {
        None
    } else {
        match snset_at(b, start + 8, le) {
            Some((base, nb, words, e)) => if e + 4 > end {
                None
            } else {
                Some(
                    SubmessageView::AckNack(
                        AckNackView {
                            endianness_flag: le,
                            final_flag: flag(flags, 1),
                            reader_id: entity_at(b, start),
                            writer_id: entity_at(b, start + 4),
                            reader_sn_state: (base, nb, words),
                            count: i32_of_bits(u32_at(b, e, le)),
                        },
                    ),
                )
            },
            None => None,
        }
    }
}

pub open spec fn gap_body_at(b: Seq<u8>, start: int, end: int, flags: u8) -> Option<SubmessageView> {
    let le = flag(flags, 0);
    if start + 16 > end {
        None
    } else {
        match snset_at(b, start + 16, le) {
            Some((base, nb, words, e)) => if e > end {
                None
            } else {
                Some(
                    SubmessageView::Gap(
                        GapView {
                            endianness_flag: le,
                            reader_id: entity_at(b, start),
                            writer_id: entity_at(b, start + 4),
                            gap_start: sn_at(b, start + 8, le),
                            gap_list: (base, nb, words),
                        },
                    ),
                )
            },
            None => None,
        }
    }
}

pub open spec fn heartbeat_frag_body_at(b: Seq<u8>, start: int, end: int, flags: u8) -> Option<SubmessageView> {
    let le = flag(flags, 0);
    if start + 24 > end {
        None
    } else {
        Some(
            SubmessageView::HeartbeatFrag(
                HeartbeatFragSubmessage {
                    endianness_flag: le,
                    reader_id: entity_at(b, start),
                    writer_id: entity_at(b, start + 4),
                    writer_sn: sn_at(b, start + 8, le),
                    last_fragment_num: u32_at(b, start + 16, le),
                    count: i32_of_bits(u32_at(b, start + 20, le)),
                },
            ),
        )
    }
}

pub open spec fn nack_frag_body_at(b: Seq<u8>, start: int, end: int, flags: u8) -> Option<SubmessageView> {
    let le = flag(flags, 0);
    if start + 16 > end {
        None
    } else {
        match fragset_at(b, start + 16, le) {
            Some((fs, e)) => if e + 4 > end {
                None
            } else {
                Some(
                    SubmessageView::NackFrag(
                        NackFragView {
                            endianness_flag: le,
                            reader_id: entity_at(b, start),
                            writer_id: entity_at(b, start + 4),
                            writer_sn: sn_at(b, start + 8, le),
                            fragment_number_state: fs,
                            count: i32_of_bits(u32_at(b, e, le)),
                        },
                    ),
                )
            },
            None => None,
        }
    }
}

pub open spec fn info_ts_body_at(b: Seq<u8>, start: int, end: int, flags: u8) -> Option<SubmessageView> {
    let le = flag(flags, 0);
    if flag(flags, 1) {
        Some(SubmessageView::InfoTimestamp(InfoTimestampSubmessage { endianness_flag: le, timestamp: None }))
    } else if start + 8 > end {
        None
    } else {
        Some(
            SubmessageView::InfoTimestamp(
                InfoTimestampSubmessage {
                    endianness_flag: le,
                    timestamp: Some(
                        TimeUdp { seconds: u32_at(b, start, le), fraction: u32_at(b, start + 4, le) },
                    ),
                },
            ),
        )
    }
}

pub open spec fn info_dst_body_at(b: Seq<u8>, start: int, end: int, flags: u8) -> Option<SubmessageView> {
    let le = flag(flags, 0);
    if start + 12 > end {
        None
    } else {
        Some(SubmessageView::InfoDestination(le, b.subrange(start, start + 12)))
    }
}


/// The submessage of kind `id` whose body spans `start..end`; `None` where the body is too
/// short, its fields are malformed, or the kind is unknown.
#[verifier::opaque]
pub open spec fn body_at(b: Seq<u8>, start: int, end: int, id: u8, flags: u8) -> Option<SubmessageView> {
    if start < 0 || end > b.len() || start > end {
        None
    } else if id == DATA {
        data_body_at(b, start, end, flags)
    } else if id == DATA_FRAG {
        data_frag_body_at(b, start, end, flags)
    } else if id == HEARTBEAT {
        heartbeat_body_at(b, start, end, flags)
    } else if id == ACKNACK {
        acknack_body_at(b, start, end, flags)
    } else if id == GAP {
        gap_body_at(b, start, end, flags)
    } else if id == HEARTBEAT_FRAG {
        heartbeat_frag_body_at(b, start, end, flags)
    } else if id == NACK_FRAG {
        nack_frag_body_at(b, start, end, flags)
    } else if id == INFO_TS {
        info_ts_body_at(b, start, end, flags)
    } else if id == INFO_DST {
        info_dst_body_at(b, start, end, flags)
    } else if id == PAD {
        Some(SubmessageView::Pad)
    } else {
        None
    }
}

/// The submessages from position `i` on: each known one read, unknown or malformed ones
/// skipped by their declared length; reading stops where fewer than four bytes remain or
/// a declared length runs past the end.
pub open spec fn submessages_at(b: Seq<u8>, i: int) -> Seq<SubmessageView>
    decreases b.len() - i,
{
    if i < 0 || i + 4 > b.len() {
        seq![]
    } else {
        let id = b[i];
        let flags = b[i + 1];
        let end = i + 4 + u16_at(b, i + 2, flag(flags, 0)) as int;
        if end > b.len() {
            seq![]
        } else {
            match body_at(b, i + 4, end, id, flags) {
                Some(s) => seq![s] + submessages_at(b, end),
                None => submessages_at(b, end),
            }
        }
    }
}

fn read_fragset(b: &[u8], i: usize, le: bool) -> (r: Option<(FragmentNumberSetUdp, usize)>)
    ensures
        match (r, fragset_at(b@, i as int, le)) {
            (Some((x, e)), Some((v, e2))) => (x.base, x.num_bits, x.bitmap@) == v && e == e2,
            (None, None) => true,
            _ => false,
        },
{
    let n = b.len();
    if i > n || n - i < 8 {
        return None;
    }
    let num_bits = read_u32(b, i + 4, le);
    let m = ((num_bits as u64 + 31) / 32) as usize;
    if num_bits > 256 || n - i - 8 < 4 * m {
        return None;
    }
    let base = read_u32(b, i, le);
    let mut bitmap: [u32; 8] = [0, 0, 0, 0, 0, 0, 0, 0];
    let mut k: usize = 0;
    while k < m
        invariant
            m <= 8,
            k <= m,
            m == (num_bits as int + 31) / 32,
            i + 8 + 4 * m <= b@.len(),
            n == b@.len(),
            forall|j: int|
                0 <= j < 8 ==> #[trigger] bitmap@[j] == (if j < k {
                    u32_at(b@, i + 8 + 4 * j, le)
                } else {
                    0u32
                }),
        decreases m - k,
    {
        bitmap[k] = read_u32(b, i + 8 + 4 * k, le);
        k += 1;
    }
    let ghost v = fragset_at(b@, i as int, le)->Some_0.0;
    assert(bitmap@ =~= v.2);
    Some((FragmentNumberSetUdp { base, num_bits, bitmap }, i + 8 + 4 * m))
}

fn parse_data(b: &[u8], start: usize, end: usize, flags: u8) -> (r: Option<RtpsSubmessageKind>)
    requires
        start <= end <= b@.len(),
    ensures
        match (r, data_body_at(b@, start as int, end as int, flags)) {
            (Some(x), Some(v)) => x@ == v,
            (None, None) => true,
            _ => false,
        },
{
    let le = get_flag(flags, 0);
    if end - start < 20 {
        return None;
    }
    let q = get_flag(flags, 1);
    let d = get_flag(flags, 2);
    let k = get_flag(flags, 3);
    let otiq = read_u16(b, start + 2, le) as usize;
    if end - start - 4 < otiq {
        return None;
    }
    let qos_start = start + 4 + otiq;
    let (inline_qos, payload_start) = if q {
        match read_params(b, qos_start, le) {
            Some(x) => x,
            None => {
                return None;
            },
        }
    } else {
        (ParameterListUdp::new(), qos_start)
    };
    if payload_start > end {
        return None;
    }
    let payload = if d || k {
        copy_bytes(b, payload_start, end)
    } else {
        Vec::new()
    };
    let s = DataSubmessage {
        endianness_flag: le,
        inline_qos_flag: q,
        data_flag: d,
        key_flag: k,
        non_standard_payload_flag: get_flag(flags, 4),
        reader_id: read_entity(b, start + 4),
        writer_id: read_entity(b, start + 8),
        writer_sn: read_sn(b, start + 12, le),
        inline_qos,
        serialized_payload: SerializedDataUdp(payload),
    };
    proof {
        let v = data_body_at(b@, start as int, end as int, flags)->Some_0;
        if let SubmessageView::Data(dv) = v {
            assert(s@.inline_qos == dv.inline_qos);
            assert(s@.serialized_payload == dv.serialized_payload);
            assert(s@.writer_sn == dv.writer_sn);
        }
    }
    Some(RtpsSubmessageKind::Data(s))
}

fn parse_data_frag(b: &[u8], start: usize, end: usize, flags: u8) -> (r: Option<RtpsSubmessageKind>)
    requires
        start <= end <= b@.len(),
    ensures
        match (r, data_frag_body_at(b@, start as int, end as int, flags)) {
            (Some(x), Some(v)) => x@ == v,
            (None, None) => true,
            _ => false,
        },
{
    let le = get_flag(flags, 0);
    match DataFrag::parse_body(b, start, end, flags) {
        Some(x) => Some(RtpsSubmessageKind::DataFrag(x)),
        None => None,
    }
}

fn parse_heartbeat(b: &[u8], start: usize, end: usize, flags: u8) -> (r: Option<RtpsSubmessageKind>)
    requires
        start <= end <= b@.len(),
    ensures
        match (r, heartbeat_body_at(b@, start as int, end as int, flags)) {
            (Some(x), Some(v)) => x@ == v,
            (None, None) => true,
            _ => false,
        },
{
    let le = get_flag(flags, 0);
    if end - start < 28 {
        return None;
    }
    Some(
        RtpsSubmessageKind::Heartbeat(
            HeartbeatSubmessage {
                endianness_flag: le,
                final_flag: get_flag(flags, 1),
                liveliness_flag: get_flag(flags, 2),
                reader_id: read_entity(b, start),
                writer_id: read_entity(b, start + 4),
                first_sn: read_sn(b, start + 8, le),
                last_sn: read_sn(b, start + 16, le),
                count: of_bits(read_u32(b, start + 24, le)),
            },
        ),
    )
}

fn parse_acknack(b: &[u8], start: usize, end: usize, flags: u8) -> (r: Option<RtpsSubmessageKind>)
    requires
        start <= end <= b@.len(),
    ensures
        match (r, acknack_body_at(b@, start as int, end as int, flags)) {
            (Some(x), Some(v)) => x@ == v,
            (None, None) => true,
            _ => false,
        },
{
    let le = get_flag(flags, 0);
    if end - start < 8 {
        return None;
    }
    match read_snset(b, start + 8, le) {
        Some((set, e)) => {
            if e > end || end - e < 4 {
                return None;
            }
            Some(
                RtpsSubmessageKind::AckNack(
                    AckNackSubmessage {
                        endianness_flag: le,
                        final_flag: get_flag(flags, 1),
                        reader_id: read_entity(b, start),
                        writer_id: read_entity(b, start + 4),
                        reader_sn_state: set,
                        count: of_bits(read_u32(b, e, le)),
                    },
                ),
            )
        },
        None => None,
    }
}

fn parse_gap(b: &[u8], start: usize, end: usize, flags: u8) -> (r: Option<RtpsSubmessageKind>)
    requires
        start <= end <= b@.len(),
    ensures
        match (r, gap_body_at(b@, start as int, end as int, flags)) {
            (Some(x), Some(v)) => x@ == v,
            (None, None) => true,
            _ => false,
        },
{
    let le = get_flag(flags, 0);
    if end - start < 16 {
        return None;
    }
    match read_snset(b, start + 16, le) {
        Some((set, e)) => {
            if e > end {
                return None;
            }
            Some(
                RtpsSubmessageKind::Gap(
                    GapSubmessage {
                        endianness_flag: le,
                        reader_id: read_entity(b, start),
                        writer_id: read_entity(b, start + 4),
                        gap_start: read_sn(b, start + 8, le),
                        gap_list: set,
                    },
                ),
            )
        },
        None => None,
    }
}

fn parse_heartbeat_frag(b: &[u8], start: usize, end: usize, flags: u8) -> (r: Option<RtpsSubmessageKind>)
    requires
        start <= end <= b@.len(),
    ensures
        match (r, heartbeat_frag_body_at(b@, start as int, end as int, flags)) {
            (Some(x), Some(v)) => x@ == v,
            (None, None) => true,
            _ => false,
        },
{
    let le = get_flag(flags, 0);
    if end - start < 24 {
        return None;
    }
    Some(
        RtpsSubmessageKind::HeartbeatFrag(
            HeartbeatFragSubmessage {
                endianness_flag: le,
                reader_id: read_entity(b, start),
                writer_id: read_entity(b, start + 4),
                writer_sn: read_sn(b, start + 8, le),
                last_fragment_num: read_u32(b, start + 16, le),
                count: of_bits(read_u32(b, start + 20, le)),
            },
        ),
    )
}

fn parse_nack_frag(b: &[u8], start: usize, end: usize, flags: u8) -> (r: Option<RtpsSubmessageKind>)
    requires
        start <= end <= b@.len(),
    ensures
        match (r, nack_frag_body_at(b@, start as int, end as int, flags)) {
            (Some(x), Some(v)) => x@ == v,
            (None, None) => true,
            _ => false,
        },
{
    let le = get_flag(flags, 0);
    if end - start < 16 {
        return None;
    }
    match read_fragset(b, start + 16, le) {
        Some((fs, e)) => {
            if e > end || end - e < 4 {
                return None;
            }
            Some(
                RtpsSubmessageKind::NackFrag(
                    NackFragSubmessage {
                        endianness_flag: le,
                        reader_id: read_entity(b, start),
                        writer_id: read_entity(b, start + 4),
                        writer_sn: read_sn(b, start + 8, le),
                        fragment_number_state: fs,
                        count: of_bits(read_u32(b, e, le)),
                    },
                ),
            )
        },
        None => None,
    }
}

fn parse_info_ts(b: &[u8], start: usize, end: usize, flags: u8) -> (r: Option<RtpsSubmessageKind>)
    requires
        start <= end <= b@.len(),
    ensures
        match (r, info_ts_body_at(b@, start as int, end as int, flags)) {
            (Some(x), Some(v)) => x@ == v,
            (None, None) => true,
            _ => false,
        },
{
    let le = get_flag(flags, 0);
    if get_flag(flags, 1) {
        Some(RtpsSubmessageKind::InfoTimestamp(InfoTimestampSubmessage { endianness_flag: le, timestamp: None }))
    } else if end - start < 8 {
        None
    } else {
        Some(
            RtpsSubmessageKind::InfoTimestamp(
                InfoTimestampSubmessage {
                    endianness_flag: le,
                    timestamp: Some(TimeUdp { seconds: read_u32(b, start, le), fraction: read_u32(b, start + 4, le) }),
                },
            ),
        )
    }
}

fn parse_info_dst(b: &[u8], start: usize, end: usize, flags: u8) -> (r: Option<RtpsSubmessageKind>)
    requires
        start <= end <= b@.len(),
    ensures
        match (r, info_dst_body_at(b@, start as int, end as int, flags)) {
            (Some(x), Some(v)) => x@ == v,
            (None, None) => true,
            _ => false,
        },
{
    let le = get_flag(flags, 0);
    if end - start < 12 {
        return None;
    }
    let p: [u8; 12] = [
        b[start], b[start + 1], b[start + 2], b[start + 3], b[start + 4], b[start + 5],
        b[start + 6], b[start + 7], b[start + 8], b[start + 9], b[start + 10], b[start + 11],
    ];
    assert(p@ =~= b@.subrange(start as int, start + 12));
    Some(RtpsSubmessageKind::InfoDestination(InfoDestinationSubmessage { endianness_flag: le, guid_prefix: GuidPrefix { bytes: p } }))
}

/// Reads the submessage of kind `id` whose body spans `start..end`.
pub fn parse_body(b: &[u8], start: usize, end: usize, id: u8, flags: u8) -> (r: Option<RtpsSubmessageKind>)
    ensures
        match (r, body_at(b@, start as int, end as int, id, flags)) {
            (Some(x), Some(v)) => x@ == v,
            (None, None) => true,
            _ => false,
        },
{
    reveal(body_at);
    if end > b.len() || start > end {
        return None;
    }
    if id == DATA {
        parse_data(b, start, end, flags)
    } else if id == DATA_FRAG {
        parse_data_frag(b, start, end, flags)
    } else if id == HEARTBEAT {
        parse_heartbeat(b, start, end, flags)
    } else if id == ACKNACK {
        parse_acknack(b, start, end, flags)
    } else if id == GAP {
        parse_gap(b, start, end, flags)
    } else if id == HEARTBEAT_FRAG {
        parse_heartbeat_frag(b, start, end, flags)
    } else if id == NACK_FRAG {
        parse_nack_frag(b, start, end, flags)
    } else if id == INFO_TS {
        parse_info_ts(b, start, end, flags)
    } else if id == INFO_DST {
        parse_info_dst(b, start, end, flags)
    } else if id == PAD {
        Some(RtpsSubmessageKind::Pad)
    } else {
        None
    }
}

// ---------------------------------------------------------------------------
// Messages
// ---------------------------------------------------------------------------

/// The header of a message: protocol version, vendor and source participant.
#[derive(Clone, Copy, Debug, PartialEq, Eq)]
pub struct RtpsMessageHeader {
    pub version: ProtocolVersionUdp,
    pub vendor_id: VendorIdUdp,
    pub guid_prefix: GuidPrefix,
}

pub open spec fn header_bytes(h: RtpsMessageHeader) -> Seq<u8> {
    seq![82u8, 84u8, 80u8, 83u8, h.version.major, h.version.minor, h.vendor_id.0, h.vendor_id.1] + h.guid_prefix@
}

pub open spec fn header_at(b: Seq<u8>) -> Option<RtpsMessageHeader> {
    if b.len() < 20 || b[0] != 82u8 || b[1] != 84u8 || b[2] != 80u8 || b[3] != 83u8 {
        None
    } else {
        Some(
            RtpsMessageHeader {
                version: ProtocolVersionUdp { major: b[4], minor: b[5] },
                vendor_id: VendorIdUdp(b[6], b[7]),
                guid_prefix: GuidPrefix { bytes: spec_prefix(b.subrange(8, 20)) },
            },
        )
    }
}

/// The array holding the twelve bytes `s`.
pub open spec fn spec_prefix(s: Seq<u8>) -> [u8; 12] {
    choose|a: [u8; 12]| a@ == s
}

/// A message: a header and its submessages.
#[derive(Debug, PartialEq, Eq)]
pub struct RtpsMessage {
    pub header: RtpsMessageHeader,
    pub submessages: Vec<RtpsSubmessageKind>,
}

pub open spec fn views(s: Seq<RtpsSubmessageKind>) -> Seq<SubmessageView> {
    s.map_values(|x: RtpsSubmessageKind| x@)
}

impl RtpsMessage {
    pub fn new(header: RtpsMessageHeader, submessages: Vec<RtpsSubmessageKind>) -> (r: Self)
        ensures
            r.header == header,
            r.submessages@ == submessages@,
    {
        RtpsMessage { header, submessages }
    }
}

/// Reads a message; a missing or wrong header is `BadParameter`.
pub fn parse_message(b: &[u8]) -> (r: Result<RtpsMessage, DdsError>)
    ensures
        match (r, header_at(b@)) {
            (Ok(m), Some(h)) => m.header.version == h.version && m.header.vendor_id == h.vendor_id
                && m.header.guid_prefix@ == h.guid_prefix@ && views(m.submessages@) == submessages_at(b@, 20),
            (Err(e), None) => e == DdsError::BadParameter,
            _ => false,
        },
{
    let n = b.len();
    if n < 20 || b[0] != 82 || b[1] != 84 || b[2] != 80 || b[3] != 83 {
        return Err(DdsError::BadParameter);
    }
    let p: [u8; 12] = [b[8], b[9], b[10], b[11], b[12], b[13], b[14], b[15], b[16], b[17], b[18], b[19]];
    proof {
        assert(p@ =~= b@.subrange(8, 20));
        assert(exists|a: [u8; 12]| a@ == b@.subrange(8, 20));
        assert(spec_prefix(b@.subrange(8, 20))@ == b@.subrange(8, 20));
    }
    let header = RtpsMessageHeader {
        version: ProtocolVersionUdp { major: b[4], minor: b[5] },
        vendor_id: VendorIdUdp(b[6], b[7]),
        guid_prefix: GuidPrefix { bytes: p },
    };
    let mut submessages: Vec<RtpsSubmessageKind> = Vec::new();
    let mut pos: usize = 20;
    while pos <= n && n - pos >= 4
        invariant
            n == b@.len(),
            20 <= pos,
            submessages_at(b@, 20) == views(submessages@) + submessages_at(b@, pos as int),
        decreases n - pos,
    {
        let id = b[pos];
        let flags = b[pos + 1];
        let length = read_u16(b, pos + 2, get_flag(flags, 0)) as usize;
        if n - pos - 4 < length {
            assert(submessages_at(b@, pos as int) =~= Seq::<SubmessageView>::empty());
            assert(submessages_at(b@, n as int) =~= Seq::<SubmessageView>::empty());
            pos = n;
        } else {
        let end = pos + 4 + length;
        let ghost before = views(submessages@);
        match parse_body(b, pos + 4, end, id, flags) {
            Some(s) => {
                submessages.push(s);
                proof {
                    assert(views(submessages@) =~= before.push(s@));
                    assert(before + (seq![s@] + submessages_at(b@, end as int)) =~= views(submessages@) + submessages_at(b@, end as int));
                }
            },
            None => {},
        }
        pos = end;
        }
    }
    proof {
        assert(submessages_at(b@, pos as int) =~= Seq::<SubmessageView>::empty());
        assert(views(submessages@) + seq![] =~= views(submessages@));
    }
    Ok(RtpsMessage { header, submessages })
}

// ---------------------------------------------------------------------------
// Writing: every submessage little-endian
// ---------------------------------------------------------------------------

pub open spec fn qos_part(q: bool, ps: Seq<(u16, Seq<u8>)>) -> Seq<u8> {
    if q {
        params_le(ps)
    } else {
        seq![]
    }
}

pub open spec fn data_le(v: DataView) -> Seq<u8> {
    let body = u16_le(0) + u16_le(16) + v.reader_id.octets() + v.writer_id.octets() + sn_le(v.writer_sn)
        + qos_part(v.inline_qos_flag, v.inline_qos) + v.serialized_payload;
    header_le(DATA, flags_octet(true, v.inline_qos_flag, v.data_flag, v.key_flag, v.non_standard_payload_flag), body.len() as u16)
        + body
}

pub open spec fn heartbeat_le(h: HeartbeatSubmessage) -> Seq<u8> {
    header_le(HEARTBEAT, flags_octet(true, h.final_flag, h.liveliness_flag, false, false), 28) + h.reader_id.octets()
        + h.writer_id.octets() + sn_le(h.first_sn) + sn_le(h.last_sn) + u32_le(i32_bits(h.count))
}

pub open spec fn acknack_le(a: AckNackSubmessage) -> Seq<u8> {
    let body = a.reader_id.octets() + a.writer_id.octets() + snset_le(a.reader_sn_state) + u32_le(i32_bits(a.count));
    header_le(ACKNACK, flags_octet(true, a.final_flag, false, false, false), body.len() as u16) + body
}

pub open spec fn gap_le(g: GapSubmessage) -> Seq<u8> {
    let body = g.reader_id.octets() + g.writer_id.octets() + sn_le(g.gap_start) + snset_le(g.gap_list);
    header_le(GAP, flags_octet(true, false, false, false, false), body.len() as u16) + body
}

pub open spec fn heartbeat_frag_le(h: HeartbeatFragSubmessage) -> Seq<u8> {
    header_le(HEARTBEAT_FRAG, flags_octet(true, false, false, false, false), 24) + h.reader_id.octets()
        + h.writer_id.octets() + sn_le(h.writer_sn) + u32_le(h.last_fragment_num) + u32_le(i32_bits(h.count))
}

pub open spec fn fragset_le(f: FragmentNumberSetUdp) -> Seq<u8> {
    u32_le(f.base) + u32_le(f.num_bits) + words_le(f.bitmap@, (f.num_bits as int + 31) / 32)
}

pub open spec fn nack_frag_le(n: NackFragSubmessage) -> Seq<u8> {
    let body = n.reader_id.octets() + n.writer_id.octets() + sn_le(n.writer_sn) + fragset_le(n.fragment_number_state)
        + u32_le(i32_bits(n.count));
    header_le(NACK_FRAG, flags_octet(true, false, false, false, false), body.len() as u16) + body
}

pub open spec fn info_ts_le(t: InfoTimestampSubmessage) -> Seq<u8> {
    match t.timestamp {
        None => header_le(INFO_TS, flags_octet(true, true, false, false, false), 0),
        Some(ts) => header_le(INFO_TS, flags_octet(true, false, false, false, false), 8) + u32_le(ts.seconds)
            + u32_le(ts.fraction),
    }
}

pub open spec fn info_dst_le(d: InfoDestinationSubmessage) -> Seq<u8> {
    header_le(INFO_DST, flags_octet(true, false, false, false, false), 12) + d.guid_prefix@
}

/// The bytes of a submessage.
pub open spec fn submessage_le(s: &RtpsSubmessageKind) -> Seq<u8> {
    match s {
        RtpsSubmessageKind::AckNack(a) => acknack_le(*a),
        RtpsSubmessageKind::Data(d) => data_le(d@),
        RtpsSubmessageKind::DataFrag(f) => f@.to_le(),
        RtpsSubmessageKind::Gap(g) => gap_le(*g),
        RtpsSubmessageKind::Heartbeat(h) => heartbeat_le(*h),
        RtpsSubmessageKind::HeartbeatFrag(h) => heartbeat_frag_le(*h),
        RtpsSubmessageKind::InfoDestination(d) => info_dst_le(*d),
        RtpsSubmessageKind::InfoTimestamp(t) => info_ts_le(*t),
        RtpsSubmessageKind::NackFrag(n) => nack_frag_le(*n),
        RtpsSubmessageKind::Pad => header_le(PAD, flags_octet(true, false, false, false, false), 0),
    }
}

/// A fragment number set that can be written: at most 256 bits.
pub open spec fn fragset_wf(f: FragmentNumberSetUdp) -> bool {
    f.num_bits <= 256
}

/// Whether a submessage can be written: non-negative sequence numbers, valid parameters
/// and sets, no payload without its flag, and a length that fits in 16 bits.
pub open spec fn writable(s: &RtpsSubmessageKind) -> bool {
    match s {
        RtpsSubmessageKind::AckNack(a) => a.reader_sn_state.wf(),
        RtpsSubmessageKind::Data(d) => {
            &&& d.inline_qos.wf()
            &&& d.writer_sn >= 0
            &&& (!d.inline_qos_flag ==> d.inline_qos@.len() == 0)
            &&& (!(d.data_flag || d.key_flag) ==> d.serialized_payload.0@.len() == 0)
            &&& 20 + (if d.inline_qos_flag { params_len(d.inline_qos@) + 4 } else { 0 }) + d.serialized_payload.0@.len() <= u16::MAX
        },
        RtpsSubmessageKind::DataFrag(f) => f.can_compose(),
        RtpsSubmessageKind::Gap(g) => g.gap_start >= 0 && g.gap_list.wf(),
        RtpsSubmessageKind::Heartbeat(h) => h.first_sn >= 0 && h.last_sn >= 0,
        RtpsSubmessageKind::HeartbeatFrag(h) => h.writer_sn >= 0,
        RtpsSubmessageKind::InfoDestination(_) => true,
        RtpsSubmessageKind::InfoTimestamp(_) => true,
        RtpsSubmessageKind::NackFrag(n) => n.writer_sn >= 0 && fragset_wf(n.fragment_number_state),
        RtpsSubmessageKind::Pad => true,
    }
}

pub proof fn lemma_params_le_len(ps: Seq<(u16, Seq<u8>)>)
    requires
        forall|i: int| 0 <= i < ps.len() ==> crate::messages::param_wf(#[trigger] ps[i]),
    ensures
        params_le(ps).len() == params_len(ps) + 4,
    decreases ps.len(),
{
    if ps.len() > 0 {
        let d = ps.drop_last();
        assert forall|i: int| 0 <= i < d.len() implies crate::messages::param_wf(#[trigger] d[i]) by {
            assert(d[i] == ps[i]);
        }
        lemma_params_le_len(d);
        assert(crate::messages::param_wf(ps[ps.len() - 1]));
    }
}

proof fn lemma_words_le_len(bm: Seq<u32>, m: int)
    requires
        m >= 0,
    ensures
        words_le(bm, m).len() == 4 * m,
    decreases m,
{
    if m > 0 {
        lemma_words_le_len(bm, m - 1);
    }
}

fn push_fragset_le(buf: &mut Vec<u8>, f: &FragmentNumberSetUdp)
    requires
        fragset_wf(*f),
    ensures
        final(buf)@ == old(buf)@ + fragset_le(*f),
{
    let ghost b0 = buf@;
    push_u32_le(buf, f.base);
    push_u32_le(buf, f.num_bits);
    let m = ((f.num_bits + 31) / 32) as usize;
    let mut k: usize = 0;
    while k < m
        invariant
            m == (f.num_bits as int + 31) / 32,
            m <= 8,
            k <= m,
            buf@ == b0 + u32_le(f.base) + u32_le(f.num_bits) + words_le(f.bitmap@, k as int),
        decreases m - k,
    {
        push_u32_le(buf, f.bitmap[k]);
        k += 1;
        assert(buf@ =~= b0 + u32_le(f.base) + u32_le(f.num_bits) + words_le(f.bitmap@, k as int));
    }
    assert(buf@ =~= b0 + fragset_le(*f));
}

fn push_header(buf: &mut Vec<u8>, id: u8, flags: u8, length: u16)
    ensures
        final(buf)@ == old(buf)@ + header_le(id, flags, length),
{
    let ghost b0 = buf@;
    buf.push(id);
    buf.push(flags);
    push_u16_le(buf, length);
    assert(buf@ =~= b0 + header_le(id, flags, length));
}

fn write_ack_nack(buf: &mut Vec<u8>, a: &AckNackSubmessage)
    requires
        a.reader_sn_state.wf(),
    ensures
        final(buf)@ == old(buf)@ + acknack_le(*a),
{
    let ghost b0 = buf@;
    proof {
        lemma_words_le_len(a.reader_sn_state.bitmap@, a.reader_sn_state.num_words());
    }
    let m = ((a.reader_sn_state.num_bits.0 + 31) / 32) as u16;
    push_header(buf, ACKNACK, make_flags(true, a.final_flag, false, false, false), 8 + 12 + 4 * m + 4);
    push_entity(buf, a.reader_id);
    push_entity(buf, a.writer_id);
    push_snset_le(buf, &a.reader_sn_state);
    push_u32_le(buf, to_bits(a.count));
    assert(buf@ =~= b0 + acknack_le(*a));
}

fn write_data(buf: &mut Vec<u8>, d: &DataSubmessage)
    requires
        d.inline_qos.wf(),
        d.writer_sn >= 0,
        20 + (if d.inline_qos_flag { params_len(d.inline_qos@) + 4 } else { 0 }) + d.serialized_payload.0@.len() <= u16::MAX,
    ensures
        final(buf)@ == old(buf)@ + data_le(d@),
{
    let ghost b0 = buf@;
    let ghost v = d@;
    let ghost body = u16_le(0) + u16_le(16) + v.reader_id.octets() + v.writer_id.octets() + sn_le(v.writer_sn)
        + qos_part(v.inline_qos_flag, v.inline_qos) + v.serialized_payload;
    proof {
        assert forall|i: int| 0 <= i < d.inline_qos@.len() implies crate::messages::param_wf(#[trigger] d.inline_qos@[i]) by {
            assert(d.inline_qos.parameter@[i].wf());
        }
        lemma_params_le_len(d.inline_qos@);
    }
    let qos_len: usize = if d.inline_qos_flag {
        d.inline_qos.len() as usize + 4
    } else {
        0
    };
    let length = (20 + qos_len + d.serialized_payload.0.len()) as u16;
    assert(body.len() == length);
    push_header(buf, DATA, make_flags(true, d.inline_qos_flag, d.data_flag, d.key_flag, d.non_standard_payload_flag), length);
    let ghost b1 = buf@;
    push_u16_le(buf, 0);
    push_u16_le(buf, 16);
    push_entity(buf, d.reader_id);
    push_entity(buf, d.writer_id);
    push_sn_le(buf, d.writer_sn);
    let ghost b2 = buf@;
    if d.inline_qos_flag {
        push_params_le(buf, &d.inline_qos);
    }
    assert(buf@ == b2 + qos_part(v.inline_qos_flag, v.inline_qos));
    push_bytes(buf, d.serialized_payload.0.as_slice());
    assert(buf@ =~= b1 + body);
    assert(buf@ =~= b0 + data_le(d@));
}

fn write_gap(buf: &mut Vec<u8>, g: &GapSubmessage)
    requires
        g.gap_start >= 0 && g.gap_list.wf(),
    ensures
        final(buf)@ == old(buf)@ + gap_le(*g),
{
    let ghost b0 = buf@;
    proof {
        lemma_words_le_len(g.gap_list.bitmap@, g.gap_list.num_words());
    }
    let m = ((g.gap_list.num_bits.0 + 31) / 32) as u16;
    push_header(buf, GAP, make_flags(true, false, false, false, false), 16 + 12 + 4 * m);
    push_entity(buf, g.reader_id);
    push_entity(buf, g.writer_id);
    push_sn_le(buf, g.gap_start);
    push_snset_le(buf, &g.gap_list);
    assert(buf@ =~= b0 + gap_le(*g));
}

fn write_heartbeat(buf: &mut Vec<u8>, h: &HeartbeatSubmessage)
    requires
        h.first_sn >= 0 && h.last_sn >= 0,
    ensures
        final(buf)@ == old(buf)@ + heartbeat_le(*h),
{
    let ghost b0 = buf@;
    push_header(buf, HEARTBEAT, make_flags(true, h.final_flag, h.liveliness_flag, false, false), 28);
    push_entity(buf, h.reader_id);
    push_entity(buf, h.writer_id);
    push_sn_le(buf, h.first_sn);
    push_sn_le(buf, h.last_sn);
    push_u32_le(buf, to_bits(h.count));
    assert(buf@ =~= b0 + heartbeat_le(*h));
}

fn write_heartbeat_frag(buf: &mut Vec<u8>, h: &HeartbeatFragSubmessage)
    requires
        h.writer_sn >= 0,
    ensures
        final(buf)@ == old(buf)@ + heartbeat_frag_le(*h),
{
    let ghost b0 = buf@;
    push_header(buf, HEARTBEAT_FRAG, make_flags(true, false, false, false, false), 24);
    push_entity(buf, h.reader_id);
    push_entity(buf, h.writer_id);
    push_sn_le(buf, h.writer_sn);
    push_u32_le(buf, h.last_fragment_num);
    push_u32_le(buf, to_bits(h.count));
    assert(buf@ =~= b0 + heartbeat_frag_le(*h));
}

fn write_info_destination(buf: &mut Vec<u8>, d: &InfoDestinationSubmessage)
    requires
        true,
    ensures
        final(buf)@ == old(buf)@ + info_dst_le(*d),
{
    let ghost b0 = buf@;
    push_header(buf, INFO_DST, make_flags(true, false, false, false, false), 12);
    push_bytes(buf, d.guid_prefix.bytes.as_slice());
    assert(buf@ =~= b0 + info_dst_le(*d));
}

fn write_info_timestamp(buf: &mut Vec<u8>, t: &InfoTimestampSubmessage)
    requires
        true,
    ensures
        final(buf)@ == old(buf)@ + info_ts_le(*t),
{
    let ghost b0 = buf@;
    match t.timestamp {
        None => {
            push_header(buf, INFO_TS, make_flags(true, true, false, false, false), 0);
        },
        Some(ts) => {
            push_header(buf, INFO_TS, make_flags(true, false, false, false, false), 8);
            push_u32_le(buf, ts.seconds);
            push_u32_le(buf, ts.fraction);
            assert(buf@ =~= b0 + info_ts_le(*t));
        },
    }
}

fn write_nack_frag(buf: &mut Vec<u8>, n: &NackFragSubmessage)
    requires
        n.writer_sn >= 0 && fragset_wf(n.fragment_number_state),
    ensures
        final(buf)@ == old(buf)@ + nack_frag_le(*n),
{
    let ghost b0 = buf@;
    proof {
        lemma_words_le_len(n.fragment_number_state.bitmap@, (n.fragment_number_state.num_bits as int + 31) / 32);
    }
    let m = ((n.fragment_number_state.num_bits + 31) / 32) as u16;
    push_header(buf, NACK_FRAG, make_flags(true, false, false, false, false), 16 + 8 + 4 * m + 4);
    push_entity(buf, n.reader_id);
    push_entity(buf, n.writer_id);
    push_sn_le(buf, n.writer_sn);
    push_fragset_le(buf, &n.fragment_number_state);
    push_u32_le(buf, to_bits(n.count));
    assert(buf@ =~= b0 + nack_frag_le(*n));
}

/// Writes one submessage, header included, little-endian.
pub fn write_submessage(buf: &mut Vec<u8>, s: &RtpsSubmessageKind)
    requires
        writable(s),
    ensures
        final(buf)@ == old(buf)@ + submessage_le(s),
{
    match s {
        RtpsSubmessageKind::AckNack(a) => write_ack_nack(buf, a),
        RtpsSubmessageKind::Data(d) => write_data(buf, d),
        RtpsSubmessageKind::DataFrag(f) => f.compose(buf),
        RtpsSubmessageKind::Gap(g) => write_gap(buf, g),
        RtpsSubmessageKind::Heartbeat(h) => write_heartbeat(buf, h),
        RtpsSubmessageKind::HeartbeatFrag(h) => write_heartbeat_frag(buf, h),
        RtpsSubmessageKind::InfoDestination(d) => write_info_destination(buf, d),
        RtpsSubmessageKind::InfoTimestamp(t) => write_info_timestamp(buf, t),
        RtpsSubmessageKind::NackFrag(n) => write_nack_frag(buf, n),
        RtpsSubmessageKind::Pad => push_header(buf, PAD, make_flags(true, false, false, false, false), 0),
    }
}

fn params_writable(ps: &ParameterListUdp) -> (r: bool)
    ensures
        r == ps.wf(),
{
    let mut i: usize = 0;
    while i < ps.parameter.len()
        invariant
            i <= ps.parameter@.len(),
            forall|k: int| 0 <= k < i ==> (#[trigger] ps.parameter@[k]).wf(),
        decreases ps.parameter@.len() - i,
    {
        let p = &ps.parameter[i];
        if !(p.parameter_id != crate::messages::PID_SENTINEL && p.value.0.len() <= 32767 && p.length as usize == p.value.0.len() && p.length >= 0) {
            return false;
        }
        i += 1;
    }
    true
}

/// Whether a body of `fixed` bytes, the parameters when `q`, and `payload` bytes fits a
/// 16-bit length.
fn body_fits(ps: &ParameterListUdp, q: bool, fixed: u64, payload: usize) -> (r: bool)
    requires
        ps.wf(),
        fixed <= 32,
    ensures
        r == (fixed + (if q { params_len(ps@) + 4 } else { 0 }) + payload <= u16::MAX),
{
    if payload > 65535 {
        proof {
            if q {
                crate::messages::lemma_params_len_prefix(ps@, 0);
            }
        }
        return false;
    }
    if !q {
        return fixed + payload as u64 <= 65535;
    }
    let mut total: u64 = 0;
    let mut i: usize = 0;
    while i < ps.parameter.len()
        invariant
            q,
            fixed <= 32,
            payload <= 65535,
            i <= ps.parameter@.len(),
            ps.wf(),
            total == params_len(ps@.subrange(0, i as int)),
            total <= 65535 + 32771,
        decreases ps.parameter@.len() - i,
    {
        proof {
            assert(ps@.subrange(0, i + 1).drop_last() =~= ps@.subrange(0, i as int));
            assert(ps.parameter@[i as int].wf());
        }
        if total > 65535 {
            proof {
                crate::messages::lemma_params_len_prefix(ps@, i as int);
                assert(params_len(ps@) >= total);
            }
            return false;
        }
        total = total + 4 + ps.parameter[i].value.0.len() as u64;
        i += 1;
    }
    assert(ps@.subrange(0, i as int) =~= ps@);
    fixed + total + 4 + payload as u64 <= 65535
}

/// Whether `write_submessage` can write `s`.
pub fn is_writable(s: &RtpsSubmessageKind) -> (r: bool)
    ensures
        r == writable(s),
{
    match s {
        RtpsSubmessageKind::AckNack(a) => {
            let set = &a.reader_sn_state;
            set.num_bits.0 <= 256 && crate::writer::words_clear(set)
        },
        RtpsSubmessageKind::Data(d) => {
            params_writable(&d.inline_qos) && d.writer_sn >= 0 && (d.inline_qos_flag || d.inline_qos.parameter.len()
                == 0) && (d.data_flag || d.key_flag || d.serialized_payload.0.len() == 0) && body_fits(
                &d.inline_qos,
                d.inline_qos_flag,
                20,
                d.serialized_payload.0.len(),
            )
        },
        RtpsSubmessageKind::DataFrag(f) => {
            params_writable(&f.inline_qos) && f.writer_sn >= 0 && (f.inline_qos_flag || f.inline_qos.parameter.len()
                == 0) && body_fits(&f.inline_qos, f.inline_qos_flag, 32, f.serialized_payload.0.len())
        },
        RtpsSubmessageKind::Gap(g) => g.gap_start >= 0 && g.gap_list.num_bits.0 <= 256 && crate::writer::words_clear(&g.gap_list),
        RtpsSubmessageKind::Heartbeat(h) => h.first_sn >= 0 && h.last_sn >= 0,
        RtpsSubmessageKind::HeartbeatFrag(h) => h.writer_sn >= 0,
        RtpsSubmessageKind::InfoDestination(_) => true,
        RtpsSubmessageKind::InfoTimestamp(_) => true,
        RtpsSubmessageKind::NackFrag(n) => n.writer_sn >= 0 && n.fragment_number_state.num_bits <= 256,
        RtpsSubmessageKind::Pad => true,
    }
}

/// The bytes of submessages in order.
pub open spec fn submessages_le(s: Seq<RtpsSubmessageKind>) -> Seq<u8>
    decreases s.len(),
{
    if s.len() == 0 {
        seq![]
    } else {
        submessages_le(s.drop_last()) + submessage_le(&s.last())
    }
}

/// Writes a message: the header, then each submessage.
pub fn write_message(m: &RtpsMessage) -> (r: Vec<u8>)
    requires
        forall|i: int| 0 <= i < m.submessages@.len() ==> writable(#[trigger] &m.submessages@[i]),
    ensures
        r@ == header_bytes(m.header) + submessages_le(m.submessages@),
{
    let mut buf: Vec<u8> = Vec::new();
    buf.push(82);
    buf.push(84);
    buf.push(80);
    buf.push(83);
    buf.push(m.header.version.major);
    buf.push(m.header.version.minor);
    buf.push(m.header.vendor_id.0);
    buf.push(m.header.vendor_id.1);
    push_bytes(&mut buf, m.header.guid_prefix.bytes.as_slice());
    assert(buf@ =~= header_bytes(m.header));
    let mut i: usize = 0;
    while i < m.submessages.len()
        invariant
            i <= m.submessages@.len(),
            forall|j: int| 0 <= j < m.submessages@.len() ==> writable(#[trigger] &m.submessages@[j]),
            buf@ == header_bytes(m.header) + submessages_le(m.submessages@.subrange(0, i as int)),
        decreases m.submessages@.len() - i,
    {
        assert(writable(&m.submessages@[i as int]));
        write_submessage(&mut buf, &m.submessages[i]);
        proof {
            let pre = m.submessages@.subrange(0, i + 1);
            assert(pre.drop_last() =~= m.submessages@.subrange(0, i as int));
            assert(pre.last() == m.submessages@[i as int]);
        }
        i += 1;
        assert(buf@ =~= header_bytes(m.header) + submessages_le(m.submessages@.subrange(0, i as int)));
    }
    assert(m.submessages@.subrange(0, i as int) =~= m.submessages@);
    buf
}

} // verus!
