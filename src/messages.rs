use vstd::prelude::*;

use crate::elements::{
    push_sn_le, push_u16_le, push_u32_le, read_sn, read_u16, read_u32, sn_at, sn_le, u16_at, u16_le,
    u32_at, u32_le,
};
use crate::elements::{SequenceNumberSetUdp, TimeUdp};
use crate::types::{EntityId, GuidPrefix};

verus! {

/// Submessage ids.
pub const PAD: u8 = 0x01;
pub const ACKNACK: u8 = 0x06;
pub const HEARTBEAT: u8 = 0x07;
pub const GAP: u8 = 0x08;
pub const INFO_TS: u8 = 0x09;
pub const INFO_SRC: u8 = 0x0c;
pub const INFO_REPLY_IP4: u8 = 0x0d;
pub const INFO_DST: u8 = 0x0e;
pub const INFO_REPLY: u8 = 0x0f;
pub const NACK_FRAG: u8 = 0x12;
pub const HEARTBEAT_FRAG: u8 = 0x13;
pub const DATA: u8 = 0x15;
pub const DATA_FRAG: u8 = 0x16;

/// Parameter id that ends a parameter list.
pub const PID_SENTINEL: u16 = 1;

// ---------------------------------------------------------------------------
// Parameter lists
// ---------------------------------------------------------------------------

/// Raw bytes of a parameter value.
#[derive(Clone, Debug, PartialEq, Eq)]
pub struct VectorUdp(pub Vec<u8>);

/// One parameter: id, length and value.
#[derive(Clone, Debug, PartialEq, Eq)]
pub struct ParameterUdp {
    pub parameter_id: u16,
    pub length: i16,
    pub value: VectorUdp,
}

impl View for ParameterUdp {
    type V = (u16, Seq<u8>);

    open spec fn view(&self) -> (u16, Seq<u8>) {
        (self.parameter_id, self.value.0@)
    }
}

/// A parameter that can travel: its length field is its value's length and it is no sentinel.
pub open spec fn param_wf(p: (u16, Seq<u8>)) -> bool {
    p.0 != PID_SENTINEL && p.1.len() <= 32767
}

impl ParameterUdp {
    pub open spec fn wf(&self) -> bool {
        self.length as int == self.value.0@.len() && param_wf(self@)
    }

    pub fn new(parameter_id: u16, value: VectorUdp) -> (r: Self)
        requires
            value.0@.len() <= 32767,
        ensures
            r.parameter_id == parameter_id,
            r.length as int == value.0@.len(),
            r.value.0@ == value.0@,
    {
        let length = value.0.len() as i16;
        ParameterUdp { parameter_id, length, value }
    }

    /// Serialized length: id, length field and value.
    pub fn len(&self) -> (r: u16)
        requires
            self.value.0@.len() <= 65531,
        ensures
            r == 4 + self.value.0@.len(),
    {
        4 + self.value.0.len() as u16
    }
}

/// A list of parameters; on the wire it ends with a sentinel.
#[derive(Clone, Debug, PartialEq, Eq)]
pub struct ParameterListUdp {
    pub parameter: Vec<ParameterUdp>,
}

pub open spec fn params_view(ps: Seq<ParameterUdp>) -> Seq<(u16, Seq<u8>)> {
    ps.map_values(|p: ParameterUdp| p@)
}

impl View for ParameterListUdp {
    type V = Seq<(u16, Seq<u8>)>;

    open spec fn view(&self) -> Seq<(u16, Seq<u8>)> {
        params_view(self.parameter@)
    }
}

/// Sum of the serialized lengths of the parameters, sentinel excluded.
pub open spec fn params_len(ps: Seq<(u16, Seq<u8>)>) -> int
    decreases ps.len(),
{
    if ps.len() == 0 {
        0
    } else {
        params_len(ps.drop_last()) + 4 + ps.last().1.len()
    }
}

impl ParameterListUdp {
    pub open spec fn wf(&self) -> bool {
        forall|i: int| 0 <= i < self.parameter@.len() ==> (#[trigger] self.parameter@[i]).wf()
    }

    pub fn new() -> (r: Self)
        ensures
            r@ == Seq::<(u16, Seq<u8>)>::empty(),
    {
        let r = ParameterListUdp { parameter: Vec::new() };
        assert(r@ =~= Seq::<(u16, Seq<u8>)>::empty());
        r
    }

    /// Serialized length of the parameters, sentinel excluded.
    pub fn len(&self) -> (r: u16)
        requires
            params_len(self@) <= u16::MAX,
        ensures
            r == params_len(self@),
    {
        let mut total: u16 = 0;
        let mut i: usize = 0;
        while i < self.parameter.len()
            invariant
                i <= self.parameter@.len(),
                params_len(self@) <= u16::MAX,
                total == params_len(self@.subrange(0, i as int)),
            decreases self.parameter@.len() - i,
        {
            proof {
                assert(self@.subrange(0, i + 1).drop_last() =~= self@.subrange(0, i as int));
                lemma_params_len_prefix(self@, i + 1);
            }
            total = total + 4 + self.parameter[i].value.0.len() as u16;
            i += 1;
        }
        assert(self@.subrange(0, i as int) =~= self@);
        total
    }
}

pub proof fn lemma_params_len_prefix(ps: Seq<(u16, Seq<u8>)>, k: int)
    requires
        0 <= k <= ps.len(),
    ensures
        params_len(ps.subrange(0, k)) <= params_len(ps),
        params_len(ps.subrange(0, k)) >= 0,
    decreases ps.len() - k,
{
    if k < ps.len() {
        lemma_params_len_prefix(ps, k + 1);
        assert(ps.subrange(0, k + 1).drop_last() =~= ps.subrange(0, k));
    } else {
        assert(ps.subrange(0, k) =~= ps);
    }
    lemma_params_len_nonneg(ps.subrange(0, k));
}

proof fn lemma_params_len_nonneg(ps: Seq<(u16, Seq<u8>)>)
    ensures
        params_len(ps) >= 0,
    decreases ps.len(),
{
    if ps.len() > 0 {
        lemma_params_len_nonneg(ps.drop_last());
    }
}

pub open spec fn param_le(p: (u16, Seq<u8>)) -> Seq<u8> {
    u16_le(p.0) + u16_le(p.1.len() as u16) + p.1
}

pub open spec fn sentinel_le() -> Seq<u8> {
    seq![1u8, 0u8, 0u8, 0u8]
}

/// Serialized parameters without the sentinel.
pub open spec fn params_body_le(ps: Seq<(u16, Seq<u8>)>) -> Seq<u8>
    decreases ps.len(),
{
    if ps.len() == 0 {
        seq![]
    } else {
        params_body_le(ps.drop_last()) + param_le(ps.last())
    }
}

/// Serialized parameter list, sentinel included.
pub open spec fn params_le(ps: Seq<(u16, Seq<u8>)>) -> Seq<u8> {
    params_body_le(ps) + sentinel_le()
}

/// The parameter list at `i`, and the position after its sentinel; `None` where a
/// parameter runs past the end, has a negative length, or no sentinel comes.
pub open spec fn params_at(b: Seq<u8>, i: int, le: bool) -> Option<(Seq<(u16, Seq<u8>)>, int)>
    decreases b.len() - i,
{
    if i < 0 || i + 4 > b.len() {
        None
    } else {
        let pid = u16_at(b, i, le);
        let len = u16_at(b, i + 2, le) as int;
        if pid == PID_SENTINEL {
            Some((seq![], i + 4))
        } else if len > 32767 || i + 4 + len > b.len() {
            None
        } else {
            match params_at(b, i + 4 + len, le) {
                Some((ps, e)) => Some((seq![(pid, b.subrange(i + 4, i + 4 + len))] + ps, e)),
                None => None,
            }
        }
    }
}

pub fn push_params_le(buf: &mut Vec<u8>, ps: &ParameterListUdp)
    requires
        ps.wf(),
    ensures
        final(buf)@ == old(buf)@ + params_le(ps@),
{
    let ghost b0 = buf@;
    let mut i: usize = 0;
    while i < ps.parameter.len()
        invariant
            ps.wf(),
            i <= ps.parameter@.len(),
            buf@ == b0 + params_body_le(ps@.subrange(0, i as int)),
        decreases ps.parameter@.len() - i,
    {
        let p = &ps.parameter[i];
        assert(p.wf());
        push_u16_le(buf, p.parameter_id);
        push_u16_le(buf, p.value.0.len() as u16);
        let mut k: usize = 0;
        let ghost b1 = buf@;
        while k < p.value.0.len()
            invariant
                k <= p.value.0@.len(),
                buf@ == b1 + p.value.0@.subrange(0, k as int),
            decreases p.value.0@.len() - k,
        {
            buf.push(p.value.0[k]);
            k += 1;
            assert(buf@ =~= b1 + p.value.0@.subrange(0, k as int));
        }
        proof {
            assert(p.value.0@.subrange(0, k as int) =~= p.value.0@);
            let pre = ps@.subrange(0, i + 1);
            assert(pre.drop_last() =~= ps@.subrange(0, i as int));
            assert(pre.last() == p@);
        }
        i += 1;
        assert(buf@ =~= b0 + params_body_le(ps@.subrange(0, i as int)));
    }
    assert(ps@.subrange(0, i as int) =~= ps@);
    buf.push(1);
    buf.push(0);
    buf.push(0);
    buf.push(0);
    assert(buf@ =~= b0 + params_le(ps@));
}

pub fn copy_bytes(b: &[u8], from: usize, to: usize) -> (r: Vec<u8>)
    requires
        from <= to <= b@.len(),
    ensures
        r@ == b@.subrange(from as int, to as int),
{
    let mut r: Vec<u8> = Vec::new();
    let mut k: usize = from;
    while k < to
        invariant
            from <= k <= to,
            to <= b@.len(),
            r@ == b@.subrange(from as int, k as int),
        decreases to - k,
    {
        r.push(b[k]);
        k += 1;
        assert(r@ =~= b@.subrange(from as int, k as int));
    }
    r
}

pub fn read_params(b: &[u8], i: usize, le: bool) -> (r: Option<(ParameterListUdp, usize)>)
    ensures
        match (r, params_at(b@, i as int, le)) {
            (Some((x, e)), Some((ps, e2))) => x@ == ps && e == e2 && x.wf(),
            (None, None) => true,
            _ => false,
        },
{
    let n = b.len();
    let mut list: Vec<ParameterUdp> = Vec::new();
    let mut pos: usize = i;
    while pos <= n && n - pos >= 4
        invariant
            n == b@.len(),
            forall|j: int| 0 <= j < list@.len() ==> (#[trigger] list@[j]).wf(),
            params_at(b@, i as int, le) == match params_at(b@, pos as int, le) {
                Some((ps, e)) => Some((params_view(list@) + ps, e)),
                None => None::<(Seq<(u16, Seq<u8>)>, int)>,
            },
        decreases n - pos,
    {
        let pid = read_u16(b, pos, le);
        let len = read_u16(b, pos + 2, le) as usize;
        if pid == PID_SENTINEL {
            let r = ParameterListUdp { parameter: list };
            assert(params_view(list@) + seq![] =~= params_view(list@));
            return Some((r, pos + 4));
        }
        if len > 32767 || n - pos - 4 < len {
            return None;
        }
        let value = copy_bytes(b, pos + 4, pos + 4 + len);
        let p = ParameterUdp { parameter_id: pid, length: len as i16, value: VectorUdp(value) };
        let ghost old_list = list@;
        list.push(p);
        proof {
            assert(params_view(list@) =~= params_view(old_list).push(p@));
            match params_at(b@, (pos + 4 + len) as int, le) {
                Some((ps, e)) => {
                    assert(params_view(old_list) + (seq![p@] + ps) =~= params_view(list@) + ps);
                },
                None => {},
            }
        }
        pos = pos + 4 + len;
    }
    None
}

// ---------------------------------------------------------------------------
// Submessage header
// ---------------------------------------------------------------------------

pub open spec fn header_le(id: u8, flags: u8, length: u16) -> Seq<u8> {
    seq![id, flags] + u16_le(length)
}

/// The flags octet of a submessage: bit `i` of the result is `flags[i]`.
pub open spec fn flags_octet(f0: bool, f1: bool, f2: bool, f3: bool, f4: bool) -> u8 {
    ((if f0 { 1int } else { 0 }) + (if f1 { 2int } else { 0 }) + (if f2 { 4int } else { 0 }) + (
    if f3 { 8int } else { 0 }) + (if f4 { 16int } else { 0 })) as u8
}

pub fn make_flags(f0: bool, f1: bool, f2: bool, f3: bool, f4: bool) -> (r: u8)
    ensures
        r == flags_octet(f0, f1, f2, f3, f4),
{
    let mut r: u8 = 0;
    if f0 {
        r = r + 1;
    }
    if f1 {
        r = r + 2;
    }
    if f2 {
        r = r + 4;
    }
    if f3 {
        r = r + 8;
    }
    if f4 {
        r = r + 16;
    }
    r
}

/// Flag `k` of an octet.
pub open spec fn flag(v: u8, k: int) -> bool {
    (v as int / pow2_small(k)) % 2 == 1
}

pub open spec fn pow2_small(k: int) -> int {
    if k == 0 {
        1
    } else if k == 1 {
        2
    } else if k == 2 {
        4
    } else if k == 3 {
        8
    } else {
        16
    }
}

pub fn get_flag(v: u8, k: u8) -> (r: bool)
    requires
        k < 5,
    ensures
        r == flag(v, k as int),
{
    let d: u8 = if k == 0 {
        1
    } else if k == 1 {
        2
    } else if k == 2 {
        4
    } else if k == 3 {
        8
    } else {
        16
    };
    (v / d) % 2 == 1
}

pub proof fn lemma_flags_octet(f0: bool, f1: bool, f2: bool, f3: bool, f4: bool)
    ensures
        flag(flags_octet(f0, f1, f2, f3, f4), 0) == f0,
        flag(flags_octet(f0, f1, f2, f3, f4), 1) == f1,
        flag(flags_octet(f0, f1, f2, f3, f4), 2) == f2,
        flag(flags_octet(f0, f1, f2, f3, f4), 3) == f3,
        flag(flags_octet(f0, f1, f2, f3, f4), 4) == f4,
{
}

// ---------------------------------------------------------------------------
// Fields shared by several submessages
// ---------------------------------------------------------------------------

pub open spec fn entity_at(b: Seq<u8>, i: int) -> EntityId {
    EntityId { key0: b[i], key1: b[i + 1], key2: b[i + 2], kind: b[i + 3] }
}

pub fn read_entity(b: &[u8], i: usize) -> (r: EntityId)
    requires
        i + 4 <= b@.len(),
    ensures
        r == entity_at(b@, i as int),
{
    EntityId { key0: b[i], key1: b[i + 1], key2: b[i + 2], kind: b[i + 3] }
}

pub fn push_entity(buf: &mut Vec<u8>, e: EntityId)
    ensures
        final(buf)@ == old(buf)@ + e.octets(),
{
    buf.push(e.key0);
    buf.push(e.key1);
    buf.push(e.key2);
    buf.push(e.kind);
    assert(final(buf)@ =~= old(buf)@ + e.octets());
}

pub fn push_bytes(buf: &mut Vec<u8>, b: &[u8])
    ensures
        final(buf)@ == old(buf)@ + b@,
{
    let ghost b0 = buf@;
    let mut k: usize = 0;
    while k < b.len()
        invariant
            k <= b@.len(),
            buf@ == b0 + b@.subrange(0, k as int),
        decreases b@.len() - k,
    {
        buf.push(b[k]);
        k += 1;
        assert(buf@ =~= b0 + b@.subrange(0, k as int));
    }
    assert(b@.subrange(0, k as int) =~= b@);
}

/// Serialized payload bytes.
#[derive(Clone, Debug, PartialEq, Eq)]
pub struct SerializedDataUdp(pub Vec<u8>);

impl SerializedDataUdp {
    pub fn len(&self) -> (r: u16)
        requires
            self.0@.len() <= u16::MAX,
        ensures
            r == self.0@.len(),
    {
        self.0.len() as u16
    }
}

// ---------------------------------------------------------------------------
// DATA_FRAG
// ---------------------------------------------------------------------------

/// A fragment of a sample's serialized data.
#[derive(Clone, Debug, PartialEq, Eq)]
pub struct DataFrag {
    pub endianness_flag: bool,
    pub inline_qos_flag: bool,
    pub non_standard_payload_flag: bool,
    pub key_flag: bool,
    pub reader_id: EntityId,
    pub writer_id: EntityId,
    pub writer_sn: i64,
    pub fragment_starting_num: u32,
    pub fragments_in_submessage: u16,
    pub data_size: u32,
    pub fragment_size: u16,
    pub inline_qos: ParameterListUdp,
    pub serialized_payload: SerializedDataUdp,
}

/// What a DATA_FRAG carries, with its lists as sequences.
pub struct DataFragView {
    pub endianness_flag: bool,
    pub inline_qos_flag: bool,
    pub non_standard_payload_flag: bool,
    pub key_flag: bool,
    pub reader_id: EntityId,
    pub writer_id: EntityId,
    pub writer_sn: i64,
    pub fragment_starting_num: u32,
    pub fragments_in_submessage: u16,
    pub data_size: u32,
    pub fragment_size: u16,
    pub inline_qos: Seq<(u16, Seq<u8>)>,
    pub serialized_payload: Seq<u8>,
}

impl View for DataFrag {
    type V = DataFragView;

    open spec fn view(&self) -> DataFragView {
        DataFragView {
            endianness_flag: self.endianness_flag,
            inline_qos_flag: self.inline_qos_flag,
            non_standard_payload_flag: self.non_standard_payload_flag,
            key_flag: self.key_flag,
            reader_id: self.reader_id,
            writer_id: self.writer_id,
            writer_sn: self.writer_sn,
            fragment_starting_num: self.fragment_starting_num,
            fragments_in_submessage: self.fragments_in_submessage,
            data_size: self.data_size,
            fragment_size: self.fragment_size,
            inline_qos: self.inline_qos@,
            serialized_payload: self.serialized_payload.0@,
        }
    }
}

/// Offset from the start of the body to the inline QoS.
pub const DATA_FRAG_FIXED: u16 = 32;

impl DataFragView {
    pub open spec fn qos_len(self) -> int {
        if self.inline_qos_flag {
            params_len(self.inline_qos) + 4
        } else {
            0
        }
    }

    pub open spec fn body_len(self) -> int {
        32 + self.qos_len() + self.serialized_payload.len()
    }

    pub open spec fn flags(self) -> u8 {
        flags_octet(true, self.inline_qos_flag, self.key_flag, self.non_standard_payload_flag, false)
    }

    /// The body, written little-endian.
    pub open spec fn body_le(self) -> Seq<u8> {
        u16_le(0) + u16_le(28) + self.reader_id.octets() + self.writer_id.octets() + sn_le(
            self.writer_sn,
        ) + u32_le(self.fragment_starting_num) + u16_le(self.fragments_in_submessage) + u16_le(
            self.fragment_size,
        ) + u32_le(self.data_size) + (if self.inline_qos_flag {
            params_le(self.inline_qos)
        } else {
            seq![]
        }) + self.serialized_payload
    }

    pub open spec fn to_le(self) -> Seq<u8> {
        header_le(DATA_FRAG, self.flags(), self.body_len() as u16) + self.body_le()
    }
}

/// The DATA_FRAG whose body spans `start..end`, given its flags octet.
pub open spec fn data_frag_body(b: Seq<u8>, start: int, end: int, flags: u8) -> Option<
    DataFragView,
> {
    let le = flag(flags, 0);
    let q = flag(flags, 1);
    if start < 0 || end > b.len() || start + 32 > end {
        None
    } else {
        let qos_start = start + 4 + u16_at(b, start + 2, le) as int;
        if qos_start > end {
            None
        } else {
            let qos = if q {
                params_at(b, qos_start, le)
            } else {
                Some((seq![], qos_start))
            };
            match qos {
                None => None,
                Some((ps, payload_start)) => if payload_start > end {
                    None
                } else {
                    Some(
                        DataFragView {
                            endianness_flag: le,
                            inline_qos_flag: q,
                            key_flag: flag(flags, 2),
                            non_standard_payload_flag: flag(flags, 3),
                            reader_id: entity_at(b, start + 4),
                            writer_id: entity_at(b, start + 8),
                            writer_sn: sn_at(b, start + 12, le),
                            fragment_starting_num: u32_at(b, start + 20, le),
                            fragments_in_submessage: u16_at(b, start + 24, le),
                            fragment_size: u16_at(b, start + 26, le),
                            data_size: u32_at(b, start + 28, le),
                            inline_qos: ps,
                            serialized_payload: b.subrange(payload_start, end),
                        },
                    )
                },
            }
        }
    }
}

/// The DATA_FRAG at the start of `b`, header included.
pub open spec fn data_frag_at(b: Seq<u8>) -> Option<DataFragView> {
    if b.len() < 4 {
        None
    } else {
        let end = 4 + u16_at(b, 2, flag(b[1], 0)) as int;
        data_frag_body(b, 4, end, b[1])
    }
}

impl DataFrag {
    /// Whether the submessage can be written: parameters valid, sizes within a u16 length.
    pub open spec fn can_compose(&self) -> bool {
        &&& self.inline_qos.wf()
        &&& self.writer_sn >= 0
        &&& self@.body_len() <= u16::MAX
        &&& (!self.inline_qos_flag ==> self.inline_qos@.len() == 0)
    }

    pub fn parse_body(b: &[u8], start: usize, end: usize, flags: u8) -> (r: Option<DataFrag>)
        ensures
            match (r, data_frag_body(b@, start as int, end as int, flags)) {
                (Some(x), Some(v)) => x@ == v && x.inline_qos.wf(),
                (None, None) => true,
                _ => false,
            },
    {
        let le = get_flag(flags, 0);
        let q = get_flag(flags, 1);
        if end > b.len() || start > end || end - start < 32 {
            return None;
        }
        let otiq = read_u16(b, start + 2, le) as usize;
        if end - start - 4 < otiq {
            return None;
        }
        let qos_start = start + 4 + otiq;
        let (inline_qos, payload_start) = if q {
            match read_params(b, qos_start, le) {
                Some(x) => x,
                None => {
                    return None;
                },
            }
        } else {
            (ParameterListUdp::new(), qos_start)
        };
        if payload_start > end {
            return None;
        }
        let serialized_payload = SerializedDataUdp(copy_bytes(b, payload_start, end));
        let r = DataFrag {
                endianness_flag: le,
                inline_qos_flag: q,
                key_flag: get_flag(flags, 2),
                non_standard_payload_flag: get_flag(flags, 3),
                reader_id: read_entity(b, start + 4),
                writer_id: read_entity(b, start + 8),
                writer_sn: read_sn(b, start + 12, le),
                fragment_starting_num: read_u32(b, start + 20, le),
                fragments_in_submessage: read_u16(b, start + 24, le),
                fragment_size: read_u16(b, start + 26, le),
                data_size: read_u32(b, start + 28, le),
                inline_qos,
                serialized_payload,
            };
        proof {
            let v = data_frag_body(b@, start as int, end as int, flags)->Some_0;
            assert(r@.inline_qos == v.inline_qos);
            assert(r@.serialized_payload == v.serialized_payload);
            assert(r@.writer_sn == v.writer_sn);
            assert(r@.reader_id == v.reader_id);
        }
        Some(r)
    }

    /// Reads a DATA_FRAG submessage, header included, from the start of `bytes`.
    pub fn parse(bytes: &[u8]) -> (r: Result<DataFrag, crate::types::DdsError>)
        ensures
            match (r, data_frag_at(bytes@)) {
                (Ok(x), Some(v)) => x@ == v,
                (Err(_), None) => true,
                _ => false,
            },
    {
        if bytes.len() < 4 {
            return Err(crate::types::DdsError::BadParameter);
        }
        let le = get_flag(bytes[1], 0);
        let end = 4 + read_u16(bytes, 2, le) as usize;
        match DataFrag::parse_body(bytes, 4, end, bytes[1]) {
            Some(x) => Ok(x),
            None => Err(crate::types::DdsError::BadParameter),
        }
    }

    /// Writes the submessage, header included, in little-endian order.
    pub fn compose(&self, writer: &mut Vec<u8>)
        requires
            self.can_compose(),
        ensures
            final(writer)@ == old(writer)@ + self@.to_le(),
    {
        let ghost w0 = writer@;
        let qos_len: usize = if self.inline_qos_flag {
            self.inline_qos.len() as usize + 4
        } else {
            0
        };
        let length = (32 + qos_len + self.serialized_payload.0.len()) as u16;
        let flags = make_flags(true, self.inline_qos_flag, self.key_flag, self.non_standard_payload_flag, false);
        writer.push(DATA_FRAG);
        writer.push(flags);
        push_u16_le(writer, length);
        push_u16_le(writer, 0);
        push_u16_le(writer, 28);
        push_entity(writer, self.reader_id);
        push_entity(writer, self.writer_id);
        push_sn_le(writer, self.writer_sn);
        push_u32_le(writer, self.fragment_starting_num);
        push_u16_le(writer, self.fragments_in_submessage);
        push_u16_le(writer, self.fragment_size);
        push_u32_le(writer, self.data_size);
        let ghost w1 = writer@;
        if self.inline_qos_flag {
            push_params_le(writer, &self.inline_qos);
        }
        push_bytes(writer, self.serialized_payload.0.as_slice());
        assert(writer@ =~= w0 + self@.to_le());
    }
}

// ---------------------------------------------------------------------------
// Fixed-layout submessages
// ---------------------------------------------------------------------------

/// Positive and negative acknowledgements of a reader.
#[derive(Clone, Copy, Debug, PartialEq, Eq)]
pub struct AckNackSubmessage {
    pub endianness_flag: bool,
    pub final_flag: bool,
    pub reader_id: EntityId,
    pub writer_id: EntityId,
    pub reader_sn_state: SequenceNumberSetUdp,
    pub count: i32,
}

/// A writer announces the sequence numbers it holds.
#[derive(Clone, Copy, Debug, PartialEq, Eq, Structural)]
pub struct HeartbeatSubmessage {
    pub endianness_flag: bool,
    pub final_flag: bool,
    pub liveliness_flag: bool,
    pub reader_id: EntityId,
    pub writer_id: EntityId,
    pub first_sn: i64,
    pub last_sn: i64,
    pub count: i32,
}

/// A writer announces the fragments it holds of one change.
#[derive(Clone, Copy, Debug, PartialEq, Eq, Structural)]
pub struct HeartbeatFragSubmessage {
    pub endianness_flag: bool,
    pub reader_id: EntityId,
    pub writer_id: EntityId,
    pub writer_sn: i64,
    pub last_fragment_num: u32,
    pub count: i32,
}

/// Sequence numbers that are irrelevant to the reader.
#[derive(Clone, Copy, Debug, PartialEq, Eq)]
pub struct GapSubmessage {
    pub endianness_flag: bool,
    pub reader_id: EntityId,
    pub writer_id: EntityId,
    pub gap_start: i64,
    pub gap_list: SequenceNumberSetUdp,
}

/// A set of fragment numbers: base and up to 256 bits, as for sequence numbers.
#[derive(Clone, Copy, Debug, PartialEq, Eq)]
pub struct FragmentNumberSetUdp {
    pub base: u32,
    pub num_bits: u32,
    pub bitmap: [u32; 8],
}

/// A reader asks for missing fragments of one change.
#[derive(Clone, Copy, Debug, PartialEq, Eq)]
pub struct NackFragSubmessage {
    pub endianness_flag: bool,
    pub reader_id: EntityId,
    pub writer_id: EntityId,
    pub writer_sn: i64,
    pub fragment_number_state: FragmentNumberSetUdp,
    pub count: i32,
}

/// Source timestamp of the submessages that follow; `None` when invalidated.
#[derive(Clone, Copy, Debug, PartialEq, Eq, Structural)]
pub struct InfoTimestampSubmessage {
    pub endianness_flag: bool,
    pub timestamp: Option<TimeUdp>,
}

/// The participant the submessages that follow are for.
#[derive(Clone, Copy, Debug, PartialEq, Eq)]
pub struct InfoDestinationSubmessage {
    pub endianness_flag: bool,
    pub guid_prefix: GuidPrefix,
}

/// A sample, or a change of its instance's state, from a writer.
#[derive(Clone, Debug, PartialEq, Eq)]
pub struct DataSubmessage {
    pub endianness_flag: bool,
    pub inline_qos_flag: bool,
    pub data_flag: bool,
    pub key_flag: bool,
    pub non_standard_payload_flag: bool,
    pub reader_id: EntityId,
    pub writer_id: EntityId,
    pub writer_sn: i64,
    pub inline_qos: ParameterListUdp,
    pub serialized_payload: SerializedDataUdp,
}

} // verus!
