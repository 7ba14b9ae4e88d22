use vstd::prelude::*;

use crate::elements::{SequenceNumberSetUdp, TimeUdp};
use crate::history::CacheChange;
use crate::messages::{
    copy_bytes, AckNackSubmessage, DataFrag, DataSubmessage, GapSubmessage, HeartbeatFragSubmessage,
    HeartbeatSubmessage, ParameterListUdp, ParameterUdp, VectorUdp,
};
use crate::types::{ChangeKind, EntityId, Guid, GuidPrefix, InstanceHandle, Locator, ReliabilityKind};

verus! {

/// Status of a change as a reader sees it from one writer.
#[derive(Clone, Copy, PartialEq, Eq, Debug, Structural)]
pub enum ChangeFromWriterStatusKind {
    Lost,
    Missing,
    Received,
    Unknown,
}

/// Why a sample was rejected.
#[derive(Clone, Copy, PartialEq, Eq, Debug, Structural)]
pub enum SampleRejectedStatusKind {
    NotRejected,
    RejectedByInstancesLimit,
    RejectedBySamplesLimit,
    RejectedBySamplesPerInstanceLimit,
}

/// What became of a DATA or DATA_FRAG that reached a stateful reader.
#[derive(Clone, Copy, PartialEq, Eq, Debug)]
pub enum StatefulReaderDataReceivedResult {
    NoMatchedWriterProxy,
    UnexpectedDataSequenceNumber,
    NewSampleAdded(InstanceHandle),
    /// The sample was added and this many sequence numbers before it were skipped.
    NewSampleAddedAndSamplesLost(InstanceHandle, i64),
    SampleRejected(InstanceHandle, SampleRejectedStatusKind),
    InvalidData,
    /// A fragment was stored; the sample is not complete yet.
    FragmentStored,
}

/// Reassembly buffer of one fragmented change.
#[derive(Debug)]
pub struct FragmentBuffer {
    pub writer_guid: Guid,
    pub sequence_number: i64,
    pub data_size: u32,
    pub fragment_size: u16,
    pub data: Vec<u8>,
    pub received: Vec<bool>,
}

/// A stateful reader's record of one matched remote writer.
#[derive(Debug)]
pub struct RtpsWriterProxy {
    pub remote_writer_guid: Guid,
    pub remote_group_entity_id: EntityId,
    pub unicast_locator_list: Vec<Locator>,
    pub multicast_locator_list: Vec<Locator>,
    /// Every change up to this number was received or is irrelevant.
    pub highest_received_seq_num: i64,
    /// The last number a HEARTBEAT announced.
    pub last_available_seq_num: i64,
    pub last_received_heartbeat_count: i32,
    pub last_received_heartbeat_frag_count: i32,
    pub must_send_acknacks: bool,
    /// Count of the next ACKNACK.
    pub acknack_count: i32,
}

impl RtpsWriterProxy {
    pub fn new(
        remote_writer_guid: Guid,
        remote_group_entity_id: EntityId,
        unicast_locator_list: Vec<Locator>,
        multicast_locator_list: Vec<Locator>,
    ) -> (r: Self)
        ensures
            r.remote_writer_guid == remote_writer_guid,
            r.remote_group_entity_id == remote_group_entity_id,
            r.unicast_locator_list@ == unicast_locator_list@,
            r.multicast_locator_list@ == multicast_locator_list@,
            r.highest_received_seq_num == 0,
            r.last_available_seq_num == 0,
            r.last_received_heartbeat_count == 0,
            r.last_received_heartbeat_frag_count == 0,
            !r.must_send_acknacks,
            r.acknack_count == 1,
    {
        RtpsWriterProxy {
            remote_writer_guid,
            remote_group_entity_id,
            unicast_locator_list,
            multicast_locator_list,
            highest_received_seq_num: 0,
            last_available_seq_num: 0,
            last_received_heartbeat_count: 0,
            last_received_heartbeat_frag_count: 0,
            must_send_acknacks: false,
            acknack_count: 1,
        }
    }

    /// The status of change `sn` from this writer.
    pub fn change_status(&self, sn: i64) -> (r: ChangeFromWriterStatusKind)
        ensures
            r == (if sn <= self.highest_received_seq_num {
                ChangeFromWriterStatusKind::Received
            } else if sn <= self.last_available_seq_num {
                ChangeFromWriterStatusKind::Missing
            } else {
                ChangeFromWriterStatusKind::Unknown
            }),
    {
        if sn <= self.highest_received_seq_num {
            ChangeFromWriterStatusKind::Received
        } else if sn <= self.last_available_seq_num {
            ChangeFromWriterStatusKind::Missing
        } else {
            ChangeFromWriterStatusKind::Unknown
        }
    }
}

/// The reader endpoint: its identity, reliability and received changes.
pub struct RtpsReader {
    pub guid: Guid,
    pub reliability: ReliabilityKind,
    pub changes: Vec<CacheChange>,
}

impl RtpsReader {
    pub fn new(guid: Guid, reliability: ReliabilityKind) -> (r: Self)
        ensures
            r.guid == guid,
            r.reliability == reliability,
            r.changes@.len() == 0,
    {
        RtpsReader { guid, reliability, changes: Vec::new() }
    }
}

/// A reader that keeps a proxy per matched writer.
pub struct RtpsStatefulReader {
    reader: RtpsReader,
    matched_writers: Vec<RtpsWriterProxy>,
    frag_buffers: Vec<FragmentBuffer>,
}

/// Index of the first proxy of writer `g`.
pub open spec fn find_writer(ps: Seq<RtpsWriterProxy>, g: (Seq<u8>, EntityId)) -> Option<int> {
    if exists|i: int| 0 <= i < ps.len() && (#[trigger] ps[i]).remote_writer_guid@ == g {
        Some(
            choose|i: int|
                0 <= i < ps.len() && (#[trigger] ps[i]).remote_writer_guid@ == g && forall|j: int|
                    0 <= j < i ==> ps[j].remote_writer_guid@ != g,
        )
    } else {
        None
    }
}

/// `ps` without the proxies of writer `g`, order kept.
pub open spec fn remove_writer(ps: Seq<RtpsWriterProxy>, g: (Seq<u8>, EntityId)) -> Seq<RtpsWriterProxy>
    decreases ps.len(),
{
    if ps.len() == 0 {
        ps
    } else {
        let r = remove_writer(ps.drop_last(), g);
        if ps.last().remote_writer_guid@ == g {
            r
        } else {
            r.push(ps.last())
        }
    }
}

/// All proxies but the one at `i` are the same in `a` and `b`.
pub open spec fn writers_same_but(a: Seq<RtpsWriterProxy>, b: Seq<RtpsWriterProxy>, i: int) -> bool {
    &&& a.len() == b.len()
    &&& forall|j: int| 0 <= j < a.len() && j != i ==> #[trigger] a[j] == b[j]
}

/// Everything but the receive state is the same in `a` and `b`.
pub open spec fn same_writer(a: &RtpsWriterProxy, b: &RtpsWriterProxy) -> bool {
    &&& a.remote_writer_guid == b.remote_writer_guid
    &&& a.remote_group_entity_id == b.remote_group_entity_id
    &&& a.unicast_locator_list@ == b.unicast_locator_list@
    &&& a.multicast_locator_list@ == b.multicast_locator_list@
}

/// The receive state of `a` and `b` is the same, HEARTBEAT_FRAG count aside.
pub open spec fn same_receive_state(a: &RtpsWriterProxy, b: &RtpsWriterProxy) -> bool {
    &&& a.highest_received_seq_num == b.highest_received_seq_num
    &&& a.last_available_seq_num == b.last_available_seq_num
    &&& a.last_received_heartbeat_count == b.last_received_heartbeat_count
    &&& a.must_send_acknacks == b.must_send_acknacks
    &&& a.acknack_count == b.acknack_count
}

/// The kind of change a DATA carries: a sample, or a dispose announced by key alone.
pub open spec fn data_change_kind(data_flag: bool, key_flag: bool) -> ChangeKind {
    if !data_flag && key_flag {
        ChangeKind::NotAliveDisposed
    } else {
        ChangeKind::Alive
    }
}

pub fn copy_params(ps: &ParameterListUdp) -> (r: ParameterListUdp)
    ensures
        r@ == ps@,
        ps.wf() ==> r.wf(),
{
    let mut out: Vec<ParameterUdp> = Vec::new();
    let mut i: usize = 0;
    while i < ps.parameter.len()
        invariant
            i <= ps.parameter@.len(),
            out@.len() == i,
            forall|j: int| 0 <= j < i ==> (#[trigger] out@[j])@ == ps.parameter@[j]@ && out@[j].length
                == ps.parameter@[j].length,
        decreases ps.parameter@.len() - i,
    {
        let p = &ps.parameter[i];
        let value = copy_bytes(p.value.0.as_slice(), 0, p.value.0.len());
        assert(p.value.0@.subrange(0, p.value.0@.len() as int) =~= p.value.0@);
        out.push(ParameterUdp { parameter_id: p.parameter_id, length: p.length, value: VectorUdp(value) });
        i += 1;
    }
    let r = ParameterListUdp { parameter: out };
    assert(r@ =~= ps@);
    r
}

impl RtpsStatefulReader {
    pub closed spec fn writers(&self) -> Seq<RtpsWriterProxy> {
        self.matched_writers@
    }

    pub closed spec fn spec_reader(&self) -> &RtpsReader {
        &self.reader
    }

    /// Every proxy has received up to a non-negative number.
    pub closed spec fn wf(&self) -> bool {
        forall|i: int|
            0 <= i < self.matched_writers@.len() ==> 0 <= (
            #[trigger] self.matched_writers@[i]).highest_received_seq_num
    }

    pub fn new(reader: RtpsReader) -> (r: Self)
        ensures
            r.wf(),
            r.spec_reader() == &reader,
            r.writers().len() == 0,
    {
        RtpsStatefulReader { reader, matched_writers: Vec::new(), frag_buffers: Vec::new() }
    }

    pub fn reader(&self) -> (r: &RtpsReader)
        ensures
            r == self.spec_reader(),
    {
        &self.reader
    }

    fn find_writer_index(&self, guid: &Guid) -> (r: Option<usize>)
        ensures
            match r {
                Some(i) => i < self.writers().len() && find_writer(self.writers(), guid@) == Some(
                    i as int,
                ),
                None => find_writer(self.writers(), guid@).is_none(),
            },
    {
        let mut i: usize = 0;
        while i < self.matched_writers.len()
            invariant
                i <= self.matched_writers@.len(),
                forall|j: int|
                    0 <= j < i ==> (#[trigger] self.matched_writers@[j]).remote_writer_guid@ != guid@,
            decreases self.matched_writers@.len() - i,
        {
            if self.matched_writers[i].remote_writer_guid.equals(guid) {
                proof {
                    let ps = self.matched_writers@;
                    let k = choose|k: int|
                        0 <= k < ps.len() && (#[trigger] ps[k]).remote_writer_guid@ == guid@
                            && forall|j: int| 0 <= j < k ==> ps[j].remote_writer_guid@ != guid@;
                    if k > i {
                        assert(ps[i as int].remote_writer_guid@ != guid@);
                    }
                }
                return Some(i);
            }
            i += 1;
        }
        None
    }

    /// Matches a remote writer, unless it is matched already.
    pub fn matched_writer_add(&mut self, a_writer_proxy: RtpsWriterProxy)
        requires
            old(self).wf(),
            a_writer_proxy.highest_received_seq_num >= 0,
        ensures
            final(self).wf(),
            final(self).spec_reader() == old(self).spec_reader(),
            find_writer(old(self).writers(), a_writer_proxy.remote_writer_guid@).is_some()
                ==> final(self).writers() == old(self).writers(),
            find_writer(old(self).writers(), a_writer_proxy.remote_writer_guid@).is_none()
                ==> final(self).writers() == old(self).writers().push(a_writer_proxy),
    {
        if self.find_writer_index(&a_writer_proxy.remote_writer_guid).is_none() {
            self.matched_writers.push(a_writer_proxy);
        }
    }

    /// Unmatches the remote writer `a_writer_guid`.
    pub fn matched_writer_remove(&mut self, a_writer_guid: Guid)
        requires
            old(self).wf(),
        ensures
            final(self).wf(),
            final(self).spec_reader() == old(self).spec_reader(),
            final(self).writers() == remove_writer(old(self).writers(), a_writer_guid@),
    {
        let mut rest: Vec<RtpsWriterProxy> = Vec::new();
        std::mem::swap(&mut rest, &mut self.matched_writers);
        let ghost all = rest@;
        let ghost total = rest@.len();
        let mut kept: Vec<RtpsWriterProxy> = Vec::new();
        assert(kept@ =~= remove_writer(all.subrange(0, 0), a_writer_guid@));
        while rest.len() > 0
            invariant
                total == all.len(),
                rest@.len() <= total,
                rest@ == all.subrange(total - rest@.len(), total as int),
                kept@ == remove_writer(all.subrange(0, total - rest@.len()), a_writer_guid@),
                forall|j: int| 0 <= j < all.len() ==> 0 <= (#[trigger] all[j]).highest_received_seq_num,
                forall|j: int| 0 <= j < kept@.len() ==> 0 <= (#[trigger] kept@[j]).highest_received_seq_num,
            decreases rest@.len(),
        {
            let ghost k = total - rest@.len();
            let ghost r0 = rest@;
            let p = rest.remove(0);
            proof {
                assert(all[k] == r0[0]);
                assert(rest@ =~= all.subrange(total - rest@.len(), total as int));
                assert(all.subrange(0, k + 1).drop_last() =~= all.subrange(0, k));
                assert(all.subrange(0, k + 1).last() == p);
            }
            if !p.remote_writer_guid.equals(&a_writer_guid) {
                kept.push(p);
            }
        }
        assert(all.subrange(0, total as int) =~= all);
        self.matched_writers = kept;
    }
}

/// `c` is the change a DATA from `prefix` becomes.
pub open spec fn change_from_data(
    c: CacheChange,
    data: &DataSubmessage,
    prefix: GuidPrefix,
    source_timestamp: Option<TimeUdp>,
    instance_handle: InstanceHandle,
) -> bool {
    &&& c.kind == data_change_kind(data.data_flag, data.key_flag)
    &&& c.writer_guid == Guid { prefix, entity_id: data.writer_id }
    &&& c.sequence_number == data.writer_sn
    &&& c.instance_handle == instance_handle
    &&& c.source_timestamp == source_timestamp
    &&& c.data_value@ == data.serialized_payload.0@
    &&& c.inline_qos@ == data.inline_qos@
}

/// Whether a reader of `reliability` that has received up to `hr` takes change `sn`:
/// reliable takes only the next one, best effort any later one.
pub open spec fn accepts(reliability: ReliabilityKind, hr: i64, sn: i64) -> bool {
    match reliability {
        ReliabilityKind::Reliable => sn == hr + 1,
        ReliabilityKind::BestEffort => sn >= hr + 1,
    }
}

/// Highest received after a GAP over `start..base` and the members `ms` of its list.
pub open spec fn gap_advance(hr: i64, start: i64, base: i64, ms: Seq<int>) -> i64
    decreases ms.len(),
{
    if ms.len() == 0 {
        if start <= hr + 1 && base - 1 > hr {
            (base - 1) as i64
        } else {
            hr
        }
    } else {
        let h = gap_advance(hr, start, base, ms.drop_last());
        if ms.last() == h + 1 {
            ms.last() as i64
        } else {
            h
        }
    }
}

/// An ACKNACK a reader sends to a writer.
#[derive(Clone, Copy, Debug, PartialEq, Eq)]
pub struct ReaderSendItem {
    pub writer: usize,
    pub acknack: AckNackSubmessage,
}

/// The last number an ACKNACK from a proxy asks for: what the HEARTBEAT announced, at
/// most 256 numbers past what was received.
pub open spec fn nack_end(p: &RtpsWriterProxy) -> int {
    let top = p.highest_received_seq_num + 256;
    if p.last_available_seq_num < top {
        p.last_available_seq_num as int
    } else {
        top
    }
}

/// Whether a proxy is owed an ACKNACK: one was asked for, and its base is in range.
pub open spec fn owes_acknack(p: &RtpsWriterProxy) -> bool {
    p.must_send_acknacks && p.highest_received_seq_num + 1 + 256 <= i64::MAX
}

/// The ACKNACK a proxy is owed: from the reader, positive up to what was received,
/// negative for the numbers announced since.
pub open spec fn acknack_for(a: &AckNackSubmessage, p: &RtpsWriterProxy, reader_id: EntityId) -> bool {
    &&& a.endianness_flag
    &&& !a.final_flag
    &&& a.reader_id == reader_id
    &&& a.writer_id == p.remote_writer_guid.entity_id
    &&& a.count == p.acknack_count
    &&& a.reader_sn_state.wf()
    &&& a.reader_sn_state.base.value() == p.highest_received_seq_num + 1
    &&& forall|n: int|
        a.reader_sn_state.contains(n) <==> p.highest_received_seq_num + 1 <= n <= nack_end(p)
}

/// Indices of the proxies owed an ACKNACK, ascending.
pub open spec fn acking(ps: Seq<RtpsWriterProxy>) -> Seq<usize>
    decreases ps.len(),
{
    if ps.len() == 0 {
        seq![]
    } else if owes_acknack(&ps.last()) {
        acking(ps.drop_last()).push((ps.len() - 1) as usize)
    } else {
        acking(ps.drop_last())
    }
}

/// The proxy a HEARTBEAT from `prefix` is for: a reliable reader's matched writer, with a newer count.
pub open spec fn heartbeat_target(r: &RtpsStatefulReader, hb: &HeartbeatSubmessage, prefix: GuidPrefix) -> Option<int> {
    if r.spec_reader().reliability != ReliabilityKind::Reliable {
        None
    } else {
        match find_writer(r.writers(), (prefix@, hb.writer_id)) {
            Some(i) => if hb.count > r.writers()[i].last_received_heartbeat_count {
                Some(i)
            } else {
                None
            },
            None => None,
        }
    }
}

/// The proxy a HEARTBEAT_FRAG from `prefix` is for.
pub open spec fn heartbeat_frag_target(
    r: &RtpsStatefulReader,
    hb: &HeartbeatFragSubmessage,
    prefix: GuidPrefix,
) -> Option<int> {
    if r.spec_reader().reliability != ReliabilityKind::Reliable {
        None
    } else {
        match find_writer(r.writers(), (prefix@, hb.writer_id)) {
            Some(i) => if hb.count > r.writers()[i].last_received_heartbeat_frag_count {
                Some(i)
            } else {
                None
            },
            None => None,
        }
    }
}

/// `q` is `p` after a HEARTBEAT: numbers before its first are lost, its last is the last
/// available, so the missing numbers are its range less those received, and an ACKNACK is
/// owed unless it is final and nothing is missing.
pub open spec fn heartbeat_applied(p: &RtpsWriterProxy, q: &RtpsWriterProxy, hb: &HeartbeatSubmessage) -> bool {
    let hr = if hb.first_sn > p.highest_received_seq_num + 1 {
        (hb.first_sn - 1) as i64
    } else {
        p.highest_received_seq_num
    };
    let la = hb.last_sn;
    &&& q.last_received_heartbeat_count == hb.count
    &&& q.highest_received_seq_num == hr
    &&& q.last_available_seq_num == la
    &&& q.must_send_acknacks == (!hb.final_flag || hr < la)
    &&& q.acknack_count == p.acknack_count
}

/// `new` is the reader `old` after the DATA `d` from the participant `prefix`, stamped `ts`, whose key has the handle `h`, with result `r`.
pub open spec fn data_received(old: &RtpsStatefulReader, new: &RtpsStatefulReader, d: &DataSubmessage, prefix: GuidPrefix, ts: Option<TimeUdp>, h: InstanceHandle, r: StatefulReaderDataReceivedResult) -> bool {
    &&& (new.buffers() == old.buffers())
    &&& (new.spec_reader().guid == old.spec_reader().guid)
    &&& (new.spec_reader().reliability == old.spec_reader().reliability)
    &&& (match find_writer(old.writers(), (prefix@, d.writer_id)) {
            None => {
                &&& r == StatefulReaderDataReceivedResult::NoMatchedWriterProxy
                &&& new.writers() == old.writers()
                &&& new.spec_reader().changes@ == old.spec_reader().changes@
            },
            Some(i) => {
                let hr = old.writers()[i].highest_received_seq_num;
                let sn = d.writer_sn;
                if accepts(old.spec_reader().reliability, hr, sn) {
                    &&& new.spec_reader().changes@.len() == old.spec_reader().changes@.len() + 1
                    &&& new.spec_reader().changes@.drop_last() == old.spec_reader().changes@
                    &&& change_from_data(
                        new.spec_reader().changes@.last(),
                        d,
                        prefix,
                        ts,
                        h,
                    )
                    &&& writers_same_but(old.writers(), new.writers(), i)
                    &&& same_writer(&old.writers()[i], &new.writers()[i])
                    &&& new.writers()[i].highest_received_seq_num == sn
                    &&& new.writers()[i].last_available_seq_num == old.writers()[i].last_available_seq_num
                    &&& r == (if sn > hr + 1 {
                        StatefulReaderDataReceivedResult::NewSampleAddedAndSamplesLost(
                            h,
                            (sn - hr - 1) as i64,
                        )
                    } else {
                        StatefulReaderDataReceivedResult::NewSampleAdded(h)
                    })
                } else {
                    &&& r == StatefulReaderDataReceivedResult::UnexpectedDataSequenceNumber
                    &&& new.writers() == old.writers()
                    &&& new.spec_reader().changes@ == old.spec_reader().changes@
                }
            },
        })
}

/// `new` is the reader `old` after the HEARTBEAT `hb` from the participant `prefix`.
pub open spec fn heartbeat_received(old: &RtpsStatefulReader, new: &RtpsStatefulReader, hb: &HeartbeatSubmessage, prefix: GuidPrefix) -> bool {
    &&& (new.buffers() == old.buffers())
    &&& (new.spec_reader() == old.spec_reader())
    &&& (match heartbeat_target(old, hb, prefix) {
            Some(i) => {
                let p = old.writers()[i];
                let q = new.writers()[i];
                &&& writers_same_but(old.writers(), new.writers(), i)
                &&& same_writer(&p, &q)
                &&& heartbeat_applied(&p, &q, hb)
            },
            None => new.writers() == old.writers(),
        })
}

/// `new` is the reader `old` after the HEARTBEAT_FRAG `hb` from the participant `prefix`.
pub open spec fn heartbeat_frag_received(old: &RtpsStatefulReader, new: &RtpsStatefulReader, hb: &HeartbeatFragSubmessage, prefix: GuidPrefix) -> bool {
    &&& (new.buffers() == old.buffers())
    &&& (new.spec_reader() == old.spec_reader())
    &&& (match heartbeat_frag_target(old, hb, prefix) {
            Some(i) => {
                &&& writers_same_but(old.writers(), new.writers(), i)
                &&& new.writers()[i].last_received_heartbeat_frag_count == hb.count
                &&& same_writer(&old.writers()[i], &new.writers()[i])
                &&& same_receive_state(&old.writers()[i], &new.writers()[i])
            },
            None => new.writers() == old.writers(),
        })
}

/// `new` is the reader `old` after the GAP `g` from the participant `prefix`.
pub open spec fn gap_received(old: &RtpsStatefulReader, new: &RtpsStatefulReader, g: &GapSubmessage, prefix: GuidPrefix) -> bool {
    &&& (new.buffers() == old.buffers())
    &&& (new.spec_reader() == old.spec_reader())
    &&& (match find_writer(old.writers(), (prefix@, g.writer_id)) {
            Some(i) => if crate::writer::usable_set(&g.gap_list) {
                let p = old.writers()[i];
                &&& writers_same_but(old.writers(), new.writers(), i)
                &&& same_writer(&p, &new.writers()[i])
                &&& new.writers()[i].highest_received_seq_num == gap_advance(
                    p.highest_received_seq_num,
                    g.gap_start,
                    g.gap_list.base.value() as i64,
                    g.gap_list.members(),
                )
                &&& new.writers()[i].last_available_seq_num == p.last_available_seq_num
            } else {
                new.writers() == old.writers()
            },
            None => new.writers() == old.writers(),
        })
}

impl RtpsStatefulReader {
    /// Takes in a DATA from the participant `source_guid_prefix`; `instance_handle` is the
    /// handle of its key.
    #[verifier::rlimit(60)]
    pub fn on_data_submessage_received(
        &mut self,
        data_submessage: &DataSubmessage,
        source_guid_prefix: GuidPrefix,
        source_timestamp: Option<TimeUdp>,
        instance_handle: InstanceHandle,
    ) -> (r: StatefulReaderDataReceivedResult)
        requires
            old(self).wf(),
        ensures
            final(self).wf(),
            data_received(old(self), final(self), data_submessage, source_guid_prefix, source_timestamp, instance_handle, r),
    {
        let writer_guid = Guid::new(source_guid_prefix, data_submessage.writer_id);
        let found = self.find_writer_index(&writer_guid);
        if found.is_none() {
            return StatefulReaderDataReceivedResult::NoMatchedWriterProxy;
        }
        let i = found.unwrap();
        let hr = self.matched_writers[i].highest_received_seq_num;
        let sn = data_submessage.writer_sn;
        let accepted = match self.reader.reliability {
            ReliabilityKind::Reliable => sn > hr && sn - hr == 1,
            ReliabilityKind::BestEffort => sn > hr,
        };
        if !accepted {
            return StatefulReaderDataReceivedResult::UnexpectedDataSequenceNumber;
        }
        let kind = if !data_submessage.data_flag && data_submessage.key_flag {
            ChangeKind::NotAliveDisposed
        } else {
            ChangeKind::Alive
        };
        let payload = &data_submessage.serialized_payload.0;
        let data_value = copy_bytes(payload.as_slice(), 0, payload.len());
        assert(payload@.subrange(0, payload@.len() as int) =~= payload@);
        let change = CacheChange {
            kind,
            writer_guid,
            sequence_number: sn,
            instance_handle,
            source_timestamp,
            data_value,
            inline_qos: copy_params(&data_submessage.inline_qos),
        };
        let ghost c0 = self.reader.changes@;
        self.reader.changes.push(change);
        assert(self.reader.changes@.drop_last() =~= c0);
        self.matched_writers[i].highest_received_seq_num = sn;
        assert(writers_same_but(old(self).writers(), self.matched_writers@, i as int));
        if sn - hr > 1 {
            StatefulReaderDataReceivedResult::NewSampleAddedAndSamplesLost(instance_handle, sn - hr - 1)
        } else {
            StatefulReaderDataReceivedResult::NewSampleAdded(instance_handle)
        }
    }

    /// Takes in a HEARTBEAT from the participant `source_guid_prefix` (reliable readers only).
    #[verifier::rlimit(60)]
    pub fn on_heartbeat_submessage_received(
        &mut self,
        heartbeat_submessage: &HeartbeatSubmessage,
        source_guid_prefix: GuidPrefix,
    )
        requires
            old(self).wf(),
        ensures
            final(self).wf(),
            heartbeat_received(old(self), final(self), heartbeat_submessage, source_guid_prefix),
    {
        if self.reader.reliability != ReliabilityKind::Reliable {
            return;
        }
        let writer_guid = Guid::new(source_guid_prefix, heartbeat_submessage.writer_id);
        let found = self.find_writer_index(&writer_guid);
        if found.is_none() {
            return;
        }
        let i = found.unwrap();
        if heartbeat_submessage.count <= self.matched_writers[i].last_received_heartbeat_count {
            return;
        }
        let ghost p0 = self.matched_writers@[i as int];
        let first = heartbeat_submessage.first_sn;
        let hr0 = self.matched_writers[i].highest_received_seq_num;
        let hr = if first > hr0 && first - hr0 > 1 {
            first - 1
        } else {
            hr0
        };
        let la = heartbeat_submessage.last_sn;
        let p = &mut self.matched_writers[i];
        p.last_received_heartbeat_count = heartbeat_submessage.count;
        p.highest_received_seq_num = hr;
        p.last_available_seq_num = la;
        p.must_send_acknacks = !heartbeat_submessage.final_flag || hr < la;
        assert(heartbeat_applied(&p0, &self.matched_writers@[i as int], heartbeat_submessage));
        assert(writers_same_but(old(self).writers(), self.matched_writers@, i as int));
    }

    /// Takes in a HEARTBEAT_FRAG from the participant `source_guid_prefix`.
    pub fn on_heartbeat_frag_submessage_received(
        &mut self,
        heartbeat_frag_submessage: &HeartbeatFragSubmessage,
        source_guid_prefix: GuidPrefix,
    )
        requires
            old(self).wf(),
        ensures
            final(self).wf(),
            heartbeat_frag_received(old(self), final(self), heartbeat_frag_submessage, source_guid_prefix),
    {
        if self.reader.reliability != ReliabilityKind::Reliable {
            return;
        }
        let writer_guid = Guid::new(source_guid_prefix, heartbeat_frag_submessage.writer_id);
        let found = self.find_writer_index(&writer_guid);
        if found.is_none() {
            return;
        }
        let i = found.unwrap();
        if heartbeat_frag_submessage.count <= self.matched_writers[i].last_received_heartbeat_frag_count {
            return;
        }
        self.matched_writers[i].last_received_heartbeat_frag_count = heartbeat_frag_submessage.count;
        assert(writers_same_but(old(self).writers(), self.matched_writers@, i as int));
    }

    /// Takes in a GAP from the participant `source_guid_prefix`: the numbers it lists no
    /// longer hold back later changes.
    #[verifier::rlimit(80)]
    pub fn on_gap_submessage_received(&mut self, gap_submessage: &GapSubmessage, source_guid_prefix: GuidPrefix)
        requires
            old(self).wf(),
        ensures
            final(self).wf(),
            gap_received(old(self), final(self), gap_submessage, source_guid_prefix),
    {
        let writer_guid = Guid::new(source_guid_prefix, gap_submessage.writer_id);
        let found = self.find_writer_index(&writer_guid);
        if found.is_none() {
            return;
        }
        let i = found.unwrap();
        let set = &gap_submessage.gap_list;
        let base = set.base.get();
        if !(set.num_bits.0 <= 256 && base >= 1 && base <= i64::MAX - 256 && words_clear(set)) {
            return;
        }
        let members = set.set();
        let ghost p0 = self.matched_writers@[i as int];
        let mut h = self.matched_writers[i].highest_received_seq_num;
        let start = gap_submessage.gap_start;
        if start <= h || start - h == 1 {
            if base - 1 > h {
                h = base - 1;
            }
        }
        proof {
            set.lemma_members_upto(set.num_bits.0 as int);
            assert(gap_advance(p0.highest_received_seq_num, start, base, set.members().subrange(0, 0)) == h);
        }
        let mut k: usize = 0;
        while k < members.len()
            invariant
                k <= members@.len(),
                members@.len() == set.members().len(),
                forall|j: int| 0 <= j < members@.len() ==> members@[j] as int == #[trigger] set.members()[j],
                forall|j: int| 0 <= j < set.members().len() ==> base <= #[trigger] set.members()[j] < base + 256,
                base >= 1,
                base <= i64::MAX - 256,
                h >= 0,
                h == gap_advance(p0.highest_received_seq_num, start, base, set.members().subrange(0, k as int)),
            decreases members@.len() - k,
        {
            assert(set.members().subrange(0, k + 1).drop_last() =~= set.members().subrange(0, k as int));
            let m = members[k];
            if m > h && m - h == 1 {
                h = m;
            }
            k += 1;
        }
        assert(set.members().subrange(0, k as int) =~= set.members());
        self.matched_writers[i].highest_received_seq_num = h;
        proof {
            assert(writers_same_but(old(self).writers(), self.matched_writers@, i as int));
            assert forall|j: int| 0 <= j < self.matched_writers@.len() implies 0 <= (#[trigger] self.matched_writers@[j]).highest_received_seq_num by {
                if j != i {
                    assert(self.matched_writers@[j] == old(self).writers()[j]);
                }
            }
        }
    }

    /// The ACKNACKs owed to matched writers; each is sent once.
    #[verifier::rlimit(100)]
    pub fn send_message(&mut self) -> (r: Vec<ReaderSendItem>)
        requires
            old(self).wf(),
        ensures
            final(self).wf(),
            final(self).spec_reader() == old(self).spec_reader(),
            r@.len() == acking(old(self).writers()).len(),
            forall|j: int|
                0 <= j < r@.len() ==> {
                    let i = acking(old(self).writers())[j];
                    &&& #[trigger] r@[j].writer == i
                    &&& acknack_for(&r@[j].acknack, &old(self).writers()[i as int], old(self).spec_reader().guid.entity_id)
                },
            final(self).writers().len() == old(self).writers().len(),
            forall|i: int|
                0 <= i < old(self).writers().len() ==> {
                    let p = old(self).writers()[i];
                    let q = #[trigger] final(self).writers()[i];
                    &&& same_writer(&p, &q)
                    &&& q.highest_received_seq_num == p.highest_received_seq_num
                    &&& q.last_available_seq_num == p.last_available_seq_num
                    &&& q.must_send_acknacks == (p.must_send_acknacks && !owes_acknack(&p))
                    &&& q.acknack_count == (if owes_acknack(&p) {
                        crate::writer::next_count(p.acknack_count)
                    } else {
                        p.acknack_count
                    })
                },
    {
        let mut out: Vec<ReaderSendItem> = Vec::new();
        let n = self.matched_writers.len();
        let ghost ps0 = self.matched_writers@;
        let reader_id = self.reader.guid.entity_id;
        let mut i: usize = 0;
        while i < n
            invariant
                n == ps0.len(),
                i <= n,
                ps0 == old(self).matched_writers@,
                self.reader == old(self).reader,
                reader_id == self.reader.guid.entity_id,
                self.matched_writers@.len() == n,
                forall|j: int| 0 <= j < n ==> 0 <= (#[trigger] ps0[j]).highest_received_seq_num,
                forall|j: int| i <= j < n ==> #[trigger] self.matched_writers@[j] == ps0[j],
                forall|j: int|
                    0 <= j < i ==> {
                        let p = ps0[j];
                        let q = #[trigger] self.matched_writers@[j];
                        &&& same_writer(&p, &q)
                        &&& q.highest_received_seq_num == p.highest_received_seq_num
                        &&& q.last_available_seq_num == p.last_available_seq_num
                        &&& q.must_send_acknacks == (p.must_send_acknacks && !owes_acknack(&p))
                        &&& q.acknack_count == (if owes_acknack(&p) {
                            crate::writer::next_count(p.acknack_count)
                        } else {
                            p.acknack_count
                        })
                    },
                acks_ok(out@, acking(ps0.subrange(0, i as int)), ps0, reader_id, i as int),
            decreases n - i,
        {
            proof {
                assert(ps0.subrange(0, i + 1).drop_last() =~= ps0.subrange(0, i as int));
                assert(ps0.subrange(0, i + 1).last() == ps0[i as int]);
                lemma_acking_bound(ps0.subrange(0, i as int));
            }
            let ghost pre = ps0.subrange(0, i as int);
            assert(acking(ps0.subrange(0, i + 1)) == if owes_acknack(&ps0[i as int]) {
                acking(pre).push(i)
            } else {
                acking(pre)
            });
            let ghost out0 = out@;
            let mut p = self.matched_writers.remove(i);
            let ghost p0 = p;
            assert(p0 == ps0[i as int]);
            let hr = p.highest_received_seq_num;
            if p.must_send_acknacks && hr <= i64::MAX - 257 {
                let base = hr + 1;
                let top = if p.last_available_seq_num < hr + 256 { p.last_available_seq_num } else { hr + 256 };
                let mut missing: Vec<i64> = Vec::new();
                let mut s = base;
                while s <= top && base <= top
                    invariant
                        base == hr + 1,
                        base <= s,
                        s <= top + 1 || s == base,
                        top <= hr + 256,
                        hr <= i64::MAX - 257,
                        missing@.len() == s - base,
                        forall|j: int| 0 <= j < missing@.len() ==> #[trigger] missing@[j] == base + j,
                    decreases top + 1 - s,
                {
                    missing.push(s);
                    s += 1;
                }
                let set = SequenceNumberSetUdp::new(&base, missing.as_slice());
                proof {
                    assert forall|m: int| set.contains(m) <==> base <= m <= top by {
                        if base <= m <= top {
                            assert(missing@[m - base] == m);
                            assert(set.contains((m as i64) as int));
                        }
                        if set.contains(m) {
                            assert(base <= m < base + 256);
                            assert(set.contains((m as i64) as int));
                            let j = choose|j: int| 0 <= j < missing@.len() && missing@[j] == m as i64;
                        }
                    }
                }
                let acknack = AckNackSubmessage {
                    endianness_flag: true,
                    final_flag: false,
                    reader_id,
                    writer_id: p.remote_writer_guid.entity_id,
                    reader_sn_state: set,
                    count: p.acknack_count,
                };
                out.push(ReaderSendItem { writer: i, acknack });
                p.acknack_count = crate::writer::increment_count(p.acknack_count);
                p.must_send_acknacks = false;
                proof {
                    let ac = acking(ps0.subrange(0, i + 1));
                    assert(ac == acking(pre).push(i));
                    assert(acknack_for(&acknack, &ps0[i as int], reader_id));
                    assert(acks_ok(out0, acking(pre), ps0, reader_id, i as int));
                    assert forall|j: int| 0 <= j < out@.len() implies #[trigger] acks_ok_at(out@, ac, ps0, reader_id, i + 1, j) by {
                        if j < out0.len() {
                            assert(acks_ok_at(out0, acking(pre), ps0, reader_id, i as int, j));
                            assert(out@[j] == out0[j]);
                            assert(ac[j] == acking(pre)[j]);
                        }
                    }
                }
            } else {
                proof {
                    let ac = acking(ps0.subrange(0, i + 1));
                    assert(ac == acking(pre));
                    assert(out@ == out0);
                    assert(acks_ok(out0, acking(pre), ps0, reader_id, i as int));
                    assert forall|j: int| 0 <= j < out@.len() implies #[trigger] acks_ok_at(out@, ac, ps0, reader_id, i + 1, j) by {
                        assert(acks_ok_at(out0, acking(pre), ps0, reader_id, i as int, j));
                    }
                }
            }
            self.matched_writers.insert(i, p);
            i += 1;
        }
        assert(ps0.subrange(0, n as int) =~= ps0);
        proof {
            assert forall|j: int| 0 <= j < out@.len() implies {
                let i = acking(old(self).writers())[j];
                &&& #[trigger] out@[j].writer == i
                &&& acknack_for(&out@[j].acknack, &old(self).writers()[i as int], old(self).spec_reader().guid.entity_id)
            } by {
                assert(acks_ok_at(out@, acking(ps0), ps0, reader_id, n as int, j));
            }
        }
        out
    }
}

/// Item `j` of `out` is the ACKNACK owed to the proxy `ac[j]`, below `bound`.
pub open spec fn acks_ok_at(
    out: Seq<ReaderSendItem>,
    ac: Seq<usize>,
    ps: Seq<RtpsWriterProxy>,
    reader_id: EntityId,
    bound: int,
    j: int,
) -> bool {
    &&& out[j].writer == ac[j]
    &&& 0 <= ac[j] < bound
    &&& acknack_for(&out[j].acknack, &ps[ac[j] as int], reader_id)
}

/// `out` holds the ACKNACKs owed to the proxies `ac`, in order.
pub open spec fn acks_ok(out: Seq<ReaderSendItem>, ac: Seq<usize>, ps: Seq<RtpsWriterProxy>, reader_id: EntityId, bound: int) -> bool {
    &&& out.len() == ac.len()
    &&& forall|j: int| 0 <= j < out.len() ==> #[trigger] acks_ok_at(out, ac, ps, reader_id, bound, j)
}

proof fn lemma_acking_bound(ps: Seq<RtpsWriterProxy>)
    ensures
        forall|j: int| 0 <= j < acking(ps).len() ==> 0 <= #[trigger] acking(ps)[j] < ps.len(),
    decreases ps.len(),
{
    if ps.len() > 0 {
        let d = ps.drop_last();
        lemma_acking_bound(d);
        let a = acking(d);
        if owes_acknack(&ps.last()) {
            let b = a.push((ps.len() - 1) as usize);
            assert(acking(ps) == b);
            assert forall|j: int| 0 <= j < b.len() implies 0 <= #[trigger] b[j] < ps.len() by {
                if j < a.len() {
                    assert(b[j] == a[j]);
                }
            }
        } else {
            assert(acking(ps) == a);
        }
    }
}

/// Every bitmap word past the ones in use is zero.
fn words_clear(set: &SequenceNumberSetUdp) -> (r: bool)
    requires
        set.num_bits.0 <= 256,
    ensures
        r == set.wf(),
{
    let m = ((set.num_bits.0 + 31) / 32) as usize;
    assert forall|j: int| 0 <= j < 8 implies (#[trigger] (j * 32) >= set.num_bits.0 <==> j >= m) by {
    }
    let mut k: usize = m;
    while k < 8
        invariant
            m <= k <= 8,
            m == (set.num_bits.0 as int + 31) / 32,
            forall|j: int| m <= j < k ==> set.bitmap@[j] == 0,
        decreases 8 - k,
    {
        if set.bitmap[k] != 0 {
            return false;
        }
        k += 1;
    }
    true
}

/// `data` with `payload` written from `lo` on.
pub open spec fn write_at(data: Seq<u8>, lo: int, payload: Seq<u8>) -> Seq<u8> {
    data.subrange(0, lo) + payload + data.subrange(lo + payload.len(), data.len() as int)
}

/// The bytes fragments `start..start + count` (from 1) cover in a sample of `ds` bytes cut in
/// pieces of `fs`.
pub open spec fn frag_lo(start: u32, fs: u16) -> int {
    (start as int - 1) * fs as int
}

pub open spec fn frag_hi(start: u32, count: u16, fs: u16, ds: u32) -> int {
    let top = (start as int - 1 + count as int) * fs as int;
    if top < ds as int {
        top
    } else {
        ds as int
    }
}

/// A DATA_FRAG whose sizes and numbers make sense.
pub open spec fn frag_valid(f: &DataFrag) -> bool {
    &&& f.fragment_size >= 1
    &&& f.data_size >= 1
    &&& f.fragment_starting_num >= 1
    &&& f.fragments_in_submessage >= 1
    &&& f.fragment_starting_num as int - 1 + f.fragments_in_submessage as int <= crate::writer::num_fragments(
        f.data_size as int,
        f.fragment_size as int,
    )
}

impl FragmentBuffer {
    pub open spec fn wf(&self) -> bool {
        &&& self.fragment_size >= 1
        &&& self.data@.len() == self.data_size
        &&& self.received@.len() == crate::writer::num_fragments(self.data_size as int, self.fragment_size as int)
    }

    /// An empty buffer for change `sequence_number` of `writer_guid`.
    pub fn new(writer_guid: Guid, sequence_number: i64, data_size: u32, fragment_size: u16) -> (r: Self)
        requires
            fragment_size >= 1,
        ensures
            r.wf(),
            r.writer_guid == writer_guid,
            r.sequence_number == sequence_number,
            r.data_size == data_size,
            r.fragment_size == fragment_size,
            forall|k: int| 0 <= k < r.data@.len() ==> r.data@[k] == 0u8,
            forall|k: int| 0 <= k < r.received@.len() ==> !r.received@[k],
    {
        let mut data: Vec<u8> = Vec::new();
        let n = data_size as usize;
        while data.len() < n
            invariant
                data@.len() <= n,
                forall|k: int| 0 <= k < data@.len() ==> data@[k] == 0u8,
            decreases n - data@.len(),
        {
            data.push(0);
        }
        let total = crate::writer::fragment_count(data_size as usize, fragment_size as usize);
        let mut received: Vec<bool> = Vec::new();
        while received.len() < total
            invariant
                received@.len() <= total,
                forall|k: int| 0 <= k < received@.len() ==> !received@[k],
            decreases total - received@.len(),
        {
            received.push(false);
        }
        FragmentBuffer { writer_guid, sequence_number, data_size, fragment_size, data, received }
    }

    /// Stores fragments `start..start + count` (from 1) whose bytes are `payload`.
    pub fn store(&mut self, start: u32, count: u16, payload: &[u8])
        requires
            old(self).wf(),
            start >= 1,
            start as int - 1 + count as int <= old(self).received@.len(),
            frag_hi(start, count, old(self).fragment_size, old(self).data_size) - frag_lo(start, old(self).fragment_size)
                == payload@.len(),
            frag_lo(start, old(self).fragment_size) <= frag_hi(start, count, old(self).fragment_size, old(self).data_size),
        ensures
            final(self).wf(),
            final(self).writer_guid == old(self).writer_guid,
            final(self).sequence_number == old(self).sequence_number,
            final(self).data_size == old(self).data_size,
            final(self).fragment_size == old(self).fragment_size,
            final(self).data@ == write_at(old(self).data@, frag_lo(start, old(self).fragment_size), payload@),
            final(self).received@.len() == old(self).received@.len(),
            forall|k: int|
                0 <= k < final(self).received@.len() ==> #[trigger] final(self).received@[k] == (old(self).received@[k]
                    || (start as int - 1 <= k < start as int - 1 + count as int)),
    {
        let fs64 = self.fragment_size as u64;
        let s64 = start as u64 - 1;
        assert(s64 * fs64 <= 281474976710656) by (nonlinear_arith)
            requires
                s64 < 4294967296,
                fs64 < 65536,
        ;
        let lo64 = s64 * fs64;
        let n = self.data.len();
        assert(lo64 as int == frag_lo(start, self.fragment_size));
        let lo = lo64 as usize;
        let ghost d0 = self.data@;
        let mut k: usize = 0;
        while k < payload.len()
            invariant
                n == d0.len(),
                self.data@.len() == d0.len(),
                lo + payload@.len() <= d0.len(),
                k <= payload@.len(),
                lo == frag_lo(start, self.fragment_size),
                self.fragment_size == old(self).fragment_size,
                self.data_size == old(self).data_size,
                self.received@ == old(self).received@,
                self.writer_guid == old(self).writer_guid,
                self.sequence_number == old(self).sequence_number,
                forall|m: int|
                    0 <= m < d0.len() ==> #[trigger] self.data@[m] == (if lo <= m < lo + k {
                        payload@[m - lo]
                    } else {
                        d0[m]
                    }),
            decreases payload@.len() - k,
        {
            self.data[lo + k] = payload[k];
            k += 1;
        }
        assert(self.data@ =~= write_at(d0, lo as int, payload@));
        let ghost r0 = self.received@;
        let rn = self.received.len();
        let first = (start - 1) as usize;
        let mut j: usize = 0;
        while j < count as usize
            invariant
                rn == r0.len(),
                self.received@.len() == r0.len(),
                first + count <= r0.len(),
                first == start - 1,
                j <= count,
                self.data@ == write_at(d0, lo as int, payload@),
                self.fragment_size == old(self).fragment_size,
                self.data_size == old(self).data_size,
                self.writer_guid == old(self).writer_guid,
                self.sequence_number == old(self).sequence_number,
                forall|m: int|
                    0 <= m < r0.len() ==> #[trigger] self.received@[m] == (r0[m] || (first <= m < first + j)),
            decreases count - j,
        {
            self.received[first + j] = true;
            j += 1;
        }
    }

    /// Whether every fragment is in.
    pub fn is_complete(&self) -> (r: bool)
        ensures
            r == forall|k: int| 0 <= k < self.received@.len() ==> #[trigger] self.received@[k],
    {
        let mut k: usize = 0;
        while k < self.received.len()
            invariant
                k <= self.received@.len(),
                forall|m: int| 0 <= m < k ==> #[trigger] self.received@[m],
            decreases self.received@.len() - k,
        {
            if !self.received[k] {
                return false;
            }
            k += 1;
        }
        true
    }
}

/// Whether `b` is the buffer of change `sn` of writer `g`.
pub open spec fn buffer_is(b: FragmentBuffer, g: (Seq<u8>, EntityId), sn: i64) -> bool {
    b.writer_guid@ == g && b.sequence_number == sn
}

/// Index of the first buffer of change `sn` of writer `g`.
pub open spec fn frag_buffer_index(bs: Seq<FragmentBuffer>, g: (Seq<u8>, EntityId), sn: i64) -> Option<int> {
    if exists|k: int| 0 <= k < bs.len() && #[trigger] buffer_is(bs[k], g, sn) {
        Some(
            choose|k: int|
                0 <= k < bs.len() && #[trigger] buffer_is(bs[k], g, sn) && forall|m: int|
                    0 <= m < k ==> !buffer_is(bs[m], g, sn),
        )
    } else {
        None
    }
}

/// The bytes a fragment is stored into: those of the held buffer, or zeros.
pub open spec fn base_data(bs: Seq<FragmentBuffer>, idx: Option<int>, ds: u32) -> Seq<u8> {
    match idx {
        Some(j) => bs[j].data@,
        None => Seq::new(ds as nat, |k: int| 0u8),
    }
}

/// The fragments received before: those of the held buffer, or none.
pub open spec fn base_received(bs: Seq<FragmentBuffer>, idx: Option<int>, ds: u32, fs: u16) -> Seq<bool> {
    match idx {
        Some(j) => bs[j].received@,
        None => Seq::new(crate::writer::num_fragments(ds as int, fs as int) as nat, |k: int| false),
    }
}

/// `recv` with fragments `start..start + count` (from 1) marked received.
pub open spec fn stored_received(recv: Seq<bool>, start: u32, count: u16) -> Seq<bool> {
    Seq::new(recv.len(), |k: int| recv[k] || (start as int - 1 <= k < start as int - 1 + count as int))
}

/// The buffers other than the one at `idx`.
pub open spec fn rest_buffers(bs: Seq<FragmentBuffer>, idx: Option<int>) -> Seq<FragmentBuffer> {
    match idx {
        Some(j) => bs.remove(j),
        None => bs,
    }
}

/// The numbers (from 1) of the fragments not received among the first `upto`.
pub open spec fn missing_upto(received: Seq<bool>, upto: int) -> Seq<u32>
    decreases upto,
{
    if upto <= 0 {
        seq![]
    } else if !received[upto - 1] {
        missing_upto(received, upto - 1).push(upto as u32)
    } else {
        missing_upto(received, upto - 1)
    }
}

/// `new` is the reader `old` after the DATA_FRAG `f` from the participant `prefix`, whose key has the handle `h`, with result `r`; `ts` is the time it came with.
pub open spec fn data_frag_received(old: &RtpsStatefulReader, new: &RtpsStatefulReader, f: &DataFrag, prefix: GuidPrefix, ts: Option<TimeUdp>, h: InstanceHandle, r: StatefulReaderDataReceivedResult) -> bool {
    &&& (forall|j: int| 0 <= j < new.buffers().len() ==> (#[trigger] new.buffers()[j]).wf())
    &&& (new.spec_reader().guid == old.spec_reader().guid)
    &&& (new.spec_reader().reliability == old.spec_reader().reliability)
    &&& (match find_writer(old.writers(), (prefix@, f.writer_id)) {
            None => r == StatefulReaderDataReceivedResult::NoMatchedWriterProxy && new.writers()
                == old.writers() && new.spec_reader().changes@ == old.spec_reader().changes@,
            Some(i) => {
                let hr = old.writers()[i].highest_received_seq_num;
                let sn = f.writer_sn;
                if !accepts(old.spec_reader().reliability, hr, sn) {
                    r == StatefulReaderDataReceivedResult::UnexpectedDataSequenceNumber && new.writers()
                        == old.writers() && new.spec_reader().changes@ == old.spec_reader().changes@
                } else if !frag_valid(f) {
                    r == StatefulReaderDataReceivedResult::InvalidData && new.writers() == old.writers()
                        && new.spec_reader().changes@ == old.spec_reader().changes@
                } else if f.serialized_payload.0@.len() != frag_hi(
                    f.fragment_starting_num,
                    f.fragments_in_submessage,
                    f.fragment_size,
                    f.data_size,
                ) - frag_lo(f.fragment_starting_num, f.fragment_size) {
                    r == StatefulReaderDataReceivedResult::SampleRejected(
                        h,
                        SampleRejectedStatusKind::RejectedBySamplesLimit,
                    ) && new.writers() == old.writers() && new.spec_reader().changes@
                        == old.spec_reader().changes@
                } else {
                    let g = (prefix@, f.writer_id);
                    let bs = old.buffers();
                    let idx = frag_buffer_index(bs, g, sn);
                    let lo = frag_lo(f.fragment_starting_num, f.fragment_size);
                    let data = write_at(base_data(bs, idx, f.data_size), lo, f.serialized_payload.0@);
                    let recv = stored_received(
                        base_received(bs, idx, f.data_size, f.fragment_size),
                        f.fragment_starting_num,
                        f.fragments_in_submessage,
                    );
                    if idx is Some && (bs[idx->Some_0].data_size != f.data_size || bs[idx->Some_0].fragment_size
                        != f.fragment_size) {
                        &&& r == StatefulReaderDataReceivedResult::InvalidData
                        &&& new.writers() == old.writers()
                        &&& new.spec_reader().changes@ == old.spec_reader().changes@
                        &&& new.buffers() == rest_buffers(bs, idx).push(bs[idx->Some_0])
                    } else if forall|k: int| 0 <= k < recv.len() ==> #[trigger] recv[k] {
                        let c = new.spec_reader().changes@.last();
                        &&& new.spec_reader().changes@.drop_last() == old.spec_reader().changes@
                        &&& new.spec_reader().changes@.len() == old.spec_reader().changes@.len() + 1
                        &&& c.sequence_number == sn
                        &&& c.writer_guid@ == g
                        &&& c.instance_handle == h
                        &&& c.data_value@ == data
                        &&& new.buffers() == rest_buffers(bs, idx)
                        &&& writers_same_but(old.writers(), new.writers(), i)
                        &&& new.writers()[i].highest_received_seq_num == sn
                        &&& r == (if sn > hr + 1 {
                            StatefulReaderDataReceivedResult::NewSampleAddedAndSamplesLost(
                                h,
                                (sn - hr - 1) as i64,
                            )
                        } else {
                            StatefulReaderDataReceivedResult::NewSampleAdded(h)
                        })
                    } else {
                        let b = new.buffers().last();
                        &&& r == StatefulReaderDataReceivedResult::FragmentStored
                        &&& new.writers() == old.writers()
                        &&& new.spec_reader().changes@ == old.spec_reader().changes@
                        &&& new.buffers().len() == rest_buffers(bs, idx).len() + 1
                        &&& new.buffers().drop_last() == rest_buffers(bs, idx)
                        &&& buffer_is(b, g, sn)
                        &&& b.data_size == f.data_size
                        &&& b.fragment_size == f.fragment_size
                        &&& b.data@ == data
                        &&& b.received@ == recv
                    }
                }
            },
        })
}

impl RtpsStatefulReader {
    pub closed spec fn buffers(&self) -> Seq<FragmentBuffer> {
        self.frag_buffers@
    }

    /// The fragments still missing of change `sn` from writer `writer_guid`, ascending;
    /// empty when no fragment of it is held.
    pub fn missing_fragments(&self, writer_guid: &Guid, sn: i64) -> (r: Vec<u32>)
        requires
            forall|j: int| 0 <= j < self.buffers().len() ==> (#[trigger] self.buffers()[j]).wf(),
        ensures
            (exists|j: int|
                0 <= j < self.buffers().len() && #[trigger] self.buffers()[j].writer_guid@ == writer_guid@
                    && self.buffers()[j].sequence_number == sn && r@ == missing_upto(
                    self.buffers()[j].received@,
                    self.buffers()[j].received@.len() as int,
                )) || (r@.len() == 0 && forall|j: int|
                0 <= j < self.buffers().len() ==> !(#[trigger] self.buffers()[j].writer_guid@ == writer_guid@
                    && self.buffers()[j].sequence_number == sn)),
    {
        let mut j: usize = 0;
        while j < self.frag_buffers.len()
            invariant
                j <= self.frag_buffers@.len(),
                forall|k: int| 0 <= k < self.buffers().len() ==> (#[trigger] self.buffers()[k]).wf(),
                forall|k: int|
                    0 <= k < j ==> !(#[trigger] self.frag_buffers@[k].writer_guid@ == writer_guid@
                        && self.frag_buffers@[k].sequence_number == sn),
            decreases self.frag_buffers@.len() - j,
        {
            let b = &self.frag_buffers[j];
            if b.sequence_number == sn && b.writer_guid.equals(writer_guid) {
                proof {
                    assert(self.buffers()[j as int].wf());
                    let ds = b.data_size as int;
                    let fs = b.fragment_size as int;
                    assert(crate::writer::num_fragments(ds, fs) <= ds) by (nonlinear_arith)
                        requires
                            fs >= 1,
                            ds >= 0,
                    {
                        if ds % fs != 0 {
                            if fs == 1 {
                                assert(ds % fs == 0);
                            } else {
                                assert(ds / fs * fs <= ds);
                                assert(ds / fs * 2 <= ds);
                            }
                        }
                    }
                }
                let mut r: Vec<u32> = Vec::new();
                let mut k: usize = 0;
                while k < b.received.len()
                    invariant
                        k <= b.received@.len(),
                        b.received@.len() <= u32::MAX,
                        r@ == missing_upto(b.received@, k as int),
                    decreases b.received@.len() - k,
                {
                    if !b.received[k] {
                        r.push((k + 1) as u32);
                    }
                    k += 1;
                }
                assert(self.buffers()[j as int] == *b);
                return r;
            }
            j += 1;
        }
        Vec::new()
    }

    fn take_buffer(&mut self, writer_guid: &Guid, sn: i64) -> (r: Option<FragmentBuffer>)
        ensures
            final(self).writers() == old(self).writers(),
            final(self).spec_reader() == old(self).spec_reader(),
            final(self).wf() == old(self).wf(),
            match frag_buffer_index(old(self).buffers(), writer_guid@, sn) {
                Some(j) => 0 <= j < old(self).buffers().len() && r == Some(old(self).buffers()[j])
                    && buffer_is(old(self).buffers()[j], writer_guid@, sn)
                    && final(self).buffers() == old(self).buffers().remove(j),
                None => r is None && final(self).buffers() == old(self).buffers(),
            },
    {
        let mut j: usize = 0;
        while j < self.frag_buffers.len()
            invariant
                j <= self.frag_buffers@.len(),
                self.frag_buffers@ == old(self).frag_buffers@,
                self.matched_writers@ == old(self).matched_writers@,
                self.reader == old(self).reader,
                forall|k: int| 0 <= k < j ==> !buffer_is(#[trigger] self.frag_buffers@[k], writer_guid@, sn),
            decreases self.frag_buffers@.len() - j,
        {
            if self.frag_buffers[j].sequence_number == sn && self.frag_buffers[j].writer_guid.equals(writer_guid) {
                proof {
                    let bs = old(self).buffers();
                    let k = choose|k: int| 0 <= k < bs.len() && #[trigger] buffer_is(bs[k], writer_guid@, sn)
                        && forall|m: int| 0 <= m < k ==> !buffer_is(bs[m], writer_guid@, sn);
                    if k > j {
                        assert(buffer_is(bs[j as int], writer_guid@, sn));
                    }
                    assert(frag_buffer_index(bs, writer_guid@, sn) == Some(j as int));
                }
                let b = self.frag_buffers.remove(j);
                return Some(b);
            }
            j += 1;
        }
        None
    }

    /// Takes in a DATA_FRAG from the participant `source_guid_prefix`; when its sample is
    /// complete the sample is added as for a DATA.
    #[verifier::rlimit(60)]
    pub fn on_data_frag_submessage_received(
        &mut self,
        data_frag_submessage: &DataFrag,
        source_guid_prefix: GuidPrefix,
        source_timestamp: Option<TimeUdp>,
        instance_handle: InstanceHandle,
    ) -> (r: StatefulReaderDataReceivedResult)
        requires
            old(self).wf(),
            forall|j: int| 0 <= j < old(self).buffers().len() ==> (#[trigger] old(self).buffers()[j]).wf(),
        ensures
            final(self).wf(),
            forall|j: int| 0 <= j < final(self).buffers().len() ==> (#[trigger] final(self).buffers()[j]).wf(),
            final(self).spec_reader().guid == old(self).spec_reader().guid,
            final(self).spec_reader().reliability == old(self).spec_reader().reliability,
            match find_writer(old(self).writers(), (source_guid_prefix@, data_frag_submessage.writer_id)) {
                None => r == StatefulReaderDataReceivedResult::NoMatchedWriterProxy && final(self).writers()
                    == old(self).writers() && final(self).spec_reader().changes@ == old(self).spec_reader().changes@,
                Some(i) => {
                    let hr = old(self).writers()[i].highest_received_seq_num;
                    let sn = data_frag_submessage.writer_sn;
                    if !accepts(old(self).spec_reader().reliability, hr, sn) {
                        r == StatefulReaderDataReceivedResult::UnexpectedDataSequenceNumber && final(self).writers()
                            == old(self).writers() && final(self).spec_reader().changes@ == old(self).spec_reader().changes@
                    } else if !frag_valid(data_frag_submessage) {
                        r == StatefulReaderDataReceivedResult::InvalidData && final(self).writers() == old(self).writers()
                            && final(self).spec_reader().changes@ == old(self).spec_reader().changes@
                    } else if data_frag_submessage.serialized_payload.0@.len() != frag_hi(
                        data_frag_submessage.fragment_starting_num,
                        data_frag_submessage.fragments_in_submessage,
                        data_frag_submessage.fragment_size,
                        data_frag_submessage.data_size,
                    ) - frag_lo(data_frag_submessage.fragment_starting_num, data_frag_submessage.fragment_size) {
                        r == StatefulReaderDataReceivedResult::SampleRejected(
                            instance_handle,
                            SampleRejectedStatusKind::RejectedBySamplesLimit,
                        ) && final(self).writers() == old(self).writers() && final(self).spec_reader().changes@
                            == old(self).spec_reader().changes@
                    } else {
                        let g = (source_guid_prefix@, data_frag_submessage.writer_id);
                        let bs = old(self).buffers();
                        let idx = frag_buffer_index(bs, g, sn);
                        let lo = frag_lo(data_frag_submessage.fragment_starting_num, data_frag_submessage.fragment_size);
                        let data = write_at(base_data(bs, idx, data_frag_submessage.data_size), lo, data_frag_submessage.serialized_payload.0@);
                        let recv = stored_received(
                            base_received(bs, idx, data_frag_submessage.data_size, data_frag_submessage.fragment_size),
                            data_frag_submessage.fragment_starting_num,
                            data_frag_submessage.fragments_in_submessage,
                        );
                        if idx is Some && (bs[idx->Some_0].data_size != data_frag_submessage.data_size || bs[idx->Some_0].fragment_size
                            != data_frag_submessage.fragment_size) {
                            &&& r == StatefulReaderDataReceivedResult::InvalidData
                            &&& final(self).writers() == old(self).writers()
                            &&& final(self).spec_reader().changes@ == old(self).spec_reader().changes@
                            &&& final(self).buffers() == rest_buffers(bs, idx).push(bs[idx->Some_0])
                        } else if forall|k: int| 0 <= k < recv.len() ==> #[trigger] recv[k] {
                            let c = final(self).spec_reader().changes@.last();
                            &&& final(self).spec_reader().changes@.drop_last() == old(self).spec_reader().changes@
                            &&& final(self).spec_reader().changes@.len() == old(self).spec_reader().changes@.len() + 1
                            &&& c.sequence_number == sn
                            &&& c.writer_guid@ == g
                            &&& c.instance_handle == instance_handle
                            &&& c.data_value@ == data
                            &&& final(self).buffers() == rest_buffers(bs, idx)
                            &&& writers_same_but(old(self).writers(), final(self).writers(), i)
                            &&& final(self).writers()[i].highest_received_seq_num == sn
                            &&& r == (if sn > hr + 1 {
                                StatefulReaderDataReceivedResult::NewSampleAddedAndSamplesLost(
                                    instance_handle,
                                    (sn - hr - 1) as i64,
                                )
                            } else {
                                StatefulReaderDataReceivedResult::NewSampleAdded(instance_handle)
                            })
                        } else {
                            let b = final(self).buffers().last();
                            &&& r == StatefulReaderDataReceivedResult::FragmentStored
                            &&& final(self).writers() == old(self).writers()
                            &&& final(self).spec_reader().changes@ == old(self).spec_reader().changes@
                            &&& final(self).buffers().len() == rest_buffers(bs, idx).len() + 1
                            &&& final(self).buffers().drop_last() == rest_buffers(bs, idx)
                            &&& buffer_is(b, g, sn)
                            &&& b.data_size == data_frag_submessage.data_size
                            &&& b.fragment_size == data_frag_submessage.fragment_size
                            &&& b.data@ == data
                            &&& b.received@ == recv
                        }
                    }
                },
            },
    {
        let f = data_frag_submessage;
        let writer_guid = Guid::new(source_guid_prefix, f.writer_id);
        let found = self.find_writer_index(&writer_guid);
        if found.is_none() {
            return StatefulReaderDataReceivedResult::NoMatchedWriterProxy;
        }
        let i = found.unwrap();
        let hr = self.matched_writers[i].highest_received_seq_num;
        let sn = f.writer_sn;
        let accepted = match self.reader.reliability {
            ReliabilityKind::Reliable => sn > hr && sn - hr == 1,
            ReliabilityKind::BestEffort => sn > hr,
        };
        if !accepted {
            return StatefulReaderDataReceivedResult::UnexpectedDataSequenceNumber;
        }
        let fs = f.fragment_size as u64;
        let ds = f.data_size as u64;
        let start = f.fragment_starting_num as u64;
        let count = f.fragments_in_submessage as u64;
        if fs == 0 || ds == 0 || start == 0 || count == 0 {
            return StatefulReaderDataReceivedResult::InvalidData;
        }
        let total = ds / fs + if ds % fs != 0 { 1 } else { 0 };
        if start - 1 + count > total {
            return StatefulReaderDataReceivedResult::InvalidData;
        }
        assert((start - 1 + count) * fs <= 281483566645248) by (nonlinear_arith)
            requires
                start - 1 + count <= 4294967296 + 65536,
                fs < 65536,
        ;
        assert((start - 1) * fs <= (start - 1 + count) * fs) by (nonlinear_arith);
        let lo = (start - 1) * fs;
        let top = (start - 1 + count) * fs;
        let hi = if top < ds { top } else { ds };
        assert(lo as int == frag_lo(f.fragment_starting_num, f.fragment_size));
        assert(hi as int == frag_hi(f.fragment_starting_num, f.fragments_in_submessage, f.fragment_size, f.data_size));
        assert(lo <= hi) by (nonlinear_arith)
            requires
                lo == (start - 1) * fs,
                top == (start - 1 + count) * fs,
                hi == if top < ds { top } else { ds },
                start - 1 + count <= total,
                total == ds / fs + if ds % fs != 0 { 1u64 } else { 0u64 },
                fs >= 1,
                count >= 1,
        {
            assert(total * fs >= ds) by (nonlinear_arith) requires total == ds / fs + if ds % fs != 0 { 1u64 } else { 0u64 }, fs >= 1, {}
            assert((start - 1) * fs < ds) by (nonlinear_arith) requires start - 1 < total, total == ds / fs + if ds % fs != 0 { 1u64 } else { 0u64 }, fs >= 1, {}
        }
        if f.serialized_payload.0.len() as u64 != hi - lo {
            return StatefulReaderDataReceivedResult::SampleRejected(
                instance_handle,
                SampleRejectedStatusKind::RejectedBySamplesLimit,
            );
        }
        let mut buffer = match self.take_buffer(&writer_guid, sn) {
            Some(b) => b,
            None => FragmentBuffer::new(writer_guid, sn, f.data_size, f.fragment_size),
        };
        let ghost bs = old(self).buffers();
        let ghost idx = frag_buffer_index(bs, writer_guid@, sn);
        proof {
            if idx is Some {
                let j = idx->Some_0;
                assert(bs[j].wf());
                assert forall|k: int| 0 <= k < self.buffers().len() implies (#[trigger] self.buffers()[k]).wf() by {
                    if k < j {
                        assert(self.buffers()[k] == bs[k]);
                    } else {
                        assert(self.buffers()[k] == bs[k + 1]);
                    }
                }
            } else {
                assert(buffer.data@ =~= base_data(bs, idx, f.data_size));
                assert(buffer.received@ =~= base_received(bs, idx, f.data_size, f.fragment_size));
            }
            assert(self.buffers() == rest_buffers(bs, idx));
            assert(buffer.data@ == base_data(bs, idx, f.data_size));
            assert(buffer.received@ == base_received(bs, idx, f.data_size, f.fragment_size));
        }
        if buffer.data_size != f.data_size || buffer.fragment_size != f.fragment_size {
            self.frag_buffers.push(buffer);
            return StatefulReaderDataReceivedResult::InvalidData;
        }
        buffer.store(f.fragment_starting_num, f.fragments_in_submessage, f.serialized_payload.0.as_slice());
        proof {
            assert(buffer.received@ =~= stored_received(
                base_received(bs, idx, f.data_size, f.fragment_size),
                f.fragment_starting_num,
                f.fragments_in_submessage,
            ));
        }
        if !buffer.is_complete() {
            let ghost before = self.buffers();
            let ghost b = buffer;
            self.frag_buffers.push(buffer);
            proof {
                assert(self.buffers() == before.push(b));
                assert(self.buffers().drop_last() =~= before);
                assert(self.buffers().last() == b);
                assert(b.data@ == write_at(base_data(bs, idx, f.data_size), frag_lo(f.fragment_starting_num, f.fragment_size), f.serialized_payload.0@));
                assert(buffer_is(b, (source_guid_prefix@, f.writer_id), sn));
            }
            return StatefulReaderDataReceivedResult::FragmentStored;
        }
        let kind = if f.key_flag {
            ChangeKind::NotAliveDisposed
        } else {
            ChangeKind::Alive
        };
        let change = CacheChange {
            kind,
            writer_guid,
            sequence_number: sn,
            instance_handle,
            source_timestamp,
            data_value: buffer.data,
            inline_qos: copy_params(&f.inline_qos),
        };
        proof {
            let d = change.data_value@;
            assert(d.subrange(lo as int, hi as int) =~= f.serialized_payload.0@);
        }
        self.reader.changes.push(change);
        self.matched_writers[i].highest_received_seq_num = sn;
        assert(writers_same_but(old(self).writers(), self.matched_writers@, i as int));
        if sn - hr > 1 {
            StatefulReaderDataReceivedResult::NewSampleAddedAndSamplesLost(instance_handle, sn - hr - 1)
        } else {
            StatefulReaderDataReceivedResult::NewSampleAdded(instance_handle)
        }
    }
}

/// State of an instance as a sample shows it.
#[derive(Clone, Copy, Debug, PartialEq, Eq, Structural)]
pub enum InstanceStateKind {
    Alive,
    NotAliveDisposed,
    NotAliveNoWriters,
}

/// What a reader tells of a sample besides its data.
#[derive(Clone, Copy, Debug, PartialEq, Eq, Structural)]
pub struct SampleInfo {
    pub valid_data: bool,
    pub instance_state: InstanceStateKind,
    pub sequence_number: i64,
}

/// The information of a sample held as change `c`: data is valid for an alive change; a
/// disposed one shows its instance disposed, an unregistered one without writers.
pub open spec fn sample_info_of(c: CacheChange) -> SampleInfo {
    SampleInfo {
        valid_data: c.kind == ChangeKind::Alive,
        instance_state: match c.kind {
            ChangeKind::NotAliveDisposed => InstanceStateKind::NotAliveDisposed,
            ChangeKind::NotAliveUnregistered => InstanceStateKind::NotAliveNoWriters,
            _ => InstanceStateKind::Alive,
        },
        sequence_number: c.sequence_number,
    }
}

impl RtpsStatefulReader {
    /// Takes the oldest samples, at most `max_samples`, with their information; `NoData`
    /// when there is none.
    pub fn take(&mut self, max_samples: usize) -> (r: crate::types::DdsResult<Vec<(CacheChange, SampleInfo)>>)
        ensures
            final(self).writers() == old(self).writers(),
            final(self).wf() == old(self).wf(),
            final(self).spec_reader().guid == old(self).spec_reader().guid,
            final(self).spec_reader().reliability == old(self).spec_reader().reliability,
            ({
                let cs = old(self).spec_reader().changes@;
                let n = if max_samples < cs.len() { max_samples as int } else { cs.len() as int };
                if n == 0 {
                    r == Err::<Vec<(CacheChange, SampleInfo)>, crate::types::DdsError>(crate::types::DdsError::NoData)
                        && final(self).spec_reader().changes@ == cs
                } else {
                    &&& r is Ok
                    &&& r->Ok_0@.len() == n
                    &&& forall|i: int| 0 <= i < n ==> (#[trigger] r->Ok_0@[i]).0 == cs[i] && r->Ok_0@[i].1 == sample_info_of(cs[i])
                    &&& final(self).spec_reader().changes@ == cs.subrange(n, cs.len() as int)
                }
            }),
    {
        let ghost cs = self.reader.changes@;
        let n = if max_samples < self.reader.changes.len() { max_samples } else { self.reader.changes.len() };
        if n == 0 {
            return Err(crate::types::DdsError::NoData);
        }
        let mut out: Vec<(CacheChange, SampleInfo)> = Vec::new();
        let mut k: usize = 0;
        while k < n
            invariant
                k <= n,
                n <= cs.len(),
                self.reader.changes@ == cs.subrange(k as int, cs.len() as int),
                self.reader.guid == old(self).reader.guid,
                self.reader.reliability == old(self).reader.reliability,
                self.matched_writers@ == old(self).matched_writers@,
                out@.len() == k,
                forall|i: int| 0 <= i < k ==> (#[trigger] out@[i]).0 == cs[i] && out@[i].1 == sample_info_of(cs[i]),
            decreases n - k,
        {
            let ghost before = self.reader.changes@;
            let c = self.reader.changes.remove(0);
            assert(c == cs[k as int]);
            assert(self.reader.changes@ =~= cs.subrange(k + 1, cs.len() as int));
            let instance_state = match c.kind {
                ChangeKind::NotAliveDisposed => InstanceStateKind::NotAliveDisposed,
                ChangeKind::NotAliveUnregistered => InstanceStateKind::NotAliveNoWriters,
                _ => InstanceStateKind::Alive,
            };
            let info = SampleInfo {
                valid_data: c.kind == ChangeKind::Alive,
                instance_state,
                sequence_number: c.sequence_number,
            };
            out.push((c, info));
            k += 1;
        }
        Ok(out)
    }
}

} // verus!
