use vstd::prelude::*;

use crate::history::CacheChange;
use crate::messages::copy_bytes;
use crate::messages::{AckNackSubmessage, NackFragSubmessage};
use crate::types::{ChangeKind, DurabilityKind, InstanceHandle, EntityId, Guid, GuidPrefix, Locator, ReliabilityKind};
use crate::elements::SequenceNumberSetUdp;

verus! {

/// What a stateful writer hands to the transport for one matched reader.
#[derive(Clone, Copy, Debug, PartialEq, Eq, Structural)]
pub enum WriterSubmessage {
    /// The sequence numbers `gap_start..=gap_end` are irrelevant.
    Gap { gap_start: i64, gap_end: i64 },
    /// The whole change `sequence_number` in one DATA.
    Data { sequence_number: i64 },
    /// Fragment `fragment_starting_num` (from 1) of change `sequence_number`.
    DataFrag { sequence_number: i64, fragment_starting_num: u32 },
    /// A HEARTBEAT announcing `first_sn..=last_sn`.
    Heartbeat { first_sn: i64, last_sn: i64, count: i32 },
}

/// A submessage for the matched reader at index `reader`.
#[derive(Clone, Copy, Debug, PartialEq, Eq, Structural)]
pub struct SendItem {
    pub reader: usize,
    pub submessage: WriterSubmessage,
}

/// Number of fragments of `len` bytes in pieces of `max` bytes.
pub open spec fn num_fragments(len: int, max: int) -> int {
    len / max + (if len % max != 0 {
        1int
    } else {
        0int
    })
}

/// The submessages that carry change `sn` of `len` bytes: one DATA, or its fragments.
pub open spec fn data_items(sn: i64, len: int, max: int) -> Seq<WriterSubmessage> {
    let n = num_fragments(len, max);
    if n > 1 {
        Seq::new(
            n as nat,
            |k: int|
                WriterSubmessage::DataFrag { sequence_number: sn, fragment_starting_num: (k + 1) as u32 },
        )
    } else {
        seq![WriterSubmessage::Data { sequence_number: sn }]
    }
}

/// Sequence number and data length of each change.
pub open spec fn summaries(cs: Seq<CacheChange>) -> Seq<(i64, int)> {
    cs.map_values(|c: CacheChange| (c.sequence_number, c.data_value@.len() as int))
}

/// Best effort: for every change past `hs`, a GAP over the numbers skipped, then its data.
/// Returns the submessages and the new highest sent number.
pub open spec fn best_effort_send(cs: Seq<(i64, int)>, hs: i64, max: int) -> (
    Seq<WriterSubmessage>,
    i64,
)
    decreases cs.len(),
{
    if cs.len() == 0 {
        (seq![], hs)
    } else {
        let (items, h) = best_effort_send(cs.drop_last(), hs, max);
        let c = cs.last();
        if c.0 > h {
            let gap = if c.0 > h + 1 {
                seq![WriterSubmessage::Gap { gap_start: (h + 1) as i64, gap_end: (c.0 - 1) as i64 }]
            } else {
                seq![]
            };
            (items + gap + data_items(c.0, c.1, max), c.0)
        } else {
            (items, h)
        }
    }
}

/// The count after `c`: one more, held at the largest value.
pub open spec fn next_count(c: i32) -> i32 {
    if c < i32::MAX {
        (c + 1) as i32
    } else {
        c
    }
}

pub fn increment_count(c: i32) -> (r: i32)
    ensures
        r == next_count(c),
{
    if c < i32::MAX {
        c + 1
    } else {
        c
    }
}

/// Data length of the first change numbered `sn`.
pub open spec fn find_len(cs: Seq<(i64, int)>, sn: i64) -> Option<int>
    decreases cs.len(),
{
    if cs.len() == 0 {
        None
    } else if cs[0].0 == sn {
        Some(cs[0].1)
    } else {
        find_len(cs.drop_first(), sn)
    }
}

/// Reliable sending of change `sn`: its data (a DATA with a HEARTBEAT, or all its
/// fragments) when it is held and relevant, else a GAP. Returns the count after it.
pub open spec fn reliable_change(
    sn: i64,
    found: Option<int>,
    first_relevant: i64,
    max: int,
    count: i32,
    first_sn: i64,
    last_sn: i64,
) -> (Seq<WriterSubmessage>, i32) {
    match found {
        Some(len) => if sn >= first_relevant {
            if num_fragments(len, max) > 1 {
                (data_items(sn, len, max), count)
            } else {
                (
                    seq![
                        WriterSubmessage::Data { sequence_number: sn },
                        WriterSubmessage::Heartbeat { first_sn, last_sn, count },
                    ],
                    next_count(count),
                )
            }
        } else {
            (seq![WriterSubmessage::Gap { gap_start: sn, gap_end: sn }], count)
        },
        None => (seq![WriterSubmessage::Gap { gap_start: sn, gap_end: sn }], count),
    }
}

/// Reliable sending of the changes past `hs`, in order; a GAP over skipped numbers comes
/// with a HEARTBEAT. Returns submessages, highest sent and count.
pub open spec fn reliable_unsent(
    cs: Seq<(i64, int)>,
    hs: i64,
    first_relevant: i64,
    max: int,
    count: i32,
    first_sn: i64,
    last_sn: i64,
) -> (Seq<WriterSubmessage>, i64, i32)
    decreases cs.len(),
{
    if cs.len() == 0 {
        (seq![], hs, count)
    } else {
        let (items, h, k) = reliable_unsent(
            cs.drop_last(),
            hs,
            first_relevant,
            max,
            count,
            first_sn,
            last_sn,
        );
        let c = cs.last();
        if c.0 > h {
            let (gap, k1) = if c.0 > h + 1 {
                (
                    seq![
                        WriterSubmessage::Gap { gap_start: (h + 1) as i64, gap_end: (c.0 - 1) as i64 },
                        WriterSubmessage::Heartbeat { first_sn, last_sn, count: k },
                    ],
                    next_count(k),
                )
            } else {
                (seq![], k)
            };
            let (data, k2) = reliable_change(
                c.0,
                Some(c.1),
                first_relevant,
                max,
                k1,
                first_sn,
                last_sn,
            );
            (items + gap + data, c.0, k2)
        } else {
            (items, h, k)
        }
    }
}

/// Reliable resending of requested changes, in the order requested.
pub open spec fn reliable_requested(
    req: Seq<i64>,
    cs: Seq<(i64, int)>,
    first_relevant: i64,
    max: int,
    count: i32,
    first_sn: i64,
    last_sn: i64,
) -> (Seq<WriterSubmessage>, i32)
    decreases req.len(),
{
    if req.len() == 0 {
        (seq![], count)
    } else {
        let (items, k) = reliable_requested(
            req.drop_last(),
            cs,
            first_relevant,
            max,
            count,
            first_sn,
            last_sn,
        );
        let (more, k1) = reliable_change(
            req.last(),
            find_len(cs, req.last()),
            first_relevant,
            max,
            k,
            first_sn,
            last_sn,
        );
        (items + more, k1)
    }
}

/// A stateful writer's record of one matched remote reader.
#[derive(Debug)]
pub struct RtpsReaderProxy {
    pub remote_reader_guid: Guid,
    pub remote_group_entity_id: EntityId,
    pub unicast_locator_list: Vec<Locator>,
    pub multicast_locator_list: Vec<Locator>,
    pub expects_inline_qos: bool,
    pub is_active: bool,
    pub reliability: ReliabilityKind,
    pub durability: DurabilityKind,
    /// Changes numbered below this are not for this reader.
    pub first_relevant_sample_seq_num: i64,
    pub highest_sent_seq_num: i64,
    /// Every change up to this number has been acknowledged.
    pub highest_acked_seq_num: i64,
    pub requested_changes: Vec<i64>,
    pub last_received_acknack_count: i32,
    pub last_received_nack_frag_count: i32,
    /// Count of the next HEARTBEAT.
    pub heartbeat_count: i32,
    /// When the last HEARTBEAT went out, in milliseconds.
    pub last_heartbeat_time: i64,
}

/// The state of a reader proxy after reliable sending.
pub struct ReliableOutcome {
    pub items: Seq<WriterSubmessage>,
    pub highest_sent: i64,
    pub heartbeat_count: i32,
    pub last_heartbeat_time: i64,
}

/// Whether a sorted change list has any change past `hs`.
pub open spec fn has_unsent(cs: Seq<(i64, int)>, hs: i64) -> bool {
    exists|i: int| 0 <= i < cs.len() && #[trigger] cs[i].0 > hs
}

/// The first and last sequence numbers that a HEARTBEAT announces.
pub open spec fn first_sn_of(cs: Seq<(i64, int)>) -> i64 {
    if cs.len() == 0 {
        1
    } else {
        cs[0].0
    }
}

pub open spec fn last_sn_of(cs: Seq<(i64, int)>) -> i64 {
    if cs.len() == 0 {
        0
    } else {
        cs.last().0
    }
}

/// The part of a reader proxy that reliable sending reads and changes.
pub struct SendState {
    pub highest_sent: i64,
    pub highest_acked: i64,
    pub first_relevant: i64,
    pub requested: Seq<i64>,
    pub heartbeat_count: i32,
    pub last_heartbeat_time: i64,
}

pub open spec fn send_state(p: &RtpsReaderProxy) -> SendState {
    SendState {
        highest_sent: p.highest_sent_seq_num,
        highest_acked: p.highest_acked_seq_num,
        first_relevant: p.first_relevant_sample_seq_num,
        requested: p.requested_changes@,
        heartbeat_count: p.heartbeat_count,
        last_heartbeat_time: p.last_heartbeat_time,
    }
}

/// Reliable sending to a proxy: unsent changes if any, else a periodic HEARTBEAT while
/// changes are unacknowledged; then the requested changes.
pub open spec fn reliable_send(
    p: SendState,
    cs: Seq<(i64, int)>,
    max: int,
    period: i64,
    now: i64,
) -> ReliableOutcome {
    let first = first_sn_of(cs);
    let last = last_sn_of(cs);
    let (items1, hs1, k1, t1) = if has_unsent(cs, p.highest_sent) {
        let (it, h, k) = reliable_unsent(
            cs,
            p.highest_sent,
            p.first_relevant,
            max,
            p.heartbeat_count,
            first,
            last,
        );
        (it, h, k, p.last_heartbeat_time)
    } else if cs.len() > 0 && p.highest_acked < last && now - p.last_heartbeat_time >= period {
        (
            seq![WriterSubmessage::Heartbeat { first_sn: first, last_sn: last, count: p.heartbeat_count }],
            p.highest_sent,
            next_count(p.heartbeat_count),
            now,
        )
    } else {
        (seq![], p.highest_sent, p.heartbeat_count, p.last_heartbeat_time)
    };
    let (items2, k2) = reliable_requested(p.requested, cs, p.first_relevant, max, k1, first, last);
    ReliableOutcome {
        items: items1 + items2,
        highest_sent: hs1,
        heartbeat_count: k2,
        last_heartbeat_time: t1,
    }
}

impl RtpsReaderProxy {
    /// Everything but the sending state is the same in `self` and `other`.
    pub open spec fn same_except_sending(&self, other: &RtpsReaderProxy) -> bool {
        &&& self.remote_reader_guid == other.remote_reader_guid
        &&& self.remote_group_entity_id == other.remote_group_entity_id
        &&& self.unicast_locator_list@ == other.unicast_locator_list@
        &&& self.multicast_locator_list@ == other.multicast_locator_list@
        &&& self.expects_inline_qos == other.expects_inline_qos
        &&& self.is_active == other.is_active
        &&& self.reliability == other.reliability
        &&& self.durability == other.durability
        &&& self.first_relevant_sample_seq_num == other.first_relevant_sample_seq_num
        &&& self.highest_acked_seq_num == other.highest_acked_seq_num
        &&& self.last_received_acknack_count == other.last_received_acknack_count
        &&& self.last_received_nack_frag_count == other.last_received_nack_frag_count
    }
}

/// Changes sorted by strictly increasing sequence number, all positive and below the largest.
pub open spec fn sorted_changes(cs: Seq<(i64, int)>) -> bool {
    &&& forall|i: int, j: int| 0 <= i < j < cs.len() ==> cs[i].0 < cs[j].0
    &&& forall|i: int| 0 <= i < cs.len() ==> 1 <= #[trigger] cs[i].0 < i64::MAX
}

/// Fragment numbers of every change fit in 32 bits.
pub open spec fn fragments_fit(cs: Seq<(i64, int)>, max: int) -> bool {
    forall|i: int| 0 <= i < cs.len() ==> num_fragments(#[trigger] cs[i].1, max) <= u32::MAX
}

pub fn fragment_count(len: usize, max: usize) -> (r: usize)
    requires
        max >= 1,
    ensures
        r == num_fragments(len as int, max as int),
{
    let q = len / max;
    if len % max != 0 {
        assert(q < usize::MAX) by (nonlinear_arith)
            requires
                q == len / max,
                max >= 1,
                len % max != 0,
                len <= usize::MAX,
        {
            if max == 1 {
                assert(len % max == 0);
            } else {
                assert(q * max <= len);
            }
        }
        q + 1
    } else {
        q
    }
}

/// Appends the submessages that carry one change to `out`.
pub(crate) fn push_data_items(out: &mut Vec<SendItem>, reader: usize, sn: i64, len: usize, max: usize)
    requires
        max >= 1,
        num_fragments(len as int, max as int) <= u32::MAX,
    ensures
        final(out)@ == old(out)@ + tag(reader, data_items(sn, len as int, max as int)),
{
    let n = fragment_count(len, max);
    let ghost o0 = out@;
    if n > 1 {
        let mut k: usize = 0;
        while k < n
            invariant
                k <= n,
                n == num_fragments(len as int, max as int),
                n <= u32::MAX,
                n > 1,
                out@ == o0 + tag(reader, data_items(sn, len as int, max as int)).subrange(0, k as int),
            decreases n - k,
        {
            out.push(
                SendItem {
                    reader,
                    submessage: WriterSubmessage::DataFrag {
                        sequence_number: sn,
                        fragment_starting_num: (k + 1) as u32,
                    },
                },
            );
            k += 1;
            assert(out@ =~= o0 + tag(reader, data_items(sn, len as int, max as int)).subrange(0, k as int));
        }
        assert(tag(reader, data_items(sn, len as int, max as int)).subrange(0, k as int) =~= tag(reader, data_items(sn, len as int, max as int)));
    } else {
        out.push(SendItem { reader, submessage: WriterSubmessage::Data { sequence_number: sn } });
        assert(out@ =~= o0 + tag(reader, data_items(sn, len as int, max as int)));
    }
}

/// The submessages tagged with the reader index.
pub open spec fn tag(reader: usize, items: Seq<WriterSubmessage>) -> Seq<SendItem> {
    items.map_values(|m: WriterSubmessage| SendItem { reader, submessage: m })
}

pub proof fn lemma_tag_add(reader: usize, a: Seq<WriterSubmessage>, b: Seq<WriterSubmessage>)
    ensures
        tag(reader, a + b) == tag(reader, a) + tag(reader, b),
{
    assert(tag(reader, a + b) =~= tag(reader, a) + tag(reader, b));
}

/// Best-effort sending to one reader proxy.
pub fn send_message_to_reader_proxy_best_effort(
    reader_proxy: &mut RtpsReaderProxy,
    reader: usize,
    changes: &[CacheChange],
    data_max_size_serialized: usize,
    out: &mut Vec<SendItem>,
)
    requires
        data_max_size_serialized >= 1,
        sorted_changes(summaries(changes@)),
        fragments_fit(summaries(changes@), data_max_size_serialized as int),
    ensures
        ({
            let (items, hs) = best_effort_send(
                summaries(changes@),
                old(reader_proxy).highest_sent_seq_num,
                data_max_size_serialized as int,
            );
            &&& final(out)@ == old(out)@ + tag(reader, items)
            &&& final(reader_proxy).highest_sent_seq_num == hs
        }),
        final(reader_proxy).same_except_sending(old(reader_proxy)),
        final(reader_proxy).requested_changes@ == old(reader_proxy).requested_changes@,
        final(reader_proxy).heartbeat_count == old(reader_proxy).heartbeat_count,
        final(reader_proxy).last_heartbeat_time == old(reader_proxy).last_heartbeat_time,
{
    let ghost cs = summaries(changes@);
    let ghost hs0 = reader_proxy.highest_sent_seq_num;
    let ghost o0 = out@;
    let max = data_max_size_serialized;
    let mut i: usize = 0;
    while i < changes.len()
        invariant
            max >= 1,
            i <= changes@.len(),
            cs == summaries(changes@),
            fragments_fit(cs, max as int),
            reader_proxy.same_except_sending(old(reader_proxy)),
            reader_proxy.requested_changes@ == old(reader_proxy).requested_changes@,
            reader_proxy.heartbeat_count == old(reader_proxy).heartbeat_count,
            reader_proxy.last_heartbeat_time == old(reader_proxy).last_heartbeat_time,
            ({
                let (items, hs) = best_effort_send(cs.subrange(0, i as int), hs0, max as int);
                &&& out@ == o0 + tag(reader, items)
                &&& reader_proxy.highest_sent_seq_num == hs
            }),
        decreases changes@.len() - i,
    {
        let ghost pre = cs.subrange(0, i as int);
        let ghost (items0, _h0) = best_effort_send(pre, hs0, max as int);
        proof {
            assert(cs.subrange(0, i + 1).drop_last() =~= pre);
            assert(cs[i as int] == (changes@[i as int].sequence_number, changes@[i as int].data_value@.len() as int));
        }
        let sn = changes[i].sequence_number;
        let h = reader_proxy.highest_sent_seq_num;
        assert(num_fragments(cs[i as int].1, max as int) <= u32::MAX);
        if sn > h {
            if sn > h + 1 {
                out.push(
                    SendItem {
                        reader,
                        submessage: WriterSubmessage::Gap { gap_start: h + 1, gap_end: sn - 1 },
                    },
                );
            }
            let ghost o2 = out@;
            push_data_items(out, reader, sn, changes[i].data_value.len(), max);
            reader_proxy.highest_sent_seq_num = sn;
            proof {
                let gap = if sn > h + 1 {
                    seq![WriterSubmessage::Gap { gap_start: (h + 1) as i64, gap_end: (sn - 1) as i64 }]
                } else {
                    seq![]
                };
                let d = data_items(sn, changes@[i as int].data_value@.len() as int, max as int);
                lemma_tag_add(reader, items0 + gap, d);
                lemma_tag_add(reader, items0, gap);
                assert(o2 =~= o0 + tag(reader, items0) + tag(reader, gap));
                assert(out@ =~= o0 + tag(reader, items0 + gap + d));
            }
        }
        i += 1;
    }
    assert(cs.subrange(0, i as int) =~= cs);
}

/// Data length of the first change numbered `sn`.
pub(crate) fn find_change_len(changes: &[CacheChange], sn: i64) -> (r: Option<usize>)
    ensures
        match (r, find_len(summaries(changes@), sn)) {
            (Some(l), Some(l2)) => l as int == l2,
            (None, None) => true,
            _ => false,
        },
{
    let ghost cs = summaries(changes@);
    let mut i: usize = 0;
    assert(cs.subrange(0, cs.len() as int) =~= cs);
    while i < changes.len()
        invariant
            i <= changes@.len(),
            cs == summaries(changes@),
            find_len(cs, sn) == find_len(cs.subrange(i as int, cs.len() as int), sn),
        decreases changes@.len() - i,
    {
        let ghost rest = cs.subrange(i as int, cs.len() as int);
        assert(rest.drop_first() =~= cs.subrange(i + 1, cs.len() as int));
        assert(rest[0] == cs[i as int]);
        if changes[i].sequence_number == sn {
            return Some(changes[i].data_value.len());
        }
        i += 1;
    }
    None
}

/// Reliable sending of change `change_seq_num` to one reader proxy.
pub fn send_change_message_reader_proxy_reliable(
    reader_proxy: &mut RtpsReaderProxy,
    reader: usize,
    changes: &[CacheChange],
    first_sn: i64,
    last_sn: i64,
    data_max_size_serialized: usize,
    change_seq_num: i64,
    out: &mut Vec<SendItem>,
)
    requires
        data_max_size_serialized >= 1,
        fragments_fit(summaries(changes@), data_max_size_serialized as int),
    ensures
        ({
            let (items, k) = reliable_change(
                change_seq_num,
                find_len(summaries(changes@), change_seq_num),
                old(reader_proxy).first_relevant_sample_seq_num,
                data_max_size_serialized as int,
                old(reader_proxy).heartbeat_count,
                first_sn,
                last_sn,
            );
            &&& final(out)@ == old(out)@ + tag(reader, items)
            &&& final(reader_proxy).heartbeat_count == k
        }),
        final(reader_proxy).same_except_sending(old(reader_proxy)),
        final(reader_proxy).requested_changes@ == old(reader_proxy).requested_changes@,
        final(reader_proxy).highest_sent_seq_num == old(reader_proxy).highest_sent_seq_num,
        final(reader_proxy).last_heartbeat_time == old(reader_proxy).last_heartbeat_time,
{
    let ghost o0 = out@;
    let max = data_max_size_serialized;
    let found = find_change_len(changes, change_seq_num);
    if found.is_some() && change_seq_num >= reader_proxy.first_relevant_sample_seq_num {
        let len = found.unwrap();
        proof {
            lemma_find_len_fits(summaries(changes@), change_seq_num, max as int);
        }
        if fragment_count(len, max) > 1 {
            push_data_items(out, reader, change_seq_num, len, max);
        } else {
            out.push(
                SendItem {
                    reader,
                    submessage: WriterSubmessage::Data { sequence_number: change_seq_num },
                },
            );
            out.push(
                SendItem {
                    reader,
                    submessage: WriterSubmessage::Heartbeat {
                        first_sn,
                        last_sn,
                        count: reader_proxy.heartbeat_count,
                    },
                },
            );
            reader_proxy.heartbeat_count = increment_count(reader_proxy.heartbeat_count);
            assert(out@ =~= o0 + tag(reader, seq![
                WriterSubmessage::Data { sequence_number: change_seq_num },
                WriterSubmessage::Heartbeat { first_sn, last_sn, count: old(reader_proxy).heartbeat_count },
            ]));
        }
    } else {
        out.push(
            SendItem {
                reader,
                submessage: WriterSubmessage::Gap { gap_start: change_seq_num, gap_end: change_seq_num },
            },
        );
        assert(out@ =~= o0 + tag(reader, seq![WriterSubmessage::Gap { gap_start: change_seq_num, gap_end: change_seq_num }]));
    }
}

pub proof fn lemma_find_len_fits(cs: Seq<(i64, int)>, sn: i64, max: int)
    requires
        fragments_fit(cs, max),
    ensures
        match find_len(cs, sn) {
            Some(l) => num_fragments(l, max) <= u32::MAX,
            None => true,
        },
    decreases cs.len(),
{
    if cs.len() > 0 {
        assert(num_fragments(cs[0].1, max) <= u32::MAX);
        assert forall|i: int| 0 <= i < cs.drop_first().len() implies num_fragments(
            #[trigger] cs.drop_first()[i].1,
            max,
        ) <= u32::MAX by {
            assert(cs.drop_first()[i] == cs[i + 1]);
        }
        lemma_find_len_fits(cs.drop_first(), sn, max);
    }
}

/// Reliable sending of the changes past the highest sent number.
fn send_unsent_reliable(
    reader_proxy: &mut RtpsReaderProxy,
    reader: usize,
    changes: &[CacheChange],
    first_sn: i64,
    last_sn: i64,
    max: usize,
    out: &mut Vec<SendItem>,
)
    requires
        max >= 1,
        fragments_fit(summaries(changes@), max as int),
    ensures
        ({
            let (items, hs, k) = reliable_unsent(
                summaries(changes@),
                old(reader_proxy).highest_sent_seq_num,
                old(reader_proxy).first_relevant_sample_seq_num,
                max as int,
                old(reader_proxy).heartbeat_count,
                first_sn,
                last_sn,
            );
            &&& final(out)@ == old(out)@ + tag(reader, items)
            &&& final(reader_proxy).highest_sent_seq_num == hs
            &&& final(reader_proxy).heartbeat_count == k
        }),
        final(reader_proxy).same_except_sending(old(reader_proxy)),
        final(reader_proxy).requested_changes@ == old(reader_proxy).requested_changes@,
        final(reader_proxy).last_heartbeat_time == old(reader_proxy).last_heartbeat_time,
{
    let ghost cs = summaries(changes@);
    let ghost o0 = out@;
    let ghost p0 = *old(reader_proxy);
    let n = changes.len();
        let mut i: usize = 0;
    while i < n
        invariant
            max >= 1,
            n == changes@.len(),
            i <= n,
            cs == summaries(changes@),
            fragments_fit(cs, max as int),
            reader_proxy.same_except_sending(&p0),
            reader_proxy.requested_changes@ == p0.requested_changes@,
            reader_proxy.last_heartbeat_time == p0.last_heartbeat_time,
            ({
                let (items, hs, k) = reliable_unsent(
                    cs.subrange(0, i as int),
                    p0.highest_sent_seq_num,
                    p0.first_relevant_sample_seq_num,
                    max as int,
                    p0.heartbeat_count,
                    first_sn,
                    last_sn,
                );
                &&& out@ == o0 + tag(reader, items)
                &&& reader_proxy.highest_sent_seq_num == hs
                &&& reader_proxy.heartbeat_count == k
            }),
        decreases n - i,
    {
        let ghost pre = cs.subrange(0, i as int);
        let ghost (items0, _h0, _k0) = reliable_unsent(
            pre,
            p0.highest_sent_seq_num,
            p0.first_relevant_sample_seq_num,
            max as int,
            p0.heartbeat_count,
            first_sn,
            last_sn,
        );
        proof {
            assert(cs.subrange(0, i + 1).drop_last() =~= pre);
            assert(cs[i as int] == (changes@[i as int].sequence_number, changes@[i as int].data_value@.len() as int));
            assert(num_fragments(cs[i as int].1, max as int) <= u32::MAX);
        }
        let sn = changes[i].sequence_number;
        let len = changes[i].data_value.len();
        let h = reader_proxy.highest_sent_seq_num;
        if sn > h {
            let ghost k0 = reader_proxy.heartbeat_count;
            if sn > h + 1 {
                out.push(
                    SendItem {
                        reader,
                        submessage: WriterSubmessage::Gap { gap_start: h + 1, gap_end: sn - 1 },
                    },
                );
                out.push(
                    SendItem {
                        reader,
                        submessage: WriterSubmessage::Heartbeat {
                            first_sn,
                            last_sn,
                            count: reader_proxy.heartbeat_count,
                        },
                    },
                );
                reader_proxy.heartbeat_count = increment_count(reader_proxy.heartbeat_count);
            }
            let ghost o2 = out@;
            let ghost k1 = reader_proxy.heartbeat_count;
            let ghost gap = if sn > h + 1 {
                seq![
                    WriterSubmessage::Gap { gap_start: (h + 1) as i64, gap_end: (sn - 1) as i64 },
                    WriterSubmessage::Heartbeat { first_sn, last_sn, count: k0 },
                ]
            } else {
                seq![]
            };
            assert(o2 =~= o0 + tag(reader, items0) + tag(reader, gap));
            let ghost before_change = *reader_proxy;
            if sn >= reader_proxy.first_relevant_sample_seq_num {
                if fragment_count(len, max) > 1 {
                    push_data_items(out, reader, sn, len, max);
                } else {
                    out.push(
                        SendItem {
                            reader,
                            submessage: WriterSubmessage::Data { sequence_number: sn },
                        },
                    );
                    out.push(
                        SendItem {
                            reader,
                            submessage: WriterSubmessage::Heartbeat {
                                first_sn,
                                last_sn,
                                count: reader_proxy.heartbeat_count,
                            },
                        },
                    );
                    reader_proxy.heartbeat_count = increment_count(reader_proxy.heartbeat_count);
                }
            } else {
                out.push(
                    SendItem {
                        reader,
                        submessage: WriterSubmessage::Gap { gap_start: sn, gap_end: sn },
                    },
                );
            }
            reader_proxy.highest_sent_seq_num = sn;
            proof {
                let (d, _k2) = reliable_change(
                    sn,
                    Some(len as int),
                    p0.first_relevant_sample_seq_num,
                    max as int,
                    k1,
                    first_sn,
                    last_sn,
                );
                assert(out@ =~= o2 + tag(reader, d));
                lemma_tag_add(reader, items0 + gap, d);
                lemma_tag_add(reader, items0, gap);
                assert(out@ =~= o0 + tag(reader, items0 + gap + d));
            }
        }
        i += 1;
    }
    assert(cs.subrange(0, i as int) =~= cs);
}

/// Reliable resending of the requested changes, which are then cleared.
fn send_requested_reliable(
    reader_proxy: &mut RtpsReaderProxy,
    reader: usize,
    changes: &[CacheChange],
    first_sn: i64,
    last_sn: i64,
    max: usize,
    out: &mut Vec<SendItem>,
)
    requires
        max >= 1,
        fragments_fit(summaries(changes@), max as int),
    ensures
        ({
            let (items, k) = reliable_requested(
                old(reader_proxy).requested_changes@,
                summaries(changes@),
                old(reader_proxy).first_relevant_sample_seq_num,
                max as int,
                old(reader_proxy).heartbeat_count,
                first_sn,
                last_sn,
            );
            &&& final(out)@ == old(out)@ + tag(reader, items)
            &&& final(reader_proxy).heartbeat_count == k
        }),
        final(reader_proxy).same_except_sending(old(reader_proxy)),
        final(reader_proxy).requested_changes@.len() == 0,
        final(reader_proxy).highest_sent_seq_num == old(reader_proxy).highest_sent_seq_num,
        final(reader_proxy).last_heartbeat_time == old(reader_proxy).last_heartbeat_time,
{
    let ghost cs = summaries(changes@);
    let ghost p0 = *old(reader_proxy);
    let ghost o1 = out@;
    let ghost mid = *reader_proxy;
    let mut requested: Vec<i64> = Vec::new();
    std::mem::swap(&mut requested, &mut reader_proxy.requested_changes);
    let mut j: usize = 0;
    while j < requested.len()
        invariant
            max >= 1,
            j <= requested@.len(),
            requested@ == p0.requested_changes@,
            cs == summaries(changes@),
            fragments_fit(cs, max as int),
            reader_proxy.same_except_sending(&p0),
            reader_proxy.requested_changes@.len() == 0,
            reader_proxy.highest_sent_seq_num == mid.highest_sent_seq_num,
            reader_proxy.last_heartbeat_time == mid.last_heartbeat_time,
            ({
                let (items, k) = reliable_requested(
                    requested@.subrange(0, j as int),
                    cs,
                    p0.first_relevant_sample_seq_num,
                    max as int,
                    mid.heartbeat_count,
                    first_sn,
                    last_sn,
                );
                &&& out@ == o1 + tag(reader, items)
                &&& reader_proxy.heartbeat_count == k
            }),
        decreases requested@.len() - j,
    {
        let ghost pre = requested@.subrange(0, j as int);
        let ghost (items0, _k0) = reliable_requested(
            pre,
            cs,
            p0.first_relevant_sample_seq_num,
            max as int,
            mid.heartbeat_count,
            first_sn,
            last_sn,
        );
        let ghost o2 = out@;
        assert(requested@.subrange(0, j + 1).drop_last() =~= pre);
        send_change_message_reader_proxy_reliable(
            reader_proxy,
            reader,
            changes,
            first_sn,
            last_sn,
            max,
            requested[j],
            out,
        );
        proof {
            let (d, _k) = reliable_change(
                requested@[j as int],
                find_len(cs, requested@[j as int]),
                p0.first_relevant_sample_seq_num,
                max as int,
                _k0,
                first_sn,
                last_sn,
            );
            lemma_tag_add(reader, items0, d);
        }
        j += 1;
    }
    assert(requested@.subrange(0, j as int) =~= p0.requested_changes@);
}

/// Reliable sending to one reader proxy, at time `now` in milliseconds.
pub fn send_message_to_reader_proxy_reliable(
    reader_proxy: &mut RtpsReaderProxy,
    reader: usize,
    changes: &[CacheChange],
    data_max_size_serialized: usize,
    heartbeat_period: i64,
    now: i64,
    out: &mut Vec<SendItem>,
)
    requires
        data_max_size_serialized >= 1,
        sorted_changes(summaries(changes@)),
        fragments_fit(summaries(changes@), data_max_size_serialized as int),
        0 <= old(reader_proxy).last_heartbeat_time <= now,
    ensures
        ({
            let o = reliable_send(
                send_state(old(reader_proxy)),
                summaries(changes@),
                data_max_size_serialized as int,
                heartbeat_period,
                now,
            );
            &&& final(out)@ == old(out)@ + tag(reader, o.items)
            &&& final(reader_proxy).highest_sent_seq_num == o.highest_sent
            &&& final(reader_proxy).heartbeat_count == o.heartbeat_count
            &&& final(reader_proxy).last_heartbeat_time == o.last_heartbeat_time
        }),
        final(reader_proxy).same_except_sending(old(reader_proxy)),
        final(reader_proxy).requested_changes@.len() == 0,
{
    let ghost cs = summaries(changes@);
    let ghost o0 = out@;
    let ghost p0 = *old(reader_proxy);
    let max = data_max_size_serialized;
    let n = changes.len();
    let first_sn: i64 = if n == 0 { 1 } else { changes[0].sequence_number };
    let last_sn: i64 = if n == 0 { 0 } else { changes[n - 1].sequence_number };
    proof {
        if n > 0 {
            assert(cs[0].0 == changes@[0].sequence_number);
            assert(cs.last().0 == changes@[n - 1].sequence_number);
        }
    }
    // Unsent changes exist exactly when the last change is past the highest sent.
    let unsent = n > 0 && changes[n - 1].sequence_number > reader_proxy.highest_sent_seq_num;
    proof {
        if has_unsent(cs, p0.highest_sent_seq_num) {
            let j = choose|j: int| 0 <= j < cs.len() && #[trigger] cs[j].0 > p0.highest_sent_seq_num;
            if j < n - 1 {
                assert(cs[j].0 < cs[n - 1].0);
            }
        }
        if unsent {
            assert(cs[n - 1].0 > p0.highest_sent_seq_num);
        }
    }
    if unsent {
        send_unsent_reliable(reader_proxy, reader, changes, first_sn, last_sn, max, out);
    } else if n > 0 && reader_proxy.highest_acked_seq_num < last_sn
        && now - reader_proxy.last_heartbeat_time >= heartbeat_period {
        out.push(
            SendItem {
                reader,
                submessage: WriterSubmessage::Heartbeat {
                    first_sn,
                    last_sn,
                    count: reader_proxy.heartbeat_count,
                },
            },
        );
        reader_proxy.heartbeat_count = increment_count(reader_proxy.heartbeat_count);
        reader_proxy.last_heartbeat_time = now;
        assert(out@ =~= o0 + tag(reader, seq![WriterSubmessage::Heartbeat { first_sn, last_sn, count: p0.heartbeat_count }]));
    } else {
        assert(out@ =~= o0 + tag(reader, seq![]));
    }
    let ghost o1 = out@;
    send_requested_reliable(reader_proxy, reader, changes, first_sn, last_sn, max, out);
    proof {
        assert forall|a: Seq<WriterSubmessage>, b: Seq<WriterSubmessage>|
            #[trigger] tag(reader, a + b) == tag(reader, a) + tag(reader, b) by {
            lemma_tag_add(reader, a, b);
        }
    }
}

/// What one proxy is sent by `send_message`.
pub open spec fn proxy_output(
    p: &RtpsReaderProxy,
    cs: Seq<(i64, int)>,
    max: int,
    period: i64,
    now: i64,
) -> Seq<WriterSubmessage> {
    match p.reliability {
        ReliabilityKind::BestEffort => best_effort_send(cs, p.highest_sent_seq_num, max).0,
        ReliabilityKind::Reliable => reliable_send(send_state(p), cs, max, period, now).items,
    }
}

/// `new` is `old` after sending to it.
pub open spec fn proxy_sent(
    old: &RtpsReaderProxy,
    new: &RtpsReaderProxy,
    cs: Seq<(i64, int)>,
    max: int,
    period: i64,
    now: i64,
) -> bool {
    &&& new.same_except_sending(old)
    &&& match old.reliability {
        ReliabilityKind::BestEffort => {
            &&& new.highest_sent_seq_num == best_effort_send(cs, old.highest_sent_seq_num, max).1
            &&& new.requested_changes@ == old.requested_changes@
            &&& new.heartbeat_count == old.heartbeat_count
            &&& new.last_heartbeat_time == old.last_heartbeat_time
        },
        ReliabilityKind::Reliable => {
            let o = reliable_send(send_state(old), cs, max, period, now);
            &&& new.highest_sent_seq_num == o.highest_sent
            &&& new.heartbeat_count == o.heartbeat_count
            &&& new.last_heartbeat_time == o.last_heartbeat_time
            &&& new.requested_changes@.len() == 0
        },
    }
}

/// Output of `send_message` for the first `ps.len()` proxies, each tagged with its index.
pub open spec fn all_output(
    ps: Seq<RtpsReaderProxy>,
    cs: Seq<(i64, int)>,
    max: int,
    period: i64,
    now: i64,
) -> Seq<SendItem>
    decreases ps.len(),
{
    if ps.len() == 0 {
        seq![]
    } else {
        all_output(ps.drop_last(), cs, max, period, now) + tag(
            (ps.len() - 1) as usize,
            proxy_output(&ps.last(), cs, max, period, now),
        )
    }
}

/// The remote reader a stateful writer learns of through discovery.
#[derive(Debug)]
pub struct ReaderProxy {
    pub remote_reader_guid: Guid,
    pub remote_group_entity_id: EntityId,
    pub unicast_locator_list: Vec<Locator>,
    pub multicast_locator_list: Vec<Locator>,
    pub expects_inline_qos: bool,
    pub reliability_kind: ReliabilityKind,
    pub durability_kind: DurabilityKind,
}

/// `add` appended to `old`, each number once.
pub open spec fn append_new(old: Seq<i64>, add: Seq<i64>) -> Seq<i64>
    decreases add.len(),
{
    if add.len() == 0 {
        old
    } else {
        let r = append_new(old, add.drop_last());
        if r.contains(add.last()) {
            r
        } else {
            r.push(add.last())
        }
    }
}

fn append_requested(requested: &mut Vec<i64>, add: &Vec<i64>)
    ensures
        final(requested)@ == append_new(old(requested)@, add@),
{
    let ghost r0 = requested@;
    let mut i: usize = 0;
    while i < add.len()
        invariant
            i <= add@.len(),
            requested@ == append_new(r0, add@.subrange(0, i as int)),
        decreases add@.len() - i,
    {
        assert(add@.subrange(0, i + 1).drop_last() =~= add@.subrange(0, i as int));
        let s = add[i];
        let mut present = false;
        let mut k: usize = 0;
        while k < requested.len()
            invariant
                k <= requested@.len(),
                present == exists|j: int| 0 <= j < k && requested@[j] == s,
            decreases requested@.len() - k,
        {
            if requested[k] == s {
                present = true;
            }
            k += 1;
        }
        proof {
            if present {
                let j = choose|j: int| 0 <= j < k && requested@[j] == s;
                assert(requested@.contains(s));
            }
        }
        if !present {
            requested.push(s);
        }
        i += 1;
    }
    assert(add@.subrange(0, i as int) =~= add@);
}

/// A writer that keeps a proxy per matched reader and sends reliably or best-effort.
pub struct RtpsStatefulWriter {
    guid: Guid,
    changes: Vec<CacheChange>,
    /// The largest sequence number given out so far.
    last_change_sequence_number: i64,
    matched_readers: Vec<RtpsReaderProxy>,
    heartbeat_period: i64,
    data_max_size_serialized: usize,
}

/// Index of the first proxy of reader `g`.
pub open spec fn find_proxy(ps: Seq<RtpsReaderProxy>, g: (Seq<u8>, EntityId)) -> Option<int> {
    if exists|i: int| 0 <= i < ps.len() && (#[trigger] ps[i]).remote_reader_guid@ == g {
        Some(
            choose|i: int|
                0 <= i < ps.len() && (#[trigger] ps[i]).remote_reader_guid@ == g && forall|j: int|
                    0 <= j < i ==> ps[j].remote_reader_guid@ != g,
        )
    } else {
        None
    }
}

impl RtpsStatefulWriter {
    pub closed spec fn spec_guid(&self) -> Guid {
        self.guid
    }

    /// The sequence numbers and sizes of the changes held, in order.
    pub closed spec fn change_summaries(&self) -> Seq<(i64, int)> {
        summaries(self.changes@)
    }

    /// The changes held, in order.
    pub closed spec fn changes(&self) -> Seq<CacheChange> {
        self.changes@
    }

    /// The largest sequence number given out so far.
    pub closed spec fn last_sn(&self) -> i64 {
        self.last_change_sequence_number
    }

    pub closed spec fn proxies(&self) -> Seq<RtpsReaderProxy> {
        self.matched_readers@
    }

    pub closed spec fn max_size(&self) -> int {
        self.data_max_size_serialized as int
    }

    pub closed spec fn period(&self) -> i64 {
        self.heartbeat_period
    }

    pub closed spec fn wf(&self) -> bool {
        &&& self.data_max_size_serialized >= 1
        &&& sorted_changes(summaries(self.changes@))
        &&& fragments_fit(summaries(self.changes@), self.data_max_size_serialized as int)
        &&& 0 <= self.last_change_sequence_number < i64::MAX
        &&& forall|i: int| 0 <= i < self.changes@.len() ==> (#[trigger] self.changes@[i]).sequence_number <= self.last_change_sequence_number
        &&& forall|i: int|
            0 <= i < self.matched_readers@.len() ==> 0 <= (
            #[trigger] self.matched_readers@[i]).last_heartbeat_time
    }

    pub fn new(guid: Guid, data_max_size_serialized: usize) -> (r: Self)
        requires
            data_max_size_serialized >= 1,
        ensures
            r.wf(),
            r.spec_guid() == guid,
            r.max_size() == data_max_size_serialized,
            r.change_summaries().len() == 0,
            r.proxies().len() == 0,
            r.period() == 200,
    {
        RtpsStatefulWriter {
            guid,
            changes: Vec::new(),
            last_change_sequence_number: 0,
            matched_readers: Vec::new(),
            heartbeat_period: 200,
            data_max_size_serialized,
        }
    }

    pub fn guid(&self) -> (r: Guid)
        ensures
            r == self.spec_guid(),
    {
        self.guid
    }

    pub fn data_max_size_serialized(&self) -> (r: usize)
        ensures
            r == self.max_size(),
    {
        self.data_max_size_serialized
    }

    /// Sends to every matched reader what it is owed at time `now` (milliseconds).
    pub fn send_message(&mut self, now: i64) -> (r: Vec<SendItem>)
        requires
            old(self).wf(),
            forall|i: int|
                0 <= i < old(self).proxies().len() ==> (#[trigger] old(self).proxies()[i]).last_heartbeat_time
                    <= now,
        ensures
            final(self).wf(),
            r@ == all_output(
                old(self).proxies(),
                old(self).change_summaries(),
                old(self).max_size(),
                old(self).period(),
                now,
            ),
            final(self).proxies().len() == old(self).proxies().len(),
            forall|i: int|
                0 <= i < old(self).proxies().len() ==> proxy_sent(
                    &old(self).proxies()[i],
                    &#[trigger] final(self).proxies()[i],
                    old(self).change_summaries(),
                    old(self).max_size(),
                    old(self).period(),
                    now,
                ),
            final(self).change_summaries() == old(self).change_summaries(),
            final(self).changes() == old(self).changes(),
            final(self).last_sn() == old(self).last_sn(),
            final(self).spec_guid() == old(self).spec_guid(),
            final(self).max_size() == old(self).max_size(),
            final(self).period() == old(self).period(),
    {
        let mut out: Vec<SendItem> = Vec::new();
        let n = self.matched_readers.len();
        let ghost ps0 = self.matched_readers@;
        let ghost cs = summaries(self.changes@);
        let mut i: usize = 0;
        assert forall|j: int| 0 <= j < ps0.len() implies (#[trigger] ps0[j]).last_heartbeat_time <= now by {
            assert(old(self).proxies()[j] == ps0[j]);
        }
        while i < n
            invariant
                self.wf(),
                n == ps0.len(),
                i <= n,
                self.matched_readers@.len() == n,
                cs == summaries(self.changes@),
                self.guid == old(self).guid,
                self.data_max_size_serialized == old(self).data_max_size_serialized,
                self.heartbeat_period == old(self).heartbeat_period,
                self.changes@ == old(self).changes@,
                self.last_change_sequence_number == old(self).last_change_sequence_number,
                ps0 == old(self).matched_readers@,
                forall|j: int| 0 <= j < ps0.len() ==> (#[trigger] ps0[j]).last_heartbeat_time <= now,
                forall|j: int|
                    i <= j < n ==> #[trigger] self.matched_readers@[j] == ps0[j],
                forall|j: int|
                    0 <= j < i ==> proxy_sent(
                        &ps0[j],
                        &#[trigger] self.matched_readers@[j],
                        cs,
                        self.data_max_size_serialized as int,
                        self.heartbeat_period,
                        now,
                    ),
                out@ == all_output(
                    ps0.subrange(0, i as int),
                    cs,
                    self.data_max_size_serialized as int,
                    self.heartbeat_period,
                    now,
                ),
            decreases n - i,
        {
            let mut p = self.matched_readers.remove(i);
            let ghost p0 = p;
            assert(p0 == ps0[i as int]);
            let ghost o1 = out@;
            match p.reliability {
                ReliabilityKind::BestEffort => {
                    send_message_to_reader_proxy_best_effort(
                        &mut p,
                        i,
                        self.changes.as_slice(),
                        self.data_max_size_serialized,
                        &mut out,
                    );
                },
                ReliabilityKind::Reliable => {
                    send_message_to_reader_proxy_reliable(
                        &mut p,
                        i,
                        self.changes.as_slice(),
                        self.data_max_size_serialized,
                        self.heartbeat_period,
                        now,
                        &mut out,
                    );
                },
            }
            self.matched_readers.insert(i, p);
            proof {
                assert(ps0.subrange(0, i + 1).drop_last() =~= ps0.subrange(0, i as int));
                assert(ps0.subrange(0, i + 1).last() == p0);
            }
            i += 1;
        }
        assert(ps0.subrange(0, n as int) =~= ps0);
        out
    }
}

/// `cs` without the changes numbered `sn`, order kept.
pub open spec fn remove_sn(cs: Seq<(i64, int)>, sn: i64) -> Seq<(i64, int)>
    decreases cs.len(),
{
    if cs.len() == 0 {
        cs
    } else {
        let r = remove_sn(cs.drop_last(), sn);
        if cs.last().0 == sn {
            r
        } else {
            r.push(cs.last())
        }
    }
}

/// The changes of `cs` but those numbered `sn`, order kept.
pub open spec fn without_sn(cs: Seq<CacheChange>, sn: i64) -> Seq<CacheChange>
    decreases cs.len(),
{
    if cs.len() == 0 {
        cs
    } else {
        let r = without_sn(cs.drop_last(), sn);
        if cs.last().sequence_number == sn {
            r
        } else {
            r.push(cs.last())
        }
    }
}

proof fn lemma_remove_sn(cs: Seq<(i64, int)>, sn: i64, max: int)
    requires
        sorted_changes(cs),
        fragments_fit(cs, max),
    ensures
        sorted_changes(remove_sn(cs, sn)),
        fragments_fit(remove_sn(cs, sn), max),
        forall|i: int|
            0 <= i < remove_sn(cs, sn).len() ==> cs.contains(#[trigger] remove_sn(cs, sn)[i]),
    decreases cs.len(),
{
    if cs.len() > 0 {
        let d = cs.drop_last();
        assert(sorted_changes(d));
        assert forall|i: int| 0 <= i < d.len() implies num_fragments(#[trigger] d[i].1, max) <= u32::MAX by {
            assert(d[i] == cs[i]);
        }
        lemma_remove_sn(d, sn, max);
        let r = remove_sn(d, sn);
        assert forall|i: int| 0 <= i < r.len() implies cs.contains(#[trigger] r[i]) by {
            let j = choose|j: int| 0 <= j < d.len() && d[j] == r[i];
            assert(cs[j] == r[i]);
        }
        if cs.last().0 != sn {
            let r2 = r.push(cs.last());
            assert forall|i: int| 0 <= i < r.len() implies (#[trigger] r[i]).0 < cs.last().0 by {
                let j = choose|j: int| 0 <= j < d.len() && d[j] == r[i];
                assert(cs[j] == r[i]);
            }
            assert forall|i: int| 0 <= i < r2.len() implies cs.contains(#[trigger] r2[i]) by {
                if i == r.len() {
                    assert(cs[cs.len() - 1] == r2[i]);
                }
            }
            assert(num_fragments(cs[cs.len() - 1].1, max) <= u32::MAX);
        }
    }
}

/// `ps` without the proxies of reader `g`, order kept.
pub open spec fn remove_proxy(ps: Seq<RtpsReaderProxy>, g: (Seq<u8>, EntityId)) -> Seq<RtpsReaderProxy>
    decreases ps.len(),
{
    if ps.len() == 0 {
        ps
    } else {
        let r = remove_proxy(ps.drop_last(), g);
        if ps.last().remote_reader_guid@ == g {
            r
        } else {
            r.push(ps.last())
        }
    }
}

proof fn lemma_remove_proxy(ps: Seq<RtpsReaderProxy>, g: (Seq<u8>, EntityId))
    ensures
        forall|i: int|
            0 <= i < remove_proxy(ps, g).len() ==> ps.contains(#[trigger] remove_proxy(ps, g)[i]),
    decreases ps.len(),
{
    if ps.len() > 0 {
        let d = ps.drop_last();
        lemma_remove_proxy(d, g);
        let r = remove_proxy(d, g);
        assert forall|i: int| 0 <= i < r.len() implies ps.contains(#[trigger] r[i]) by {
            let j = choose|j: int| 0 <= j < d.len() && d[j] == r[i];
            assert(ps[j] == r[i]);
        }
        if ps.last().remote_reader_guid@ != g {
            let r2 = r.push(ps.last());
            assert forall|i: int| 0 <= i < r2.len() implies ps.contains(#[trigger] r2[i]) by {
                if i == r.len() {
                    assert(ps[ps.len() - 1] == r2[i]);
                }
            }
        }
    }
}

/// The set of an ACKNACK as sequence numbers, ascending.
pub open spec fn ack_members(a: &AckNackSubmessage) -> Seq<i64> {
    a.reader_sn_state.members().map_values(|x: int| x as i64)
}

/// A sequence number set that can be read back: well formed and based at a valid number.
pub open spec fn usable_set(s: &crate::elements::SequenceNumberSetUdp) -> bool {
    s.wf() && s.base.value() >= 1 && s.base.value() + 256 <= i64::MAX
}

/// The first relevant sequence number of a new reader: past the changes held when
/// volatile, else the first.
pub open spec fn first_relevant_for(d: DurabilityKind, cs: Seq<(i64, int)>) -> i64 {
    match d {
        DurabilityKind::Volatile => if cs.len() == 0 {
            1
        } else {
            (cs.last().0 + 1) as i64
        },
        _ => 1,
    }
}

impl RtpsStatefulWriter {
    /// Adds a change and sends what every matched reader is then owed.
    pub fn add_change(&mut self, cache_change: CacheChange, now: i64) -> (r: Vec<SendItem>)
        requires
            old(self).wf(),
            cache_change.sequence_number >= 1,
            cache_change.sequence_number < i64::MAX,
            forall|i: int|
                0 <= i < old(self).change_summaries().len() ==> (#[trigger] old(self).change_summaries()[i]).0
                    < cache_change.sequence_number,
            num_fragments(cache_change.data_value@.len() as int, old(self).max_size()) <= u32::MAX,
            forall|i: int|
                0 <= i < old(self).proxies().len() ==> (#[trigger] old(self).proxies()[i]).last_heartbeat_time
                    <= now,
        ensures
            final(self).wf(),
            ({
                let cs = old(self).change_summaries().push(
                    (cache_change.sequence_number, cache_change.data_value@.len() as int),
                );
                &&& final(self).change_summaries() == cs
                &&& final(self).changes() == old(self).changes().push(cache_change)
                &&& final(self).last_sn() == (if cache_change.sequence_number > old(self).last_sn() {
                    cache_change.sequence_number
                } else {
                    old(self).last_sn()
                })
                &&& r@ == all_output(old(self).proxies(), cs, old(self).max_size(), old(self).period(), now)
                &&& final(self).proxies().len() == old(self).proxies().len()
                &&& forall|i: int|
                    0 <= i < old(self).proxies().len() ==> proxy_sent(
                        &old(self).proxies()[i],
                        &#[trigger] final(self).proxies()[i],
                        cs,
                        old(self).max_size(),
                        old(self).period(),
                        now,
                    )
            }),
    {
        let ghost c0 = summaries(self.changes@);
        if cache_change.sequence_number > self.last_change_sequence_number {
            self.last_change_sequence_number = cache_change.sequence_number;
        }
        let ghost ch0 = self.changes@;
        self.changes.push(cache_change);
        proof {
            assert forall|i: int| 0 <= i < self.changes@.len() implies (#[trigger] self.changes@[i]).sequence_number
                <= self.last_change_sequence_number by {
                if i < ch0.len() {
                    assert(self.changes@[i] == ch0[i]);
                }
            }
        }
        proof {
            let cs = summaries(self.changes@);
            assert(cs =~= c0.push((cache_change.sequence_number, cache_change.data_value@.len() as int)));
            assert forall|i: int, j: int| 0 <= i < j < cs.len() implies cs[i].0 < cs[j].0 by {
                assert(c0[i] == cs[i]);
                if j == cs.len() - 1 {
                    assert(old(self).change_summaries()[i].0 < cache_change.sequence_number);
                } else {
                    assert(c0[j] == cs[j]);
                }
            }
            assert forall|i: int| 0 <= i < self.matched_readers@.len() implies (#[trigger] self.matched_readers@[i]).last_heartbeat_time <= now by {
                assert(old(self).proxies()[i] == self.matched_readers@[i]);
            }
            assert forall|i: int| 0 <= i < cs.len() implies num_fragments(#[trigger] cs[i].1, self.data_max_size_serialized as int) <= u32::MAX by {
                if i < c0.len() {
                    assert(c0[i] == cs[i]);
                }
            }
        }
        self.send_message(now)
    }

    /// Writes a sample of instance `handle`: a change numbered one past the last one given
    /// out, sent to every matched reader as it is owed.
    pub fn write_w_timestamp(
        &mut self,
        data: Vec<u8>,
        handle: InstanceHandle,
        timestamp: Option<crate::elements::TimeUdp>,
        now: i64,
    ) -> (r: Vec<SendItem>)
        requires
            old(self).wf(),
            old(self).last_sn() < i64::MAX - 1,
            num_fragments(data@.len() as int, old(self).max_size()) <= u32::MAX,
            forall|i: int|
                0 <= i < old(self).proxies().len() ==> (#[trigger] old(self).proxies()[i]).last_heartbeat_time
                    <= now,
        ensures
            final(self).wf(),
            final(self).last_sn() == old(self).last_sn() + 1,
            final(self).changes().drop_last() == old(self).changes(),
            final(self).changes().len() == old(self).changes().len() + 1,
            ({
                let c = final(self).changes().last();
                &&& c.kind == ChangeKind::Alive
                &&& c.writer_guid == old(self).spec_guid()
                &&& c.sequence_number == old(self).last_sn() + 1
                &&& c.instance_handle == handle
                &&& c.source_timestamp == timestamp
                &&& c.data_value@ == data@
                &&& c.inline_qos@.len() == 0
            }),
            r@ == all_output(old(self).proxies(), final(self).change_summaries(), old(self).max_size(), old(self).period(), now),
    {
        self.new_change_and_send(ChangeKind::Alive, data, handle, timestamp, now)
    }

    /// Disposes the instance `handle` whose serialized key is `key`: a change numbered one
    /// past the last one given out, carrying the key, sent to every matched reader.
    pub fn dispose_w_timestamp(
        &mut self,
        key: Vec<u8>,
        handle: InstanceHandle,
        timestamp: Option<crate::elements::TimeUdp>,
        now: i64,
    ) -> (r: Vec<SendItem>)
        requires
            old(self).wf(),
            old(self).last_sn() < i64::MAX - 1,
            num_fragments(key@.len() as int, old(self).max_size()) <= u32::MAX,
            forall|i: int|
                0 <= i < old(self).proxies().len() ==> (#[trigger] old(self).proxies()[i]).last_heartbeat_time
                    <= now,
        ensures
            final(self).wf(),
            final(self).last_sn() == old(self).last_sn() + 1,
            final(self).changes().drop_last() == old(self).changes(),
            final(self).changes().len() == old(self).changes().len() + 1,
            ({
                let c = final(self).changes().last();
                &&& c.kind == ChangeKind::NotAliveDisposed
                &&& c.writer_guid == old(self).spec_guid()
                &&& c.sequence_number == old(self).last_sn() + 1
                &&& c.instance_handle == handle
                &&& c.source_timestamp == timestamp
                &&& c.data_value@ == key@
                &&& c.inline_qos@.len() == 0
            }),
            r@ == all_output(old(self).proxies(), final(self).change_summaries(), old(self).max_size(), old(self).period(), now),
    {
        self.new_change_and_send(ChangeKind::NotAliveDisposed, key, handle, timestamp, now)
    }

    fn new_change_and_send(
        &mut self,
        kind: ChangeKind,
        data: Vec<u8>,
        handle: InstanceHandle,
        timestamp: Option<crate::elements::TimeUdp>,
        now: i64,
    ) -> (r: Vec<SendItem>)
        requires
            old(self).wf(),
            old(self).last_sn() < i64::MAX - 1,
            num_fragments(data@.len() as int, old(self).max_size()) <= u32::MAX,
            forall|i: int|
                0 <= i < old(self).proxies().len() ==> (#[trigger] old(self).proxies()[i]).last_heartbeat_time
                    <= now,
        ensures
            final(self).wf(),
            final(self).last_sn() == old(self).last_sn() + 1,
            final(self).changes().drop_last() == old(self).changes(),
            final(self).changes().len() == old(self).changes().len() + 1,
            ({
                let c = final(self).changes().last();
                &&& c.kind == kind
                &&& c.writer_guid == old(self).spec_guid()
                &&& c.sequence_number == old(self).last_sn() + 1
                &&& c.instance_handle == handle
                &&& c.source_timestamp == timestamp
                &&& c.data_value@ == data@
                &&& c.inline_qos@.len() == 0
            }),
            r@ == all_output(old(self).proxies(), final(self).change_summaries(), old(self).max_size(), old(self).period(), now),
    {
        let sn = self.last_change_sequence_number + 1;
        let change = CacheChange {
            kind,
            writer_guid: self.guid,
            sequence_number: sn,
            instance_handle: handle,
            source_timestamp: timestamp,
            data_value: data,
            inline_qos: crate::messages::ParameterListUdp::new(),
        };
        proof {
            assert forall|i: int| 0 <= i < self.change_summaries().len() implies (#[trigger] self.change_summaries()[i]).0 < sn by {
                assert(self.change_summaries()[i].0 == self.changes@[i].sequence_number);
            }
        }
        let r = self.add_change(change, now);
        assert(self.changes().drop_last() =~= old(self).changes());
        r
    }

    /// Removes the change numbered `sequence_number`.
    pub fn remove_change(&mut self, sequence_number: i64)
        requires
            old(self).wf(),
        ensures
            final(self).wf(),
            final(self).change_summaries() == remove_sn(old(self).change_summaries(), sequence_number),
            final(self).changes() == without_sn(old(self).changes(), sequence_number),
            final(self).proxies() == old(self).proxies(),
            final(self).spec_guid() == old(self).spec_guid(),
            final(self).max_size() == old(self).max_size(),
            final(self).period() == old(self).period(),
    {
        let mut rest: Vec<CacheChange> = Vec::new();
        std::mem::swap(&mut rest, &mut self.changes);
        let ghost all = summaries(rest@);
        let ghost allc = rest@;
        let ghost total = rest@.len();
        let mut kept: Vec<CacheChange> = Vec::new();
        proof {
            assert(summaries(kept@) =~= remove_sn(all.subrange(0, 0), sequence_number));
            assert(kept@ =~= without_sn(allc.subrange(0, 0), sequence_number));
        }
        while rest.len() > 0
            invariant
                total == all.len(),
                rest@.len() <= total,
                summaries(rest@) == all.subrange(total - rest@.len(), total as int),
                summaries(kept@) == remove_sn(all.subrange(0, total - rest@.len()), sequence_number),
                allc.len() == total,
                all == summaries(allc),
                rest@ == allc.subrange(total - rest@.len(), total as int),
                kept@ == without_sn(allc.subrange(0, total - rest@.len()), sequence_number),
            decreases rest@.len(),
        {
            let ghost k = total - rest@.len();
            let ghost r0 = rest@;
            let c = rest.remove(0);
            proof {
                assert(all[k] == summaries(r0)[0]);
                assert(rest@ =~= r0.subrange(1, r0.len() as int));
                assert forall|m: int| 0 <= m < rest@.len() implies summaries(rest@)[m] == summaries(r0)[m + 1] by {
                    assert(rest@[m] == r0[m + 1]);
                }
                assert(summaries(rest@) =~= all.subrange(total - rest@.len(), total as int));
                assert(all.subrange(0, k + 1).drop_last() =~= all.subrange(0, k));
                assert(all.subrange(0, k + 1).last() == (c.sequence_number, c.data_value@.len() as int));
                assert(rest@ =~= allc.subrange(total - rest@.len(), total as int));
                assert(allc.subrange(0, k + 1).drop_last() =~= allc.subrange(0, k));
                assert(allc.subrange(0, k + 1).last() == c);
            }
            let ghost k0 = summaries(kept@);
            if c.sequence_number != sequence_number {
                kept.push(c);
                assert(summaries(kept@) =~= k0.push((c.sequence_number, c.data_value@.len() as int)));
            }
        }
        assert(all.subrange(0, total as int) =~= all);
        assert(allc.subrange(0, total as int) =~= allc);
        self.changes = kept;
        proof {
            lemma_remove_sn(all, sequence_number, self.data_max_size_serialized as int);
            let cs = summaries(self.changes@);
            assert forall|i: int| 0 <= i < self.changes@.len() implies (#[trigger] self.changes@[i]).sequence_number
                <= self.last_change_sequence_number by {
                assert(cs[i].0 == self.changes@[i].sequence_number);
                assert(all.contains(cs[i]));
                let j = choose|j: int| 0 <= j < all.len() && all[j] == cs[i];
                assert(all[j].0 == old(self).changes@[j].sequence_number);
            }
        }
    }

    /// Whether every matched reliable reader has acknowledged `sequence_number`.
    pub fn is_change_acknowledged(&self, sequence_number: i64) -> (r: bool)
        ensures
            r == forall|i: int|
                0 <= i < self.proxies().len() ==> ((#[trigger] self.proxies()[i]).reliability
                    == ReliabilityKind::Reliable ==> self.proxies()[i].highest_acked_seq_num
                    >= sequence_number),
    {
        let mut i: usize = 0;
        while i < self.matched_readers.len()
            invariant
                i <= self.matched_readers@.len(),
                forall|j: int|
                    0 <= j < i ==> ((#[trigger] self.matched_readers@[j]).reliability
                        == ReliabilityKind::Reliable ==> self.matched_readers@[j].highest_acked_seq_num
                        >= sequence_number),
            decreases self.matched_readers@.len() - i,
        {
            let rp = &self.matched_readers[i];
            if rp.reliability == ReliabilityKind::Reliable && rp.highest_acked_seq_num < sequence_number {
                return false;
            }
            i += 1;
        }
        true
    }

    fn find_reader(&self, guid: &Guid) -> (r: Option<usize>)
        ensures
            match r {
                Some(i) => i < self.proxies().len() && self.proxies()[i as int].remote_reader_guid@
                    == guid@ && forall|j: int|
                    0 <= j < i ==> self.proxies()[j].remote_reader_guid@ != guid@,
                None => forall|j: int|
                    0 <= j < self.proxies().len() ==> (#[trigger] self.proxies()[j]).remote_reader_guid@
                        != guid@,
            },
    {
        let mut i: usize = 0;
        while i < self.matched_readers.len()
            invariant
                i <= self.matched_readers@.len(),
                forall|j: int| 0 <= j < i ==> (#[trigger] self.matched_readers@[j]).remote_reader_guid@ != guid@,
            decreases self.matched_readers@.len() - i,
        {
            if self.matched_readers[i].remote_reader_guid.equals(guid) {
                return Some(i);
            }
            i += 1;
        }
        None
    }

    /// Matches a remote reader, unless it is matched already.
    pub fn add_matched_reader(&mut self, reader_proxy: ReaderProxy)
        requires
            old(self).wf(),
        ensures
            final(self).wf(),
            final(self).changes() == old(self).changes(),
            final(self).change_summaries() == old(self).change_summaries(),
            final(self).spec_guid() == old(self).spec_guid(),
            final(self).max_size() == old(self).max_size(),
            final(self).period() == old(self).period(),
            (exists|i: int|
                0 <= i < old(self).proxies().len() && (#[trigger] old(self).proxies()[i]).remote_reader_guid@
                    == reader_proxy.remote_reader_guid@) ==> final(self).proxies() == old(
                self,
            ).proxies(),
            !(exists|i: int|
                0 <= i < old(self).proxies().len() && (#[trigger] old(self).proxies()[i]).remote_reader_guid@
                    == reader_proxy.remote_reader_guid@) ==> ({
                let p = final(self).proxies().last();
                let fr = first_relevant_for(reader_proxy.durability_kind, old(self).change_summaries());
                &&& final(self).proxies().drop_last() == old(self).proxies()
                &&& final(self).proxies().len() == old(self).proxies().len() + 1
                &&& p.remote_reader_guid == reader_proxy.remote_reader_guid
                &&& p.remote_group_entity_id == reader_proxy.remote_group_entity_id
                &&& p.unicast_locator_list@ == reader_proxy.unicast_locator_list@
                &&& p.multicast_locator_list@ == reader_proxy.multicast_locator_list@
                &&& p.expects_inline_qos == reader_proxy.expects_inline_qos
                &&& p.is_active
                &&& p.reliability == reader_proxy.reliability_kind
                &&& p.durability == reader_proxy.durability_kind
                &&& p.first_relevant_sample_seq_num == fr
                &&& p.highest_sent_seq_num == fr - 1
                &&& p.highest_acked_seq_num == fr - 1
                &&& p.requested_changes@.len() == 0
                &&& p.last_received_acknack_count == 0
                &&& p.last_received_nack_frag_count == 0
                &&& p.heartbeat_count == 1
                &&& p.last_heartbeat_time == 0
            }),
    {
        if self.find_reader(&reader_proxy.remote_reader_guid).is_some() {
            return;
        }
        let n = self.changes.len();
        let first_relevant: i64 = match reader_proxy.durability_kind {
            DurabilityKind::Volatile => if n == 0 {
                1
            } else {
                assert(summaries(self.changes@)[n - 1].0 == self.changes@[n - 1].sequence_number);
                self.changes[n - 1].sequence_number + 1
            },
            _ => 1,
        };
        let p = RtpsReaderProxy {
            remote_reader_guid: reader_proxy.remote_reader_guid,
            remote_group_entity_id: reader_proxy.remote_group_entity_id,
            unicast_locator_list: reader_proxy.unicast_locator_list,
            multicast_locator_list: reader_proxy.multicast_locator_list,
            expects_inline_qos: reader_proxy.expects_inline_qos,
            is_active: true,
            reliability: reader_proxy.reliability_kind,
            durability: reader_proxy.durability_kind,
            first_relevant_sample_seq_num: first_relevant,
            highest_sent_seq_num: first_relevant - 1,
            highest_acked_seq_num: first_relevant - 1,
            requested_changes: Vec::new(),
            last_received_acknack_count: 0,
            last_received_nack_frag_count: 0,
            heartbeat_count: 1,
            last_heartbeat_time: 0,
        };
        self.matched_readers.push(p);
    }
}

/// The proxy an ACKNACK from `prefix` is for, when it is for this writer, comes from a
/// matched reliable reader with a newer count, and carries a usable set.
pub open spec fn acknack_target(
    w: &RtpsStatefulWriter,
    a: &AckNackSubmessage,
    prefix: GuidPrefix,
) -> Option<int> {
    if a.writer_id != w.spec_guid().entity_id || !usable_set(&a.reader_sn_state) {
        None
    } else {
        match find_proxy(w.proxies(), (prefix@, a.reader_id)) {
            Some(i) => if w.proxies()[i].reliability == ReliabilityKind::Reliable && a.count
                > w.proxies()[i].last_received_acknack_count {
                Some(i)
            } else {
                None
            },
            None => None,
        }
    }
}

/// The proxy a NACK_FRAG from `prefix` is for, when it comes from a matched reliable
/// reader with a newer count.
pub open spec fn nack_frag_target(
    w: &RtpsStatefulWriter,
    a: &NackFragSubmessage,
    prefix: GuidPrefix,
) -> Option<int> {
    match find_proxy(w.proxies(), (prefix@, a.reader_id)) {
        Some(i) => if w.proxies()[i].reliability == ReliabilityKind::Reliable && a.count
            > w.proxies()[i].last_received_nack_frag_count {
            Some(i)
        } else {
            None
        },
        None => None,
    }
}

/// All proxies but the one at `i` are the same in `a` and `b`.
pub open spec fn others_same(a: Seq<RtpsReaderProxy>, b: Seq<RtpsReaderProxy>, i: int) -> bool {
    &&& a.len() == b.len()
    &&& forall|j: int| 0 <= j < a.len() && j != i ==> #[trigger] a[j] == b[j]
}

/// `new` is the writer `old` after the ACKNACK `a` from the participant `prefix` at time `now`; `r` is what it sends in answer.
pub open spec fn acknack_received(old: &RtpsStatefulWriter, new: &RtpsStatefulWriter, a: &AckNackSubmessage, prefix: GuidPrefix, now: i64, r: Seq<SendItem>) -> bool {
    &&& (new.change_summaries() == old.change_summaries())
    &&& (new.spec_guid() == old.spec_guid())
    &&& (new.max_size() == old.max_size())
    &&& (new.period() == old.period())
    &&& (match acknack_target(old, a, prefix) {
            Some(i) => {
                let p = old.proxies()[i];
                let q = new.proxies()[i];
                let st = SendState {
                    highest_acked: (a.reader_sn_state.base.value() - 1) as i64,
                    requested: append_new(p.requested_changes@, ack_members(a)),
                    ..send_state(&p)
                };
                let o = reliable_send(
                    st,
                    old.change_summaries(),
                    old.max_size(),
                    old.period(),
                    now,
                );
                &&& others_same(old.proxies(), new.proxies(), i)
                &&& r == tag(i as usize, o.items)
                &&& q.highest_acked_seq_num == st.highest_acked
                &&& q.last_received_acknack_count == a.count
                &&& q.highest_sent_seq_num == o.highest_sent
                &&& q.heartbeat_count == o.heartbeat_count
                &&& q.last_heartbeat_time == o.last_heartbeat_time
                &&& q.requested_changes@.len() == 0
            },
            None => new.proxies() == old.proxies() && r.len() == 0,
        })
}

impl RtpsStatefulWriter {
    proof fn lemma_find_proxy(&self, i: int, g: (Seq<u8>, EntityId))
        requires
            0 <= i < self.proxies().len(),
            self.proxies()[i].remote_reader_guid@ == g,
            forall|j: int| 0 <= j < i ==> self.proxies()[j].remote_reader_guid@ != g,
        ensures
            find_proxy(self.proxies(), g) == Some(i),
    {
        let ps = self.proxies();
        let k = choose|k: int|
            0 <= k < ps.len() && (#[trigger] ps[k]).remote_reader_guid@ == g && forall|j: int|
                0 <= j < k ==> ps[j].remote_reader_guid@ != g;
        if k < i {
        } else if k > i {
            assert(ps[i].remote_reader_guid@ != g);
        }
    }

    /// Unmatches the remote reader `reader_guid`.
    pub fn delete_matched_reader(&mut self, reader_guid: Guid)
        requires
            old(self).wf(),
        ensures
            final(self).wf(),
            final(self).proxies() == remove_proxy(old(self).proxies(), reader_guid@),
            final(self).changes() == old(self).changes(),
            final(self).change_summaries() == old(self).change_summaries(),
            final(self).spec_guid() == old(self).spec_guid(),
            final(self).max_size() == old(self).max_size(),
            final(self).period() == old(self).period(),
    {
        let mut rest: Vec<RtpsReaderProxy> = Vec::new();
        std::mem::swap(&mut rest, &mut self.matched_readers);
        let ghost all = rest@;
        let ghost total = rest@.len();
        let mut kept: Vec<RtpsReaderProxy> = Vec::new();
        assert(kept@ =~= remove_proxy(all.subrange(0, 0), reader_guid@));
        while rest.len() > 0
            invariant
                total == all.len(),
                rest@.len() <= total,
                rest@ == all.subrange(total - rest@.len(), total as int),
                kept@ == remove_proxy(all.subrange(0, total - rest@.len()), reader_guid@),
            decreases rest@.len(),
        {
            let ghost k = total - rest@.len();
            let ghost r0 = rest@;
            let p = rest.remove(0);
            proof {
                assert(all[k] == r0[0]);
                assert(rest@ =~= all.subrange(total - rest@.len(), total as int));
                assert(all.subrange(0, k + 1).drop_last() =~= all.subrange(0, k));
                assert(all.subrange(0, k + 1).last() == p);
            }
            if !p.remote_reader_guid.equals(&reader_guid) {
                kept.push(p);
            }
        }
        assert(all.subrange(0, total as int) =~= all);
        self.matched_readers = kept;
        proof {
            lemma_remove_proxy(all, reader_guid@);
            assert forall|i: int| 0 <= i < self.matched_readers@.len() implies 0 <= (#[trigger] self.matched_readers@[i]).last_heartbeat_time by {
                let j = choose|j: int| 0 <= j < all.len() && all[j] == self.matched_readers@[i];
            }
        }
    }

    /// Takes in an ACKNACK from the participant `source_guid_prefix` and resends what it asks for.
    pub fn on_acknack_submessage_received(
        &mut self,
        acknack_submessage: &AckNackSubmessage,
        source_guid_prefix: GuidPrefix,
        now: i64,
    ) -> (r: Vec<SendItem>)
        requires
            old(self).wf(),
            forall|i: int|
                0 <= i < old(self).proxies().len() ==> (#[trigger] old(self).proxies()[i]).last_heartbeat_time
                    <= now,
        ensures
            final(self).wf(),
            acknack_received(old(self), final(self), acknack_submessage, source_guid_prefix, now, r@),
    {
        let mut out: Vec<SendItem> = Vec::new();
        if acknack_submessage.writer_id != self.guid.entity_id {
            return out;
        }
        let set = &acknack_submessage.reader_sn_state;
        let base = set.base.get();
        if !(set.num_bits.0 <= 256 && base >= 1 && base <= i64::MAX - 256 && words_clear(set)) {
            return out;
        }
        let reader_guid = Guid::new(source_guid_prefix, acknack_submessage.reader_id);
        let found = self.find_reader(&reader_guid);
        if found.is_none() {
            return out;
        }
        let i = found.unwrap();
        proof {
            self.lemma_find_proxy(i as int, reader_guid@);
        }
        if !(self.matched_readers[i].reliability == ReliabilityKind::Reliable
            && acknack_submessage.count > self.matched_readers[i].last_received_acknack_count) {
            return out;
        }
        let mut p = self.matched_readers.remove(i);
        let ghost p0 = p;
        let requested = set.set();
        proof {
            set.lemma_members_upto(set.num_bits.0 as int);
            assert forall|k: int| 0 <= k < requested@.len() implies requested@[k] == ack_members(acknack_submessage)[k] by {
                assert(set.members()[k] == set.members_upto(set.num_bits.0 as int)[k]);
            }
            assert(requested@ =~= ack_members(acknack_submessage));
        }
        append_requested(&mut p.requested_changes, &requested);
        p.highest_acked_seq_num = base - 1;
        p.last_received_acknack_count = acknack_submessage.count;
        proof {
            assert(send_state(&p) == SendState {
                highest_acked: (acknack_submessage.reader_sn_state.base.value() - 1) as i64,
                requested: append_new(p0.requested_changes@, ack_members(acknack_submessage)),
                ..send_state(&p0)
            });
            assert(old(self).proxies()[i as int] == p0);
        }
        send_message_to_reader_proxy_reliable(
            &mut p,
            i,
            self.changes.as_slice(),
            self.data_max_size_serialized,
            self.heartbeat_period,
            now,
            &mut out,
        );
        self.matched_readers.insert(i, p);
        proof {
            assert(others_same(old(self).proxies(), self.matched_readers@, i as int));
        }
        out
    }
}

/// Whether bit `d` of a fragment number set is set.
pub open spec fn frag_bit(fs: crate::messages::FragmentNumberSetUdp, d: int) -> bool {
    0 <= d < 256 && crate::elements::word_bit(fs.bitmap@[d / 32], (31 - d % 32) as u32)
}

/// The fragments a NACK_FRAG asks for among its first `upto` bits, ascending.
pub open spec fn frag_numbers_upto(fs: crate::messages::FragmentNumberSetUdp, upto: int) -> Seq<int>
    decreases upto,
{
    if upto <= 0 {
        seq![]
    } else if frag_bit(fs, upto - 1) {
        frag_numbers_upto(fs, upto - 1).push(fs.base as int + upto - 1)
    } else {
        frag_numbers_upto(fs, upto - 1)
    }
}

/// The fragments a NACK_FRAG asks for.
pub open spec fn frag_numbers(fs: crate::messages::FragmentNumberSetUdp) -> Seq<int> {
    frag_numbers_upto(fs, if fs.num_bits < 256 { fs.num_bits as int } else { 256 })
}

/// A DATA_FRAG of change `sn` for each asked fragment that exists (from 1 to `total`).
pub open spec fn resend_fragments(sn: i64, nums: Seq<int>, total: int) -> Seq<WriterSubmessage>
    decreases nums.len(),
{
    if nums.len() == 0 {
        seq![]
    } else {
        let n = nums.last();
        resend_fragments(sn, nums.drop_last(), total) + if 1 <= n <= total {
            seq![WriterSubmessage::DataFrag { sequence_number: sn, fragment_starting_num: n as u32 }]
        } else {
            seq![]
        }
    }
}

/// What a NACK_FRAG is answered with: the fragments asked for, or a GAP when the change is
/// no longer held.
pub open spec fn nack_frag_answer(n: &NackFragSubmessage, cs: Seq<(i64, int)>, max: int) -> Seq<WriterSubmessage> {
    match find_len(cs, n.writer_sn) {
        Some(len) => resend_fragments(n.writer_sn, frag_numbers(n.fragment_number_state), num_fragments(len, max)),
        None => seq![WriterSubmessage::Gap { gap_start: n.writer_sn, gap_end: n.writer_sn }],
    }
}

/// `new` is the writer `old` after the NACK_FRAG `n` from the participant `prefix`; `r` is what it sends in answer.
pub open spec fn nack_frag_received(old: &RtpsStatefulWriter, new: &RtpsStatefulWriter, n: &NackFragSubmessage, prefix: GuidPrefix, r: Seq<SendItem>) -> bool {
    &&& (new.change_summaries() == old.change_summaries())
    &&& (new.spec_guid() == old.spec_guid())
    &&& (new.max_size() == old.max_size())
    &&& (new.period() == old.period())
    &&& (match nack_frag_target(old, n, prefix) {
            Some(i) => {
                let p = old.proxies()[i];
                let q = new.proxies()[i];
                &&& others_same(old.proxies(), new.proxies(), i)
                &&& r == tag(
                    i as usize,
                    nack_frag_answer(n, old.change_summaries(), old.max_size()),
                )
                &&& q.remote_reader_guid == p.remote_reader_guid
                &&& q.last_received_nack_frag_count == n.count
                &&& send_state(&q) == send_state(&p)
            },
            None => new.proxies() == old.proxies() && r.len() == 0,
        })
}

impl RtpsStatefulWriter {
    /// Takes in a NACK_FRAG from the participant `source_guid_prefix` and resends the
    /// fragments it asks for.
    pub fn on_nack_frag_submessage_received(
        &mut self,
        nackfrag_submessage: &NackFragSubmessage,
        source_guid_prefix: GuidPrefix,
    ) -> (r: Vec<SendItem>)
        requires
            old(self).wf(),
        ensures
            final(self).wf(),
            nack_frag_received(old(self), final(self), nackfrag_submessage, source_guid_prefix, r@),
    {
        let mut out: Vec<SendItem> = Vec::new();
        let reader_guid = Guid::new(source_guid_prefix, nackfrag_submessage.reader_id);
        let found = self.find_reader(&reader_guid);
        if found.is_none() {
            return out;
        }
        let i = found.unwrap();
        proof {
            self.lemma_find_proxy(i as int, reader_guid@);
        }
        if !(self.matched_readers[i].reliability == ReliabilityKind::Reliable
            && nackfrag_submessage.count > self.matched_readers[i].last_received_nack_frag_count) {
            return out;
        }
        self.matched_readers[i].last_received_nack_frag_count = nackfrag_submessage.count;
        assert(others_same(old(self).proxies(), self.matched_readers@, i as int));
        let sn = nackfrag_submessage.writer_sn;
        let ghost cs = summaries(self.changes@);
        match find_change_len(self.changes.as_slice(), sn) {
            None => {
                out.push(SendItem { reader: i, submessage: WriterSubmessage::Gap { gap_start: sn, gap_end: sn } });
                assert(out@ =~= tag(i, nack_frag_answer(nackfrag_submessage, cs, self.data_max_size_serialized as int)));
            },
            Some(len) => {
                proof {
                    lemma_find_len_fits(cs, sn, self.data_max_size_serialized as int);
                }
                let total = fragment_count(len, self.data_max_size_serialized) as u64;
                let fs = &nackfrag_submessage.fragment_number_state;
                let limit: u32 = if fs.num_bits < 256 { fs.num_bits } else { 256 };
                let ghost nums = frag_numbers(*fs);
                let mut d: u32 = 0;
                while d < limit
                    invariant
                        d <= limit,
                        limit == (if fs.num_bits < 256 { fs.num_bits } else { 256u32 }),
                        total == num_fragments(len as int, self.data_max_size_serialized as int),
                        out@ == tag(i, resend_fragments(sn, frag_numbers_upto(*fs, d as int), total as int)),
                    decreases limit - d,
                {
                    let word = fs.bitmap[(d / 32) as usize];
                    let pos = 31 - d % 32;
                    let set_bit = word & (1u32 << pos) != 0;
                    assert(set_bit == crate::elements::word_bit(word, pos)) by {
                        assert((word & (1u32 << pos) != 0u32) == ((word >> pos) & 1u32 == 1u32)) by (bit_vector)
                            requires
                                pos < 32,
                        ;
                    }
                    let ghost o0 = out@;
                    let ghost prev = frag_numbers_upto(*fs, d as int);
                    if set_bit {
                        let number = fs.base as u64 + d as u64;
                        proof {
                            assert(frag_numbers_upto(*fs, d + 1) == prev.push(fs.base as int + d));
                            assert(prev.push(fs.base as int + d).drop_last() =~= prev);
                        }
                        if 1 <= number && number <= total {
                            out.push(
                                SendItem {
                                    reader: i,
                                    submessage: WriterSubmessage::DataFrag {
                                        sequence_number: sn,
                                        fragment_starting_num: number as u32,
                                    },
                                },
                            );
                        }
                        proof {
                            lemma_tag_add(i, resend_fragments(sn, prev, total as int), if 1 <= number && number <= total {
                                seq![WriterSubmessage::DataFrag { sequence_number: sn, fragment_starting_num: number as u32 }]
                            } else {
                                seq![]
                            });
                            assert(out@ =~= tag(i, resend_fragments(sn, frag_numbers_upto(*fs, d + 1), total as int)));
                        }
                    } else {
                        assert(frag_numbers_upto(*fs, d + 1) == prev);
                    }
                    d += 1;
                }
            },
        }
        out
    }
}

/// Every bitmap word past the ones in use is zero.
pub(crate) fn words_clear(set: &SequenceNumberSetUdp) -> (r: bool)
    requires
        set.num_bits.0 <= 256,
    ensures
        r == set.wf(),
{
    let m = ((set.num_bits.0 + 31) / 32) as usize;
    assert forall|j: int| 0 <= j < 8 implies (#[trigger] (j * 32) >= set.num_bits.0 <==> j >= m) by {
    }
    let mut k: usize = m;
    while k < 8
        invariant
            m <= k <= 8,
            m == (set.num_bits.0 as int + 31) / 32,
            forall|j: int| m <= j < k ==> set.bitmap@[j] == 0,
        decreases 8 - k,
    {
        if set.bitmap[k] != 0 {
            return false;
        }
        k += 1;
    }
    true
}

/// Index of the first change numbered `sn`.
pub open spec fn change_index(cs: Seq<CacheChange>, sn: i64) -> Option<int> {
    if exists|k: int| 0 <= k < cs.len() && (#[trigger] cs[k]).sequence_number == sn {
        Some(
            choose|k: int|
                0 <= k < cs.len() && (#[trigger] cs[k]).sequence_number == sn && forall|m: int|
                    0 <= m < k ==> cs[m].sequence_number != sn,
        )
    } else {
        None
    }
}

/// The submessage `item` stands for, as the writer `writer_id` sends it to the reader `reader_id`:
/// - a DATA carrying the whole change, key-only for a change that is not alive;
/// - a DATA_FRAG carrying bytes `[(k - 1) * max, min(k * max, len))` of the change;
/// - a GAP over `start..=end`;
/// - a HEARTBEAT, not final.
/// Every one carries this writer's entity id.
pub open spec fn built_submessage(
    m: &crate::codec::RtpsSubmessageKind,
    item: WriterSubmessage,
    reader_id: EntityId,
    writer_id: EntityId,
    cs: Seq<CacheChange>,
    max: int,
) -> bool {
    match item {
        WriterSubmessage::Data { sequence_number } => match (change_index(cs, sequence_number), m) {
            (Some(k), crate::codec::RtpsSubmessageKind::Data(d)) => data_built(d, &cs[k], reader_id, writer_id),
            _ => false,
        },
        WriterSubmessage::DataFrag { sequence_number, fragment_starting_num } => match (
            change_index(cs, sequence_number),
            m,
        ) {
            (Some(k), crate::codec::RtpsSubmessageKind::DataFrag(f)) => data_frag_built(
                f,
                &cs[k],
                reader_id,
                writer_id,
                fragment_starting_num,
                max,
            ),
            _ => false,
        },
        WriterSubmessage::Gap { gap_start, gap_end } => match m {
            crate::codec::RtpsSubmessageKind::Gap(g) => {
                &&& g.endianness_flag
                &&& g.reader_id == reader_id
                &&& g.writer_id == writer_id
                &&& g.gap_start == gap_start
                &&& g.gap_list.base.value() == gap_end + 1
                &&& g.gap_list.num_bits.0 == 0
            },
            _ => false,
        },
        WriterSubmessage::Heartbeat { first_sn, last_sn, count } => match m {
            crate::codec::RtpsSubmessageKind::Heartbeat(h) => {
                &&& h.endianness_flag
                &&& !h.final_flag
                &&& !h.liveliness_flag
                &&& h.reader_id == reader_id
                &&& h.writer_id == writer_id
                &&& h.first_sn == first_sn
                &&& h.last_sn == last_sn
                &&& h.count == count
            },
            _ => false,
        },
    }
}

pub(crate) fn find_change_index(changes: &[CacheChange], sn: i64) -> (r: Option<usize>)
    ensures
        match r {
            Some(k) => change_index(changes@, sn) == Some(k as int) && k < changes@.len(),
            None => change_index(changes@, sn) is None,
        },
{
    let mut k: usize = 0;
    while k < changes.len()
        invariant
            k <= changes@.len(),
            forall|m: int| 0 <= m < k ==> changes@[m].sequence_number != sn,
        decreases changes@.len() - k,
    {
        if changes[k].sequence_number == sn {
            proof {
                let cs = changes@;
                let j = choose|j: int|
                    0 <= j < cs.len() && (#[trigger] cs[j]).sequence_number == sn && forall|m: int|
                        0 <= m < j ==> cs[m].sequence_number != sn;
                if j > k {
                    assert(cs[k as int].sequence_number == sn);
                }
            }
            return Some(k);
        }
        k += 1;
    }
    None
}

/// The DATA carrying change `c`.
pub open spec fn data_built(d: &crate::messages::DataSubmessage, c: &CacheChange, reader_id: EntityId, writer_id: EntityId) -> bool {
    &&& d.endianness_flag
    &&& d.reader_id == reader_id
    &&& d.writer_id == writer_id
    &&& d.writer_sn == c.sequence_number
    &&& d.data_flag == (c.kind == ChangeKind::Alive)
    &&& d.key_flag == (c.kind != ChangeKind::Alive)
    &&& d.inline_qos_flag == (c.inline_qos@.len() > 0)
    &&& d.inline_qos@ == c.inline_qos@
    &&& d.serialized_payload.0@ == c.data_value@
}

/// The DATA_FRAG carrying fragment `k` (from 1) of change `c` cut in pieces of `max` bytes.
pub open spec fn data_frag_built(
    f: &crate::messages::DataFrag,
    c: &CacheChange,
    reader_id: EntityId,
    writer_id: EntityId,
    k: u32,
    max: int,
) -> bool {
    let len = c.data_value@.len() as int;
    let lo = (k as int - 1) * max;
    let hi = if k as int * max < len {
        k as int * max
    } else {
        len
    };
    &&& f.endianness_flag
    &&& f.reader_id == reader_id
    &&& f.writer_id == writer_id
    &&& f.writer_sn == c.sequence_number
    &&& f.key_flag == (c.kind != ChangeKind::Alive)
    &&& f.fragment_starting_num == k
    &&& f.fragments_in_submessage == 1
    &&& f.fragment_size as int == max
    &&& f.data_size as int == len
    &&& f.inline_qos_flag
    &&& f.inline_qos@.len() == 0
    &&& f.serialized_payload.0@ == c.data_value@.subrange(lo, hi)
}

/// The DATA carrying change `c` to the reader `reader_id`.
pub fn build_data(c: &CacheChange, reader_id: EntityId, writer_id: EntityId) -> (r: crate::messages::DataSubmessage)
    ensures
        data_built(&r, c, reader_id, writer_id),
{
    let alive = c.kind == ChangeKind::Alive;
    let payload = copy_bytes(c.data_value.as_slice(), 0, c.data_value.len());
    assert(c.data_value@.subrange(0, c.data_value@.len() as int) =~= c.data_value@);
    crate::messages::DataSubmessage {
        endianness_flag: true,
        inline_qos_flag: c.inline_qos.parameter.len() > 0,
        data_flag: alive,
        key_flag: !alive,
        non_standard_payload_flag: false,
        reader_id,
        writer_id,
        writer_sn: c.sequence_number,
        inline_qos: crate::reader::copy_params(&c.inline_qos),
        serialized_payload: crate::messages::SerializedDataUdp(payload),
    }
}

/// The DATA_FRAG carrying fragment `k` of change `c`; `None` when the fragment size does not
/// fit 16 bits, the sample size 32 bits, or fragment `k` starts past the end.
pub fn build_data_frag(c: &CacheChange, reader_id: EntityId, writer_id: EntityId, k: u32, max: usize) -> (r: Option<
    crate::messages::DataFrag,
>)
    ensures
        r matches Some(f) ==> data_frag_built(&f, c, reader_id, writer_id, k, max as int),
        (1 <= k && max <= 65535 && c.data_value@.len() <= u32::MAX && (k as int - 1) * max < c.data_value@.len())
            ==> r is Some,
{
    let len = c.data_value.len();
    if max > 65535 || len > 4294967295 || k == 0 {
        return None;
    }
    let start = k as u64;
    let m64 = max as u64;
    assert(start * m64 <= 4294967295 * 65535) by (nonlinear_arith)
        requires
            start <= 4294967295,
            m64 <= 65535,
    ;
    assert((start - 1) * m64 <= start * m64) by (nonlinear_arith)
        requires
            start >= 1,
    ;
    let lo64 = (start - 1) * m64;
    let top64 = start * m64;
    let hi64 = if top64 < len as u64 { top64 } else { len as u64 };
    if lo64 >= len as u64 {
        return None;
    }
    let payload = copy_bytes(c.data_value.as_slice(), lo64 as usize, hi64 as usize);
    Some(
        crate::messages::DataFrag {
            endianness_flag: true,
            inline_qos_flag: true,
            non_standard_payload_flag: false,
            key_flag: c.kind != ChangeKind::Alive,
            reader_id,
            writer_id,
            writer_sn: c.sequence_number,
            fragment_starting_num: k,
            fragments_in_submessage: 1,
            data_size: len as u32,
            fragment_size: max as u16,
            inline_qos: crate::messages::ParameterListUdp::new(),
            serialized_payload: crate::messages::SerializedDataUdp(payload),
        },
    )
}

/// The GAP over `gap_start..=gap_end`.
pub fn build_gap(reader_id: EntityId, writer_id: EntityId, gap_start: i64, gap_end: i64) -> (r: Option<crate::messages::GapSubmessage>)
    ensures
        r matches Some(g) ==> (g.endianness_flag && g.reader_id == reader_id && g.writer_id == writer_id && g.gap_start
            == gap_start && g.gap_list.base.value() == gap_end + 1 && g.gap_list.num_bits.0 == 0),
        (0 <= gap_end < i64::MAX - 256) ==> r is Some,
{
    if !(0 <= gap_end && gap_end < i64::MAX - 256) {
        return None;
    }
    let list_base = gap_end + 1;
    let gap_list = crate::elements::SequenceNumberSetUdp::new(&list_base, &[]);
    assert(gap_list.num_bits.0 == 0);
    Some(crate::messages::GapSubmessage { endianness_flag: true, reader_id, writer_id, gap_start, gap_list })
}

impl RtpsStatefulWriter {
    /// The submessage a send item stands for, sent by this writer to the item's reader;
    /// `None` for data of a change no longer held, or sizes that do not fit the wire.
    pub fn build_submessage(&self, item: &SendItem) -> (r: Option<crate::codec::RtpsSubmessageKind>)
        requires
            item.reader < self.proxies().len(),
        ensures
            r matches Some(m) ==> built_submessage(
                &m,
                item.submessage,
                self.proxies()[item.reader as int].remote_reader_guid.entity_id,
                self.spec_guid().entity_id,
                self.changes(),
                self.max_size(),
            ),
            (item.submessage is Heartbeat) ==> r is Some,
            (item.submessage matches WriterSubmessage::Data { sequence_number } && change_index(
                self.changes(),
                sequence_number,
            ) is Some) ==> r is Some,
    {
        let reader_id = self.matched_readers[item.reader].remote_reader_guid.entity_id;
        let writer_id = self.guid.entity_id;
        match item.submessage {
            WriterSubmessage::Data { sequence_number } => {
                match find_change_index(self.changes.as_slice(), sequence_number) {
                    None => None,
                    Some(k) => {
                        let d = build_data(&self.changes[k], reader_id, writer_id);
                        Some(crate::codec::RtpsSubmessageKind::Data(d))
                    },
                }
            },
            WriterSubmessage::DataFrag { sequence_number, fragment_starting_num } => {
                match find_change_index(self.changes.as_slice(), sequence_number) {
                    None => None,
                    Some(k) => {
                        match build_data_frag(&self.changes[k], reader_id, writer_id, fragment_starting_num, self.data_max_size_serialized) {
                            Some(f) => Some(crate::codec::RtpsSubmessageKind::DataFrag(f)),
                            None => None,
                        }
                    },
                }
            },
            WriterSubmessage::Gap { gap_start, gap_end } => {
                match build_gap(reader_id, writer_id, gap_start, gap_end) {
                    Some(g) => Some(crate::codec::RtpsSubmessageKind::Gap(g)),
                    None => None,
                }
            },
            WriterSubmessage::Heartbeat { first_sn, last_sn, count } => {
                Some(
                    crate::codec::RtpsSubmessageKind::Heartbeat(
                        crate::messages::HeartbeatSubmessage {
                            endianness_flag: true,
                            final_flag: false,
                            liveliness_flag: false,
                            reader_id,
                            writer_id,
                            first_sn,
                            last_sn,
                            count,
                        },
                    ),
                )
            },
        }
    }
}

} // verus!
