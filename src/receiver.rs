use vstd::prelude::*;

use crate::codec::{RtpsMessage, RtpsMessageHeader, RtpsSubmessageKind};
use crate::elements::TimeUdp;
use crate::reader::{
    data_frag_received, data_received, gap_received, heartbeat_frag_received, heartbeat_received, RtpsStatefulReader,
    StatefulReaderDataReceivedResult,
};
use crate::types::{GuidPrefix, InstanceHandle};
use crate::writer::{acknack_received, nack_frag_received, RtpsStatefulWriter, SendItem};

verus! {

/// What the submessages of a message are read with: the participant that sent them, the
/// participant they are for (`None`: any), and the time they carry.
#[derive(Clone, Copy, Debug, PartialEq, Eq)]
pub struct ReceiveContext {
    pub source_guid_prefix: GuidPrefix,
    pub destination_guid_prefix: Option<GuidPrefix>,
    pub timestamp: Option<TimeUdp>,
}

/// The context before the first submessage: the header's sender, no destination, no time.
pub open spec fn initial_context(h: RtpsMessageHeader) -> ReceiveContext {
    ReceiveContext { source_guid_prefix: h.guid_prefix, destination_guid_prefix: None, timestamp: None }
}

/// The context after the submessage `s`: INFO_TS sets the time (or clears it), INFO_DST
/// sets the destination; any other submessage leaves it.
pub open spec fn context_after(c: ReceiveContext, s: RtpsSubmessageKind) -> ReceiveContext {
    match s {
        RtpsSubmessageKind::InfoTimestamp(t) => ReceiveContext { timestamp: t.timestamp, ..c },
        RtpsSubmessageKind::InfoDestination(d) => ReceiveContext { destination_guid_prefix: Some(d.guid_prefix), ..c },
        _ => c,
    }
}

/// The context that the submessage at `i` of a message with header `h` is read with.
pub open spec fn context_at(h: RtpsMessageHeader, subs: Seq<RtpsSubmessageKind>, i: int) -> ReceiveContext
    decreases i,
{
    if i <= 0 {
        initial_context(h)
    } else {
        context_after(context_at(h, subs, i - 1), subs[i - 1])
    }
}

/// Whether a submessage read with `c` is for the participant `local`: no destination, the
/// unknown (all-zero) one, or `local` itself.
pub open spec fn addressed_to(c: ReceiveContext, local: GuidPrefix) -> bool {
    match c.destination_guid_prefix {
        None => true,
        Some(d) => d@ == local@ || d@ == Seq::new(12, |k: int| 0u8),
    }
}

fn next_context(c: ReceiveContext, s: &RtpsSubmessageKind) -> (r: ReceiveContext)
    ensures
        r == context_after(c, *s),
{
    match s {
        RtpsSubmessageKind::InfoTimestamp(t) => ReceiveContext { timestamp: t.timestamp, ..c },
        RtpsSubmessageKind::InfoDestination(d) => ReceiveContext { destination_guid_prefix: Some(d.guid_prefix), ..c },
        _ => c,
    }
}

/// The context of each submessage of `m`, in order.
pub fn message_contexts(m: &RtpsMessage) -> (r: Vec<ReceiveContext>)
    ensures
        r@.len() == m.submessages@.len(),
        forall|i: int| 0 <= i < r@.len() ==> #[trigger] r@[i] == context_at(m.header, m.submessages@, i),
{
    let mut r: Vec<ReceiveContext> = Vec::new();
    let mut c = ReceiveContext { source_guid_prefix: m.header.guid_prefix, destination_guid_prefix: None, timestamp: None };
    let mut i: usize = 0;
    while i < m.submessages.len()
        invariant
            i <= m.submessages@.len(),
            r@.len() == i,
            c == context_at(m.header, m.submessages@, i as int),
            forall|k: int| 0 <= k < i ==> #[trigger] r@[k] == context_at(m.header, m.submessages@, k),
        decreases m.submessages@.len() - i,
    {
        r.push(c);
        c = next_context(c, &m.submessages[i]);
        i += 1;
    }
    r
}

/// Whether a submessage read with `c` is for the participant `local`.
pub fn is_addressed_to(c: &ReceiveContext, local: &GuidPrefix) -> (r: bool)
    ensures
        r == addressed_to(*c, *local),
{
    match &c.destination_guid_prefix {
        None => true,
        Some(d) => {
            let unknown = GuidPrefix::new([0u8; 12]);
            assert(unknown@ =~= Seq::new(12, |k: int| 0u8));
            d.equals(local) || d.equals(&unknown)
        },
    }
}

impl RtpsStatefulReader {
    /// Hands the submessage `s`, read with the context `ctx`, to this reader of the
    /// participant `local`: a DATA or DATA_FRAG (whose key has the handle `instance_handle`),
    /// HEARTBEAT, HEARTBEAT_FRAG or GAP meant for `local` is taken in from the context's
    /// sender, a DATA or DATA_FRAG with the context's time; anything else leaves the reader as
    /// it is. `r` is the result of a DATA or DATA_FRAG.
    pub fn receive_submessage(
        &mut self,
        s: &RtpsSubmessageKind,
        ctx: &ReceiveContext,
        local: &GuidPrefix,
        instance_handle: InstanceHandle,
    ) -> (r: Option<StatefulReaderDataReceivedResult>)
        requires
            old(self).wf(),
            forall|j: int| 0 <= j < old(self).buffers().len() ==> (#[trigger] old(self).buffers()[j]).wf(),
        ensures
            final(self).wf(),
            forall|j: int| 0 <= j < final(self).buffers().len() ==> (#[trigger] final(self).buffers()[j]).wf(),
            !addressed_to(*ctx, *local) ==> r is None && *final(self) == *old(self),
            addressed_to(*ctx, *local) ==> match *s {
                RtpsSubmessageKind::Data(d) => r is Some && data_received(
                    old(self),
                    final(self),
                    &d,
                    ctx.source_guid_prefix,
                    ctx.timestamp,
                    instance_handle,
                    r->Some_0,
                ),
                RtpsSubmessageKind::DataFrag(f) => r is Some && data_frag_received(
                    old(self),
                    final(self),
                    &f,
                    ctx.source_guid_prefix,
                    ctx.timestamp,
                    instance_handle,
                    r->Some_0,
                ),
                RtpsSubmessageKind::Heartbeat(h) => r is None && heartbeat_received(
                    old(self),
                    final(self),
                    &h,
                    ctx.source_guid_prefix,
                ),
                RtpsSubmessageKind::HeartbeatFrag(h) => r is None && heartbeat_frag_received(
                    old(self),
                    final(self),
                    &h,
                    ctx.source_guid_prefix,
                ),
                RtpsSubmessageKind::Gap(g) => r is None && gap_received(old(self), final(self), &g, ctx.source_guid_prefix),
                _ => r is None && *final(self) == *old(self),
            },
    {
        if !is_addressed_to(ctx, local) {
            return None;
        }
        match s {
            RtpsSubmessageKind::Data(d) => Some(
                self.on_data_submessage_received(d, ctx.source_guid_prefix, ctx.timestamp, instance_handle),
            ),
            RtpsSubmessageKind::DataFrag(f) => Some(
                self.on_data_frag_submessage_received(f, ctx.source_guid_prefix, ctx.timestamp, instance_handle),
            ),
            RtpsSubmessageKind::Heartbeat(h) => {
                self.on_heartbeat_submessage_received(h, ctx.source_guid_prefix);
                None
            },
            RtpsSubmessageKind::HeartbeatFrag(h) => {
                self.on_heartbeat_frag_submessage_received(h, ctx.source_guid_prefix);
                None
            },
            RtpsSubmessageKind::Gap(g) => {
                self.on_gap_submessage_received(g, ctx.source_guid_prefix);
                None
            },
            _ => None,
        }
    }
}

impl RtpsStatefulWriter {
    /// Hands the submessage `s`, read with the context `ctx`, to this writer of the
    /// participant `local` at time `now`: an ACKNACK or NACK_FRAG meant for `local` is taken
    /// in from the context's sender and `r` is the answer; anything else leaves the writer as
    /// it is and is answered with nothing.
    pub fn receive_submessage(&mut self, s: &RtpsSubmessageKind, ctx: &ReceiveContext, local: &GuidPrefix, now: i64) -> (r:
        Vec<SendItem>)
        requires
            old(self).wf(),
            forall|i: int|
                0 <= i < old(self).proxies().len() ==> (#[trigger] old(self).proxies()[i]).last_heartbeat_time
                    <= now,
        ensures
            final(self).wf(),
            !addressed_to(*ctx, *local) ==> r@.len() == 0 && *final(self) == *old(self),
            addressed_to(*ctx, *local) ==> match *s {
                RtpsSubmessageKind::AckNack(a) => acknack_received(
                    old(self),
                    final(self),
                    &a,
                    ctx.source_guid_prefix,
                    now,
                    r@,
                ),
                RtpsSubmessageKind::NackFrag(n) => nack_frag_received(
                    old(self),
                    final(self),
                    &n,
                    ctx.source_guid_prefix,
                    r@,
                ),
                _ => r@.len() == 0 && *final(self) == *old(self),
            },
    {
        if !is_addressed_to(ctx, local) {
            return Vec::new();
        }
        match s {
            RtpsSubmessageKind::AckNack(a) => self.on_acknack_submessage_received(a, ctx.source_guid_prefix, now),
            RtpsSubmessageKind::NackFrag(n) => self.on_nack_frag_submessage_received(n, ctx.source_guid_prefix),
            _ => Vec::new(),
        }
    }
}

} // verus!
