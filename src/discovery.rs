use vstd::prelude::*;

use crate::participant::SpdpDiscoveredParticipantData;
use crate::reader::{find_writer, RtpsReader, RtpsStatefulReader, RtpsWriterProxy};
use crate::types::{
    entityid_sedp_builtin_publications_announcer, entityid_sedp_builtin_publications_detector,
    entityid_sedp_builtin_subscriptions_announcer, entityid_sedp_builtin_subscriptions_detector,
    entityid_sedp_builtin_topics_announcer, entityid_sedp_builtin_topics_detector, entityid_unknown,
    DurabilityKind, EntityId, Guid, GuidPrefix, Locator, ReliabilityKind,
};
use crate::writer::{ReaderProxy, RtpsStatefulWriter};

verus! {

/// Bits of the built-in endpoint set that SPDP announces.
pub const BUILTIN_ENDPOINT_PARTICIPANT_ANNOUNCER: u32 = 0x00000001;
pub const BUILTIN_ENDPOINT_PARTICIPANT_DETECTOR: u32 = 0x00000002;
pub const BUILTIN_ENDPOINT_PUBLICATIONS_ANNOUNCER: u32 = 0x00000004;
pub const BUILTIN_ENDPOINT_PUBLICATIONS_DETECTOR: u32 = 0x00000008;
pub const BUILTIN_ENDPOINT_SUBSCRIPTIONS_ANNOUNCER: u32 = 0x00000010;
pub const BUILTIN_ENDPOINT_SUBSCRIPTIONS_DETECTOR: u32 = 0x00000020;
pub const BUILTIN_ENDPOINT_TOPICS_ANNOUNCER: u32 = 0x10000000;
pub const BUILTIN_ENDPOINT_TOPICS_DETECTOR: u32 = 0x20000000;

/// The GUID of the SEDP endpoint of participant `prefix` with key `key` and kind `kind`.
pub open spec fn sedp_guid(prefix: GuidPrefix, key: u8, kind: u8) -> Guid {
    Guid { prefix, entity_id: EntityId { key0: 0, key1: 0, key2: key, kind } }
}

/// Whether the endpoint set has the bit `flag`.
pub open spec fn has_endpoint(set: u32, flag: u32) -> bool {
    set & flag == flag
}

pub fn has(set: u32, flag: u32) -> (r: bool)
    ensures
        r == has_endpoint(set, flag),
{
    set & flag == flag
}

/// The SEDP endpoints of a participant: a reliable writer and reader per built-in topic.
pub struct SedpEndpoints {
    pub publications_announcer: RtpsStatefulWriter,
    pub subscriptions_announcer: RtpsStatefulWriter,
    pub topics_announcer: RtpsStatefulWriter,
    pub publications_detector: RtpsStatefulReader,
    pub subscriptions_detector: RtpsStatefulReader,
    pub topics_detector: RtpsStatefulReader,
}

/// Whether some proxy of `w` is for reader `g`.
pub open spec fn writer_knows(w: &RtpsStatefulWriter, g: Guid) -> bool {
    exists|i: int| 0 <= i < w.proxies().len() && (#[trigger] w.proxies()[i]).remote_reader_guid@ == g@
}

/// Whether some proxy of `r` is for writer `g`.
pub open spec fn reader_knows(r: &RtpsStatefulReader, g: Guid) -> bool {
    find_writer(r.writers(), g@).is_some()
}

fn copy_locators(v: &Vec<Locator>) -> (r: Vec<Locator>)
    ensures
        r@ == v@,
{
    let mut r: Vec<Locator> = Vec::new();
    let mut i: usize = 0;
    while i < v.len()
        invariant
            i <= v@.len(),
            r@ == v@.subrange(0, i as int),
        decreases v@.len() - i,
    {
        r.push(v[i]);
        i += 1;
        assert(r@ =~= v@.subrange(0, i as int));
    }
    assert(v@.subrange(0, i as int) =~= v@);
    r
}

/// Matches the remote SEDP reader `id` of a discovered participant with writer `w`.
fn match_remote_reader(w: &mut RtpsStatefulWriter, data: &SpdpDiscoveredParticipantData, id: EntityId)
    requires
        old(w).wf(),
    ensures
        final(w).wf(),
        writer_knows(final(w), (Guid { prefix: data.guid_prefix, entity_id: id })),
        forall|g: Guid| writer_knows(old(w), g) ==> writer_knows(final(w), g),
{
    let proxy = ReaderProxy {
        remote_reader_guid: Guid::new(data.guid_prefix, id),
        remote_group_entity_id: entityid_unknown(),
        unicast_locator_list: copy_locators(&data.metatraffic_unicast_locator_list),
        multicast_locator_list: copy_locators(&data.metatraffic_multicast_locator_list),
        expects_inline_qos: false,
        reliability_kind: ReliabilityKind::Reliable,
        durability_kind: DurabilityKind::TransientLocal,
    };
    let ghost g = proxy.remote_reader_guid;
    w.add_matched_reader(proxy);
    proof {
        if !writer_knows(old(w), g) {
            assert(w.proxies()[w.proxies().len() - 1].remote_reader_guid@ == g@);
        }
        assert forall|h: Guid| writer_knows(old(w), h) implies writer_knows(w, h) by {
            if writer_knows(old(w), h) {
                let i = choose|i: int| 0 <= i < old(w).proxies().len() && (#[trigger] old(w).proxies()[i]).remote_reader_guid@ == h@;
                if !writer_knows(old(w), g) {
                    assert(w.proxies().drop_last()[i] == w.proxies()[i]);
                }
            }
        }
    }
}

/// Matches the remote SEDP writer `id` of a discovered participant with reader `r`.
fn match_remote_writer(r: &mut RtpsStatefulReader, data: &SpdpDiscoveredParticipantData, id: EntityId)
    requires
        old(r).wf(),
    ensures
        final(r).wf(),
        reader_knows(final(r), (Guid { prefix: data.guid_prefix, entity_id: id })),
        forall|g: Guid| reader_knows(old(r), g) ==> reader_knows(final(r), g),
{
    let proxy = RtpsWriterProxy::new(
        Guid::new(data.guid_prefix, id),
        entityid_unknown(),
        copy_locators(&data.metatraffic_unicast_locator_list),
        copy_locators(&data.metatraffic_multicast_locator_list),
    );
    let ghost g = proxy.remote_writer_guid;
    r.matched_writer_add(proxy);
    proof {
        let ws = r.writers();
        if find_writer(old(r).writers(), g@).is_none() {
            assert(ws[ws.len() - 1].remote_writer_guid@ == g@);
        }
        assert forall|h: Guid| reader_knows(old(r), h) implies reader_knows(r, h) by {
            let ps = old(r).writers();
            let i = choose|i: int| 0 <= i < ps.len() && (#[trigger] ps[i]).remote_writer_guid@ == h@;
            if find_writer(ps, g@).is_none() {
                assert(ws[i] == ps[i]);
            }
            assert(ws[i].remote_writer_guid@ == h@);
        }
    }
}

impl SedpEndpoints {
    pub open spec fn wf(&self) -> bool {
        &&& self.publications_announcer.wf()
        &&& self.subscriptions_announcer.wf()
        &&& self.topics_announcer.wf()
        &&& self.publications_detector.wf()
        &&& self.subscriptions_detector.wf()
        &&& self.topics_detector.wf()
    }

    /// The SEDP endpoints of the participant `guid_prefix`, with no remote match yet.
    pub fn new(guid_prefix: GuidPrefix) -> (r: Self)
        ensures
            r.wf(),
            r.publications_announcer.spec_guid() == sedp_guid(guid_prefix, 3, 0xc2),
            r.subscriptions_announcer.spec_guid() == sedp_guid(guid_prefix, 4, 0xc2),
            r.topics_announcer.spec_guid() == sedp_guid(guid_prefix, 2, 0xc2),
            r.publications_announcer.proxies().len() == 0,
            r.subscriptions_announcer.proxies().len() == 0,
            r.topics_announcer.proxies().len() == 0,
            r.publications_detector.writers().len() == 0,
            r.subscriptions_detector.writers().len() == 0,
            r.topics_detector.writers().len() == 0,
    {
        let max = usize::MAX;
        SedpEndpoints {
            publications_announcer: RtpsStatefulWriter::new(
                Guid::new(guid_prefix, entityid_sedp_builtin_publications_announcer()),
                max,
            ),
            subscriptions_announcer: RtpsStatefulWriter::new(
                Guid::new(guid_prefix, entityid_sedp_builtin_subscriptions_announcer()),
                max,
            ),
            topics_announcer: RtpsStatefulWriter::new(
                Guid::new(guid_prefix, entityid_sedp_builtin_topics_announcer()),
                max,
            ),
            publications_detector: RtpsStatefulReader::new(
                RtpsReader::new(
                    Guid::new(guid_prefix, entityid_sedp_builtin_publications_detector()),
                    ReliabilityKind::Reliable,
                ),
            ),
            subscriptions_detector: RtpsStatefulReader::new(
                RtpsReader::new(
                    Guid::new(guid_prefix, entityid_sedp_builtin_subscriptions_detector()),
                    ReliabilityKind::Reliable,
                ),
            ),
            topics_detector: RtpsStatefulReader::new(
                RtpsReader::new(
                    Guid::new(guid_prefix, entityid_sedp_builtin_topics_detector()),
                    ReliabilityKind::Reliable,
                ),
            ),
        }
    }

    /// A remote publications detector is matched with the local publications announcer.
    pub fn add_matched_publications_detector(&mut self, data: &SpdpDiscoveredParticipantData)
        requires
            old(self).wf(),
        ensures
            final(self).wf(),
            has_endpoint(data.available_builtin_endpoints, BUILTIN_ENDPOINT_PUBLICATIONS_DETECTOR)
                ==> writer_knows(&final(self).publications_announcer, sedp_guid(data.guid_prefix, 3, 0xc7)),
            forall|g: Guid| writer_knows(&old(self).publications_announcer, g) ==> writer_knows(&final(self).publications_announcer, g),
            final(self).subscriptions_announcer == old(self).subscriptions_announcer,
            final(self).topics_announcer == old(self).topics_announcer,
            final(self).publications_detector == old(self).publications_detector,
            final(self).subscriptions_detector == old(self).subscriptions_detector,
            final(self).topics_detector == old(self).topics_detector,
    {
        if has(data.available_builtin_endpoints, BUILTIN_ENDPOINT_PUBLICATIONS_DETECTOR) {
            match_remote_reader(&mut self.publications_announcer, data, entityid_sedp_builtin_publications_detector());
        }
    }

    /// A remote publications announcer is matched with the local publications detector.
    pub fn add_matched_publications_announcer(&mut self, data: &SpdpDiscoveredParticipantData)
        requires
            old(self).wf(),
        ensures
            final(self).wf(),
            has_endpoint(data.available_builtin_endpoints, BUILTIN_ENDPOINT_PUBLICATIONS_ANNOUNCER)
                ==> reader_knows(&final(self).publications_detector, sedp_guid(data.guid_prefix, 3, 0xc2)),
            forall|g: Guid| reader_knows(&old(self).publications_detector, g) ==> reader_knows(&final(self).publications_detector, g),
            final(self).publications_announcer == old(self).publications_announcer,
            final(self).subscriptions_announcer == old(self).subscriptions_announcer,
            final(self).topics_announcer == old(self).topics_announcer,
            final(self).subscriptions_detector == old(self).subscriptions_detector,
            final(self).topics_detector == old(self).topics_detector,
    {
        if has(data.available_builtin_endpoints, BUILTIN_ENDPOINT_PUBLICATIONS_ANNOUNCER) {
            match_remote_writer(&mut self.publications_detector, data, entityid_sedp_builtin_publications_announcer());
        }
    }

    /// A remote subscriptions detector is matched with the local subscriptions announcer.
    pub fn add_matched_subscriptions_detector(&mut self, data: &SpdpDiscoveredParticipantData)
        requires
            old(self).wf(),
        ensures
            final(self).wf(),
            has_endpoint(data.available_builtin_endpoints, BUILTIN_ENDPOINT_SUBSCRIPTIONS_DETECTOR)
                ==> writer_knows(&final(self).subscriptions_announcer, sedp_guid(data.guid_prefix, 4, 0xc7)),
            forall|g: Guid| writer_knows(&old(self).subscriptions_announcer, g) ==> writer_knows(&final(self).subscriptions_announcer, g),
            final(self).publications_announcer == old(self).publications_announcer,
            final(self).topics_announcer == old(self).topics_announcer,
            final(self).publications_detector == old(self).publications_detector,
            final(self).subscriptions_detector == old(self).subscriptions_detector,
            final(self).topics_detector == old(self).topics_detector,
    {
        if has(data.available_builtin_endpoints, BUILTIN_ENDPOINT_SUBSCRIPTIONS_DETECTOR) {
            match_remote_reader(&mut self.subscriptions_announcer, data, entityid_sedp_builtin_subscriptions_detector());
        }
    }

    /// A remote subscriptions announcer is matched with the local subscriptions detector.
    pub fn add_matched_subscriptions_announcer(&mut self, data: &SpdpDiscoveredParticipantData)
        requires
            old(self).wf(),
        ensures
            final(self).wf(),
            has_endpoint(data.available_builtin_endpoints, BUILTIN_ENDPOINT_SUBSCRIPTIONS_ANNOUNCER)
                ==> reader_knows(&final(self).subscriptions_detector, sedp_guid(data.guid_prefix, 4, 0xc2)),
            forall|g: Guid| reader_knows(&old(self).subscriptions_detector, g) ==> reader_knows(&final(self).subscriptions_detector, g),
            final(self).publications_announcer == old(self).publications_announcer,
            final(self).subscriptions_announcer == old(self).subscriptions_announcer,
            final(self).topics_announcer == old(self).topics_announcer,
            final(self).publications_detector == old(self).publications_detector,
            final(self).topics_detector == old(self).topics_detector,
    {
        if has(data.available_builtin_endpoints, BUILTIN_ENDPOINT_SUBSCRIPTIONS_ANNOUNCER) {
            match_remote_writer(&mut self.subscriptions_detector, data, entityid_sedp_builtin_subscriptions_announcer());
        }
    }

    /// A remote topics detector is matched with the local topics announcer.
    pub fn add_matched_topics_detector(&mut self, data: &SpdpDiscoveredParticipantData)
        requires
            old(self).wf(),
        ensures
            final(self).wf(),
            has_endpoint(data.available_builtin_endpoints, BUILTIN_ENDPOINT_TOPICS_DETECTOR)
                ==> writer_knows(&final(self).topics_announcer, sedp_guid(data.guid_prefix, 2, 0xc7)),
            forall|g: Guid| writer_knows(&old(self).topics_announcer, g) ==> writer_knows(&final(self).topics_announcer, g),
            final(self).publications_announcer == old(self).publications_announcer,
            final(self).subscriptions_announcer == old(self).subscriptions_announcer,
            final(self).publications_detector == old(self).publications_detector,
            final(self).subscriptions_detector == old(self).subscriptions_detector,
            final(self).topics_detector == old(self).topics_detector,
    {
        if has(data.available_builtin_endpoints, BUILTIN_ENDPOINT_TOPICS_DETECTOR) {
            match_remote_reader(&mut self.topics_announcer, data, entityid_sedp_builtin_topics_detector());
        }
    }

    /// A remote topics announcer is matched with the local topics detector.
    pub fn add_matched_topics_announcer(&mut self, data: &SpdpDiscoveredParticipantData)
        requires
            old(self).wf(),
        ensures
            final(self).wf(),
            has_endpoint(data.available_builtin_endpoints, BUILTIN_ENDPOINT_TOPICS_ANNOUNCER)
                ==> reader_knows(&final(self).topics_detector, sedp_guid(data.guid_prefix, 2, 0xc2)),
            forall|g: Guid| reader_knows(&old(self).topics_detector, g) ==> reader_knows(&final(self).topics_detector, g),
            final(self).publications_announcer == old(self).publications_announcer,
            final(self).subscriptions_announcer == old(self).subscriptions_announcer,
            final(self).topics_announcer == old(self).topics_announcer,
            final(self).publications_detector == old(self).publications_detector,
            final(self).subscriptions_detector == old(self).subscriptions_detector,
    {
        if has(data.available_builtin_endpoints, BUILTIN_ENDPOINT_TOPICS_ANNOUNCER) {
            match_remote_writer(&mut self.topics_detector, data, entityid_sedp_builtin_topics_announcer());
        }
    }

    /// Matches every SEDP endpoint that a discovered participant announces.
    pub fn add_discovered_participant_endpoints(&mut self, data: &SpdpDiscoveredParticipantData)
        requires
            old(self).wf(),
        ensures
            final(self).wf(),
            has_endpoint(data.available_builtin_endpoints, BUILTIN_ENDPOINT_PUBLICATIONS_DETECTOR)
                ==> writer_knows(&final(self).publications_announcer, sedp_guid(data.guid_prefix, 3, 0xc7)),
            has_endpoint(data.available_builtin_endpoints, BUILTIN_ENDPOINT_PUBLICATIONS_ANNOUNCER)
                ==> reader_knows(&final(self).publications_detector, sedp_guid(data.guid_prefix, 3, 0xc2)),
            has_endpoint(data.available_builtin_endpoints, BUILTIN_ENDPOINT_SUBSCRIPTIONS_DETECTOR)
                ==> writer_knows(&final(self).subscriptions_announcer, sedp_guid(data.guid_prefix, 4, 0xc7)),
            has_endpoint(data.available_builtin_endpoints, BUILTIN_ENDPOINT_SUBSCRIPTIONS_ANNOUNCER)
                ==> reader_knows(&final(self).subscriptions_detector, sedp_guid(data.guid_prefix, 4, 0xc2)),
            has_endpoint(data.available_builtin_endpoints, BUILTIN_ENDPOINT_TOPICS_DETECTOR)
                ==> writer_knows(&final(self).topics_announcer, sedp_guid(data.guid_prefix, 2, 0xc7)),
            has_endpoint(data.available_builtin_endpoints, BUILTIN_ENDPOINT_TOPICS_ANNOUNCER)
                ==> reader_knows(&final(self).topics_detector, sedp_guid(data.guid_prefix, 2, 0xc2)),
    {
        self.add_matched_publications_detector(data);
        self.add_matched_publications_announcer(data);
        self.add_matched_subscriptions_detector(data);
        self.add_matched_subscriptions_announcer(data);
        self.add_matched_topics_detector(data);
        self.add_matched_topics_announcer(data);
    }
}

} // verus!
