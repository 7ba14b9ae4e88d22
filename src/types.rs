use vstd::prelude::*;

verus! {

/// Sequence numbers are signed 64-bit and strictly increasing per writer, from 1.
pub type SequenceNumber = i64;

/// Reserved "unknown" sequence number.
pub const SEQUENCE_NUMBER_UNKNOWN: i64 = 0;

/// Identifier of a DDS domain.
pub type DomainId = i32;

/// Compares two byte slices element by element.
pub fn bytes_equal(a: &[u8], b: &[u8]) -> (r: bool)
    ensures
        r == (a@ == b@),
{
    if a.len() != b.len() {
        return false;
    }
    let mut i: usize = 0;
    while i < a.len()
        invariant
            a@.len() == b@.len(),
            i <= a@.len(),
            forall|j: int| 0 <= j < i ==> a@[j] == b@[j],
        decreases a@.len() - i,
    {
        if a[i] != b[i] {
            return false;
        }
        i += 1;
    }
    assert(a@ =~= b@);
    true
}

/// The 12-byte prefix shared by every entity of one participant.
#[derive(Clone, Copy, Debug, PartialEq, Eq)]
pub struct GuidPrefix {
    pub bytes: [u8; 12],
}

impl View for GuidPrefix {
    type V = Seq<u8>;

    open spec fn view(&self) -> Seq<u8> {
        self.bytes@
    }
}

impl GuidPrefix {
    pub fn new(bytes: [u8; 12]) -> (r: Self)
        ensures
            r@ == bytes@,
    {
        GuidPrefix { bytes }
    }

    pub fn equals(&self, other: &GuidPrefix) -> (r: bool)
        ensures
            r == (self@ == other@),
    {
        bytes_equal(self.bytes.as_slice(), other.bytes.as_slice())
    }
}

/// Entity kind octet: user-defined writer with key.
pub const USER_DEFINED_WRITER_WITH_KEY: u8 = 0x02;
/// Entity kind octet: user-defined writer without key.
pub const USER_DEFINED_WRITER_NO_KEY: u8 = 0x03;
/// Entity kind octet: user-defined reader without key.
pub const USER_DEFINED_READER_NO_KEY: u8 = 0x04;
/// Entity kind octet: user-defined reader with key.
pub const USER_DEFINED_READER_WITH_KEY: u8 = 0x07;
/// Entity kind octet: user-defined writer group.
pub const USER_DEFINED_WRITER_GROUP: u8 = 0x08;
/// Entity kind octet: user-defined reader group.
pub const USER_DEFINED_READER_GROUP: u8 = 0x09;
/// Entity kind octet: user-defined topic.
pub const USER_DEFINED_TOPIC: u8 = 0x0a;
/// Entity kind octet: built-in participant.
pub const BUILT_IN_PARTICIPANT: u8 = 0xc1;
/// Entity kind octet: built-in writer with key.
pub const BUILT_IN_WRITER_WITH_KEY: u8 = 0xc2;
/// Entity kind octet: built-in reader with key.
pub const BUILT_IN_READER_WITH_KEY: u8 = 0xc7;
/// Entity kind octet: built-in writer group.
pub const BUILT_IN_WRITER_GROUP: u8 = 0xc8;
/// Entity kind octet: built-in reader group.
pub const BUILT_IN_READER_GROUP: u8 = 0xc9;

/// Entity id: a 3-byte key and a 1-byte kind.
#[derive(Clone, Copy, Debug, PartialEq, Eq, Structural)]
pub struct EntityId {
    pub key0: u8,
    pub key1: u8,
    pub key2: u8,
    pub kind: u8,
}

impl EntityId {
    pub fn new(key: [u8; 3], kind: u8) -> (r: Self)
        ensures
            r.key0 == key@[0],
            r.key1 == key@[1],
            r.key2 == key@[2],
            r.kind == kind,
    {
        EntityId { key0: key[0], key1: key[1], key2: key[2], kind }
    }

    pub open spec fn octets(self) -> Seq<u8> {
        seq![self.key0, self.key1, self.key2, self.kind]
    }
}

pub fn entityid_unknown() -> (r: EntityId)
    ensures
        r == (EntityId { key0: 0, key1: 0, key2: 0, kind: 0 }),
{
    EntityId { key0: 0, key1: 0, key2: 0, kind: 0 }
}

pub fn entityid_participant() -> (r: EntityId)
    ensures
        r == (EntityId { key0: 0, key1: 0, key2: 1, kind: 0xc1 }),
{
    EntityId { key0: 0, key1: 0, key2: 1, kind: 0xc1 }
}

pub fn entityid_sedp_builtin_topics_announcer() -> (r: EntityId)
    ensures
        r == (EntityId { key0: 0, key1: 0, key2: 2, kind: 0xc2 }),
{
    EntityId { key0: 0, key1: 0, key2: 2, kind: 0xc2 }
}

pub fn entityid_sedp_builtin_topics_detector() -> (r: EntityId)
    ensures
        r == (EntityId { key0: 0, key1: 0, key2: 2, kind: 0xc7 }),
{
    EntityId { key0: 0, key1: 0, key2: 2, kind: 0xc7 }
}

pub fn entityid_sedp_builtin_publications_announcer() -> (r: EntityId)
    ensures
        r == (EntityId { key0: 0, key1: 0, key2: 3, kind: 0xc2 }),
{
    EntityId { key0: 0, key1: 0, key2: 3, kind: 0xc2 }
}

pub fn entityid_sedp_builtin_publications_detector() -> (r: EntityId)
    ensures
        r == (EntityId { key0: 0, key1: 0, key2: 3, kind: 0xc7 }),
{
    EntityId { key0: 0, key1: 0, key2: 3, kind: 0xc7 }
}

pub fn entityid_sedp_builtin_subscriptions_announcer() -> (r: EntityId)
    ensures
        r == (EntityId { key0: 0, key1: 0, key2: 4, kind: 0xc2 }),
{
    EntityId { key0: 0, key1: 0, key2: 4, kind: 0xc2 }
}

pub fn entityid_sedp_builtin_subscriptions_detector() -> (r: EntityId)
    ensures
        r == (EntityId { key0: 0, key1: 0, key2: 4, kind: 0xc7 }),
{
    EntityId { key0: 0, key1: 0, key2: 4, kind: 0xc7 }
}

pub fn entityid_spdp_builtin_participant_announcer() -> (r: EntityId)
    ensures
        r == (EntityId { key0: 0, key1: 1, key2: 0, kind: 0xc2 }),
{
    EntityId { key0: 0, key1: 1, key2: 0, kind: 0xc2 }
}

/// Global identity: participant prefix and entity id.
#[derive(Clone, Copy, Debug, PartialEq, Eq)]
pub struct Guid {
    pub prefix: GuidPrefix,
    pub entity_id: EntityId,
}

impl View for Guid {
    type V = (Seq<u8>, EntityId);

    open spec fn view(&self) -> (Seq<u8>, EntityId) {
        (self.prefix@, self.entity_id)
    }
}

impl Guid {
    pub fn new(prefix: GuidPrefix, entity_id: EntityId) -> (r: Self)
        ensures
            r.prefix == prefix,
            r.entity_id == entity_id,
    {
        Guid { prefix, entity_id }
    }

    pub fn equals(&self, other: &Guid) -> (r: bool)
        ensures
            r == (self@ == other@),
    {
        self.entity_id == other.entity_id && self.prefix.equals(&other.prefix)
    }

    /// The 16 bytes of the GUID: the prefix followed by the entity id.
    pub open spec fn octets(self) -> Seq<u8> {
        self.prefix@ + self.entity_id.octets()
    }

    pub fn to_bytes(&self) -> (r: [u8; 16])
        ensures
            r@ == self.octets(),
    {
        let p = &self.prefix.bytes;
        let e = self.entity_id;
        let r: [u8; 16] = [
            p[0], p[1], p[2], p[3], p[4], p[5], p[6], p[7], p[8], p[9], p[10], p[11],
            e.key0, e.key1, e.key2, e.kind,
        ];
        assert(r@ =~= self.octets());
        r
    }
}

/// Opaque 16-byte handle identifying an instance or an entity.
#[derive(Clone, Copy, Debug, PartialEq, Eq)]
pub struct InstanceHandle {
    pub value: [u8; 16],
}

impl View for InstanceHandle {
    type V = Seq<u8>;

    open spec fn view(&self) -> Seq<u8> {
        self.value@
    }
}

impl InstanceHandle {
    pub fn new(value: [u8; 16]) -> (r: Self)
        ensures
            r@ == value@,
    {
        InstanceHandle { value }
    }

    /// The handle of an entity is its GUID's 16 bytes.
    pub fn from_guid(guid: &Guid) -> (r: Self)
        ensures
            r@ == guid.octets(),
    {
        InstanceHandle { value: guid.to_bytes() }
    }

    pub fn equals(&self, other: &InstanceHandle) -> (r: bool)
        ensures
            r == (self@ == other@),
    {
        bytes_equal(self.value.as_slice(), other.value.as_slice())
    }
}

/// Locator kinds.
pub const LOCATOR_KIND_INVALID: i32 = -1;
pub const LOCATOR_KIND_UDP_V4: i32 = 1;
pub const LOCATOR_KIND_UDP_V6: i32 = 2;

/// A transport address: kind, port and 16-byte address.
#[derive(Clone, Copy, Debug, PartialEq, Eq)]
pub struct Locator {
    pub kind: i32,
    pub port: u32,
    pub address: [u8; 16],
}

/// Kind of a cache change.
#[derive(Clone, Copy, Debug, PartialEq, Eq, Structural)]
pub enum ChangeKind {
    Alive,
    AliveFiltered,
    NotAliveDisposed,
    NotAliveUnregistered,
}

/// Reliability of an endpoint.
#[derive(Clone, Copy, Debug, PartialEq, Eq, Structural)]
pub enum ReliabilityKind {
    BestEffort,
    Reliable,
}

/// Durability of an endpoint.
#[derive(Clone, Copy, Debug, PartialEq, Eq, Structural)]
pub enum DurabilityKind {
    Volatile,
    TransientLocal,
    Transient,
    Persistent,
}

/// Communication statuses of an entity.
#[derive(Clone, Copy, Debug, PartialEq, Eq, Structural)]
pub enum StatusKind {
    InconsistentTopic,
    OfferedDeadlineMissed,
    RequestedDeadlineMissed,
    OfferedIncompatibleQos,
    RequestedIncompatibleQos,
    SampleLost,
    SampleRejected,
    DataOnReaders,
    DataAvailable,
    LivelinessLost,
    LivelinessChanged,
    PublicationMatched,
    SubscriptionMatched,
}

/// Whether some status is both active and enabled.
pub open spec fn triggered(active: Seq<StatusKind>, enabled: Seq<StatusKind>) -> bool {
    exists|i: int, j: int| 0 <= i < active.len() && 0 <= j < enabled.len() && active[i] == enabled[j]
}

/// A condition that triggers while one of its enabled statuses is active.
#[derive(Clone, Debug, PartialEq, Eq)]
pub struct StatusCondition {
    pub enabled_statuses: Vec<StatusKind>,
}

impl StatusCondition {
    pub fn get_trigger_value(&self, active: &Vec<StatusKind>) -> (r: bool)
        ensures
            r == triggered(active@, self.enabled_statuses@),
    {
        let mut i: usize = 0;
        while i < active.len()
            invariant
                i <= active@.len(),
                forall|k: int, l: int|
                    0 <= k < i && 0 <= l < self.enabled_statuses@.len() ==> active@[k]
                        != self.enabled_statuses@[l],
            decreases active@.len() - i,
        {
            let mut j: usize = 0;
            while j < self.enabled_statuses.len()
                invariant
                    i < active@.len(),
                    j <= self.enabled_statuses@.len(),
                    forall|l: int| 0 <= l < j ==> active@[i as int] != self.enabled_statuses@[l],
                decreases self.enabled_statuses@.len() - j,
            {
                if active[i] == self.enabled_statuses[j] {
                    return true;
                }
                j += 1;
            }
            i += 1;
        }
        false
    }
}

/// The result kinds that public operations report.
#[derive(Clone, Debug, PartialEq, Eq)]
pub enum DdsError {
    Error,
    Unsupported,
    BadParameter,
    PreconditionNotMet,
    OutOfResources,
    NotEnabled,
    ImmutablePolicy,
    InconsistentPolicy,
    AlreadyDeleted,
    Timeout,
    NoData,
    IllegalOperation,
}

pub type DdsResult<T> = Result<T, DdsError>;

/// Port base, domain gain and offset of the default port mapping.
pub const PB: i32 = 7400;
pub const DG: i32 = 250;
pub const D0: i32 = 0;
pub const D1: i32 = 10;

/// Well-known multicast port of the built-in discovery traffic of a domain.
pub fn port_builtin_multicast(domain_id: DomainId) -> (r: u16)
    requires
        0 <= domain_id <= 232,
    ensures
        r == PB + DG * domain_id + D0,
{
    (PB + DG * domain_id + D0) as u16
}

/// Built-in unicast port of a participant in a domain.
pub fn port_builtin_unicast(domain_id: DomainId, participant_id: i32) -> (r: u16)
    requires
        0 <= domain_id,
        0 <= participant_id,
        PB + DG * domain_id + D1 + 2 * participant_id <= u16::MAX,
    ensures
        r == PB + DG * domain_id + D1 + 2 * participant_id,
{
    (PB + DG * domain_id + D1 + 2 * participant_id) as u16
}

/// The GUID prefix of a new participant: host id, application id and instance id.
pub fn guid_prefix_from_ids(host_id: [u8; 4], app_id: [u8; 4], instance_id: [u8; 4]) -> (r:
    GuidPrefix)
    ensures
        r@ == host_id@ + app_id@ + instance_id@,
{
    let r = GuidPrefix {
        bytes: [
            host_id[0], host_id[1], host_id[2], host_id[3],
            app_id[0], app_id[1], app_id[2], app_id[3],
            instance_id[0], instance_id[1], instance_id[2], instance_id[3],
        ],
    };
    assert(r@ =~= host_id@ + app_id@ + instance_id@);
    r
}

} // verus!
