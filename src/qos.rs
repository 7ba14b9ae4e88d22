use vstd::prelude::*;

use crate::types::{DdsError, DdsResult, DurabilityKind, ReliabilityKind};

verus! {

/// Either the default QoS of the factory, or a given one.
#[derive(Debug)]
pub enum QosKind<T> {
    Default,
    Specific(T),
}

/// Scope of coherent and ordered access.
#[derive(Clone, Copy, Debug, PartialEq, Eq, Structural)]
pub enum PresentationAccessScope {
    Instance,
    Topic,
    Group,
}

#[derive(Clone, Copy, Debug, PartialEq, Eq, Structural)]
pub struct PresentationQosPolicy {
    pub access_scope: PresentationAccessScope,
    pub coherent_access: bool,
    pub ordered_access: bool,
}

/// How many samples a cache keeps per instance.
#[derive(Clone, Copy, Debug, PartialEq, Eq, Structural)]
pub enum HistoryKind {
    KeepLast(u32),
    KeepAll,
}

/// Who may own an instance.
#[derive(Clone, Copy, Debug, PartialEq, Eq, Structural)]
pub enum OwnershipKind {
    Shared,
    Exclusive,
}

/// How liveliness is asserted, weakest first.
#[derive(Clone, Copy, Debug, PartialEq, Eq, Structural)]
pub enum LivelinessKind {
    Automatic,
    ManualByParticipant,
    ManualByTopic,
}

/// QoS ids reported by incompatible-QoS statuses.
pub const DURABILITY_QOS_POLICY_ID: i32 = 2;
pub const PRESENTATION_QOS_POLICY_ID: i32 = 3;
pub const DEADLINE_QOS_POLICY_ID: i32 = 4;
pub const LATENCYBUDGET_QOS_POLICY_ID: i32 = 5;
pub const OWNERSHIP_QOS_POLICY_ID: i32 = 6;
pub const LIVELINESS_QOS_POLICY_ID: i32 = 8;
pub const RELIABILITY_QOS_POLICY_ID: i32 = 11;

/// Endpoint QoS shared by topics, writers and readers. Durations are in milliseconds;
/// `None` is infinite.
#[derive(Clone, Copy, Debug, PartialEq, Eq, Structural)]
pub struct EndpointQos {
    pub reliability: ReliabilityKind,
    pub durability: DurabilityKind,
    pub history: HistoryKind,
    /// `None`: no limit.
    pub max_samples_per_instance: Option<u32>,
    pub deadline: Option<u64>,
    pub latency_budget: u64,
    pub ownership: OwnershipKind,
    pub liveliness: LivelinessKind,
}

pub type TopicQos = EndpointQos;

pub type DataWriterQos = EndpointQos;

pub type DataReaderQos = EndpointQos;

/// Rank of a durability, weakest first.
pub open spec fn durability_rank(d: DurabilityKind) -> int {
    match d {
        DurabilityKind::Volatile => 0,
        DurabilityKind::TransientLocal => 1,
        DurabilityKind::Transient => 2,
        DurabilityKind::Persistent => 3,
    }
}

pub open spec fn liveliness_rank(l: LivelinessKind) -> int {
    match l {
        LivelinessKind::Automatic => 0,
        LivelinessKind::ManualByParticipant => 1,
        LivelinessKind::ManualByTopic => 2,
    }
}

/// Whether a finite or infinite duration `a` is at most `b`.
pub open spec fn duration_le(a: Option<u64>, b: Option<u64>) -> bool {
    match (a, b) {
        (_, None) => true,
        (None, Some(_)) => false,
        (Some(x), Some(y)) => x <= y,
    }
}

impl EndpointQos {
    /// The defaults: best-effort, volatile, keep last 1, no limits.
    pub fn default_reader() -> (r: Self)
        ensures
            r.reliability == ReliabilityKind::BestEffort,
            r.durability == DurabilityKind::Volatile,
            r.history == HistoryKind::KeepLast(1),
            r.max_samples_per_instance.is_none(),
            r.deadline.is_none(),
            r.latency_budget == 0,
            r.ownership == OwnershipKind::Shared,
            r.liveliness == LivelinessKind::Automatic,
    {
        EndpointQos {
            reliability: ReliabilityKind::BestEffort,
            durability: DurabilityKind::Volatile,
            history: HistoryKind::KeepLast(1),
            max_samples_per_instance: None,
            deadline: None,
            latency_budget: 0,
            ownership: OwnershipKind::Shared,
            liveliness: LivelinessKind::Automatic,
        }
    }

    /// The writer defaults: as for readers, but reliable.
    pub fn default_writer() -> (r: Self)
        ensures
            r == Self::default_writer_spec(),
    {
        let mut r = Self::default_reader();
        r.reliability = ReliabilityKind::Reliable;
        r
    }

    pub open spec fn default_writer_spec() -> Self {
        EndpointQos { reliability: ReliabilityKind::Reliable, ..Self::default_reader_spec() }
    }

    pub open spec fn default_reader_spec() -> Self {
        EndpointQos {
            reliability: ReliabilityKind::BestEffort,
            durability: DurabilityKind::Volatile,
            history: HistoryKind::KeepLast(1),
            max_samples_per_instance: None,
            deadline: None,
            latency_budget: 0,
            ownership: OwnershipKind::Shared,
            liveliness: LivelinessKind::Automatic,
        }
    }

    /// Self-consistency: a kept depth within the per-instance limit, and a deadline no
    /// shorter than the latency budget.
    pub open spec fn consistent(&self) -> bool {
        &&& match (self.history, self.max_samples_per_instance) {
            (HistoryKind::KeepLast(depth), Some(max)) => depth <= max,
            _ => true,
        }
        &&& duration_le(Some(self.latency_budget), self.deadline)
    }

    pub fn is_consistent(&self) -> (r: DdsResult<()>)
        ensures
            r is Ok <==> self.consistent(),
            r is Err ==> r == Err::<(), DdsError>(DdsError::InconsistentPolicy),
    {
        let history_ok = match (self.history, self.max_samples_per_instance) {
            (HistoryKind::KeepLast(depth), Some(max)) => depth <= max,
            _ => true,
        };
        let deadline_ok = match self.deadline {
            Some(d) => self.latency_budget <= d,
            None => true,
        };
        if history_ok && deadline_ok {
            Ok(())
        } else {
            Err(DdsError::InconsistentPolicy)
        }
    }

    /// The policies that cannot change once the entity is enabled are equal.
    pub open spec fn same_immutable(&self, other: &Self) -> bool {
        &&& self.reliability == other.reliability
        &&& self.durability == other.durability
        &&& self.history == other.history
        &&& self.max_samples_per_instance == other.max_samples_per_instance
        &&& self.ownership == other.ownership
        &&& self.liveliness == other.liveliness
    }

    pub fn check_immutability(&self, other: &Self) -> (r: DdsResult<()>)
        ensures
            r is Ok <==> self.same_immutable(other),
            r is Err ==> r == Err::<(), DdsError>(DdsError::ImmutablePolicy),
    {
        if self.reliability == other.reliability && self.durability == other.durability
            && self.history == other.history && self.max_samples_per_instance
            == other.max_samples_per_instance && self.ownership == other.ownership
            && self.liveliness == other.liveliness {
            Ok(())
        } else {
            Err(DdsError::ImmutablePolicy)
        }
    }
}

/// The first policy in which what a writer offers falls short of what a reader requests.
pub open spec fn incompatible_policy(offered: &DataWriterQos, requested: &DataReaderQos) -> Option<i32> {
    if offered.reliability == ReliabilityKind::BestEffort && requested.reliability
        == ReliabilityKind::Reliable {
        Some(RELIABILITY_QOS_POLICY_ID)
    } else if durability_rank(offered.durability) < durability_rank(requested.durability) {
        Some(DURABILITY_QOS_POLICY_ID)
    } else if !duration_le(offered.deadline, requested.deadline) {
        Some(DEADLINE_QOS_POLICY_ID)
    } else if offered.latency_budget > requested.latency_budget {
        Some(LATENCYBUDGET_QOS_POLICY_ID)
    } else if offered.ownership != requested.ownership {
        Some(OWNERSHIP_QOS_POLICY_ID)
    } else if liveliness_rank(offered.liveliness) < liveliness_rank(requested.liveliness) {
        Some(LIVELINESS_QOS_POLICY_ID)
    } else {
        None
    }
}

fn durability_rank_of(d: DurabilityKind) -> (r: u8)
    ensures
        r == durability_rank(d),
{
    match d {
        DurabilityKind::Volatile => 0,
        DurabilityKind::TransientLocal => 1,
        DurabilityKind::Transient => 2,
        DurabilityKind::Persistent => 3,
    }
}

fn liveliness_rank_of(l: LivelinessKind) -> (r: u8)
    ensures
        r == liveliness_rank(l),
{
    match l {
        LivelinessKind::Automatic => 0,
        LivelinessKind::ManualByParticipant => 1,
        LivelinessKind::ManualByTopic => 2,
    }
}

/// The first incompatible policy id, or `None` when the reader's request is met.
pub fn get_incompatible_policy(offered: &DataWriterQos, requested: &DataReaderQos) -> (r: Option<i32>)
    ensures
        r == incompatible_policy(offered, requested),
{
    let deadline_ok = match (offered.deadline, requested.deadline) {
        (_, None) => true,
        (None, Some(_)) => false,
        (Some(x), Some(y)) => x <= y,
    };
    if offered.reliability == ReliabilityKind::BestEffort && requested.reliability
        == ReliabilityKind::Reliable {
        Some(RELIABILITY_QOS_POLICY_ID)
    } else if durability_rank_of(offered.durability) < durability_rank_of(requested.durability) {
        Some(DURABILITY_QOS_POLICY_ID)
    } else if !deadline_ok {
        Some(DEADLINE_QOS_POLICY_ID)
    } else if offered.latency_budget > requested.latency_budget {
        Some(LATENCYBUDGET_QOS_POLICY_ID)
    } else if offered.ownership != requested.ownership {
        Some(OWNERSHIP_QOS_POLICY_ID)
    } else if liveliness_rank_of(offered.liveliness) < liveliness_rank_of(requested.liveliness) {
        Some(LIVELINESS_QOS_POLICY_ID)
    } else {
        None
    }
}

/// QoS of a publisher or subscriber.
#[derive(Clone, Debug, PartialEq, Eq)]
pub struct GroupQos {
    pub presentation: PresentationQosPolicy,
    pub partition: Vec<String>,
    pub autoenable_created_entities: bool,
}

pub type PublisherQos = GroupQos;

pub type SubscriberQos = GroupQos;

impl GroupQos {
    pub fn default_qos() -> (r: Self)
        ensures
            r.presentation == (PresentationQosPolicy {
                access_scope: PresentationAccessScope::Instance,
                coherent_access: false,
                ordered_access: false,
            }),
            r.partition@.len() == 0,
            r.autoenable_created_entities,
    {
        GroupQos {
            presentation: PresentationQosPolicy {
                access_scope: PresentationAccessScope::Instance,
                coherent_access: false,
                ordered_access: false,
            },
            partition: Vec::new(),
            autoenable_created_entities: true,
        }
    }

    /// The default group QoS: instance scope, no coherence or order, no partition, autoenable.
    pub open spec fn is_default(&self) -> bool {
        &&& self.presentation == (PresentationQosPolicy {
            access_scope: PresentationAccessScope::Instance,
            coherent_access: false,
            ordered_access: false,
        })
        &&& self.partition@.len() == 0
        &&& self.autoenable_created_entities
    }

    /// Same policies, partitions compared by their names.
    pub open spec fn same(&self, other: &Self) -> bool {
        &&& self.presentation == other.presentation
        &&& crate::partition::names(self.partition@) == crate::partition::names(other.partition@)
        &&& self.autoenable_created_entities == other.autoenable_created_entities
    }

    /// A copy with the same policies.
    pub fn duplicate(&self) -> (r: Self)
        ensures
            r.same(self),
    {
        let mut partition: Vec<String> = Vec::new();
        let mut i: usize = 0;
        while i < self.partition.len()
            invariant
                i <= self.partition@.len(),
                partition@.len() == i,
                forall|k: int| 0 <= k < i ==> (#[trigger] partition@[k])@ == self.partition@[k]@,
            decreases self.partition@.len() - i,
        {
            partition.push(self.partition[i].clone());
            i += 1;
        }
        let r = GroupQos {
            presentation: self.presentation,
            partition,
            autoenable_created_entities: self.autoenable_created_entities,
        };
        assert(crate::partition::names(r.partition@) =~= crate::partition::names(self.partition@));
        r
    }

    /// The presentation policy cannot change once the entity is enabled.
    pub fn check_immutability(&self, other: &Self) -> (r: DdsResult<()>)
        ensures
            r is Ok <==> self.presentation == other.presentation,
            r is Err ==> r == Err::<(), DdsError>(DdsError::ImmutablePolicy),
    {
        if self.presentation != other.presentation {
            Err(DdsError::ImmutablePolicy)
        } else {
            Ok(())
        }
    }
}

/// QoS of a participant.
#[derive(Clone, Debug, PartialEq, Eq)]
pub struct DomainParticipantQos {
    pub user_data: Vec<u8>,
    pub autoenable_created_entities: bool,
}

impl DomainParticipantQos {
    pub fn default_qos() -> (r: Self)
        ensures
            r.user_data@.len() == 0,
            r.autoenable_created_entities,
    {
        DomainParticipantQos { user_data: Vec::new(), autoenable_created_entities: true }
    }

    /// Both hold the same user data and autoenable setting.
    pub open spec fn same(&self, other: &Self) -> bool {
        &&& self.user_data@ == other.user_data@
        &&& self.autoenable_created_entities == other.autoenable_created_entities
    }

    /// A copy with the same policies.
    pub fn duplicate(&self) -> (r: Self)
        ensures
            r.same(self),
    {
        let user_data = crate::messages::copy_bytes(self.user_data.as_slice(), 0, self.user_data.len());
        assert(user_data@ =~= self.user_data@);
        DomainParticipantQos { user_data, autoenable_created_entities: self.autoenable_created_entities }
    }
}

/// QoS of the participant factory.
#[derive(Clone, Copy, Debug, PartialEq, Eq, Structural)]
pub struct DomainParticipantFactoryQos {
    pub autoenable_created_entities: bool,
}

/// The QoS of the built-in SEDP readers: reliable, transient-local, keep last 1.
pub fn sedp_data_reader_qos() -> (r: DataReaderQos)
    ensures
        r == (EndpointQos {
            reliability: ReliabilityKind::Reliable,
            durability: DurabilityKind::TransientLocal,
            ..EndpointQos::default_reader_spec()
        }),
{
    let mut r = EndpointQos::default_reader();
    r.reliability = ReliabilityKind::Reliable;
    r.durability = DurabilityKind::TransientLocal;
    r
}

/// The QoS of the built-in SEDP writers: reliable, transient-local, keep last 1.
pub fn sedp_data_writer_qos() -> (r: DataWriterQos)
    ensures
        r == (EndpointQos {
            reliability: ReliabilityKind::Reliable,
            durability: DurabilityKind::TransientLocal,
            ..EndpointQos::default_reader_spec()
        }),
{
    let mut r = EndpointQos::default_writer();
    r.durability = DurabilityKind::TransientLocal;
    r
}

} // verus!
