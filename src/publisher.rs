use vstd::prelude::*;

use crate::partition::{is_partition_matched, names, partitions_match};
use crate::qos::{get_incompatible_policy, incompatible_policy, DataReaderQos, DataWriterQos, PublisherQos, QosKind};
use crate::types::{
    DdsError, DdsResult, EntityId, Guid, InstanceHandle, StatusCondition, StatusKind,
    USER_DEFINED_WRITER_NO_KEY, USER_DEFINED_WRITER_WITH_KEY,
};

verus! {

pub open spec fn handles(v: Seq<InstanceHandle>) -> Seq<Seq<u8>> {
    v.map_values(|h: InstanceHandle| h@)
}

/// A remote reader learnt through discovery.
#[derive(Clone, Debug)]
pub struct DiscoveredReaderData {
    pub reader_handle: InstanceHandle,
    pub topic_name: String,
    pub topic_type: String,
    pub qos: DataReaderQos,
    pub partition: Vec<String>,
}

/// A data writer of a publisher, with its matching state.
#[derive(Debug)]
pub struct DataWriterEntry {
    pub handle: InstanceHandle,
    pub topic_name: String,
    pub topic_type: String,
    pub qos: DataWriterQos,
    pub matched_readers: Vec<InstanceHandle>,
    /// Number of readers found incompatible, and the policy of the last one.
    pub incompatible_qos_total: i32,
    pub last_policy_id: i32,
}

/// Whether writer `w` of a publisher with partitions `partition` matches reader `r`:
/// same topic and type, compatible QoS, and matching partitions.
pub open spec fn writer_matches(w: &DataWriterEntry, partition: Seq<Seq<char>>, r: &DiscoveredReaderData) -> bool {
    &&& w.topic_name@ == r.topic_name@
    &&& w.topic_type@ == r.topic_type@
    &&& incompatible_policy(&w.qos, &r.qos).is_none()
    &&& partitions_match(partition, names(r.partition@))
}

/// `v` with `h` added unless it is there.
pub open spec fn with_handle(v: Seq<Seq<u8>>, h: Seq<u8>) -> Seq<Seq<u8>> {
    if v.contains(h) {
        v
    } else {
        v.push(h)
    }
}

/// `v` without `h`.
pub open spec fn without_handle(v: Seq<Seq<u8>>, h: Seq<u8>) -> Seq<Seq<u8>>
    decreases v.len(),
{
    if v.len() == 0 {
        v
    } else {
        let r = without_handle(v.drop_last(), h);
        if v.last() == h {
            r
        } else {
            r.push(v.last())
        }
    }
}

/// Index of the handle `h` in `v`, if there.
fn find_handle(v: &Vec<InstanceHandle>, h: &InstanceHandle) -> (r: Option<usize>)
    ensures
        match r {
            Some(i) => i < v@.len() && v@[i as int]@ == h@,
            None => !handles(v@).contains(h@),
        },
{
    let mut i: usize = 0;
    while i < v.len()
        invariant
            i <= v@.len(),
            forall|k: int| 0 <= k < i ==> v@[k]@ != h@,
        decreases v@.len() - i,
    {
        if v[i].equals(h) {
            return Some(i);
        }
        i += 1;
    }
    proof {
        if handles(v@).contains(h@) {
            let k = choose|k: int| 0 <= k < handles(v@).len() && handles(v@)[k] == h@;
            assert(v@[k]@ == h@);
        }
    }
    None
}

pub fn remove_handle(v: &mut Vec<InstanceHandle>, h: &InstanceHandle)
    ensures
        handles(final(v)@) == without_handle(handles(old(v)@), h@),
{
    let mut rest: Vec<InstanceHandle> = Vec::new();
    std::mem::swap(&mut rest, v);
    let ghost all = handles(rest@);
    let ghost total = rest@.len();
    assert(handles(v@) =~= without_handle(all.subrange(0, 0), h@));
    while rest.len() > 0
        invariant
            total == all.len(),
            rest@.len() <= total,
            handles(rest@) == all.subrange(total - rest@.len(), total as int),
            handles(v@) == without_handle(all.subrange(0, total - rest@.len()), h@),
        decreases rest@.len(),
    {
        let ghost k = total - rest@.len();
        let ghost r0 = rest@;
        let x = rest.remove(0);
        proof {
            assert(all[k] == handles(r0)[0]);
            assert(handles(rest@) =~= handles(r0).subrange(1, r0.len() as int));
            assert(handles(rest@) =~= all.subrange(total - rest@.len(), total as int));
            assert(all.subrange(0, k + 1).drop_last() =~= all.subrange(0, k));
            assert(all.subrange(0, k + 1).last() == x@);
        }
        let ghost v0 = handles(v@);
        if !x.equals(h) {
            v.push(x);
            assert(handles(v@) =~= v0.push(x@));
        }
    }
    assert(all.subrange(0, total as int) =~= all);
}

/// `new` is `old` after taking in the reader `r`: each writer that fits it (same topic and
/// type, compatible QoS, matching partitions) matches it, every other writer unmatches it;
/// a writer on the same topic and type whose partitions match but whose QoS does not
/// records the first incompatible policy.
pub open spec fn matched_reader_added(old: &PublisherActor, new: &PublisherActor, r: &DiscoveredReaderData) -> bool {
    &&& new.spec_qos() == old.spec_qos()
    &&& new.spec_guid() == old.spec_guid()
    &&& new.writers().len() == old.writers().len()
    &&& forall|k: int|
        0 <= k < old.writers().len() ==> {
            let w = old.writers()[k];
            let nw = #[trigger] new.writers()[k];
            let same_topic = w.topic_name@ == r.topic_name@ && w.topic_type@ == r.topic_type@;
            let parts = partitions_match(names(old.spec_qos().partition@), names(r.partition@));
            &&& nw.handle == w.handle
            &&& nw.topic_name@ == w.topic_name@
            &&& nw.topic_type@ == w.topic_type@
            &&& nw.qos == w.qos
            &&& handles(nw.matched_readers@) == (if writer_matches(&w, names(old.spec_qos().partition@), r) {
                with_handle(handles(w.matched_readers@), r.reader_handle@)
            } else {
                without_handle(handles(w.matched_readers@), r.reader_handle@)
            })
            &&& (same_topic && parts && incompatible_policy(&w.qos, &r.qos).is_some()) ==> (nw.last_policy_id
                == incompatible_policy(&w.qos, &r.qos).unwrap() && nw.incompatible_qos_total
                == crate::writer::next_count(w.incompatible_qos_total))
            &&& !(same_topic && parts && incompatible_policy(&w.qos, &r.qos).is_some()) ==> (nw.last_policy_id
                == w.last_policy_id && nw.incompatible_qos_total == w.incompatible_qos_total)
        }
}

/// `new` is `old` after creating the writer that `message` describes: an inconsistent QoS or no room left is an error and changes nothing; else the writer is appended.
pub open spec fn writer_created(old: &PublisherActor, new: &PublisherActor, message: CreateDatawriter, r: DdsResult<InstanceHandle>) -> bool {
    &&& (new.spec_qos() == old.spec_qos())
    &&& (new.spec_guid() == old.spec_guid())
    &&& (new.is_enabled_spec() == old.is_enabled_spec())
    &&& (new.default_writer_qos() == old.default_writer_qos())
    &&& (({
                let qos = match message.qos {
                    QosKind::Default => old.default_writer_qos(),
                    QosKind::Specific(q) => q,
                };
                if !qos.consistent() {
                    r == Err::<InstanceHandle, DdsError>(DdsError::InconsistentPolicy)
                        && new.writers() == old.writers()
                } else if old.counter() == 255 {
                    r == Err::<InstanceHandle, DdsError>(DdsError::OutOfResources)
                        && new.writers() == old.writers()
                } else {
                    let w = new.writers().last();
                    &&& r is Ok
                    &&& r->Ok_0@ == old.writer_guid(old.counter(), message.has_key).octets()
                    &&& new.writers().drop_last() == old.writers()
                    &&& new.writers().len() == old.writers().len() + 1
                    &&& w.handle == r->Ok_0
                    &&& w.topic_name@ == message.topic_name@
                    &&& w.topic_type@ == message.topic_type@
                    &&& w.qos == qos
                    &&& w.matched_readers@.len() == 0
                    &&& new.counter() == old.counter() + 1
                }
            }))
}

/// `new` is `old` with the reader of `message` unmatched from every writer.
pub open spec fn reader_unmatched(old: &PublisherActor, new: &PublisherActor, message: RemoveMatchedReader) -> bool {
    &&& (new.spec_qos() == old.spec_qos())
    &&& (new.writers().len() == old.writers().len())
    &&& (forall|k: int|
                0 <= k < old.writers().len() ==> {
                    let w = old.writers()[k];
                    let nw = #[trigger] new.writers()[k];
                    &&& nw.handle == w.handle
                    &&& nw.topic_name@ == w.topic_name@
                    &&& nw.qos == w.qos
                    &&& handles(nw.matched_readers@) == without_handle(
                        handles(w.matched_readers@),
                        message.discovered_reader_handle@,
                    )
                })
}

/// Creates a data writer on `topic_name`.
pub struct CreateDatawriter {
    pub topic_name: String,
    pub topic_type: String,
    pub has_key: bool,
    pub qos: QosKind<DataWriterQos>,
}

/// Deletes the data writer `handle`.
pub struct DeleteDatawriter {
    pub handle: InstanceHandle,
}

/// Finds a data writer on `topic_name`.
pub struct LookupDatawriter {
    pub topic_name: String,
}

pub struct Enable;

pub struct IsEnabled;

pub struct IsEmpty;

pub struct DrainDataWriterList;

pub struct SetDefaultDatawriterQos {
    pub qos: DataWriterQos,
}

pub struct GetDefaultDatawriterQos;

pub struct SetQos {
    pub qos: QosKind<PublisherQos>,
}

pub struct GetGuid;

pub struct GetInstanceHandle;

pub struct GetStatusKind;

pub struct GetQos;

pub struct GetDataWriterList;

/// A remote reader was discovered.
pub struct AddMatchedReader {
    pub discovered_reader_data: DiscoveredReaderData,
}

/// A remote reader went away.
pub struct RemoveMatchedReader {
    pub discovered_reader_handle: InstanceHandle,
}

pub struct GetStatuscondition;

pub struct SetListener {
    pub status_kind: Vec<StatusKind>,
}

/// A publisher: its QoS and its data writers.
pub struct PublisherActor {
    qos: PublisherQos,
    guid: Guid,
    data_writer_list: Vec<DataWriterEntry>,
    enabled: bool,
    user_defined_data_writer_counter: u8,
    default_datawriter_qos: DataWriterQos,
    status_kind: Vec<StatusKind>,
}

impl PublisherActor {
    pub closed spec fn writers(&self) -> Seq<DataWriterEntry> {
        self.data_writer_list@
    }

    pub closed spec fn spec_qos(&self) -> PublisherQos {
        self.qos
    }

    pub closed spec fn spec_guid(&self) -> Guid {
        self.guid
    }

    pub closed spec fn is_enabled_spec(&self) -> bool {
        self.enabled
    }

    pub closed spec fn counter(&self) -> u8 {
        self.user_defined_data_writer_counter
    }

    pub closed spec fn default_writer_qos(&self) -> DataWriterQos {
        self.default_datawriter_qos
    }

    pub closed spec fn mask(&self) -> Seq<StatusKind> {
        self.status_kind@
    }

    pub fn new(qos: PublisherQos, guid: Guid, status_kind: Vec<StatusKind>) -> (r: Self)
        ensures
            r.spec_qos() == qos,
            r.spec_guid() == guid,
            r.writers().len() == 0,
            !r.is_enabled_spec(),
            r.counter() == 0,
            r.default_writer_qos() == DataWriterQos::default_writer_spec(),
            r.mask() == status_kind@,
    {
        PublisherActor {
            qos,
            guid,
            data_writer_list: Vec::new(),
            enabled: false,
            user_defined_data_writer_counter: 0,
            default_datawriter_qos: DataWriterQos::default_writer(),
            status_kind,
        }
    }

    fn get_unique_writer_id(&mut self) -> (r: u8)
        requires
            old(self).counter() < 255,
        ensures
            r == old(self).counter(),
            final(self).counter() == old(self).counter() + 1,
            final(self).writers() == old(self).writers(),
            final(self).spec_qos() == old(self).spec_qos(),
            final(self).spec_guid() == old(self).spec_guid(),
            final(self).is_enabled_spec() == old(self).is_enabled_spec(),
            final(self).default_writer_qos() == old(self).default_writer_qos(),
            final(self).mask() == old(self).mask(),
    {
        let counter = self.user_defined_data_writer_counter;
        self.user_defined_data_writer_counter = counter + 1;
        counter
    }

    /// The GUID of the `n`th writer of this publisher.
    pub open spec fn writer_guid(&self, n: u8, has_key: bool) -> Guid {
        Guid {
            prefix: self.spec_guid().prefix,
            entity_id: EntityId {
                key0: self.spec_guid().entity_id.key0,
                key1: n,
                key2: 0,
                kind: if has_key {
                    USER_DEFINED_WRITER_WITH_KEY
                } else {
                    USER_DEFINED_WRITER_NO_KEY
                },
            },
        }
    }

    /// Creates a data writer; fails on an inconsistent QoS or when 255 writers were made.
    pub fn create_datawriter(&mut self, message: CreateDatawriter) -> (r: DdsResult<InstanceHandle>)
        ensures
            writer_created(old(self), final(self), message, r),

    {
        let qos = match message.qos {
            QosKind::Default => self.default_datawriter_qos,
            QosKind::Specific(q) => q,
        };
        if qos.is_consistent().is_err() {
            return Err(DdsError::InconsistentPolicy);
        }
        if self.user_defined_data_writer_counter == 255 {
            return Err(DdsError::OutOfResources);
        }
        let kind = if message.has_key {
            USER_DEFINED_WRITER_WITH_KEY
        } else {
            USER_DEFINED_WRITER_NO_KEY
        };
        let id = self.get_unique_writer_id();
        let entity_id = EntityId { key0: self.guid.entity_id.key0, key1: id, key2: 0, kind };
        let guid = Guid::new(self.guid.prefix, entity_id);
        let handle = InstanceHandle::from_guid(&guid);
        let ghost name_v = message.topic_name@;
        let ghost type_v = message.topic_type@;
        self.data_writer_list.push(
            DataWriterEntry {
                handle,
                topic_name: message.topic_name,
                topic_type: message.topic_type,
                qos,
                matched_readers: Vec::new(),
                incompatible_qos_total: 0,
                last_policy_id: 0,
            },
        );
        proof {
            let w = self.writers().last();
            assert(self.writers().drop_last() =~= old(self).writers());
            assert(w.topic_name@ == name_v && w.topic_type@ == type_v && w.handle == handle && w.qos == qos);
            assert(handle@ == old(self).writer_guid(old(self).counter(), message.has_key).octets());
        }
        Ok(handle)
    }

    fn find_writer(&self, handle: &InstanceHandle) -> (r: Option<usize>)
        ensures
            match r {
                Some(i) => i < self.writers().len() && self.writers()[i as int].handle@ == handle@,
                None => forall|k: int| 0 <= k < self.writers().len() ==> (#[trigger] self.writers()[k]).handle@ != handle@,
            },
    {
        let mut i: usize = 0;
        while i < self.data_writer_list.len()
            invariant
                i <= self.data_writer_list@.len(),
                forall|k: int| 0 <= k < i ==> (#[trigger] self.data_writer_list@[k]).handle@ != handle@,
            decreases self.data_writer_list@.len() - i,
        {
            if self.data_writer_list[i].handle.equals(handle) {
                return Some(i);
            }
            i += 1;
        }
        None
    }

    /// Deletes a writer of this publisher; `PreconditionNotMet` if it is not one.
    pub fn delete_datawriter(&mut self, message: DeleteDatawriter) -> (r: DdsResult<()>)
        ensures
            final(self).spec_qos() == old(self).spec_qos(),
            final(self).spec_guid() == old(self).spec_guid(),
            final(self).is_enabled_spec() == old(self).is_enabled_spec(),
            final(self).counter() == old(self).counter(),
            final(self).default_writer_qos() == old(self).default_writer_qos(),
            (exists|k: int| 0 <= k < old(self).writers().len() && (#[trigger] old(self).writers()[k]).handle@
                == message.handle@) ==> ({
                &&& r is Ok
                &&& final(self).writers().len() == old(self).writers().len() - 1
                &&& exists|k: int|
                    0 <= k < old(self).writers().len() && (#[trigger] old(self).writers()[k]).handle@
                        == message.handle@ && final(self).writers() == old(self).writers().remove(k)
            }),
            !(exists|k: int| 0 <= k < old(self).writers().len() && (#[trigger] old(self).writers()[k]).handle@
                == message.handle@) ==> r == Err::<(), DdsError>(DdsError::PreconditionNotMet)
                && final(self).writers() == old(self).writers(),
    {
        match self.find_writer(&message.handle) {
            Some(i) => {
                self.data_writer_list.remove(i);
                Ok(())
            },
            None => Err(DdsError::PreconditionNotMet),
        }
    }

    /// The first writer on `topic_name`.
    pub fn lookup_datawriter(&self, message: LookupDatawriter) -> (r: Option<InstanceHandle>)
        ensures
            match r {
                Some(h) => exists|k: int|
                    0 <= k < self.writers().len() && (#[trigger] self.writers()[k]).topic_name@
                        == message.topic_name@ && self.writers()[k].handle == h,
                None => forall|k: int|
                    0 <= k < self.writers().len() ==> (#[trigger] self.writers()[k]).topic_name@
                        != message.topic_name@,
            },
    {
        let mut i: usize = 0;
        while i < self.data_writer_list.len()
            invariant
                i <= self.data_writer_list@.len(),
                forall|k: int| 0 <= k < i ==> (#[trigger] self.data_writer_list@[k]).topic_name@ != message.topic_name@,
            decreases self.data_writer_list@.len() - i,
        {
            if self.data_writer_list[i].topic_name == message.topic_name {
                return Some(self.data_writer_list[i].handle);
            }
            i += 1;
        }
        None
    }

    pub fn enable(&mut self, _message: Enable)
        ensures
            old(self).is_enabled_spec() ==> *final(self) == *old(self),
            final(self).is_enabled_spec(),
            final(self).writers() == old(self).writers(),
            final(self).spec_qos() == old(self).spec_qos(),
            final(self).spec_guid() == old(self).spec_guid(),
            final(self).counter() == old(self).counter(),
    {
        self.enabled = true;
    }

    pub fn is_enabled(&self, _message: IsEnabled) -> (r: bool)
        ensures
            r == self.is_enabled_spec(),
    {
        self.enabled
    }

    pub fn is_empty(&self, _message: IsEmpty) -> (r: bool)
        ensures
            r == (self.writers().len() == 0),
    {
        self.data_writer_list.len() == 0
    }

    /// Removes all writers and returns their handles, in order.
    pub fn drain_data_writer_list(&mut self, _message: DrainDataWriterList) -> (r: Vec<InstanceHandle>)
        ensures
            final(self).writers().len() == 0,
            r@.len() == old(self).writers().len(),
            forall|k: int| 0 <= k < r@.len() ==> #[trigger] r@[k] == old(self).writers()[k].handle,
            final(self).spec_qos() == old(self).spec_qos(),
            final(self).spec_guid() == old(self).spec_guid(),
            final(self).is_enabled_spec() == old(self).is_enabled_spec(),
            final(self).counter() == old(self).counter(),
    {
        let r = self.get_data_writer_list(GetDataWriterList);
        self.data_writer_list = Vec::new();
        r
    }

    pub fn set_default_datawriter_qos(&mut self, message: SetDefaultDatawriterQos)
        ensures
            final(self).default_writer_qos() == message.qos,
            final(self).writers() == old(self).writers(),
            final(self).spec_qos() == old(self).spec_qos(),
            final(self).is_enabled_spec() == old(self).is_enabled_spec(),
    {
        self.default_datawriter_qos = message.qos;
    }

    pub fn get_default_datawriter_qos(&self, _message: GetDefaultDatawriterQos) -> (r: DataWriterQos)
        ensures
            r == self.default_writer_qos(),
    {
        self.default_datawriter_qos
    }

    /// Sets the QoS; once enabled, the presentation policy cannot change.
    pub fn set_qos(&mut self, message: SetQos) -> (r: DdsResult<()>)
        ensures
            ({
                let q = match message.qos {
                    QosKind::Default => None,
                    QosKind::Specific(q) => Some(q),
                };
                match q {
                    Some(q) => if old(self).is_enabled_spec() && old(self).spec_qos().presentation
                        != q.presentation {
                        r == Err::<(), DdsError>(DdsError::ImmutablePolicy) && final(self).spec_qos()
                            == old(self).spec_qos()
                    } else {
                        r is Ok && final(self).spec_qos() == q
                    },
                    None => r is Ok || r == Err::<(), DdsError>(DdsError::ImmutablePolicy),
                }
            }),
            final(self).writers() == old(self).writers(),
            final(self).is_enabled_spec() == old(self).is_enabled_spec(),
    {
        let qos = match message.qos {
            QosKind::Default => PublisherQos::default_qos(),
            QosKind::Specific(q) => q,
        };
        if self.enabled {
            if self.qos.check_immutability(&qos).is_err() {
                return Err(DdsError::ImmutablePolicy);
            }
        }
        self.qos = qos;
        Ok(())
    }

    pub fn get_guid(&self, _message: GetGuid) -> (r: Guid)
        ensures
            r == self.spec_guid(),
    {
        self.guid
    }

    pub fn get_instance_handle(&self, _message: GetInstanceHandle) -> (r: InstanceHandle)
        ensures
            r@ == self.spec_guid().octets(),
    {
        InstanceHandle::from_guid(&self.guid)
    }

    pub fn get_status_kind(&self, _message: GetStatusKind) -> (r: Vec<StatusKind>)
        ensures
            r@ == self.mask(),
    {
        let mut r: Vec<StatusKind> = Vec::new();
        let mut i: usize = 0;
        while i < self.status_kind.len()
            invariant
                i <= self.status_kind@.len(),
                r@ == self.status_kind@.subrange(0, i as int),
            decreases self.status_kind@.len() - i,
        {
            r.push(self.status_kind[i]);
            i += 1;
            assert(r@ =~= self.status_kind@.subrange(0, i as int));
        }
        assert(self.status_kind@.subrange(0, i as int) =~= self.status_kind@);
        r
    }

    pub fn get_qos(&self, _message: GetQos) -> (r: &PublisherQos)
        ensures
            *r == self.spec_qos(),
    {
        &self.qos
    }

    /// The handles of the writers, in order.
    pub fn get_data_writer_list(&self, _message: GetDataWriterList) -> (r: Vec<InstanceHandle>)
        ensures
            r@.len() == self.writers().len(),
            forall|k: int| 0 <= k < r@.len() ==> #[trigger] r@[k] == self.writers()[k].handle,
    {
        let mut r: Vec<InstanceHandle> = Vec::new();
        let mut i: usize = 0;
        while i < self.data_writer_list.len()
            invariant
                i <= self.data_writer_list@.len(),
                r@.len() == i,
                forall|k: int| 0 <= k < i ==> #[trigger] r@[k] == self.data_writer_list@[k].handle,
            decreases self.data_writer_list@.len() - i,
        {
            r.push(self.data_writer_list[i].handle);
            i += 1;
        }
        r
    }

    /// The status condition of the publisher, enabled for its listener mask.
    pub fn get_statuscondition(&self, _message: GetStatuscondition) -> (r: StatusCondition)
        ensures
            r.enabled_statuses@ == self.mask(),
    {
        StatusCondition { enabled_statuses: self.get_status_kind(GetStatusKind) }
    }

    pub fn set_listener(&mut self, message: SetListener)
        ensures
            final(self).mask() == message.status_kind@,
            final(self).writers() == old(self).writers(),
            final(self).spec_qos() == old(self).spec_qos(),
    {
        self.status_kind = message.status_kind;
    }

    /// Matches a discovered reader with every writer of this publisher that it fits; a
    /// writer on the same topic and type with incompatible QoS records the policy instead.
    pub fn add_matched_reader(&mut self, message: &AddMatchedReader)
        ensures
            matched_reader_added(old(self), final(self), &message.discovered_reader_data),
    {
        let r = &message.discovered_reader_data;
        let parts = is_partition_matched(&self.qos.partition, &r.partition);
        let ghost old_self = *old(self);
        let n = self.data_writer_list.len();
        let ghost ws0 = self.data_writer_list@;
        let mut i: usize = 0;
        while i < n
            invariant
                n == ws0.len(),
                i <= n,
                ws0 == old(self).data_writer_list@,
                self.qos == old(self).qos,
                self.guid == old(self).guid,
                r == &message.discovered_reader_data,
                self.user_defined_data_writer_counter == old(self).user_defined_data_writer_counter,
                parts == partitions_match(names(self.qos.partition@), names(r.partition@)),
                self.data_writer_list@.len() == n,
                forall|k: int| i <= k < n ==> #[trigger] self.data_writer_list@[k] == ws0[k],
                forall|k: int|
                    0 <= k < i ==> {
                        let w = ws0[k];
                        let nw = #[trigger] self.data_writer_list@[k];
                        let same_topic = w.topic_name@ == r.topic_name@ && w.topic_type@ == r.topic_type@;
                        &&& nw.handle == w.handle
                        &&& nw.topic_name@ == w.topic_name@
                        &&& nw.topic_type@ == w.topic_type@
                        &&& nw.qos == w.qos
                        &&& handles(nw.matched_readers@) == (if writer_matches(&w, names(self.qos.partition@), r) {
                            with_handle(handles(w.matched_readers@), r.reader_handle@)
                        } else {
                            without_handle(handles(w.matched_readers@), r.reader_handle@)
                        })
                        &&& (same_topic && parts && incompatible_policy(&w.qos, &r.qos).is_some()) ==> (
                        nw.last_policy_id == incompatible_policy(&w.qos, &r.qos).unwrap()
                            && nw.incompatible_qos_total == crate::writer::next_count(w.incompatible_qos_total))
                        &&& !(same_topic && parts && incompatible_policy(&w.qos, &r.qos).is_some()) ==> (
                        nw.last_policy_id == w.last_policy_id && nw.incompatible_qos_total == w.incompatible_qos_total)
                    },
            decreases n - i,
        {
            let ghost before = self.data_writer_list@;
            let same_topic = self.data_writer_list[i].topic_name == r.topic_name
                && self.data_writer_list[i].topic_type == r.topic_type;
            if same_topic && parts {
                let policy = get_incompatible_policy(&self.data_writer_list[i].qos, &r.qos);
                match policy {
                    None => {
                        let found = find_handle(&self.data_writer_list[i].matched_readers, &r.reader_handle);
                        let ghost m0 = handles(self.data_writer_list@[i as int].matched_readers@);
                        if found.is_none() {
                            self.data_writer_list[i].matched_readers.push(r.reader_handle);
                            assert(handles(self.data_writer_list@[i as int].matched_readers@) =~= m0.push(r.reader_handle@));
                        } else {
                            let j = found.unwrap();
                            assert(m0[j as int] == r.reader_handle@);
                            assert(m0.contains(r.reader_handle@));
                        }
                    },
                    Some(id) => {
                        self.data_writer_list[i].last_policy_id = id;
                        let total = self.data_writer_list[i].incompatible_qos_total;
                        self.data_writer_list[i].incompatible_qos_total = crate::writer::increment_count(total);
                        remove_handle(&mut self.data_writer_list[i].matched_readers, &r.reader_handle);
                    },
                }
            } else {
                remove_handle(&mut self.data_writer_list[i].matched_readers, &r.reader_handle);
            }
            proof {
                assert forall|k: int| 0 <= k < i implies #[trigger] self.data_writer_list@[k] == before[k] by {}
                let w = ws0[i as int];
                assert(w == before[i as int]);
                if writer_matches(&w, names(self.qos.partition@), r) {
                    assert(same_topic && parts);
                }
                let nw = self.data_writer_list@[i as int];
                assert(nw.handle == w.handle);
                assert(nw.topic_name@ == w.topic_name@);
                assert(nw.qos == w.qos);
                assert(handles(nw.matched_readers@) == (if writer_matches(&w, names(self.qos.partition@), r) {
                    with_handle(handles(w.matched_readers@), r.reader_handle@)
                } else {
                    without_handle(handles(w.matched_readers@), r.reader_handle@)
                }));
            }
            i += 1;
        }
    }

    /// The readers matched with the writer `writer_handle`, or `None` if it is not one of
    /// this publisher's writers.
    pub fn get_matched_subscriptions(&self, writer_handle: &InstanceHandle) -> (r: Option<Vec<InstanceHandle>>)
        ensures
            match r {
                Some(v) => exists|k: int|
                    0 <= k < self.writers().len() && (#[trigger] self.writers()[k]).handle@ == writer_handle@
                        && handles(v@) == handles(self.writers()[k].matched_readers@),
                None => forall|k: int| 0 <= k < self.writers().len() ==> (#[trigger] self.writers()[k]).handle@ != writer_handle@,
            },
    {
        match self.find_writer(writer_handle) {
            None => None,
            Some(i) => {
                let m = &self.data_writer_list[i].matched_readers;
                let mut v: Vec<InstanceHandle> = Vec::new();
                let mut j: usize = 0;
                while j < m.len()
                    invariant
                        j <= m@.len(),
                        v@ == m@.subrange(0, j as int),
                    decreases m@.len() - j,
                {
                    v.push(m[j]);
                    j += 1;
                    assert(v@ =~= m@.subrange(0, j as int));
                }
                assert(m@.subrange(0, j as int) =~= m@);
                Some(v)
            },
        }
    }

    /// Unmatches a reader from every writer.
    pub fn remove_matched_reader(&mut self, message: RemoveMatchedReader)
        ensures
            reader_unmatched(old(self), final(self), message),

    {
        let n = self.data_writer_list.len();
        let ghost ws0 = self.data_writer_list@;
        let mut i: usize = 0;
        while i < n
            invariant
                n == ws0.len(),
                i <= n,
                ws0 == old(self).data_writer_list@,
                self.qos == old(self).qos,
                self.data_writer_list@.len() == n,
                forall|k: int| i <= k < n ==> #[trigger] self.data_writer_list@[k] == ws0[k],
                forall|k: int|
                    0 <= k < i ==> {
                        let w = ws0[k];
                        let nw = #[trigger] self.data_writer_list@[k];
                        &&& nw.handle == w.handle
                        &&& nw.topic_name@ == w.topic_name@
                        &&& nw.qos == w.qos
                        &&& handles(nw.matched_readers@) == without_handle(
                            handles(w.matched_readers@),
                            message.discovered_reader_handle@,
                        )
                    },
            decreases n - i,
        {
            remove_handle(&mut self.data_writer_list[i].matched_readers, &message.discovered_reader_handle);
            i += 1;
        }
    }
}

} // verus!
