use vstd::prelude::*;

use crate::partition::{is_partition_matched, names, partitions_match};
use crate::publisher::{handles, remove_handle, with_handle, without_handle};
use crate::qos::{get_incompatible_policy, incompatible_policy, DataReaderQos, DataWriterQos, SubscriberQos};
use crate::types::{DdsError, DdsResult, EntityId, Guid, InstanceHandle, USER_DEFINED_READER_WITH_KEY};

verus! {

/// A data reader of a subscriber, with its matching state.
#[derive(Debug)]
pub struct DataReaderEntry {
    pub handle: InstanceHandle,
    pub topic_name: String,
    pub topic_type: String,
    pub qos: DataReaderQos,
    pub matched_writers: Vec<InstanceHandle>,
    /// Number of writers found incompatible, and the policy of the last one.
    pub incompatible_qos_total: i32,
    pub last_policy_id: i32,
}

/// A remote writer learnt through discovery.
#[derive(Clone, Debug)]
pub struct DiscoveredWriterData {
    pub writer_handle: InstanceHandle,
    pub topic_name: String,
    pub topic_type: String,
    pub qos: DataWriterQos,
    pub partition: Vec<String>,
}

/// Whether reader `d` of a subscriber with partitions `partition` matches writer `w`.
pub open spec fn reader_matches(d: &DataReaderEntry, partition: Seq<Seq<char>>, w: &DiscoveredWriterData) -> bool {
    &&& d.topic_name@ == w.topic_name@
    &&& d.topic_type@ == w.topic_type@
    &&& incompatible_policy(&w.qos, &d.qos).is_none()
    &&& partitions_match(partition, names(w.partition@))
}

/// `new` is `old` after taking in the writer `w`, reader by reader: a reader that fits it
/// matches it, every other reader unmatches it.
pub open spec fn matched_writer_added(old: &SubscriberActor, new: &SubscriberActor, w: &DiscoveredWriterData) -> bool {
    &&& new.spec_qos() == old.spec_qos()
    &&& new.spec_guid() == old.spec_guid()
    &&& new.readers().len() == old.readers().len()
    &&& forall|k: int|
        0 <= k < old.readers().len() ==> {
            let d = old.readers()[k];
            let nd = #[trigger] new.readers()[k];
            let same_topic = d.topic_name@ == w.topic_name@ && d.topic_type@ == w.topic_type@;
            let parts = partitions_match(names(old.spec_qos().partition@), names(w.partition@));
            &&& nd.handle == d.handle
            &&& nd.topic_name@ == d.topic_name@
            &&& nd.topic_type@ == d.topic_type@
            &&& nd.qos == d.qos
            &&& handles(nd.matched_writers@) == (if reader_matches(&d, names(old.spec_qos().partition@), w) {
                with_handle(handles(d.matched_writers@), w.writer_handle@)
            } else {
                without_handle(handles(d.matched_writers@), w.writer_handle@)
            })
            &&& (same_topic && parts && incompatible_policy(&w.qos, &d.qos).is_some()) ==> (nd.last_policy_id
                == incompatible_policy(&w.qos, &d.qos).unwrap() && nd.incompatible_qos_total
                == crate::writer::next_count(d.incompatible_qos_total))
            &&& !(same_topic && parts && incompatible_policy(&w.qos, &d.qos).is_some()) ==> (nd.last_policy_id
                == d.last_policy_id && nd.incompatible_qos_total == d.incompatible_qos_total)
        }
}

/// `new` is `old` with the writer `h` unmatched from every reader.
pub open spec fn writer_unmatched(old: &SubscriberActor, new: &SubscriberActor, h: Seq<u8>) -> bool {
    &&& new.spec_qos() == old.spec_qos()
    &&& new.spec_guid() == old.spec_guid()
    &&& new.readers().len() == old.readers().len()
    &&& forall|k: int|
        0 <= k < old.readers().len() ==> {
            let d = old.readers()[k];
            let nd = #[trigger] new.readers()[k];
            &&& nd.handle == d.handle
            &&& nd.topic_name@ == d.topic_name@
            &&& nd.topic_type@ == d.topic_type@
            &&& nd.qos == d.qos
            &&& handles(nd.matched_writers@) == without_handle(handles(d.matched_writers@), h)
            &&& nd.last_policy_id == d.last_policy_id
            &&& nd.incompatible_qos_total == d.incompatible_qos_total
        }
}

fn find_handle(v: &Vec<InstanceHandle>, h: &InstanceHandle) -> (r: bool)
    ensures
        r == handles(v@).contains(h@),
{
    let mut i: usize = 0;
    while i < v.len()
        invariant
            i <= v@.len(),
            forall|k: int| 0 <= k < i ==> v@[k]@ != h@,
        decreases v@.len() - i,
    {
        if v[i].equals(h) {
            assert(handles(v@)[i as int] == h@);
            return true;
        }
        i += 1;
    }
    proof {
        if handles(v@).contains(h@) {
            let k = choose|k: int| 0 <= k < handles(v@).len() && handles(v@)[k] == h@;
            assert(v@[k]@ == h@);
        }
    }
    false
}

/// A subscriber: its QoS and its data readers.
pub struct SubscriberActor {
    qos: SubscriberQos,
    guid: Guid,
    data_reader_list: Vec<DataReaderEntry>,
    enabled: bool,
    user_defined_data_reader_counter: u8,
}

impl SubscriberActor {
    pub closed spec fn readers(&self) -> Seq<DataReaderEntry> {
        self.data_reader_list@
    }

    pub closed spec fn spec_guid(&self) -> Guid {
        self.guid
    }

    pub closed spec fn spec_qos(&self) -> SubscriberQos {
        self.qos
    }

    pub closed spec fn counter(&self) -> u8 {
        self.user_defined_data_reader_counter
    }

    pub fn new(qos: SubscriberQos, guid: Guid) -> (r: Self)
        ensures
            r.spec_qos() == qos,
            r.spec_guid() == guid,
            r.readers().len() == 0,
            r.counter() == 0,
    {
        SubscriberActor {
            qos,
            guid,
            data_reader_list: Vec::new(),
            enabled: false,
            user_defined_data_reader_counter: 0,
        }
    }

    pub closed spec fn spec_enabled(&self) -> bool {
        self.enabled
    }

    /// Enables the subscriber.
    pub fn enable(&mut self)
        ensures
            final(self).spec_enabled(),
            old(self).spec_enabled() ==> *final(self) == *old(self),
            final(self).readers() == old(self).readers(),
            final(self).spec_guid() == old(self).spec_guid(),
            final(self).spec_qos() == old(self).spec_qos(),
    {
        self.enabled = true;
    }

    pub fn get_instance_handle(&self) -> (r: InstanceHandle)
        ensures
            r@ == self.spec_guid().octets(),
    {
        InstanceHandle::from_guid(&self.guid)
    }

    pub fn get_qos(&self) -> (r: &SubscriberQos)
        ensures
            *r == self.spec_qos(),
    {
        &self.qos
    }

    pub fn is_empty(&self) -> (r: bool)
        ensures
            r == (self.readers().len() == 0),
    {
        self.data_reader_list.len() == 0
    }

    /// Creates a data reader on `topic_name`; fails on an inconsistent QoS or when 255
    /// readers were made.
    pub fn create_datareader(&mut self, topic_name: String, topic_type: String, qos: DataReaderQos) -> (r: DdsResult<InstanceHandle>)
        ensures
            final(self).spec_guid() == old(self).spec_guid(),
            final(self).spec_qos() == old(self).spec_qos(),
            !qos.consistent() ==> r == Err::<InstanceHandle, DdsError>(DdsError::InconsistentPolicy)
                && final(self).readers() == old(self).readers(),
            qos.consistent() && old(self).counter() == 255 ==> r == Err::<InstanceHandle, DdsError>(
                DdsError::OutOfResources,
            ) && final(self).readers() == old(self).readers(),
            qos.consistent() && old(self).counter() < 255 ==> {
                let g = Guid {
                    prefix: old(self).spec_guid().prefix,
                    entity_id: EntityId {
                        key0: old(self).spec_guid().entity_id.key0,
                        key1: old(self).counter(),
                        key2: 0,
                        kind: USER_DEFINED_READER_WITH_KEY,
                    },
                };
                &&& r is Ok
                &&& r->Ok_0@ == g.octets()
                &&& final(self).readers().drop_last() == old(self).readers()
                &&& final(self).readers().len() == old(self).readers().len() + 1
                &&& final(self).readers().last().handle == r->Ok_0
                &&& final(self).readers().last().topic_name@ == topic_name@
                &&& final(self).readers().last().qos == qos
                &&& final(self).readers().last().topic_type@ == topic_type@
                &&& final(self).readers().last().matched_writers@.len() == 0
                &&& final(self).counter() == old(self).counter() + 1
            },
    {
        if qos.is_consistent().is_err() {
            return Err(DdsError::InconsistentPolicy);
        }
        if self.user_defined_data_reader_counter == 255 {
            return Err(DdsError::OutOfResources);
        }
        let n = self.user_defined_data_reader_counter;
        self.user_defined_data_reader_counter = n + 1;
        let guid = Guid::new(
            self.guid.prefix,
            EntityId { key0: self.guid.entity_id.key0, key1: n, key2: 0, kind: USER_DEFINED_READER_WITH_KEY },
        );
        let handle = InstanceHandle::from_guid(&guid);
        self.data_reader_list.push(
            DataReaderEntry {
                handle,
                topic_name,
                topic_type,
                qos,
                matched_writers: Vec::new(),
                incompatible_qos_total: 0,
                last_policy_id: 0,
            },
        );
        Ok(handle)
    }

    /// Deletes a reader of this subscriber; `PreconditionNotMet` if it is not one.
    pub fn delete_datareader(&mut self, handle: &InstanceHandle) -> (r: DdsResult<()>)
        ensures
            final(self).spec_guid() == old(self).spec_guid(),
            final(self).spec_qos() == old(self).spec_qos(),
            (exists|k: int| 0 <= k < old(self).readers().len() && (#[trigger] old(self).readers()[k]).handle@
                == handle@) ==> r is Ok && exists|k: int|
                0 <= k < old(self).readers().len() && (#[trigger] old(self).readers()[k]).handle@
                    == handle@ && final(self).readers() == old(self).readers().remove(k),
            !(exists|k: int| 0 <= k < old(self).readers().len() && (#[trigger] old(self).readers()[k]).handle@
                == handle@) ==> r == Err::<(), DdsError>(DdsError::PreconditionNotMet)
                && final(self).readers() == old(self).readers(),
    {
        let mut i: usize = 0;
        while i < self.data_reader_list.len()
            invariant
                i <= self.data_reader_list@.len(),
                self.data_reader_list@ == old(self).data_reader_list@,
                self.guid == old(self).guid,
                self.qos == old(self).qos,
                forall|k: int| 0 <= k < i ==> (#[trigger] self.data_reader_list@[k]).handle@ != handle@,
            decreases self.data_reader_list@.len() - i,
        {
            if self.data_reader_list[i].handle.equals(handle) {
                self.data_reader_list.remove(i);
                return Ok(());
            }
            i += 1;
        }
        Err(DdsError::PreconditionNotMet)
    }

    /// Matches a discovered writer with every reader of this subscriber that it fits; a
    /// reader on the same topic and type with incompatible QoS records the policy instead.
    pub fn add_matched_writer(&mut self, w: &DiscoveredWriterData)
        ensures
            matched_writer_added(old(self), final(self), w),
    {
        let parts = is_partition_matched(&self.qos.partition, &w.partition);
        let n = self.data_reader_list.len();
        let ghost ds0 = self.data_reader_list@;
        let mut i: usize = 0;
        while i < n
            invariant
                n == ds0.len(),
                i <= n,
                ds0 == old(self).data_reader_list@,
                self.qos == old(self).qos,
                self.guid == old(self).guid,
                self.user_defined_data_reader_counter == old(self).user_defined_data_reader_counter,
                parts == partitions_match(names(self.qos.partition@), names(w.partition@)),
                self.data_reader_list@.len() == n,
                forall|k: int| i <= k < n ==> #[trigger] self.data_reader_list@[k] == ds0[k],
                forall|k: int|
                    0 <= k < i ==> {
                        let d = ds0[k];
                        let nd = #[trigger] self.data_reader_list@[k];
                        let same_topic = d.topic_name@ == w.topic_name@ && d.topic_type@ == w.topic_type@;
                        &&& nd.handle == d.handle
                        &&& nd.topic_name@ == d.topic_name@
                        &&& nd.topic_type@ == d.topic_type@
                        &&& nd.qos == d.qos
                        &&& handles(nd.matched_writers@) == (if reader_matches(&d, names(self.qos.partition@), w) {
                            with_handle(handles(d.matched_writers@), w.writer_handle@)
                        } else {
                            without_handle(handles(d.matched_writers@), w.writer_handle@)
                        })
                        &&& (same_topic && parts && incompatible_policy(&w.qos, &d.qos).is_some()) ==> (
                        nd.last_policy_id == incompatible_policy(&w.qos, &d.qos).unwrap()
                            && nd.incompatible_qos_total == crate::writer::next_count(d.incompatible_qos_total))
                        &&& !(same_topic && parts && incompatible_policy(&w.qos, &d.qos).is_some()) ==> (
                        nd.last_policy_id == d.last_policy_id && nd.incompatible_qos_total == d.incompatible_qos_total)
                    },
            decreases n - i,
        {
            let ghost before = self.data_reader_list@;
            let same_topic = self.data_reader_list[i].topic_name == w.topic_name
                && self.data_reader_list[i].topic_type == w.topic_type;
            if same_topic && parts {
                match get_incompatible_policy(&w.qos, &self.data_reader_list[i].qos) {
                    None => {
                        let ghost m0 = handles(self.data_reader_list@[i as int].matched_writers@);
                        if !find_handle(&self.data_reader_list[i].matched_writers, &w.writer_handle) {
                            self.data_reader_list[i].matched_writers.push(w.writer_handle);
                            assert(handles(self.data_reader_list@[i as int].matched_writers@) =~= m0.push(w.writer_handle@));
                        }
                    },
                    Some(id) => {
                        self.data_reader_list[i].last_policy_id = id;
                        let total = self.data_reader_list[i].incompatible_qos_total;
                        self.data_reader_list[i].incompatible_qos_total = crate::writer::increment_count(total);
                        remove_handle(&mut self.data_reader_list[i].matched_writers, &w.writer_handle);
                    },
                }
            } else {
                remove_handle(&mut self.data_reader_list[i].matched_writers, &w.writer_handle);
            }
            proof {
                assert forall|k: int| 0 <= k < i implies #[trigger] self.data_reader_list@[k] == before[k] by {}
                assert(ds0[i as int] == before[i as int]);
            }
            i += 1;
        }
    }

    /// A discovered writer went away: every reader unmatches it.
    pub fn remove_matched_writer(&mut self, writer_handle: &InstanceHandle)
        ensures
            writer_unmatched(old(self), final(self), writer_handle@),
    {
        let n = self.data_reader_list.len();
        let ghost ds0 = self.data_reader_list@;
        let mut i: usize = 0;
        while i < n
            invariant
                n == ds0.len(),
                i <= n,
                ds0 == old(self).data_reader_list@,
                self.qos == old(self).qos,
                self.guid == old(self).guid,
                self.data_reader_list@.len() == n,
                forall|k: int| i <= k < n ==> #[trigger] self.data_reader_list@[k] == ds0[k],
                forall|k: int|
                    0 <= k < i ==> {
                        let d = ds0[k];
                        let nd = #[trigger] self.data_reader_list@[k];
                        &&& nd.handle == d.handle
                        &&& nd.topic_name@ == d.topic_name@
                        &&& nd.topic_type@ == d.topic_type@
                        &&& nd.qos == d.qos
                        &&& handles(nd.matched_writers@) == without_handle(handles(d.matched_writers@), writer_handle@)
                        &&& nd.last_policy_id == d.last_policy_id
                        &&& nd.incompatible_qos_total == d.incompatible_qos_total
                    },
            decreases n - i,
        {
            remove_handle(&mut self.data_reader_list[i].matched_writers, writer_handle);
            i += 1;
        }
    }

    /// The writers matched with the reader `reader_handle`; `None` when it is no reader here.
    pub fn get_matched_publications(&self, reader_handle: &InstanceHandle) -> (r: Option<Vec<InstanceHandle>>)
        ensures
            match r {
                Some(v) => exists|k: int|
                    0 <= k < self.readers().len() && (#[trigger] self.readers()[k]).handle@ == reader_handle@
                        && v@ == self.readers()[k].matched_writers@,
                None => forall|k: int| 0 <= k < self.readers().len() ==> (#[trigger] self.readers()[k]).handle@ != reader_handle@,
            },
    {
        let mut i: usize = 0;
        while i < self.data_reader_list.len()
            invariant
                i <= self.data_reader_list@.len(),
                forall|k: int| 0 <= k < i ==> (#[trigger] self.data_reader_list@[k]).handle@ != reader_handle@,
            decreases self.data_reader_list@.len() - i,
        {
            if self.data_reader_list[i].handle.equals(reader_handle) {
                let m = &self.data_reader_list[i].matched_writers;
                let mut v: Vec<InstanceHandle> = Vec::new();
                let mut j: usize = 0;
                while j < m.len()
                    invariant
                        j <= m@.len(),
                        v@ == m@.subrange(0, j as int),
                    decreases m@.len() - j,
                {
                    v.push(m[j]);
                    j += 1;
                    assert(v@ =~= m@.subrange(0, j as int));
                }
                assert(m@.subrange(0, j as int) =~= m@);
                return Some(v);
            }
            i += 1;
        }
        None
    }

    /// Whether `handle` is one of the readers.
    pub fn contains_reader(&self, handle: &InstanceHandle) -> (r: bool)
        ensures
            r == exists|k: int| 0 <= k < self.readers().len() && (#[trigger] self.readers()[k]).handle@ == handle@,
    {
        let mut i: usize = 0;
        while i < self.data_reader_list.len()
            invariant
                i <= self.data_reader_list@.len(),
                forall|k: int| 0 <= k < i ==> (#[trigger] self.data_reader_list@[k]).handle@ != handle@,
            decreases self.data_reader_list@.len() - i,
        {
            if self.data_reader_list[i].handle.equals(handle) {
                return true;
            }
            i += 1;
        }
        false
    }

    /// The first reader on `topic_name`.
    pub fn lookup_datareader(&self, topic_name: &String) -> (r: Option<InstanceHandle>)
        ensures
            match r {
                Some(h) => exists|k: int|
                    0 <= k < self.readers().len() && (#[trigger] self.readers()[k]).topic_name@
                        == topic_name@ && self.readers()[k].handle == h,
                None => forall|k: int|
                    0 <= k < self.readers().len() ==> (#[trigger] self.readers()[k]).topic_name@
                        != topic_name@,
            },
    {
        let mut i: usize = 0;
        while i < self.data_reader_list.len()
            invariant
                i <= self.data_reader_list@.len(),
                forall|k: int| 0 <= k < i ==> (#[trigger] self.data_reader_list@[k]).topic_name@ != topic_name@,
            decreases self.data_reader_list@.len() - i,
        {
            if self.data_reader_list[i].topic_name == *topic_name {
                return Some(self.data_reader_list[i].handle);
            }
            i += 1;
        }
        None
    }
}

/// The subscriber's listener: which statuses it takes.
pub struct SubscriberListenerActor {
    mask: Vec<crate::types::StatusKind>,
}

impl SubscriberListenerActor {
    pub fn new(mask: Vec<crate::types::StatusKind>) -> (r: Self)
        ensures
            r.spec_mask() == mask@,
    {
        SubscriberListenerActor { mask }
    }

    pub closed spec fn spec_mask(&self) -> Seq<crate::types::StatusKind> {
        self.mask@
    }

    /// Whether the listener is called for `status`.
    pub fn takes(&self, status: crate::types::StatusKind) -> (r: bool)
        ensures
            r == self.spec_mask().contains(status),
    {
        let mut i: usize = 0;
        while i < self.mask.len()
            invariant
                i <= self.mask@.len(),
                forall|k: int| 0 <= k < i ==> self.mask@[k] != status,
            decreases self.mask@.len() - i,
        {
            if self.mask[i] == status {
                assert(self.mask@[i as int] == status);
                return true;
            }
            i += 1;
        }
        false
    }
}

} // verus!
