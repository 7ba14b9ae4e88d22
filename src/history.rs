use vstd::prelude::*;

use crate::elements::TimeUdp;
use crate::messages::ParameterListUdp;
use crate::types::{ChangeKind, Guid, InstanceHandle};

verus! {

/// One published or received sample with its metadata.
#[derive(Clone, Debug, PartialEq, Eq)]
pub struct CacheChange {
    pub kind: ChangeKind,
    pub writer_guid: Guid,
    pub sequence_number: i64,
    pub instance_handle: InstanceHandle,
    pub source_timestamp: Option<TimeUdp>,
    pub data_value: Vec<u8>,
    pub inline_qos: ParameterListUdp,
}

/// The sequence numbers of a list of changes, in order.
pub open spec fn seq_nums(cs: Seq<CacheChange>) -> Seq<i64> {
    cs.map_values(|c: CacheChange| c.sequence_number)
}

/// `s` without the elements equal to `v`, order kept.
pub open spec fn without(s: Seq<i64>, v: i64) -> Seq<i64>
    decreases s.len(),
{
    if s.len() == 0 {
        s
    } else if s[0] == v {
        without(s.drop_first(), v)
    } else {
        seq![s[0]] + without(s.drop_first(), v)
    }
}

/// Whether `m` is the least element of `s`.
pub open spec fn is_min(s: Seq<i64>, m: i64) -> bool {
    s.contains(m) && forall|i: int| 0 <= i < s.len() ==> m <= #[trigger] s[i]
}

/// Whether `m` is the greatest element of `s`.
pub open spec fn is_max(s: Seq<i64>, m: i64) -> bool {
    s.contains(m) && forall|i: int| 0 <= i < s.len() ==> #[trigger] s[i] <= m
}

/// The sample store of an endpoint, in insertion order.
pub struct RTPSHistoryCacheImpl {
    pub changes: Vec<CacheChange>,
}

impl View for RTPSHistoryCacheImpl {
    type V = Seq<i64>;

    open spec fn view(&self) -> Seq<i64> {
        seq_nums(self.changes@)
    }
}

impl RTPSHistoryCacheImpl {
    pub fn new() -> (r: Self)
        ensures
            r@.len() == 0,
    {
        RTPSHistoryCacheImpl { changes: Vec::new() }
    }

    pub fn add_change(&mut self, change: CacheChange)
        ensures
            final(self)@ == old(self)@.push(change.sequence_number),
            final(self).changes@.last() == change,
    {
        self.changes.push(change);
        assert(self@ =~= old(self)@.push(change.sequence_number));
    }

    /// Removes every change with sequence number `seq_num`.
    pub fn remove_change(&mut self, seq_num: i64)
        ensures
            final(self)@ == without(old(self)@, seq_num),
    {
        let mut rest: Vec<CacheChange> = Vec::new();
        std::mem::swap(&mut rest, &mut self.changes);
        let ghost old_view = seq_nums(rest@);
        let mut kept: Vec<CacheChange> = Vec::new();
        assert(seq_nums(kept@) =~= Seq::<i64>::empty());
        while rest.len() > 0
            invariant
                seq_nums(kept@) + without(seq_nums(rest@), seq_num) == without(old_view, seq_num),
            decreases rest@.len(),
        {
            let ghost r0 = rest@;
            let c = rest.remove(0);
            assert(seq_nums(r0).drop_first() =~= seq_nums(rest@));
            assert(seq_nums(r0)[0] == c.sequence_number);
            let ghost k0 = seq_nums(kept@);
            if c.sequence_number != seq_num {
                kept.push(c);
                assert(seq_nums(kept@) =~= k0.push(c.sequence_number));
                assert(k0 + (seq![c.sequence_number] + without(seq_nums(rest@), seq_num)) =~= seq_nums(kept@) + without(seq_nums(rest@), seq_num));
            }
        }
        self.changes = kept;
        assert(self@ =~= without(old(self)@, seq_num));
    }

    /// The first change with sequence number `seq_num`.
    pub fn get_change(&self, seq_num: i64) -> (r: Option<&CacheChange>)
        ensures
            match r {
                Some(c) => exists|i: int|
                    0 <= i < self.changes@.len() && self.changes@[i] == *c && c.sequence_number
                        == seq_num,
                None => !self@.contains(seq_num),
            },
    {
        let mut i: usize = 0;
        while i < self.changes.len()
            invariant
                i <= self.changes@.len(),
                forall|j: int| 0 <= j < i ==> self.changes@[j].sequence_number != seq_num,
            decreases self.changes@.len() - i,
        {
            if self.changes[i].sequence_number == seq_num {
                return Some(&self.changes[i]);
            }
            i += 1;
        }
        proof {
            if self@.contains(seq_num) {
                let j = choose|j: int| 0 <= j < self@.len() && self@[j] == seq_num;
                assert(self.changes@[j].sequence_number == seq_num);
            }
        }
        None
    }

    /// The least sequence number held, if any.
    pub fn get_seq_num_min(&self) -> (r: Option<i64>)
        ensures
            match r {
                Some(m) => is_min(self@, m),
                None => self@.len() == 0,
            },
    {
        if self.changes.len() == 0 {
            return None;
        }
        let mut m = self.changes[0].sequence_number;
        let mut i: usize = 1;
        assert(self@[0] == m);
        while i < self.changes.len()
            invariant
                1 <= i <= self.changes@.len(),
                self@.len() == self.changes@.len(),
                self@.contains(m),
                forall|j: int| 0 <= j < i ==> m <= #[trigger] self@[j],
            decreases self.changes@.len() - i,
        {
            if self.changes[i].sequence_number < m {
                m = self.changes[i].sequence_number;
                assert(self@[i as int] == m);
            }
            i += 1;
        }
        Some(m)
    }

    /// The greatest sequence number held, if any.
    pub fn get_seq_num_max(&self) -> (r: Option<i64>)
        ensures
            match r {
                Some(m) => is_max(self@, m),
                None => self@.len() == 0,
            },
    {
        if self.changes.len() == 0 {
            return None;
        }
        let mut m = self.changes[0].sequence_number;
        let mut i: usize = 1;
        assert(self@[0] == m);
        while i < self.changes.len()
            invariant
                1 <= i <= self.changes@.len(),
                self@.len() == self.changes@.len(),
                self@.contains(m),
                forall|j: int| 0 <= j < i ==> #[trigger] self@[j] <= m,
            decreases self.changes@.len() - i,
        {
            if self.changes[i].sequence_number > m {
                m = self.changes[i].sequence_number;
                assert(self@[i as int] == m);
            }
            i += 1;
        }
        Some(m)
    }
}

} // verus!
