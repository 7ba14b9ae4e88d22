use vstd::prelude::*;

use crate::history::CacheChange;
use crate::types::{Guid, Locator};
use crate::writer::{data_items, find_len, fragments_fit, num_fragments, summaries, tag, SendItem, WriterSubmessage};

verus! {

/// A destination of a stateless writer and the changes it has not been sent yet.
#[derive(Debug)]
pub struct RtpsReaderLocator {
    pub locator: Locator,
    pub expects_inline_qos: bool,
    pub unsent_changes: Vec<i64>,
}

/// What a locator is sent for its unsent changes: the data of each change held, a GAP
/// for each one no longer held.
pub open spec fn stateless_items(unsent: Seq<i64>, cs: Seq<(i64, int)>, max: int) -> Seq<WriterSubmessage>
    decreases unsent.len(),
{
    if unsent.len() == 0 {
        seq![]
    } else {
        let sn = unsent.last();
        stateless_items(unsent.drop_last(), cs, max) + match find_len(cs, sn) {
            Some(len) => data_items(sn, len, max),
            None => seq![WriterSubmessage::Gap { gap_start: sn, gap_end: sn }],
        }
    }
}

/// Output of `send_message` for the first `ls.len()` locators, tagged with their index.
pub open spec fn stateless_output(ls: Seq<RtpsReaderLocator>, cs: Seq<(i64, int)>, max: int) -> Seq<SendItem>
    decreases ls.len(),
{
    if ls.len() == 0 {
        seq![]
    } else {
        stateless_output(ls.drop_last(), cs, max) + tag(
            (ls.len() - 1) as usize,
            stateless_items(ls.last().unsent_changes@, cs, max),
        )
    }
}

/// What `stateless_output` gives once `sn` is added to every locator's unsent changes.
pub open spec fn output_with_unsent(ls: Seq<RtpsReaderLocator>, sn: i64, cs: Seq<(i64, int)>, max: int) -> Seq<
    SendItem,
>
    decreases ls.len(),
{
    if ls.len() == 0 {
        seq![]
    } else {
        output_with_unsent(ls.drop_last(), sn, cs, max) + tag(
            (ls.len() - 1) as usize,
            stateless_items(ls.last().unsent_changes@.push(sn), cs, max),
        )
    }
}

pub proof fn lemma_output_with_unsent(ls: Seq<RtpsReaderLocator>, ls2: Seq<RtpsReaderLocator>, sn: i64, cs: Seq<(i64, int)>, max: int)
    requires
        ls2.len() == ls.len(),
        forall|i: int| 0 <= i < ls.len() ==> (#[trigger] ls2[i]).unsent_changes@ == ls[i].unsent_changes@.push(sn),
    ensures
        stateless_output(ls2, cs, max) == output_with_unsent(ls, sn, cs, max),
    decreases ls.len(),
{
    if ls.len() > 0 {
        let n = ls.len() - 1;
        assert(ls2.drop_last().len() == ls.drop_last().len());
        assert forall|i: int| 0 <= i < ls.drop_last().len() implies (#[trigger] ls2.drop_last()[i]).unsent_changes@
            == ls.drop_last()[i].unsent_changes@.push(sn) by {
            assert(ls2.drop_last()[i] == ls2[i]);
            assert(ls.drop_last()[i] == ls[i]);
        }
        lemma_output_with_unsent(ls.drop_last(), ls2.drop_last(), sn, cs, max);
        assert(ls2[n].unsent_changes@ == ls[n].unsent_changes@.push(sn));
    }
}

/// A best-effort writer that sends every change to each of its locators.
pub struct RtpsStatelessWriter {
    guid: Guid,
    changes: Vec<CacheChange>,
    /// The largest sequence number given out so far.
    last_change_sequence_number: i64,
    reader_locators: Vec<RtpsReaderLocator>,
    data_max_size_serialized: usize,
}

impl RtpsStatelessWriter {
    pub closed spec fn spec_guid(&self) -> Guid {
        self.guid
    }

    pub closed spec fn change_summaries(&self) -> Seq<(i64, int)> {
        summaries(self.changes@)
    }

    pub closed spec fn locators(&self) -> Seq<RtpsReaderLocator> {
        self.reader_locators@
    }

    pub closed spec fn max_size(&self) -> int {
        self.data_max_size_serialized as int
    }

    /// The largest sequence number given out so far.
    pub closed spec fn last_sn(&self) -> i64 {
        self.last_change_sequence_number
    }

    pub closed spec fn changes(&self) -> Seq<CacheChange> {
        self.changes@
    }

    pub closed spec fn wf(&self) -> bool {
        &&& self.data_max_size_serialized >= 1
        &&& fragments_fit(summaries(self.changes@), self.data_max_size_serialized as int)
    }

    pub fn new(guid: Guid, data_max_size_serialized: usize) -> (r: Self)
        requires
            data_max_size_serialized >= 1,
        ensures
            r.wf(),
            r.spec_guid() == guid,
            r.change_summaries().len() == 0,
            r.locators().len() == 0,
            r.max_size() == data_max_size_serialized,
            r.last_sn() == 0,
    {
        RtpsStatelessWriter {
            guid,
            changes: Vec::new(),
            last_change_sequence_number: 0,
            reader_locators: Vec::new(),
            data_max_size_serialized,
        }
    }

    /// Adds a change; every locator is yet to be sent it.
    pub fn add_change(&mut self, change: CacheChange)
        requires
            old(self).wf(),
            num_fragments(change.data_value@.len() as int, old(self).max_size()) <= u32::MAX,
        ensures
            final(self).wf(),
            final(self).change_summaries() == old(self).change_summaries().push(
                (change.sequence_number, change.data_value@.len() as int),
            ),
            final(self).changes() == old(self).changes().push(change),
            final(self).last_sn() == old(self).last_sn(),
            final(self).spec_guid() == old(self).spec_guid(),
            final(self).max_size() == old(self).max_size(),
            final(self).locators().len() == old(self).locators().len(),
            forall|i: int|
                0 <= i < old(self).locators().len() ==> {
                    let l = old(self).locators()[i];
                    let nl = #[trigger] final(self).locators()[i];
                    &&& nl.locator == l.locator
                    &&& nl.unsent_changes@ == l.unsent_changes@.push(change.sequence_number)
                },
    {
        let sn = change.sequence_number;
        let n = self.reader_locators.len();
        let mut i: usize = 0;
        while i < n
            invariant
                i <= n,
                n == old(self).reader_locators@.len(),
                self.reader_locators@.len() == n,
                self.changes@ == old(self).changes@,
                self.data_max_size_serialized == old(self).data_max_size_serialized,
                self.last_change_sequence_number == old(self).last_change_sequence_number,
                self.guid == old(self).guid,
                forall|k: int| i <= k < n ==> #[trigger] self.reader_locators@[k] == old(self).reader_locators@[k],
                forall|k: int|
                    0 <= k < i ==> {
                        let l = old(self).reader_locators@[k];
                        let nl = #[trigger] self.reader_locators@[k];
                        &&& nl.locator == l.locator
                        &&& nl.unsent_changes@ == l.unsent_changes@.push(sn)
                    },
            decreases n - i,
        {
            let ghost before = self.reader_locators@;
            self.reader_locators[i].unsent_changes.push(sn);
            proof {
                assert forall|k: int| 0 <= k < n && k != i implies #[trigger] self.reader_locators@[k] == before[k] by {}
            }
            i += 1;
        }
        let ghost c0 = summaries(self.changes@);
        self.changes.push(change);
        proof {
            let cs = summaries(self.changes@);
            assert(cs =~= c0.push((sn, self.changes@.last().data_value@.len() as int)));
            assert forall|k: int| 0 <= k < cs.len() implies num_fragments(#[trigger] cs[k].1, self.data_max_size_serialized as int) <= u32::MAX by {
                if k < c0.len() {
                    assert(cs[k] == c0[k]);
                }
            }
        }
    }

    pub fn last_sequence_number(&self) -> (r: i64)
        ensures
            r == self.last_sn(),
    {
        self.last_change_sequence_number
    }

    pub fn data_max_size_serialized(&self) -> (r: usize)
        ensures
            r == self.max_size(),
            self.wf() ==> r >= 1,
    {
        self.data_max_size_serialized
    }

    /// The submessage a send item stands for: the DATA, or DATA_FRAG, of the change it names,
    /// to any reader; `None` for a change no longer held, a GAP, or sizes past the wire's.
    pub fn build_submessage(&self, item: &SendItem) -> (r: Option<crate::codec::RtpsSubmessageKind>)
        ensures
            r matches Some(m) ==> crate::writer::built_submessage(
                &m,
                item.submessage,
                crate::types::EntityId { key0: 0, key1: 0, key2: 0, kind: 0 },
                self.spec_guid().entity_id,
                self.changes(),
                self.max_size(),
            ),
    {
        let reader_id = crate::types::entityid_unknown();
        let writer_id = self.guid.entity_id;
        match item.submessage {
            WriterSubmessage::Data { sequence_number } => match crate::writer::find_change_index(
                self.changes.as_slice(),
                sequence_number,
            ) {
                Some(k) => Some(
                    crate::codec::RtpsSubmessageKind::Data(crate::writer::build_data(&self.changes[k], reader_id, writer_id)),
                ),
                None => None,
            },
            WriterSubmessage::DataFrag { sequence_number, fragment_starting_num } => match crate::writer::find_change_index(
                self.changes.as_slice(),
                sequence_number,
            ) {
                Some(k) => match crate::writer::build_data_frag(
                    &self.changes[k],
                    reader_id,
                    writer_id,
                    fragment_starting_num,
                    self.data_max_size_serialized,
                ) {
                    Some(f) => Some(crate::codec::RtpsSubmessageKind::DataFrag(f)),
                    None => None,
                },
                None => None,
            },
            _ => None,
        }
    }

    /// Writes `data` as a new alive change of instance `handle`, numbered one past the last.
    pub fn write(&mut self, data: Vec<u8>, handle: crate::types::InstanceHandle)
        requires
            old(self).wf(),
            old(self).last_sn() < i64::MAX - 1,
            num_fragments(data@.len() as int, old(self).max_size()) <= u32::MAX,
        ensures
            final(self).wf(),
            final(self).last_sn() == old(self).last_sn() + 1,
            final(self).changes().drop_last() == old(self).changes(),
            final(self).changes().len() == old(self).changes().len() + 1,
            final(self).changes().last().sequence_number == old(self).last_sn() + 1,
            final(self).changes().last().data_value@ == data@,
            final(self).changes().last().kind == crate::types::ChangeKind::Alive,
            final(self).changes().last().instance_handle == handle,
            final(self).spec_guid() == old(self).spec_guid(),
            final(self).max_size() == old(self).max_size(),
            final(self).locators().len() == old(self).locators().len(),
            forall|i: int|
                0 <= i < old(self).locators().len() ==> {
                    let l = old(self).locators()[i];
                    let nl = #[trigger] final(self).locators()[i];
                    &&& nl.locator == l.locator
                    &&& nl.unsent_changes@ == l.unsent_changes@.push((old(self).last_sn() + 1) as i64)
                },
    {
        let sn = self.last_change_sequence_number + 1;
        let change = CacheChange {
            kind: crate::types::ChangeKind::Alive,
            writer_guid: self.guid,
            sequence_number: sn,
            instance_handle: handle,
            source_timestamp: None,
            data_value: data,
            inline_qos: crate::messages::ParameterListUdp::new(),
        };
        self.add_change(change);
        self.last_change_sequence_number = sn;
        assert(self.changes().drop_last() =~= old(self).changes());
    }

    /// Adds a locator, to be sent every change held.
    pub fn reader_locator_add(&mut self, locator: Locator, expects_inline_qos: bool)
        ensures
            final(self).wf() == old(self).wf(),
            final(self).change_summaries() == old(self).change_summaries(),
            final(self).changes() == old(self).changes(),
            final(self).last_sn() == old(self).last_sn(),
            final(self).spec_guid() == old(self).spec_guid(),
            final(self).max_size() == old(self).max_size(),
            final(self).locators().drop_last() == old(self).locators(),
            final(self).locators().len() == old(self).locators().len() + 1,
            final(self).locators().last().locator == locator,
            final(self).locators().last().unsent_changes@ == old(self).change_summaries().map_values(|c: (i64, int)| c.0),
    {
        let mut unsent: Vec<i64> = Vec::new();
        let mut i: usize = 0;
        let ghost cs = summaries(self.changes@);
        while i < self.changes.len()
            invariant
                i <= self.changes@.len(),
                cs == summaries(self.changes@),
                unsent@ == cs.subrange(0, i as int).map_values(|c: (i64, int)| c.0),
            decreases self.changes@.len() - i,
        {
            unsent.push(self.changes[i].sequence_number);
            i += 1;
            assert(unsent@ =~= cs.subrange(0, i as int).map_values(|c: (i64, int)| c.0));
        }
        assert(cs.subrange(0, i as int) =~= cs);
        self.reader_locators.push(RtpsReaderLocator { locator, expects_inline_qos, unsent_changes: unsent });
    }

    /// Sends every locator its unsent changes, which are then cleared.
    pub fn send_message(&mut self) -> (r: Vec<SendItem>)
        requires
            old(self).wf(),
        ensures
            final(self).wf(),
            r@ == stateless_output(old(self).locators(), old(self).change_summaries(), old(self).max_size()),
            final(self).change_summaries() == old(self).change_summaries(),
            final(self).changes() == old(self).changes(),
            final(self).last_sn() == old(self).last_sn(),
            final(self).spec_guid() == old(self).spec_guid(),
            final(self).max_size() == old(self).max_size(),
            final(self).locators().len() == old(self).locators().len(),
            forall|i: int|
                0 <= i < old(self).locators().len() ==> (#[trigger] final(self).locators()[i]).unsent_changes@.len() == 0
                    && final(self).locators()[i].locator == old(self).locators()[i].locator,
    {
        let mut out: Vec<SendItem> = Vec::new();
        let n = self.reader_locators.len();
        let ghost ls0 = self.reader_locators@;
        let ghost cs = summaries(self.changes@);
        let max = self.data_max_size_serialized;
        let mut i: usize = 0;
        while i < n
            invariant
                n == ls0.len(),
                i <= n,
                ls0 == old(self).reader_locators@,
                self.changes@ == old(self).changes@,
                self.last_change_sequence_number == old(self).last_change_sequence_number,
                self.guid == old(self).guid,
                cs == summaries(self.changes@),
                max == self.data_max_size_serialized,
                self.data_max_size_serialized == old(self).data_max_size_serialized,
                max >= 1,
                fragments_fit(cs, max as int),
                self.reader_locators@.len() == n,
                forall|k: int| i <= k < n ==> #[trigger] self.reader_locators@[k] == ls0[k],
                forall|k: int|
                    0 <= k < i ==> (#[trigger] self.reader_locators@[k]).unsent_changes@.len() == 0
                        && self.reader_locators@[k].locator == ls0[k].locator,
                out@ == stateless_output(ls0.subrange(0, i as int), cs, max as int),
            decreases n - i,
        {
            let ghost o0 = out@;
            let ghost unsent = ls0[i as int].unsent_changes@;
            let mut j: usize = 0;
            while j < self.reader_locators[i].unsent_changes.len()
                invariant
                    i < n,
                    n == ls0.len(),
                    self.reader_locators@.len() == n,
                    self.reader_locators@[i as int] == ls0[i as int],
                    unsent == ls0[i as int].unsent_changes@,
                    self.changes@ == old(self).changes@,
                    cs == summaries(self.changes@),
                    max >= 1,
                    fragments_fit(cs, max as int),
                    j <= unsent.len(),
                    out@ == o0 + tag(i, stateless_items(unsent.subrange(0, j as int), cs, max as int)),
                decreases unsent.len() - j,
            {
                let sn = self.reader_locators[i].unsent_changes[j];
                let ghost o1 = out@;
                let found = crate::writer::find_change_len(self.changes.as_slice(), sn);
                proof {
                    assert(unsent.subrange(0, j + 1).drop_last() =~= unsent.subrange(0, j as int));
                    assert(unsent.subrange(0, j + 1).last() == sn);
                    crate::writer::lemma_find_len_fits(cs, sn, max as int);
                }
                let ghost more = match find_len(cs, sn) {
                    Some(len) => data_items(sn, len, max as int),
                    None => seq![WriterSubmessage::Gap { gap_start: sn, gap_end: sn }],
                };
                match found {
                    Some(len) => {
                        crate::writer::push_data_items(&mut out, i, sn, len, max);
                    },
                    None => {
                        out.push(SendItem { reader: i, submessage: WriterSubmessage::Gap { gap_start: sn, gap_end: sn } });
                        assert(out@ =~= o1 + tag(i, more));
                    },
                }
                proof {
                    crate::writer::lemma_tag_add(i, stateless_items(unsent.subrange(0, j as int), cs, max as int), more);
                    assert(out@ =~= o0 + tag(i, stateless_items(unsent.subrange(0, j + 1), cs, max as int)));
                }
                j += 1;
            }
            proof {
                assert(unsent.subrange(0, j as int) =~= unsent);
                assert(ls0.subrange(0, i + 1).drop_last() =~= ls0.subrange(0, i as int));
                assert(ls0.subrange(0, i + 1).last() == ls0[i as int]);
            }
            let ghost before = self.reader_locators@;
            self.reader_locators[i].unsent_changes = Vec::new();
            proof {
                assert forall|k: int| 0 <= k < n && k != i implies #[trigger] self.reader_locators@[k] == before[k] by {}
            }
            i += 1;
        }
        assert(ls0.subrange(0, n as int) =~= ls0);
        out
    }
}

} // verus!
