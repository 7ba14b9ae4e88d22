use vstd::prelude::*;

use crate::codec::{
    acknack_body_at, acknack_le, body_at, data_body_at, data_frag_body_at, data_le, fragset_at, fragset_le,
    fragset_wf, gap_body_at, gap_le, header_bytes, heartbeat_body_at, heartbeat_frag_body_at, heartbeat_frag_le,
    heartbeat_le, info_dst_body_at, info_dst_le, info_ts_body_at, info_ts_le, nack_frag_body_at, nack_frag_le,
    lemma_params_le_len, qos_part, set_view, submessage_le, submessages_at, submessages_le, views, writable, AckNackView, GapView, NackFragView, RtpsSubmessageKind, SubmessageView,
};
use crate::messages::{
    entity_at, flag, flags_octet, header_le, lemma_flags_octet, AckNackSubmessage, DataFrag,
    DataSubmessage, GapSubmessage, HeartbeatFragSubmessage, HeartbeatSubmessage, InfoDestinationSubmessage,
    InfoTimestampSubmessage, NackFragSubmessage, ACKNACK, DATA, DATA_FRAG, GAP, HEARTBEAT, HEARTBEAT_FRAG, INFO_DST,
    INFO_TS, NACK_FRAG, PAD,
};
use crate::codec::RtpsMessageHeader;
use crate::types::EntityId;
use crate::elements::{
    i32_bits, i32_of_bits, lemma_i32_bits, lemma_sn_le, lemma_u16_le, lemma_u32_le, sn_at, sn_le, snset_at,
    snset_le, snu_le, u16_at, u16_le, u32_at, u32_le, words_le, SequenceNumberSetUdp,
};
use crate::messages::{param_le, param_wf, params_at, params_body_le, params_le, FragmentNumberSetUdp, PID_SENTINEL};

verus! {

/// `b` holds `x` from position `i` on.
pub open spec fn holds(b: Seq<u8>, i: int, x: Seq<u8>) -> bool {
    0 <= i && i + x.len() <= b.len() && b.subrange(i, i + x.len()) == x
}

proof fn lemma_holds_split(b: Seq<u8>, i: int, x: Seq<u8>, y: Seq<u8>)
    requires
        holds(b, i, x + y),
    ensures
        holds(b, i, x),
        holds(b, i + x.len(), y),
{
    let whole = b.subrange(i, i + (x + y).len());
    assert(whole == x + y);
    assert(b.subrange(i, i + x.len()) =~= whole.subrange(0, x.len() as int));
    assert(whole.subrange(0, x.len() as int) =~= x);
    assert(b.subrange(i + x.len(), i + x.len() + y.len()) =~= whole.subrange(x.len() as int, (x + y).len() as int));
    assert(whole.subrange(x.len() as int, (x + y).len() as int) =~= y);
}

pub proof fn lemma_read_u16(b: Seq<u8>, i: int, v: u16)
    requires
        holds(b, i, u16_le(v)),
    ensures
        u16_at(b, i, true) == v,
{
    lemma_u16_le(b, i, v);
}

pub proof fn lemma_read_u32(b: Seq<u8>, i: int, v: u32)
    requires
        holds(b, i, u32_le(v)),
    ensures
        u32_at(b, i, true) == v,
{
    lemma_u32_le(b, i, v);
}

pub proof fn lemma_read_i32(b: Seq<u8>, i: int, v: i32)
    requires
        holds(b, i, u32_le(i32_bits(v))),
    ensures
        i32_of_bits(u32_at(b, i, true)) == v,
{
    lemma_u32_le(b, i, i32_bits(v));
    lemma_i32_bits(v);
}

pub proof fn lemma_read_sn(b: Seq<u8>, i: int, v: i64)
    requires
        v >= 0,
        holds(b, i, sn_le(v)),
    ensures
        sn_at(b, i, true) == v,
{
    lemma_sn_le(b, i, v);
}

proof fn lemma_words(bm: Seq<u32>, m: int, k: int)
    requires
        0 <= k < m,
    ensures
        words_le(bm, m).len() == 4 * m,
        words_le(bm, m).subrange(4 * k, 4 * k + 4) == u32_le(bm[k]),
    decreases m,
{
    lemma_words_len(bm, m - 1);
    if k < m - 1 {
        lemma_words(bm, m - 1, k);
        assert(words_le(bm, m).subrange(4 * k, 4 * k + 4) =~= words_le(bm, m - 1).subrange(4 * k, 4 * k + 4));
    } else {
        assert(words_le(bm, m).subrange(4 * k, 4 * k + 4) =~= u32_le(bm[m - 1]));
    }
}

proof fn lemma_words_len(bm: Seq<u32>, m: int)
    ensures
        m >= 0 ==> words_le(bm, m).len() == 4 * m,
    decreases m,
{
    if m > 0 {
        lemma_words_len(bm, m - 1);
    }
}

/// A written sequence number set reads back as itself.
pub proof fn lemma_snset_round_trip(b: Seq<u8>, i: int, s: SequenceNumberSetUdp)
    requires
        s.wf(),
        holds(b, i, snset_le(s)),
    ensures
        snset_le(s).len() == 12 + 4 * s.num_words(),
        snset_at(b, i, true) == Some((s.base, s.num_bits.0, s.bitmap@, i + 12 + 4 * s.num_words())),
{
    let m = s.num_words();
    lemma_words_len(s.bitmap@, m);
    let x = snset_le(s);
    lemma_holds_split(b, i, snu_le(s.base) + u32_le(s.num_bits.0), words_le(s.bitmap@, m));
    lemma_holds_split(b, i, snu_le(s.base), u32_le(s.num_bits.0));
    lemma_holds_split(b, i, u32_le(i32_bits(s.base.high)), u32_le(s.base.low));
    lemma_read_i32(b, i, s.base.high);
    lemma_read_u32(b, i + 4, s.base.low);
    lemma_read_u32(b, i + 8, s.num_bits.0);
    let words = Seq::new(8, |k: int| if k < m { u32_at(b, i + 12 + 4 * k, true) } else { 0u32 });
    assert forall|k: int| 0 <= k < 8 implies #[trigger] words[k] == s.bitmap@[k] by {
        if k < m {
            lemma_words(s.bitmap@, m, k);
            assert(b.subrange(i + 12 + 4 * k, i + 12 + 4 * k + 4) =~= words_le(s.bitmap@, m).subrange(4 * k, 4 * k + 4));
            lemma_read_u32(b, i + 12 + 4 * k, s.bitmap@[k]);
        } else {
            assert(k * 32 >= s.num_bits.0);
        }
    }
    assert(words =~= s.bitmap@);
}

/// A written fragment number set reads back as itself.
pub proof fn lemma_fragset_round_trip(b: Seq<u8>, i: int, f: FragmentNumberSetUdp)
    requires
        fragset_wf(f),
        forall|k: int| 0 <= k < 8 && k * 32 >= f.num_bits ==> f.bitmap@[k] == 0,
        holds(b, i, fragset_le(f)),
    ensures
        fragset_le(f).len() == 8 + 4 * ((f.num_bits as int + 31) / 32),
        fragset_at(b, i, true) == Some(((f.base, f.num_bits, f.bitmap@), i + 8 + 4 * ((f.num_bits as int + 31) / 32))),
{
    let m = (f.num_bits as int + 31) / 32;
    lemma_words_len(f.bitmap@, m);
    lemma_holds_split(b, i, u32_le(f.base) + u32_le(f.num_bits), words_le(f.bitmap@, m));
    lemma_holds_split(b, i, u32_le(f.base), u32_le(f.num_bits));
    lemma_read_u32(b, i, f.base);
    lemma_read_u32(b, i + 4, f.num_bits);
    let words = Seq::new(8, |k: int| if k < m { u32_at(b, i + 8 + 4 * k, true) } else { 0u32 });
    assert forall|k: int| 0 <= k < 8 implies #[trigger] words[k] == f.bitmap@[k] by {
        if k < m {
            lemma_words(f.bitmap@, m, k);
            assert(b.subrange(i + 8 + 4 * k, i + 8 + 4 * k + 4) =~= words_le(f.bitmap@, m).subrange(4 * k, 4 * k + 4));
            lemma_read_u32(b, i + 8 + 4 * k, f.bitmap@[k]);
        }
    }
    assert(words =~= f.bitmap@);
}

proof fn lemma_body_front(ps: Seq<(u16, Seq<u8>)>)
    requires
        ps.len() > 0,
    ensures
        params_body_le(ps) == param_le(ps[0]) + params_body_le(ps.drop_first()),
    decreases ps.len(),
{
    if ps.len() == 1 {
        assert(ps.drop_last().len() == 0);
        assert(ps.drop_first().len() == 0);
        assert(params_body_le(ps.drop_last()) == Seq::<u8>::empty());
        assert(params_body_le(ps.drop_first()) == Seq::<u8>::empty());
        assert(ps.last() == ps[0]);
        assert(params_body_le(ps) =~= param_le(ps[0]) + params_body_le(ps.drop_first()));
    } else {
        lemma_body_front(ps.drop_last());
        assert(ps.drop_last().drop_first() =~= ps.drop_first().drop_last());
        assert(ps.drop_first().last() == ps.last());
        assert(ps.drop_last()[0] == ps[0]);
        assert(params_body_le(ps) =~= param_le(ps[0]) + params_body_le(ps.drop_first()));
    }
}

/// A written parameter list reads back as itself.
pub proof fn lemma_params_round_trip(b: Seq<u8>, i: int, ps: Seq<(u16, Seq<u8>)>)
    requires
        forall|k: int| 0 <= k < ps.len() ==> param_wf(#[trigger] ps[k]),
        holds(b, i, params_le(ps)),
    ensures
        params_at(b, i, true) == Some((ps, i + params_le(ps).len())),
    decreases ps.len(),
{
    if ps.len() == 0 {
        assert(params_body_le(ps) == Seq::<u8>::empty());
        assert(params_le(ps) =~= u16_le(PID_SENTINEL) + u16_le(0));
        lemma_holds_split(b, i, u16_le(PID_SENTINEL), u16_le(0));
        lemma_read_u16(b, i, PID_SENTINEL);
    } else {
        let p = ps[0];
        let rest = ps.drop_first();
        lemma_body_front(ps);
        assert(params_le(ps) =~= param_le(p) + params_le(rest));
        lemma_holds_split(b, i, param_le(p), params_le(rest));
        lemma_holds_split(b, i, u16_le(p.0) + u16_le(p.1.len() as u16), p.1);
        lemma_holds_split(b, i, u16_le(p.0), u16_le(p.1.len() as u16));
        lemma_read_u16(b, i, p.0);
        lemma_read_u16(b, i + 2, p.1.len() as u16);
        assert(param_wf(p));
        assert forall|k: int| 0 <= k < rest.len() implies param_wf(#[trigger] rest[k]) by {
            assert(rest[k] == ps[k + 1]);
        }
        lemma_params_round_trip(b, i + 4 + p.1.len(), rest);
        assert(seq![p] + rest =~= ps);
    }
}

pub proof fn lemma_read_entity(b: Seq<u8>, j: int, e: EntityId)
    requires
        holds(b, j, e.octets()),
    ensures
        entity_at(b, j) == e,
{
    let x = b.subrange(j, j + 4);
    assert(b[j] == x[0] && b[j + 1] == x[1] && b[j + 2] == x[2] && b[j + 3] == x[3]);
}

pub proof fn lemma_read_header(b: Seq<u8>, i: int, id: u8, flags: u8, len: u16)
    requires
        holds(b, i, header_le(id, flags, len)),
    ensures
        b[i] == id,
        b[i + 1] == flags,
        u16_at(b, i + 2, true) == len,
{
    let x = b.subrange(i, i + 4);
    assert(b[i] == x[0] && b[i + 1] == x[1]);
    lemma_holds_split(b, i, seq![id, flags], u16_le(len));
    lemma_read_u16(b, i + 2, len);
}

/// What this library writes is read back: the header's first flag says little-endian,
/// its length is that of the body, and the body reads back as the submessage.
pub open spec fn reads_back(b: Seq<u8>, i: int, s: &RtpsSubmessageKind) -> bool {
    let x = submessage_le(s);
    &&& x.len() >= 4
    &&& holds(b, i, x)
    &&& flag(b[i + 1], 0)
    &&& u16_at(b, i + 2, true) == x.len() - 4
    &&& body_at(b, i + 4, i + x.len(), b[i], b[i + 1]) == Some(s@)
}

/// The submessage says little-endian, as this library writes.
pub open spec fn little_endian(s: &RtpsSubmessageKind) -> bool {
    match s {
        RtpsSubmessageKind::AckNack(a) => a.endianness_flag,
        RtpsSubmessageKind::Data(d) => d.endianness_flag,
        RtpsSubmessageKind::DataFrag(f) => f.endianness_flag,
        RtpsSubmessageKind::Gap(g) => g.endianness_flag,
        RtpsSubmessageKind::Heartbeat(h) => h.endianness_flag,
        RtpsSubmessageKind::HeartbeatFrag(h) => h.endianness_flag,
        RtpsSubmessageKind::InfoDestination(d) => d.endianness_flag,
        RtpsSubmessageKind::InfoTimestamp(t) => t.endianness_flag,
        RtpsSubmessageKind::NackFrag(n) => n.endianness_flag && forall|k: int|
            0 <= k < 8 && k * 32 >= n.fragment_number_state.num_bits ==> n.fragment_number_state.bitmap@[k] == 0,
        RtpsSubmessageKind::Pad => true,
    }
}

proof fn lemma_heartbeat(b: Seq<u8>, i: int, h: HeartbeatSubmessage)
    requires
        h.endianness_flag,
        h.first_sn >= 0,
        h.last_sn >= 0,
        holds(b, i, heartbeat_le(h)),
    ensures
        reads_back(b, i, &RtpsSubmessageKind::Heartbeat(h)),
{
    let f = flags_octet(true, h.final_flag, h.liveliness_flag, false, false);
    lemma_flags_octet(true, h.final_flag, h.liveliness_flag, false, false);
    let a = header_le(HEARTBEAT, f, 28);
    let x1 = a + h.reader_id.octets();
    let x2 = x1 + h.writer_id.octets();
    let x3 = x2 + sn_le(h.first_sn);
    let x4 = x3 + sn_le(h.last_sn);
    lemma_holds_split(b, i, x4, u32_le(i32_bits(h.count)));
    lemma_holds_split(b, i, x3, sn_le(h.last_sn));
    lemma_holds_split(b, i, x2, sn_le(h.first_sn));
    lemma_holds_split(b, i, x1, h.writer_id.octets());
    lemma_holds_split(b, i, a, h.reader_id.octets());
    lemma_read_header(b, i, HEARTBEAT, f, 28);
    lemma_read_entity(b, i + 4, h.reader_id);
    lemma_read_entity(b, i + 8, h.writer_id);
    lemma_read_sn(b, i + 12, h.first_sn);
    lemma_read_sn(b, i + 20, h.last_sn);
    lemma_read_i32(b, i + 28, h.count);
    reveal(body_at);
    assert(heartbeat_body_at(b, i + 4, i + 32, f) == Some(SubmessageView::Heartbeat(h)));
}

proof fn lemma_heartbeat_frag(b: Seq<u8>, i: int, h: HeartbeatFragSubmessage)
    requires
        h.endianness_flag,
        h.writer_sn >= 0,
        holds(b, i, heartbeat_frag_le(h)),
    ensures
        reads_back(b, i, &RtpsSubmessageKind::HeartbeatFrag(h)),
{
    let f = flags_octet(true, false, false, false, false);
    lemma_flags_octet(true, false, false, false, false);
    let a = header_le(HEARTBEAT_FRAG, f, 24);
    let x1 = a + h.reader_id.octets();
    let x2 = x1 + h.writer_id.octets();
    let x3 = x2 + sn_le(h.writer_sn);
    let x4 = x3 + u32_le(h.last_fragment_num);
    lemma_holds_split(b, i, x4, u32_le(i32_bits(h.count)));
    lemma_holds_split(b, i, x3, u32_le(h.last_fragment_num));
    lemma_holds_split(b, i, x2, sn_le(h.writer_sn));
    lemma_holds_split(b, i, x1, h.writer_id.octets());
    lemma_holds_split(b, i, a, h.reader_id.octets());
    lemma_read_header(b, i, HEARTBEAT_FRAG, f, 24);
    lemma_read_entity(b, i + 4, h.reader_id);
    lemma_read_entity(b, i + 8, h.writer_id);
    lemma_read_sn(b, i + 12, h.writer_sn);
    lemma_read_u32(b, i + 20, h.last_fragment_num);
    lemma_read_i32(b, i + 24, h.count);
    reveal(body_at);
    assert(heartbeat_frag_body_at(b, i + 4, i + 28, f) == Some(SubmessageView::HeartbeatFrag(h)));
}

proof fn lemma_info_dst(b: Seq<u8>, i: int, d: InfoDestinationSubmessage)
    requires
        d.endianness_flag,
        holds(b, i, info_dst_le(d)),
    ensures
        reads_back(b, i, &RtpsSubmessageKind::InfoDestination(d)),
{
    let f = flags_octet(true, false, false, false, false);
    lemma_flags_octet(true, false, false, false, false);
    lemma_holds_split(b, i, header_le(INFO_DST, f, 12), d.guid_prefix@);
    lemma_read_header(b, i, INFO_DST, f, 12);
    reveal(body_at);
    assert(info_dst_body_at(b, i + 4, i + 16, f) == Some(SubmessageView::InfoDestination(true, d.guid_prefix@)));
}

proof fn lemma_info_ts(b: Seq<u8>, i: int, t: InfoTimestampSubmessage)
    requires
        t.endianness_flag,
        holds(b, i, info_ts_le(t)),
    ensures
        reads_back(b, i, &RtpsSubmessageKind::InfoTimestamp(t)),
{
    reveal(body_at);
    match t.timestamp {
        None => {
            let f = flags_octet(true, true, false, false, false);
            lemma_flags_octet(true, true, false, false, false);
            lemma_read_header(b, i, INFO_TS, f, 0);
            assert(info_ts_body_at(b, i + 4, i + 4, f) == Some(SubmessageView::InfoTimestamp(t)));
        },
        Some(ts) => {
            let f = flags_octet(true, false, false, false, false);
            lemma_flags_octet(true, false, false, false, false);
            let a = header_le(INFO_TS, f, 8);
            lemma_holds_split(b, i, a + u32_le(ts.seconds), u32_le(ts.fraction));
            lemma_holds_split(b, i, a, u32_le(ts.seconds));
            lemma_read_header(b, i, INFO_TS, f, 8);
            lemma_read_u32(b, i + 4, ts.seconds);
            lemma_read_u32(b, i + 8, ts.fraction);
            assert(info_ts_body_at(b, i + 4, i + 12, f) == Some(SubmessageView::InfoTimestamp(t)));
        },
    }
}

proof fn lemma_acknack(b: Seq<u8>, i: int, a: AckNackSubmessage)
    requires
        a.endianness_flag,
        a.reader_sn_state.wf(),
        holds(b, i, acknack_le(a)),
    ensures
        reads_back(b, i, &RtpsSubmessageKind::AckNack(a)),
{
    let f = flags_octet(true, a.final_flag, false, false, false);
    lemma_flags_octet(true, a.final_flag, false, false, false);
    let body = a.reader_id.octets() + a.writer_id.octets() + snset_le(a.reader_sn_state) + u32_le(i32_bits(a.count));
    let m = a.reader_sn_state.num_words();
    lemma_words_len(a.reader_sn_state.bitmap@, m);
    let h = header_le(ACKNACK, f, body.len() as u16);
    let x1 = h + a.reader_id.octets();
    let x2 = x1 + a.writer_id.octets();
    let x3 = x2 + snset_le(a.reader_sn_state);
    assert(acknack_le(a) =~= x3 + u32_le(i32_bits(a.count)));
    lemma_holds_split(b, i, x3, u32_le(i32_bits(a.count)));
    lemma_holds_split(b, i, x2, snset_le(a.reader_sn_state));
    lemma_holds_split(b, i, x1, a.writer_id.octets());
    lemma_holds_split(b, i, h, a.reader_id.octets());
    lemma_read_header(b, i, ACKNACK, f, body.len() as u16);
    lemma_read_entity(b, i + 4, a.reader_id);
    lemma_read_entity(b, i + 8, a.writer_id);
    lemma_snset_round_trip(b, i + 12, a.reader_sn_state);
    lemma_read_i32(b, i + 24 + 4 * m, a.count);
    reveal(body_at);
    let v = SubmessageView::AckNack(
        AckNackView {
            endianness_flag: true,
            final_flag: a.final_flag,
            reader_id: a.reader_id,
            writer_id: a.writer_id,
            reader_sn_state: set_view(a.reader_sn_state),
            count: a.count,
        },
    );
    assert(acknack_body_at(b, i + 4, i + 4 + body.len(), f) == Some(v));
}

proof fn lemma_gap(b: Seq<u8>, i: int, g: GapSubmessage)
    requires
        g.endianness_flag,
        g.gap_start >= 0,
        g.gap_list.wf(),
        holds(b, i, gap_le(g)),
    ensures
        reads_back(b, i, &RtpsSubmessageKind::Gap(g)),
{
    let f = flags_octet(true, false, false, false, false);
    lemma_flags_octet(true, false, false, false, false);
    let body = g.reader_id.octets() + g.writer_id.octets() + sn_le(g.gap_start) + snset_le(g.gap_list);
    let m = g.gap_list.num_words();
    lemma_words_len(g.gap_list.bitmap@, m);
    let h = header_le(GAP, f, body.len() as u16);
    let x1 = h + g.reader_id.octets();
    let x2 = x1 + g.writer_id.octets();
    let x3 = x2 + sn_le(g.gap_start);
    assert(gap_le(g) =~= x3 + snset_le(g.gap_list));
    lemma_holds_split(b, i, x3, snset_le(g.gap_list));
    lemma_holds_split(b, i, x2, sn_le(g.gap_start));
    lemma_holds_split(b, i, x1, g.writer_id.octets());
    lemma_holds_split(b, i, h, g.reader_id.octets());
    lemma_read_header(b, i, GAP, f, body.len() as u16);
    lemma_read_entity(b, i + 4, g.reader_id);
    lemma_read_entity(b, i + 8, g.writer_id);
    lemma_read_sn(b, i + 12, g.gap_start);
    lemma_snset_round_trip(b, i + 20, g.gap_list);
    reveal(body_at);
    let v = SubmessageView::Gap(
        GapView {
            endianness_flag: true,
            reader_id: g.reader_id,
            writer_id: g.writer_id,
            gap_start: g.gap_start,
            gap_list: set_view(g.gap_list),
        },
    );
    assert(gap_body_at(b, i + 4, i + 4 + body.len(), f) == Some(v));
}

proof fn lemma_nack_frag(b: Seq<u8>, i: int, n: NackFragSubmessage)
    requires
        n.endianness_flag,
        n.writer_sn >= 0,
        fragset_wf(n.fragment_number_state),
        forall|k: int| 0 <= k < 8 && k * 32 >= n.fragment_number_state.num_bits ==> n.fragment_number_state.bitmap@[k] == 0,
        holds(b, i, nack_frag_le(n)),
    ensures
        reads_back(b, i, &RtpsSubmessageKind::NackFrag(n)),
{
    let f = flags_octet(true, false, false, false, false);
    lemma_flags_octet(true, false, false, false, false);
    let fs = n.fragment_number_state;
    let m = (fs.num_bits as int + 31) / 32;
    lemma_words_len(fs.bitmap@, m);
    let body = n.reader_id.octets() + n.writer_id.octets() + sn_le(n.writer_sn) + fragset_le(fs) + u32_le(i32_bits(n.count));
    let h = header_le(NACK_FRAG, f, body.len() as u16);
    let x1 = h + n.reader_id.octets();
    let x2 = x1 + n.writer_id.octets();
    let x3 = x2 + sn_le(n.writer_sn);
    let x4 = x3 + fragset_le(fs);
    assert(nack_frag_le(n) =~= x4 + u32_le(i32_bits(n.count)));
    lemma_holds_split(b, i, x4, u32_le(i32_bits(n.count)));
    lemma_holds_split(b, i, x3, fragset_le(fs));
    lemma_holds_split(b, i, x2, sn_le(n.writer_sn));
    lemma_holds_split(b, i, x1, n.writer_id.octets());
    lemma_holds_split(b, i, h, n.reader_id.octets());
    lemma_read_header(b, i, NACK_FRAG, f, body.len() as u16);
    lemma_read_entity(b, i + 4, n.reader_id);
    lemma_read_entity(b, i + 8, n.writer_id);
    lemma_read_sn(b, i + 12, n.writer_sn);
    lemma_fragset_round_trip(b, i + 20, fs);
    lemma_read_i32(b, i + 28 + 4 * m, n.count);
    reveal(body_at);
    let v = SubmessageView::NackFrag(
        NackFragView {
            endianness_flag: true,
            reader_id: n.reader_id,
            writer_id: n.writer_id,
            writer_sn: n.writer_sn,
            fragment_number_state: (fs.base, fs.num_bits, fs.bitmap@),
            count: n.count,
        },
    );
    assert(nack_frag_body_at(b, i + 4, i + 4 + body.len(), f) == Some(v));
}

proof fn lemma_qos_part(b: Seq<u8>, j: int, q: bool, ps: Seq<(u16, Seq<u8>)>)
    requires
        forall|k: int| 0 <= k < ps.len() ==> param_wf(#[trigger] ps[k]),
        !q ==> ps.len() == 0,
        holds(b, j, qos_part(q, ps)),
    ensures
        (if q {
            params_at(b, j, true)
        } else {
            Some((seq![], j))
        }) == Some((ps, j + qos_part(q, ps).len())),
{
    if q {
        lemma_params_round_trip(b, j, ps);
    } else {
        assert(ps =~= seq![]);
    }
}

proof fn lemma_data(b: Seq<u8>, i: int, d: DataSubmessage)
    requires
        d.endianness_flag,
        writable(&RtpsSubmessageKind::Data(d)),
        holds(b, i, data_le(d@)),
    ensures
        reads_back(b, i, &RtpsSubmessageKind::Data(d)),
{
    let v = d@;
    let f = flags_octet(true, v.inline_qos_flag, v.data_flag, v.key_flag, v.non_standard_payload_flag);
    lemma_flags_octet(true, v.inline_qos_flag, v.data_flag, v.key_flag, v.non_standard_payload_flag);
    assert forall|k: int| 0 <= k < v.inline_qos.len() implies param_wf(#[trigger] v.inline_qos[k]) by {
        assert(d.inline_qos.parameter@[k].wf());
    }
    lemma_params_le_len(v.inline_qos);
    let qp = qos_part(v.inline_qos_flag, v.inline_qos);
    let body = u16_le(0) + u16_le(16) + v.reader_id.octets() + v.writer_id.octets() + sn_le(v.writer_sn) + qp
        + v.serialized_payload;
    let h = header_le(DATA, f, body.len() as u16);
    let x1 = h + u16_le(0);
    let x2 = x1 + u16_le(16);
    let x3 = x2 + v.reader_id.octets();
    let x4 = x3 + v.writer_id.octets();
    let x5 = x4 + sn_le(v.writer_sn);
    let x6 = x5 + qp;
    assert(data_le(v) =~= x6 + v.serialized_payload);
    lemma_holds_split(b, i, x6, v.serialized_payload);
    lemma_holds_split(b, i, x5, qp);
    lemma_holds_split(b, i, x4, sn_le(v.writer_sn));
    lemma_holds_split(b, i, x3, v.writer_id.octets());
    lemma_holds_split(b, i, x2, v.reader_id.octets());
    lemma_holds_split(b, i, x1, u16_le(16));
    lemma_holds_split(b, i, h, u16_le(0));
    lemma_read_header(b, i, DATA, f, body.len() as u16);
    lemma_read_u16(b, i + 6, 16);
    lemma_read_entity(b, i + 8, v.reader_id);
    lemma_read_entity(b, i + 12, v.writer_id);
    lemma_read_sn(b, i + 16, v.writer_sn);
    lemma_qos_part(b, i + 24, v.inline_qos_flag, v.inline_qos);
    let ps_end = i + 24 + qp.len();
    let end = i + 4 + body.len();
    assert(b.subrange(ps_end, end) == v.serialized_payload);
    if !(v.data_flag || v.key_flag) {
        assert(v.serialized_payload =~= seq![]);
    }
    reveal(body_at);
    assert(data_body_at(b, i + 4, end, f) == Some(SubmessageView::Data(v)));
}

proof fn lemma_data_frag(b: Seq<u8>, i: int, fr: DataFrag)
    requires
        fr.endianness_flag,
        fr.can_compose(),
        holds(b, i, fr@.to_le()),
    ensures
        reads_back(b, i, &RtpsSubmessageKind::DataFrag(fr)),
{
    let v = fr@;
    let f = v.flags();
    lemma_flags_octet(true, v.inline_qos_flag, v.key_flag, v.non_standard_payload_flag, false);
    assert forall|k: int| 0 <= k < v.inline_qos.len() implies param_wf(#[trigger] v.inline_qos[k]) by {
        assert(fr.inline_qos.parameter@[k].wf());
    }
    lemma_params_le_len(v.inline_qos);
    let qp = qos_part(v.inline_qos_flag, v.inline_qos);
    let h = header_le(DATA_FRAG, f, v.body_len() as u16);
    let x1 = h + u16_le(0);
    let x2 = x1 + u16_le(28);
    let x3 = x2 + v.reader_id.octets();
    let x4 = x3 + v.writer_id.octets();
    let x5 = x4 + sn_le(v.writer_sn);
    let x6 = x5 + u32_le(v.fragment_starting_num);
    let x7 = x6 + u16_le(v.fragments_in_submessage);
    let x8 = x7 + u16_le(v.fragment_size);
    let x9 = x8 + u32_le(v.data_size);
    let x10 = x9 + qp;
    assert(v.to_le() =~= x10 + v.serialized_payload);
    lemma_holds_split(b, i, x10, v.serialized_payload);
    lemma_holds_split(b, i, x9, qp);
    lemma_holds_split(b, i, x8, u32_le(v.data_size));
    lemma_holds_split(b, i, x7, u16_le(v.fragment_size));
    lemma_holds_split(b, i, x6, u16_le(v.fragments_in_submessage));
    lemma_holds_split(b, i, x5, u32_le(v.fragment_starting_num));
    lemma_holds_split(b, i, x4, sn_le(v.writer_sn));
    lemma_holds_split(b, i, x3, v.writer_id.octets());
    lemma_holds_split(b, i, x2, v.reader_id.octets());
    lemma_holds_split(b, i, x1, u16_le(28));
    lemma_holds_split(b, i, h, u16_le(0));
    lemma_read_header(b, i, DATA_FRAG, f, v.body_len() as u16);
    lemma_read_u16(b, i + 6, 28);
    lemma_read_entity(b, i + 8, v.reader_id);
    lemma_read_entity(b, i + 12, v.writer_id);
    lemma_read_sn(b, i + 16, v.writer_sn);
    lemma_read_u32(b, i + 24, v.fragment_starting_num);
    lemma_read_u16(b, i + 28, v.fragments_in_submessage);
    lemma_read_u16(b, i + 30, v.fragment_size);
    lemma_read_u32(b, i + 32, v.data_size);
    lemma_qos_part(b, i + 36, v.inline_qos_flag, v.inline_qos);
    let end = i + 4 + v.body_len();
    assert(b.subrange(i + 36 + qp.len(), end) == v.serialized_payload);
    reveal(body_at);
    assert(data_frag_body_at(b, i + 4, end, f) == Some(SubmessageView::DataFrag(v)));
}

/// Every submessage this library writes reads back as itself.
pub proof fn lemma_submessage_round_trip(b: Seq<u8>, i: int, s: RtpsSubmessageKind)
    requires
        writable(&s),
        little_endian(&s),
        holds(b, i, submessage_le(&s)),
    ensures
        reads_back(b, i, &s),
{
    match s {
        RtpsSubmessageKind::AckNack(a) => lemma_acknack(b, i, a),
        RtpsSubmessageKind::Data(d) => lemma_data(b, i, d),
        RtpsSubmessageKind::DataFrag(f) => lemma_data_frag(b, i, f),
        RtpsSubmessageKind::Gap(g) => lemma_gap(b, i, g),
        RtpsSubmessageKind::Heartbeat(h) => lemma_heartbeat(b, i, h),
        RtpsSubmessageKind::HeartbeatFrag(h) => lemma_heartbeat_frag(b, i, h),
        RtpsSubmessageKind::InfoDestination(d) => lemma_info_dst(b, i, d),
        RtpsSubmessageKind::InfoTimestamp(t) => lemma_info_ts(b, i, t),
        RtpsSubmessageKind::NackFrag(n) => lemma_nack_frag(b, i, n),
        RtpsSubmessageKind::Pad => {
            let f = flags_octet(true, false, false, false, false);
            lemma_flags_octet(true, false, false, false, false);
            lemma_read_header(b, i, PAD, f, 0);
            reveal(body_at);
        },
    }
}

proof fn lemma_le_concat(a: Seq<RtpsSubmessageKind>, c: Seq<RtpsSubmessageKind>)
    ensures
        submessages_le(a + c) == submessages_le(a) + submessages_le(c),
    decreases c.len(),
{
    if c.len() == 0 {
        assert(a + c =~= a);
        assert(submessages_le(c) =~= seq![]);
        assert(submessages_le(a) + submessages_le(c) =~= submessages_le(a));
    } else {
        lemma_le_concat(a, c.drop_last());
        assert((a + c).drop_last() =~= a + c.drop_last());
        assert((a + c).last() == c.last());
        assert(submessages_le(a + c) =~= submessages_le(a) + submessages_le(c));
    }
}

proof fn lemma_suffix(b: Seq<u8>, pos: int, c: Seq<RtpsSubmessageKind>)
    requires
        forall|k: int| 0 <= k < c.len() ==> writable(&#[trigger] c[k]) && little_endian(&c[k]),
        holds(b, pos, submessages_le(c)),
        pos + submessages_le(c).len() == b.len(),
    ensures
        submessages_at(b, pos) == views(c),
    decreases c.len(),
{
    if c.len() == 0 {
        assert(submessages_le(c) =~= seq![]);
        assert(views(c) =~= seq![]);
    } else {
        let rest = c.drop_first();
        lemma_le_concat(seq![c[0]], rest);
        assert(seq![c[0]] + rest =~= c);
        let one = seq![c[0]];
        assert(one.drop_last() =~= Seq::<RtpsSubmessageKind>::empty());
        assert(submessages_le(one.drop_last()) == Seq::<u8>::empty());
        assert(one.last() == c[0]);
        assert(submessages_le(one) =~= submessage_le(&c[0]));
        let x = submessage_le(&c[0]);
        lemma_holds_split(b, pos, x, submessages_le(rest));
        assert(writable(&c[0]) && little_endian(&c[0]));
        lemma_submessage_round_trip(b, pos, c[0]);
        assert forall|k: int| 0 <= k < rest.len() implies writable(&#[trigger] rest[k]) && little_endian(&rest[k]) by {
            assert(rest[k] == c[k + 1]);
        }
        lemma_suffix(b, pos + x.len(), rest);
        assert(views(c) =~= seq![c[0]@] + views(rest));
    }
}

/// Parsing what `write_message` writes gives back the header and every submessage.
pub proof fn lemma_message_round_trip(header: RtpsMessageHeader, ms: Seq<RtpsSubmessageKind>)
    requires
        forall|k: int| 0 <= k < ms.len() ==> writable(&#[trigger] ms[k]) && little_endian(&ms[k]),
    ensures
        crate::codec::header_at(header_bytes(header) + submessages_le(ms)) is Some,
        ({
            let h = crate::codec::header_at(header_bytes(header) + submessages_le(ms))->Some_0;
            h.version == header.version && h.vendor_id == header.vendor_id && h.guid_prefix@ == header.guid_prefix@
        }),
        submessages_at(header_bytes(header) + submessages_le(ms), 20) == views(ms),
{
    let hb = header_bytes(header);
    let b = hb + submessages_le(ms);
    assert(hb.len() == 20);
    assert(b.subrange(20, b.len() as int) =~= submessages_le(ms));
    lemma_suffix(b, 20, ms);
    assert(b.subrange(8, 20) =~= header.guid_prefix@);
    assert(exists|a: [u8; 12]| a@ == b.subrange(8, 20));
    assert(crate::codec::spec_prefix(b.subrange(8, 20))@ == b.subrange(8, 20));
}

/// A submessage of unknown id is skipped by exactly its declared length.
pub proof fn lemma_unknown_submessage_skipped(b: Seq<u8>, i: int)
    requires
        0 <= i,
        i + 4 <= b.len(),
        b[i] != DATA && b[i] != DATA_FRAG && b[i] != HEARTBEAT && b[i] != ACKNACK && b[i] != GAP && b[i]
            != HEARTBEAT_FRAG && b[i] != NACK_FRAG && b[i] != INFO_TS && b[i] != INFO_DST && b[i] != PAD,
        i + 4 + u16_at(b, i + 2, flag(b[i + 1], 0)) as int <= b.len(),
    ensures
        submessages_at(b, i) == submessages_at(b, i + 4 + u16_at(b, i + 2, flag(b[i + 1], 0)) as int),
{
    reveal(body_at);
}

} // verus!
