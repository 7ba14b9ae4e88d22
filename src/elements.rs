use vstd::prelude::*;

verus! {

// ---------------------------------------------------------------------------
// Byte-level encoding of integers
// ---------------------------------------------------------------------------

/// Two bytes of `v`, least significant first.
pub open spec fn u16_le(v: u16) -> Seq<u8> {
    seq![(v % 256) as u8, (v / 256) as u8]
}

/// Four bytes of `v`, least significant first.
pub open spec fn u32_le(v: u32) -> Seq<u8> {
    seq![
        (v % 256) as u8,
        ((v / 256) % 256) as u8,
        ((v / 65536) % 256) as u8,
        (v / 16777216) as u8,
    ]
}

/// The unsigned integer held by two bytes at `i`, in the given byte order.
pub open spec fn u16_at(b: Seq<u8>, i: int, le: bool) -> u16 {
    if le {
        (b[i] as int + 256 * b[i + 1] as int) as u16
    } else {
        (b[i + 1] as int + 256 * b[i] as int) as u16
    }
}

/// The unsigned integer held by four bytes at `i`, in the given byte order.
pub open spec fn u32_at(b: Seq<u8>, i: int, le: bool) -> u32 {
    if le {
        (b[i] as int + 256 * b[i + 1] as int + 65536 * b[i + 2] as int + 16777216 * b[i
            + 3] as int) as u32
    } else {
        (b[i + 3] as int + 256 * b[i + 2] as int + 65536 * b[i + 1] as int + 16777216 * b[i
            + 0] as int) as u32
    }
}

/// A signed 32-bit integer travels as its two's complement bits.
pub open spec fn i32_bits(v: i32) -> u32 {
    if v >= 0 {
        v as u32
    } else {
        (v + 4294967296) as u32
    }
}

pub open spec fn i32_of_bits(v: u32) -> i32 {
    if v < 2147483648 {
        v as i32
    } else {
        (v - 4294967296) as i32
    }
}

pub proof fn lemma_u16_le(b: Seq<u8>, i: int, v: u16)
    requires
        0 <= i,
        i + 2 <= b.len(),
        b.subrange(i, i + 2) == u16_le(v),
    ensures
        u16_at(b, i, true) == v,
{
    assert(b[i] == b.subrange(i, i + 2)[0]);
    assert(b[i + 1] == b.subrange(i, i + 2)[1]);
}

pub proof fn lemma_u32_le(b: Seq<u8>, i: int, v: u32)
    requires
        0 <= i,
        i + 4 <= b.len(),
        b.subrange(i, i + 4) == u32_le(v),
    ensures
        u32_at(b, i, true) == v,
{
    assert(b[i] == b.subrange(i, i + 4)[0]);
    assert(b[i + 1] == b.subrange(i, i + 4)[1]);
    assert(b[i + 2] == b.subrange(i, i + 4)[2]);
    assert(b[i + 3] == b.subrange(i, i + 4)[3]);
}

pub proof fn lemma_i32_bits(v: i32)
    ensures
        i32_of_bits(i32_bits(v)) == v,
{
}

pub fn push_u16_le(buf: &mut Vec<u8>, v: u16)
    ensures
        final(buf)@ == old(buf)@ + u16_le(v),
{
    buf.push((v % 256) as u8);
    buf.push((v / 256) as u8);
    assert(final(buf)@ =~= old(buf)@ + u16_le(v));
}

pub fn push_u32_le(buf: &mut Vec<u8>, v: u32)
    ensures
        final(buf)@ == old(buf)@ + u32_le(v),
{
    buf.push((v % 256) as u8);
    buf.push(((v / 256) % 256) as u8);
    buf.push(((v / 65536) % 256) as u8);
    buf.push((v / 16777216) as u8);
    assert(final(buf)@ =~= old(buf)@ + u32_le(v));
}

pub fn to_bits(v: i32) -> (r: u32)
    ensures
        r == i32_bits(v),
{
    if v >= 0 {
        v as u32
    } else {
        (v as i64 + 4294967296) as u32
    }
}

pub fn of_bits(v: u32) -> (r: i32)
    ensures
        r == i32_of_bits(v),
{
    if v < 2147483648 {
        v as i32
    } else {
        (v as i64 - 4294967296) as i32
    }
}

pub fn read_u16(b: &[u8], i: usize, le: bool) -> (r: u16)
    requires
        i + 2 <= b@.len(),
    ensures
        r == u16_at(b@, i as int, le),
{
    let x0 = b[i] as u32;
    let x1 = b[i + 1] as u32;
    if le {
        (x0 + 256 * x1) as u16
    } else {
        (x1 + 256 * x0) as u16
    }
}

pub fn read_u32(b: &[u8], i: usize, le: bool) -> (r: u32)
    requires
        i + 4 <= b@.len(),
    ensures
        r == u32_at(b@, i as int, le),
{
    let x0 = b[i] as u64;
    let x1 = b[i + 1] as u64;
    let x2 = b[i + 2] as u64;
    let x3 = b[i + 3] as u64;
    if le {
        (x0 + 256 * x1 + 65536 * x2 + 16777216 * x3) as u32
    } else {
        (x3 + 256 * x2 + 65536 * x1 + 16777216 * x0) as u32
    }
}

// ---------------------------------------------------------------------------
// Octet of submessage flags
// ---------------------------------------------------------------------------

/// Whether bit `i` of `v` is set.
pub open spec fn octet_bit(v: u8, i: u8) -> bool {
    (v >> i) & 1u8 == 1u8
}

/// One octet, used for the flags of a submessage header.
#[derive(Clone, Copy, Debug, PartialEq, Eq, Structural)]
pub struct Octet(pub u8);

proof fn lemma_set_bit(acc: u8, i: u8, j: u8)
    requires
        i < 8,
        j < 8,
    ensures
        octet_bit(acc | (1u8 << i), j) == (j == i || octet_bit(acc, j)),
{
    assert(((acc | (1u8 << i)) >> j) & 1u8 == 1u8 <==> (j == i || (acc >> j) & 1u8 == 1u8))
        by (bit_vector)
        requires
            i < 8,
            j < 8,
    ;
}

impl Octet {
    /// Whether flag number `index` (bit 0 being the least significant) is set.
    pub fn is_bit_set(&self, index: usize) -> (r: bool)
        requires
            index < 8,
        ensures
            r == octet_bit(self.0, index as u8),
    {
        let i = index as u8;
        let v = self.0;
        assert((v & (1u8 << i) != 0u8) == ((v >> i) & 1u8 == 1u8)) by (bit_vector)
            requires
                i < 8,
        ;
        v & (1u8 << i) != 0
    }

    /// Packs up to eight flags into one octet, the first flag in bit 0.
    pub fn from_flags(flags: &[bool]) -> (r: Octet)
        requires
            flags@.len() <= 8,
        ensures
            forall|j: u8| #![trigger octet_bit(r.0, j)]
                j < 8 ==> (octet_bit(r.0, j) == ((j as int) < flags@.len() && flags@[j as int])),
    {
        let weights: [u8; 8] = [1, 2, 4, 8, 16, 32, 64, 128];
        proof {
            assert(1u8 << 0u8 == 1u8) by (bit_vector);
            assert(1u8 << 1u8 == 2u8) by (bit_vector);
            assert(1u8 << 2u8 == 4u8) by (bit_vector);
            assert(1u8 << 3u8 == 8u8) by (bit_vector);
            assert(1u8 << 4u8 == 16u8) by (bit_vector);
            assert(1u8 << 5u8 == 32u8) by (bit_vector);
            assert(1u8 << 6u8 == 64u8) by (bit_vector);
            assert(1u8 << 7u8 == 128u8) by (bit_vector);
        }
        let mut acc: u8 = 0;
        let mut i: usize = 0;
        proof {
            assert forall|j: u8| #![trigger octet_bit(0u8, j)] j < 8 implies !octet_bit(0u8, j) by {
                assert((0u8 >> j) & 1u8 == 0u8) by (bit_vector);
            }
        }
        while i < flags.len()
            invariant
                flags@.len() <= 8,
                i <= flags@.len(),
                weights@ == seq![1u8, 2u8, 4u8, 8u8, 16u8, 32u8, 64u8, 128u8],
                forall|k: u8| k < 8 ==> #[trigger] weights@[k as int] == (1u8 << k),
                forall|j: u8| #![trigger octet_bit(acc, j)]
                    j < 8 ==> (octet_bit(acc, j) == ((j as int) < i && flags@[j as int])),
            decreases flags@.len() - i,
        {
            let ghost old_acc = acc;
            if flags[i] {
                assert(weights@[i as int] == (1u8 << (i as u8)));
                acc = acc | weights[i];
            }
            proof {
                assert forall|j: u8| #![trigger octet_bit(acc, j)] j < 8 implies (octet_bit(
                    acc,
                    j,
                ) == ((j as int) < i + 1 && flags@[j as int])) by {
                    assert(octet_bit(old_acc, j) == ((j as int) < i && flags@[j as int]));
                    if flags@[i as int] {
                        lemma_set_bit(old_acc, i as u8, j);
                    }
                }
            }
            i += 1;
        }
        Octet(acc)
    }
}

// ---------------------------------------------------------------------------
// Fixed-size elements
// ---------------------------------------------------------------------------

#[derive(Clone, Copy, Debug, PartialEq, Eq, Structural)]
pub struct UShortUdp(pub u16);

#[derive(Clone, Copy, Debug, PartialEq, Eq, Structural)]
pub struct LongUdp(pub i32);

#[derive(Clone, Copy, Debug, PartialEq, Eq, Structural)]
pub struct ULongUdp(pub u32);

#[derive(Clone, Copy, Debug, PartialEq, Eq)]
pub struct GuidPrefixUdp(pub [u8; 12]);

#[derive(Clone, Copy, Debug, PartialEq, Eq, Structural)]
pub struct ProtocolVersionUdp {
    pub major: u8,
    pub minor: u8,
}

#[derive(Clone, Copy, Debug, PartialEq, Eq, Structural)]
pub struct VendorIdUdp(pub u8, pub u8);

/// Timestamp: seconds and fraction of a second in units of 2^-32 s.
#[derive(Clone, Copy, Debug, PartialEq, Eq, Structural)]
pub struct TimeUdp {
    pub seconds: u32,
    pub fraction: u32,
}

#[derive(Clone, Copy, Debug, PartialEq, Eq, Structural)]
pub struct DurationUdp {
    pub seconds: i32,
    pub fraction: u32,
}

#[derive(Clone, Copy, Debug, PartialEq, Eq, Structural)]
pub struct CountUdp(pub i32);

#[derive(Clone, Copy, Debug, PartialEq, Eq, Structural)]
pub struct FragmentNumberUdp(pub u32);

// ---------------------------------------------------------------------------
// Sequence numbers
// ---------------------------------------------------------------------------

/// A sequence number as it travels: high signed half and low unsigned half.
#[derive(Clone, Copy, Debug, PartialEq, Eq, Structural)]
pub struct SequenceNumberUdp {
    pub high: i32,
    pub low: u32,
}

impl SequenceNumberUdp {
    pub open spec fn value(self) -> int {
        self.high as int * 4294967296 + self.low as int
    }

    pub fn new(v: &i64) -> (r: Self)
        requires
            *v >= 0,
        ensures
            r.value() == *v,
    {
        let high = (*v / 4294967296) as i32;
        let low = (*v % 4294967296) as u32;
        SequenceNumberUdp { high, low }
    }

    pub fn get(&self) -> (r: i64)
        ensures
            r == self.value(),
    {
        self.high as i64 * 4294967296 + self.low as i64
    }
}

/// The eight bytes of a non-negative sequence number, little-endian halves.
pub open spec fn sn_le(v: i64) -> Seq<u8> {
    u32_le(i32_bits((v / 4294967296) as i32)) + u32_le((v % 4294967296) as u32)
}

/// The sequence number held by eight bytes at `i`.
pub open spec fn sn_at(b: Seq<u8>, i: int, le: bool) -> i64 {
    (i32_of_bits(u32_at(b, i, le)) as int * 4294967296 + u32_at(b, i + 4, le) as int) as i64
}

pub fn push_sn_le(buf: &mut Vec<u8>, v: i64)
    requires
        v >= 0,
    ensures
        final(buf)@ == old(buf)@ + sn_le(v),
{
    let ghost b0 = buf@;
    push_u32_le(buf, to_bits((v / 4294967296) as i32));
    push_u32_le(buf, (v % 4294967296) as u32);
    assert(buf@ =~= b0 + sn_le(v));
}

pub fn read_sn(b: &[u8], i: usize, le: bool) -> (r: i64)
    requires
        i + 8 <= b@.len(),
    ensures
        r == sn_at(b@, i as int, le),
{
    let n = b.len();
    let high = of_bits(read_u32(b, i, le));
    let low = read_u32(b, i + 4, le);
    high as i64 * 4294967296 + low as i64
}

pub proof fn lemma_sn_le(b: Seq<u8>, i: int, v: i64)
    requires
        v >= 0,
        0 <= i,
        i + 8 <= b.len(),
        b.subrange(i, i + 8) == sn_le(v),
    ensures
        sn_at(b, i, true) == v,
{
    assert(b.subrange(i, i + 4) =~= b.subrange(i, i + 8).subrange(0, 4));
    assert(b.subrange(i + 4, i + 8) =~= b.subrange(i, i + 8).subrange(4, 8));
    assert(sn_le(v).subrange(0, 4) =~= u32_le(i32_bits((v / 4294967296) as i32)));
    assert(sn_le(v).subrange(4, 8) =~= u32_le((v % 4294967296) as u32));
    lemma_u32_le(b, i, i32_bits((v / 4294967296) as i32));
    lemma_u32_le(b, i + 4, (v % 4294967296) as u32);
    lemma_i32_bits((v / 4294967296) as i32);
}

// ---------------------------------------------------------------------------
// SequenceNumberSet
// ---------------------------------------------------------------------------

/// Whether bit `k` (0 = least significant) of a bitmap word is set.
pub open spec fn word_bit(w: u32, k: u32) -> bool {
    (w >> k) & 1u32 == 1u32
}

proof fn lemma_word_set_bit(w: u32, k: u32, j: u32)
    requires
        k < 32,
        j < 32,
    ensures
        word_bit(w | (1u32 << k), j) == (j == k || word_bit(w, j)),
{
    assert(((w | (1u32 << k)) >> j) & 1u32 == 1u32 <==> (j == k || (w >> j) & 1u32 == 1u32))
        by (bit_vector)
        requires
            k < 32,
            j < 32,
    ;
}

proof fn lemma_zero_word(j: u32)
    requires
        j < 32,
    ensures
        !word_bit(0u32, j),
{
    assert((0u32 >> j) & 1u32 == 0u32) by (bit_vector);
}

/// A base sequence number and a bitmap of up to 256 bits; bit `d` stands for
/// `base + d`, carried by word `d / 32` at position `31 - d % 32`.
#[derive(Clone, Copy, Debug, PartialEq, Eq)]
pub struct SequenceNumberSetUdp {
    pub base: SequenceNumberUdp,
    pub num_bits: ULongUdp,
    pub bitmap: [u32; 8],
}

/// The number of bits a set over `s` needs from `b`: zero, or the largest delta plus one.
pub open spec fn num_bits_of(s: Seq<i64>, b: int) -> int
    decreases s.len(),
{
    if s.len() == 0 {
        0
    } else {
        let rest = num_bits_of(s.drop_last(), b);
        let top = s.last() - b + 1;
        if top > rest {
            top
        } else {
            rest
        }
    }
}

/// Whether `v` is strictly increasing.
pub open spec fn strictly_increasing(v: Seq<int>) -> bool {
    forall|i: int, j: int| 0 <= i < j < v.len() ==> v[i] < v[j]
}

impl SequenceNumberSetUdp {
    /// Whether delta `d` from the base is marked.
    pub open spec fn has_delta(self, d: int) -> bool {
        0 <= d < self.num_bits.0 && d < 256 && word_bit(
            self.bitmap@[d / 32],
            (31 - d % 32) as u32,
        )
    }

    pub open spec fn contains(self, n: int) -> bool {
        self.has_delta(n - self.base.value())
    }

    /// The members among the first `upto` deltas, in ascending order.
    pub open spec fn members_upto(self, upto: int) -> Seq<int>
        decreases upto,
    {
        if upto <= 0 {
            seq![]
        } else if self.has_delta(upto - 1) {
            self.members_upto(upto - 1).push(self.base.value() + upto - 1)
        } else {
            self.members_upto(upto - 1)
        }
    }

    /// All members in ascending order.
    pub open spec fn members(self) -> Seq<int> {
        self.members_upto(self.num_bits.0 as int)
    }

    /// Number of bitmap words on the wire.
    pub open spec fn num_words(self) -> int {
        (self.num_bits.0 as int + 31) / 32
    }

    /// At most 256 bits, and no bit set at or past `num_bits`.
    pub open spec fn wf(self) -> bool {
        &&& self.num_bits.0 <= 256
        &&& forall|k: int| 0 <= k < 8 && k * 32 >= self.num_bits.0 ==> self.bitmap@[k] == 0
    }

    pub proof fn lemma_members_upto(self, upto: int)
        requires
            0 <= upto,
        ensures
            strictly_increasing(self.members_upto(upto)),
            forall|n: int|
                self.members_upto(upto).contains(n) <==> (0 <= n - self.base.value() < upto
                    && self.has_delta(n - self.base.value())),
            forall|i: int|
                0 <= i < self.members_upto(upto).len() ==> self.base.value() <= #[trigger] self.members_upto(upto)[i]
                    < self.base.value() + upto,
        decreases upto,
    {
        if upto > 0 {
            self.lemma_members_upto(upto - 1);
            let prev = self.members_upto(upto - 1);
            if self.has_delta(upto - 1) {
                let cur = prev.push(self.base.value() + upto - 1);
                assert forall|n: int| cur.contains(n) <==> (0 <= n - self.base.value() < upto
                    && self.has_delta(n - self.base.value())) by {
                    if n == self.base.value() + upto - 1 {
                        assert(cur[prev.len() as int] == n);
                    }
                    if cur.contains(n) && n != self.base.value() + upto - 1 {
                        let i = choose|i: int| 0 <= i < cur.len() && cur[i] == n;
                        assert(prev[i] == n);
                    }
                    if prev.contains(n) {
                        let i = choose|i: int| 0 <= i < prev.len() && prev[i] == n;
                        assert(cur[i] == n);
                    }
                }
            }
        }
    }

    pub fn base(&self) -> (r: i64)
        ensures
            r == self.base.value(),
    {
        self.base.get()
    }

    /// Builds the set of `set` relative to `base`.
    pub fn new(base: &i64, set: &[i64]) -> (r: Self)
        requires
            0 <= *base,
            *base + 256 <= i64::MAX,
            forall|i: int| 0 <= i < set@.len() ==> *base <= #[trigger] set@[i] < *base + 256,
        ensures
            r.wf(),
            r.base.value() == *base,
            r.num_bits.0 == num_bits_of(set@, *base as int),
            forall|n: i64| r.contains(n as int) == set@.contains(n),
            forall|d: int| #![trigger word_bit(r.bitmap@[d / 32], (31 - d % 32) as u32)]
                0 <= d < 256 ==> (word_bit(r.bitmap@[d / 32], (31 - d % 32) as u32) == set@.contains((*base + d) as i64)),
            forall|n: int| r.contains(n) ==> *base <= n < *base + 256,
            strictly_increasing(r.members()),
            forall|n: int| r.members().contains(n) == r.contains(n),
    {
        let mut bitmap: [u32; 8] = [0, 0, 0, 0, 0, 0, 0, 0];
        let mut num_bits: u32 = 0;
        let mut i: usize = 0;
        let b = *base;
        proof {
            assert forall|d: int| #![trigger word_bit(bitmap@[d / 32], (31 - d % 32) as u32)] 0 <= d < 256 implies (word_bit(bitmap@[d / 32], (31 - d % 32) as u32)
                == set@.subrange(0, 0).contains((b + d) as i64)) by {
                lemma_zero_word((31 - d % 32) as u32);
            }
        }
        while i < set.len()
            invariant
                0 <= b,
                b + 256 <= i64::MAX,
                i <= set@.len(),
                forall|i: int| 0 <= i < set@.len() ==> b <= #[trigger] set@[i] < b + 256,
                num_bits == num_bits_of(set@.subrange(0, i as int), b as int),
                num_bits <= 256,
                forall|k: int| 0 <= k < 8 && k * 32 >= num_bits ==> bitmap@[k] == 0,
                forall|d: int| #![trigger word_bit(bitmap@[d / 32], (31 - d % 32) as u32)]
                    0 <= d < 256 ==> (word_bit(bitmap@[d / 32], (31 - d % 32) as u32)
                        == set@.subrange(0, i as int).contains((b + d) as i64)),
            decreases set@.len() - i,
        {
            let ghost old_bitmap = bitmap;
            let ghost old_prefix = set@.subrange(0, i as int);
            let delta = (set[i] - b) as u32;
            let word = (delta / 32) as usize;
            let pos = 31 - delta % 32;
            bitmap[word] = bitmap[word] | (1u32 << pos);
            if delta + 1 > num_bits {
                num_bits = delta + 1;
            }
            proof {
                let prefix = set@.subrange(0, i as int + 1);
                assert(prefix.drop_last() =~= old_prefix);
                assert(prefix.last() == set@[i as int]);
                assert forall|d: int| #![trigger word_bit(bitmap@[d / 32], (31 - d % 32) as u32)] 0 <= d < 256 implies (word_bit(
                    bitmap@[d / 32],
                    (31 - d % 32) as u32,
                ) == prefix.contains((b + d) as i64)) by {
                    if d / 32 == word as int {
                        lemma_word_set_bit(old_bitmap@[d / 32], pos, (31 - d % 32) as u32);
                    }
                    if prefix.contains((b + d) as i64) {
                        let j = choose|j: int| 0 <= j < prefix.len() && prefix[j] == (b + d) as i64;
                        if j < i {
                            assert(old_prefix[j] == (b + d) as i64);
                        }
                    }
                    if old_prefix.contains((b + d) as i64) {
                        let j = choose|j: int| 0 <= j < old_prefix.len() && old_prefix[j] == (b + d) as i64;
                        assert(prefix[j] == (b + d) as i64);
                    }
                    if d == delta {
                        assert(prefix[i as int] == (b + d) as i64);
                    }
                }
            }
            i += 1;
        }
        let r = SequenceNumberSetUdp { base: SequenceNumberUdp::new(base), num_bits: ULongUdp(num_bits), bitmap };
        proof {
            assert(set@.subrange(0, set@.len() as int) =~= set@);
            r.lemma_members_upto(num_bits as int);
            assert forall|n: i64| r.contains(n as int) == set@.contains(n) by {
                let d = n - b;
                if set@.contains(n) {
                    let j = choose|j: int| 0 <= j < set@.len() && set@[j] == n;
                    lemma_num_bits_bound(set@, b as int, j);
                    assert(word_bit(bitmap@[d / 32], (31 - d % 32) as u32));
                }
                if r.contains(n as int) {
                    assert(0 <= d < 256);
                    assert(word_bit(bitmap@[d / 32], (31 - d % 32) as u32));
                }
            }
            assert forall|n: int| r.members().contains(n) == r.contains(n) by {
            }
        }
        r
    }

    /// The members in ascending order.
    pub fn set(&self) -> (r: Vec<i64>)
        requires
            self.wf(),
            self.base.value() + 256 <= i64::MAX,
            self.base.value() >= 0,
        ensures
            r@.len() == self.members().len(),
            forall|i: int| 0 <= i < r@.len() ==> r@[i] as int == #[trigger] self.members()[i],
    {
        let mut r: Vec<i64> = Vec::new();
        let b = self.base.get();
        let mut d: u32 = 0;
        while d < self.num_bits.0
            invariant
                self.wf(),
                b == self.base.value(),
                0 <= b,
                b + 256 <= i64::MAX,
                d <= self.num_bits.0,
                r@.len() == self.members_upto(d as int).len(),
                forall|i: int| 0 <= i < r@.len() ==> r@[i] as int == #[trigger] self.members_upto(d as int)[i],
            decreases self.num_bits.0 - d,
        {
            let word = self.bitmap[(d / 32) as usize];
            let pos = 31 - d % 32;
            let set_bit = word & (1u32 << pos) != 0;
            assert(set_bit == word_bit(word, pos)) by {
                assert((word & (1u32 << pos) != 0u32) == ((word >> pos) & 1u32 == 1u32)) by (bit_vector)
                    requires
                        pos < 32,
                ;
            }
            if set_bit {
                r.push(b + d as i64);
            }
            d += 1;
        }
        r
    }

    /// Serialized length: base, numBits and one word per 32 bits.
    pub fn len(&self) -> (r: u16)
        requires
            self.wf(),
        ensures
            r == 12 + 4 * self.num_words(),
    {
        let number_of_bitmap_elements = ((self.num_bits.0 + 31) / 32) as u16;
        12 + 4 * number_of_bitmap_elements
    }
}

proof fn lemma_num_bits_bound(s: Seq<i64>, b: int, j: int)
    requires
        0 <= j < s.len(),
    ensures
        s[j] - b + 1 <= num_bits_of(s, b),
        num_bits_of(s, b) >= 0,
    decreases s.len(),
{
    if j < s.len() - 1 {
        assert(s.drop_last()[j] == s[j]);
        lemma_num_bits_bound(s.drop_last(), b, j);
    }
    lemma_num_bits_nonneg(s.drop_last(), b);
}

proof fn lemma_num_bits_nonneg(s: Seq<i64>, b: int)
    ensures
        num_bits_of(s, b) >= 0,
    decreases s.len(),
{
    if s.len() > 0 {
        lemma_num_bits_nonneg(s.drop_last(), b);
    }
}

/// Serialized sequence number set: base, numBits, then the used bitmap words.
pub open spec fn words_le(bm: Seq<u32>, m: int) -> Seq<u8>
    decreases m,
{
    if m <= 0 {
        seq![]
    } else {
        words_le(bm, m - 1) + u32_le(bm[m - 1])
    }
}

pub open spec fn snu_le(x: SequenceNumberUdp) -> Seq<u8> {
    u32_le(i32_bits(x.high)) + u32_le(x.low)
}

pub open spec fn snset_le(s: SequenceNumberSetUdp) -> Seq<u8> {
    snu_le(s.base) + u32_le(s.num_bits.0) + words_le(s.bitmap@, s.num_words())
}

/// The sequence number set held at `i`: its base, numBits and eight words (zero past
/// the words present), and the position after it; `None` where the bytes are missing or
/// numBits exceeds 256.
pub open spec fn snset_at(b: Seq<u8>, i: int, le: bool) -> Option<
    (SequenceNumberUdp, u32, Seq<u32>, int),
> {
    if i < 0 || i + 12 > b.len() {
        None
    } else {
        let num_bits = u32_at(b, i + 8, le);
        let m = (num_bits as int + 31) / 32;
        if num_bits > 256 || i + 12 + 4 * m > b.len() {
            None
        } else {
            Some(
                (
                    SequenceNumberUdp {
                        high: i32_of_bits(u32_at(b, i, le)),
                        low: u32_at(b, i + 4, le),
                    },
                    num_bits,
                    Seq::new(
                        8,
                        |k: int|
                            if k < m {
                                u32_at(b, i + 12 + 4 * k, le)
                            } else {
                                0u32
                            },
                    ),
                    i + 12 + 4 * m,
                ),
            )
        }
    }
}

pub fn push_snset_le(buf: &mut Vec<u8>, s: &SequenceNumberSetUdp)
    requires
        s.wf(),
    ensures
        final(buf)@ == old(buf)@ + snset_le(*s),
{
    let ghost b0 = buf@;
    push_u32_le(buf, to_bits(s.base.high));
    push_u32_le(buf, s.base.low);
    push_u32_le(buf, s.num_bits.0);
    let m = ((s.num_bits.0 + 31) / 32) as usize;
    let mut k: usize = 0;
    while k < m
        invariant
            s.wf(),
            m == s.num_words(),
            m <= 8,
            k <= m,
            buf@ == b0 + snu_le(s.base) + u32_le(s.num_bits.0) + words_le(s.bitmap@, k as int),
        decreases m - k,
    {
        push_u32_le(buf, s.bitmap[k]);
        proof {
            assert(words_le(s.bitmap@, k + 1) == words_le(s.bitmap@, k as int) + u32_le(
                s.bitmap@[k as int],
            ));
        }
        k += 1;
        assert(buf@ =~= b0 + snu_le(s.base) + u32_le(s.num_bits.0) + words_le(s.bitmap@, k as int));
    }
    assert(buf@ =~= b0 + snset_le(*s));
}

pub fn read_snset(b: &[u8], i: usize, le: bool) -> (r: Option<(SequenceNumberSetUdp, usize)>)
    ensures
        match (r, snset_at(b@, i as int, le)) {
            (Some((x, e)), Some((base, nb, words, e2))) => x.base == base && x.num_bits.0 == nb
                && x.bitmap@ == words && e == e2,
            (None, None) => true,
            _ => false,
        },
{
    let n = b.len();
    if i > n || n - i < 12 {
        return None;
    }
    let num_bits = read_u32(b, i + 8, le);
    let m = ((num_bits as u64 + 31) / 32) as usize;
    if num_bits > 256 || n - i - 12 < 4 * m {
        return None;
    }
    let base = SequenceNumberUdp { high: of_bits(read_u32(b, i, le)), low: read_u32(b, i + 4, le) };
    let mut bitmap: [u32; 8] = [0, 0, 0, 0, 0, 0, 0, 0];
    let mut k: usize = 0;
    while k < m
        invariant
            m <= 8,
            k <= m,
            m == (num_bits as int + 31) / 32,
            i + 12 + 4 * m <= b@.len(),
            n == b@.len(),
            forall|j: int|
                0 <= j < 8 ==> #[trigger] bitmap@[j] == (if j < k {
                    u32_at(b@, i + 12 + 4 * j, le)
                } else {
                    0u32
                }),
        decreases m - k,
    {
        bitmap[k] = read_u32(b, i + 12 + 4 * k, le);
        k += 1;
    }
    let ghost words = snset_at(b@, i as int, le)->Some_0.2;
    assert(bitmap@ =~= words);
    Some((SequenceNumberSetUdp { base, num_bits: ULongUdp(num_bits), bitmap }, i + 12 + 4 * m))
}

} // verus!
