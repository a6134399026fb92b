//! Little-endian byte encoding of the values that travel between the simulation and the
//! visualizer: the reading and writing traits, a sequential reader and a fixed-size writer.
use vstd::prelude::*;

verus! {

/// The raw IEEE-754 bits of an `f32`; every float of the wire format travels as these four bytes,
/// so the library carries floats in this form and never computes with them.
#[derive(Clone, Copy, Debug, PartialEq, Eq, Structural)]
pub struct F32Bits(pub u32);

/// The two little-endian bytes of `x`.
pub open spec fn le_u16(x: u16) -> Seq<u8> {
    seq![x as u8, (x >> 8u16) as u8]
}

/// The four little-endian bytes of `x`.
pub open spec fn le_u32(x: u32) -> Seq<u8> {
    seq![x as u8, (x >> 8u32) as u8, (x >> 16u32) as u8, (x >> 24u32) as u8]
}

/// The eight little-endian bytes of `x`.
pub open spec fn le_u64(x: u64) -> Seq<u8> {
    seq![
        x as u8,
        (x >> 8u64) as u8,
        (x >> 16u64) as u8,
        (x >> 24u64) as u8,
        (x >> 32u64) as u8,
        (x >> 40u64) as u8,
        (x >> 48u64) as u8,
        (x >> 56u64) as u8,
    ]
}

/// The `u16` whose little-endian bytes are the first two of `s`.
pub open spec fn u16_from_le(s: Seq<u8>) -> u16 {
    (s[0] as u16) | ((s[1] as u16) << 8u16)
}

/// The `u32` whose little-endian bytes are the first four of `s`.
pub open spec fn u32_from_le(s: Seq<u8>) -> u32 {
    (s[0] as u32) | ((s[1] as u32) << 8u32) | ((s[2] as u32) << 16u32) | ((s[3] as u32) << 24u32)
}

/// The `u64` whose little-endian bytes are the first eight of `s`.
pub open spec fn u64_from_le(s: Seq<u8>) -> u64 {
    (s[0] as u64) | ((s[1] as u64) << 8u64) | ((s[2] as u64) << 16u64) | ((s[3] as u64) << 24u64)
        | ((s[4] as u64) << 32u64) | ((s[5] as u64) << 40u64) | ((s[6] as u64) << 48u64) | ((s[7]
        as u64) << 56u64)
}

/// Decoding the little-endian bytes of a `u16` gives it back.
pub proof fn lemma_le_u16_round_trip(x: u16)
    ensures
        le_u16(x).len() == 2,
        u16_from_le(le_u16(x)) == x,
{
    let b0 = x as u8;
    let b1 = (x >> 8u16) as u8;
    assert((b0 as u16) | ((b1 as u16) << 8u16) == x) by (bit_vector)
        requires
            b0 == x as u8,
            b1 == (x >> 8u16) as u8,
    ;
}

/// Decoding the little-endian bytes of a `u32` gives it back.
pub proof fn lemma_le_u32_round_trip(x: u32)
    ensures
        le_u32(x).len() == 4,
        u32_from_le(le_u32(x)) == x,
{
    let b0 = x as u8;
    let b1 = (x >> 8u32) as u8;
    let b2 = (x >> 16u32) as u8;
    let b3 = (x >> 24u32) as u8;
    assert((b0 as u32) | ((b1 as u32) << 8u32) | ((b2 as u32) << 16u32) | ((b3 as u32) << 24u32)
        == x) by (bit_vector)
        requires
            b0 == x as u8,
            b1 == (x >> 8u32) as u8,
            b2 == (x >> 16u32) as u8,
            b3 == (x >> 24u32) as u8,
    ;
}

/// Decoding the little-endian bytes of a `u64` gives it back.
pub proof fn lemma_le_u64_round_trip(x: u64)
    ensures
        le_u64(x).len() == 8,
        u64_from_le(le_u64(x)) == x,
{
    let b0 = x as u8;
    let b1 = (x >> 8u64) as u8;
    let b2 = (x >> 16u64) as u8;
    let b3 = (x >> 24u64) as u8;
    let b4 = (x >> 32u64) as u8;
    let b5 = (x >> 40u64) as u8;
    let b6 = (x >> 48u64) as u8;
    let b7 = (x >> 56u64) as u8;
    assert((b0 as u64) | ((b1 as u64) << 8u64) | ((b2 as u64) << 16u64) | ((b3 as u64) << 24u64)
        | ((b4 as u64) << 32u64) | ((b5 as u64) << 40u64) | ((b6 as u64) << 48u64) | ((b7 as u64)
        << 56u64) == x) by (bit_vector)
        requires
            b0 == x as u8,
            b1 == (x >> 8u64) as u8,
            b2 == (x >> 16u64) as u8,
            b3 == (x >> 24u64) as u8,
            b4 == (x >> 32u64) as u8,
            b5 == (x >> 40u64) as u8,
            b6 == (x >> 48u64) as u8,
            b7 == (x >> 56u64) as u8,
    ;
}

/// Where `s` begins with `p + b`, it begins with `p`, and `b` follows at `p.len()`.
pub proof fn lemma_split_prefix(s: Seq<u8>, p: Seq<u8>, b: Seq<u8>)
    requires
        p.len() + b.len() as int <= s.len(),
        s.subrange(0, p.len() + b.len() as int) == p + b,
    ensures
        s.subrange(0, p.len() as int) == p,
        s.subrange(p.len() as int, p.len() + b.len() as int) == b,
{
    let whole = s.subrange(0, p.len() + b.len() as int);
    assert(s.subrange(0, p.len() as int) =~= whole.subrange(0, p.len() as int));
    assert(whole.subrange(0, p.len() as int) =~= p);
    assert(s.subrange(p.len() as int, p.len() + b.len() as int) =~= whole.subrange(
        p.len() as int,
        p.len() + b.len() as int,
    ));
    assert(whole.subrange(p.len() as int, p.len() + b.len() as int) =~= b);
}

/// Where `s` begins with `p`, any range inside `p` reads the same in `s`.
pub proof fn lemma_subrange_in_prefix(s: Seq<u8>, p: Seq<u8>, a: int, b: int)
    requires
        p.len() <= s.len(),
        s.subrange(0, p.len() as int) == p,
        0 <= a <= b <= p.len(),
    ensures
        s.subrange(a, b) == p.subrange(a, b),
{
    assert(s.subrange(a, b) =~= s.subrange(0, p.len() as int).subrange(a, b));
}

/// A range of a range of `s` is a range of `s`.
pub proof fn lemma_subrange_subrange(s: Seq<u8>, start: int, end: int, a: int, b: int)
    requires
        0 <= start <= end <= s.len(),
        0 <= a <= b <= end - start,
    ensures
        s.subrange(start, end).subrange(a, b) == s.subrange(start + a, start + b),
{
    assert(s.subrange(start, end).subrange(a, b) =~= s.subrange(start + a, start + b));
}

/// The encodings of `items`, one after another.
pub open spec fn pack<T: ToBytesExact<N>, const N: usize>(items: Seq<T>) -> Seq<u8>
    decreases items.len(),
{
    if items.len() == 0 {
        Seq::empty()
    } else {
        pack(items.drop_last()) + items.last().spec_to_bytes()
    }
}

/// Each item takes `N` bytes of the packed encoding.
pub proof fn lemma_pack_len<T: ToBytesExact<N>, const N: usize>(items: Seq<T>)
    ensures
        pack(items).len() == items.len() * N,
    decreases items.len(),
{
    if items.len() > 0 {
        lemma_pack_len(items.drop_last());
        items.last().lemma_round_trip();
        let n = items.len() as int;
        assert((n - 1) * N + N == n * N) by (nonlinear_arith);
    }
}

/// Packing one more item appends its encoding.
pub proof fn lemma_pack_push<T: ToBytesExact<N>, const N: usize>(items: Seq<T>, item: T)
    ensures
        pack(items.push(item)) == pack(items) + item.spec_to_bytes(),
{
    assert(items.push(item).drop_last() =~= items);
}

/// The `i`-th item's encoding stands at `i * N` in the packed encoding.
pub proof fn lemma_pack_item<T: ToBytesExact<N>, const N: usize>(items: Seq<T>, i: int)
    requires
        0 <= i < items.len(),
    ensures
        i * N + N <= pack(items).len(),
        pack(items).subrange(i * N, i * N + N) == items[i].spec_to_bytes(),
    decreases items.len(),
{
    let n = items.len() as int;
    let front = items.drop_last();
    let p = pack(front);
    let b = items.last().spec_to_bytes();
    let s = pack(items);
    lemma_pack_len(items);
    lemma_pack_len(front);
    items.last().lemma_round_trip();
    assert(i * N + N <= n * N) by (nonlinear_arith)
        requires
            i < n,
    ;
    assert(s.subrange(0, s.len() as int) =~= s);
    lemma_split_prefix(s, p, b);
    if i == n - 1 {
        assert(p.len() == i * N);
    } else {
        assert(i * N + N <= (n - 1) * N) by (nonlinear_arith)
            requires
                i < n - 1,
        ;
        assert(0 <= i * N) by (nonlinear_arith)
            requires
                0 <= i,
        ;
        lemma_subrange_in_prefix(s, p, i * N, i * N + N);
        lemma_pack_item(front, i);
    }
}

/// The value that the `len` bytes of `bytes` from `start` decode to.
#[verifier::opaque]
pub open spec fn decode_at<T: FromBytes>(bytes: Seq<u8>, start: int, len: int) -> T {
    T::spec_from_bytes(bytes.subrange(start, start + len)).unwrap()
}

/// Where the `N` bytes of `s` from `start` encode `v`, they decode to `v`.
pub proof fn lemma_decode_field<T: ToBytesExact<N>, const N: usize>(s: Seq<u8>, start: int, v: T)
    requires
        0 <= start,
        start + N <= s.len(),
        s.subrange(start, start + N) == v.spec_to_bytes(),
    ensures
        decode_at::<T>(s, start, N as int) == v,
{
    reveal(decode_at);
    v.lemma_round_trip();
}


/// The bytes of the `i`-th of the `size`-byte encodings that follow one another from `start`.
pub open spec fn item_bytes(s: Seq<u8>, start: int, size: int, i: int) -> Seq<u8> {
    s.subrange(start + i * size, start + i * size + size)
}

/// The `count` values encoded one after another, `size` bytes each, from `start` in `s`.
pub open spec fn unpack<T: FromBytes>(s: Seq<u8>, start: int, size: int, count: nat) -> Seq<T> {
    Seq::new(count, |i: int| decode_at::<T>(s, start + i * size, size))
}

/// Whether each of the `count` encodings of `size` bytes from `start` in `s` decodes.
pub open spec fn all_decode<T: FromBytes>(s: Seq<u8>, start: int, size: int, count: nat) -> bool {
    forall|i: int|
        0 <= i < count ==> (#[trigger] T::spec_from_bytes(item_bytes(s, start, size, i))) is Some
}

/// Where `s` holds the packed encoding of `items` from `start`, each decodes back to its item.
pub proof fn lemma_unpack_pack<T: ToBytesExact<N>, const N: usize>(
    s: Seq<u8>,
    start: int,
    items: Seq<T>,
)
    requires
        0 <= start,
        start + items.len() * N <= s.len(),
        s.subrange(start, start + items.len() * N) == pack(items),
    ensures
        unpack::<T>(s, start, N as int, items.len()) == items,
        all_decode::<T>(s, start, N as int, items.len()),
{
    lemma_pack_len(items);
    let n = items.len() as int;
    assert forall|i: int| 0 <= i < n implies #[trigger] item_bytes(s, start, N as int, i)
        == items[i].spec_to_bytes() by {
        lemma_pack_item(items, i);
        assert(0 <= i * N) by (nonlinear_arith)
            requires
                0 <= i,
        ;
        lemma_subrange_subrange(s, start, start + n * N, i * N, i * N + N);
    }
    assert forall|i: int| 0 <= i < n implies decode_at::<T>(s, start + i * N, N as int)
        == items[i] by {
        assert(item_bytes(s, start, N as int, i) == items[i].spec_to_bytes());
        assert(i * N + N <= n * N) by (nonlinear_arith)
            requires
                i < n,
        ;
        assert(0 <= i * N) by (nonlinear_arith)
            requires
                0 <= i,
        ;
        lemma_decode_field::<T, N>(s, start + i * N, items[i]);
    }
    assert(unpack::<T>(s, start, N as int, items.len()) =~= items);
    assert forall|i: int| 0 <= i < n implies (#[trigger] T::spec_from_bytes(
        item_bytes(s, start, N as int, i),
    )) is Some by {
        assert(item_bytes(s, start, N as int, i) == items[i].spec_to_bytes());
        items[i].lemma_round_trip();
    }
}

/// Reads `count` values of `N` bytes each.
pub fn read_packed<T: ToBytesExact<N>, const N: usize>(reader: &mut ByteReader, count: usize) -> (r:
    Option<Vec<T>>)
    requires
        old(reader).pos() + count * N <= old(reader).data().len(),
    ensures
        final(reader).data() == old(reader).data(),
        r is Some <==> all_decode::<T>(old(reader).data(), old(reader).pos() as int, N as int, count as nat),
        r matches Some(items) ==> {
            &&& items@ == unpack::<T>(old(reader).data(), old(reader).pos() as int, N as int, count as nat)
            &&& final(reader).pos() == old(reader).pos() + count * N
        },
{
    proof {
        T::lemma_num_bytes();
    }
    let ghost data = reader.data();
    let ghost start = reader.pos() as int;
    let mut items: Vec<T> = Vec::new();
    let mut i: usize = 0;
    while i < count
        invariant
            0 <= i <= count,
            T::NUM_BYTES == N,
            reader.data() == data,
            data == old(reader).data(),
            start == old(reader).pos(),
            reader.pos() == start + i * N,
            start + count * N <= data.len(),
            items@ == unpack::<T>(data, start, N as int, i as nat),
            all_decode::<T>(data, start, N as int, i as nat),
        decreases count - i,
    {
        assert(start + i * N + N <= start + count * N) by (nonlinear_arith)
            requires
                i < count,
        ;
        let ghost pos = reader.pos();
        assert(data.subrange(pos as int, pos + N) == item_bytes(data, start, N as int, i as int));
        match reader.peek::<T>() {
            Some(_) => {
                let item = reader.read::<T>();
                proof {
                    reveal(decode_at);
                }
                items.push(item);
                i += 1;
                assert(start + i * N == start + (i - 1) * N + N) by (nonlinear_arith);
                assert(items@ =~= unpack::<T>(data, start, N as int, i as nat));
            },
            None => {
                return None;
            },
        }
    }
    Some(items)
}

/// Appends the encodings of `items`, one after another.
pub fn append_packed<T: ToBytesExact<N>, const N: usize>(out: &mut Vec<u8>, items: &Vec<T>)
    ensures
        final(out)@ == old(out)@ + pack(items@),
{
    let mut i: usize = 0;
    while i < items.len()
        invariant
            0 <= i <= items@.len(),
            out@ == old(out)@ + pack(items@.take(i as int)),
        decreases items@.len() - i,
    {
        let item_bytes = items[i].to_bytes();
        append_bytes(out, item_bytes.as_slice());
        proof {
            assert(items@.take(i + 1) =~= items@.take(i as int).push(items@[i as int]));
            lemma_pack_push(items@.take(i as int), items@[i as int]);
        }
        i += 1;
        assert(out@ =~= old(out)@ + pack(items@.take(i as int)));
    }
    assert(items@.take(i as int) =~= items@);
}

/// A value that can be decoded from bytes. Decoding gives `None` where the bytes are too few
/// or do not hold a value of the type (an unknown enum tag).
pub trait FromBytes: Sized {
    /// What decoding `bytes` gives.
    spec fn spec_from_bytes(bytes: Seq<u8>) -> Option<Self>;

    fn from_bytes(bytes: &[u8]) -> (r: Option<Self>)
        ensures
            r == Self::spec_from_bytes(bytes@),
    ;
}

/// A value whose encoding always takes `NUM_BYTES` bytes.
pub trait FromBytesExact: FromBytes {
    const NUM_BYTES: usize;
}

/// A fixed-size value that can be encoded into exactly `N` bytes.
pub trait ToBytesExact<const N: usize>: FromBytesExact {
    /// The bytes that encode `self`.
    spec fn spec_to_bytes(&self) -> Seq<u8>;

    fn to_bytes(&self) -> (r: [u8; N])
        ensures
            r@ == self.spec_to_bytes(),
    ;

    /// The encoding takes `N` bytes, and decoding it gives the value back.
    proof fn lemma_round_trip(&self)
        ensures
            self.spec_to_bytes().len() == N,
            Self::spec_from_bytes(self.spec_to_bytes()) == Some(*self),
    ;

    /// `N` is the number of bytes that decoding reads.
    proof fn lemma_num_bytes()
        ensures
            Self::NUM_BYTES == N,
    ;
}

/// A value of variable size that can be encoded into bytes.
pub trait ToBytes {
    /// Whether `self` can be encoded: its counts fit the integer fields that carry them.
    spec fn spec_encodable(&self) -> bool;

    /// The bytes that encode `self`.
    spec fn spec_bytes(&self) -> Seq<u8>;

    fn to_bytes(&self) -> (r: Vec<u8>)
        requires
            self.spec_encodable(),
        ensures
            r@ == self.spec_bytes(),
    ;
}

/// Appends `bytes` to `out`.
pub(crate) fn append_bytes(out: &mut Vec<u8>, bytes: &[u8])
    ensures
        final(out)@ == old(out)@ + bytes@,
{
    let mut i: usize = 0;
    while i < bytes.len()
        invariant
            0 <= i <= bytes@.len(),
            out@ == old(out)@ + bytes@.take(i as int),
        decreases bytes@.len() - i,
    {
        out.push(bytes[i]);
        i += 1;
        assert(out@ =~= old(out)@ + bytes@.take(i as int));
    }
    assert(bytes@.take(i as int) =~= bytes@);
}

/// Reads values one after another from a byte slice.
pub struct ByteReader<'a> {
    idx: usize,
    bytes: &'a [u8],
}

impl<'a> ByteReader<'a> {
    /// The bytes being read.
    pub closed spec fn data(&self) -> Seq<u8> {
        self.bytes@
    }

    /// The position of the next byte to read.
    pub closed spec fn pos(&self) -> nat {
        self.idx as nat
    }

    pub fn new(bytes: &'a [u8]) -> (r: Self)
        ensures
            r.data() == bytes@,
            r.pos() == 0,
    {
        Self { idx: 0, bytes }
    }

    /// The number of bytes not yet read.
    pub fn remaining(&self) -> (r: usize)
        requires
            self.pos() <= self.data().len(),
        ensures
            r == self.data().len() - self.pos(),
    {
        self.bytes.len() - self.idx
    }

    /// Decodes the next `I::NUM_BYTES` bytes as an `I` without moving; `None` where they do not
    /// encode one.
    pub fn peek<I: FromBytesExact>(&self) -> (r: Option<I>)
        requires
            self.pos() + I::NUM_BYTES <= self.data().len(),
        ensures
            r == I::spec_from_bytes(self.data().subrange(self.pos() as int, self.pos() + I::NUM_BYTES)),
    {
        let len = self.bytes.len();
        let end = self.idx + I::NUM_BYTES;
        I::from_bytes(vstd::slice::slice_subrange(self.bytes, self.idx, end))
    }

    /// Decodes the next `I::NUM_BYTES` bytes as an `I` and moves past them. They must be there
    /// and encode an `I`.
    pub fn read<I: FromBytesExact>(&mut self) -> (r: I)
        requires
            old(self).pos() + I::NUM_BYTES <= old(self).data().len(),
            I::spec_from_bytes(
                old(self).data().subrange(old(self).pos() as int, old(self).pos() + I::NUM_BYTES),
            ) is Some,
        ensures
            final(self).data() == old(self).data(),
            final(self).pos() == old(self).pos() + I::NUM_BYTES,
            Some(r) == I::spec_from_bytes(
                old(self).data().subrange(old(self).pos() as int, old(self).pos() + I::NUM_BYTES),
            ),
    {
        let len = self.bytes.len();
        let end = self.idx + I::NUM_BYTES;
        let item = I::from_bytes(vstd::slice::slice_subrange(self.bytes, self.idx, end)).unwrap();
        self.idx = end;
        item
    }
}

/// Writes fixed-size values one after another into an array of `N` bytes.
pub struct ByteWriter<const N: usize> {
    idx: usize,
    bytes: [u8; N],
}

impl<const N: usize> ByteWriter<N> {
    /// The position of the next byte to write.
    pub closed spec fn pos(&self) -> nat {
        self.idx as nat
    }

    /// The bytes written so far.
    pub closed spec fn written(&self) -> Seq<u8> {
        self.bytes@.take(self.idx as int)
    }

    /// The whole array: the bytes written so far and those after them.
    pub closed spec fn buffer(&self) -> Seq<u8> {
        self.bytes@
    }

    /// A writer at position 0 over an array of `N` zero bytes.
    pub fn new() -> (r: Self)
        ensures
            r.pos() == 0,
            r.written() == Seq::<u8>::empty(),
            r.buffer() == Seq::new(N as nat, |i: int| 0u8),
    {
        let bytes: [u8; N] = vstd::array::array_fill_for_copy_types::<u8, N>(0u8);
        assert(forall|i: int| 0 <= i < N ==> bytes@[i] == 0u8);
        let r = Self { idx: 0, bytes };
        assert(r.written() =~= Seq::<u8>::empty());
        assert(r.buffer() =~= Seq::new(N as nat, |i: int| 0u8));
        r
    }

    /// Appends the `M` bytes of `item`.
    pub fn write<I: ToBytesExact<M>, const M: usize>(&mut self, item: &I)
        requires
            old(self).pos() + M <= N,
        ensures
            final(self).pos() == old(self).pos() + M,
            final(self).written() == old(self).written() + item.spec_to_bytes(),
            final(self).buffer().len() == N,
            final(self).buffer().subrange(old(self).pos() as int, old(self).pos() + M)
                == item.spec_to_bytes(),
            forall|k: int|
                0 <= k < N && !(old(self).pos() <= k < old(self).pos() + M)
                    ==> #[trigger] final(self).buffer()[k] == old(self).buffer()[k],
    {
        let item_bytes = item.to_bytes();
        let start = self.idx;
        let mut i: usize = 0;
        while i < M
            invariant
                start + M <= N,
                self.idx == start,
                start == old(self).pos(),
                old(self).bytes@.len() == N,
                item_bytes@ == item.spec_to_bytes(),
                item_bytes@.len() == M,
                0 <= i <= M,
                self.bytes@.len() == N,
                self.bytes@.take(start + i) == old(self).written() + item_bytes@.take(i as int),
                forall|k: int| 0 <= k < N && !(start <= k < start + i) ==> #[trigger] self.bytes@[k]
                    == old(self).bytes@[k],
                forall|k: int| start <= k < start + i ==> #[trigger] self.bytes@[k] == item_bytes@[k - start],
            decreases M - i,
        {
            let ghost before = self.bytes@;
            self.bytes[start + i] = item_bytes[i];
            assert(self.bytes@ == before.update(start + i, item_bytes@[i as int]));
            assert(old(self).written().len() == start);
            assert forall|k: int| 0 <= k < start + i implies #[trigger] self.bytes@[k] == (old(
                self,
            ).written() + item_bytes@.take(i as int))[k] by {
                assert(before.take(start + i)[k] == before[k]);
            }
            assert(self.bytes@.take(start + i + 1) =~= old(self).written() + item_bytes@.take(
                i + 1,
            ));
            i += 1;
        }
        self.idx = start + M;
        assert(item_bytes@.take(M as int) =~= item_bytes@);
        assert(self.bytes@.subrange(start as int, start + M) =~= item_bytes@);
    }

    /// The array, once all `N` bytes are written.
    pub fn inner(self) -> (r: [u8; N])
        requires
            self.pos() == N,
        ensures
            r@ == self.written(),
            r@ == self.buffer(),
    {
        assert(self.bytes@.take(N as int) =~= self.bytes@);
        self.bytes
    }
}

/// Writes from a fresh writer lay their encodings down one after another: where each writer
/// state follows the one before it by a write of `encodings[j]`, the bytes written are the
/// encodings in the order written, with no gap and no overlap, and once they fill the array
/// `inner` gives exactly them.
pub proof fn lemma_writes_concatenate<const N: usize>(states: Seq<ByteWriter<N>>, encodings: Seq<Seq<u8>>)
    requires
        states.len() == encodings.len() + 1,
        states[0].pos() == 0,
        states[0].written() == Seq::<u8>::empty(),
        forall|j: int|
            0 <= j < encodings.len() ==> (#[trigger] states[j + 1]).pos() == states[j].pos()
                + encodings[j].len() && states[j + 1].written() == states[j].written() + encodings[j],
    ensures
        states.last().written() == encodings.flatten(),
        states.last().pos() == encodings.flatten().len(),
    decreases encodings.len(),
{
    if encodings.len() == 0 {
    } else {
        let k = encodings.len() - 1;
        let front = states.drop_last();
        let efront = encodings.drop_last();
        assert forall|j: int| 0 <= j < efront.len() implies (#[trigger] front[j + 1]).pos() == front[j].pos()
            + efront[j].len() && front[j + 1].written() == front[j].written() + efront[j] by {
            assert(front[j + 1] == states[j + 1]);
            assert(front[j] == states[j]);
        }
        lemma_writes_concatenate(front, efront);
        assert(states[k + 1] == states.last());
        efront.lemma_flatten_push(encodings[k]);
        assert(efront.push(encodings[k]) =~= encodings);
    }
}

impl FromBytes for u8 {
    open spec fn spec_from_bytes(bytes: Seq<u8>) -> Option<u8> {
        if bytes.len() >= 1 {
            Some(bytes[0])
        } else {
            None
        }
    }

    fn from_bytes(bytes: &[u8]) -> (r: Option<u8>) {
        if bytes.len() >= 1 {
            Some(bytes[0])
        } else {
            None
        }
    }
}

impl FromBytesExact for u8 {
    const NUM_BYTES: usize = 1;
}

impl ToBytesExact<1> for u8 {
    open spec fn spec_to_bytes(&self) -> Seq<u8> {
        seq![*self]
    }

    fn to_bytes(&self) -> (r: [u8; 1]) {
        let r = [*self];
        assert(r@ =~= seq![*self]);
        r
    }

    proof fn lemma_num_bytes() {
    }

    proof fn lemma_round_trip(&self) {
    }
}

impl FromBytes for u16 {
    open spec fn spec_from_bytes(bytes: Seq<u8>) -> Option<u16> {
        if bytes.len() >= 2 {
            Some(u16_from_le(bytes))
        } else {
            None
        }
    }

    fn from_bytes(bytes: &[u8]) -> (r: Option<u16>) {
        if bytes.len() >= 2 {
            Some((bytes[0] as u16) | ((bytes[1] as u16) << 8u16))
        } else {
            None
        }
    }
}

impl FromBytesExact for u16 {
    const NUM_BYTES: usize = 2;
}

impl ToBytesExact<2> for u16 {
    open spec fn spec_to_bytes(&self) -> Seq<u8> {
        le_u16(*self)
    }

    fn to_bytes(&self) -> (r: [u8; 2]) {
        let x = *self;
        let r = [x as u8, (x >> 8u16) as u8];
        assert(r@ =~= le_u16(x));
        r
    }

    proof fn lemma_num_bytes() {
    }

    proof fn lemma_round_trip(&self) {
        lemma_le_u16_round_trip(*self);
    }
}

impl FromBytes for u32 {
    open spec fn spec_from_bytes(bytes: Seq<u8>) -> Option<u32> {
        if bytes.len() >= 4 {
            Some(u32_from_le(bytes))
        } else {
            None
        }
    }

    fn from_bytes(bytes: &[u8]) -> (r: Option<u32>) {
        if bytes.len() >= 4 {
            Some(
                (bytes[0] as u32) | ((bytes[1] as u32) << 8u32) | ((bytes[2] as u32) << 16u32) | ((
                bytes[3] as u32) << 24u32),
            )
        } else {
            None
        }
    }
}

impl FromBytesExact for u32 {
    const NUM_BYTES: usize = 4;
}

impl ToBytesExact<4> for u32 {
    open spec fn spec_to_bytes(&self) -> Seq<u8> {
        le_u32(*self)
    }

    fn to_bytes(&self) -> (r: [u8; 4]) {
        let x = *self;
        let r = [x as u8, (x >> 8u32) as u8, (x >> 16u32) as u8, (x >> 24u32) as u8];
        assert(r@ =~= le_u32(x));
        r
    }

    proof fn lemma_num_bytes() {
    }

    proof fn lemma_round_trip(&self) {
        lemma_le_u32_round_trip(*self);
    }
}

impl FromBytes for u64 {
    open spec fn spec_from_bytes(bytes: Seq<u8>) -> Option<u64> {
        if bytes.len() >= 8 {
            Some(u64_from_le(bytes))
        } else {
            None
        }
    }

    fn from_bytes(bytes: &[u8]) -> (r: Option<u64>) {
        if bytes.len() >= 8 {
            Some(
                (bytes[0] as u64) | ((bytes[1] as u64) << 8u64) | ((bytes[2] as u64) << 16u64) | ((
                bytes[3] as u64) << 24u64) | ((bytes[4] as u64) << 32u64) | ((bytes[5] as u64)
                    << 40u64) | ((bytes[6] as u64) << 48u64) | ((bytes[7] as u64) << 56u64),
            )
        } else {
            None
        }
    }
}

impl FromBytesExact for u64 {
    const NUM_BYTES: usize = 8;
}

impl ToBytesExact<8> for u64 {
    open spec fn spec_to_bytes(&self) -> Seq<u8> {
        le_u64(*self)
    }

    fn to_bytes(&self) -> (r: [u8; 8]) {
        let x = *self;
        let r = [
            x as u8,
            (x >> 8u64) as u8,
            (x >> 16u64) as u8,
            (x >> 24u64) as u8,
            (x >> 32u64) as u8,
            (x >> 40u64) as u8,
            (x >> 48u64) as u8,
            (x >> 56u64) as u8,
        ];
        assert(r@ =~= le_u64(x));
        r
    }

    proof fn lemma_num_bytes() {
    }

    proof fn lemma_round_trip(&self) {
        lemma_le_u64_round_trip(*self);
    }
}

impl FromBytes for i32 {
    open spec fn spec_from_bytes(bytes: Seq<u8>) -> Option<i32> {
        if bytes.len() >= 4 {
            Some(u32_from_le(bytes) as i32)
        } else {
            None
        }
    }

    fn from_bytes(bytes: &[u8]) -> (r: Option<i32>) {
        match u32::from_bytes(bytes) {
            Some(x) => Some(x as i32),
            None => None,
        }
    }
}

impl FromBytesExact for i32 {
    const NUM_BYTES: usize = 4;
}

impl ToBytesExact<4> for i32 {
    open spec fn spec_to_bytes(&self) -> Seq<u8> {
        le_u32(*self as u32)
    }

    fn to_bytes(&self) -> (r: [u8; 4]) {
        (*self as u32).to_bytes()
    }

    proof fn lemma_num_bytes() {
    }

    proof fn lemma_round_trip(&self) {
        let x = *self;
        lemma_le_u32_round_trip(x as u32);
        assert((x as u32) as i32 == x) by (bit_vector);
    }
}

impl FromBytes for bool {
    /// Any byte other than zero reads as `true`.
    open spec fn spec_from_bytes(bytes: Seq<u8>) -> Option<bool> {
        if bytes.len() >= 1 {
            Some(bytes[0] != 0)
        } else {
            None
        }
    }

    fn from_bytes(bytes: &[u8]) -> (r: Option<bool>) {
        if bytes.len() >= 1 {
            Some(bytes[0] != 0)
        } else {
            None
        }
    }
}

impl FromBytesExact for bool {
    const NUM_BYTES: usize = 1;
}

impl ToBytesExact<1> for bool {
    open spec fn spec_to_bytes(&self) -> Seq<u8> {
        seq![if *self { 1u8 } else { 0u8 }]
    }

    fn to_bytes(&self) -> (r: [u8; 1]) {
        let r = [if *self { 1u8 } else { 0u8 }];
        assert(r@ =~= self.spec_to_bytes());
        r
    }

    proof fn lemma_num_bytes() {
    }

    proof fn lemma_round_trip(&self) {
    }
}

impl FromBytes for F32Bits {
    open spec fn spec_from_bytes(bytes: Seq<u8>) -> Option<F32Bits> {
        if bytes.len() >= 4 {
            Some(F32Bits(u32_from_le(bytes)))
        } else {
            None
        }
    }

    fn from_bytes(bytes: &[u8]) -> (r: Option<F32Bits>) {
        match u32::from_bytes(bytes) {
            Some(x) => Some(F32Bits(x)),
            None => None,
        }
    }
}

impl FromBytesExact for F32Bits {
    const NUM_BYTES: usize = 4;
}

impl ToBytesExact<4> for F32Bits {
    open spec fn spec_to_bytes(&self) -> Seq<u8> {
        le_u32(self.0)
    }

    fn to_bytes(&self) -> (r: [u8; 4]) {
        self.0.to_bytes()
    }

    proof fn lemma_num_bytes() {
    }

    proof fn lemma_round_trip(&self) {
        lemma_le_u32_round_trip(self.0);
    }
}

} // verus!
