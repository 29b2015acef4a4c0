//! A growable buffer of bits, filled field by field and read back by bit or
//! byte ranges.

use crate::dstructs::bits::{
    bits_of, bits_text, bits_to_text, bits_to_value, bits_value, is_binary_text,
    lemma_bits_of_len, lemma_bits_value_bound, lemma_decode_encode, lemma_encode_decode,
    lemma_min_bits_fits, lemma_text_roundtrip, text_bits, text_to_bits, Bits,
};
use crate::error::{ErrorType, PaError};
use vstd::arithmetic::power2::{lemma2_to64, lemma_pow2_strictly_increases};
use vstd::prelude::*;

verus! {

/// The bits of a byte string: eight for each byte, most significant first.
pub open spec fn bytes_bits(bytes: Seq<u8>) -> Seq<bool>
    decreases bytes.len(),
{
    if bytes.len() == 0 {
        Seq::empty()
    } else {
        bytes_bits(bytes.drop_last()) + bits_of(bytes.last() as nat, 8)
    }
}

/// The bytes that a bit string spells, eight bits to a byte. Bits after the
/// last whole byte are left out.
pub open spec fn bits_bytes(bits: Seq<bool>) -> Seq<u8> {
    Seq::new((bits.len() / 8) as nat, |k: int| bits_value(bits.subrange(8 * k, 8 * k + 8)) as u8)
}

/// A byte string has eight bits for each byte.
pub proof fn lemma_bytes_bits_len(bytes: Seq<u8>)
    ensures
        bytes_bits(bytes).len() == 8 * bytes.len(),
    decreases bytes.len(),
{
    if bytes.len() > 0 {
        lemma_bytes_bits_len(bytes.drop_last());
        lemma_bits_of_len(bytes.last() as nat, 8);
    }
}

/// The eight bits at byte position `k` are those of byte `k`.
pub proof fn lemma_bytes_bits_at(bytes: Seq<u8>, k: int)
    requires
        0 <= k < bytes.len(),
    ensures
        bytes_bits(bytes).subrange(8 * k, 8 * k + 8) == bits_of(bytes[k] as nat, 8),
    decreases bytes.len(),
{
    let front = bytes.drop_last();
    lemma_bytes_bits_len(front);
    lemma_bytes_bits_len(bytes);
    lemma_bits_of_len(bytes.last() as nat, 8);
    if k == bytes.len() - 1 {
        assert(bytes_bits(bytes).subrange(8 * k, 8 * k + 8) =~= bits_of(bytes[k] as nat, 8));
    } else {
        lemma_bytes_bits_at(front, k);
        assert(bytes_bits(bytes).subrange(8 * k, 8 * k + 8) =~= bytes_bits(front).subrange(
            8 * k,
            8 * k + 8,
        ));
    }
}

/// Bytes written as bits and read back are the same bytes.
pub proof fn lemma_bytes_roundtrip(bytes: Seq<u8>)
    ensures
        bits_bytes(bytes_bits(bytes)) == bytes,
{
    lemma_bytes_bits_len(bytes);
    lemma2_to64();
    assert forall|k: int| 0 <= k < bytes.len() implies bits_bytes(bytes_bits(bytes))[k]
        == bytes[k] by {
        lemma_bytes_bits_at(bytes, k);
        lemma_decode_encode(bytes[k] as nat, 8);
    }
    assert(bits_bytes(bytes_bits(bytes)) =~= bytes);
}

/// The bits of two byte strings laid end to end are the bits of the one
/// followed by the bits of the other.
pub proof fn lemma_bytes_bits_concat(a: Seq<u8>, b: Seq<u8>)
    ensures
        bytes_bits(a + b) == bytes_bits(a) + bytes_bits(b),
    decreases b.len(),
{
    if b.len() == 0 {
        assert(a + b =~= a);
        assert(bytes_bits(a) + bytes_bits(b) =~= bytes_bits(a));
    } else {
        lemma_bytes_bits_concat(a, b.drop_last());
        assert((a + b).drop_last() =~= a + b.drop_last());
        assert(bytes_bits(a + b) =~= bytes_bits(a) + bytes_bits(b));
    }
}

/// Bits that make up whole bytes, read as bytes and written as bits
/// again, are the same bits.
pub proof fn lemma_bits_roundtrip(bits: Seq<bool>)
    requires
        bits.len() % 8 == 0,
    ensures
        bytes_bits(bits_bytes(bits)) == bits,
    decreases bits.len(),
{
    let bytes = bits_bytes(bits);
    if bits.len() == 0 {
        assert(bytes_bits(bytes) =~= bits);
    } else {
        let n = (bits.len() / 8) as int;
        let front = bits.subrange(0, 8 * (n - 1));
        let last = bits.subrange(8 * (n - 1), 8 * n);
        lemma_bits_roundtrip(front);
        assert forall|k: int| 0 <= k < n - 1 implies bits_bytes(front)[k] == bytes[k] by {
            assert(front.subrange(8 * k, 8 * k + 8) =~= bits.subrange(8 * k, 8 * k + 8));
        }
        assert(bytes.drop_last() =~= bits_bytes(front));
        lemma_encode_decode(last);
        lemma_bits_value_bound(last);
        lemma2_to64();
        assert(bits_of(bytes.last() as nat, 8) == last);
        assert(front + last =~= bits);
    }
}

/// A growable sequence of bits.
#[derive(Debug)]
pub struct Packet {
    data: Vec<bool>,
}

impl View for Packet {
    type V = Seq<bool>;

    closed spec fn view(&self) -> Seq<bool> {
        self.data@
    }
}

impl Packet {
    /// An empty buffer.
    pub fn new() -> (p: Self)
        ensures
            p@ == Seq::<bool>::empty(),
    {
        Self { data: Vec::new() }
    }

    /// The buffer that the binary numeral `data` spells, one bit for each
    /// character; `ParseError` when a character is neither `'0'` nor `'1'`.
    pub fn from(data: &str) -> (r: Result<Self, PaError>)
        ensures
            r is Ok <==> is_binary_text(data@),
            r matches Ok(p) ==> p@ == text_bits(data@),
            r matches Err(e) ==> e.err_type == ErrorType::ParseError,
    {
        match text_to_bits(data) {
            Some(bits) => Ok(Self { data: bits }),
            None => Err(PaError::new("data is not a binary numeral", ErrorType::ParseError)),
        }
    }

    /// The buffer that holds the bits of `bytes`, eight for each byte.
    pub fn from_bytes(bytes: &[u8]) -> (p: Self)
        ensures
            p@ == bytes_bits(bytes@),
    {
        let mut p = Packet::new();
        p.push_all(bytes);
        assert(Seq::<bool>::empty() + bytes_bits(bytes@) =~= bytes_bits(bytes@));
        p
    }

    /// The number of bits held, modulo 256.
    pub fn get_len(&self) -> (n: u8)
        ensures
            n == self@.len() % 256,
    {
        (self.data.len() % 256) as u8
    }

    /// The number of bits held.
    pub fn bit_len(&self) -> (n: usize)
        ensures
            n == self@.len(),
    {
        self.data.len()
    }

    /// Appends a field as it goes on the wire, all of its declared width,
    /// and returns that width.
    pub fn append(&mut self, data: &Bits) -> (n: u8)
        ensures
            final(self)@ == old(self)@ + data.bits(),
            n == data.width(),
    {
        let mut bits = data.to_bit_vec();
        self.data.append(&mut bits);
        data.get_width()
    }

    /// Appends the eight bits of a byte, most significant first.
    pub fn push(&mut self, data: u8)
        ensures
            final(self)@ == old(self)@ + bits_of(data as nat, 8),
    {
        proof {
            lemma2_to64();
            lemma_min_bits_fits(data as nat, 8);
        }
        let field = Bits::from(data as u64, 8).unwrap();
        self.append(&field);
    }

    /// Appends every byte of `bytes`, in order.
    pub fn push_all(&mut self, bytes: &[u8])
        ensures
            final(self)@ == old(self)@ + bytes_bits(bytes@),
    {
        let mut i: usize = 0;
        assert(old(self)@ + bytes_bits(bytes@.subrange(0, 0)) =~= old(self)@);
        while i < bytes.len()
            invariant
                i <= bytes@.len(),
                self@ == old(self)@ + bytes_bits(bytes@.subrange(0, i as int)),
            decreases bytes@.len() - i,
        {
            self.push(bytes[i]);
            proof {
                assert(bytes@.subrange(0, i + 1).drop_last() =~= bytes@.subrange(0, i as int));
                assert(self@ =~= old(self)@ + bytes_bits(bytes@.subrange(0, i + 1)));
            }
            i += 1;
        }
        assert(bytes@.subrange(0, i as int) =~= bytes@);
    }

    /// The binary numeral of the bits from `start_index` up to `end_index`.
    pub fn get_bin_slice(&self, start_index: usize, end_index: usize) -> (s: String)
        requires
            start_index <= end_index <= self@.len(),
        ensures
            s@ == bits_text(self@.subrange(start_index as int, end_index as int)),
    {
        bits_to_text(&self.data, start_index, end_index)
    }

    /// The field that the bits from `start_index` up to `end_index` spell:
    /// as wide as the range, which is 64 bits at most.
    pub fn get_field(&self, start_index: usize, end_index: usize) -> (b: Bits)
        requires
            start_index <= end_index <= self@.len(),
            end_index - start_index <= 64,
        ensures
            b == Bits::of(
                bits_value(self@.subrange(start_index as int, end_index as int)),
                (end_index - start_index) as nat,
            ),
            b.width() == end_index - start_index,
            b.value() == bits_value(self@.subrange(start_index as int, end_index as int)),
            b.wf(),
    {
        let ghost range = self@.subrange(start_index as int, end_index as int);
        let text = self.get_bin_slice(start_index, end_index);
        proof {
            lemma_text_roundtrip(range);
            lemma_bits_value_bound(range);
            lemma2_to64();
            if range.len() < 64 {
                lemma_pow2_strictly_increases(range.len(), 64);
            }
            Bits::lemma_of(bits_value(range), range.len());
        }
        let b = Bits::from_bin(text.as_str(), (end_index - start_index) as u8).unwrap();
        proof {
            Bits::lemma_same(b, Bits::of(bits_value(range), range.len()));
        }
        b
    }

    /// The bytes that the bits from `start_index` up to `end_index` spell.
    ///
    /// `AlignmentError` when the range is not a whole number of bytes long,
    /// or when the buffer itself is not.
    pub fn get_slice(&self, start_index: usize, end_index: usize) -> (r: Result<Vec<u8>, PaError>)
        requires
            start_index <= end_index <= self@.len(),
        ensures
            r is Ok <==> (end_index - start_index) % 8 == 0 && self@.len() % 8 == 0,
            r matches Ok(bytes) ==> bytes@ == bits_bytes(
                self@.subrange(start_index as int, end_index as int),
            ),
            r matches Err(e) ==> e.err_type == ErrorType::AlignmentError,
    {
        if (end_index - start_index) % 8 != 0 {
            return Err(
                PaError::new(
                    "Requested slice not possible. Index is not in 8 bit boundary.",
                    ErrorType::AlignmentError,
                ),
            );
        }
        if self.data.len() % 8 != 0 {
            return Err(PaError::new("Data not in 8-bit boundary", ErrorType::AlignmentError));
        }
        Ok(self.read_bytes(start_index, end_index))
    }

    /// The bytes that the whole buffer spells; `AlignmentError` when it is
    /// not a whole number of bytes long.
    pub fn into_bytes(self) -> (r: Result<Vec<u8>, PaError>)
        ensures
            r is Ok <==> self@.len() % 8 == 0,
            r matches Ok(bytes) ==> bytes@ == bits_bytes(self@),
            r matches Err(e) ==> e.err_type == ErrorType::AlignmentError,
    {
        if self.data.len() % 8 != 0 {
            return Err(PaError::new("Data not in 8-bit boundary", ErrorType::AlignmentError));
        }
        assert(self@.subrange(0, self@.len() as int) =~= self@);
        Ok(self.read_bytes(0, self.data.len()))
    }

    /// The bytes of a range that is a whole number of bytes long, wherever
    /// it starts.
    pub fn read_bytes(&self, start_index: usize, end_index: usize) -> (bytes: Vec<u8>)
        requires
            start_index <= end_index <= self@.len(),
            (end_index - start_index) % 8 == 0,
        ensures
            bytes@ == bits_bytes(self@.subrange(start_index as int, end_index as int)),
    {
        let ghost range = self@.subrange(start_index as int, end_index as int);
        let count: usize = (end_index - start_index) / 8;
        let mut bytes: Vec<u8> = Vec::with_capacity(count);
        let mut k: usize = 0;
        while k < count
            invariant
                k <= count,
                count * 8 == end_index - start_index,
                start_index <= end_index <= self@.len(),
                range == self@.subrange(start_index as int, end_index as int),
                bytes@ == bits_bytes(range).subrange(0, k as int),
            decreases count - k,
        {
            let at: usize = start_index + 8 * k;
            let ghost octet = self@.subrange(at as int, at + 8);
            proof {
                lemma_bits_value_bound(octet);
                lemma2_to64();
                assert(range.subrange(8 * k, 8 * k + 8) =~= octet);
            }
            let value = bits_to_value(&self.data, at, at + 8).unwrap();
            bytes.push(value as u8);
            k += 1;
            assert(bytes@ =~= bits_bytes(range).subrange(0, k as int));
        }
        assert(bits_bytes(range).subrange(0, count as int) =~= bits_bytes(range));
        bytes
    }
}

} // verus!
