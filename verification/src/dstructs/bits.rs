//! A fixed-width binary scalar and the arithmetic of bit sequences.

use crate::error::{ErrorType, PaError};
use vstd::arithmetic::power2::{
    lemma2_to64, lemma_pow2_pos, lemma_pow2_strictly_increases, lemma_pow2_unfold, pow2,
};
use vstd::prelude::*;
use vstd::string::*;

verus! {

/// The number that `bits` spell, most significant bit first.
pub open spec fn bits_value(bits: Seq<bool>) -> nat
    decreases bits.len(),
{
    if bits.len() == 0 {
        0
    } else {
        2 * bits_value(bits.drop_last()) + if bits.last() { 1nat } else { 0nat }
    }
}

/// `value` written in exactly `width` bits, most significant bit first.
/// Bits of `value` above the width are cut off.
pub open spec fn bits_of(value: nat, width: nat) -> Seq<bool>
    decreases width,
{
    if width == 0 {
        Seq::empty()
    } else {
        bits_of(value / 2, (width - 1) as nat).push(value % 2 == 1)
    }
}

/// The length of the shortest binary numeral for `value`; zero takes one digit.
pub open spec fn min_bits(value: nat) -> nat
    decreases value,
{
    if value < 2 {
        1
    } else {
        1 + min_bits(value / 2)
    }
}

/// One character per bit: `'1'` for a set bit, `'0'` for a clear one.
pub open spec fn bits_text(bits: Seq<bool>) -> Seq<char> {
    Seq::new(bits.len(), |i: int| if bits[i] { '1' } else { '0' })
}

/// Whether every character of `text` is `'0'` or `'1'`.
pub open spec fn is_binary_text(text: Seq<char>) -> bool {
    forall|i: int| 0 <= i < text.len() ==> text[i] == '0' || text[i] == '1'
}

/// The bits that a binary numeral spells, one per character.
pub open spec fn text_bits(text: Seq<char>) -> Seq<bool> {
    Seq::new(text.len(), |i: int| text[i] == '1')
}

/// `bits_of` yields exactly `width` bits.
pub proof fn lemma_bits_of_len(value: nat, width: nat)
    ensures
        bits_of(value, width).len() == width,
    decreases width,
{
    if width > 0 {
        lemma_bits_of_len(value / 2, (width - 1) as nat);
    }
}

/// A sequence of `n` bits spells a number below `2^n`.
pub proof fn lemma_bits_value_bound(bits: Seq<bool>)
    ensures
        bits_value(bits) < pow2(bits.len()),
    decreases bits.len(),
{
    if bits.len() == 0 {
        lemma2_to64();
    } else {
        lemma_bits_value_bound(bits.drop_last());
        lemma_pow2_unfold(bits.len());
    }
}

/// Encoding then decoding gives the value back, whenever the value fits the
/// width.
pub proof fn lemma_decode_encode(value: nat, width: nat)
    requires
        value < pow2(width),
    ensures
        bits_value(bits_of(value, width)) == value,
    decreases width,
{
    if width == 0 {
        lemma2_to64();
    } else {
        let rest = bits_of(value / 2, (width - 1) as nat);
        lemma_pow2_unfold(width);
        lemma_decode_encode(value / 2, (width - 1) as nat);
        assert(bits_of(value, width).drop_last() =~= rest);
    }
}

/// Decoding then encoding at the same width gives the bits back.
pub proof fn lemma_encode_decode(bits: Seq<bool>)
    ensures
        bits_of(bits_value(bits), bits.len()) == bits,
    decreases bits.len(),
{
    if bits.len() > 0 {
        lemma_encode_decode(bits.drop_last());
        assert(bits_of(bits_value(bits), bits.len()) =~= bits);
    }
}

/// A value fits a width exactly when its shortest numeral is no longer than
/// the width.
pub proof fn lemma_min_bits_fits(value: nat, width: nat)
    ensures
        min_bits(value) <= width <==> width >= 1 && value < pow2(width),
    decreases width,
{
    lemma2_to64();
    if width == 0 {
    } else if value < 2 {
        lemma_pow2_pos((width - 1) as nat);
        lemma_pow2_unfold(width);
    } else {
        lemma_pow2_unfold(width);
        lemma_min_bits_fits(value / 2, (width - 1) as nat);
    }
}

/// Reading a numeral's characters as bits and writing them again changes
/// nothing, in either direction.
pub proof fn lemma_text_roundtrip(bits: Seq<bool>)
    ensures
        is_binary_text(bits_text(bits)),
        text_bits(bits_text(bits)) == bits,
{
    assert(text_bits(bits_text(bits)) =~= bits);
}

/// A prefix of a bit sequence never spells a larger number than the whole.
pub proof fn lemma_prefix_value(bits: Seq<bool>, k: int)
    requires
        0 <= k <= bits.len(),
    ensures
        bits_value(bits.subrange(0, k)) <= bits_value(bits),
    decreases bits.len() - k,
{
    if k < bits.len() {
        lemma_prefix_value(bits, k + 1);
        assert(bits.subrange(0, k + 1).drop_last() =~= bits.subrange(0, k));
    } else {
        assert(bits.subrange(0, k) =~= bits);
    }
}

/// An unsigned value held in a declared number of bits.
///
/// Two fields are equal under `==` when their values are equal; the widths
/// are not compared.
#[derive(Debug, Clone, Copy)]
pub struct Bits {
    length: u8,
    value: u64,
}

impl PartialEq for Bits {
    fn eq(&self, other: &Bits) -> (r: bool) {
        self.value == other.value
    }
}

impl vstd::std_specs::cmp::PartialEqSpecImpl for Bits {
    open spec fn obeys_eq_spec() -> bool {
        true
    }

    open spec fn eq_spec(&self, other: &Bits) -> bool {
        self.value() == other.value()
    }
}

impl Bits {
    /// The declared width, in bits.
    pub closed spec fn width(&self) -> nat {
        self.length as nat
    }

    /// The value held.
    pub closed spec fn value(&self) -> nat {
        self.value as nat
    }

    /// The invariant of the type: the value fits the declared width.
    pub open spec fn wf(&self) -> bool {
        self.value() < pow2(self.width())
    }

    /// The field as it goes on the wire: the value in exactly `width` bits,
    /// padded with zeros on the left.
    pub open spec fn bits(&self) -> Seq<bool> {
        bits_of(self.value(), self.width())
    }

    #[verifier::type_invariant]
    spec fn inv(&self) -> bool {
        self.wf()
    }

    /// The field of the given width that holds the given value.
    pub closed spec fn of(value: nat, width: nat) -> Bits {
        Bits { length: width as u8, value: value as u64 }
    }

    /// `of` gives what it was asked for, where a field can hold it.
    pub proof fn lemma_of(value: nat, width: nat)
        requires
            width <= u8::MAX,
            value <= u64::MAX,
        ensures
            Self::of(value, width).width() == width,
            Self::of(value, width).value() == value,
    {
    }

    /// Two fields with the same width and the same value are the same field.
    pub proof fn lemma_same(a: Bits, b: Bits)
        requires
            a.width() == b.width(),
            a.value() == b.value(),
        ensures
            a == b,
    {
    }

    /// Encoding a field and decoding it again gives the field back: its
    /// bits spell its value, and so does its binary numeral.
    pub proof fn lemma_roundtrip(b: Bits)
        requires
            b.wf(),
        ensures
            bits_value(b.bits()) == b.value(),
            bits_value(text_bits(bits_text(b.bits()))) == b.value(),
            Bits::of(bits_value(b.bits()), b.width()) == b,
    {
        lemma_decode_encode(b.value(), b.width());
        lemma_text_roundtrip(b.bits());
        Self::lemma_of(b.value(), b.width());
    }

    /// A zero of width `len`.
    pub fn new(len: u8) -> (b: Self)
        ensures
            b.width() == len,
            b.value() == 0,
            b.wf(),
    {
        proof {
            lemma_pow2_pos(len as nat);
        }
        Self { length: len, value: 0 }
    }

    /// The field of width `len` that holds `data`, or `LengthError` when the
    /// shortest binary numeral for `data` is longer than `len`.
    pub fn from(data: u64, len: u8) -> (r: Result<Self, PaError>)
        ensures
            r is Ok <==> min_bits(data as nat) <= len,
            r matches Ok(b) ==> b.width() == len && b.value() == data && b.wf(),
            r matches Err(e) ==> e.err_type == ErrorType::LengthError,
    {
        let needed = shortest_numeral(data);
        if needed > len {
            Err(PaError::new("data provided is larger than provided length", ErrorType::LengthError))
        } else {
            proof {
                lemma_min_bits_fits(data as nat, len as nat);
            }
            Ok(Self { length: len, value: data })
        }
    }

    /// The field of width `len` that the binary numeral `data` spells.
    ///
    /// `LengthError` when the numeral has more than `len` digits, or spells
    /// a number that 64 bits cannot hold; `ParseError` when a character of it
    /// is neither `'0'` nor `'1'`. The length is looked at first.
    pub fn from_bin(data: &str, len: u8) -> (r: Result<Self, PaError>)
        ensures
            r is Ok <==> data@.len() <= len && is_binary_text(data@) && bits_value(
                text_bits(data@),
            ) <= u64::MAX,
            r matches Ok(b) ==> b.width() == len && b.value() == bits_value(text_bits(data@))
                && b.wf(),
            r matches Err(e) ==> e.err_type == if data@.len() <= len && !is_binary_text(data@) {
                ErrorType::ParseError
            } else {
                ErrorType::LengthError
            },
    {
        let digits = data.unicode_len();
        if digits > len as usize {
            return Err(
                PaError::new("data provided is larger than provided length", ErrorType::LengthError),
            );
        }
        match text_to_bits(data) {
            None => Err(PaError::new("data is not a binary numeral", ErrorType::ParseError)),
            Some(bits) => {
                assert(bits@.subrange(0, bits@.len() as int) =~= bits@);
                match bits_to_value(&bits, 0, bits.len()) {
                    None => Err(PaError::new("Data too large!", ErrorType::LengthError)),
                    Some(value) => {
                        proof {
                            lemma_bits_value_bound(bits@);
                            if digits < len {
                                lemma_pow2_strictly_increases(digits as nat, len as nat);
                            }
                        }
                        Ok(Self { length: len, value })
                    },
                }
            },
        }
    }

    /// The binary numeral of the field: exactly `width` digits, zeros on
    /// the left.
    pub fn to_bits(&self) -> (s: String)
        ensures
            s@ == bits_text(self.bits()),
            s@.len() == self.width(),
    {
        let bits = self.to_bit_vec();
        assert(bits@.subrange(0, bits@.len() as int) =~= bits@);
        bits_to_text(&bits, 0, bits.len())
    }

    /// The field of eight bits that holds `data`.
    pub fn from_u8(data: u8) -> (b: Self)
        ensures
            b.width() == 8,
            b.value() == data,
            b.wf(),
    {
        proof {
            lemma2_to64();
        }
        Self { length: 8, value: data as u64 }
    }

    /// The field of sixteen bits that holds `data`.
    pub fn from_u16(data: u16) -> (b: Self)
        ensures
            b.width() == 16,
            b.value() == data,
            b.wf(),
    {
        proof {
            lemma2_to64();
        }
        Self { length: 16, value: data as u64 }
    }

    /// Always `Ok`: a field that exists holds a value that fits its width.
    pub fn check_error(&self) -> (r: Result<(), PaError>)
        ensures
            r is Ok,
            self.wf(),
    {
        proof {
            use_type_invariant(self);
        }
        Ok(())
    }

    /// The value held.
    pub fn to_value(&self) -> (v: u64)
        ensures
            v == self.value(),
            self.wf(),
    {
        proof {
            use_type_invariant(self);
        }
        self.value
    }

    /// The declared width, in bits.
    pub fn get_width(&self) -> (w: u8)
        ensures
            w == self.width(),
    {
        self.length
    }

    /// The bits of the field, most significant first.
    pub fn to_bit_vec(&self) -> (out: Vec<bool>)
        ensures
            out@ == self.bits(),
            out@.len() == self.width(),
    {
        let width: usize = self.length as usize;
        let mut out: Vec<bool> = Vec::new();
        let mut k: usize = 0;
        while k < width
            invariant
                k <= width,
                out@.len() == k,
            decreases width - k,
        {
            out.push(false);
            k += 1;
        }
        let mut rest: u64 = self.value;
        let mut i: usize = width;
        while i > 0
            invariant
                i <= width,
                width == self.width(),
                out@.len() == width,
                self.bits() == bits_of(rest as nat, i as nat) + out@.subrange(i as int, width as int),
            decreases i,
        {
            let ghost before = out@;
            i -= 1;
            out[i] = rest % 2 == 1;
            proof {
                let hi = bits_of((rest / 2) as nat, i as nat);
                lemma_bits_of_len((rest / 2) as nat, i as nat);
                assert(bits_of(rest as nat, (i + 1) as nat) == hi.push(rest % 2 == 1));
                assert(hi.push(rest % 2 == 1) + before.subrange(i + 1, width as int) =~= hi
                    + out@.subrange(i as int, width as int));
            }
            rest = rest / 2;
        }
        proof {
            assert(bits_of(rest as nat, 0) + out@.subrange(0, width as int) =~= out@);
        }
        out
    }
}

/// The length of the shortest binary numeral for `data`.
fn shortest_numeral(data: u64) -> (n: u8)
    ensures
        n == min_bits(data as nat),
        1 <= n <= 64,
{
    let mut n: u8 = 1;
    let mut rest: u64 = data;
    proof {
        lemma2_to64();
    }
    while rest >= 2
        invariant
            1 <= n <= 64,
            min_bits(data as nat) == (n - 1) + min_bits(rest as nat),
            rest < pow2((65 - n) as nat),
        decreases rest,
    {
        proof {
            lemma_pow2_unfold((65 - n) as nat);
            lemma2_to64();
        }
        rest = rest / 2;
        n += 1;
    }
    n
}

/// The binary numeral for the bits from `start` up to `end`.
pub fn bits_to_text(bits: &Vec<bool>, start: usize, end: usize) -> (s: String)
    requires
        start <= end <= bits@.len(),
    ensures
        s@ == bits_text(bits@.subrange(start as int, end as int)),
{
    let mut s = String::new();
    let mut i: usize = start;
    proof {
        reveal_strlit("0");
        reveal_strlit("1");
    }
    while i < end
        invariant
            start <= i <= end <= bits@.len(),
            s@ == bits_text(bits@.subrange(start as int, i as int)),
            "0"@ == seq!['0'],
            "1"@ == seq!['1'],
        decreases end - i,
    {
        if bits[i] {
            s.append("1");
        } else {
            s.append("0");
        }
        i += 1;
        assert(s@ =~= bits_text(bits@.subrange(start as int, i as int)));
    }
    s
}

/// The bits that the binary numeral `text` spells, or `None` when a
/// character of it is neither `'0'` nor `'1'`.
pub fn text_to_bits(text: &str) -> (r: Option<Vec<bool>>)
    ensures
        r is Some <==> is_binary_text(text@),
        r matches Some(bits) ==> bits@ == text_bits(text@),
{
    let mut out: Vec<bool> = Vec::new();
    for c in it: text.chars()
        invariant
            it.seq() == text@,
            out@.len() == it.index(),
            out@ == text_bits(text@.subrange(0, it.index() as int)),
            is_binary_text(text@.subrange(0, it.index() as int)),
    {
        if c == '1' {
            out.push(true);
        } else if c == '0' {
            out.push(false);
        } else {
            return None;
        }
        assert(out@ =~= text_bits(text@.subrange(0, it.index() + 1)));
    }
    assert(text@.subrange(0, out@.len() as int) =~= text@);
    Some(out)
}

/// The number that the bits from `start` up to `end` spell, or `None` when
/// it is too large for a `u64`.
pub fn bits_to_value(bits: &Vec<bool>, start: usize, end: usize) -> (r: Option<u64>)
    requires
        start <= end <= bits@.len(),
    ensures
        r is Some <==> bits_value(bits@.subrange(start as int, end as int)) <= u64::MAX,
        r matches Some(v) ==> v == bits_value(bits@.subrange(start as int, end as int)),
{
    let ghost whole = bits@.subrange(start as int, end as int);
    let mut acc: u64 = 0;
    let mut i: usize = start;
    while i < end
        invariant
            start <= i <= end <= bits@.len(),
            whole == bits@.subrange(start as int, end as int),
            acc == bits_value(bits@.subrange(start as int, i as int)),
        decreases end - i,
    {
        let bit: u64 = if bits[i] { 1 } else { 0 };
        proof {
            assert(bits@.subrange(start as int, i + 1).drop_last() =~= bits@.subrange(
                start as int,
                i as int,
            ));
            assert(whole.subrange(0, i + 1 - start) =~= bits@.subrange(start as int, i + 1));
            lemma_prefix_value(whole, i + 1 - start);
        }
        if acc > (u64::MAX - bit) / 2 {
            return None;
        }
        acc = 2 * acc + bit;
        i += 1;
    }
    Some(acc)
}

} // verus!
