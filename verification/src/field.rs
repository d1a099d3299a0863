//! Field elements and their fixed-width encoding.
//!
//! An element is kept as the 32 bytes of its integer, least significant byte
//! first. On disk the same bytes stand in the opposite order, most significant
//! first, so decoding and encoding both come down to reversing 32 bytes.
//!
//! Nothing here reduces an integer modulo the field's prime or refuses one that
//! is not below it: whoever writes the files is trusted to write canonical
//! values. [`FieldElement::is_canonical`] tells the two apart for those who
//! want to look. Two elements are equal when their integers are, so an
//! integer and the same integer plus the prime are different elements.

use vstd::prelude::*;

verus! {

/// Number of bytes in the encoding of one field element.
pub const ENCODING_WIDTH: usize = 32;

/// The integer that `bytes` spell, most significant byte first.
pub open spec fn be_value(bytes: Seq<u8>) -> nat
    decreases bytes.len(),
{
    if bytes.len() == 0 {
        0
    } else {
        be_value(bytes.drop_last()) * 256 + bytes.last() as nat
    }
}

/// The encoding of the field's prime, the order of the scalar field of BN254.
pub open spec fn modulus_encoding() -> Seq<u8> {
    seq![
        0x30u8, 0x64u8, 0x4eu8, 0x72u8, 0xe1u8, 0x31u8, 0xa0u8, 0x29u8,
        0xb8u8, 0x50u8, 0x45u8, 0xb6u8, 0x81u8, 0x81u8, 0x58u8, 0x5du8,
        0x28u8, 0x33u8, 0xe8u8, 0x48u8, 0x79u8, 0xb9u8, 0x70u8, 0x91u8,
        0x43u8, 0xe1u8, 0xf5u8, 0x93u8, 0xf0u8, 0x00u8, 0x00u8, 0x01u8,
    ]
}

/// The field's prime.
pub open spec fn modulus() -> nat {
    be_value(modulus_encoding())
}

/// Of two byte strings of one length, the one with the smaller byte at the
/// first place where they differ spells the smaller integer.
pub proof fn lemma_value_order(smaller: Seq<u8>, larger: Seq<u8>, at: int)
    requires
        smaller.len() == larger.len(),
        0 <= at < smaller.len(),
        forall|j: int| 0 <= j < at ==> smaller[j] == larger[j],
        smaller[at] < larger[at],
    ensures
        be_value(smaller) < be_value(larger),
    decreases smaller.len(),
{
    if at == smaller.len() - 1 {
        assert(smaller.drop_last() =~= larger.drop_last());
    } else {
        lemma_value_order(smaller.drop_last(), larger.drop_last(), at);
    }
}

/// Why a field element could not be decoded: at byte `offset` of the stream
/// only `available` bytes were left, fewer than an encoding takes.
#[derive(Clone, Copy, Debug, PartialEq, Eq, Structural)]
pub struct DecodeError {
    pub offset: usize,
    pub available: usize,
}

/// An element of the field, as the integer it was decoded from.
#[derive(Clone, Copy, Debug, Eq)]
pub struct FieldElement {
    bytes: [u8; 32],
}

impl PartialEq for FieldElement {
    fn eq(&self, other: &Self) -> (equal: bool) {
        let mut i: usize = 0;
        while i < 32
            invariant
                i <= 32,
                forall|j: int| 0 <= j < i ==> self.bytes@[j] == other.bytes@[j],
            decreases 32 - i,
        {
            if self.bytes[i] != other.bytes[i] {
                return false;
            }
            i += 1;
        }
        assert(self.bytes =~= other.bytes);
        true
    }
}

impl vstd::std_specs::cmp::PartialEqSpecImpl for FieldElement {
    open spec fn obeys_eq_spec() -> bool {
        true
    }

    open spec fn eq_spec(&self, other: &Self) -> bool {
        *self == *other
    }
}

spec fn array_prefix(bytes: Seq<u8>, filled: nat) -> [u8; 32]
    decreases filled,
{
    if filled == 0 {
        vstd::array::spec_array_fill_for_copy_type::<u8, 32>(0u8)
    } else {
        vstd::array::spec_array_update(
            array_prefix(bytes, (filled - 1) as nat),
            filled - 1,
            bytes[filled - 1],
        )
    }
}

proof fn lemma_array_prefix(bytes: Seq<u8>, filled: nat)
    requires
        filled <= 32,
        bytes.len() == 32,
    ensures
        forall|i: int| 0 <= i < filled ==> array_prefix(bytes, filled)@[i] == bytes[i],
    decreases filled,
{
    if filled > 0 {
        lemma_array_prefix(bytes, (filled - 1) as nat);
    }
}

/// Bytes spell zero exactly when each of them is zero.
pub proof fn lemma_value_zero(bytes: Seq<u8>)
    ensures
        be_value(bytes) == 0 <==> forall|i: int| 0 <= i < bytes.len() ==> bytes[i] == 0,
    decreases bytes.len(),
{
    if bytes.len() > 0 {
        let high = bytes.drop_last();
        lemma_value_zero(high);
        if be_value(bytes) == 0 {
            assert(be_value(high) == 0 && bytes.last() == 0) by (nonlinear_arith)
                requires
                    be_value(high) * 256 + bytes.last() as nat == 0,
            ;
            assert forall|i: int| 0 <= i < bytes.len() implies bytes[i] == 0 by {
                if i < high.len() {
                    assert(high[i] == bytes[i]);
                }
            }
        }
        if forall|i: int| 0 <= i < bytes.len() ==> bytes[i] == 0 {
            assert(forall|i: int| 0 <= i < high.len() ==> high[i] == bytes[i]);
        }
    }
}

/// 256 to the power of `digits`.
pub open spec fn pow256(digits: nat) -> nat
    decreases digits,
{
    if digits == 0 {
        1
    } else {
        256 * pow256((digits - 1) as nat)
    }
}

/// The integer of two byte strings in a row: that of the first, moved up by
/// the length of the second, plus that of the second.
pub proof fn lemma_value_concat(high: Seq<u8>, low: Seq<u8>)
    ensures
        be_value(high + low) == be_value(high) * pow256(low.len()) + be_value(low),
    decreases low.len(),
{
    if low.len() == 0 {
        assert(high + low =~= high);
        assert(be_value(high) * pow256(0) == be_value(high)) by (nonlinear_arith)
            requires
                pow256(0) == 1,
        ;
    } else {
        let shorter = low.drop_last();
        lemma_value_concat(high, shorter);
        assert((high + low).drop_last() =~= high + shorter);
        assert((high + low).last() == low.last());
        assert((be_value(high) * pow256(shorter.len()) + be_value(shorter)) * 256 + low.last()
            == be_value(high) * pow256(low.len()) + be_value(low)) by (nonlinear_arith)
            requires
                pow256(low.len()) == 256 * pow256(shorter.len()),
                be_value(low) == be_value(shorter) * 256 + low.last(),
        ;
    }
}

/// The field's prime in decimal.
pub proof fn lemma_modulus()
    ensures
        modulus() == 21888242871839275222246405745257275088548364400416034343698204186575808495617,
{
    let first = seq![0x30u8, 0x64u8, 0x4eu8, 0x72u8, 0xe1u8, 0x31u8, 0xa0u8, 0x29u8];
    let second = seq![0xb8u8, 0x50u8, 0x45u8, 0xb6u8, 0x81u8, 0x81u8, 0x58u8, 0x5du8];
    let third = seq![0x28u8, 0x33u8, 0xe8u8, 0x48u8, 0x79u8, 0xb9u8, 0x70u8, 0x91u8];
    let fourth = seq![0x43u8, 0xe1u8, 0xf5u8, 0x93u8, 0xf0u8, 0x00u8, 0x00u8, 0x01u8];
    assert(be_value(first) == 0x30644e72e131a029) by {
        reveal_with_fuel(be_value, 9);
    }
    assert(be_value(second) == 0xb85045b68181585d) by {
        reveal_with_fuel(be_value, 9);
    }
    assert(be_value(third) == 0x2833e84879b97091) by {
        reveal_with_fuel(be_value, 9);
    }
    assert(be_value(fourth) == 0x43e1f593f0000001) by {
        reveal_with_fuel(be_value, 9);
    }
    assert(pow256(8) == 0x1_0000_0000_0000_0000) by {
        reveal_with_fuel(pow256, 9);
    }
    assert(modulus_encoding() =~= first + second + third + fourth);
    lemma_value_concat(first, second);
    lemma_value_concat(first + second, third);
    lemma_value_concat(first + second + third, fourth);
}

fn modulus_bytes() -> (out: [u8; 32])
    ensures
        out@ == modulus_encoding(),
{
    let out = [
        0x30u8, 0x64u8, 0x4eu8, 0x72u8, 0xe1u8, 0x31u8, 0xa0u8, 0x29u8,
        0xb8u8, 0x50u8, 0x45u8, 0xb6u8, 0x81u8, 0x81u8, 0x58u8, 0x5du8,
        0x28u8, 0x33u8, 0xe8u8, 0x48u8, 0x79u8, 0xb9u8, 0x70u8, 0x91u8,
        0x43u8, 0xe1u8, 0xf5u8, 0x93u8, 0xf0u8, 0x00u8, 0x00u8, 0x01u8,
    ];
    assert(out@ =~= modulus_encoding());
    out
}

impl FieldElement {
    /// The encoding of the element: 32 bytes, most significant first.
    pub closed spec fn encoding(self) -> Seq<u8> {
        self.bytes@.reverse()
    }

    /// The element whose encoding is `bytes`; meaningful for 32 bytes.
    pub closed spec fn from_encoding(bytes: Seq<u8>) -> FieldElement {
        FieldElement { bytes: array_prefix(bytes.reverse(), 32) }
    }

    /// The integer that the element stands for.
    pub open spec fn value(self) -> nat {
        be_value(self.encoding())
    }

    /// An encoding has 32 bytes.
    pub proof fn lemma_encoding_width(self)
        ensures
            self.encoding().len() == 32,
    {
    }

    /// Two elements with the same encoding are the same element.
    pub proof fn lemma_encoding_injective(self, other: FieldElement)
        requires
            self.encoding() == other.encoding(),
        ensures
            self == other,
    {
        assert forall|i: int| 0 <= i < 32 implies self.bytes[i] == other.bytes[i] by {
            assert(self.bytes@[i] == self.encoding()[31 - i]);
            assert(other.bytes@[i] == other.encoding()[31 - i]);
        }
        assert(self.bytes =~= other.bytes);
    }

    /// Any 32 bytes are the encoding of the element they decode to.
    pub proof fn lemma_encoding_of_decoded(bytes: Seq<u8>)
        requires
            bytes.len() == 32,
        ensures
            Self::from_encoding(bytes).encoding() == bytes,
    {
        let mirrored = bytes.reverse();
        lemma_array_prefix(mirrored, 32);
        let stored = array_prefix(mirrored, 32)@;
        assert(stored.len() == 32);
        assert forall|i: int| 0 <= i < 32 implies stored.reverse()[i] == bytes[i] by {
            assert(stored[31 - i] == mirrored[31 - i]);
        }
        assert(stored.reverse() =~= bytes);
    }

    /// The additive identity, for use in specifications.
    pub open spec fn zero_element() -> FieldElement {
        Self::from_encoding(Seq::new(32, |i: int| 0u8))
    }

    /// The additive identity is the one element whose integer is zero.
    pub proof fn lemma_zero_element(self)
        ensures
            Self::zero_element().value() == 0,
            self.value() == 0 <==> self == Self::zero_element(),
    {
        let nothing = Seq::new(32, |i: int| 0u8);
        Self::lemma_encoding_of_decoded(nothing);
        lemma_value_zero(nothing);
        lemma_value_zero(self.encoding());
        if self.value() == 0 {
            assert(self.encoding() =~= nothing);
            self.lemma_encoding_injective(Self::zero_element());
        }
    }

    /// The additive identity.
    #[verifier::when_used_as_spec(zero_element)]
    pub fn zero() -> (out: FieldElement)
        ensures
            out == Self::zero_element(),
            out.value() == 0,
    {
        let out = FieldElement { bytes: [0u8; 32] };
        proof {
            assert(out.encoding() =~= Seq::new(32, |i: int| 0u8));
            lemma_value_zero(out.encoding());
            out.lemma_zero_element();
        }
        out
    }

    /// The multiplicative identity, for use in specifications.
    pub open spec fn one_element() -> FieldElement {
        Self::from_encoding(Seq::new(32, |i: int| if i == 31 { 1u8 } else { 0u8 }))
    }

    /// The integer of the multiplicative identity is one.
    pub proof fn lemma_one_element()
        ensures
            Self::one_element().value() == 1,
    {
        let encoded = Seq::new(32, |i: int| if i == 31 { 1u8 } else { 0u8 });
        Self::lemma_encoding_of_decoded(encoded);
        let high = encoded.drop_last();
        assert(forall|i: int| 0 <= i < high.len() ==> high[i] == 0);
        lemma_value_zero(high);
    }

    /// The multiplicative identity.
    #[verifier::when_used_as_spec(one_element)]
    pub fn one() -> (out: FieldElement)
        ensures
            out == Self::one_element(),
            out.value() == 1,
    {
        let mut bytes = [0u8; 32];
        bytes[0] = 1;
        let out = FieldElement { bytes };
        proof {
            Self::lemma_one_element();
            assert(out.encoding() =~= Self::one_element().encoding()) by {
                Self::lemma_encoding_of_decoded(
                    Seq::new(32, |i: int| if i == 31 { 1u8 } else { 0u8 }),
                );
            }
            out.lemma_encoding_injective(Self::one_element());
        }
        out
    }

    /// The element of a small integer.
    pub fn from_u64(n: u64) -> (out: FieldElement)
        ensures
            out.value() == n,
    {
        let mut bytes = [0u8; 32];
        let mut rest = n;
        let mut i: usize = 0;
        let ghost mut spelled: Seq<u8> = Seq::empty();
        proof {
            assert(rest * pow256(0) == rest) by (nonlinear_arith)
                requires
                    pow256(0) == 1,
            ;
        }
        while i < 8
            invariant
                i <= 8,
                spelled.len() == i,
                forall|j: int| 0 <= j < i ==> bytes@[j] == spelled[i - 1 - j],
                forall|j: int| i <= j < 32 ==> bytes@[j] == 0,
                n == be_value(spelled) + rest * pow256(i as nat),
            decreases 8 - i,
        {
            let byte = (rest % 256) as u8;
            proof {
                lemma_value_concat(seq![byte], spelled);
                assert(be_value(seq![byte]) == byte) by {
                    reveal_with_fuel(be_value, 2);
                }
                assert(rest * pow256(i as nat) == (rest / 256) * pow256((i + 1) as nat) + byte
                    * pow256(i as nat)) by (nonlinear_arith)
                    requires
                        rest == (rest / 256) * 256 + byte,
                        pow256((i + 1) as nat) == 256 * pow256(i as nat),
                ;
                spelled = seq![byte] + spelled;
            }
            bytes[i] = byte;
            rest = rest / 256;
            i += 1;
        }
        let out = FieldElement { bytes };
        proof {
            assert(pow256(8) == 0x1_0000_0000_0000_0000) by {
                reveal_with_fuel(pow256, 9);
            }
            assert(rest == 0) by (nonlinear_arith)
                requires
                    n == be_value(spelled) + rest * 0x1_0000_0000_0000_0000,
                    n < 0x1_0000_0000_0000_0000,
                    rest >= 0,
            ;
            let zeros = Seq::new(24, |j: int| 0u8);
            assert(out.encoding() =~= zeros + spelled);
            lemma_value_zero(zeros);
            lemma_value_concat(zeros, spelled);
            assert(be_value(zeros) * pow256(8) == 0) by (nonlinear_arith)
                requires
                    be_value(zeros) == 0,
            ;
        }
        out
    }

    /// Whether the integer of the element is below the field's prime.
    pub open spec fn canonical(&self) -> bool {
        self.value() < modulus()
    }

    /// Tells whether the integer of the element is below the field's prime.
    #[verifier::when_used_as_spec(canonical)]
    pub fn is_canonical(&self) -> (canonical: bool)
        ensures
            canonical == self.canonical(),
    {
        let prime = modulus_bytes();
        let mut i: usize = 0;
        while i < 32
            invariant
                i <= 32,
                prime@ == modulus_encoding(),
                forall|j: int| 0 <= j < i ==> self.encoding()[j] == prime@[j],
            decreases 32 - i,
        {
            let byte = self.bytes[31 - i];
            assert(byte == self.encoding()[i as int]);
            if byte < prime[i] {
                proof {
                    lemma_value_order(self.encoding(), prime@, i as int);
                }
                return true;
            }
            if byte > prime[i] {
                proof {
                    lemma_value_order(prime@, self.encoding(), i as int);
                }
                return false;
            }
            i += 1;
        }
        assert(self.encoding() =~= prime@);
        false
    }

    /// Tells whether the element is the additive identity.
    pub fn is_zero(&self) -> (zero: bool)
        ensures
            zero == (self.value() == 0),
    {
        let mut i: usize = 0;
        while i < 32
            invariant
                i <= 32,
                forall|j: int| 0 <= j < i ==> self.bytes@[j] == 0,
            decreases 32 - i,
        {
            if self.bytes[i] != 0 {
                proof {
                    assert(self.encoding()[31 - i] != 0);
                    lemma_value_zero(self.encoding());
                }
                return false;
            }
            i += 1;
        }
        proof {
            assert(forall|j: int| 0 <= j < 32 ==> self.encoding()[j] == self.bytes@[31 - j]);
            lemma_value_zero(self.encoding());
        }
        true
    }

    /// Writes the element out as its 32 bytes, most significant first.
    pub fn encode(&self) -> (out: [u8; 32])
        ensures
            out@ == self.encoding(),
    {
        let mut out = [0u8; 32];
        let mut i: usize = 0;
        while i < 32
            invariant
                i <= 32,
                forall|j: int| 0 <= j < i ==> out@[j] == self.bytes@[31 - j],
            decreases 32 - i,
        {
            out[i] = self.bytes[31 - i];
            i += 1;
        }
        assert(out@ =~= self.encoding());
        out
    }

    /// Reads an element from its 32 bytes, most significant first.
    pub fn decode(encoded: &[u8; 32]) -> (out: FieldElement)
        ensures
            out == Self::from_encoding(encoded@),
            out.encoding() == encoded@,
    {
        let mut bytes = [0u8; 32];
        let mut i: usize = 0;
        while i < 32
            invariant
                i <= 32,
                forall|j: int| 0 <= j < i ==> bytes@[j] == encoded@[31 - j],
            decreases 32 - i,
        {
            bytes[i] = encoded[31 - i];
            i += 1;
        }
        let out = FieldElement { bytes };
        proof {
            assert(out.encoding() =~= encoded@);
            Self::lemma_encoding_of_decoded(encoded@);
            out.lemma_encoding_injective(Self::from_encoding(encoded@));
        }
        out
    }

    /// Decoding the encoding of an element gives the element back.
    pub proof fn lemma_decoded_of_encoding(self)
        ensures
            Self::from_encoding(self.encoding()) == self,
    {
        Self::lemma_encoding_of_decoded(self.encoding());
        Self::from_encoding(self.encoding()).lemma_encoding_injective(self);
    }
}

/// What decoding makes of the bytes that a stream has left: the element that
/// the first 32 of them encode, or nothing if they are fewer.
pub open spec fn decoded(remaining: Seq<u8>) -> Option<FieldElement> {
    if remaining.len() < 32 {
        None
    } else {
        Some(FieldElement::from_encoding(remaining.take(32)))
    }
}

/// A position in a stream of bytes that are held in memory.
pub struct ByteCursor<'a> {
    stream: &'a [u8],
    position: usize,
}

impl<'a> ByteCursor<'a> {
    #[verifier::type_invariant]
    spec fn within_stream(self) -> bool {
        self.position <= self.stream@.len()
    }

    /// All bytes of the stream, read or not.
    pub closed spec fn stream(self) -> Seq<u8> {
        self.stream@
    }

    /// Number of bytes read so far.
    pub closed spec fn consumed(self) -> nat {
        self.position as nat
    }

    /// The bytes not read yet.
    pub open spec fn remaining(self) -> Seq<u8> {
        self.stream().skip(self.consumed() as int)
    }

    /// A cursor at the start of `stream`.
    pub fn new(stream: &'a [u8]) -> (cursor: Self)
        ensures
            cursor.stream() == stream@,
            cursor.consumed() == 0,
    {
        ByteCursor { stream, position: 0 }
    }

    /// Number of bytes not read yet.
    pub fn available(&self) -> (n: usize)
        ensures
            n == self.remaining().len(),
            n == self.stream().len() - self.consumed(),
    {
        proof {
            use_type_invariant(self);
        }
        self.stream.len() - self.position
    }

    /// Number of bytes read so far.
    pub fn offset(&self) -> (n: usize)
        ensures
            n == self.consumed(),
    {
        self.position
    }

    /// Decodes the next field element and moves past its 32 bytes. With fewer
    /// than 32 bytes left nothing is read and the shortage is reported.
    pub fn read_field(&mut self) -> (result: Result<FieldElement, DecodeError>)
        ensures
            final(self).stream() == old(self).stream(),
            old(self).consumed() + old(self).remaining().len() == old(self).stream().len(),
            match result {
                Ok(element) => {
                    &&& decoded(old(self).remaining()) == Some(element)
                    &&& final(self).consumed() == old(self).consumed() + 32
                },
                Err(error) => {
                    &&& decoded(old(self).remaining()) is None
                    &&& final(self).consumed() == old(self).consumed()
                    &&& error.offset == old(self).consumed()
                    &&& error.available == old(self).remaining().len()
                },
            },
    {
        proof {
            use_type_invariant(&*self);
        }
        let available = self.stream.len() - self.position;
        if available < ENCODING_WIDTH {
            return Err(DecodeError { offset: self.position, available });
        }
        let start = self.position;
        let mut encoded = [0u8; 32];
        let mut i: usize = 0;
        while i < 32
            invariant
                i <= 32,
                start + 32 <= self.stream@.len() <= usize::MAX,
                forall|j: int| 0 <= j < i ==> encoded@[j] == self.stream@[start + j],
            decreases 32 - i,
        {
            encoded[i] = self.stream[start + i];
            i += 1;
        }
        assert(encoded@ =~= self.stream@.skip(start as int).take(32));
        self.position = start + ENCODING_WIDTH;
        Ok(FieldElement::decode(&encoded))
    }
}

} // verus!
