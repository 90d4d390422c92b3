//! A reversible bit permutation on 32-bit identifiers.
//!
//! Sequential identifiers are cheap to generate and index, but leak ordering
//! and cardinality when exposed. `encode` permutes the bits of an identifier
//! with a fixed table; `decode` applies the inverse table. The permutation is
//! a bijection, so no two identifiers collide; it is not a security boundary.
use vstd::prelude::*;

verus! {

/// The scrambled form of `x`: output bit `i` is input bit `ENCODE_SOURCE[i]`,
/// where `ENCODE_SOURCE` is the fixed permutation written out below.
#[verifier::inline]
pub open spec fn encode_spec(x: u32) -> u32 {
    (((x >> 2u32) & 1) << 0u32) | (((x >> 1u32) & 1) << 1u32) | (((x >> 0u32) & 1) << 2u32)
        | (((x >> 3u32) & 1) << 3u32) | (((x >> 4u32) & 1) << 4u32) | (((x >> 7u32) & 1) << 5u32)
        | (((x >> 5u32) & 1) << 6u32) | (((x >> 6u32) & 1) << 7u32) | (((x >> 10u32) & 1) << 8u32)
        | (((x >> 15u32) & 1) << 9u32) | (((x >> 8u32) & 1) << 10u32) | (((x >> 9u32) & 1) << 11u32)
        | (((x >> 13u32) & 1) << 12u32) | (((x >> 11u32) & 1) << 13u32) | (((x >> 14u32) & 1) << 14u32)
        | (((x >> 12u32) & 1) << 15u32) | (((x >> 16u32) & 1) << 16u32) | (((x >> 19u32) & 1) << 17u32)
        | (((x >> 17u32) & 1) << 18u32) | (((x >> 23u32) & 1) << 19u32) | (((x >> 20u32) & 1) << 20u32)
        | (((x >> 21u32) & 1) << 21u32) | (((x >> 22u32) & 1) << 22u32) | (((x >> 18u32) & 1) << 23u32)
        | (((x >> 24u32) & 1) << 24u32) | (((x >> 25u32) & 1) << 25u32) | (((x >> 26u32) & 1) << 26u32)
        | (((x >> 27u32) & 1) << 27u32) | (((x >> 28u32) & 1) << 28u32) | (((x >> 29u32) & 1) << 29u32)
        | (((x >> 30u32) & 1) << 30u32) | (((x >> 31u32) & 1) << 31u32)
}

/// The inverse permutation: `decode_spec(encode_spec(x)) == x`.
#[verifier::inline]
pub open spec fn decode_spec(x: u32) -> u32 {
    (((x >> 2u32) & 1) << 0u32) | (((x >> 1u32) & 1) << 1u32) | (((x >> 0u32) & 1) << 2u32)
        | (((x >> 3u32) & 1) << 3u32) | (((x >> 4u32) & 1) << 4u32) | (((x >> 6u32) & 1) << 5u32)
        | (((x >> 7u32) & 1) << 6u32) | (((x >> 5u32) & 1) << 7u32) | (((x >> 10u32) & 1) << 8u32)
        | (((x >> 11u32) & 1) << 9u32) | (((x >> 8u32) & 1) << 10u32) | (((x >> 13u32) & 1) << 11u32)
        | (((x >> 15u32) & 1) << 12u32) | (((x >> 12u32) & 1) << 13u32) | (((x >> 14u32) & 1) << 14u32)
        | (((x >> 9u32) & 1) << 15u32) | (((x >> 16u32) & 1) << 16u32) | (((x >> 18u32) & 1) << 17u32)
        | (((x >> 23u32) & 1) << 18u32) | (((x >> 17u32) & 1) << 19u32) | (((x >> 20u32) & 1) << 20u32)
        | (((x >> 21u32) & 1) << 21u32) | (((x >> 22u32) & 1) << 22u32) | (((x >> 19u32) & 1) << 23u32)
        | (((x >> 24u32) & 1) << 24u32) | (((x >> 25u32) & 1) << 25u32) | (((x >> 26u32) & 1) << 26u32)
        | (((x >> 27u32) & 1) << 27u32) | (((x >> 28u32) & 1) << 28u32) | (((x >> 29u32) & 1) << 29u32)
        | (((x >> 30u32) & 1) << 30u32) | (((x >> 31u32) & 1) << 31u32)
}

/// The two permutations are mutual inverses, so the codec is a bijection on
/// all 32-bit values: encoding loses nothing and produces no collisions.
pub proof fn lemma_codec_bijection(x: u32)
    ensures
        decode_spec(encode_spec(x)) == x,
        encode_spec(decode_spec(x)) == x,
{
    assert(decode_spec(encode_spec(x)) == x) by (bit_vector);
    assert(encode_spec(decode_spec(x)) == x) by (bit_vector);
}

/// An identifier whose internal (sequential) value is hidden behind the
/// bit permutation when shown externally.
pub trait GeneralId: Sized {
    type IdType;

    /// The internal, sequential value.
    spec fn id_val(&self) -> Self::IdType;

    /// The external, scrambled value.
    spec fn encoded_val(&self) -> Self::IdType;

    fn from_decoded(val: Self::IdType) -> (r: Self)
        ensures
            r.id_val() == val,
    ;

    fn from_encoded(val: Self::IdType) -> (r: Self)
        ensures
            r.encoded_val() == val,
    ;

    fn decode(&self) -> (r: Self::IdType)
        ensures
            r == self.id_val(),
    ;

    fn encode(&self) -> (r: Self::IdType)
        ensures
            r == self.encoded_val(),
    ;
}

#[derive(Debug, Clone, Eq, PartialEq, Hash, Copy, Structural)]
pub struct Id(pub u32);

impl GeneralId for Id {
    type IdType = u32;

    open spec fn id_val(&self) -> u32 {
        self.0
    }

    open spec fn encoded_val(&self) -> u32 {
        encode_spec(self.0)
    }

    fn from_decoded(val: u32) -> (r: Self)
        ensures
            r.id_val() == val,
    {
        Id(val)
    }

    fn from_encoded(val: u32) -> (r: Self)
        ensures
            r.encoded_val() == val,
    {
        proof {
            lemma_codec_bijection(val);
        }
        Id(decode_exec(val))
    }

    fn decode(&self) -> (r: u32)
        ensures
            r == self.id_val(),
    {
        self.0
    }

    fn encode(&self) -> (r: u32)
        ensures
            r == self.encoded_val(),
    {
        encode_exec(self.0)
    }
}

fn encode_exec(x: u32) -> (r: u32)
    ensures
        r == encode_spec(x),
{
    (((x >> 2u32) & 1) << 0u32) | (((x >> 1u32) & 1) << 1u32) | (((x >> 0u32) & 1) << 2u32)
        | (((x >> 3u32) & 1) << 3u32) | (((x >> 4u32) & 1) << 4u32) | (((x >> 7u32) & 1) << 5u32)
        | (((x >> 5u32) & 1) << 6u32) | (((x >> 6u32) & 1) << 7u32) | (((x >> 10u32) & 1) << 8u32)
        | (((x >> 15u32) & 1) << 9u32) | (((x >> 8u32) & 1) << 10u32) | (((x >> 9u32) & 1) << 11u32)
        | (((x >> 13u32) & 1) << 12u32) | (((x >> 11u32) & 1) << 13u32) | (((x >> 14u32) & 1) << 14u32)
        | (((x >> 12u32) & 1) << 15u32) | (((x >> 16u32) & 1) << 16u32) | (((x >> 19u32) & 1) << 17u32)
        | (((x >> 17u32) & 1) << 18u32) | (((x >> 23u32) & 1) << 19u32) | (((x >> 20u32) & 1) << 20u32)
        | (((x >> 21u32) & 1) << 21u32) | (((x >> 22u32) & 1) << 22u32) | (((x >> 18u32) & 1) << 23u32)
        | (((x >> 24u32) & 1) << 24u32) | (((x >> 25u32) & 1) << 25u32) | (((x >> 26u32) & 1) << 26u32)
        | (((x >> 27u32) & 1) << 27u32) | (((x >> 28u32) & 1) << 28u32) | (((x >> 29u32) & 1) << 29u32)
        | (((x >> 30u32) & 1) << 30u32) | (((x >> 31u32) & 1) << 31u32)
}

fn decode_exec(x: u32) -> (r: u32)
    ensures
        r == decode_spec(x),
{
    (((x >> 2u32) & 1) << 0u32) | (((x >> 1u32) & 1) << 1u32) | (((x >> 0u32) & 1) << 2u32)
        | (((x >> 3u32) & 1) << 3u32) | (((x >> 4u32) & 1) << 4u32) | (((x >> 6u32) & 1) << 5u32)
        | (((x >> 7u32) & 1) << 6u32) | (((x >> 5u32) & 1) << 7u32) | (((x >> 10u32) & 1) << 8u32)
        | (((x >> 11u32) & 1) << 9u32) | (((x >> 8u32) & 1) << 10u32) | (((x >> 13u32) & 1) << 11u32)
        | (((x >> 15u32) & 1) << 12u32) | (((x >> 12u32) & 1) << 13u32) | (((x >> 14u32) & 1) << 14u32)
        | (((x >> 9u32) & 1) << 15u32) | (((x >> 16u32) & 1) << 16u32) | (((x >> 18u32) & 1) << 17u32)
        | (((x >> 23u32) & 1) << 18u32) | (((x >> 17u32) & 1) << 19u32) | (((x >> 20u32) & 1) << 20u32)
        | (((x >> 21u32) & 1) << 21u32) | (((x >> 22u32) & 1) << 22u32) | (((x >> 19u32) & 1) << 23u32)
        | (((x >> 24u32) & 1) << 24u32) | (((x >> 25u32) & 1) << 25u32) | (((x >> 26u32) & 1) << 26u32)
        | (((x >> 27u32) & 1) << 27u32) | (((x >> 28u32) & 1) << 28u32) | (((x >> 29u32) & 1) << 29u32)
        | (((x >> 30u32) & 1) << 30u32) | (((x >> 31u32) & 1) << 31u32)
}

/// The permutation table: entry `i` is the source bit, in the internal value,
/// of output bit `31 - i` of the scrambled value.
pub fn permutation_table() -> (r: Vec<u8>)
    ensures
        r@ == seq![
            31u8, 30, 29, 28, 27, 26, 25, 24,
            18, 22, 21, 20, 23, 17, 19, 16,
            12, 14, 11, 13, 9, 8, 15, 10,
            6, 5, 7, 4, 3, 0, 1, 2,
        ],
{
    let r: Vec<u8> = vec![
        31u8, 30, 29, 28, 27, 26, 25, 24,
        18, 22, 21, 20, 23, 17, 19, 16,
        12, 14, 11, 13, 9, 8, 15, 10,
        6, 5, 7, 4, 3, 0, 1, 2,
    ];
    r
}

/// The inverse table: entry `i` is the source bit, in the scrambled value,
/// of output bit `31 - i` of the internal value.
pub fn inverse_permutation_table() -> (r: Vec<u8>)
    ensures
        r@ == seq![
            31u8, 30, 29, 28, 27, 26, 25, 24,
            19, 22, 21, 20, 17, 23, 18, 16,
            9, 14, 12, 15, 13, 8, 11, 10,
            5, 7, 6, 4, 3, 0, 1, 2,
        ],
{
    let r: Vec<u8> = vec![
        31u8, 30, 29, 28, 27, 26, 25, 24,
        19, 22, 21, 20, 17, 23, 18, 16,
        9, 14, 12, 15, 13, 8, 11, 10,
        5, 7, 6, 4, 3, 0, 1, 2,
    ];
    r
}

pub type UserId = Id;

pub type RoomId = Id;

pub type LoneId = Id;

pub type RoleId = Id;

} // verus!
