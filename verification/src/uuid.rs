//! Eight-byte identifiers written as sixteen hex digits.
//!
//! A fresh identifier is drawn from a random source; identifiers also convert
//! to and from a signed 64-bit integer, big-endian, for keyed storage.
use vstd::prelude::*;
use crate::strutil::{ascii_seq, ascii_chars, ascii_to_string};

verus! {

/// The length of the textual form: sixteen hex digits.
pub const UUID_HEX_LEN: usize = 16;

#[derive(Debug, Clone, Hash, Eq, PartialEq)]
pub struct UUID(Vec<u8>);

/// Why a textual identifier is rejected.
#[derive(Debug, Clone, Copy, PartialEq, Eq, Structural)]
pub enum UuidError {
    /// Not sixteen characters.
    BadLength,
    /// A character outside the hex digits.
    BadChar,
}

pub open spec fn is_hex_char(c: char) -> bool {
    ('0' <= c <= '9') || ('a' <= c <= 'f') || ('A' <= c <= 'F')
}

/// The value of one hex digit, either case.
pub open spec fn hex_char_val(c: char) -> u8 {
    if '0' <= c <= '9' {
        ((c as u8) - 48) as u8
    } else if 'a' <= c <= 'f' {
        ((c as u8) - 87) as u8
    } else {
        ((c as u8) - 55) as u8
    }
}

/// The lowercase hex digit of a value below sixteen.
pub open spec fn hex_digit_char(v: u8) -> char {
    if v < 10 {
        (48 + v) as char
    } else {
        (87 + v) as char
    }
}

/// Big-endian byte `j` of a 64-bit value.
pub open spec fn byte_of_u64(v: u64, j: int) -> u8 {
    ((v >> (((7 - j) * 8) as u64)) & 0xff) as u8
}

/// The 64-bit value eight big-endian bytes spell.
pub open spec fn u64_of_bytes(b: Seq<u8>) -> u64 {
    ((b[0] as u64) << 56u64) | ((b[1] as u64) << 48u64) | ((b[2] as u64) << 40u64) | ((b[3]
        as u64) << 32u64) | ((b[4] as u64) << 24u64) | ((b[5] as u64) << 16u64) | ((b[6] as u64)
        << 8u64) | (b[7] as u64)
}

/// Relies on nanoid's `format` with its default random source: an id of
/// exactly `len` characters, each drawn from the given alphabet — here the
/// sixteen lowercase hex digits. The characters are random, so nothing more
/// is promised of them.
#[verifier::external_body]
fn nanoid_hex(len: usize) -> (r: String)
    ensures
        r@.len() == len,
        forall|i: int| 0 <= i < r@.len() ==> ('0' <= #[trigger] r@[i] <= '9') || ('a' <= r@[i]
            <= 'f'),
{
    let alphabet: [char; 16] = [
        '0', '1', '2', '3', '4', '5', '6', '7', '8', '9', 'a', 'b', 'c', 'd', 'e', 'f',
    ];
    nanoid::format(nanoid::rngs::default, &alphabet, len)
}

impl UUID {
    /// The identifier's eight bytes.
    pub closed spec fn bytes(&self) -> Seq<u8> {
        self.0@
    }

    pub open spec fn wf(&self) -> bool {
        self.bytes().len() == 8
    }

    /// Reads sixteen hex digits, either case, as an identifier: each byte is
    /// two adjacent digits, high nibble first.
    pub fn from_str(s: &str) -> (r: Result<UUID, UuidError>)
        ensures
            (r is Ok) == (s@.len() == 16 && (forall|i: int|
                0 <= i < s@.len() ==> is_hex_char(#[trigger] s@[i]))),
            r matches Ok(u) ==> {
                &&& u.wf()
                &&& forall|j: int|
                    0 <= j < 8 ==> #[trigger] u.bytes()[j] == hex_char_val(s@[2 * j]) * 16
                        + hex_char_val(s@[2 * j + 1])
            },
            r == Err::<UUID, UuidError>(UuidError::BadLength) <==> s@.len() != 16,
            r == Err::<UUID, UuidError>(UuidError::BadChar) <==> (s@.len() == 16 && exists|i: int|
                0 <= i < s@.len() && !is_hex_char(s@[i])),
    {
        let n = s.unicode_len();
        if n != 16 {
            return Err(UuidError::BadLength);
        }
        let mut bytes: Vec<u8> = Vec::new();
        let mut j: usize = 0;
        while j < 8
            invariant
                0 <= j <= 8,
                s@.len() == 16,
                bytes@.len() == j,
                forall|k: int| 0 <= k < 2 * j ==> is_hex_char(#[trigger] s@[k]),
                forall|k: int|
                    0 <= k < j ==> #[trigger] bytes@[k] == hex_char_val(s@[2 * k]) * 16
                        + hex_char_val(s@[2 * k + 1]),
            decreases 8 - j,
        {
            let hi = match hex_val(s.get_char(2 * j)) {
                Some(v) => v,
                None => {
                    return Err(UuidError::BadChar);
                },
            };
            let lo = match hex_val(s.get_char(2 * j + 1)) {
                Some(v) => v,
                None => {
                    return Err(UuidError::BadChar);
                },
            };
            bytes.push(hi * 16 + lo);
            j += 1;
        }
        Ok(UUID(bytes))
    }

    /// A fresh random identifier.
    pub fn new() -> (r: UUID)
        ensures
            r.wf(),
    {
        let text = nanoid_hex(16);
        match Self::from_str(text.as_str()) {
            Ok(u) => u,
            Err(_) => unreached(),
        }
    }

    /// The sixteen lowercase hex digits of this identifier.
    pub fn to_string(&self) -> (r: String)
        requires
            self.wf(),
        ensures
            r@.len() == 16,
            forall|j: int|
                0 <= j < 8 ==> #[trigger] r@[2 * j] == hex_digit_char(self.bytes()[j] / 16)
                    && r@[2 * j + 1] == hex_digit_char(self.bytes()[j] % 16),
    {
        let mut out: Vec<u8> = Vec::new();
        let mut j: usize = 0;
        while j < 8
            invariant
                0 <= j <= 8,
                self.wf(),
                out@.len() == 2 * j,
                ascii_seq(out@),
                forall|k: int|
                    0 <= k < j ==> #[trigger] out@[2 * k] as char == hex_digit_char(
                        self.bytes()[k] / 16,
                    ) && out@[2 * k + 1] as char == hex_digit_char(self.bytes()[k] % 16),
            decreases 8 - j,
        {
            let b = self.0[j];
            out.push(hex_digit_byte(b / 16));
            out.push(hex_digit_byte(b % 16));
            j += 1;
        }
        let r = ascii_to_string(out);
        proof {
            assert forall|j: int|
                0 <= j < 8 implies #[trigger] r@[2 * j] == hex_digit_char(self.bytes()[j] / 16)
                && r@[2 * j + 1] == hex_digit_char(self.bytes()[j] % 16) by {
                assert(out@[2 * j] as char == hex_digit_char(self.bytes()[j] / 16));
                assert(out@[2 * j + 1] as char == hex_digit_char(self.bytes()[j] % 16));
                assert(r@[2 * j] == ascii_chars(out@)[2 * j]);
                assert(r@[2 * j + 1] == ascii_chars(out@)[2 * j + 1]);
            }
        }
        r
    }

    /// The identifier whose bytes spell `value` big-endian.
    pub fn from_i64(value: i64) -> (r: UUID)
        ensures
            r.wf(),
            forall|j: int| 0 <= j < 8 ==> #[trigger] r.bytes()[j] == byte_of_u64(value as u64, j),
    {
        let v = value as u64;
        let bytes: Vec<u8> = vec![
            ((v >> 56u64) & 0xff) as u8,
            ((v >> 48u64) & 0xff) as u8,
            ((v >> 40u64) & 0xff) as u8,
            ((v >> 32u64) & 0xff) as u8,
            ((v >> 24u64) & 0xff) as u8,
            ((v >> 16u64) & 0xff) as u8,
            ((v >> 8u64) & 0xff) as u8,
            (v & 0xff) as u8,
        ];
        proof {
            assert((v & 0xff) == ((v >> 0u64) & 0xff)) by (bit_vector);
        }
        UUID(bytes)
    }

    /// The 64-bit value this identifier's bytes spell.
    pub fn to_i64(&self) -> (r: i64)
        requires
            self.wf(),
        ensures
            r as u64 == u64_of_bytes(self.bytes()),
    {
        let v: u64 = ((self.0[0] as u64) << 56u64) | ((self.0[1] as u64) << 48u64) | ((self.0[2]
            as u64) << 40u64) | ((self.0[3] as u64) << 32u64) | ((self.0[4] as u64) << 24u64) | ((
        self.0[5] as u64) << 16u64) | ((self.0[6] as u64) << 8u64) | (self.0[7] as u64);
        proof {
            assert(v as i64 as u64 == v) by (bit_vector);
        }
        v as i64
    }
}

/// Packing and unpacking are mutual inverses: an identifier built from a
/// value spells that value back, byte for byte.
pub proof fn lemma_uuid_i64_round_trip(v: u64)
    ensures
        u64_of_bytes(Seq::new(8, |j: int| byte_of_u64(v, j))) == v,
{
    let b = Seq::new(8, |j: int| byte_of_u64(v, j));
    let b0 = b[0];
    let b1 = b[1];
    let b2 = b[2];
    let b3 = b[3];
    let b4 = b[4];
    let b5 = b[5];
    let b6 = b[6];
    let b7 = b[7];
    assert(((b0 as u64) << 56u64) | ((b1 as u64) << 48u64) | ((b2 as u64) << 40u64) | ((b3
        as u64) << 32u64) | ((b4 as u64) << 24u64) | ((b5 as u64) << 16u64) | ((b6 as u64)
        << 8u64) | (b7 as u64) == v) by (bit_vector)
        requires
            b0 == ((v >> 56u64) & 0xff) as u8,
            b1 == ((v >> 48u64) & 0xff) as u8,
            b2 == ((v >> 40u64) & 0xff) as u8,
            b3 == ((v >> 32u64) & 0xff) as u8,
            b4 == ((v >> 24u64) & 0xff) as u8,
            b5 == ((v >> 16u64) & 0xff) as u8,
            b6 == ((v >> 8u64) & 0xff) as u8,
            b7 == ((v >> 0u64) & 0xff) as u8,
    ;
    assert(b[0] == ((v >> 56u64) & 0xff) as u8);
    assert(b[7] == byte_of_u64(v, 7));
    assert(((7 - 7) * 8) as u64 == 0u64);
}

/// Writing a nibble as a hex digit and reading it back loses nothing, so
/// the textual form of an identifier parses back to the identifier.
pub proof fn lemma_hex_digit_round_trip(v: u8)
    requires
        v < 16,
    ensures
        is_hex_char(hex_digit_char(v)),
        hex_char_val(hex_digit_char(v)) == v,
{
}

/// The value of one hex digit character, `None` outside the hex digits.
fn hex_val(c: char) -> (r: Option<u8>)
    ensures
        (r is Some) == is_hex_char(c),
        r matches Some(v) ==> v == hex_char_val(c) && v < 16,
{
    let x = c as u32;
    if x >= 48 && x <= 57 {
        Some((x - 48) as u8)
    } else if x >= 97 && x <= 102 {
        Some((x - 87) as u8)
    } else if x >= 65 && x <= 70 {
        Some((x - 55) as u8)
    } else {
        None
    }
}

/// The lowercase hex digit, as a byte, of a value below sixteen.
fn hex_digit_byte(v: u8) -> (r: u8)
    requires
        v < 16,
    ensures
        r as char == hex_digit_char(v),
        r < 128,
{
    if v < 10 {
        48 + v
    } else {
        87 + v
    }
}

} // verus!
