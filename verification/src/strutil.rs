//! Byte-level text utilities: ASCII sequences, decimal rendering of integers,
//! and strict decimal parsing. The token wire format is framed over bytes and
//! proved against the spec functions here.
use vstd::prelude::*;

verus! {

/// Every byte is in the ASCII range.
pub open spec fn ascii_seq(b: Seq<u8>) -> bool {
    forall|i: int| 0 <= i < b.len() ==> b[i] < 128
}

/// The character sequence a byte sequence denotes, byte for byte.
pub open spec fn ascii_chars(b: Seq<u8>) -> Seq<char> {
    Seq::new(b.len(), |i: int| b[i] as char)
}

/// Turns ASCII bytes into a `String`.
///
/// Relies on `String::from_utf8`: ASCII bytes are valid UTF-8, and decoding
/// them yields exactly one character per byte, each the byte's code point.
#[verifier::external_body]
pub(crate) fn ascii_to_string(v: Vec<u8>) -> (r: String)
    requires
        ascii_seq(v@),
    ensures
        r@ == ascii_chars(v@),
{
    String::from_utf8(v).unwrap()
}

pub(crate) open spec fn is_dec_digit(b: u8) -> bool {
    48 <= b <= 57
}

/// The decimal digits of `n`, most significant first, no leading zeros.
pub open spec fn dec_digits(n: nat) -> Seq<u8>
    decreases n,
{
    if n < 10 {
        seq![(48 + n) as u8]
    } else {
        dec_digits(n / 10).push((48 + n % 10) as u8)
    }
}

/// The decimal digits of a signed value: a minus sign, then the magnitude.
pub open spec fn i64_dec_digits(n: int) -> Seq<u8> {
    if n < 0 {
        seq![45u8] + dec_digits((-n) as nat)
    } else {
        dec_digits(n as nat)
    }
}

/// The value of a digit string read left to right.
pub(crate) open spec fn digits_val(s: Seq<u8>) -> int
    decreases s.len(),
{
    if s.len() == 0 {
        0
    } else {
        digits_val(s.drop_last()) * 10 + (s.last() - 48)
    }
}

pub(crate) open spec fn pow10(k: nat) -> nat
    decreases k,
{
    if k == 0 {
        1
    } else {
        10 * pow10((k - 1) as nat)
    }
}

/// The index of the first non-digit byte at or after `i`.
pub(crate) open spec fn digit_run_end(s: Seq<u8>, i: int) -> int
    decreases s.len() - i,
{
    if i < 0 || i >= s.len() {
        i
    } else if !is_dec_digit(s[i]) {
        i
    } else {
        digit_run_end(s, i + 1)
    }
}

pub(crate) proof fn lemma_dec_digits_val(n: nat)
    ensures
        digits_val(dec_digits(n)) == n,
    decreases n,
{
    if n < 10 {
        let d = dec_digits(n);
        assert(d == seq![(48 + n) as u8]);
        assert(d.drop_last() =~= Seq::<u8>::empty());
        assert(digits_val(d.drop_last()) == 0);
        assert(d.last() == (48 + n) as u8);
        assert(digits_val(d) == d.last() - 48);
    } else {
        lemma_dec_digits_val(n / 10);
        let d = dec_digits(n);
        assert(d == dec_digits(n / 10).push((48 + n % 10) as u8));
        assert(d.drop_last() =~= dec_digits(n / 10));
        assert(d.last() == (48 + n % 10) as u8);
        assert(digits_val(d) == (n / 10) * 10 + n % 10);
    }
}

pub(crate) proof fn lemma_dec_digits_shape(n: nat)
    ensures
        dec_digits(n).len() >= 1,
        forall|i: int| 0 <= i < dec_digits(n).len() ==> is_dec_digit(#[trigger] dec_digits(n)[i]),
    decreases n,
{
    if n >= 10 {
        lemma_dec_digits_shape(n / 10);
    }
}

pub(crate) proof fn lemma_dec_digits_len(n: nat, k: nat)
    requires
        k >= 1,
        n < pow10(k),
    ensures
        dec_digits(n).len() <= k,
    decreases n,
{
    if n >= 10 {
        assert(pow10(k) == 10 * pow10((k - 1) as nat));
        lemma_dec_digits_len(n / 10, (k - 1) as nat);
    }
}

pub(crate) proof fn lemma_digit_run(s: Seq<u8>, i: int, j: int)
    requires
        0 <= i <= j <= s.len(),
        forall|k: int| i <= k < j ==> is_dec_digit(#[trigger] s[k]),
        j == s.len() || !is_dec_digit(s[j]),
    ensures
        digit_run_end(s, i) == j,
    decreases j - i,
{
    if i < j {
        lemma_digit_run(s, i + 1, j);
    }
}

/// Renders `n` in decimal, matching `dec_digits`.
pub(crate) fn u64_to_dec(n: u64) -> (r: Vec<u8>)
    ensures
        r@ == dec_digits(n as nat),
    decreases n,
{
    if n < 10 {
        let r: Vec<u8> = vec![48 + (n as u8)];
        r
    } else {
        let mut r = u64_to_dec(n / 10);
        r.push(48 + ((n % 10) as u8));
        r
    }
}

/// Renders a signed value in decimal, matching `i64_dec_digits`.
pub(crate) fn i64_to_dec(n: i64) -> (r: Vec<u8>)
    ensures
        r@ == i64_dec_digits(n as int),
{
    if n >= 0 {
        u64_to_dec(n as u64)
    } else {
        let m: u64 = if n == i64::MIN {
            9223372036854775808u64
        } else {
            (-n) as u64
        };
        let mut r: Vec<u8> = vec![45u8];
        let mut digits = u64_to_dec(m);
        r.append(&mut digits);
        proof {
            assert(r@ =~= seq![45u8] + dec_digits(m as nat));
        }
        r
    }
}

/// True iff `pat` occurs in `s` starting at `at`.
pub(crate) fn starts_with(s: &Vec<u8>, at: usize, pat: &Vec<u8>) -> (r: bool)
    requires
        at <= s@.len(),
    ensures
        r == (at + pat@.len() <= s@.len() && s@.subrange(at as int, at as int + pat@.len())
            =~= pat@),
{
    let slen: usize = s.len();
    if pat.len() > slen - at {
        return false;
    }
    let mut i: usize = 0;
    while i < pat.len()
        invariant
            0 <= i <= pat@.len(),
            slen == s@.len(),
            at + pat@.len() <= s@.len(),
            forall|k: int| 0 <= k < i ==> s@[at + k] == pat@[k],
        decreases pat@.len() - i,
    {
        assert(at + i < slen);
        if s[at + i] != pat[i] {
            assert(s@.subrange(at as int, at as int + pat@.len())[i as int] != pat@[i as int]);
            return false;
        }
        i += 1;
    }
    proof {
        assert(s@.subrange(at as int, at as int + pat@.len()) =~= pat@);
    }
    true
}

/// Reads the maximal digit run starting at `start` as a decimal number.
///
/// Returns the value and the index just past the run; `None` if the run is
/// empty or its value does not fit in a `u64`.
#[verifier::rlimit(50)]
pub(crate) fn parse_u64_run(s: &Vec<u8>, start: usize) -> (r: Option<(u64, usize)>)
    requires
        start <= s@.len(),
    ensures
        r matches Some(p) ==> {
            &&& start < p.1 <= s@.len()
            &&& p.1 == digit_run_end(s@, start as int)
            &&& forall|k: int| start <= k < p.1 ==> is_dec_digit(#[trigger] s@[k])
            &&& digits_val(s@.subrange(start as int, p.1 as int)) == p.0
        },
        forall|n: u64|
            s@.subrange(start as int, digit_run_end(s@, start as int)) == dec_digits(n as nat)
                ==> r == Some((n, digit_run_end(s@, start as int) as usize)),
{
    let len = s.len();
    let mut end: usize = start;
    while end < len && s[end] >= 48 && s[end] <= 57
        invariant
            start <= end <= len,
            len == s@.len(),
            forall|k: int| start <= k < end ==> is_dec_digit(#[trigger] s@[k]),
        decreases len - end,
    {
        end += 1;
    }
    proof {
        lemma_digit_run(s@, start as int, end as int);
    }
    let ghost run = s@.subrange(start as int, end as int);
    if end == start {
        proof {
            lemma_no_match_when_empty(s@, start as int);
        }
        return None;
    }
    if end - start > 20 {
        proof {
            lemma_no_match_when_long(s@, start as int, end as int);
        }
        return None;
    }
    let mut acc: u128 = 0;
    let mut i: usize = start;
    while i < end
        invariant
            start <= i <= end <= len,
            len == s@.len(),
            end - start <= 20,
            forall|k: int| start <= k < end ==> is_dec_digit(#[trigger] s@[k]),
            acc == digits_val(s@.subrange(start as int, i as int)),
            0 <= acc < pow10((i - start) as nat),
        decreases end - i,
    {
        proof {
            assert(s@.subrange(start as int, i as int + 1).drop_last() =~= s@.subrange(
                start as int,
                i as int,
            ));
            lemma_pow10_le(((i - start) + 1) as nat, 21nat);
            reveal_with_fuel(pow10, 22);
            assert(pow10(21) == 1000_0000_0000_0000_0000_00);
        }
        acc = acc * 10 + ((s[i] - 48) as u128);
        i += 1;
    }
    proof {
        assert(s@.subrange(start as int, end as int) =~= run);
    }
    if acc > 0xFFFF_FFFF_FFFF_FFFFu128 {
        proof {
            lemma_no_match_when_big(s@, start as int, end as int, acc as int);
        }
        return None;
    }
    let v = acc as u64;
    proof {
        lemma_run_value_unique(s@, start as int, end as int, v);
    }
    Some((v, end))
}

proof fn lemma_pow10_le(a: nat, b: nat)
    requires
        a <= b,
    ensures
        pow10(a) <= pow10(b),
    decreases b,
{
    if a < b && b > 0 {
        lemma_pow10_le(a, (b - 1) as nat);
        assert(pow10(b) == 10 * pow10((b - 1) as nat));
    }
}

proof fn lemma_no_match_when_empty(s: Seq<u8>, start: int)
    requires
        0 <= start <= s.len(),
        digit_run_end(s, start) == start,
    ensures
        forall|n: u64| s.subrange(start, digit_run_end(s, start)) != dec_digits(n as nat),
{
    assert forall|n: u64| s.subrange(start, digit_run_end(s, start)) != dec_digits(n as nat) by {
        lemma_dec_digits_shape(n as nat);
        assert(s.subrange(start, start).len() == 0);
    }
}

proof fn lemma_no_match_when_long(s: Seq<u8>, start: int, end: int)
    requires
        0 <= start <= end <= s.len(),
        digit_run_end(s, start) == end,
        end - start > 20,
    ensures
        forall|n: u64| s.subrange(start, digit_run_end(s, start)) != dec_digits(n as nat),
{
    assert forall|n: u64| s.subrange(start, digit_run_end(s, start)) != dec_digits(n as nat) by {
        reveal_with_fuel(pow10, 21);
        assert(pow10(20) == 1000_0000_0000_0000_0000_0);
        lemma_dec_digits_len(n as nat, 20nat);
    }
}

proof fn lemma_no_match_when_big(s: Seq<u8>, start: int, end: int, val: int)
    requires
        0 <= start <= end <= s.len(),
        digit_run_end(s, start) == end,
        digits_val(s.subrange(start, end)) == val,
        val > 0xFFFF_FFFF_FFFF_FFFF,
    ensures
        forall|n: u64| s.subrange(start, digit_run_end(s, start)) != dec_digits(n as nat),
{
    assert forall|n: u64| s.subrange(start, digit_run_end(s, start)) != dec_digits(n as nat) by {
        if s.subrange(start, end) == dec_digits(n as nat) {
            lemma_dec_digits_val(n as nat);
        }
    }
}

proof fn lemma_run_value_unique(s: Seq<u8>, start: int, end: int, v: u64)
    requires
        0 <= start <= end <= s.len(),
        digit_run_end(s, start) == end,
        forall|k: int| start <= k < end ==> is_dec_digit(#[trigger] s[k]),
        digits_val(s.subrange(start, end)) == v,
        end > start,
    ensures
        forall|n: u64|
            s.subrange(start, digit_run_end(s, start)) == dec_digits(n as nat) ==> n == v,
{
    assert forall|n: u64|
        s.subrange(start, digit_run_end(s, start)) == dec_digits(n as nat) implies n == v by {
        lemma_dec_digits_val(n as nat);
    }
}

} // verus!
verus! {

/// True iff the two byte vectors hold the same bytes.
pub(crate) fn bytes_eq(a: &Vec<u8>, b: &Vec<u8>) -> (r: bool)
    ensures
        r == (a@ == b@),
{
    if a.len() != b.len() {
        assert(a@ != b@);
        return false;
    }
    let mut i: usize = 0;
    while i < a.len()
        invariant
            0 <= i <= a@.len(),
            a@.len() == b@.len(),
            forall|k: int| 0 <= k < i ==> a@[k] == b@[k],
        decreases a@.len() - i,
    {
        if a[i] != b[i] {
            return false;
        }
        i += 1;
    }
    proof {
        assert(a@ =~= b@);
    }
    true
}

/// The bytes of `s` from `a` (inclusive) to `b` (exclusive), as a fresh vector.
pub(crate) fn subvec(s: &Vec<u8>, a: usize, b: usize) -> (r: Vec<u8>)
    requires
        a <= b <= s@.len(),
    ensures
        r@ == s@.subrange(a as int, b as int),
{
    let mut r: Vec<u8> = Vec::new();
    let mut i: usize = a;
    while i < b
        invariant
            a <= i <= b <= s@.len(),
            r@ =~= s@.subrange(a as int, i as int),
        decreases b - i,
    {
        r.push(s[i]);
        proof {
            assert(r@ =~= s@.subrange(a as int, i + 1));
        }
        i += 1;
    }
    proof {
        assert(r@ =~= s@.subrange(a as int, b as int));
    }
    r
}

} // verus!
verus! {

/// ASCII bytes and ASCII characters are two views of the same text: mapping
/// bytes to characters and back loses nothing.
pub(crate) proof fn lemma_ascii_chars_inverse(b: Seq<u8>)
    requires
        ascii_seq(b),
    ensures
        vstd::utf8::is_ascii_chars(ascii_chars(b)),
        forall|i: int| 0 <= i < b.len() ==> (#[trigger] ascii_chars(b)[i]) as u8 == b[i],
{
    assert forall|i: int| 0 <= i < b.len() implies '\0' <= #[trigger] ascii_chars(b)[i]
        <= '\u{7f}' && (ascii_chars(b)[i]) as u8 == b[i] by {
        let c = b[i] as char;
        vstd::utf8::char_u32_cast(c, c as u32);
        assert(c as u32 == b[i]);
    }
}

/// An ASCII character sequence equals the character view of its byte form.
pub(crate) proof fn lemma_chars_ascii_inverse(s: Seq<char>)
    requires
        vstd::utf8::is_ascii_chars(s),
    ensures
        ascii_seq(Seq::new(s.len(), |i: int| s[i] as u8)),
        ascii_chars(Seq::new(s.len(), |i: int| s[i] as u8)) =~= s,
{
    let b = Seq::new(s.len(), |i: int| s[i] as u8);
    assert forall|i: int| 0 <= i < s.len() implies b[i] < 128 && ascii_chars(b)[i] == s[i] by {
        let c = s[i];
        vstd::utf8::char_is_scalar(c);
        vstd::utf8::char_u32_cast(c, c as u32);
        assert(c as u32 <= 0x7f);
        assert(c as u8 == c as u32);
        assert((c as u8) as char == c);
    }
}

} // verus!
verus! {

/// The lowercase hex digit, as a byte, of a value below sixteen.
pub open spec fn hex_byte_lower(v: u8) -> u8 {
    if v < 10 {
        (48 + v) as u8
    } else {
        (87 + v) as u8
    }
}

/// How one byte stands inside a JSON string: quote and backslash escaped,
/// control bytes as a four-digit escape, everything else as itself.
pub open spec fn json_escape_byte(x: u8) -> Seq<u8> {
    if x == 34 {
        seq![92u8, 34]
    } else if x == 92 {
        seq![92u8, 92]
    } else if x < 32 {
        seq![92u8, 117, 48, 48, hex_byte_lower(x / 16), hex_byte_lower(x % 16)]
    } else {
        seq![x]
    }
}

/// A byte string escaped for the inside of a JSON string literal. Bytes of
/// multi-byte characters pass through unchanged: escaping only ever touches
/// ASCII bytes, so it is safe on UTF-8 text.
pub open spec fn json_escape(b: Seq<u8>) -> Seq<u8>
    decreases b.len(),
{
    if b.len() == 0 {
        Seq::empty()
    } else {
        json_escape(b.drop_last()) + json_escape_byte(b.last())
    }
}

/// Escapes a byte string for the inside of a JSON string literal.
pub fn json_escape_bytes(b: &Vec<u8>) -> (r: Vec<u8>)
    ensures
        r@ == json_escape(b@),
{
    let mut r: Vec<u8> = Vec::new();
    let mut i: usize = 0;
    let len = b.len();
    while i < len
        invariant
            0 <= i <= len,
            len == b@.len(),
            r@ == json_escape(b@.subrange(0, i as int)),
        decreases len - i,
    {
        proof {
            assert(b@.subrange(0, i + 1).drop_last() =~= b@.subrange(0, i as int));
            assert(b@.subrange(0, i + 1).last() == b@[i as int]);
        }
        let x = b[i];
        if x == 34 {
            r.push(92);
            r.push(34);
        } else if x == 92 {
            r.push(92);
            r.push(92);
        } else if x < 32 {
            r.push(92);
            r.push(117);
            r.push(48);
            r.push(48);
            r.push(hex_byte_exec(x / 16));
            r.push(hex_byte_exec(x % 16));
        } else {
            r.push(x);
        }
        proof {
            assert(r@ =~= json_escape(b@.subrange(0, i + 1)));
        }
        i += 1;
    }
    proof {
        assert(b@.subrange(0, len as int) =~= b@);
    }
    r
}

fn hex_byte_exec(v: u8) -> (r: u8)
    requires
        v < 16,
    ensures
        r == hex_byte_lower(v),
{
    if v < 10 {
        48 + v
    } else {
        87 + v
    }
}

} // verus!
