//! The token engine: signed, time-bounded bearer tokens.
//!
//! A token has a fixed header, a payload carrying a subject id and an expiry
//! time, and a keyed-hash signature over the base64url encodings of header
//! and payload. Its wire form is three unpadded base64url segments joined by
//! dots. A token is valid iff the recomputed signature equals the stored one
//! and the expiry time has not passed (`now == exp` is still valid).
use vstd::prelude::*;
use base64::Engine;
use crypto::mac::Mac;
use crate::strutil::{
    ascii_seq, ascii_chars, ascii_to_string, dec_digits, i64_dec_digits, u64_to_dec, i64_to_dec,
    bytes_eq, starts_with, subvec, parse_u64_run, is_dec_digit, digit_run_end, digits_val,
    lemma_digit_run, lemma_dec_digits_shape, lemma_dec_digits_val,
};

verus! {

/// The closed error taxonomy of the token engine and the gateway boundary.
#[derive(Debug, Clone, Copy, PartialEq, Eq, Structural)]
pub enum JwtError {
    /// The wire string does not split into three segments, or a segment
    /// fails base64url or JSON decoding.
    MalformedToken,
    /// The recomputed signature differs from the stored one.
    BadSignature,
    /// The token's expiry time lies before the verification instant.
    Expired,
    /// No token was presented at all.
    MissingCredential,
    /// The signing step could not process the payload.
    SigningError,
}

impl JwtError {
    /// The HTTP status the boundary layer answers with: credential errors
    /// are an unauthorized rejection, a signing fault is a server error.
    pub fn http_status(&self) -> (r: u16)
        ensures
            r == 500 <==> *self is SigningError,
            r == 401 <==> !(*self is SigningError),
    {
        match self {
            JwtError::SigningError => 500,
            _ => 401,
        }
    }

    /// The message the boundary answers with: credential errors name the
    /// credential problem, a signing fault only that validation failed.
    pub fn message(&self) -> (r: &'static str)
        ensures
            *self is MalformedToken || *self is BadSignature ==> r@ == "Invalid token"@,
            *self is Expired ==> r@ == "Token expired"@,
            *self is MissingCredential ==> r@ == "Missing token"@,
            *self is SigningError ==> r@ == "Token Validation Error"@,
    {
        match self {
            JwtError::MalformedToken => "Invalid token",
            JwtError::BadSignature => "Invalid token",
            JwtError::Expired => "Token expired",
            JwtError::MissingCredential => "Missing token",
            JwtError::SigningError => "Token Validation Error",
        }
    }
}

#[derive(Debug, Clone, Copy, PartialEq, Eq, Structural)]
pub enum JwtAlg {
    HS256,
}

#[derive(Debug, Clone, Copy, PartialEq, Eq, Structural)]
pub enum JwtTyp {
    JWT,
}

#[derive(Debug, Clone, Copy, PartialEq, Eq, Structural)]
pub struct JwtHeader {
    pub alg: JwtAlg,
    pub typ: JwtTyp,
}

impl Default for JwtHeader {
    fn default() -> (r: Self)
        ensures
            r == (JwtHeader { alg: JwtAlg::HS256, typ: JwtTyp::JWT }),
    {
        JwtHeader { alg: JwtAlg::HS256, typ: JwtTyp::JWT }
    }
}

#[derive(Debug, Clone, Copy, PartialEq, Eq, Structural)]
pub struct JwtPayload {
    pub user_id: u64,
    pub exp_time: i64,
}

impl JwtPayload {
    /// The payload of a token issued at `now` that lives `expire_time_s`
    /// seconds.
    pub fn new_at(user_id: u64, expire_time_s: i64, now: i64) -> (r: Self)
        requires
            i64::MIN <= now + expire_time_s <= i64::MAX,
        ensures
            r == (JwtPayload { user_id, exp_time: (now + expire_time_s) as i64 }),
    {
        JwtPayload { user_id, exp_time: now + expire_time_s }
    }

    /// As `new_at`, but against the wall clock; `None` when the expiry
    /// time would not fit.
    pub fn new(user_id: u64, expire_time_s: i64) -> (r: Option<Self>)
        ensures
            r matches Some(p) ==> p.user_id == user_id,
    {
        let now = unix_now();
        match now.checked_add(expire_time_s) {
            Some(exp) => Some(JwtPayload { user_id, exp_time: exp }),
            None => None,
        }
    }
}

pub type JwtSignature = Vec<u8>;

/// A bearer token: immutable once built, discarded after one verification.
#[derive(Debug)]
pub struct Jwt {
    pub header: JwtHeader,
    pub payload: JwtPayload,
    pub signature: JwtSignature,
}

// ---------------------------------------------------------------------------
// The JSON framing of header and payload, over bytes.
// ---------------------------------------------------------------------------
/// The bytes of `{"alg":"HS256","typ":"JWT"}`.
pub open spec fn header_json() -> Seq<u8> {
    seq![
        123u8, 34, 97, 108, 103, 34, 58, 34, 72, 83, 50, 53, 54, 34, 44, 34, 116, 121, 112, 34,
        58, 34, 74, 87, 84, 34, 125,
    ]
}

/// The bytes of `{"user_id":`.
pub open spec fn payload_prefix() -> Seq<u8> {
    seq![123u8, 34, 117, 115, 101, 114, 95, 105, 100, 34, 58]
}

/// The bytes of `,"exp_time":`.
pub open spec fn payload_mid() -> Seq<u8> {
    seq![44u8, 34, 101, 120, 112, 95, 116, 105, 109, 101, 34, 58]
}

/// The bytes of `{"user_id":<uid>,"exp_time":<exp>}`.
pub open spec fn payload_json_of(uid: u64, exp: i64) -> Seq<u8> {
    payload_prefix() + dec_digits(uid as nat) + payload_mid() + i64_dec_digits(exp as int)
        + seq![125u8]
}

pub(crate) fn header_json_bytes() -> (r: Vec<u8>)
    ensures
        r@ == header_json(),
{
    let r: Vec<u8> = vec![
        123u8, 34, 97, 108, 103, 34, 58, 34, 72, 83, 50, 53, 54, 34, 44, 34, 116, 121, 112, 34,
        58, 34, 74, 87, 84, 34, 125,
    ];
    r
}

pub(crate) fn payload_prefix_bytes() -> (r: Vec<u8>)
    ensures
        r@ == payload_prefix(),
{
    let r: Vec<u8> = vec![123u8, 34, 117, 115, 101, 114, 95, 105, 100, 34, 58];
    r
}

pub(crate) fn payload_mid_bytes() -> (r: Vec<u8>)
    ensures
        r@ == payload_mid(),
{
    let r: Vec<u8> = vec![44u8, 34, 101, 120, 112, 95, 116, 105, 109, 101, 34, 58];
    r
}

pub(crate) fn payload_json_bytes(uid: u64, exp: i64) -> (r: Vec<u8>)
    ensures
        r@ == payload_json_of(uid, exp),
{
    let mut r = payload_prefix_bytes();
    let mut uid_digits = u64_to_dec(uid);
    r.append(&mut uid_digits);
    let mut mid = payload_mid_bytes();
    r.append(&mut mid);
    let mut exp_digits = i64_to_dec(exp);
    r.append(&mut exp_digits);
    r.push(125u8);
    proof {
        assert(r@ =~= payload_json_of(uid, exp));
    }
    r
}

// ---------------------------------------------------------------------------
// Trusted boundary: base64url, the keyed hash, and the wall clock.
// ---------------------------------------------------------------------------
/// The unpadded url-safe base64 text of `b`, as ASCII bytes.
pub uninterp spec fn b64url_of(b: Seq<u8>) -> Seq<u8>;

/// A byte of the url-safe base64 alphabet: `A-Z a-z 0-9 - _`.
pub open spec fn b64url_byte(x: u8) -> bool {
    x == 45 || x == 95 || (48 <= x <= 57) || (65 <= x <= 90) || (97 <= x <= 122)
}

pub open spec fn b64url_seq(b: Seq<u8>) -> bool {
    forall|i: int| 0 <= i < b.len() ==> b64url_byte(#[trigger] b[i])
}

/// Every encoding is over the url-safe alphabet: in particular it holds no
/// dot and no byte outside ASCII.
pub open spec fn b64url_alphabet_fact() -> bool {
    forall|b: Seq<u8>| b64url_seq(#[trigger] b64url_of(b))
}

pub open spec fn b64url_encode_post(input: Seq<u8>, r: Seq<u8>) -> bool {
    &&& r == b64url_of(input)
    &&& b64url_alphabet_fact()
}

/// Relies on base64's `URL_SAFE_NO_PAD` engine: `Engine::encode` returns the
/// unpadded url-safe encoding, a function of the input bytes alone, over the
/// alphabet `A-Z a-z 0-9 - _`.
#[verifier::external_body]
fn b64url_encode(b: &[u8]) -> (r: Vec<u8>)
    ensures
        r@ == b64url_of(b@),
        b64url_encode_post(b@, r@),
{
    base64::engine::general_purpose::URL_SAFE_NO_PAD.encode(b).into_bytes()
}

pub open spec fn b64url_decode_post(input: Seq<u8>, r: Option<Vec<u8>>) -> bool {
    &&& (r matches Some(v) ==> input == b64url_of(v@))
    &&& (forall|b: Seq<u8>| input == #[trigger] b64url_of(b) ==> (r matches Some(v) && v@ == b))
    &&& b64url_alphabet_fact()
}

/// Relies on base64's `URL_SAFE_NO_PAD` engine: decoding requires the exact
/// unpadded form and rejects nonzero trailing bits, so it succeeds precisely
/// on the canonical encodings and inverts `Engine::encode`.
#[verifier::external_body]
fn b64url_decode(s: &[u8]) -> (r: Option<Vec<u8>>)
    ensures
        r matches Some(v) ==> s@ == b64url_of(v@),
        b64url_decode_post(s@, r),
{
    base64::engine::general_purpose::URL_SAFE_NO_PAD.decode(s).ok()
}

/// The 256-bit keyed digest of `msg` under `key`.
pub uninterp spec fn hmac_sha256_of(key: Seq<u8>, msg: Seq<u8>) -> Seq<u8>;

pub open spec fn hmac_sha256_post(key: Seq<u8>, msg: Seq<u8>, r: Seq<u8>) -> bool {
    &&& r == hmac_sha256_of(key, msg)
    &&& forall|k: Seq<u8>, m: Seq<u8>| #[trigger] hmac_sha256_of(k, m).len() == 32
}

/// Relies on crypto's `Hmac` over `Sha256`: the tag is a function of key and
/// message alone, 32 bytes long (a 256-bit digest).
#[verifier::external_body]
fn hmac_sha256(key: &[u8], msg: &[u8]) -> (r: Vec<u8>)
    ensures
        r@ == hmac_sha256_of(key@, msg@),
        hmac_sha256_post(key@, msg@, r@),
{
    let mut h = crypto::hmac::Hmac::new(crypto::sha2::Sha256::new(), key);
    h.input(msg);
    h.result().code().to_vec()
}

/// Relies on time's `OffsetDateTime::now_utc`: seconds since the Unix epoch.
/// The value depends on the wall clock, so nothing is promised of it.
#[verifier::external_body]
pub(crate) fn unix_now() -> i64 {
    time::OffsetDateTime::now_utc().unix_timestamp()
}

// ---------------------------------------------------------------------------
// The wire format, at the specification level.
// ---------------------------------------------------------------------------
/// What the signature is computed over: the first two wire segments.
pub open spec fn signing_input_of(uid: u64, exp: i64) -> Seq<u8> {
    b64url_of(header_json()) + seq![46u8] + b64url_of(payload_json_of(uid, exp))
}

/// The correct signature for a payload under `secret`.
pub open spec fn sig_of(secret: Seq<u8>, uid: u64, exp: i64) -> Seq<u8> {
    hmac_sha256_of(secret, signing_input_of(uid, exp))
}

/// The wire bytes of a token with the given payload and signature bytes.
pub open spec fn wire_of(uid: u64, exp: i64, sig: Seq<u8>) -> Seq<u8> {
    signing_input_of(uid, exp) + seq![46u8] + b64url_of(sig)
}

/// The wire bytes of a correctly signed token.
pub open spec fn fresh_wire(uid: u64, exp: i64, secret: Seq<u8>) -> Seq<u8> {
    wire_of(uid, exp, sig_of(secret, uid, exp))
}

/// What verifying a token yields: a signature mismatch outranks expiry, and
/// `now == exp` is still within bounds.
pub open spec fn verify_spec(sig: Seq<u8>, uid: u64, exp: i64, secret: Seq<u8>, now: i64) -> Result<
    (),
    JwtError,
> {
    if sig != sig_of(secret, uid, exp) {
        Err(JwtError::BadSignature)
    } else if now > exp {
        Err(JwtError::Expired)
    } else {
        Ok(())
    }
}

impl Jwt {
    /// Recomputes the signature of `payload` under `secret`.
    pub fn generate_signature(secret: &[u8], payload: &JwtPayload) -> (r: Vec<u8>)
        ensures
            r@ == sig_of(secret@, payload.user_id, payload.exp_time),
            r@.len() == 32,
    {
        let hj = header_json_bytes();
        let mut input = b64url_encode(hj.as_slice());
        input.push(46u8);
        let pj = payload_json_bytes(payload.user_id, payload.exp_time);
        let mut pb = b64url_encode(pj.as_slice());
        input.append(&mut pb);
        proof {
            assert(input@ =~= signing_input_of(payload.user_id, payload.exp_time));
        }
        hmac_sha256(secret, input.as_slice())
    }

    /// Builds the token for `user_id` that expires `expire_duration_s`
    /// seconds after `now`, signed under `secret`.
    pub fn new_at(user_id: u64, expire_duration_s: i64, secret: &[u8], now: i64) -> (r: Jwt)
        requires
            i64::MIN <= now + expire_duration_s <= i64::MAX,
        ensures
            r.header == (JwtHeader { alg: JwtAlg::HS256, typ: JwtTyp::JWT }),
            r.payload == (JwtPayload { user_id, exp_time: (now + expire_duration_s) as i64 }),
            r.signature@ == sig_of(secret@, user_id, (now + expire_duration_s) as i64),
    {
        let payload = JwtPayload::new_at(user_id, expire_duration_s, now);
        let signature = Self::generate_signature(secret, &payload);
        Jwt { header: JwtHeader::default(), payload, signature }
    }

    /// Builds the token against the wall clock. Fails with `SigningError` only
    /// when the expiry time would not fit in a timestamp.
    pub fn new(user_id: u64, expire_duration_s: i64, secret: &[u8]) -> (r: Result<Jwt, JwtError>)
        ensures
            r matches Ok(t) ==> {
                &&& t.header == (JwtHeader { alg: JwtAlg::HS256, typ: JwtTyp::JWT })
                &&& t.payload.user_id == user_id
                &&& t.signature@ == sig_of(secret@, user_id, t.payload.exp_time)
            },
            r matches Err(e) ==> e == JwtError::SigningError,
    {
        let now = unix_now();
        match now.checked_add(expire_duration_s) {
            Some(_) => Ok(Self::new_at(user_id, expire_duration_s, secret, now)),
            None => Err(JwtError::SigningError),
        }
    }

    /// The wire form: three unpadded base64url segments joined by dots.
    pub fn encode(&self) -> (r: String)
        ensures
            r@ == ascii_chars(wire_of(self.payload.user_id, self.payload.exp_time,
                self.signature@)),
            ascii_seq(wire_of(self.payload.user_id, self.payload.exp_time, self.signature@)),
            b64url_alphabet_fact(),
    {
        let hj = header_json_bytes();
        let mut w = b64url_encode(hj.as_slice());
        w.push(46u8);
        let pj = payload_json_bytes(self.payload.user_id, self.payload.exp_time);
        let mut pb = b64url_encode(pj.as_slice());
        w.append(&mut pb);
        w.push(46u8);
        let mut sb = b64url_encode(self.signature.as_slice());
        w.append(&mut sb);
        proof {
            assert(w@ =~= wire_of(self.payload.user_id, self.payload.exp_time, self.signature@));
        }
        ascii_to_string(w)
    }

    /// Issues the wire form of a token for `user_id`, expiring
    /// `expire_duration_s` seconds after `now`.
    pub fn generate_at(user_id: u64, expire_duration_s: i64, secret: &[u8], now: i64) -> (r:
        String)
        requires
            i64::MIN <= now + expire_duration_s <= i64::MAX,
        ensures
            r@ == ascii_chars(fresh_wire(user_id, (now + expire_duration_s) as i64, secret@)),
            ascii_seq(fresh_wire(user_id, (now + expire_duration_s) as i64, secret@)),
            b64url_alphabet_fact(),
    {
        Self::new_at(user_id, expire_duration_s, secret, now).encode()
    }

    /// Issues the wire form against the wall clock.
    pub fn generate(user_id: u64, expire_duration_s: i64, secret: &[u8]) -> (r: Result<
        String,
        JwtError,
    >)
        ensures
            r matches Ok(s) ==> exists|exp: i64|
                s@ == ascii_chars(#[trigger] fresh_wire(user_id, exp, secret@)) && ascii_seq(
                    fresh_wire(user_id, exp, secret@),
                ),
            r is Ok ==> b64url_alphabet_fact(),
            r matches Err(e) ==> e == JwtError::SigningError,
    {
        match Self::new(user_id, expire_duration_s, secret) {
            Ok(t) => {
                let ghost exp = t.payload.exp_time;
                let s = t.encode();
                proof {
                    assert(s@ == ascii_chars(fresh_wire(user_id, exp, secret@)) && ascii_seq(
                        fresh_wire(user_id, exp, secret@),
                    ));
                }
                Ok(s)
            },
            Err(e) => Err(e),
        }
    }

    /// Verifies the token at instant `now`: the signature must match and the
    /// expiry must not have passed; a bad signature is reported first.
    pub fn verify_at(&self, secret: &[u8], now: i64) -> (r: Result<(), JwtError>)
        ensures
            r == verify_spec(self.signature@, self.payload.user_id, self.payload.exp_time,
                secret@, now),
    {
        let expected = Self::generate_signature(secret, &self.payload);
        if !bytes_eq(&expected, &self.signature) {
            return Err(JwtError::BadSignature);
        }
        if now > self.payload.exp_time {
            return Err(JwtError::Expired);
        }
        Ok(())
    }

    /// Verifies the token against the wall clock. Whatever instant the clock
    /// returned, a signature mismatch is `BadSignature`, and success implies
    /// the signature matched.
    pub fn verify(&self, secret: &[u8]) -> (r: Result<(), JwtError>)
        ensures
            r == Err::<(), JwtError>(JwtError::BadSignature) <==> self.signature@ != sig_of(
                secret@, self.payload.user_id, self.payload.exp_time),
            r is Ok || r == Err::<(), JwtError>(JwtError::BadSignature) || r == Err::<(), JwtError>(
                JwtError::Expired,
            ),
    {
        let now = unix_now();
        self.verify_at(secret, now)
    }
}

} // verus!
verus! {

// ---------------------------------------------------------------------------
// Parsing the wire form back into a token.
// ---------------------------------------------------------------------------
/// How often byte `x` occurs in `s`.
pub(crate) open spec fn byte_count(s: Seq<u8>, x: u8) -> int
    decreases s.len(),
{
    if s.len() == 0 {
        0
    } else {
        byte_count(s.drop_last(), x) + if s.last() == x {
            1int
        } else {
            0int
        }
    }
}

/// How many dot characters a wire string holds; the wire form of a token
/// holds exactly two.
pub open spec fn dot_count(s: Seq<char>) -> int
    decreases s.len(),
{
    if s.len() == 0 {
        0
    } else {
        dot_count(s.drop_last()) + if s.last() == '.' {
            1int
        } else {
            0int
        }
    }
}

proof fn lemma_byte_count_concat(a: Seq<u8>, b: Seq<u8>, x: u8)
    ensures
        byte_count(a + b, x) == byte_count(a, x) + byte_count(b, x),
    decreases b.len(),
{
    if b.len() == 0 {
        assert(a + b =~= a);
    } else {
        lemma_byte_count_concat(a, b.drop_last(), x);
        assert((a + b).drop_last() =~= a + b.drop_last());
        assert((a + b).last() == b.last());
    }
}

proof fn lemma_byte_count_none(s: Seq<u8>, x: u8)
    requires
        forall|i: int| 0 <= i < s.len() ==> s[i] != x,
    ensures
        byte_count(s, x) == 0,
    decreases s.len(),
{
    if s.len() > 0 {
        lemma_byte_count_none(s.drop_last(), x);
    }
}

proof fn lemma_dot_count_ascii(b: Seq<u8>)
    ensures
        dot_count(ascii_chars(b)) == byte_count(b, 46),
    decreases b.len(),
{
    if b.len() > 0 {
        lemma_dot_count_ascii(b.drop_last());
        assert(ascii_chars(b).drop_last() =~= ascii_chars(b.drop_last()));
        assert(ascii_chars(b).last() == b.last() as char);
        assert(b.last() as char == '.' <==> b.last() == 46);
    }
}

/// Finds the positions of the two dots of a well-formed wire string; `None`
/// iff the string does not hold exactly two.
fn find_dots(s: &Vec<u8>) -> (r: Option<(usize, usize)>)
    ensures
        r matches Some(p) ==> {
            &&& p.0 < p.1 < s@.len()
            &&& s@[p.0 as int] == 46
            &&& s@[p.1 as int] == 46
            &&& forall|k: int| 0 <= k < s@.len() && s@[k] == 46 ==> k == p.0 || k == p.1
            &&& byte_count(s@, 46) == 2
        },
        r is None <==> byte_count(s@, 46) != 2,
{
    let len = s.len();
    let mut d1: usize = 0;
    let mut d2: usize = 0;
    let mut cnt: usize = 0;
    let mut i: usize = 0;
    while i < len
        invariant
            0 <= i <= len,
            len == s@.len(),
            cnt == byte_count(s@.subrange(0, i as int), 46),
            cnt <= i,
            cnt >= 1 ==> d1 < i && s@[d1 as int] == 46,
            cnt >= 2 ==> d1 < d2 < i && s@[d2 as int] == 46,
            cnt == 0 ==> forall|k: int| 0 <= k < i ==> s@[k] != 46,
            cnt == 1 ==> forall|k: int| 0 <= k < i && s@[k] == 46 ==> k == d1,
            cnt == 2 ==> forall|k: int| 0 <= k < i && s@[k] == 46 ==> k == d1 || k == d2,
        decreases len - i,
    {
        proof {
            assert(s@.subrange(0, i + 1).drop_last() =~= s@.subrange(0, i as int));
            assert(s@.subrange(0, i + 1).last() == s@[i as int]);
        }
        if s[i] == 46 {
            if cnt == 0 {
                d1 = i;
            } else if cnt == 1 {
                d2 = i;
            }
            cnt = cnt + 1;
        }
        i += 1;
    }
    proof {
        assert(s@.subrange(0, len as int) =~= s@);
    }
    if cnt == 2 {
        Some((d1, d2))
    } else {
        None
    }
}

/// The structure of a serialized payload: where its fixed pieces and its two
/// digit runs lie, and what the runs are worth.
proof fn lemma_payload_parts(b: Seq<u8>, u: u64, e: i64)
    requires
        b == payload_json_of(u, e),
    ensures
        b.len() == 24 + dec_digits(u as nat).len() + i64_dec_digits(e as int).len(),
        b.subrange(0, 11) =~= payload_prefix(),
        b.subrange(11, 11 + dec_digits(u as nat).len() as int) =~= dec_digits(u as nat),
        digit_run_end(b, 11) == 11 + dec_digits(u as nat).len(),
        digits_val(dec_digits(u as nat)) == u,
        b.subrange(
            11 + dec_digits(u as nat).len() as int,
            23 + dec_digits(u as nat).len() as int,
        ) =~= payload_mid(),
        e >= 0 ==> {
            let q = 23 + dec_digits(u as nat).len() as int;
            &&& is_dec_digit(b[q])
            &&& b[q] != 45
            &&& digit_run_end(b, q) == q + dec_digits(e as nat).len()
            &&& b.subrange(q, q + dec_digits(e as nat).len() as int) =~= dec_digits(e as nat)
            &&& digits_val(dec_digits(e as nat)) == e
        },
        e < 0 ==> {
            let q = 23 + dec_digits(u as nat).len() as int;
            &&& b[q] == 45
            &&& digit_run_end(b, q + 1) == q + 1 + dec_digits((-e) as nat).len()
            &&& b.subrange(q + 1, q + 1 + dec_digits((-e) as nat).len() as int) =~= dec_digits(
                (-e) as nat,
            )
            &&& digits_val(dec_digits((-e) as nat)) == -e
            &&& -e <= 9223372036854775808
        },
{
    let du = dec_digits(u as nat);
    let de = i64_dec_digits(e as int);
    lemma_dec_digits_shape(u as nat);
    lemma_dec_digits_val(u as nat);
    assert(b.len() == 11 + du.len() + 12 + de.len() + 1);
    assert(b.subrange(0, 11) =~= payload_prefix());
    assert(b.subrange(11, 11 + du.len() as int) =~= du);
    let p = 11 + du.len() as int;
    assert(b[p] == payload_mid()[0]);
    lemma_digit_run(b, 11, p);
    assert(b.subrange(p, p + 12) =~= payload_mid());
    let q = p + 12;
    if e >= 0 {
        lemma_dec_digits_shape(e as nat);
        lemma_dec_digits_val(e as nat);
        assert(de == dec_digits(e as nat));
        assert(b.subrange(q, q + de.len() as int) =~= dec_digits(e as nat));
        assert(b[q + de.len() as int] == 125);
        lemma_digit_run(b, q, q + de.len() as int);
        assert(is_dec_digit(b[q]));
    } else {
        lemma_dec_digits_shape((-e) as nat);
        lemma_dec_digits_val((-e) as nat);
        assert(de == seq![45u8] + dec_digits((-e) as nat));
        assert(b[q] == 45);
        assert(b.subrange(q + 1, q + 1 + dec_digits((-e) as nat).len() as int) =~= dec_digits(
            (-e) as nat,
        ));
        assert(b[q + 1 + dec_digits((-e) as nat).len() as int] == 125);
        assert(forall|k: int|
            q + 1 <= k < q + 1 + dec_digits((-e) as nat).len() ==> is_dec_digit(#[trigger] b[k]));
        lemma_digit_run(b, q + 1, q + 1 + dec_digits((-e) as nat).len() as int);
    }
}

/// Reads a payload `{"user_id":<uid>,"exp_time":<exp>}` back, accepting
/// exactly the bytes the engine itself writes.
#[verifier::rlimit(100)]
fn parse_payload(b: &Vec<u8>) -> (r: Option<(u64, i64)>)
    ensures
        r matches Some(p) ==> b@ == payload_json_of(p.0, p.1),
        forall|u: u64, e: i64| b@ == payload_json_of(u, e) ==> r == Some((u, e)),
{
    let pre = payload_prefix_bytes();
    if !starts_with(b, 0, &pre) {
        proof {
            assert forall|u: u64, e: i64| b@ != payload_json_of(u, e) by {
                if b@ == payload_json_of(u, e) {
                    lemma_payload_parts(b@, u, e);
                }
            }
        }
        return None;
    }
    let p1 = pre.len();
    let run1 = parse_u64_run(b, p1);
    if run1.is_none() {
        proof {
            assert forall|u: u64, e: i64| b@ != payload_json_of(u, e) by {
                if b@ == payload_json_of(u, e) {
                    lemma_payload_parts(b@, u, e);
                }
            }
        }
        return None;
    }
    let (uid, e1) = run1.unwrap();
    let mid = payload_mid_bytes();
    if !starts_with(b, e1, &mid) {
        proof {
            assert forall|u: u64, e: i64| b@ != payload_json_of(u, e) by {
                if b@ == payload_json_of(u, e) {
                    lemma_payload_parts(b@, u, e);
                }
            }
        }
        return None;
    }
    let blen = b.len();
    assert(e1 + mid@.len() <= blen);
    let p2 = e1 + mid.len();
    let neg = p2 < b.len() && b[p2] == 45;
    let p3 = if neg {
        p2 + 1
    } else {
        p2
    };
    let run2 = parse_u64_run(b, p3);
    if run2.is_none() {
        proof {
            assert forall|u: u64, e: i64| b@ != payload_json_of(u, e) by {
                if b@ == payload_json_of(u, e) {
                    lemma_payload_parts(b@, u, e);
                }
            }
        }
        return None;
    }
    let (mag, _e2) = run2.unwrap();
    let exp_opt: Option<i64> = if neg {
        if mag > 9223372036854775808u64 {
            None
        } else if mag == 9223372036854775808u64 {
            Some(i64::MIN)
        } else {
            Some(-(mag as i64))
        }
    } else {
        if mag > 9223372036854775807u64 {
            None
        } else {
            Some(mag as i64)
        }
    };
    if exp_opt.is_none() {
        proof {
            assert forall|u: u64, e: i64| b@ != payload_json_of(u, e) by {
                if b@ == payload_json_of(u, e) {
                    lemma_payload_parts(b@, u, e);
                }
            }
        }
        return None;
    }
    let exp = exp_opt.unwrap();
    proof {
        assert forall|u: u64, e: i64| b@ == payload_json_of(u, e) implies u == uid && e == exp by {
            lemma_payload_parts(b@, u, e);
        }
    }
    let expected = payload_json_bytes(uid, exp);
    if bytes_eq(&expected, b) {
        Some((uid, exp))
    } else {
        proof {
            assert forall|u: u64, e: i64| b@ != payload_json_of(u, e) by {
                if b@ == payload_json_of(u, e) {
                    lemma_payload_parts(b@, u, e);
                }
            }
        }
        None
    }
}

} // verus!
verus! {

/// The shape of a wire string: all its bytes are ASCII, its only dots are
/// the two separators, and the three segments between them are the base64url
/// forms of header, payload and signature.
proof fn lemma_wire_facts(uid: u64, exp: i64, g: Seq<u8>)
    requires
        b64url_alphabet_fact(),
    ensures
        ({
            let h = b64url_of(header_json());
            let p = b64url_of(payload_json_of(uid, exp));
            let sg = b64url_of(g);
            let w = wire_of(uid, exp, g);
            &&& w.len() == h.len() + 1 + p.len() + 1 + sg.len()
            &&& ascii_seq(w)
            &&& byte_count(w, 46) == 2
            &&& w[h.len() as int] == 46
            &&& w[h.len() + 1 + p.len() as int] == 46
            &&& (forall|k: int|
                0 <= k < w.len() && w[k] == 46 ==> k == h.len() || k == h.len() + 1 + p.len())
            &&& w.subrange(0, h.len() as int) =~= h
            &&& w.subrange(h.len() as int + 1, h.len() as int + 1 + p.len() as int) =~= p
            &&& w.subrange(h.len() as int + p.len() as int + 2, w.len() as int) =~= sg
        }),
{
    let h = b64url_of(header_json());
    let p = b64url_of(payload_json_of(uid, exp));
    let sg = b64url_of(g);
    let w = wire_of(uid, exp, g);
    let dot = seq![46u8];
    assert(forall|x: u8| b64url_byte(x) ==> x != 46 && x < 128);
    assert(w =~= h + dot + p + dot + sg);
    assert(b64url_seq(h) && b64url_seq(p) && b64url_seq(sg));
    assert forall|k: int| 0 <= k < w.len() implies w[k] < 128 by {
        if k < h.len() {
            assert(w[k] == h[k]);
        } else if k == h.len() {
        } else if k < h.len() + 1 + p.len() {
            assert(w[k] == p[k - h.len() - 1]);
        } else if k == h.len() + 1 + p.len() {
        } else {
            assert(w[k] == sg[k - h.len() - p.len() - 2]);
        }
    }
    assert forall|k: int| 0 <= k < w.len() && w[k] == 46 implies k == h.len() || k == h.len() + 1
        + p.len() by {
        if k < h.len() {
            assert(w[k] == h[k]);
        } else if k > h.len() && k < h.len() + 1 + p.len() {
            assert(w[k] == p[k - h.len() - 1]);
        } else if k > h.len() + 1 + p.len() {
            assert(w[k] == sg[k - h.len() - p.len() - 2]);
        }
    }
    lemma_byte_count_none(h, 46);
    lemma_byte_count_none(p, 46);
    lemma_byte_count_none(sg, 46);
    assert(dot.drop_last() =~= Seq::<u8>::empty());
    assert(byte_count(Seq::<u8>::empty(), 46) == 0);
    assert(dot.last() == 46u8);
    assert(byte_count(dot, 46) == 1);
    lemma_byte_count_concat(h, dot, 46);
    lemma_byte_count_concat(h + dot, p, 46);
    lemma_byte_count_concat(h + dot + p, dot, 46);
    lemma_byte_count_concat(h + dot + p + dot, sg, 46);
    assert(w[h.len() as int] == 46);
    assert(w[h.len() + 1 + p.len() as int] == 46);
}

/// The byte form of the string a wire premise speaks of is the wire itself.
proof fn lemma_premise_bytes(sview: Seq<char>, bview: Seq<u8>, uid: u64, exp: i64, g: Seq<u8>)
    requires
        b64url_alphabet_fact(),
        sview == ascii_chars(wire_of(uid, exp, g)),
        bview == Seq::new(sview.len(), |i: int| sview[i] as u8),
    ensures
        bview =~= wire_of(uid, exp, g),
        vstd::utf8::is_ascii_chars(sview),
{
    let w = wire_of(uid, exp, g);
    lemma_wire_facts(uid, exp, g);
    crate::strutil::lemma_ascii_chars_inverse(w);
    assert forall|i: int| 0 <= i < bview.len() implies bview[i] == w[i] by {
        assert(bview[i] == sview[i] as u8);
        assert(sview[i] == ascii_chars(w)[i]);
    }
}

impl Jwt {
    /// Splits a wire string into its three dot-separated segments and decodes
    /// them back into a token. Exactly the strings produced by `encode` are
    /// accepted; anything else fails with `MalformedToken`, before any
    /// signature is examined.
    #[verifier::rlimit(100)]
    pub fn parse(s: &str) -> (r: Result<Jwt, JwtError>)
        ensures
            r matches Ok(t) ==> {
                &&& t.header == (JwtHeader { alg: JwtAlg::HS256, typ: JwtTyp::JWT })
                &&& s@ == ascii_chars(wire_of(t.payload.user_id, t.payload.exp_time, t.signature@))
            },
            forall|uid: u64, exp: i64, g: Seq<u8>|
                (s@ == ascii_chars(#[trigger] wire_of(uid, exp, g)) && b64url_alphabet_fact())
                    ==> (r matches Ok(t) && t.payload.user_id == uid && t.payload.exp_time == exp
                    && t.signature@ == g),
            r matches Err(e) ==> e == JwtError::MalformedToken,
            dot_count(s@) != 2 ==> r == Err::<Jwt, JwtError>(JwtError::MalformedToken),
    {
        if !s.is_ascii() {
            proof {
                assert forall|uid: u64, exp: i64, g: Seq<u8>|
                    !(s@ == ascii_chars(#[trigger] wire_of(uid, exp, g))
                        && b64url_alphabet_fact()) by {
                    if s@ == ascii_chars(wire_of(uid, exp, g)) && b64url_alphabet_fact() {
                        lemma_wire_facts(uid, exp, g);
                        crate::strutil::lemma_ascii_chars_inverse(wire_of(uid, exp, g));
                    }
                }
            }
            return Err(JwtError::MalformedToken);
        }
        let bytes = s.as_bytes_vec();
        proof {
            vstd::string::is_ascii_spec_bytes(s);
            crate::strutil::lemma_chars_ascii_inverse(s@);
            assert(bytes@ =~= Seq::new(s@.len(), |i: int| s@[i] as u8));
            assert(ascii_chars(bytes@) =~= s@);
        }
        let dots = find_dots(&bytes);
        if dots.is_none() {
            proof {
                assert forall|uid: u64, exp: i64, g: Seq<u8>|
                    !(s@ == ascii_chars(#[trigger] wire_of(uid, exp, g))
                        && b64url_alphabet_fact()) by {
                    if s@ == ascii_chars(wire_of(uid, exp, g)) && b64url_alphabet_fact() {
                        lemma_premise_bytes(s@, bytes@, uid, exp, g);
                        lemma_wire_facts(uid, exp, g);
                    }
                }
            }
            return Err(JwtError::MalformedToken);
        }
        let (d1, d2) = dots.unwrap();
        let blen = bytes.len();
        let seg1 = subvec(&bytes, 0, d1);
        let seg2 = subvec(&bytes, d1 + 1, d2);
        let seg3 = subvec(&bytes, d2 + 1, blen);
        proof {
            assert(bytes@ =~= seg1@ + seq![46u8] + seg2@ + seq![46u8] + seg3@);
        }
        proof {
            assert forall|uid: u64, exp: i64, g: Seq<u8>|
                (s@ == ascii_chars(#[trigger] wire_of(uid, exp, g)) && b64url_alphabet_fact())
                    implies (seg1@ == b64url_of(header_json()) && seg2@ == b64url_of(
                payload_json_of(uid, exp)) && seg3@ == b64url_of(g)) by {
                lemma_premise_bytes(s@, bytes@, uid, exp, g);
                lemma_wire_facts(uid, exp, g);
                let h = b64url_of(header_json());
                let p = b64url_of(payload_json_of(uid, exp));
                assert(bytes@[h.len() as int] == 46);
                assert(bytes@[h.len() + 1 + p.len() as int] == 46);
                assert(d1 == h.len() && d2 == h.len() + 1 + p.len());
                assert(seg1@ =~= h);
                assert(seg2@ =~= p);
                assert(seg3@ =~= b64url_of(g));
            }
        }
        let h = b64url_decode(seg1.as_slice());
        let p = b64url_decode(seg2.as_slice());
        let g = b64url_decode(seg3.as_slice());
        if h.is_none() || p.is_none() || g.is_none() {
            return Err(JwtError::MalformedToken);
        }
        let hv = h.unwrap();
        let pv = p.unwrap();
        let gv = g.unwrap();
        let hj = header_json_bytes();
        if !bytes_eq(&hv, &hj) {
            return Err(JwtError::MalformedToken);
        }
        let pl = parse_payload(&pv);
        if pl.is_none() {
            return Err(JwtError::MalformedToken);
        }
        let (uid, exp) = pl.unwrap();
        proof {
            assert(bytes@ =~= wire_of(uid, exp, gv@));
            lemma_dot_count_ascii(bytes@);
        }
        Ok(Jwt {
            header: JwtHeader::default(),
            payload: JwtPayload { user_id: uid, exp_time: exp },
            signature: gv,
        })
    }
}

} // verus!
verus! {

impl Jwt {
    /// Parses a wire string and verifies the resulting token at instant
    /// `now`: an input that is not the wire image of any token is rejected
    /// as `MalformedToken` before any signature check, and a signature
    /// mismatch before expiry.
    pub fn parse_and_verify_at(s: &str, secret: &[u8], now: i64) -> (r: Result<Jwt, JwtError>)
        ensures
            r matches Ok(t) ==> {
                &&& s@ == ascii_chars(wire_of(t.payload.user_id, t.payload.exp_time, t.signature@))
                &&& t.signature@ == sig_of(secret@, t.payload.user_id, t.payload.exp_time)
                &&& now <= t.payload.exp_time
            },
            forall|uid: u64, exp: i64, g: Seq<u8>|
                (s@ == ascii_chars(#[trigger] wire_of(uid, exp, g)) && b64url_alphabet_fact())
                    ==> match verify_spec(g, uid, exp, secret@, now) {
                    Ok(()) => r matches Ok(t) && t.payload.user_id == uid && t.payload.exp_time
                        == exp && t.signature@ == g,
                    Err(e) => r == Err::<Jwt, JwtError>(e),
                },
            (forall|uid: u64, exp: i64, g: Seq<u8>|
                s@ != ascii_chars(#[trigger] wire_of(uid, exp, g))) ==> r == Err::<
                Jwt,
                JwtError,
            >(JwtError::MalformedToken),
            r matches Err(e) ==> (e is MalformedToken || e is BadSignature || e is Expired),
            dot_count(s@) != 2 ==> r == Err::<Jwt, JwtError>(JwtError::MalformedToken),
    {
        match Self::parse(s) {
            Err(e) => Err(e),
            Ok(t) => {
                match t.verify_at(secret, now) {
                    Ok(()) => Ok(t),
                    Err(e) => Err(e),
                }
            },
        }
    }

    /// Parses and verifies against the wall clock. Whatever instant the
    /// clock returned: an input that is not the wire image of any token is
    /// `MalformedToken`; a wire image whose signature is not the right one
    /// for its payload under `secret` is `BadSignature`; and success means
    /// the signature was the right one.
    pub fn parse_and_verify(s: &str, secret: &[u8]) -> (r: Result<Jwt, JwtError>)
        ensures
            r matches Ok(t) ==> {
                &&& s@ == ascii_chars(wire_of(t.payload.user_id, t.payload.exp_time, t.signature@))
                &&& t.signature@ == sig_of(secret@, t.payload.user_id, t.payload.exp_time)
            },
            (forall|uid: u64, exp: i64, g: Seq<u8>|
                s@ != ascii_chars(#[trigger] wire_of(uid, exp, g))) ==> r == Err::<
                Jwt,
                JwtError,
            >(JwtError::MalformedToken),
            forall|uid: u64, exp: i64, g: Seq<u8>|
                (s@ == ascii_chars(#[trigger] wire_of(uid, exp, g)) && b64url_alphabet_fact()
                    && g != sig_of(secret@, uid, exp)) ==> r == Err::<Jwt, JwtError>(
                    JwtError::BadSignature,
                ),
            r matches Err(e) ==> (e is MalformedToken || e is BadSignature || e is Expired),
            dot_count(s@) != 2 ==> r == Err::<Jwt, JwtError>(JwtError::MalformedToken),
    {
        let now = unix_now();
        Self::parse_and_verify_at(s, secret, now)
    }
}

/// What the gateway decides for a presented credential: the verification
/// verdict, and on success the internal user id recovered by undoing the
/// identifier scrambling on the token's subject.
pub open spec fn authorize_spec(
    uid_wire: u64,
    exp: i64,
    g: Seq<u8>,
    secret: Seq<u8>,
    now: i64,
) -> Result<crate::id::Id, JwtError> {
    match verify_spec(g, uid_wire, exp, secret, now) {
        Ok(()) => Ok(crate::id::Id(crate::id::decode_spec(uid_wire as u32))),
        Err(e) => Err(e),
    }
}

/// The gateway boundary: a missing credential is rejected as such; a present
/// one is parsed and verified, and its subject id unscrambled.
pub fn authorize(token: &Option<String>, secret: &[u8], now: i64) -> (r: Result<
    crate::id::UserId,
    JwtError,
>)
    ensures
        token is None <==> r == Err::<crate::id::Id, JwtError>(JwtError::MissingCredential),
        forall|uid_wire: u64, exp: i64, g: Seq<u8>|
            ((token matches Some(sv) && sv@ == ascii_chars(#[trigger] wire_of(uid_wire, exp, g)))
                && b64url_alphabet_fact()) ==> r == authorize_spec(uid_wire, exp, g, secret@, now),
{
    match token {
        None => Err(JwtError::MissingCredential),
        Some(s) => {
            match Jwt::parse_and_verify_at(s.as_str(), secret, now) {
                Err(e) => Err(e),
                Ok(t) => {
                    let wire_id = t.payload.user_id as u32;
                    let uid = <crate::id::Id as crate::id::GeneralId>::from_encoded(wire_id);
                    proof {
                        crate::id::lemma_codec_bijection(uid.0);
                        crate::id::lemma_codec_bijection(wire_id);
                    }
                    Ok(uid)
                },
            }
        },
    }
}

// ---------------------------------------------------------------------------
// Laws of the token engine.
// ---------------------------------------------------------------------------
/// A token generated for any subject with a positive time-to-live carries
/// exactly the signature verification recomputes, so verifying it at the
/// instant of generation succeeds: the generate, encode, parse, verify round
/// trip is accepted.
pub proof fn lemma_fresh_token_verifies(uid: u64, ttl: i64, secret: Seq<u8>, now: i64)
    requires
        0 < ttl,
        now + ttl <= i64::MAX,
    ensures
        verify_spec(sig_of(secret, uid, (now + ttl) as i64), uid, (now + ttl) as i64, secret, now)
            == Ok::<(), JwtError>(()),
{
}

/// A token whose expiry lies before the verification instant is rejected as
/// `Expired`, even when its signature is the correct one.
pub proof fn lemma_expired_token_rejected(uid: u64, exp: i64, secret: Seq<u8>, now: i64)
    requires
        now > exp,
    ensures
        verify_spec(sig_of(secret, uid, exp), uid, exp, secret, now) == Err::<(), JwtError>(
            JwtError::Expired,
        ),
{
}

/// A token whose signature differs in any way from the recomputed one is
/// rejected as `BadSignature`, whatever the clock says.
pub proof fn lemma_tampered_signature_rejected(
    sig: Seq<u8>,
    uid: u64,
    exp: i64,
    secret: Seq<u8>,
    now: i64,
)
    requires
        sig != sig_of(secret, uid, exp),
    ensures
        verify_spec(sig, uid, exp, secret, now) == Err::<(), JwtError>(JwtError::BadSignature),
{
}

} // verus!
