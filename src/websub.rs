//! WebSub: signed push verification and the subscription verification
//! state machine.
use hmac::Mac;
use vstd::prelude::*;

use crate::text::{chars_of, string_of, text_eq};

verus! {

broadcast use vstd::string::group_string_axioms;

// ---------------------------------------------------------------------------
// Hex signatures

/// The value of a hex digit, either case.
pub open spec fn hex_digit(c: char) -> Option<int> {
    if '0' <= c && c <= '9' {
        Some(c as int - '0' as int)
    } else if 'a' <= c && c <= 'f' {
        Some(c as int - 'a' as int + 10)
    } else if 'A' <= c && c <= 'F' {
        Some(c as int - 'A' as int + 10)
    } else {
        None
    }
}

/// `s` is an even number of hex digits.
pub open spec fn is_hex_text(s: Seq<char>) -> bool {
    &&& s.len() % 2 == 0
    &&& forall|i: int| 0 <= i < s.len() ==> (#[trigger] hex_digit(s[i])) is Some
}

/// The bytes that hex text `s` writes, two digits each, high digit first.
pub open spec fn hex_bytes(s: Seq<char>) -> Seq<u8> {
    Seq::new(
        s.len() / 2,
        |i: int| (16 * hex_digit(s[2 * i]).unwrap() + hex_digit(s[2 * i + 1]).unwrap()) as u8,
    )
}

/// Relies on `hex::decode`: it fails on text of odd length or with a
/// character that is not a hex digit, and otherwise turns each pair of
/// digits into one byte, high digit first.
#[verifier::external_body]
fn hex_decode(s: &str) -> (r: Option<Vec<u8>>)
    ensures
        r.is_some() == is_hex_text(s@),
        r matches Some(b) ==> b@ == hex_bytes(s@),
{
    hex::decode(s).ok()
}

/// Index `i` holds the first `=` of `s`.
pub open spec fn first_equals(s: Seq<char>, i: int) -> bool {
    &&& 0 <= i < s.len()
    &&& s[i] == '='
    &&& forall|k: int| 0 <= k < i ==> s[k] != '='
}

fn chars_range(cs: &Vec<char>, from: usize, to: usize) -> (r: Vec<char>)
    requires
        from <= to <= cs.len(),
    ensures
        r@ == cs@.subrange(from as int, to as int),
{
    let mut out: Vec<char> = Vec::new();
    let mut i: usize = from;
    while i < to
        invariant
            from <= i <= to <= cs.len(),
            out@ == cs@.subrange(from as int, i as int),
        decreases to - i,
    {
        out.push(cs[i]);
        i = i + 1;
        assert(out@ =~= cs@.subrange(from as int, i as int));
    }
    out
}

#[derive(Debug, PartialEq, Eq, Structural)]
pub enum SignatureError {
    /// The header has no `=` between algorithm and signature.
    MissingSeparator,
    /// The signature is not hex text.
    InvalidHex,
}

/// The `X-Hub-Signature` header: an algorithm name and the signature bytes.
#[derive(Debug, PartialEq)]
pub struct XHubSignature {
    pub method: String,
    pub signature: Vec<u8>,
}

/// The HMAC-SHA256 tag of `message` under `key`.
pub uninterp spec fn hmac_sha256(key: Seq<u8>, message: Seq<u8>) -> Seq<u8>;

/// The HMAC-SHA384 tag of `message` under `key`.
pub uninterp spec fn hmac_sha384(key: Seq<u8>, message: Seq<u8>) -> Seq<u8>;

/// The HMAC-SHA512 tag of `message` under `key`.
pub uninterp spec fn hmac_sha512(key: Seq<u8>, message: Seq<u8>) -> Seq<u8>;

/// Relies on `hmac::Hmac<sha2::Sha256>`: `new_from_slice` takes a key of any
/// length, and `verify_slice` accepts exactly the full tag of the message,
/// compared in constant time.
#[verifier::external_body]
fn verify_hmac_sha256(tag: &[u8], key: &[u8], message: &[u8]) -> (r: bool)
    ensures
        r == (tag@ == hmac_sha256(key@, message@)),
{
    match hmac::Hmac::<sha2::Sha256>::new_from_slice(key) {
        Ok(mut mac) => {
            mac.update(message);
            mac.verify_slice(tag).is_ok()
        },
        Err(_) => false,
    }
}

/// Relies on `hmac::Hmac<sha2::Sha384>`, as `verify_hmac_sha256` does.
#[verifier::external_body]
fn verify_hmac_sha384(tag: &[u8], key: &[u8], message: &[u8]) -> (r: bool)
    ensures
        r == (tag@ == hmac_sha384(key@, message@)),
{
    match hmac::Hmac::<sha2::Sha384>::new_from_slice(key) {
        Ok(mut mac) => {
            mac.update(message);
            mac.verify_slice(tag).is_ok()
        },
        Err(_) => false,
    }
}

/// Relies on `hmac::Hmac<sha2::Sha512>`, as `verify_hmac_sha256` does.
#[verifier::external_body]
fn verify_hmac_sha512(tag: &[u8], key: &[u8], message: &[u8]) -> (r: bool)
    ensures
        r == (tag@ == hmac_sha512(key@, message@)),
{
    match hmac::Hmac::<sha2::Sha512>::new_from_slice(key) {
        Ok(mut mac) => {
            mac.update(message);
            mac.verify_slice(tag).is_ok()
        },
        Err(_) => false,
    }
}

/// Whether a signature for `method` is accepted: exactly when the algorithm
/// is one of sha256, sha384 and sha512 and the signature is the HMAC tag that
/// a signer with `secret` computes for `message`. Other algorithms, sha1
/// included, are refused.
pub open spec fn signature_accepted(method: Seq<char>, signature: Seq<u8>, secret: Seq<u8>, message: Seq<u8>) -> bool {
    if method == "sha256"@ {
        signature == hmac_sha256(secret, message)
    } else if method == "sha384"@ {
        signature == hmac_sha384(secret, message)
    } else if method == "sha512"@ {
        signature == hmac_sha512(secret, message)
    } else {
        false
    }
}

impl XHubSignature {
    /// Reads a header of the form `<algorithm>=<hex signature>`, split at the
    /// first `=`.
    pub fn from_str(s: &str) -> (r: Result<XHubSignature, SignatureError>)
        ensures
            (exists|i: int| first_equals(s@, i)) ==> {
                let i = choose|i: int| first_equals(s@, i);
                let hex = s@.subrange(i + 1, s@.len() as int);
                &&& r is Ok <==> is_hex_text(hex)
                &&& r matches Ok(sig) ==> sig.method@ == s@.subrange(0, i) && sig.signature@ == hex_bytes(hex)
                &&& r matches Err(e) ==> e == SignatureError::InvalidHex
            },
            !(exists|i: int| first_equals(s@, i)) ==> r == Err::<XHubSignature, SignatureError>(
                SignatureError::MissingSeparator,
            ),
    {
        let cs = chars_of(s);
        let mut i: usize = 0;
        while i < cs.len()
            invariant
                cs@ == s@,
                i <= cs.len(),
                forall|k: int| 0 <= k < i ==> cs@[k] != '=',
            decreases cs.len() - i,
        {
            if cs[i] == '=' {
                proof {
                    assert(first_equals(s@, i as int));
                    let j = choose|j: int| first_equals(s@, j);
                    if j < i {
                        assert(cs@[j] != '=');
                    } else if j > i {
                        assert(s@[i as int] != '=');
                    }
                }
                let method = string_of(&chars_range(&cs, 0, i));
                let hex = string_of(&chars_range(&cs, i + 1, cs.len()));
                return match hex_decode(hex.as_str()) {
                    Some(signature) => Ok(XHubSignature { method, signature }),
                    None => Err(SignatureError::InvalidHex),
                };
            }
            i = i + 1;
        }
        assert forall|k: int| !first_equals(s@, k) by {
            if 0 <= k < s@.len() {
                assert(cs@[k] != '=');
            }
        }
        Err(SignatureError::MissingSeparator)
    }

    /// Whether the signature is the one that `secret` gives `message` under
    /// the header's algorithm; unknown and disabled algorithms fail closed.
    pub fn verify(&self, secret: &[u8], message: &[u8]) -> (r: bool)
        ensures
            r == signature_accepted(self.method@, self.signature@, secret@, message@),
    {
        let m = self.method.as_str();
        if text_eq(m, "sha256") {
            verify_hmac_sha256(self.signature.as_slice(), secret, message)
        } else if text_eq(m, "sha384") {
            verify_hmac_sha384(self.signature.as_slice(), secret, message)
        } else if text_eq(m, "sha512") {
            verify_hmac_sha512(self.signature.as_slice(), secret, message)
        } else {
            false
        }
    }
}

// ---------------------------------------------------------------------------
// Push delivery

/// What to do with a signed push.
#[derive(Debug, PartialEq, Eq, Structural)]
pub enum PushOutcome {
    /// No such subscription: answer 200 and do nothing, so that presence is
    /// not revealed.
    Ignore,
    /// Missing, malformed or wrong signature: answer 403; the flow is not run.
    Forbidden,
    /// Verified: deliver the body to the subscription's flow.
    Deliver,
}

/// The header `h` parses and its signature is accepted for `body` under `key`.
pub open spec fn header_accepts(h: Seq<char>, key: Seq<u8>, body: Seq<u8>) -> bool {
    exists|i: int|
        #![trigger first_equals(h, i)]
        first_equals(h, i) && is_hex_text(h.subrange(i + 1, h.len() as int)) && signature_accepted(
            h.subrange(0, i),
            hex_bytes(h.subrange(i + 1, h.len() as int)),
            key,
            body,
        )
}

/// Decides a push for the subscription whose secret is `secret` (none when
/// the subscription is unknown), given the `X-Hub-Signature` header and the
/// body.
pub fn decide_push(secret: Option<&[u8]>, header: Option<&str>, body: &[u8]) -> (r: PushOutcome)
    ensures
        secret is None ==> r == PushOutcome::Ignore,
        secret matches Some(key) ==> (r == PushOutcome::Deliver <==> (header matches Some(h) && header_accepts(
            h@,
            key@,
            body@,
        ))),
        secret is Some ==> r != PushOutcome::Ignore,
{
    let key = match secret {
        None => return PushOutcome::Ignore,
        Some(k) => k,
    };
    let h = match header {
        None => return PushOutcome::Forbidden,
        Some(h) => h,
    };
    match XHubSignature::from_str(h) {
        Err(_) => {
            proof {
                if exists|i: int| first_equals(h@, i) {
                    let i = choose|i: int| first_equals(h@, i);
                    assert forall|j: int| first_equals(h@, j) implies j == i by {
                        if j < i {
                            assert(h@[j] != '=');
                        } else if j > i {
                            assert(h@[i] != '=');
                        }
                    }
                }
            }
            PushOutcome::Forbidden
        },
        Ok(sig) => {
            proof {
                let i = choose|i: int| first_equals(h@, i);
                assert forall|j: int| first_equals(h@, j) implies j == i by {
                    if j < i {
                        assert(h@[j] != '=');
                    } else if j > i {
                        assert(h@[i] != '=');
                    }
                }
            }
            if sig.verify(key, body) {
                PushOutcome::Deliver
            } else {
                PushOutcome::Forbidden
            }
        },
    }
}

// ---------------------------------------------------------------------------
// Subscription verification

/// The decimal value of the digits `s`, most significant first.
pub open spec fn digits_value(s: Seq<char>) -> int
    decreases s.len(),
{
    if s.len() == 0 {
        0
    } else {
        10 * digits_value(s.drop_last()) + (s.last() as int - '0' as int)
    }
}

pub open spec fn all_digits(s: Seq<char>) -> bool {
    forall|i: int| 0 <= i < s.len() ==> '0' <= #[trigger] s[i] && s[i] <= '9'
}

/// `s` without one leading `+`, if it has one.
pub open spec fn unsigned_part(s: Seq<char>) -> Seq<char> {
    if s.len() > 0 && s[0] == '+' {
        s.subrange(1, s.len() as int)
    } else {
        s
    }
}

/// The number of seconds that `s` writes: an optional `+`, then one or more
/// decimal digits whose value fits in 64 bits.
pub open spec fn seconds_of(s: Seq<char>) -> Option<u64> {
    let d = unsigned_part(s);
    if d.len() > 0 && all_digits(d) && digits_value(d) <= u64::MAX {
        Some(digits_value(d) as u64)
    } else {
        None
    }
}

proof fn lemma_digits_grow(s: Seq<char>, j: int)
    requires
        all_digits(s),
        0 <= j <= s.len(),
    ensures
        0 <= digits_value(s.subrange(0, j)) <= digits_value(s),
    decreases s.len() - j,
{
    if j < s.len() {
        lemma_digits_grow(s, j + 1);
        let p = s.subrange(0, j + 1);
        assert(p.drop_last() =~= s.subrange(0, j));
        assert('0' <= p.last() && p.last() <= '9');
    } else {
        assert(s.subrange(0, j) =~= s);
        lemma_digits_nonneg(s);
    }
}

proof fn lemma_digits_nonneg(s: Seq<char>)
    requires
        all_digits(s),
    ensures
        digits_value(s) >= 0,
    decreases s.len(),
{
    if s.len() > 0 {
        assert(all_digits(s.drop_last())) by {
            assert forall|i: int| 0 <= i < s.drop_last().len() implies '0' <= #[trigger] s.drop_last()[i]
                && s.drop_last()[i] <= '9' by {
                assert(s.drop_last()[i] == s[i]);
            }
        }
        lemma_digits_nonneg(s.drop_last());
        assert('0' <= s.last());
    }
}

/// Reads the `hub.lease_seconds` parameter: an optional `+`, then decimal
/// digits, at most `u64::MAX`.
pub fn deserialize(s: &str) -> (r: Option<u64>)
    ensures
        r == seconds_of(s@),
{
    let all = chars_of(s);
    let cs = if all.len() > 0 && all[0] == '+' {
        chars_range(&all, 1, all.len())
    } else {
        chars_range(&all, 0, all.len())
    };
    let ghost ds = unsigned_part(s@);
    assert(cs@ =~= ds);
    if cs.len() == 0 {
        return None;
    }
    let mut value: u64 = 0;
    let mut i: usize = 0;
    assert(cs@.subrange(0, 0) =~= Seq::<char>::empty());
    while i < cs.len()
        invariant
            cs@ == ds,
            ds == unsigned_part(s@),
            i <= cs.len(),
            all_digits(cs@.subrange(0, i as int)),
            value as int == digits_value(cs@.subrange(0, i as int)),
        decreases cs.len() - i,
    {
        let c = cs[i];
        let ghost p = cs@.subrange(0, i as int + 1);
        assert(p.drop_last() =~= cs@.subrange(0, i as int));
        if !('0' <= c && c <= '9') {
            assert(!all_digits(ds)) by {
                assert(ds[i as int] == c);
            }
            return None;
        }
        let d = (c as u32 - '0' as u32) as u64;
        assert(all_digits(p)) by {
            assert forall|k: int| 0 <= k < p.len() implies '0' <= #[trigger] p[k] && p[k] <= '9' by {
                if k < i {
                    assert(p[k] == cs@.subrange(0, i as int)[k]);
                }
            }
        }
        if value > (u64::MAX - d) / 10 {
            proof {
                if all_digits(ds) {
                    lemma_digits_grow(ds, i as int + 1);
                }
            }
            return None;
        }
        value = value * 10 + d;
        i = i + 1;
    }
    assert(cs@.subrange(0, cs.len() as int) =~= ds);
    Some(value)
}

/// A persisted subscription, as far as verification reads it.
#[derive(Debug, PartialEq)]
pub struct Subscription {
    pub subscribed: bool,
    pub topic: String,
    /// End of the lease, in seconds since the Unix epoch.
    pub lease_end: i64,
}

/// A verification request from the hub.
#[derive(Debug, PartialEq)]
pub enum Verification {
    Subscribe { topic: String, challenge: String, lease_seconds: u64 },
    Unsubscribe { topic: String, challenge: String },
}

/// The answer to a verification request, and what becomes of the record.
#[derive(Debug, PartialEq)]
pub enum VerifyOutcome {
    /// 200 with the challenge; the lease now ends at `lease_end`.
    Renew { challenge: String, lease_end: i64 },
    /// 200 with the challenge; the record is deleted.
    Delete { challenge: String },
    /// 400; the record is unchanged.
    BadRequest,
    /// 404: no such subscription.
    NotFound,
}

/// `now` plus `seconds`, held at `i64::MAX`.
pub open spec fn lease_end_after(now: i64, seconds: u64) -> i64 {
    if now + seconds > i64::MAX {
        i64::MAX
    } else {
        (now + seconds) as i64
    }
}

/// The verification table: a subscribe is confirmed for a subscribed record
/// of the same topic, an unsubscribe for an unsubscribed record of the same
/// topic; anything else on a record is refused, and an absent record is not
/// found.
pub fn decide_verification(record: Option<&Subscription>, request: &Verification, now: i64) -> (r: VerifyOutcome)
    ensures
        record is None ==> r is NotFound,
        record matches Some(rec) ==> match request {
            Verification::Subscribe { topic, challenge, lease_seconds } => if rec.subscribed && topic@ == rec.topic@ {
                r matches VerifyOutcome::Renew { challenge: c, lease_end } && c@ == challenge@ && lease_end
                    == lease_end_after(now, *lease_seconds)
            } else {
                r is BadRequest
            },
            Verification::Unsubscribe { topic, challenge } => if !rec.subscribed && topic@ == rec.topic@ {
                r matches VerifyOutcome::Delete { challenge: c } && c@ == challenge@
            } else {
                r is BadRequest
            },
        },
{
    let rec = match record {
        None => return VerifyOutcome::NotFound,
        Some(rec) => rec,
    };
    match request {
        Verification::Subscribe { topic, challenge, lease_seconds } => {
            if rec.subscribed && text_eq(topic.as_str(), rec.topic.as_str()) {
                let end: i64 = if (*lease_seconds as i128) + (now as i128) > (i64::MAX as i128) {
                    i64::MAX
                } else {
                    ((*lease_seconds as i128) + (now as i128)) as i64
                };
                VerifyOutcome::Renew { challenge: challenge.clone(), lease_end: end }
            } else {
                VerifyOutcome::BadRequest
            }
        },
        Verification::Unsubscribe { topic, challenge } => {
            if !rec.subscribed && text_eq(topic.as_str(), rec.topic.as_str()) {
                VerifyOutcome::Delete { challenge: challenge.clone() }
            } else {
                VerifyOutcome::BadRequest
            }
        },
    }
}

} // verus!
