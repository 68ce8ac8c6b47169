//! Points in time, and their Avro encoding: a zig-zag number written as a
//! variable-length sequence of 7-bit groups.

use vstd::prelude::*;

verus! {

/// A point in time, as whole seconds since the Unix epoch.
#[derive(PartialEq, Eq, PartialOrd, Ord, Clone, Debug)]
pub struct Timestamp {
    pub timestamp: i64,
}

// ---------------------------------------------------------------------------
// The Avro integer encoding
// ---------------------------------------------------------------------------

/// The zig-zag map from signed to unsigned numbers: 0, -1, 1, -2, ... go to
/// 0, 1, 2, 3, ...
pub open spec fn zig_zag_spec(n: int) -> int {
    if n >= 0 {
        2 * n
    } else {
        -2 * n - 1
    }
}

/// The inverse of `zig_zag_spec`.
pub open spec fn unzig_zag_spec(u: int) -> int {
    if u % 2 == 0 {
        u / 2
    } else {
        -((u + 1) / 2)
    }
}

/// The variable-length encoding of a natural number: 7 bits per byte, least
/// significant group first, the high bit set on every byte but the last.
pub open spec fn var_len_spec(n: nat) -> Seq<u8>
    decreases n,
{
    if n < 128 {
        seq![n as u8]
    } else {
        seq![(n % 128 + 128) as u8] + var_len_spec(n / 128)
    }
}

/// Reading a variable-length number from the front of `s`, when the first
/// byte of `s` is the byte number `i` of the number: the number and how many
/// bytes it took. Bytes run out, or a tenth byte above 1, give nothing.
pub open spec fn var_len_decode(s: Seq<u8>, i: nat) -> Option<(int, nat)>
    decreases 10 - i,
{
    if s.len() == 0 {
        None
    } else if i >= 9 && s[0] >= 2 {
        None
    } else if s[0] < 128 {
        Some((s[0] as int, 1))
    } else if i >= 9 {
        None
    } else {
        match var_len_decode(s.drop_first(), i + 1) {
            Some((v, n)) => Some(((s[0] - 128) + 128 * v, n + 1)),
            None => None,
        }
    }
}

proof fn lemma_var_len_decode_length(s: Seq<u8>, i: nat)
    ensures
        var_len_decode(s, i) matches Some((v, n)) ==> 1 <= n <= s.len(),
    decreases 10 - i,
{
    if s.len() > 0 && !(i >= 9 && s[0] >= 2) && s[0] >= 128 && i < 9 {
        lemma_var_len_decode_length(s.drop_first(), i + 1);
    }
}

/// The bound below which a number still fits in the bytes left when its
/// encoding starts at byte number `i`: 2, 2*128, ... up to 2^64 at byte 0.
pub open spec fn var_len_cap(i: nat) -> int
    decreases 9 - i,
{
    if i >= 9 {
        2
    } else {
        128 * var_len_cap(i + 1)
    }
}

proof fn lemma_var_len_round_trip(n: nat, i: nat, rest: Seq<u8>)
    requires
        i <= 9,
        n < var_len_cap(i),
    ensures
        var_len_decode(var_len_spec(n) + rest, i) == Some((n as int, var_len_spec(n).len())),
    decreases n,
{
    let s = var_len_spec(n) + rest;
    if n < 128 {
        assert(s[0] == n as u8);
    } else {
        assert(i < 9);
        assert(var_len_cap(i) == 128 * var_len_cap(i + 1));
        assert(n / 128 < var_len_cap(i + 1));
        lemma_var_len_round_trip(n / 128, i + 1, rest);
        assert(s.drop_first() =~= var_len_spec(n / 128) + rest);
        assert(s[0] == (n % 128 + 128) as u8);
    }
}

/// Decoding what `encode` wrote gives the timestamp back, and reads exactly
/// the bytes it wrote, whatever follows them.
pub proof fn law_decode_after_encode(t: i64, rest: Seq<u8>)
    ensures
        ({
            let bytes = var_len_spec(zig_zag_spec(t as int) as nat);
            &&& var_len_decode(bytes + rest, 0) == Some((zig_zag_spec(t as int), bytes.len()))
            &&& unzig_zag_spec(zig_zag_spec(t as int)) == t
        }),
{
    reveal_with_fuel(var_len_cap, 10);
    assert(var_len_cap(0) == 0x1_0000_0000_0000_0000);
    lemma_var_len_round_trip(zig_zag_spec(t as int) as nat, 0, rest);
}

/// `avro::encode_zig_zag`: the zig-zag image of `n`.
#[verifier::external_body]
fn zig_zag(n: i64) -> (r: u64)
    ensures
        r as int == zig_zag_spec(n as int),
{
    avro::encode_zig_zag(n)
}

/// `avro::decode_zig_zag`: the number whose zig-zag image is `u`.
#[verifier::external_body]
fn unzig_zag(u: u64) -> (r: i64)
    ensures
        r as int == unzig_zag_spec(u as int),
{
    avro::decode_zig_zag(u)
}

/// `avro::encode_var_len_u64`, writing into a fresh `Vec` (a `Vec` never
/// refuses a write): the variable-length encoding of `n`.
#[verifier::external_body]
fn var_len_bytes(n: u64) -> (r: Vec<u8>)
    ensures
        r@ == var_len_spec(n as nat),
{
    let mut out: Vec<u8> = Vec::new();
    let _ = avro::encode_var_len_u64(&mut out, n);
    out
}

/// `avro::decode_var_len_u64`, reading from the front of `bytes`: the number
/// and the bytes after it, or nothing where `bytes` holds no valid number.
#[verifier::external_body]
fn read_var_len<'a>(bytes: &'a [u8]) -> (r: Option<(u64, &'a [u8])>)
    ensures
        match var_len_decode(bytes@, 0) {
            Some((v, n)) => match r {
                Some((value, rest)) => value as int == v && rest@ == bytes@.skip(n as int),
                None => false,
            },
            None => r is None,
        },
{
    let mut rest = bytes;
    match avro::decode_var_len_u64(&mut rest) {
        Ok(v) => Some((v, rest)),
        Err(_) => None,
    }
}

/// `chrono::Utc::now` then `DateTime::timestamp`: the current time in whole
/// seconds since the epoch. Nothing is stated of it: it depends on the
/// clock.
#[verifier::external_body]
fn unix_now() -> i64 {
    chrono::Utc::now().timestamp()
}

impl Timestamp {
    /// Wraps a number of seconds since the epoch.
    pub fn new(t: i64) -> (r: Timestamp)
        ensures
            r.timestamp == t,
    {
        Timestamp { timestamp: t }
    }

    /// The number of seconds since the epoch.
    pub fn timestamp(&self) -> (r: i64)
        ensures
            r == self.timestamp,
    {
        self.timestamp
    }

    /// The current time, from the system clock.
    pub fn now() -> (r: Timestamp) {
        Timestamp::new(unix_now())
    }

    /// The Avro encoding of the number of seconds.
    pub fn encode(&self) -> (r: Vec<u8>)
        ensures
            r@ == var_len_spec(zig_zag_spec(self.timestamp as int) as nat),
    {
        var_len_bytes(zig_zag(self.timestamp))
    }

    /// Reads an Avro-encoded timestamp from the front of `bytes`: the
    /// timestamp and the number of bytes it took.
    pub fn decode(bytes: &[u8]) -> (r: Option<(Timestamp, usize)>)
        ensures
            match var_len_decode(bytes@, 0) {
                Some((v, n)) => r == Some((Timestamp { timestamp: unzig_zag_spec(v) as i64 }, n as usize)),
                None => r is None,
            },
    {
        proof {
            lemma_var_len_decode_length(bytes@, 0);
        }
        match read_var_len(bytes) {
            Some((v, rest)) => {
                let used: usize = bytes.len() - rest.len();
                Some((Timestamp::new(unzig_zag(v)), used))
            },
            None => None,
        }
    }
}

} // verus!
