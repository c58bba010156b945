//! The host side of the capsule ABI: what the host functions compute.
//! Reading and writing the capsule's linear memory is the caller's part;
//! a host function here takes the bytes that the capsule pointed at and
//! gives the bytes to write back.

use vstd::prelude::*;
use vstd::string::*;
use vstd::utf8::encode_utf8;
use crate::clock::{current_instant, millis_of, to_millis};
use crate::digest::{blake3_digest, commit};
use crate::hexcode::{decode_hex, lemma_hex_round_trip};
use crate::text::{decimal, push_decimal};

verus! {

/// The status that a host function returns when all went well.
pub const HOST_OK: i32 = 0;

/// The length of what `hash_commit` writes back.
pub const HASH_LEN: usize = 32;

/// `hash_commit`: the 32 bytes of the BLAKE3 digest of the buffer.
pub fn hash_commit(buffer: &[u8]) -> (r: Vec<u8>)
    ensures
        r@ == blake3_digest(buffer@),
        r@.len() == HASH_LEN,
{
    let text = commit(buffer);
    proof {
        lemma_hex_round_trip(blake3_digest(buffer@));
    }
    match decode_hex(text.as_str()) {
        Ok(bytes) => bytes,
        Err(_) => {
            proof {
                assert(false);
            }
            Vec::new()
        },
    }
}

/// The milliseconds that `time_now_ms` reports for an instant: those
/// since the Unix epoch, no more than `i64::MAX`.
pub open spec fn reported_millis(seconds: i64, nanos: u32) -> i64 {
    if millis_of(seconds, nanos) > i64::MAX {
        i64::MAX
    } else {
        millis_of(seconds, nanos) as i64
    }
}

/// `time_now_ms`: milliseconds since the Unix epoch, now. The value is
/// that of `reported_millis` for the current instant.
pub fn time_now_ms() -> (r: i64)
    ensures
        r >= 0,
        exists|seconds: i64, nanos: u32| r == #[trigger] reported_millis(seconds, nanos),
{
    let (seconds, nanos) = current_instant();
    let r = time_ms_at(seconds, nanos);
    assert(r == reported_millis(seconds, nanos));
    r
}

/// What `time_now_ms` reports at a given instant.
pub fn time_ms_at(seconds: i64, nanos: u32) -> (r: i64)
    ensures
        r == reported_millis(seconds, nanos),
        r >= 0,
{
    let millis = to_millis(seconds, nanos);
    if millis > i64::MAX as u64 {
        i64::MAX
    } else {
        millis as i64
    }
}

/// The seed of an execution's random stream: the capsule, the input and
/// the nonce.
pub open spec fn random_seed(capsule_id: Seq<char>, input_commit: Seq<char>, nonce: u64) -> Seq<char> {
    capsule_id + seq![':'] + input_commit + seq![':'] + decimal(nonce as nat)
}

/// Block `k` of the random stream under `seed`: the BLAKE3 digest of the
/// seed followed by a colon and the decimal numeral of `k`.
pub open spec fn random_block(seed: Seq<char>, k: nat) -> Seq<u8> {
    blake3_digest(encode_utf8(seed + seq![':'] + decimal(k)))
}

/// Byte `i` of the random stream under `seed`: the blocks follow one
/// another, 32 bytes each.
pub open spec fn random_byte(seed: Seq<char>, i: nat) -> u8 {
    random_block(seed, i / 32)[(i % 32) as int]
}

/// The bytes of the random stream under `seed` from place `from` up to,
/// not including, place `to`.
pub open spec fn random_stream(seed: Seq<char>, from: nat, to: nat) -> Seq<u8> {
    Seq::new((to - from) as nat, |i: int| random_byte(seed, (from + i) as nat))
}

/// The deterministic random source of one execution. Two executions of
/// one capsule on one input under one nonce draw the same bytes.
pub struct HostRandom {
    seed: String,
    position: u64,
}

impl HostRandom {
    /// The seed of the stream.
    pub closed spec fn seed(&self) -> Seq<char> {
        self.seed@
    }

    /// How many bytes were drawn so far.
    pub closed spec fn drawn(&self) -> u64 {
        self.position
    }

    /// The random source of the execution of the capsule `capsule_id` on
    /// the input with commitment `input_commit` under `nonce`; nothing is
    /// drawn yet.
    pub fn new(capsule_id: &str, input_commit: &str, nonce: u64) -> (r: Self)
        ensures
            r.seed() == random_seed(capsule_id@, input_commit@, nonce),
            r.drawn() == 0,
    {
        let mut seed = capsule_id.to_owned();
        seed.push(':');
        seed.append(input_commit);
        seed.push(':');
        push_decimal(&mut seed, nonce as u128);
        proof {
            assert(seed@ =~= random_seed(capsule_id@, input_commit@, nonce));
        }
        HostRandom { seed, position: 0 }
    }

    /// Block `k` of the stream.
    fn block(&self, k: u64) -> (r: Vec<u8>)
        ensures
            r@ == random_block(self.seed(), k as nat),
            r@.len() == 32,
    {
        let mut text = self.seed.clone();
        text.push(':');
        push_decimal(&mut text, k as u128);
        proof {
            assert(text@ =~= self.seed@ + seq![':'] + decimal(k as nat));
        }
        hash_commit(text.as_str().as_bytes())
    }

    /// `random_bytes`: draws the next `len` bytes of the stream. Where the
    /// stream's counter of 64 bits would run over, nothing is drawn and the
    /// answer is `None`.
    pub fn random_bytes(&mut self, len: usize) -> (r: Option<Vec<u8>>)
        ensures
            final(self).seed() == old(self).seed(),
            match r {
                Some(bytes) => old(self).drawn() + len <= u64::MAX && final(self).drawn()
                    == old(self).drawn() + len && bytes@ == random_stream(
                    old(self).seed(),
                    old(self).drawn() as nat,
                    (old(self).drawn() + len) as nat,
                ),
                None => old(self).drawn() + len > u64::MAX && final(self).drawn() == old(
                    self,
                ).drawn(),
            },
    {
        if len as u128 > (u64::MAX - self.position) as u128 {
            return None;
        }
        let start = self.position;
        let mut out: Vec<u8> = Vec::new();
        let mut at: u64 = start;
        let end: u64 = start + len as u64;
        let mut block = self.block(at / 32);
        while at < end
            invariant
                start <= at <= end,
                self.seed@ == old(self).seed@,
                block@ == random_block(self.seed@, at as nat / 32),
                block@.len() == 32,
                out@ == random_stream(self.seed@, start as nat, at as nat),
            decreases end - at,
        {
            out.push(block[(at % 32) as usize]);
            proof {
                assert(block@[(at % 32) as int] == random_byte(self.seed@, at as nat));
                assert(out@ =~= random_stream(self.seed@, start as nat, (at + 1) as nat));
            }
            at = at + 1;
            if at % 32 == 0 {
                block = self.block(at / 32);
            }
        }
        self.position = end;
        Some(out)
    }
}

/// The character, as its ASCII code, that stands for the value `v`, below
/// 64, in the standard Base64 alphabet: `A` to `Z`, `a` to `z`, `0` to
/// `9`, `+` and `/`.
pub open spec fn base64_symbol(v: int) -> u8 {
    if v < 26 {
        (65 + v) as u8
    } else if v < 52 {
        (71 + v) as u8
    } else if v < 62 {
        (v - 4) as u8
    } else if v == 62 {
        43
    } else {
        47
    }
}

/// The value that a character of the alphabet stands for; zero for any
/// other character.
pub open spec fn base64_value(c: u8) -> int {
    if 65 <= c <= 90 {
        c - 65
    } else if 97 <= c <= 122 {
        c - 71
    } else if 48 <= c <= 57 {
        c + 4
    } else if c == 43 {
        62
    } else if c == 47 {
        63
    } else {
        0
    }
}

/// The Base64 text of `bytes`, as ASCII codes: four characters for every
/// three bytes, the last group padded with `=`, no line breaks.
pub open spec fn base64_encoding(bytes: Seq<u8>) -> Seq<u8>
    decreases bytes.len(),
{
    if bytes.len() == 0 {
        Seq::<u8>::empty()
    } else {
        let b0 = bytes[0] as int;
        if bytes.len() == 1 {
            seq![base64_symbol(b0 / 4), base64_symbol(b0 % 4 * 16), 61u8, 61u8]
        } else {
            let b1 = bytes[1] as int;
            if bytes.len() == 2 {
                seq![
                    base64_symbol(b0 / 4),
                    base64_symbol(b0 % 4 * 16 + b1 / 16),
                    base64_symbol(b1 % 16 * 4),
                    61u8,
                ]
            } else {
                let b2 = bytes[2] as int;
                seq![
                    base64_symbol(b0 / 4),
                    base64_symbol(b0 % 4 * 16 + b1 / 16),
                    base64_symbol(b1 % 16 * 4 + b2 / 64),
                    base64_symbol(b2 % 64),
                ] + base64_encoding(bytes.skip(3))
            }
        }
    }
}

/// What the groups of four characters of `text` stand for when every
/// character is read for its value: three bytes a group, two where the
/// fourth character is `=`, one where the third is.
pub open spec fn base64_reading(text: Seq<u8>) -> Seq<u8>
    decreases text.len(),
{
    if text.len() < 4 {
        Seq::<u8>::empty()
    } else {
        let v0 = base64_value(text[0]);
        let v1 = base64_value(text[1]);
        let v2 = base64_value(text[2]);
        let v3 = base64_value(text[3]);
        let first = (v0 * 4 + v1 / 16) as u8;
        let second = (v1 % 16 * 16 + v2 / 4) as u8;
        let third = (v2 % 4 * 64 + v3) as u8;
        (if text[2] == 61 {
            seq![first]
        } else if text[3] == 61 {
            seq![first, second]
        } else {
            seq![first, second, third]
        }) + base64_reading(text.skip(4))
    }
}

/// Every symbol of the alphabet stands for its value and is not the
/// padding character.
pub proof fn lemma_base64_symbol(v: int)
    requires
        0 <= v < 64,
    ensures
        base64_value(base64_symbol(v)) == v,
        base64_symbol(v) != 61,
{
}

/// Reading a Base64 text gives back the bytes that it was made from.
pub proof fn lemma_base64_round_trip(bytes: Seq<u8>)
    ensures
        base64_reading(base64_encoding(bytes)) == bytes,
    decreases bytes.len(),
{
    let text = base64_encoding(bytes);
    if bytes.len() == 0 {
        assert(base64_reading(text) =~= bytes);
    } else {
        let b0 = bytes[0] as int;
        lemma_base64_symbol(b0 / 4);
        if bytes.len() == 1 {
            lemma_base64_symbol(b0 % 4 * 16);
            assert(text.skip(4) =~= Seq::<u8>::empty());
            assert(base64_reading(text.skip(4)) =~= Seq::<u8>::empty());
            assert(text[2] == 61);
            assert(base64_reading(text) =~= bytes);
        } else {
            let b1 = bytes[1] as int;
            lemma_base64_symbol(b0 % 4 * 16 + b1 / 16);
            if bytes.len() == 2 {
                lemma_base64_symbol(b1 % 16 * 4);
                assert(text.skip(4) =~= Seq::<u8>::empty());
                assert(base64_reading(text.skip(4)) =~= Seq::<u8>::empty());
                assert(text[2] != 61 && text[3] == 61);
                assert(base64_reading(text) =~= bytes);
            } else {
                let b2 = bytes[2] as int;
                lemma_base64_symbol(b1 % 16 * 4 + b2 / 64);
                lemma_base64_symbol(b2 % 64);
                lemma_base64_round_trip(bytes.skip(3));
                assert(text.skip(4) =~= base64_encoding(bytes.skip(3)));
                assert(base64_reading(text) =~= seq![bytes[0], bytes[1], bytes[2]] + bytes.skip(3));
                assert(seq![bytes[0], bytes[1], bytes[2]] + bytes.skip(3) =~= bytes);
            }
        }
    }
}

/// The character of the alphabet for a value below 64.
fn symbol_of(v: u8) -> (r: u8)
    requires
        v < 64,
    ensures
        r == base64_symbol(v as int),
{
    if v < 26 {
        65 + v
    } else if v < 52 {
        71 + v
    } else if v < 62 {
        v - 4
    } else if v == 62 {
        43
    } else {
        47
    }
}

/// The value of a character of the alphabet; zero for any other.
fn value_of(c: u8) -> (r: u8)
    ensures
        r == base64_value(c),
        r < 64,
{
    if 65 <= c && c <= 90 {
        c - 65
    } else if 97 <= c && c <= 122 {
        c - 71
    } else if 48 <= c && c <= 57 {
        c + 4
    } else if c == 43 {
        62
    } else if c == 47 {
        63
    } else {
        0
    }
}

/// `base64_encode`: the Base64 text of the buffer, in the standard
/// alphabet, padded, without line breaks.
pub fn base64_encode(bytes: &[u8]) -> (r: Vec<u8>)
    ensures
        r@ == base64_encoding(bytes@),
{
    let mut out: Vec<u8> = Vec::new();
    let mut i: usize = 0;
    proof {
        assert(bytes@.skip(0) =~= bytes@);
    }
    while bytes.len() - i >= 3
        invariant
            i <= bytes@.len(),
            out@ + base64_encoding(bytes@.skip(i as int)) == base64_encoding(bytes@),
        decreases bytes@.len() - i,
    {
        let b0 = bytes[i];
        let b1 = bytes[i + 1];
        let b2 = bytes[i + 2];
        let ghost rest = bytes@.skip(i as int);
        let ghost before = out@;
        out.push(symbol_of(b0 / 4));
        out.push(symbol_of(b0 % 4 * 16 + b1 / 16));
        out.push(symbol_of(b1 % 16 * 4 + b2 / 64));
        out.push(symbol_of(b2 % 64));
        proof {
            assert(rest[0] == b0 && rest[1] == b1 && rest[2] == b2);
            assert(rest.skip(3) =~= bytes@.skip(i as int + 3));
            assert(out@ + base64_encoding(bytes@.skip(i as int + 3)) =~= before + base64_encoding(
                rest,
            ));
        }
        i += 3;
    }
    let ghost rest = bytes@.skip(i as int);
    let ghost before = out@;
    if bytes.len() - i == 1 {
        let b0 = bytes[i];
        out.push(symbol_of(b0 / 4));
        out.push(symbol_of(b0 % 4 * 16));
        out.push(61);
        out.push(61);
        proof {
            assert(rest[0] == b0);
            assert(out@ =~= before + base64_encoding(rest));
        }
    } else if bytes.len() - i == 2 {
        let b0 = bytes[i];
        let b1 = bytes[i + 1];
        out.push(symbol_of(b0 / 4));
        out.push(symbol_of(b0 % 4 * 16 + b1 / 16));
        out.push(symbol_of(b1 % 16 * 4));
        out.push(61);
        proof {
            assert(rest[0] == b0 && rest[1] == b1);
            assert(out@ =~= before + base64_encoding(rest));
        }
    } else {
        proof {
            assert(out@ =~= before + base64_encoding(rest));
        }
    }
    out
}

/// Reads the groups of four characters for their values.
fn base64_read(text: &[u8]) -> (r: Vec<u8>)
    ensures
        r@ == base64_reading(text@),
{
    let mut out: Vec<u8> = Vec::new();
    let mut i: usize = 0;
    proof {
        assert(text@.skip(0) =~= text@);
    }
    while text.len() - i >= 4
        invariant
            i <= text@.len(),
            out@ + base64_reading(text@.skip(i as int)) == base64_reading(text@),
        decreases text@.len() - i,
    {
        let v0 = value_of(text[i]);
        let v1 = value_of(text[i + 1]);
        let v2 = value_of(text[i + 2]);
        let v3 = value_of(text[i + 3]);
        let ghost rest = text@.skip(i as int);
        let ghost before = out@;
        out.push(v0 * 4 + v1 / 16);
        if text[i + 2] != 61 {
            out.push(v1 % 16 * 16 + v2 / 4);
            if text[i + 3] != 61 {
                out.push(v2 % 4 * 64 + v3);
            }
        }
        proof {
            assert(rest[0] == text@[i as int] && rest[1] == text@[i + 1] && rest[2] == text@[i + 2]
                && rest[3] == text@[i + 3]);
            assert(rest.skip(4) =~= text@.skip(i as int + 4));
            assert(out@ + base64_reading(text@.skip(i as int + 4)) =~= before + base64_reading(rest));
        }
        i += 4;
    }
    proof {
        assert(out@ + base64_reading(text@.skip(i as int)) =~= out@);
    }
    out
}

/// Whether two byte strings are equal.
fn bytes_equal(a: &[u8], b: &[u8]) -> (r: bool)
    ensures
        r == (a@ == b@),
{
    if a.len() != b.len() {
        return false;
    }
    let mut i: usize = 0;
    while i < a.len()
        invariant
            i <= a@.len(),
            a@.len() == b@.len(),
            forall|j: int| 0 <= j < i ==> a@[j] == b@[j],
        decreases a@.len() - i,
    {
        if a[i] != b[i] {
            return false;
        }
        i += 1;
    }
    proof {
        assert(a@ =~= b@);
    }
    true
}

/// `base64_decode`: the bytes of which the buffer is the Base64 text;
/// `None` where the buffer is the Base64 text of nothing, be it for a
/// character outside the alphabet, a length that is no multiple of four,
/// misplaced padding or bits left over.
pub fn base64_decode(text: &[u8]) -> (r: Option<Vec<u8>>)
    ensures
        match r {
            Some(bytes) => base64_encoding(bytes@) == text@,
            None => forall|bytes: Seq<u8>| base64_encoding(bytes) != text@,
        },
{
    let candidate = base64_read(text);
    let again = base64_encode(candidate.as_slice());
    if bytes_equal(again.as_slice(), text) {
        Some(candidate)
    } else {
        proof {
            assert forall|bytes: Seq<u8>| base64_encoding(bytes) != text@ by {
                if base64_encoding(bytes) == text@ {
                    lemma_base64_round_trip(bytes);
                    assert(candidate@ == bytes);
                }
            }
        }
        None
    }
}

} // verus!
