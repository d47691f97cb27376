//! The byte layout of the messages exchanged with the remote party:
//! challenges and scores coming in, responses going out.

use vstd::prelude::*;

verus! {

/// The eight bytes of `x`, least significant first.
pub open spec fn le_bytes(x: u64) -> Seq<u8> {
    seq![
        (x % 0x100) as u8,
        (x / 0x100 % 0x100) as u8,
        (x / 0x1_0000 % 0x100) as u8,
        (x / 0x100_0000 % 0x100) as u8,
        (x / 0x1_0000_0000 % 0x100) as u8,
        (x / 0x100_0000_0000 % 0x100) as u8,
        (x / 0x1_0000_0000_0000 % 0x100) as u8,
        (x / 0x100_0000_0000_0000 % 0x100) as u8,
    ]
}

/// The number that the first eight bytes of `bytes` spell, least significant
/// byte first.
pub open spec fn le_value(bytes: Seq<u8>) -> int {
    bytes[0] + bytes[1] * 0x100 + bytes[2] * 0x1_0000 + bytes[3] * 0x100_0000 + bytes[4]
        * 0x1_0000_0000 + bytes[5] * 0x100_0000_0000 + bytes[6] * 0x1_0000_0000_0000 + bytes[7]
        * 0x100_0000_0000_0000
}

/// The number that the first four bytes of `bytes` spell, most significant
/// byte first.
pub open spec fn be_value(bytes: Seq<u8>) -> int {
    bytes[0] * 0x100_0000 + bytes[1] * 0x1_0000 + bytes[2] * 0x100 + bytes[3]
}

/// A number is its lowest byte plus 256 times the rest.
proof fn lemma_low_byte(x: int, low: int, rest: int)
    requires
        0 <= low < 0x100,
        x == rest * 0x100 + low,
    ensures
        x / 0x100 == rest,
        x % 0x100 == low,
{
}

/// Decoding undoes encoding: the bytes of `x` spell `x`.
pub proof fn lemma_le_round_trip(x: u64)
    ensures
        le_bytes(x).len() == 8,
        le_value(le_bytes(x)) == x,
{
    let q1 = x as int / 0x100;
    let q2 = q1 / 0x100;
    let q3 = q2 / 0x100;
    let q4 = q3 / 0x100;
    let q5 = q4 / 0x100;
    let q6 = q5 / 0x100;
    let q7 = q6 / 0x100;
    assert(q2 == x / 0x1_0000);
    assert(q3 == x / 0x100_0000);
    assert(q4 == x / 0x1_0000_0000);
    assert(q5 == x / 0x100_0000_0000);
    assert(q6 == x / 0x1_0000_0000_0000);
    assert(q7 == x / 0x100_0000_0000_0000);
    assert(q7 < 0x100);
    assert(x == q1 * 0x100 + x % 0x100);
    assert(q1 == q2 * 0x100 + q1 % 0x100);
    assert(q2 == q3 * 0x100 + q2 % 0x100);
    assert(q3 == q4 * 0x100 + q3 % 0x100);
    assert(q4 == q5 * 0x100 + q4 % 0x100);
    assert(q5 == q6 * 0x100 + q5 % 0x100);
    assert(q6 == q7 * 0x100 + q6 % 0x100);
}

/// Encoding undoes decoding: eight bytes are the bytes of the number they spell.
pub proof fn lemma_le_bytes_of_value(bytes: Seq<u8>)
    requires
        bytes.len() == 8,
    ensures
        0 <= le_value(bytes) <= u64::MAX,
        le_bytes(le_value(bytes) as u64) =~= bytes,
{
    let x = le_value(bytes);
    let t7 = bytes[7] as int;
    let t6 = t7 * 0x100 + bytes[6];
    let t5 = t6 * 0x100 + bytes[5];
    let t4 = t5 * 0x100 + bytes[4];
    let t3 = t4 * 0x100 + bytes[3];
    let t2 = t3 * 0x100 + bytes[2];
    let t1 = t2 * 0x100 + bytes[1];
    assert(x == t1 * 0x100 + bytes[0]);
    lemma_low_byte(x, bytes[0] as int, t1);
    lemma_low_byte(t1, bytes[1] as int, t2);
    lemma_low_byte(t2, bytes[2] as int, t3);
    lemma_low_byte(t3, bytes[3] as int, t4);
    lemma_low_byte(t4, bytes[4] as int, t5);
    lemma_low_byte(t5, bytes[5] as int, t6);
    lemma_low_byte(t6, bytes[6] as int, t7);
    assert(t2 == x / 0x1_0000);
    assert(t3 == x / 0x100_0000);
    assert(t4 == x / 0x1_0000_0000);
    assert(t5 == x / 0x100_0000_0000);
    assert(t6 == x / 0x1_0000_0000_0000);
    assert(t7 == x / 0x100_0000_0000_0000);
    assert(t7 % 0x100 == bytes[7]);
}

/// Two numbers with the same bytes are the same number.
pub proof fn lemma_le_bytes_injective(x: u64, y: u64)
    requires
        le_bytes(x) == le_bytes(y),
    ensures
        x == y,
{
    lemma_le_round_trip(x);
    lemma_le_round_trip(y);
}

/// Writes `x` as eight bytes, least significant first.
pub fn u64_to_le(x: u64) -> (bytes: [u8; 8])
    ensures
        bytes@ == le_bytes(x),
{
    let bytes: [u8; 8] = [
        (x % 0x100) as u8,
        (x / 0x100 % 0x100) as u8,
        (x / 0x1_0000 % 0x100) as u8,
        (x / 0x100_0000 % 0x100) as u8,
        (x / 0x1_0000_0000 % 0x100) as u8,
        (x / 0x100_0000_0000 % 0x100) as u8,
        (x / 0x1_0000_0000_0000 % 0x100) as u8,
        (x / 0x100_0000_0000_0000 % 0x100) as u8,
    ];
    assert(bytes@ =~= le_bytes(x));
    bytes
}

/// Reads the eight bytes of `data` from `at` on as a number, least
/// significant byte first.
pub fn u64_from_le(data: &[u8], at: usize) -> (x: u64)
    requires
        at + 8 <= data@.len(),
    ensures
        x == le_value(data@.subrange(at as int, at + 8)),
{
    let x: u64 = data[at] as u64 + data[at + 1] as u64 * 0x100 + data[at + 2] as u64 * 0x1_0000
        + data[at + 3] as u64 * 0x100_0000 + data[at + 4] as u64 * 0x1_0000_0000 + data[at
        + 5] as u64 * 0x100_0000_0000 + data[at + 6] as u64 * 0x1_0000_0000_0000 + data[at
        + 7] as u64 * 0x100_0000_0000_0000;
    x
}

/// The sixteen bytes of two numbers, each least significant byte first, the
/// bytes of `first` before those of `second`.
pub open spec fn pair_bytes(first: u64, second: u64) -> Seq<u8> {
    le_bytes(first) + le_bytes(second)
}

/// Both halves of a pair's bytes can be read back.
pub proof fn lemma_pair_fields(first: u64, second: u64)
    ensures
        pair_bytes(first, second).len() == 16,
        le_value(pair_bytes(first, second).subrange(0, 8)) == first,
        le_value(pair_bytes(first, second).subrange(8, 16)) == second,
{
    lemma_le_round_trip(first);
    lemma_le_round_trip(second);
    assert(pair_bytes(first, second).subrange(0, 8) =~= le_bytes(first));
    assert(pair_bytes(first, second).subrange(8, 16) =~= le_bytes(second));
}

/// Different pairs have different bytes.
pub proof fn lemma_pair_bytes_injective(a: u64, b: u64, c: u64, d: u64)
    requires
        pair_bytes(a, b) == pair_bytes(c, d),
    ensures
        a == c,
        b == d,
{
    lemma_pair_fields(a, b);
    lemma_pair_fields(c, d);
}

/// Writes two numbers as sixteen bytes, each least significant byte first.
pub fn encode_pair(first: u64, second: u64) -> (bytes: [u8; 16])
    ensures
        bytes@ == pair_bytes(first, second),
{
    let head: [u8; 8] = u64_to_le(first);
    let tail: [u8; 8] = u64_to_le(second);
    let mut bytes: [u8; 16] = [0u8; 16];
    let mut i: usize = 0;
    while i < 8
        invariant
            i <= 8,
            forall|j: int| 0 <= j < i ==> bytes@[j] == head@[j],
            forall|j: int| 0 <= j < i ==> bytes@[8 + j] == tail@[j],
        decreases 8 - i,
    {
        bytes[i] = head[i];
        bytes[8 + i] = tail[i];
        i += 1;
    }
    assert(bytes@ =~= pair_bytes(first, second));
    bytes
}

/// A proof-of-work task: find a nonce whose digest with `seed` starts with
/// exactly `difficulty` zero bits.
#[derive(Clone, Copy, Debug, PartialEq, Eq, Structural)]
pub struct Challenge {
    pub seed: u64,
    pub difficulty: u8,
}

/// The nine bytes of a challenge message: the seed, least significant byte
/// first, then the difficulty.
pub open spec fn challenge_bytes(challenge: Challenge) -> Seq<u8> {
    le_bytes(challenge.seed).push(challenge.difficulty)
}

/// The challenge that `data` holds: one for every message of nine bytes, none
/// for any other length.
pub open spec fn parse_challenge(data: Seq<u8>) -> Option<Challenge> {
    if data.len() == 9 {
        Some(Challenge { seed: le_value(data.subrange(0, 8)) as u64, difficulty: data[8] })
    } else {
        None
    }
}

/// The sixteen bytes of a response message: the seed echoed, then the nonce.
pub open spec fn response_bytes(seed: u64, nonce: u64) -> Seq<u8> {
    pair_bytes(seed, nonce)
}

/// The score that `data` holds: one for every message of four bytes, most
/// significant byte first, none for any other length.
pub open spec fn parse_score(data: Seq<u8>) -> Option<u32> {
    if data.len() == 4 {
        Some(be_value(data) as u32)
    } else {
        None
    }
}

/// A challenge that is written out and read back is the same challenge.
pub proof fn lemma_challenge_round_trip(challenge: Challenge)
    ensures
        challenge_bytes(challenge).len() == 9,
        parse_challenge(challenge_bytes(challenge)) == Some(challenge),
{
    lemma_le_round_trip(challenge.seed);
    assert(challenge_bytes(challenge).subrange(0, 8) =~= le_bytes(challenge.seed));
}

/// Nine bytes that are read as a challenge and written out again are the
/// same nine bytes.
pub proof fn lemma_challenge_bytes_of_parsed(data: Seq<u8>)
    requires
        data.len() == 9,
    ensures
        challenge_bytes(parse_challenge(data).unwrap()) == data,
{
    lemma_le_bytes_of_value(data.subrange(0, 8));
    assert(challenge_bytes(parse_challenge(data).unwrap()) =~= data);
}

impl Challenge {
    /// Writes the challenge as its nine-byte message.
    pub fn encode(&self) -> (bytes: [u8; 9])
        ensures
            bytes@ == challenge_bytes(*self),
    {
        let head: [u8; 8] = u64_to_le(self.seed);
        let mut bytes: [u8; 9] = [0u8; 9];
        let mut i: usize = 0;
        while i < 8
            invariant
                i <= 8,
                forall|j: int| 0 <= j < i ==> bytes@[j] == head@[j],
            decreases 8 - i,
        {
            bytes[i] = head[i];
            i += 1;
        }
        bytes[8] = self.difficulty;
        assert(bytes@ =~= challenge_bytes(*self));
        bytes
    }

    /// Reads a challenge message; any length but nine is no challenge.
    pub fn decode(data: &[u8]) -> (challenge: Option<Challenge>)
        ensures
            challenge == parse_challenge(data@),
    {
        if data.len() == 9 {
            Some(Challenge { seed: u64_from_le(data, 0), difficulty: data[8] })
        } else {
            None
        }
    }
}

/// Writes the response message for a nonce found for `seed`.
pub fn encode_response(seed: u64, nonce: u64) -> (bytes: [u8; 16])
    ensures
        bytes@ == response_bytes(seed, nonce),
{
    encode_pair(seed, nonce)
}

/// Reads a score message; any length but four is no score.
pub fn decode_score(data: &[u8]) -> (score: Option<u32>)
    ensures
        score == parse_score(data@),
{
    if data.len() == 4 {
        let score: u32 = data[0] as u32 * 0x100_0000 + data[1] as u32 * 0x1_0000 + data[2] as u32
            * 0x100 + data[3] as u32;
        Some(score)
    } else {
        None
    }
}

/// What an inbound binary message means to the session.
#[derive(Clone, Copy, Debug, PartialEq, Eq, Structural)]
pub enum Inbound {
    /// Nine bytes: a new challenge, which supersedes the one before.
    Challenge(Challenge),
    /// Four bytes: the remote party's score, for display only.
    Score(u32),
    /// Any other length: nothing the session acts on.
    Unrecognized,
}

/// The meaning of a binary message, which its length alone decides.
pub open spec fn parse_inbound(data: Seq<u8>) -> Inbound {
    if data.len() == 9 {
        Inbound::Challenge(parse_challenge(data).unwrap())
    } else if data.len() == 4 {
        Inbound::Score(parse_score(data).unwrap())
    } else {
        Inbound::Unrecognized
    }
}

/// Sorts an inbound binary message by its length and reads its fields.
pub fn classify(data: &[u8]) -> (inbound: Inbound)
    ensures
        inbound == parse_inbound(data@),
{
    match Challenge::decode(data) {
        Some(challenge) => Inbound::Challenge(challenge),
        None => match decode_score(data) {
            Some(score) => Inbound::Score(score),
            None => Inbound::Unrecognized,
        },
    }
}

} // verus!
