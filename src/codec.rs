use vstd::prelude::*;

verus! {

/// The number of distinct values that `len` bytes can hold: `256^len`.
pub open spec fn byte_range(len: nat) -> nat
    decreases len,
{
    if len == 0 {
        1
    } else {
        256 * byte_range((len - 1) as nat)
    }
}

/// The `len` little-endian bytes of `n`.
pub open spec fn le_bytes(n: nat, len: nat) -> Seq<u8>
    decreases len,
{
    if len == 0 {
        Seq::empty()
    } else {
        seq![(n % 256) as u8] + le_bytes(n / 256, (len - 1) as nat)
    }
}

/// The number that the bytes of `s` spell in little-endian order.
pub open spec fn le_value(s: Seq<u8>) -> nat
    decreases s.len(),
{
    if s.len() == 0 {
        0
    } else {
        s[0] as nat + 256 * le_value(s.drop_first())
    }
}

/// Reading back the little-endian bytes of a number that fits gives the number.
pub proof fn lemma_le_round_trip(n: nat, len: nat)
    requires
        n < byte_range(len),
    ensures
        le_bytes(n, len).len() == len,
        le_value(le_bytes(n, len)) == n,
    decreases len,
{
    if len > 0 {
        let q = n / 256;
        let r = byte_range((len - 1) as nat);
        assert(q < r) by (nonlinear_arith)
            requires
                n < 256 * r,
                q == n / 256,
        ;
        lemma_le_round_trip(q, (len - 1) as nat);
        let s = le_bytes(n, len);
        assert(s.drop_first() =~= le_bytes(q, (len - 1) as nat));
        assert(n == n % 256 + 256 * q) by (nonlinear_arith)
            requires
                q == n / 256,
        ;
    }
}

/// How many values four, eight and sixteen bytes hold.
pub proof fn lemma_byte_ranges()
    ensures
        byte_range(4) == 0x1_0000_0000,
        byte_range(8) == 0x1_0000_0000_0000_0000,
        byte_range(16) == 0x1_0000_0000_0000_0000_0000_0000_0000_0000,
{
    reveal_with_fuel(byte_range, 17);
}

/// A value that crosses the host boundary as bytes: it encodes to a byte
/// string and decodes from the front of one, and decoding what was encoded
/// gives the value back.
pub trait Codec: Sized {
    /// The bytes that encoding `self` writes.
    spec fn encoded(&self) -> Seq<u8>;

    /// The value that decoding reads from the front of `bytes`, or `None`
    /// where they do not hold one.
    spec fn decoded(bytes: Seq<u8>) -> Option<Self>;

    proof fn lemma_decode_encoded(v: Self)
        ensures
            Self::decoded(v.encoded()) == Some(v),
    ;

    fn encode(&self) -> (r: Vec<u8>)
        ensures
            r@ == self.encoded(),
    ;

    fn decode(bytes: &[u8]) -> (r: Option<Self>)
        ensures
            r == Self::decoded(bytes@),
    ;
}

#[verifier::external_type_specification]
#[verifier::external_body]
pub struct ExScaleError(parity_scale_codec::Error);

/// Relies on parity_scale_codec's `Encode` for `u32`: its four little-endian bytes.
#[verifier::external_body]
fn scale_encode_u32(v: u32) -> (r: Vec<u8>)
    ensures
        r@ == le_bytes(v as nat, 4),
{
    parity_scale_codec::Encode::encode(&v)
}

/// Relies on parity_scale_codec's `Decode` for `u32`: it reads the first four
/// bytes as a little-endian number and fails where there are fewer.
#[verifier::external_body]
fn scale_decode_u32(bytes: &[u8]) -> (r: Result<u32, parity_scale_codec::Error>)
    ensures
        r is Ok <==> bytes@.len() >= 4,
        r is Ok ==> r->Ok_0 as nat == le_value(bytes@.take(4)),
{
    let mut input = bytes;
    <u32 as parity_scale_codec::Decode>::decode(&mut input)
}

/// Relies on parity_scale_codec's `Encode` for `u64`: its eight little-endian bytes.
#[verifier::external_body]
fn scale_encode_u64(v: u64) -> (r: Vec<u8>)
    ensures
        r@ == le_bytes(v as nat, 8),
{
    parity_scale_codec::Encode::encode(&v)
}

/// Relies on parity_scale_codec's `Decode` for `u64`: it reads the first eight
/// bytes as a little-endian number and fails where there are fewer.
#[verifier::external_body]
fn scale_decode_u64(bytes: &[u8]) -> (r: Result<u64, parity_scale_codec::Error>)
    ensures
        r is Ok <==> bytes@.len() >= 8,
        r is Ok ==> r->Ok_0 as nat == le_value(bytes@.take(8)),
{
    let mut input = bytes;
    <u64 as parity_scale_codec::Decode>::decode(&mut input)
}

/// Relies on parity_scale_codec's `Encode` for `u128`: its sixteen little-endian bytes.
#[verifier::external_body]
fn scale_encode_u128(v: u128) -> (r: Vec<u8>)
    ensures
        r@ == le_bytes(v as nat, 16),
{
    parity_scale_codec::Encode::encode(&v)
}

/// Relies on parity_scale_codec's `Decode` for `u128`: it reads the first
/// sixteen bytes as a little-endian number and fails where there are fewer.
#[verifier::external_body]
fn scale_decode_u128(bytes: &[u8]) -> (r: Result<u128, parity_scale_codec::Error>)
    ensures
        r is Ok <==> bytes@.len() >= 16,
        r is Ok ==> r->Ok_0 as nat == le_value(bytes@.take(16)),
{
    let mut input = bytes;
    <u128 as parity_scale_codec::Decode>::decode(&mut input)
}

impl Codec for u32 {
    open spec fn encoded(&self) -> Seq<u8> {
        le_bytes(*self as nat, 4)
    }

    open spec fn decoded(bytes: Seq<u8>) -> Option<u32> {
        if bytes.len() >= 4 {
            Some(le_value(bytes.take(4)) as u32)
        } else {
            None
        }
    }

    proof fn lemma_decode_encoded(v: u32) {
        lemma_byte_ranges();
        lemma_le_round_trip(v as nat, 4);
        assert(v.encoded().take(4) =~= v.encoded());
    }

    fn encode(&self) -> (r: Vec<u8>) {
        scale_encode_u32(*self)
    }

    fn decode(bytes: &[u8]) -> (r: Option<u32>) {
        match scale_decode_u32(bytes) {
            Ok(v) => Some(v),
            Err(_) => None,
        }
    }
}

impl Codec for u64 {
    open spec fn encoded(&self) -> Seq<u8> {
        le_bytes(*self as nat, 8)
    }

    open spec fn decoded(bytes: Seq<u8>) -> Option<u64> {
        if bytes.len() >= 8 {
            Some(le_value(bytes.take(8)) as u64)
        } else {
            None
        }
    }

    proof fn lemma_decode_encoded(v: u64) {
        lemma_byte_ranges();
        lemma_le_round_trip(v as nat, 8);
        assert(v.encoded().take(8) =~= v.encoded());
    }

    fn encode(&self) -> (r: Vec<u8>) {
        scale_encode_u64(*self)
    }

    fn decode(bytes: &[u8]) -> (r: Option<u64>) {
        match scale_decode_u64(bytes) {
            Ok(v) => Some(v),
            Err(_) => None,
        }
    }
}

impl Codec for u128 {
    open spec fn encoded(&self) -> Seq<u8> {
        le_bytes(*self as nat, 16)
    }

    open spec fn decoded(bytes: Seq<u8>) -> Option<u128> {
        if bytes.len() >= 16 {
            Some(le_value(bytes.take(16)) as u128)
        } else {
            None
        }
    }

    proof fn lemma_decode_encoded(v: u128) {
        lemma_byte_ranges();
        lemma_le_round_trip(v as nat, 16);
        assert(v.encoded().take(16) =~= v.encoded());
    }

    fn encode(&self) -> (r: Vec<u8>) {
        scale_encode_u128(*self)
    }

    fn decode(bytes: &[u8]) -> (r: Option<u128>) {
        match scale_decode_u128(bytes) {
            Ok(v) => Some(v),
            Err(_) => None,
        }
    }
}

} // verus!
