//! Sizes of values in the protobuf wire format.
//!
//! Functions used by generated code to compute the encoded size of a
//! message before it is written.

use vstd::prelude::*;
use vstd::string::StringSliceAdditionalSpecFns;

verus! {

/// The varint encoding of a non-negative integer: little-endian groups of
/// seven bits, every byte but the last with its high bit set.
pub open spec fn varint_encoding(v: nat) -> Seq<u8>
    decreases v,
{
    if v < 128 {
        seq![v as u8]
    } else {
        seq![(v % 128 + 128) as u8] + varint_encoding(v / 128)
    }
}

/// Number of bytes in the varint encoding of `v`.
pub open spec fn varint_len(v: nat) -> nat {
    varint_encoding(v).len()
}

/// `128` raised to the power `k`.
pub open spec fn pow128(k: nat) -> nat
    decreases k,
{
    if k == 0 {
        1
    } else {
        128 * pow128((k - 1) as nat)
    }
}

/// A varint is never empty.
pub proof fn lemma_varint_len_positive(v: nat)
    ensures
        varint_len(v) >= 1,
    decreases v,
{
    if v >= 128 {
        lemma_varint_len_positive(v / 128);
    }
}

/// A value below `128^k` takes at most `k` bytes (`k >= 1`).
pub proof fn lemma_varint_len_upper(v: nat, k: nat)
    requires
        k >= 1,
        v < pow128(k),
    ensures
        varint_len(v) <= k,
    decreases k,
{
    if v >= 128 {
        assert(k >= 2) by {
            if k == 1 {
                reveal_with_fuel(pow128, 2);
            }
        }
        let p = pow128((k - 1) as nat);
        assert(v / 128 < p) by (nonlinear_arith)
            requires
                v < 128 * p,
        ;
        lemma_varint_len_upper(v / 128, (k - 1) as nat);
    }
}

/// A value of at least `128^k` takes more than `k` bytes.
pub proof fn lemma_varint_len_lower(v: nat, k: nat)
    requires
        pow128(k) <= v,
    ensures
        varint_len(v) > k,
    decreases k,
{
    lemma_varint_len_positive(v);
    if k > 0 {
        let p = pow128((k - 1) as nat);
        assert(p >= 1) by {
            lemma_pow128_positive((k - 1) as nat);
        }
        assert(p <= v / 128 && v >= 128) by (nonlinear_arith)
            requires
                128 * p <= v,
                p >= 1,
        ;
        lemma_varint_len_lower(v / 128, (k - 1) as nat);
    }
}

/// Powers of `128` are positive.
pub proof fn lemma_pow128_positive(k: nat)
    ensures
        pow128(k) >= 1,
    decreases k,
{
    if k > 0 {
        lemma_pow128_positive((k - 1) as nat);
    }
}

/// `128^9 == 2^63` and `128^10 == 2^70`.
proof fn lemma_pow128_values()
    ensures
        pow128(5) == 0x8_0000_0000,
        pow128(9) == 0x8000_0000_0000_0000,
        pow128(10) == 0x40_0000_0000_0000_0000,
{
    reveal_with_fuel(pow128, 11);
}

/// The varint length of a value that fits in `u64` is between 1 and 10.
pub proof fn lemma_varint_len_u64(v: u64)
    ensures
        1 <= varint_len(v as nat) <= 10,
{
    lemma_pow128_values();
    lemma_varint_len_positive(v as nat);
    lemma_varint_len_upper(v as nat, 10);
}

/// Given `u64` value compute varint encoded length.
pub fn compute_raw_varint64_size(value: u64) -> (r: u64)
    ensures
        r == varint_len(value as nat),
{
    proof {
        lemma_varint_len_u64(value);
    }
    let mut n: u64 = 1;
    let mut x: u64 = value;
    while x >= 128
        invariant
            1 <= n,
            varint_len(value as nat) <= 10,
            varint_len(value as nat) == n - 1 + varint_len(x as nat),
        decreases x,
    {
        proof {
            lemma_varint_len_positive(x as nat / 128);
        }
        x = x / 128;
        n = n + 1;
    }
    n
}

/// Given `u32` value compute varint encoded length.
pub fn compute_raw_varint32_size(value: u32) -> (r: u64)
    ensures
        r == varint_len(value as nat),
{
    compute_raw_varint64_size(value as u64)
}

/// Helper trait implemented by integer types which could be encoded as varint.
pub trait ProtobufVarint {
    /// The `u64` whose varint encoding represents `self`.
    spec fn varint_u64(&self) -> u64;

    /// Size of self when encoded as varint.
    fn len_varint(&self) -> (r: u64)
        ensures
            r == varint_len(self.varint_u64() as nat),
    ;
}

impl ProtobufVarint for u64 {
    open spec fn varint_u64(&self) -> u64 {
        *self
    }

    fn len_varint(&self) -> (r: u64) {
        compute_raw_varint64_size(*self)
    }
}

impl ProtobufVarint for u32 {
    open spec fn varint_u64(&self) -> u64 {
        *self as u64
    }

    fn len_varint(&self) -> (r: u64) {
        (*self as u64).len_varint()
    }
}

impl ProtobufVarint for i64 {
    /// Two's complement reinterpretation.
    open spec fn varint_u64(&self) -> u64 {
        *self as u64
    }

    fn len_varint(&self) -> (r: u64) {
        // same as length of u64
        (*self as u64).len_varint()
    }
}

impl ProtobufVarint for i32 {
    /// Sign-extended to 64 bits, then reinterpreted.
    open spec fn varint_u64(&self) -> u64 {
        (*self as i64) as u64
    }

    fn len_varint(&self) -> (r: u64) {
        // sign-extend and then compute
        (*self as i64).len_varint()
    }
}

impl ProtobufVarint for bool {
    open spec fn varint_u64(&self) -> u64 {
        if *self {
            1
        } else {
            0
        }
    }

    fn len_varint(&self) -> (r: u64) {
        1
    }
}

/// Spec of the size of a field tag: the varint of `field_number << 3`.
pub open spec fn spec_tag_size(field_number: u32) -> nat {
    varint_len(field_number as nat * 8)
}

/// Compute tag size. Size of tag does not depend on wire type.
pub fn tag_size(field_number: u32) -> (r: u64)
    ensures
        r == spec_tag_size(field_number),
        1 <= r <= 5,
{
    proof {
        lemma_pow128_values();
        lemma_varint_len_positive(field_number as nat * 8);
        lemma_varint_len_upper(field_number as nat * 8, 5);
    }
    compute_raw_varint64_size((field_number as u64) * 8)
}

/// Integer value size when encoded.
fn varint_size<T: ProtobufVarint>(field_number: u32, value: T) -> (r: u64)
    ensures
        r == spec_tag_size(field_number) + varint_len(value.varint_u64() as nat),
{
    let t = tag_size(field_number);
    let v = value.len_varint();
    proof {
        lemma_varint_len_u64(value.varint_u64());
    }
    t + v
}

/// Encoded `int32` size.
pub fn int32_size(field_number: u32, value: i32) -> (r: u64)
    ensures
        r == spec_tag_size(field_number) + varint_len(((value as i64) as u64) as nat),
{
    varint_size(field_number, value)
}

/// Encoded `int64` size.
pub fn int64_size(field_number: u32, value: i64) -> (r: u64)
    ensures
        r == spec_tag_size(field_number) + varint_len((value as u64) as nat),
{
    varint_size(field_number, value)
}

/// Encoded `uint32` size.
pub fn uint32_size(field_number: u32, value: u32) -> (r: u64)
    ensures
        r == spec_tag_size(field_number) + varint_len(value as nat),
{
    varint_size(field_number, value)
}

/// Encoded `uint64` size.
pub fn uint64_size(field_number: u32, value: u64) -> (r: u64)
    ensures
        r == spec_tag_size(field_number) + varint_len(value as nat),
{
    varint_size(field_number, value)
}

/// ZigZag encoding: `0, -1, 1, -2, 2, ...` map to `0, 1, 2, 3, 4, ...`.
pub open spec fn zigzag(v: int) -> nat {
    if v >= 0 {
        (2 * v) as nat
    } else {
        (-2 * v - 1) as nat
    }
}

/// ZigZag in its bitwise form: `(v << 1) ^ (v >> 63)`, the arithmetic
/// shift spreading the sign over every bit.
pub proof fn lemma_zigzag_bits_i64(v: i64)
    ensures
        zigzag(v as int) == (((v as u64) << 1u64) ^ ((v >> 63u64) as u64)) as nat,
{
    assert((((v as u64) << 1u64) ^ ((v >> 63u64) as u64)) == (if v >= 0 {
        2 * v
    } else {
        -2 * v - 1
    })) by (bit_vector);
}

/// ZigZag in its bitwise form: `(v << 1) ^ (v >> 31)`, the arithmetic
/// shift spreading the sign over every bit.
pub proof fn lemma_zigzag_bits_i32(v: i32)
    ensures
        zigzag(v as int) == (((v as u32) << 1u32) ^ ((v >> 31u32) as u32)) as nat,
{
    assert((((v as u32) << 1u32) ^ ((v >> 31u32) as u32)) == (if v >= 0 {
        2 * v
    } else {
        -2 * v - 1
    })) by (bit_vector);
}

/// A value and its bitwise complement `!v == -v - 1` have neighbouring
/// ZigZag codes, so the same size but where the even code ends a power of
/// 128.
pub proof fn lemma_zigzag_complement(v: int)
    requires
        v >= 0,
    ensures
        zigzag(-v - 1) == zigzag(v) + 1,
{
}

/// Integer types which could be encoded as varint after ZigZag encoding.
pub trait ProtobufVarintZigzag {
    /// The integer value.
    spec fn zigzag_value(&self) -> int;

    /// Size of self when encoded as ZigZag varint.
    fn len_varint_zigzag(&self) -> (r: u64)
        ensures
            r == varint_len(zigzag(self.zigzag_value())),
            r <= 10,
    ;
}

impl ProtobufVarintZigzag for i64 {
    open spec fn zigzag_value(&self) -> int {
        *self as int
    }

    fn len_varint_zigzag(&self) -> (r: u64) {
        let v = *self;
        let z: u64 = if v >= 0 {
            (v as u64) * 2
        } else {
            (-(v + 1)) as u64 * 2 + 1
        };
        proof {
            lemma_varint_len_u64(z);
        }
        compute_raw_varint64_size(z)
    }
}

impl ProtobufVarintZigzag for i32 {
    open spec fn zigzag_value(&self) -> int {
        *self as int
    }

    fn len_varint_zigzag(&self) -> (r: u64) {
        let v = *self;
        let z: u32 = if v >= 0 {
            (v as u32) * 2
        } else {
            (-(v + 1)) as u32 * 2 + 1
        };
        proof {
            lemma_varint_len_u64(z as u64);
        }
        compute_raw_varint32_size(z)
    }
}

/// Integer value size when encoded as specified wire type.
pub fn value_varint_zigzag_size_no_tag<T: ProtobufVarintZigzag>(value: T) -> (r: u64)
    ensures
        r == varint_len(zigzag(value.zigzag_value())),
        r <= 10,
{
    value.len_varint_zigzag()
}

/// Length of value when encoding with zigzag encoding with tag
fn value_varint_zigzag_size<T: ProtobufVarintZigzag>(field_number: u32, value: T) -> (r: u64)
    ensures
        r == spec_tag_size(field_number) + varint_len(zigzag(value.zigzag_value())),
{
    let t = tag_size(field_number);
    let v = value_varint_zigzag_size_no_tag(value);
    t + v
}

/// Size of serialized `sint32` field.
pub fn sint32_size(field_number: u32, value: i32) -> (r: u64)
    ensures
        r == spec_tag_size(field_number) + varint_len(zigzag(value as int)),
        r <= spec_tag_size(field_number) + 5,
{
    proof {
        assert(zigzag(value as int) <= u32::MAX);
        lemma_varint_len_u32(zigzag(value as int) as u32);
    }
    value_varint_zigzag_size(field_number, value)
}

/// Size of serialized `sint64` field.
pub fn sint64_size(field_number: u32, value: i64) -> (r: u64)
    ensures
        r == spec_tag_size(field_number) + varint_len(zigzag(value as int)),
        r <= spec_tag_size(field_number) + 10,
{
    proof {
        assert(zigzag(value as int) <= u64::MAX);
        lemma_varint_len_u64(zigzag(value as int) as u64);
    }
    value_varint_zigzag_size(field_number, value)
}

/// Size of a length-delimited payload of `n` bytes, without the tag.
pub open spec fn spec_bytes_size_no_tag(n: nat) -> nat {
    varint_len(n) + n
}

/// Size of encoded bytes field.
pub fn bytes_size_no_tag(bytes: &[u8]) -> (r: u64)
    requires
        spec_bytes_size_no_tag(bytes@.len()) <= u64::MAX,
    ensures
        r == spec_bytes_size_no_tag(bytes@.len()),
{
    let n = bytes.len() as u64;
    compute_raw_varint64_size(n) + n
}

/// Size of encoded bytes field.
pub fn bytes_size(field_number: u32, bytes: &[u8]) -> (r: u64)
    requires
        spec_tag_size(field_number) + spec_bytes_size_no_tag(bytes@.len()) <= u64::MAX,
    ensures
        r == spec_tag_size(field_number) + spec_bytes_size_no_tag(bytes@.len()),
{
    tag_size(field_number) + bytes_size_no_tag(bytes)
}

/// Size of encoded string field.
pub fn string_size_no_tag(s: &str) -> (r: u64)
    requires
        spec_bytes_size_no_tag(s.spec_bytes().len()) <= u64::MAX,
    ensures
        r == spec_bytes_size_no_tag(s.spec_bytes().len()),
{
    bytes_size_no_tag(s.as_bytes())
}

/// Size of encoded string field.
pub fn string_size(field_number: u32, s: &str) -> (r: u64)
    requires
        spec_tag_size(field_number) + spec_bytes_size_no_tag(s.spec_bytes().len()) <= u64::MAX,
    ensures
        r == spec_tag_size(field_number) + spec_bytes_size_no_tag(s.spec_bytes().len()),
{
    tag_size(field_number) + string_size_no_tag(s)
}

/// A larger value never has a shorter varint encoding.
pub proof fn lemma_varint_len_monotonic(a: nat, b: nat)
    requires
        a <= b,
    ensures
        varint_len(a) <= varint_len(b),
    decreases b,
{
    lemma_varint_len_positive(b);
    if a >= 128 {
        lemma_varint_len_monotonic(a / 128, b / 128);
    }
}

/// The varint of `v` has exactly `k + 1` bytes when `128^k <= v < 128^(k+1)`.
pub proof fn lemma_varint_len_exact(v: nat, k: nat)
    requires
        pow128(k) <= v < pow128(k + 1),
    ensures
        varint_len(v) == k + 1,
{
    lemma_varint_len_lower(v, k);
    lemma_varint_len_upper(v, k + 1);
}

/// The size of a tag does not depend on the wire type stored in its low
/// three bits.
pub proof fn lemma_tag_size_independent_of_wire_type(field_number: u32, wire_type: nat)
    requires
        wire_type < 8,
    ensures
        varint_len(field_number as nat * 8 + wire_type) == spec_tag_size(field_number),
{
    let x = field_number as nat * 8;
    if x >= 128 {
        assert((x + wire_type) / 128 == x / 128 && x + wire_type >= 128) by (nonlinear_arith)
            requires
                x == field_number as nat * 8,
                x >= 128,
                wire_type < 8,
        ;
    } else {
        assert(x + wire_type < 128) by (nonlinear_arith)
            requires
                x == field_number as nat * 8,
                x < 128,
                wire_type < 8,
        ;
    }
}

/// Every `u32` fits in at most five varint bytes.
pub proof fn lemma_varint_len_u32(v: u32)
    ensures
        1 <= varint_len(v as nat) <= 5,
{
    lemma_pow128_values();
    lemma_varint_len_positive(v as nat);
    lemma_varint_len_upper(v as nat, 5);
}

/// A negative `int32` is sign-extended and always takes ten bytes, like a
/// negative `int64`.
pub proof fn lemma_negative_varint_len(v: i64)
    requires
        v < 0,
    ensures
        varint_len((v as u64) as nat) == 10,
{
    assert(v < 0 ==> (v as u64) >= 0x8000_0000_0000_0000u64) by (bit_vector);
    lemma_pow128_values();
    lemma_varint_len_exact((v as u64) as nat, 9);
}

} // verus!
